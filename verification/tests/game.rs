use falling_blocks::game::{FallingBlock, Game};
use falling_blocks::model::Command;

fn no_spawns() -> Vec<bool> {
    Vec::new()
}

#[test]
fn new_places_player() {
    let game = Game::new(10, 10);
    assert_eq!(game.width(), 10);
    assert_eq!(game.height(), 10);
    assert_eq!(game.player_x(), 5);
    assert_eq!(game.player_y(), 8);
    assert_eq!(game.score(), 0);
    assert!(game.blocks().is_empty());
    assert!(!game.check_collision());
}

#[test]
fn new_halves_odd_widths_downwards() {
    assert_eq!(Game::new(7, 5).player_x(), 3);
    assert_eq!(Game::new(1, 5).player_x(), 0);
    assert_eq!(Game::new(0, 5).player_x(), 0);
    assert_eq!(Game::new(u16::MAX, 5).player_x(), 32767);
}

#[test]
fn new_keeps_player_row_at_zero_on_low_boards() {
    assert_eq!(Game::new(4, 0).player_y(), 0);
    assert_eq!(Game::new(4, 1).player_y(), 0);
    assert_eq!(Game::new(4, 2).player_y(), 0);
    assert_eq!(Game::new(4, 3).player_y(), 1);
    assert_eq!(Game::new(4, u16::MAX).player_y(), 65533);
}

#[test]
fn move_left_in_column_zero_stays() {
    let mut game = Game::new(10, 10);
    for _ in 0..5 {
        game.move_left();
    }
    assert_eq!(game.player_x(), 0);
    game.move_left();
    assert_eq!(game.player_x(), 0);
    assert_eq!(game.player_y(), 8);
}

#[test]
fn move_right_in_last_column_stays() {
    let mut game = Game::new(10, 10);
    for _ in 0..4 {
        game.move_right();
    }
    assert_eq!(game.player_x(), 9);
    game.move_right();
    assert_eq!(game.player_x(), 9);
    assert_eq!(game.player_y(), 8);
}

#[test]
fn moves_change_the_column_by_one() {
    let mut game = Game::new(10, 10);
    game.move_left();
    assert_eq!(game.player_x(), 4);
    game.move_right();
    game.move_right();
    assert_eq!(game.player_x(), 6);
}

#[test]
fn any_series_of_moves_stays_within_the_columns() {
    let mut game = Game::new(4, 6);
    let mut seed: u32 = 12345;
    for _ in 0..1000 {
        seed = seed.wrapping_mul(1664525).wrapping_add(1013904223);
        if (seed >> 16) % 2 == 0 {
            game.move_left();
        } else {
            game.move_right();
        }
        assert!(game.player_x() <= 3);
        assert_eq!(game.player_y(), 4);
    }
}

#[test]
fn player_cannot_move_on_a_board_without_columns() {
    let mut game = Game::new(0, 10);
    game.move_right();
    assert_eq!(game.player_x(), 0);
    game.move_left();
    assert_eq!(game.player_x(), 0);
}

#[test]
fn player_cannot_move_on_a_board_with_one_column() {
    let mut game = Game::new(1, 10);
    game.move_right();
    assert_eq!(game.player_x(), 0);
    game.move_left();
    assert_eq!(game.player_x(), 0);
}

#[test]
fn apply_carries_out_moves_only() {
    let mut game = Game::new(10, 10);
    game.apply(Command::MoveLeft);
    assert_eq!(game.player_x(), 4);
    game.apply(Command::MoveRight);
    game.apply(Command::MoveRight);
    assert_eq!(game.player_x(), 6);
    game.apply(Command::Quit);
    game.apply(Command::Ignore);
    assert_eq!(game.player_x(), 6);
    assert_eq!(game.score(), 0);
    assert!(game.blocks().is_empty());
}

#[test]
fn score_counts_updates() {
    let mut game = Game::new(12, 9);
    for n in 1..=50u64 {
        game.update();
        assert_eq!(game.score(), n);
    }
}

#[test]
fn score_counts_advances() {
    let mut game = Game::new(12, 9);
    let spawns = vec![true, false, true];
    for n in 1..=50u64 {
        game.advance(&spawns);
        assert_eq!(game.score(), n);
    }
}

#[test]
fn update_keeps_every_obstacle_on_the_board() {
    let mut game = Game::new(30, 7);
    for _ in 0..200 {
        game.update();
        for block in game.blocks() {
            assert!(block.x < 30);
            assert!(block.y >= 1);
            assert!(block.y < 7);
        }
        assert_eq!(game.player_x(), 15);
        assert_eq!(game.player_y(), 5);
    }
    assert!(!game.blocks().is_empty());
}

#[test]
fn update_leaves_extent_and_player_alone() {
    let mut game = Game::new(8, 8);
    game.move_left();
    game.update();
    assert_eq!(game.width(), 8);
    assert_eq!(game.height(), 8);
    assert_eq!(game.player_x(), 3);
    assert_eq!(game.player_y(), 6);
}

#[test]
fn updates_without_spawns_keep_an_empty_board_empty() {
    let mut game = Game::new(10, 10);
    let nothing = vec![false; 10];
    for n in 1..=25u64 {
        game.advance(&nothing);
        assert!(game.blocks().is_empty());
        assert_eq!(game.score(), n);
    }
}

#[test]
fn updates_without_spawns_are_repeatable() {
    let mut first = Game::new(10, 10);
    let mut second = Game::new(10, 10);
    assert!(first.place_obstacle(2, 3));
    assert!(second.place_obstacle(2, 3));
    for _ in 0..4 {
        first.advance(&no_spawns());
        second.advance(&vec![false; 10]);
    }
    assert_eq!(first.blocks(), second.blocks());
    assert_eq!(first.score(), second.score());
    assert_eq!(first.blocks(), &vec![FallingBlock { x: 2, y: 7 }]);
}

#[test]
fn falling_obstacle_reaches_the_player() {
    let mut game = Game::new(10, 10);
    assert_eq!((game.player_x(), game.player_y()), (5, 8));
    assert!(game.place_obstacle(5, 0));
    for tick in 1..=8u16 {
        assert!(!game.check_collision());
        game.advance(&no_spawns());
        assert_eq!(game.blocks(), &vec![FallingBlock { x: 5, y: tick }]);
    }
    assert_eq!(game.blocks(), &vec![FallingBlock { x: 5, y: 8 }]);
    assert!(game.check_collision());
    assert_eq!(game.score(), 8);
}

#[test]
fn collision_needs_an_obstacle_on_the_player_square() {
    let mut game = Game::new(10, 10);
    assert!(game.place_obstacle(4, 8));
    assert!(game.place_obstacle(6, 8));
    assert!(game.place_obstacle(5, 7));
    assert!(game.place_obstacle(5, 9));
    assert!(game.place_obstacle(8, 5));
    assert!(!game.check_collision());
    assert!(game.place_obstacle(5, 8));
    assert!(game.check_collision());
}

#[test]
fn collision_follows_the_player() {
    let mut game = Game::new(10, 10);
    assert!(game.place_obstacle(4, 8));
    assert!(!game.check_collision());
    game.move_left();
    assert!(game.check_collision());
    game.move_left();
    assert!(!game.check_collision());
}

#[test]
fn check_collision_changes_nothing() {
    let mut game = Game::new(10, 10);
    assert!(game.place_obstacle(5, 8));
    assert!(game.check_collision());
    assert!(game.check_collision());
    assert_eq!(game.blocks(), &vec![FallingBlock { x: 5, y: 8 }]);
    assert_eq!(game.score(), 0);
    assert_eq!((game.player_x(), game.player_y()), (5, 8));
}

#[test]
fn place_obstacle_refuses_squares_off_the_board() {
    let mut game = Game::new(10, 6);
    assert!(!game.place_obstacle(10, 0));
    assert!(!game.place_obstacle(0, 6));
    assert!(!game.place_obstacle(u16::MAX, u16::MAX));
    assert!(game.blocks().is_empty());
    assert!(game.place_obstacle(9, 5));
    assert!(game.place_obstacle(0, 0));
    assert_eq!(
        game.blocks(),
        &vec![FallingBlock { x: 9, y: 5 }, FallingBlock { x: 0, y: 0 }]
    );
    let mut flat = Game::new(10, 0);
    assert!(!flat.place_obstacle(0, 0));
    let mut thin = Game::new(0, 10);
    assert!(!thin.place_obstacle(0, 0));
}

#[test]
fn place_obstacle_keeps_duplicates() {
    let mut game = Game::new(10, 10);
    assert!(game.place_obstacle(3, 3));
    assert!(game.place_obstacle(3, 3));
    assert_eq!(game.blocks().len(), 2);
    game.advance(&no_spawns());
    assert_eq!(
        game.blocks(),
        &vec![FallingBlock { x: 3, y: 4 }, FallingBlock { x: 3, y: 4 }]
    );
}

#[test]
fn advance_spawns_where_the_mask_says() {
    let mut game = Game::new(5, 10);
    game.advance(&vec![true, false, true, false, true]);
    assert_eq!(
        game.blocks(),
        &vec![
            FallingBlock { x: 0, y: 1 },
            FallingBlock { x: 2, y: 1 },
            FallingBlock { x: 4, y: 1 },
        ]
    );
    assert_eq!(game.score(), 1);
}

#[test]
fn advance_puts_new_obstacles_after_old_ones() {
    let mut game = Game::new(5, 10);
    game.advance(&vec![false, false, false, true, false]);
    game.advance(&vec![true, true, false, false, false]);
    assert_eq!(
        game.blocks(),
        &vec![
            FallingBlock { x: 3, y: 2 },
            FallingBlock { x: 0, y: 1 },
            FallingBlock { x: 1, y: 1 },
        ]
    );
    assert_eq!(game.score(), 2);
}

#[test]
fn advance_ignores_mask_entries_past_the_board() {
    let mut game = Game::new(2, 10);
    game.advance(&vec![false, true, true, true]);
    assert_eq!(game.blocks(), &vec![FallingBlock { x: 1, y: 1 }]);
}

#[test]
fn advance_spawns_nothing_past_the_end_of_the_mask() {
    let mut game = Game::new(4, 10);
    game.advance(&vec![true]);
    assert_eq!(game.blocks(), &vec![FallingBlock { x: 0, y: 1 }]);
    game.advance(&Vec::new());
    assert_eq!(game.blocks(), &vec![FallingBlock { x: 0, y: 2 }]);
}

#[test]
fn advance_removes_obstacles_at_the_bottom_edge() {
    let mut game = Game::new(10, 4);
    assert!(game.place_obstacle(1, 3));
    assert!(game.place_obstacle(2, 2));
    assert!(game.place_obstacle(3, 3));
    assert!(game.place_obstacle(4, 0));
    game.advance(&no_spawns());
    assert_eq!(
        game.blocks(),
        &vec![FallingBlock { x: 2, y: 3 }, FallingBlock { x: 4, y: 1 }]
    );
    game.advance(&no_spawns());
    assert_eq!(game.blocks(), &vec![FallingBlock { x: 4, y: 2 }]);
    game.advance(&no_spawns());
    assert_eq!(game.blocks(), &vec![FallingBlock { x: 4, y: 3 }]);
    game.advance(&no_spawns());
    assert!(game.blocks().is_empty());
    assert_eq!(game.score(), 4);
}

#[test]
fn obstacle_lives_for_height_minus_one_ticks() {
    let mut game = Game::new(3, 6);
    game.advance(&vec![false, true, false]);
    for tick in 1..=5u16 {
        assert_eq!(game.blocks(), &vec![FallingBlock { x: 1, y: tick }]);
        game.advance(&no_spawns());
    }
    assert!(game.blocks().is_empty());
}

#[test]
fn boards_of_height_zero_and_one_never_hold_an_obstacle() {
    for height in 0..=1u16 {
        let mut game = Game::new(6, height);
        for n in 1..=5u64 {
            game.advance(&vec![true; 6]);
            assert!(game.blocks().is_empty());
            assert_eq!(game.score(), n);
            assert!(!game.check_collision());
        }
    }
}

#[test]
fn board_of_height_two_has_obstacles_below_the_player_only() {
    let mut game = Game::new(3, 2);
    assert_eq!(game.player_y(), 0);
    game.advance(&vec![true, true, true]);
    assert_eq!(
        game.blocks(),
        &vec![
            FallingBlock { x: 0, y: 1 },
            FallingBlock { x: 1, y: 1 },
            FallingBlock { x: 2, y: 1 },
        ]
    );
    assert!(!game.check_collision());
    game.advance(&no_spawns());
    assert!(game.blocks().is_empty());
}

#[test]
fn widest_board_spawns_in_every_column() {
    let mut game = Game::new(u16::MAX, 3);
    game.advance(&vec![true; 65535]);
    assert_eq!(game.blocks().len(), 65535);
    assert_eq!(game.blocks()[0], FallingBlock { x: 0, y: 1 });
    assert_eq!(game.blocks()[65534], FallingBlock { x: 65534, y: 1 });
    game.advance(&no_spawns());
    assert_eq!(game.blocks().len(), 65535);
    game.advance(&no_spawns());
    assert!(game.blocks().is_empty());
}

#[test]
fn tallest_board_lets_an_obstacle_reach_the_last_row() {
    let mut game = Game::new(1, u16::MAX);
    assert!(game.place_obstacle(0, 65533));
    assert!(game.check_collision());
    game.advance(&no_spawns());
    assert_eq!(game.blocks(), &vec![FallingBlock { x: 0, y: 65534 }]);
    assert!(!game.check_collision());
    game.advance(&no_spawns());
    assert!(game.blocks().is_empty());
}
