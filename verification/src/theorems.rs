//! What holds of every game, proved from the model alone.

use vstd::prelude::*;
use crate::session::{ticks_in, Event, Phase, SessionState};
use crate::model::{
    above_floor, columns, column_spawns, dropped, fallen, fallen_by, lemma_spawned_row_next,
    lemma_spawned_row_none, quiet, spawned_row, surviving, top_of, Command, GameState, Pos,
};

verus! {

/// Every obstacle that a spawn phase adds sits in the top row, in a column of
/// the board.
pub proof fn spawned_row_is_in_top_row(width: int, mask: Seq<bool>)
    ensures
        forall|i: int|
            0 <= i < spawned_row(width, mask).len() ==> {
                &&& (#[trigger] spawned_row(width, mask)[i]).y == 0
                &&& 0 <= spawned_row(width, mask)[i].x < width
            },
    decreases width,
{
    if width <= 0 {
        assert(columns(width) =~= columns(0));
        lemma_spawned_row_none(mask);
    } else {
        spawned_row_is_in_top_row(width - 1, mask);
        lemma_spawned_row_next(width - 1, mask);
    }
}

/// A spawn phase adds an obstacle to exactly the columns of the board whose
/// trial succeeded, one each, from left to right.
pub proof fn spawned_row_lists_the_winning_columns(width: int, mask: Seq<bool>)
    ensures
        forall|x: int|
            spawned_row(width, mask).contains(#[trigger] top_of(x)) <==> 0 <= x < width
                && column_spawns(mask)(x),
        forall|i: int, j: int|
            0 <= i < j < spawned_row(width, mask).len() ==> (#[trigger] spawned_row(
                width,
                mask,
            )[i]).x < (#[trigger] spawned_row(width, mask)[j]).x,
    decreases width,
{
    let row = spawned_row(width, mask);
    if width <= 0 {
        assert(columns(width) =~= columns(0));
        lemma_spawned_row_none(mask);
    } else {
        let narrow = spawned_row(width - 1, mask);
        spawned_row_lists_the_winning_columns(width - 1, mask);
        spawned_row_is_in_top_row(width - 1, mask);
        lemma_spawned_row_next(width - 1, mask);
        assert forall|x: int| row.contains(#[trigger] top_of(x)) <==> 0 <= x < width
            && column_spawns(mask)(x) by {
            if column_spawns(mask)(width - 1) {
                assert(row[narrow.len() as int] == top_of(width - 1));
                if narrow.contains(top_of(x)) {
                    let i = choose|i: int| 0 <= i < narrow.len() && narrow[i] == top_of(x);
                    assert(row[i] == top_of(x));
                }
                if row.contains(top_of(x)) && x != width - 1 {
                    let i = choose|i: int| 0 <= i < row.len() && row[i] == top_of(x);
                    assert(narrow[i] == top_of(x));
                }
            }
        }
    }
}

/// Where no trial succeeds, the spawn phase adds nothing.
pub proof fn quiet_row_is_empty(width: int, mask: Seq<bool>)
    requires
        quiet(width, mask),
    ensures
        spawned_row(width, mask) == Seq::<Pos>::empty(),
    decreases width,
{
    if width <= 0 {
        assert(columns(width) =~= columns(0));
        lemma_spawned_row_none(mask);
    } else {
        quiet_row_is_empty(width - 1, mask);
        lemma_spawned_row_next(width - 1, mask);
    }
}

/// The culling invariant: after a tick every obstacle is on the board, and
/// none is left in the top row, since what spawned has already dropped once.
pub proof fn step_keeps_obstacles_on_board(state: GameState, mask: Seq<bool>)
    requires
        state.valid(),
    ensures
        state.step(mask).valid(),
        forall|i: int|
            0 <= i < state.step(mask).obstacles.len() ==> 1 <= (
            #[trigger] state.step(mask).obstacles[i]).y < state.height,
{
    let spawned = state.obstacles + spawned_row(state.width, mask);
    let lowered = fallen(spawned);
    let kept = surviving(lowered, state.height);
    spawned_row_is_in_top_row(state.width, mask);
    assert forall|i: int| 0 <= i < kept.len() implies {
        &&& 1 <= (#[trigger] kept[i]).y < state.height
        &&& 0 <= kept[i].x < state.width
    } by {
        lowered.lemma_filter_pred(above_floor(state.height), i);
        assert(kept.contains(kept[i]));
        lowered.lemma_filter_contains_rev(above_floor(state.height), kept[i]);
        let j = choose|j: int| 0 <= j < lowered.len() && lowered[j] == kept[i];
        assert(lowered[j] == dropped(spawned[j]));
        if j < state.obstacles.len() {
            assert(state.on_board(state.obstacles[j]));
        } else {
            assert(spawned[j] == spawned_row(state.width, mask)[j - state.obstacles.len()]);
        }
    }
    assert(state.step(mask).obstacles == kept);
}

/// The culling invariant over a whole game: whatever the spawn trials give,
/// tick after tick, every obstacle stays on the board.
pub proof fn run_keeps_obstacles_on_board(state: GameState, masks: Seq<Seq<bool>>)
    requires
        state.valid(),
    ensures
        state.run(masks).valid(),
    decreases masks.len(),
{
    if masks.len() > 0 {
        run_keeps_obstacles_on_board(state, masks.drop_last());
        step_keeps_obstacles_on_board(state.run(masks.drop_last()), masks.last());
    }
}

/// Ticks touch neither the board's extent nor the player, and each adds
/// exactly one to the score.
pub proof fn score_counts_ticks(state: GameState, masks: Seq<Seq<bool>>)
    ensures
        state.run(masks).score == state.score + masks.len(),
        state.run(masks).width == state.width,
        state.run(masks).height == state.height,
        state.run(masks).player == state.player,
    decreases masks.len(),
{
    if masks.len() > 0 {
        score_counts_ticks(state, masks.drop_last());
    }
}

/// After `n` ticks from a fresh state the score is `n`.
pub proof fn fresh_game_scores_its_ticks(width: int, height: int, masks: Seq<Seq<bool>>)
    ensures
        GameState::fresh(width, height).run(masks).score == masks.len(),
{
    score_counts_ticks(GameState::fresh(width, height), masks);
}

/// A tick in which nothing spawns, on a board without obstacles, changes the
/// score and nothing else.
pub proof fn quiet_step_on_empty_board(state: GameState, mask: Seq<bool>)
    requires
        state.obstacles.len() == 0,
        quiet(state.width, mask),
    ensures
        state.step(mask) == state.count(),
{
    quiet_row_is_empty(state.width, mask);
    reveal(Seq::filter);
    let spawned = state.obstacles + spawned_row(state.width, mask);
    assert(spawned =~= Seq::<Pos>::empty());
    assert(fallen(spawned) =~= Seq::<Pos>::empty());
    assert(surviving(fallen(spawned), state.height) =~= Seq::<Pos>::empty());
    assert(state.step(mask).obstacles =~= state.obstacles);
}

/// Without spawns the game is fully determined: `n` ticks on a board without
/// obstacles leave it without obstacles and add `n` to the score.
pub proof fn quiet_run_stays_empty(state: GameState, masks: Seq<Seq<bool>>)
    requires
        state.obstacles.len() == 0,
        forall|k: int| 0 <= k < masks.len() ==> quiet(state.width, #[trigger] masks[k]),
    ensures
        state.run(masks).obstacles == Seq::<Pos>::empty(),
        state.run(masks).score == state.score + masks.len(),
        state.run(masks) == (GameState { score: state.score + masks.len(), ..state }),
    decreases masks.len(),
{
    if masks.len() == 0 {
        assert(state.obstacles =~= Seq::<Pos>::empty());
    } else {
        let earlier = masks.drop_last();
        assert forall|k: int| 0 <= k < earlier.len() implies quiet(
            state.width,
            #[trigger] earlier[k],
        ) by {
            assert(earlier[k] == masks[k]);
        }
        quiet_run_stays_empty(state, earlier);
        assert(quiet(state.width, masks[masks.len() - 1]));
        quiet_step_on_empty_board(state.run(earlier), masks.last());
    }
}

/// An obstacle that the cull phase removes would not have survived the next
/// tick either: culling before the fall changes nothing after it.
pub proof fn culled_obstacles_stay_culled(obstacles: Seq<Pos>, height: int)
    ensures
        surviving(fallen(surviving(obstacles, height)), height) == surviving(
            fallen(obstacles),
            height,
        ),
    decreases obstacles.len(),
{
    reveal(Seq::filter);
    if obstacles.len() == 0 {
        assert(fallen(obstacles) =~= obstacles);
    } else {
        let earlier = obstacles.drop_last();
        let last = obstacles.last();
        culled_obstacles_stay_culled(earlier, height);
        assert(obstacles =~= earlier.push(last));
        assert(fallen(obstacles) =~= fallen(earlier).push(dropped(last)));
        earlier.lemma_filter_push(last, above_floor(height));
        fallen(earlier).lemma_filter_push(dropped(last), above_floor(height));
        if last.y < height {
            let kept = surviving(earlier, height);
            assert(fallen(kept.push(last)) =~= fallen(kept).push(dropped(last)));
            fallen(kept).lemma_filter_push(dropped(last), above_floor(height));
        }
    }
}

/// The cull phase keeps a list whose obstacles are all above the bottom edge
/// as it is.
pub proof fn nothing_to_cull_above_the_floor(obstacles: Seq<Pos>, height: int)
    requires
        forall|i: int| 0 <= i < obstacles.len() ==> (#[trigger] obstacles[i]).y < height,
    ensures
        surviving(obstacles, height) == obstacles,
    decreases obstacles.len(),
{
    reveal(Seq::filter);
    if obstacles.len() > 0 {
        let earlier = obstacles.drop_last();
        nothing_to_cull_above_the_floor(earlier, height);
        assert(obstacles =~= earlier.push(obstacles.last()));
    }
}

/// Without spawns every obstacle falls straight down, one row per tick, until
/// it reaches the bottom edge: after `n` ticks the board holds, in their old
/// order, the obstacles that are still above the edge, `n` rows further down.
pub proof fn quiet_run_drops_obstacles(state: GameState, masks: Seq<Seq<bool>>)
    requires
        state.valid(),
        forall|k: int| 0 <= k < masks.len() ==> quiet(state.width, #[trigger] masks[k]),
    ensures
        state.run(masks).obstacles == surviving(
            fallen_by(state.obstacles, masks.len() as int),
            state.height,
        ),
    decreases masks.len(),
{
    let height = state.height;
    if masks.len() == 0 {
        assert(fallen_by(state.obstacles, 0) =~= state.obstacles);
        assert forall|i: int| 0 <= i < state.obstacles.len() implies (
        #[trigger] state.obstacles[i]).y < height by {
            assert(state.on_board(state.obstacles[i]));
        }
        nothing_to_cull_above_the_floor(state.obstacles, height);
    } else {
        let earlier = masks.drop_last();
        assert forall|k: int| 0 <= k < earlier.len() implies quiet(
            state.width,
            #[trigger] earlier[k],
        ) by {
            assert(earlier[k] == masks[k]);
        }
        quiet_run_drops_obstacles(state, earlier);
        score_counts_ticks(state, earlier);
        let before = state.run(earlier);
        let sunk = fallen_by(state.obstacles, earlier.len() as int);
        assert(quiet(state.width, masks[masks.len() - 1]));
        quiet_row_is_empty(before.width, masks.last());
        assert(before.obstacles + spawned_row(before.width, masks.last()) =~= before.obstacles);
        culled_obstacles_stay_culled(sunk, height);
        assert(fallen(sunk) =~= fallen_by(state.obstacles, masks.len() as int));
    }
}

/// Commands move the player along its row and change nothing else; the board
/// stays valid.
pub proof fn commands_only_move_the_player(state: GameState, commands: Seq<Command>)
    requires
        state.valid(),
    ensures
        state.apply_all(commands).valid(),
        state.apply_all(commands) == (GameState {
            player: Pos { x: state.apply_all(commands).player.x, y: state.player.y },
            ..state
        }),
    decreases commands.len(),
{
    if commands.len() > 0 {
        commands_only_move_the_player(state, commands.drop_last());
    }
}

/// The clamping invariant: on a board with at least one column, no series of
/// commands takes the player out of the columns `0 ..= width - 1`.
pub proof fn player_stays_in_columns(state: GameState, commands: Seq<Command>)
    requires
        state.valid(),
        state.width >= 1,
    ensures
        0 <= state.apply_all(commands).player.x <= state.width - 1,
{
    commands_only_move_the_player(state, commands);
}

/// A collision is exactly an obstacle whose column and row are the player's.
pub proof fn collision_is_an_obstacle_on_the_player(state: GameState)
    ensures
        state.collides() <==> exists|i: int|
            0 <= i < state.obstacles.len() && (#[trigger] state.obstacles[i]).x == state.player.x
                && state.obstacles[i].y == state.player.y,
{
    if state.collides() {
        let i = choose|i: int| 0 <= i < state.obstacles.len() && state.obstacles[i] == state.player;
        assert(state.obstacles[i].x == state.player.x);
    }
    if exists|i: int|
        0 <= i < state.obstacles.len() && (#[trigger] state.obstacles[i]).x == state.player.x
            && state.obstacles[i].y == state.player.y {
        let i = choose|i: int|
            0 <= i < state.obstacles.len() && (#[trigger] state.obstacles[i]).x == state.player.x
                && state.obstacles[i].y == state.player.y;
        assert(state.obstacles[i] == state.player);
    }
}

/// An obstacle put on the player's square collides; a board without
/// obstacles does not.
pub proof fn obstacle_on_player_collides(state: GameState)
    ensures
        state.with_obstacle(state.player).collides(),
        state.obstacles.len() == 0 ==> !state.collides(),
{
    let after = state.with_obstacle(state.player);
    assert(after.obstacles[state.obstacles.len() as int] == state.player);
}

/// `GameOver` and `Stopped` are final: once a session has left `Running`, no
/// key and no tick changes anything.
pub proof fn finished_session_stays_as_it_is(session: SessionState, events: Seq<Event>)
    requires
        session.phase != Phase::Running,
    ensures
        session.after_all(events) == session,
    decreases events.len(),
{
    if events.len() > 0 {
        finished_session_stays_as_it_is(session, events.drop_last());
    }
}

/// Keys and ticks in any order keep a session valid: the obstacles stay on
/// the board, the player stays in its row and within the columns, and the
/// game is over only with an obstacle on the player.
pub proof fn events_keep_session_valid(session: SessionState, events: Seq<Event>)
    requires
        session.valid(),
    ensures
        session.after_all(events).valid(),
    decreases events.len(),
{
    if events.len() > 0 {
        events_keep_session_valid(session, events.drop_last());
        let earlier = session.after_all(events.drop_last());
        match events.last() {
            Event::Pressed(key) => {},
            Event::Ticked(mask) => {
                step_keeps_obstacles_on_board(earlier.game, mask);
            },
        }
    }
}

/// The score of a session counts the ticks that it took while running and
/// nothing else: it never goes down, and a session that is still running has
/// taken every tick that the clock asked for.
pub proof fn session_score_counts_running_ticks(session: SessionState, events: Seq<Event>)
    ensures
        session.after_all(events).game.score >= session.game.score,
        session.after_all(events).game.score <= session.game.score + ticks_in(events),
        session.after_all(events).phase == Phase::Running ==> session.after_all(events).game.score
            == session.game.score + ticks_in(events),
        session.after_all(events).phase == Phase::Running ==> session.phase == Phase::Running,
    decreases events.len(),
{
    if events.len() > 0 {
        session_score_counts_running_ticks(session, events.drop_last());
    }
}

} // verus!
