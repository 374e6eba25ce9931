//! The executable game state and the operations that a driver calls on it.

use vstd::prelude::*;
use crate::chance::{draw_spawns, SPAWN_DENOMINATOR, SPAWN_NUMERATOR};
use crate::model::{
    above_floor, dropped, fallen, lemma_spawned_row_next, lemma_spawned_row_none, spawned_row,
    surviving, Command, GameState, Pos,
};

verus! {

/// One falling obstacle.
#[derive(Clone, Copy, Debug, PartialEq, Eq, Structural)]
pub struct FallingBlock {
    pub x: u16,
    pub y: u16,
}

impl View for FallingBlock {
    type V = Pos;

    open spec fn view(&self) -> Pos {
        Pos { x: self.x as int, y: self.y as int }
    }
}

/// The squares of a list of blocks, in the same order.
pub open spec fn squares(blocks: Seq<FallingBlock>) -> Seq<Pos> {
    blocks.map_values(|b: FallingBlock| b@)
}

/// A game in progress. Its fields are private so that every value of the type
/// is a state that the rules can produce.
pub struct Game {
    player_x: u16,
    player_y: u16,
    blocks: Vec<FallingBlock>,
    score: u64,
    width: u16,
    height: u16,
}

impl View for Game {
    type V = GameState;

    closed spec fn view(&self) -> GameState {
        GameState {
            width: self.width as int,
            height: self.height as int,
            player: Pos { x: self.player_x as int, y: self.player_y as int },
            obstacles: squares(self.blocks@),
            score: self.score as int,
        }
    }
}

impl Game {
    /// Every `Game` is a valid state: the player in its row and within the
    /// columns, every obstacle on the board.
    #[verifier::type_invariant]
    pub open spec fn well_formed(self) -> bool {
        self@.valid()
    }

    /// A new game on a board of the given extent: the player in the middle
    /// column of the last row but one, no obstacles, score 0.
    pub fn new(width: u16, height: u16) -> (game: Game)
        ensures
            game@ == GameState::fresh(width as int, height as int),
    {
        let game = Game {
            player_x: width / 2,
            player_y: height.saturating_sub(2),
            blocks: Vec::new(),
            score: 0,
            width,
            height,
        };
        assert(game@.obstacles =~= Seq::<Pos>::empty());
        game
    }

    /// The number of columns of the board.
    pub fn width(&self) -> (w: u16)
        ensures
            w == self@.width,
    {
        self.width
    }

    /// The number of rows of the board.
    pub fn height(&self) -> (h: u16)
        ensures
            h == self@.height,
    {
        self.height
    }

    /// The player's column.
    pub fn player_x(&self) -> (x: u16)
        ensures
            x == self@.player.x,
    {
        self.player_x
    }

    /// The player's row.
    pub fn player_y(&self) -> (y: u16)
        ensures
            y == self@.player.y,
    {
        self.player_y
    }

    /// The number of ticks survived.
    pub fn score(&self) -> (s: u64)
        ensures
            s == self@.score,
    {
        self.score
    }

    /// The live obstacles, oldest first.
    pub fn blocks(&self) -> (blocks: &Vec<FallingBlock>)
        ensures
            squares(blocks@) == self@.obstacles,
    {
        &self.blocks
    }

    /// Is an obstacle on the player's square?
    pub fn check_collision(&self) -> (hit: bool)
        ensures
            hit == self@.collides(),
    {
        let mut i: usize = 0;
        while i < self.blocks.len()
            invariant
                i <= self.blocks.len(),
                forall|j: int| 0 <= j < i ==> squares(self.blocks@)[j] != self@.player,
            decreases self.blocks.len() - i,
        {
            let block = self.blocks[i];
            if block.x == self.player_x && block.y == self.player_y {
                assert(squares(self.blocks@)[i as int] == self@.player);
                return true;
            }
            i += 1;
        }
        false
    }

    /// Moves the player one column to the left; in column 0 nothing changes.
    pub fn move_left(&mut self)
        ensures
            final(self)@ == old(self)@.left(),
            0 <= final(self)@.player.x,
            final(self)@.width >= 1 ==> final(self)@.player.x <= final(self)@.width - 1,
    {
        proof {
            use_type_invariant(&*self);
        }
        if self.player_x > 0 {
            assert(self@.left().valid());
            self.player_x = self.player_x - 1;
        }
    }

    /// Moves the player one column to the right; in the last column nothing
    /// changes.
    pub fn move_right(&mut self)
        ensures
            final(self)@ == old(self)@.right(),
            0 <= final(self)@.player.x,
            final(self)@.width >= 1 ==> final(self)@.player.x <= final(self)@.width - 1,
    {
        proof {
            use_type_invariant(&*self);
        }
        if self.player_x < self.width.saturating_sub(1) {
            assert(self@.right().valid());
            self.player_x = self.player_x + 1;
        }
    }

    /// Carries out a player command. `Quit` and `Ignore` leave the board as
    /// it is: ending the game is the driver's business.
    pub fn apply(&mut self, command: Command)
        ensures
            final(self)@ == old(self)@.apply(command),
            0 <= final(self)@.player.x,
            final(self)@.width >= 1 ==> final(self)@.player.x <= final(self)@.width - 1,
    {
        proof {
            use_type_invariant(&*self);
        }
        match command {
            Command::MoveLeft => self.move_left(),
            Command::MoveRight => self.move_right(),
            Command::Quit => {},
            Command::Ignore => {},
        }
    }

    /// Puts an obstacle on square `(x, y)` if that is a square of the board,
    /// and says whether it did.
    pub fn place_obstacle(&mut self, x: u16, y: u16) -> (placed: bool)
        ensures
            placed == old(self)@.on_board(Pos { x: x as int, y: y as int }),
            placed ==> final(self)@ == old(self)@.with_obstacle(Pos { x: x as int, y: y as int }),
            !placed ==> final(self)@ == old(self)@,
    {
        proof {
            use_type_invariant(&*self);
        }
        if x < self.width && y < self.height {
            let mut blocks: Vec<FallingBlock> = Vec::new();
            std::mem::swap(&mut blocks, &mut self.blocks);
            let ghost earlier = blocks@;
            blocks.push(FallingBlock { x, y });
            assert(squares(blocks@) =~= squares(earlier).push(FallingBlock { x, y }@));
            assert(old(self)@.with_obstacle(FallingBlock { x, y }@).valid());
            self.blocks = blocks;
            true
        } else {
            false
        }
    }

    /// One tick with the outcome of the spawn trials given: column `x` gets a
    /// new obstacle where `spawns[x]` is true (columns past the end of
    /// `spawns` get none), then every obstacle drops a row, those that reach
    /// the bottom edge are removed, and the score goes up by one.
    pub fn advance(&mut self, spawns: &Vec<bool>)
        requires
            old(self)@.score < u64::MAX,
        ensures
            final(self)@ == old(self)@.step(spawns@),
            forall|i: int|
                0 <= i < final(self)@.obstacles.len() ==> 0 <= (
                #[trigger] final(self)@.obstacles[i]).y < final(self)@.height,
    {
        proof {
            use_type_invariant(&*self);
        }
        let ghost before = self@;
        let width = self.width;
        let height = self.height;
        let mut blocks: Vec<FallingBlock> = Vec::new();
        std::mem::swap(&mut blocks, &mut self.blocks);

        // Spawn along the top row.
        proof {
            lemma_spawned_row_none(spawns@);
            assert(squares(blocks@) =~= before.obstacles + spawned_row(0, spawns@));
            assert forall|i: int| 0 <= i < blocks.len() implies (#[trigger] blocks[i]).x < width
                && blocks[i].y < u16::MAX by {
                assert(before.on_board(before.obstacles[i]));
            }
        }
        let mut x: u16 = 0;
        while x < width
            invariant
                x <= width,
                squares(blocks@) == before.obstacles + spawned_row(x as int, spawns@),
                forall|i: int| 0 <= i < blocks.len() ==> (#[trigger] blocks[i]).x < width,
                forall|i: int| 0 <= i < blocks.len() ==> (#[trigger] blocks[i]).y < u16::MAX,
            decreases width - x,
        {
            proof {
                lemma_spawned_row_next(x as int, spawns@);
            }
            if (x as usize) < spawns.len() && spawns[x as usize] {
                let ghost earlier = blocks@;
                blocks.push(FallingBlock { x, y: 0 });
                assert(squares(blocks@) =~= squares(earlier).push(FallingBlock { x, y: 0 }@));
                assert(squares(blocks@) =~= before.obstacles + spawned_row(x as int + 1, spawns@));
            }
            x += 1;
        }

        // Move every block down.
        let ghost spawned = blocks@;
        let mut i: usize = 0;
        while i < blocks.len()
            invariant
                i <= blocks.len(),
                blocks.len() == spawned.len(),
                forall|j: int| 0 <= j < i ==> (#[trigger] blocks[j])@ == dropped(spawned[j]@),
                forall|j: int| i <= j < blocks.len() ==> #[trigger] blocks[j] == spawned[j],
                forall|j: int| 0 <= j < spawned.len() ==> (#[trigger] spawned[j]).y < u16::MAX,
                forall|j: int| 0 <= j < spawned.len() ==> (#[trigger] spawned[j]).x < width,
            decreases blocks.len() - i,
        {
            blocks[i].y += 1;
            i += 1;
        }
        assert(squares(blocks@) =~= fallen(squares(spawned)));

        // Remove those that left the board.
        let ghost lowered = blocks@;
        let mut kept: Vec<FallingBlock> = Vec::new();
        let mut k: usize = 0;
        proof {
            reveal(Seq::filter);
            assert(squares(lowered.take(0)) =~= Seq::<Pos>::empty());
            assert(squares(kept@) =~= surviving(squares(lowered.take(0)), height as int));
        }
        while k < blocks.len()
            invariant
                k <= blocks.len(),
                blocks@ == lowered,
                squares(kept@) == surviving(squares(lowered.take(k as int)), height as int),
                forall|j: int| 0 <= j < kept.len() ==> (#[trigger] kept[j]).y < height,
                forall|j: int| 0 <= j < kept.len() ==> (#[trigger] kept[j]).x < width,
                forall|j: int| 0 <= j < lowered.len() ==> (#[trigger] lowered[j]).x < width,
            decreases blocks.len() - k,
        {
            let block = blocks[k];
            proof {
                let seen = squares(lowered.take(k as int));
                assert(squares(lowered.take(k as int + 1)) =~= seen.push(block@));
                seen.lemma_filter_push(block@, above_floor(height as int));
            }
            if block.y < height {
                let ghost earlier = kept@;
                kept.push(block);
                assert(squares(kept@) =~= squares(earlier).push(block@));
            }
            k += 1;
        }
        assert(lowered.take(lowered.len() as int) =~= lowered);

        self.blocks = kept;
        self.score = self.score + 1;
        proof {
            use_type_invariant(&*self);
        }
    }

    /// One tick of the running game. Each column draws its spawn trial with
    /// probability 1 in 10; the rest is [`Game::advance`] on what was drawn.
    /// Which columns spawned is up to chance, so the new state is the step of
    /// the old one for some spawn mask with one entry per column.
    pub fn update(&mut self)
        requires
            old(self)@.score < u64::MAX,
        ensures
            exists|mask: Seq<bool>|
                mask.len() == old(self)@.width && final(self)@ == #[trigger] old(self)@.step(mask),
            final(self)@.score == old(self)@.score + 1,
            final(self)@.width == old(self)@.width,
            final(self)@.height == old(self)@.height,
            final(self)@.player == old(self)@.player,
            forall|i: int|
                0 <= i < final(self)@.obstacles.len() ==> 0 <= (
                #[trigger] final(self)@.obstacles[i]).y < final(self)@.height,
    {
        let spawns = draw_spawns(self.width, SPAWN_NUMERATOR, SPAWN_DENOMINATOR);
        self.advance(&spawns);
    }
}

} // verus!
