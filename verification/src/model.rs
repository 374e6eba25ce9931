//! The game as mathematics: positions, the board state, and what one tick and
//! one player command do to it.

use vstd::prelude::*;

verus! {

/// One square of the board, counted from the top-left corner.
pub struct Pos {
    pub x: int,
    pub y: int,
}

/// A command that the player can give between ticks.
#[derive(Clone, Copy, Debug, PartialEq, Eq, Structural)]
pub enum Command {
    MoveLeft,
    MoveRight,
    Quit,
    Ignore,
}

/// Everything the rules read: the board's extent, the player's square, the
/// live obstacles in the order in which they appeared, and the score.
pub struct GameState {
    pub width: int,
    pub height: int,
    pub player: Pos,
    pub obstacles: Seq<Pos>,
    pub score: int,
}

/// The row on which the player lives: the last but one, or row 0 on a board
/// that is too low to have one.
pub open spec fn player_row(height: int) -> int {
    if height >= 2 {
        height - 2
    } else {
        0
    }
}

/// The obstacle one row further down.
pub open spec fn dropped(p: Pos) -> Pos {
    Pos { x: p.x, y: p.y + 1 }
}

/// Every obstacle of the list one row further down.
pub open spec fn fallen(obstacles: Seq<Pos>) -> Seq<Pos> {
    obstacles.map_values(|p: Pos| dropped(p))
}

/// Every obstacle of the list `rows` rows further down.
pub open spec fn fallen_by(obstacles: Seq<Pos>, rows: int) -> Seq<Pos> {
    obstacles.map_values(|p: Pos| Pos { x: p.x, y: p.y + rows })
}

/// The test that the cull phase applies: is the square above the bottom edge?
pub open spec fn above_floor(height: int) -> spec_fn(Pos) -> bool {
    |p: Pos| p.y < height
}

/// The obstacles of the list that are above the bottom edge, in their order.
pub open spec fn surviving(obstacles: Seq<Pos>, height: int) -> Seq<Pos> {
    obstacles.filter(above_floor(height))
}

/// Does column `x` win its trial? Columns past the end of `mask` do not.
pub open spec fn column_spawns(mask: Seq<bool>) -> spec_fn(int) -> bool {
    |x: int| 0 <= x < mask.len() && mask[x]
}

/// The top square of column `x`, where obstacles appear.
pub open spec fn top_of(x: int) -> Pos {
    Pos { x, y: 0 }
}

/// The columns of a board, from left to right.
pub open spec fn columns(width: int) -> Seq<int> {
    Seq::new(if width > 0 { width as nat } else { 0 }, |x: int| x)
}

/// Does no trial of `mask` succeed on a board that is `width` columns wide?
pub open spec fn quiet(width: int, mask: Seq<bool>) -> bool {
    forall|x: int| 0 <= x < width && x < mask.len() ==> !#[trigger] mask[x]
}

/// The obstacles that one spawn phase adds: one in the top row for every
/// column of the board whose trial succeeded, from left to right.
pub open spec fn spawned_row(width: int, mask: Seq<bool>) -> Seq<Pos> {
    columns(width).filter(column_spawns(mask)).map_values(|x: int| top_of(x))
}

/// A board without columns spawns nothing.
pub proof fn lemma_spawned_row_none(mask: Seq<bool>)
    ensures
        spawned_row(0, mask) == Seq::<Pos>::empty(),
{
    reveal(Seq::filter);
    assert(columns(0).filter(column_spawns(mask)) =~= Seq::<int>::empty());
    assert(spawned_row(0, mask) =~= Seq::<Pos>::empty());
}

/// Widening the board by one column adds that column's obstacle, if its trial
/// succeeded, after those of the columns to its left.
pub proof fn lemma_spawned_row_next(width: int, mask: Seq<bool>)
    requires
        0 <= width,
    ensures
        spawned_row(width + 1, mask) == if column_spawns(mask)(width) {
            spawned_row(width, mask).push(top_of(width))
        } else {
            spawned_row(width, mask)
        },
{
    let narrow = columns(width);
    assert(columns(width + 1) =~= narrow.push(width));
    narrow.lemma_filter_push(width, column_spawns(mask));
    if column_spawns(mask)(width) {
        assert(spawned_row(width + 1, mask) =~= spawned_row(width, mask).push(top_of(width)));
    }
}

impl GameState {
    /// The state in which every game starts.
    pub open spec fn fresh(width: int, height: int) -> GameState {
        GameState {
            width,
            height,
            player: Pos { x: width / 2, y: player_row(height) },
            obstacles: Seq::empty(),
            score: 0,
        }
    }

    /// Is `p` a square of this board?
    pub open spec fn on_board(self, p: Pos) -> bool {
        0 <= p.x < self.width && 0 <= p.y < self.height
    }

    /// What holds of every state that a game can reach.
    pub open spec fn valid(self) -> bool {
        &&& 0 <= self.width
        &&& 0 <= self.height
        &&& 0 <= self.score
        &&& 0 <= self.player.x
        &&& self.player.x < self.width || self.player.x == 0
        &&& self.player.y == player_row(self.height)
        &&& forall|i: int|
            0 <= i < self.obstacles.len() ==> self.on_board(#[trigger] self.obstacles[i])
    }

    /// Spawn phase: the columns that `mask` selects each get a new obstacle
    /// in the top row.
    pub open spec fn spawn(self, mask: Seq<bool>) -> GameState {
        GameState { obstacles: self.obstacles + spawned_row(self.width, mask), ..self }
    }

    /// Advance phase: every obstacle drops by one row.
    pub open spec fn fall(self) -> GameState {
        GameState { obstacles: fallen(self.obstacles), ..self }
    }

    /// Cull phase: obstacles at or below the bottom edge leave the game.
    pub open spec fn cull(self) -> GameState {
        GameState { obstacles: surviving(self.obstacles, self.height), ..self }
    }

    /// Score phase: one more tick survived.
    pub open spec fn count(self) -> GameState {
        GameState { score: self.score + 1, ..self }
    }

    /// One tick: the four phases in their fixed order.
    pub open spec fn step(self, mask: Seq<bool>) -> GameState {
        self.spawn(mask).fall().cull().count()
    }

    /// One tick after another, one spawn mask for each.
    pub open spec fn run(self, masks: Seq<Seq<bool>>) -> GameState
        decreases masks.len(),
    {
        if masks.len() == 0 {
            self
        } else {
            self.run(masks.drop_last()).step(masks.last())
        }
    }

    /// Does an obstacle sit on the player's square?
    pub open spec fn collides(self) -> bool {
        self.obstacles.contains(self.player)
    }

    /// The player one column to the left, unless already in column 0.
    pub open spec fn left(self) -> GameState {
        if self.player.x > 0 {
            GameState { player: Pos { x: self.player.x - 1, y: self.player.y }, ..self }
        } else {
            self
        }
    }

    /// The player one column to the right, unless already in the last column.
    pub open spec fn right(self) -> GameState {
        if self.player.x + 1 < self.width {
            GameState { player: Pos { x: self.player.x + 1, y: self.player.y }, ..self }
        } else {
            self
        }
    }

    /// What a command does to the board; only the two moves change it.
    pub open spec fn apply(self, command: Command) -> GameState {
        match command {
            Command::MoveLeft => self.left(),
            Command::MoveRight => self.right(),
            Command::Quit => self,
            Command::Ignore => self,
        }
    }

    /// The board after a series of commands, the first one first.
    pub open spec fn apply_all(self, commands: Seq<Command>) -> GameState
        decreases commands.len(),
    {
        if commands.len() == 0 {
            self
        } else {
            self.apply_all(commands.drop_last()).apply(commands.last())
        }
    }

    /// An added obstacle, last in order.
    pub open spec fn with_obstacle(self, p: Pos) -> GameState {
        GameState { obstacles: self.obstacles.push(p), ..self }
    }
}

} // verus!
