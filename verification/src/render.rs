//! What each square of the board shows.

use vstd::prelude::*;
use crate::game::{squares, Game};
use crate::model::{GameState, Pos};

verus! {

/// What a square shows.
#[derive(Clone, Copy, Debug, PartialEq, Eq, Structural)]
pub enum Glyph {
    Player,
    Obstacle,
    Empty,
}

/// The character that stands for a glyph on screen.
pub open spec fn symbol_of(glyph: Glyph) -> char {
    match glyph {
        Glyph::Player => '@',
        Glyph::Obstacle => '#',
        Glyph::Empty => ' ',
    }
}

/// The glyph of square `p`: the player where the player stands, even under an
/// obstacle; an obstacle where at least one is; else nothing.
pub open spec fn glyph_of(state: GameState, p: Pos) -> Glyph {
    if p == state.player {
        Glyph::Player
    } else if state.obstacles.contains(p) {
        Glyph::Obstacle
    } else {
        Glyph::Empty
    }
}

impl Glyph {
    /// The character to draw.
    pub fn symbol(self) -> (c: char)
        ensures
            c == symbol_of(self),
    {
        match self {
            Glyph::Player => '@',
            Glyph::Obstacle => '#',
            Glyph::Empty => ' ',
        }
    }
}

/// The glyph of the square in column `x` of row `y`.
pub fn glyph_at(game: &Game, x: u16, y: u16) -> (glyph: Glyph)
    ensures
        glyph == glyph_of(game@, Pos { x: x as int, y: y as int }),
{
    let ghost p = Pos { x: x as int, y: y as int };
    if y == game.player_y() && x == game.player_x() {
        return Glyph::Player;
    }
    let blocks = game.blocks();
    let mut i: usize = 0;
    while i < blocks.len()
        invariant
            i <= blocks.len(),
            p == (Pos { x: x as int, y: y as int }),
            p != game@.player,
            squares(blocks@) == game@.obstacles,
            forall|j: int| 0 <= j < i ==> squares(blocks@)[j] != p,
        decreases blocks.len() - i,
    {
        let block = blocks[i];
        if block.x == x && block.y == y {
            assert(squares(blocks@)[i as int] == p);
            return Glyph::Obstacle;
        }
        i += 1;
    }
    Glyph::Empty
}

/// The glyphs of the first `columns` squares of row `y`, from left to right.
pub fn row_glyphs(game: &Game, y: u16, columns: u16) -> (row: Vec<Glyph>)
    ensures
        row@.len() == columns,
        forall|x: int|
            0 <= x < columns ==> #[trigger] row@[x] == glyph_of(game@, Pos { x, y: y as int }),
{
    let mut row: Vec<Glyph> = Vec::new();
    let mut x: u16 = 0;
    while x < columns
        invariant
            x <= columns,
            row@.len() == x,
            forall|c: int|
                0 <= c < x ==> #[trigger] row@[c] == glyph_of(game@, Pos { x: c, y: y as int }),
        decreases columns - x,
    {
        row.push(glyph_at(game, x, y));
        x += 1;
    }
    row
}

} // verus!
