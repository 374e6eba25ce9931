//! The driver's decisions: what a key press and a clock tick do to a game in
//! progress, and when the game is over. The driver itself only reads keys,
//! watches the clock and draws.

use vstd::prelude::*;
use crate::game::Game;
use crate::model::{Command, GameState};

verus! {

/// The time between two ticks, in milliseconds.
pub const TICK_MILLIS: u128 = 200;

/// Where a session stands. `GameOver` and `Stopped` are final.
#[derive(Clone, Copy, Debug, PartialEq, Eq, Structural)]
pub enum Phase {
    Running,
    GameOver,
    Stopped,
}

/// A key as the game sees it.
#[derive(Clone, Copy, Debug, PartialEq, Eq, Structural)]
pub enum Key {
    Left,
    Right,
    Char(char),
    Esc,
    Other,
}

/// The command that a key stands for: the arrows move, `q` and escape quit,
/// every other key is ignored.
pub open spec fn command_of(key: Key) -> Command {
    match key {
        Key::Left => Command::MoveLeft,
        Key::Right => Command::MoveRight,
        Key::Char(c) => if c == 'q' {
            Command::Quit
        } else {
            Command::Ignore
        },
        Key::Esc => Command::Quit,
        Key::Other => Command::Ignore,
    }
}

/// What happens to a session: a key arrives, or the clock asks for a tick
/// whose spawn trials came out as `mask`.
pub enum Event {
    Pressed(Key),
    Ticked(Seq<bool>),
}

/// How many of the events are clock ticks.
pub open spec fn ticks_in(events: Seq<Event>) -> nat
    decreases events.len(),
{
    if events.len() == 0 {
        0
    } else {
        let earlier = ticks_in(events.drop_last());
        match events.last() {
            Event::Pressed(_) => earlier,
            Event::Ticked(_) => earlier + 1,
        }
    }
}

/// A session as mathematics: the board and the phase.
pub struct SessionState {
    pub game: GameState,
    pub phase: Phase,
}

impl SessionState {
    /// A session begins running, on a fresh board.
    pub open spec fn start(width: int, height: int) -> SessionState {
        SessionState { game: GameState::fresh(width, height), phase: Phase::Running }
    }

    /// What holds of every session that can be reached: the board is valid,
    /// and the game is only over when an obstacle sits on the player.
    pub open spec fn valid(self) -> bool {
        &&& self.game.valid()
        &&& self.phase == Phase::GameOver ==> self.game.collides()
    }

    /// A key press: while running, a quit key stops the session and any other
    /// key is applied to the board at once. A finished session ignores keys.
    pub open spec fn after_key(self, key: Key) -> SessionState {
        if self.phase != Phase::Running {
            self
        } else if command_of(key) == Command::Quit {
            SessionState { phase: Phase::Stopped, ..self }
        } else {
            SessionState { game: self.game.apply(command_of(key)), ..self }
        }
    }

    /// A clock tick: while running, the board takes one step, and the game is
    /// over if an obstacle then sits on the player. A finished session does
    /// not tick.
    pub open spec fn after_tick(self, mask: Seq<bool>) -> SessionState {
        if self.phase != Phase::Running {
            self
        } else {
            let game = self.game.step(mask);
            SessionState {
                game,
                phase: if game.collides() {
                    Phase::GameOver
                } else {
                    Phase::Running
                },
            }
        }
    }

    /// One event, whichever it is.
    pub open spec fn after(self, event: Event) -> SessionState {
        match event {
            Event::Pressed(key) => self.after_key(key),
            Event::Ticked(mask) => self.after_tick(mask),
        }
    }

    /// A series of events, the first one first.
    pub open spec fn after_all(self, events: Seq<Event>) -> SessionState
        decreases events.len(),
    {
        if events.len() == 0 {
            self
        } else {
            self.after_all(events.drop_last()).after(events.last())
        }
    }
}

/// Reads a key as a command.
pub fn command_for(key: Key) -> (command: Command)
    ensures
        command == command_of(key),
{
    match key {
        Key::Left => Command::MoveLeft,
        Key::Right => Command::MoveRight,
        Key::Char(c) => if c == 'q' {
            Command::Quit
        } else {
            Command::Ignore
        },
        Key::Esc => Command::Quit,
        Key::Other => Command::Ignore,
    }
}

/// Is a tick due, `elapsed_millis` after the last one?
pub fn tick_due(elapsed_millis: u128) -> (due: bool)
    ensures
        due == (elapsed_millis >= TICK_MILLIS),
{
    elapsed_millis >= TICK_MILLIS
}

/// A game together with the phase of its session.
pub struct Session {
    game: Game,
    phase: Phase,
}

impl View for Session {
    type V = SessionState;

    closed spec fn view(&self) -> SessionState {
        SessionState { game: self.game@, phase: self.phase }
    }
}

impl Session {
    /// A running session on a fresh board of the given extent.
    pub fn new(width: u16, height: u16) -> (session: Session)
        ensures
            session@ == SessionState::start(width as int, height as int),
    {
        Session { game: Game::new(width, height), phase: Phase::Running }
    }

    /// A running session on the board that fits inside a surface of the given
    /// extent once a border of one square on every side is taken off.
    pub fn framed(outer_width: u16, outer_height: u16) -> (session: Session)
        ensures
            session@ == SessionState::start(
                if outer_width >= 2 {
                    outer_width - 2
                } else {
                    0
                },
                if outer_height >= 2 {
                    outer_height - 2
                } else {
                    0
                },
            ),
    {
        Session::new(outer_width.saturating_sub(2), outer_height.saturating_sub(2))
    }

    /// The board.
    pub fn game(&self) -> (game: &Game)
        ensures
            game@ == self@.game,
    {
        &self.game
    }

    /// Where the session stands.
    pub fn phase(&self) -> (phase: Phase)
        ensures
            phase == self@.phase,
    {
        self.phase
    }

    /// Is the session still taking keys and ticks?
    pub fn is_running(&self) -> (running: bool)
        ensures
            running == (self@.phase == Phase::Running),
    {
        self.phase == Phase::Running
    }

    /// Handles a key press: see [`SessionState::after_key`].
    pub fn handle_key(&mut self, key: Key)
        ensures
            final(self)@ == old(self)@.after_key(key),
    {
        if self.phase == Phase::Running {
            let command = command_for(key);
            if command == Command::Quit {
                self.phase = Phase::Stopped;
            } else {
                self.game.apply(command);
            }
        }
    }

    /// Handles a clock tick whose spawn trials are given: see
    /// [`SessionState::after_tick`].
    pub fn tick_with(&mut self, spawns: &Vec<bool>)
        requires
            old(self)@.phase == Phase::Running ==> old(self)@.game.score < u64::MAX,
        ensures
            final(self)@ == old(self)@.after_tick(spawns@),
    {
        if self.phase == Phase::Running {
            self.game.advance(spawns);
            if self.game.check_collision() {
                self.phase = Phase::GameOver;
            }
        }
    }

    /// Handles a clock tick, drawing the spawn trials by chance. While the
    /// session runs, the outcome is that of [`Session::tick_with`] for some
    /// spawn mask with one entry per column.
    pub fn tick(&mut self)
        requires
            old(self)@.phase == Phase::Running ==> old(self)@.game.score < u64::MAX,
        ensures
            exists|mask: Seq<bool>|
                mask.len() == old(self)@.game.width && final(self)@ == #[trigger] old(
                    self,
                )@.after_tick(mask),
            old(self)@.phase != Phase::Running ==> final(self)@ == old(self)@,
            old(self)@.phase == Phase::Running ==> final(self)@.game.score == old(self)@.game.score
                + 1,
    {
        if self.phase == Phase::Running {
            let ghost before = self@;
            self.game.update();
            let ghost mask = choose|mask: Seq<bool>|
                mask.len() == before.game.width && self.game@ == #[trigger] before.game.step(mask);
            if self.game.check_collision() {
                self.phase = Phase::GameOver;
            }
            assert(self@ == before.after_tick(mask));
        } else {
            proof {
                use_type_invariant(&self.game);
                let idle = Seq::new(self@.game.width as nat, |x: int| false);
                assert(self@ == old(self)@.after_tick(idle));
            }
        }
    }
}

} // verus!
