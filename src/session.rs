use vstd::prelude::*;

use crate::state::{handle_input, Actions, GameModel, GameState};

verus! {

/// Length of a game, in seconds.
pub const TIME_LIMIT_SECS: u64 = 60;

/// Boxes to open to win.
pub const BOXES_TO_WIN: usize = 3;

/// Where a session stands. `Won` and `Lost` are terminal.
#[derive(Clone, Copy, Debug, PartialEq, Eq, Structural)]
pub enum Outcome {
    Playing,
    Won,
    Lost,
}

/// The outcome after one evaluation: a terminal outcome stays; otherwise the
/// game is won with enough boxes opened, health left and time to spare, and
/// lost when health is gone or time ran out. The win is checked first.
pub open spec fn evaluated(o: Outcome, opened: int, health: int, elapsed_secs: int) -> Outcome {
    if o != Outcome::Playing {
        o
    } else if opened >= BOXES_TO_WIN && health > 0 && elapsed_secs <= TIME_LIMIT_SECS {
        Outcome::Won
    } else if health <= 0 || elapsed_secs > TIME_LIMIT_SECS {
        Outcome::Lost
    } else {
        Outcome::Playing
    }
}

impl Outcome {
    /// Evaluates the win and lose conditions once (see `evaluated`).
    pub fn evaluate(&self, opened_boxes: usize, health: i32, elapsed_secs: u64) -> (r: Outcome)
        ensures
            r == evaluated(*self, opened_boxes as int, health as int, elapsed_secs as int),
    {
        match *self {
            Outcome::Playing => {
                if opened_boxes >= BOXES_TO_WIN && health > 0 && elapsed_secs <= TIME_LIMIT_SECS {
                    Outcome::Won
                } else if health <= 0 || elapsed_secs > TIME_LIMIT_SECS {
                    Outcome::Lost
                } else {
                    Outcome::Playing
                }
            },
            other => other,
        }
    }

    /// Whether the outcome is `Won` or `Lost`.
    pub fn is_terminal(&self) -> (r: bool)
        ensures
            r == (*self != Outcome::Playing),
    {
        match *self {
            Outcome::Playing => false,
            _ => true,
        }
    }
}

/// What the presentation layer draws from: the game state.
pub struct GameWindow {
    pub game_state: GameState,
}

impl GameWindow {
    /// A window over a fresh game (see `GameState::new`).
    pub fn new() -> (r: GameWindow)
        ensures
            r.game_state.is_fresh(),
    {
        GameWindow { game_state: GameState::new() }
    }
}

impl Default for GameWindow {
    /// A window over a fresh game (see `GameState::new`).
    fn default() -> (r: GameWindow)
        ensures
            r.game_state.is_fresh(),
    {
        GameWindow::new()
    }
}

/// A session: the game and where it stands.
pub struct MainState {
    pub game_window: GameWindow,
    pub outcome: Outcome,
}

/// The mathematical value of a session.
pub struct SessionModel {
    pub game: GameModel,
    pub outcome: Outcome,
}

impl View for MainState {
    type V = SessionModel;

    open spec fn view(&self) -> SessionModel {
        SessionModel { game: self.game_window.game_state@, outcome: self.outcome }
    }
}

/// One tick of a session: while playing, the input is applied and then the
/// outcome evaluated; a terminal session does not change.
pub open spec fn tick(s: SessionModel, a: Actions, elapsed_secs: int) -> SessionModel {
    if s.outcome != Outcome::Playing {
        s
    } else {
        let g = s.game.handle_input(a);
        SessionModel { game: g, outcome: evaluated(s.outcome, g.opened, g.health, elapsed_secs) }
    }
}

/// The session after the ticks of `inputs`, each an input and the elapsed
/// seconds at that tick, in order.
pub open spec fn run(s: SessionModel, inputs: Seq<(Actions, int)>) -> SessionModel
    decreases inputs.len(),
{
    if inputs.len() == 0 {
        s
    } else {
        let before = run(s, inputs.drop_last());
        tick(before, inputs.last().0, inputs.last().1)
    }
}

/// Once a session is won or lost, no further ticks change it: neither the game
/// nor the outcome.
pub proof fn lemma_terminal_freeze(s: SessionModel, inputs: Seq<(Actions, int)>)
    requires
        s.outcome != Outcome::Playing,
    ensures
        run(s, inputs) == s,
    decreases inputs.len(),
{
    if inputs.len() > 0 {
        lemma_terminal_freeze(s, inputs.drop_last());
    }
}

/// Evaluating a terminal outcome again leaves it as it is, whatever the state.
pub proof fn lemma_terminal_outcome_stays(o: Outcome, opened: int, health: int, elapsed_secs: int)
    requires
        o != Outcome::Playing,
    ensures
        evaluated(o, opened, health, elapsed_secs) == o,
{
}

impl MainState {
    /// The session's invariant: its game is well formed.
    pub open spec fn wf(&self) -> bool {
        self.game_window.game_state.wf()
    }

    /// A session over a fresh game, playing.
    pub fn new() -> (r: MainState)
        ensures
            r.wf(),
            r.game_window.game_state.is_fresh(),
            r.outcome == Outcome::Playing,
    {
        MainState { game_window: GameWindow::new(), outcome: Outcome::Playing }
    }

    /// A session over `game_state`, playing.
    pub fn from_game_state(game_state: GameState) -> (r: MainState)
        ensures
            r@ == (SessionModel { game: game_state@, outcome: Outcome::Playing }),
    {
        MainState { game_window: GameWindow { game_state }, outcome: Outcome::Playing }
    }

    /// Whether the session was won or lost.
    pub fn is_game_over(&self) -> (r: bool)
        ensures
            r == (self.outcome != Outcome::Playing),
    {
        self.outcome.is_terminal()
    }

    /// Evaluates the outcome against the game as it stands after
    /// `elapsed_secs` seconds; a terminal outcome is kept.
    pub fn check_game_conditions(&mut self, elapsed_secs: u64)
        ensures
            final(self).game_window.game_state@ == old(self).game_window.game_state@,
            final(self).outcome == evaluated(
                old(self).outcome,
                old(self).game_window.game_state.opened_boxes as int,
                old(self).game_window.game_state.player_health as int,
                elapsed_secs as int,
            ),
    {
        if !self.is_game_over() {
            let game_state = &self.game_window.game_state;
            self.outcome = self.outcome.evaluate(game_state.opened_boxes, game_state.player_health, elapsed_secs);
        }
    }

    /// One tick at `elapsed_secs` seconds into the game: while playing, the
    /// input is applied and then the outcome evaluated on the result; once won
    /// or lost nothing changes.
    pub fn update(&mut self, actions: &Actions, elapsed_secs: u64)
        requires
            old(self).wf(),
        ensures
            final(self)@ == tick(old(self)@, *actions, elapsed_secs as int),
            final(self).wf(),
    {
        if !self.is_game_over() {
            handle_input(&mut self.game_window.game_state, actions);
            self.check_game_conditions(elapsed_secs);
        }
    }
}

} // verus!
