use vstd::prelude::*;

verus! {

/// The phase of a game.
#[derive(Clone, Copy, Debug, PartialEq, Eq, Structural)]
pub enum GameState {
    WaitingStart,
    Running,
    Paused,
}

/// A command from the user interface.
#[derive(Clone, Copy, Debug, PartialEq, Eq, Structural)]
pub enum UiToGame {
    StartGame,
    StopGame,
    ResetGame,
    EndGame,
}

/// What the game loop has to do after a command.
#[derive(Clone, Copy, Debug, PartialEq, Eq, Structural)]
pub enum GameAction {
    /// Kill every node and end the game.
    Terminate,
    /// Start every node and the tick.
    StartAll,
    /// Restart the tick.
    Resume,
    /// Stop sending global events.
    Pause,
    /// Nothing to do.
    Ignore,
}

/// The phase and action that a command leads to.
pub open spec fn ui_transition(state: GameState, msg: UiToGame) -> (GameState, GameAction) {
    match (state, msg) {
        (_, UiToGame::EndGame) => (state, GameAction::Terminate),
        (GameState::WaitingStart, UiToGame::StartGame) => (GameState::Running, GameAction::StartAll),
        (GameState::Paused, UiToGame::StartGame) => (GameState::Running, GameAction::Resume),
        (GameState::Running, UiToGame::StopGame) => (GameState::Paused, GameAction::Pause),
        _ => (state, GameAction::Ignore),
    }
}

/// Applies a user-interface command to the game phase.
pub fn handle_ui_command(state: &mut GameState, msg: UiToGame) -> (r: GameAction)
    ensures
        (*final(state), r) == ui_transition(*old(state), msg),
{
    match (*state, msg) {
        (_, UiToGame::EndGame) => GameAction::Terminate,
        (GameState::WaitingStart, UiToGame::StartGame) => {
            *state = GameState::Running;
            GameAction::StartAll
        },
        (GameState::Paused, UiToGame::StartGame) => {
            *state = GameState::Running;
            GameAction::Resume
        },
        (GameState::Running, UiToGame::StopGame) => {
            *state = GameState::Paused;
            GameAction::Pause
        },
        _ => GameAction::Ignore,
    }
}

/// The next event of a scripted sequence, read from its end: `'A'` is a
/// hostile event, `'S'` a benign one; anything else, or an empty script, ends it.
pub fn pop_scripted_event(script: &mut Vec<char>) -> (r: Option<bool>)
    ensures
        old(script)@.len() == 0 ==> r is None && final(script)@ == old(script)@,
        old(script)@.len() > 0 ==> final(script)@ == old(script)@.drop_last() && r == if old(script)@.last() == 'A' {
            Some(true)
        } else if old(script)@.last() == 'S' {
            Some(false)
        } else {
            None::<bool>
        },
{
    match script.pop() {
        Some('A') => Some(true),
        Some('S') => Some(false),
        _ => None,
    }
}

} // verus!
