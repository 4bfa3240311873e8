//! The state of a game and of the application around it.
use vstd::prelude::*;

verus! {

/// The state of a game.
#[derive(Clone, Copy, Debug, PartialEq, Eq, Hash, Structural)]
pub enum GameState {
    /// The game is running.
    Playing,
    /// The game is paused.
    Paused,
    /// A new game is being set up.
    Restarting,
    /// No game is running. This is the state at the start.
    Quitting,
}

impl GameState {
    /// Tells whether the given state is [`GameState::Playing`].
    #[must_use]
    pub fn is_playing_state(s: &GameState) -> (r: bool)
        ensures
            r == (*s == GameState::Playing),
    {
        matches!(s, GameState::Playing)
    }

    /// Tells whether the state is [`GameState::Playing`].
    #[must_use]
    pub fn is_playing(&self) -> (r: bool)
        ensures
            r == (*self == GameState::Playing),
    {
        matches!(self, GameState::Playing)
    }

    /// Tells whether the state is [`GameState::Quitting`].
    #[must_use]
    pub fn is_quitting(&self) -> (r: bool)
        ensures
            r == (*self == GameState::Quitting),
    {
        matches!(self, GameState::Quitting)
    }

    /// Tells whether the state is [`GameState::Restarting`].
    #[must_use]
    pub fn is_restarting(&self) -> (r: bool)
        ensures
            r == (*self == GameState::Restarting),
    {
        matches!(self, GameState::Restarting)
    }

    /// Tells whether the state is [`GameState::Paused`].
    #[must_use]
    pub fn is_paused(&self) -> (r: bool)
        ensures
            r == (*self == GameState::Paused),
    {
        matches!(self, GameState::Paused)
    }

    /// Tells whether a game is under way, running or paused.
    #[must_use]
    pub fn in_a_game(&self) -> (r: bool)
        ensures
            r == (*self == GameState::Playing || *self == GameState::Paused),
    {
        self.is_playing() || self.is_paused()
    }
}

impl Default for GameState {
    fn default() -> (r: GameState)
        ensures
            r == GameState::Quitting,
    {
        GameState::Quitting
    }
}

/// The state of the application, apart from that of a game.
#[derive(Clone, Copy, Debug, PartialEq, Eq, Hash, Structural)]
pub enum AppState {
    /// The main menu is shown. This is the state at the start.
    MainMenu,
    /// A game is on screen.
    InGame,
    /// The game has ended; the player may start again or quit.
    GameOver,
}

impl AppState {
    /// Tells whether the state is [`AppState::MainMenu`].
    #[must_use]
    pub fn in_menu(&self) -> (r: bool)
        ensures
            r == (*self == AppState::MainMenu),
    {
        matches!(self, AppState::MainMenu)
    }

    /// Tells whether the state is [`AppState::InGame`].
    #[must_use]
    pub fn in_game(&self) -> (r: bool)
        ensures
            r == (*self == AppState::InGame),
    {
        matches!(self, AppState::InGame)
    }

    /// Tells whether the state is [`AppState::GameOver`].
    #[must_use]
    pub fn game_over(&self) -> (r: bool)
        ensures
            r == (*self == AppState::GameOver),
    {
        matches!(self, AppState::GameOver)
    }
}

impl Default for AppState {
    fn default() -> (r: AppState)
        ensures
            r == AppState::MainMenu,
    {
        AppState::MainMenu
    }
}

/// Pauses a running game, or lets any other go on, when the pause key was just
/// pressed: the state to enter is left in `next`. Without the key press
/// nothing is asked for.
pub fn pause_game(current: &GameState, next: &mut Option<GameState>, pause_pressed: bool)
    ensures
        *final(next) == (if !pause_pressed {
            *old(next)
        } else if *current == GameState::Playing {
            Some(GameState::Paused)
        } else {
            Some(GameState::Playing)
        }),
{
    if pause_pressed {
        if current.is_playing() {
            *next = Some(GameState::Paused);
        } else {
            *next = Some(GameState::Playing);
        }
    }
}

/// Asks for the game to run.
pub fn play_game(next: &mut Option<GameState>)
    ensures
        *final(next) == Some(GameState::Playing),
{
    *next = Some(GameState::Playing);
}

} // verus!
