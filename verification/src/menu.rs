//! What the buttons of the menus do.
use crate::state::{AppState, GameState};
use vstd::prelude::*;

verus! {

/// What a menu button does when it is clicked.
#[derive(Clone, Copy, Debug, PartialEq, Eq, Structural)]
pub enum MenuButtonAction {
    /// Start the game.
    StartGame,
    /// Start the game anew.
    RestartGame,
    /// Go back to the main menu.
    BackToMainMenu,
    /// Let a paused game go on.
    ResumeGame,
    /// Leave the application.
    Quit,
}

/// Applies the click of a menu button: the states that the button asks for
/// are left in `app_state` and `game_state`. Returns whether the application
/// is asked to exit.
pub fn click_button(
    action: MenuButtonAction,
    app_state: &mut Option<AppState>,
    game_state: &mut Option<GameState>,
) -> (exit: bool)
    ensures
        exit == (action == MenuButtonAction::Quit),
        *final(app_state) == (match action {
            MenuButtonAction::StartGame | MenuButtonAction::RestartGame => Some(AppState::InGame),
            MenuButtonAction::BackToMainMenu => Some(AppState::MainMenu),
            _ => *old(app_state),
        }),
        *final(game_state) == (match action {
            MenuButtonAction::StartGame | MenuButtonAction::ResumeGame => Some(GameState::Playing),
            MenuButtonAction::RestartGame => Some(GameState::Restarting),
            MenuButtonAction::BackToMainMenu => Some(GameState::Quitting),
            MenuButtonAction::Quit => *old(game_state),
        }),
{
    match action {
        MenuButtonAction::StartGame => {
            *app_state = Some(AppState::InGame);
            *game_state = Some(GameState::Playing);
            false
        },
        MenuButtonAction::RestartGame => {
            *app_state = Some(AppState::InGame);
            *game_state = Some(GameState::Restarting);
            false
        },
        MenuButtonAction::BackToMainMenu => {
            *app_state = Some(AppState::MainMenu);
            *game_state = Some(GameState::Quitting);
            false
        },
        MenuButtonAction::ResumeGame => {
            *game_state = Some(GameState::Playing);
            false
        },
        MenuButtonAction::Quit => true,
    }
}

} // verus!
