use tetris_lib::dev_tools::{handle_keymaps, world_inspector_visible, Data};
use tetris_lib::menu::{click_button, MenuButtonAction};
use tetris_lib::state::{pause_game, play_game, AppState, GameState};

#[test]
fn game_state_predicates() {
    assert!(GameState::Playing.is_playing());
    assert!(!GameState::Paused.is_playing());
    assert!(GameState::is_playing_state(&GameState::Playing));
    assert!(!GameState::is_playing_state(&GameState::Quitting));
    assert!(GameState::Quitting.is_quitting());
    assert!(!GameState::Restarting.is_quitting());
    assert!(GameState::Restarting.is_restarting());
    assert!(!GameState::Playing.is_restarting());
    assert!(GameState::Paused.is_paused());
    assert!(!GameState::Playing.is_paused());
    assert!(GameState::Playing.in_a_game());
    assert!(GameState::Paused.in_a_game());
    assert!(!GameState::Restarting.in_a_game());
    assert!(!GameState::Quitting.in_a_game());
    assert_eq!(GameState::default(), GameState::Quitting);
}

#[test]
fn app_state_predicates() {
    assert!(AppState::MainMenu.in_menu());
    assert!(!AppState::InGame.in_menu());
    assert!(AppState::InGame.in_game());
    assert!(!AppState::GameOver.in_game());
    assert!(AppState::GameOver.game_over());
    assert!(!AppState::MainMenu.game_over());
    assert_eq!(AppState::default(), AppState::MainMenu);
}

#[test]
fn the_pause_key_switches_between_playing_and_paused() {
    let mut next = None;
    pause_game(&GameState::Playing, &mut next, false);
    assert_eq!(next, None);
    pause_game(&GameState::Playing, &mut next, true);
    assert_eq!(next, Some(GameState::Paused));
    pause_game(&GameState::Paused, &mut next, true);
    assert_eq!(next, Some(GameState::Playing));
    pause_game(&GameState::Restarting, &mut next, true);
    assert_eq!(next, Some(GameState::Playing));
    let mut kept = Some(GameState::Quitting);
    pause_game(&GameState::Paused, &mut kept, false);
    assert_eq!(kept, Some(GameState::Quitting));
}

#[test]
fn play_game_asks_for_playing() {
    let mut next = Some(GameState::Restarting);
    play_game(&mut next);
    assert_eq!(next, Some(GameState::Playing));
}

#[test]
fn menu_buttons() {
    let mut app = None;
    let mut game = None;
    assert!(!click_button(MenuButtonAction::StartGame, &mut app, &mut game));
    assert_eq!((app, game), (Some(AppState::InGame), Some(GameState::Playing)));
    assert!(!click_button(MenuButtonAction::RestartGame, &mut app, &mut game));
    assert_eq!((app, game), (Some(AppState::InGame), Some(GameState::Restarting)));
    assert!(!click_button(MenuButtonAction::BackToMainMenu, &mut app, &mut game));
    assert_eq!((app, game), (Some(AppState::MainMenu), Some(GameState::Quitting)));
    assert!(!click_button(MenuButtonAction::ResumeGame, &mut app, &mut game));
    assert_eq!((app, game), (Some(AppState::MainMenu), Some(GameState::Playing)));
    assert!(click_button(MenuButtonAction::Quit, &mut app, &mut game));
    assert_eq!((app, game), (Some(AppState::MainMenu), Some(GameState::Playing)));
}

#[test]
fn development_switches() {
    let mut data = Data::default();
    assert_eq!(data, Data { enabled: false, assets: false, resources: false, world: false });
    handle_keymaps(&mut data, false, true, true);
    assert_eq!(data, Data::default());
    assert!(!world_inspector_visible(&data));
    handle_keymaps(&mut data, true, true, true);
    assert_eq!(data, Data { enabled: true, assets: false, resources: false, world: false });
    handle_keymaps(&mut data, false, true, true);
    assert_eq!(data, Data { enabled: true, assets: false, resources: false, world: true });
    assert!(world_inspector_visible(&data));
    handle_keymaps(&mut data, false, false, true);
    assert_eq!(data, Data { enabled: true, assets: true, resources: false, world: true });
    handle_keymaps(&mut data, false, false, false);
    assert_eq!(data, Data { enabled: true, assets: true, resources: false, world: true });
    handle_keymaps(&mut data, true, false, false);
    assert!(!world_inspector_visible(&data));
    assert_eq!(data, Data { enabled: false, assets: true, resources: false, world: true });
}
