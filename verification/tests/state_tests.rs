use crab_pong::config::SelectedGameMode;
use crab_pong::input::{reaches_last_mode_check, InputOutcome, Key};
use crab_pong::screens::{
    despawn_invalid_entities_for_current_screen, handle_game_screen_specific_inputs, GameScreen, GlobalData,
};
use crab_pong::states::{
    despawn_invalid_entities_for_state, handle_game_state_specific_inputs, EntityFate, ForStates, GameState,
};

fn press(
    keys: &[Key],
    state: GameState,
    mode: usize,
    modes: usize,
    debugging: bool,
) -> (InputOutcome<GameState>, usize, bool) {
    let mut selected = SelectedGameMode(mode);
    let mut debug = debugging;
    let outcome = handle_game_state_specific_inputs(&keys.to_vec(), state, &mut selected, modes, &mut debug);
    (outcome, selected.0, debug)
}

#[test]
fn escape_exits_from_any_state() {
    for state in [GameState::Loading, GameState::StartMenu, GameState::Playing, GameState::Paused] {
        assert_eq!(press(&[Key::Escape, Key::Space], state, 0, 2, false), (InputOutcome::ExitApp, 0, false));
    }
}

#[test]
fn g_toggles_debugging() {
    assert_eq!(press(&[Key::G], GameState::Playing, 1, 2, false), (InputOutcome::Nothing, 1, true));
    assert_eq!(press(&[Key::G, Key::Return], GameState::StartMenu, 0, 2, true), (InputOutcome::Nothing, 0, false));
}

#[test]
fn return_starts_a_game_from_the_start_menu() {
    assert_eq!(
        press(&[Key::Return], GameState::StartMenu, 0, 3, false),
        (InputOutcome::SetState(GameState::Playing), 0, false)
    );
}

#[test]
fn left_and_right_step_through_modes_within_range() {
    assert_eq!(press(&[Key::Right], GameState::StartMenu, 0, 3, false), (InputOutcome::Nothing, 1, false));
    assert_eq!(press(&[Key::Right], GameState::StartMenu, 2, 3, false), (InputOutcome::Nothing, 2, false));
    assert_eq!(press(&[Key::Left], GameState::StartMenu, 2, 3, false), (InputOutcome::Nothing, 1, false));
    assert_eq!(press(&[Key::Left], GameState::StartMenu, 0, 3, false), (InputOutcome::Nothing, 0, false));
    assert_eq!(press(&[Key::Right], GameState::StartMenu, 0, 1, false), (InputOutcome::Nothing, 0, false));
}

#[test]
fn space_pauses_and_resumes() {
    assert_eq!(
        press(&[Key::Space], GameState::Playing, 0, 1, false),
        (InputOutcome::SetState(GameState::Paused), 0, false)
    );
    assert_eq!(
        press(&[Key::Space], GameState::Paused, 0, 1, false),
        (InputOutcome::SetState(GameState::Playing), 0, false)
    );
}

#[test]
fn back_returns_to_the_start_menu_during_a_game() {
    assert_eq!(
        press(&[Key::Back], GameState::Playing, 0, 1, false),
        (InputOutcome::SetState(GameState::StartMenu), 0, false)
    );
    assert_eq!(
        press(&[Key::Back], GameState::Paused, 0, 1, false),
        (InputOutcome::SetState(GameState::StartMenu), 0, false)
    );
    // Space wins over Back when both are pressed.
    assert_eq!(
        press(&[Key::Back, Key::Space], GameState::Playing, 0, 1, false),
        (InputOutcome::SetState(GameState::Paused), 0, false)
    );
}

#[test]
fn loading_ignores_game_keys() {
    assert_eq!(
        press(&[Key::Return, Key::Space, Key::Back, Key::Right], GameState::Loading, 0, 3, false),
        (InputOutcome::Nothing, 0, false)
    );
}

#[test]
fn game_states_are_playing_and_paused() {
    assert!(GameState::Playing.is_any_game_state());
    assert!(GameState::Paused.is_any_game_state());
    assert!(!GameState::StartMenu.is_any_game_state());
    assert!(!GameState::Loading.is_any_game_state());
    assert_eq!(GameState::default(), GameState::Loading);
}

#[test]
fn entities_outside_their_states_fade_out_or_despawn() {
    let for_game = ForStates(vec![GameState::Playing, GameState::Paused]);
    assert_eq!(despawn_invalid_entities_for_state(GameState::Paused, &for_game, true), EntityFate::Keep);
    assert_eq!(despawn_invalid_entities_for_state(GameState::StartMenu, &for_game, true), EntityFate::FadeOut);
    assert_eq!(despawn_invalid_entities_for_state(GameState::StartMenu, &for_game, false), EntityFate::Despawn);
}

fn screen_press(keys: &[Key], screen: GameScreen, data: GlobalData, modes: usize) -> (InputOutcome<GameScreen>, GlobalData) {
    let mut data = data;
    let outcome = handle_game_screen_specific_inputs(&keys.to_vec(), screen, &mut data, modes);
    (outcome, data)
}

#[test]
fn screen_inputs_follow_the_same_rules() {
    let data = GlobalData { mode_index: 1, is_debugging_enabled: false, winning_team: None };
    assert_eq!(screen_press(&[Key::Escape], GameScreen::Playing, data, 3).0, InputOutcome::ExitApp);
    assert!(screen_press(&[Key::G], GameScreen::Paused, data, 3).1.is_debugging_enabled);
    assert_eq!(screen_press(&[Key::Right], GameScreen::StartMenu, data, 3).1.mode_index, 2);
    assert_eq!(screen_press(&[Key::Left], GameScreen::StartMenu, data, 3).1.mode_index, 0);
    assert_eq!(
        screen_press(&[Key::Return], GameScreen::StartMenu, data, 3).0,
        InputOutcome::SetState(GameScreen::Playing)
    );
    assert_eq!(screen_press(&[Key::Space], GameScreen::Playing, data, 3).0, InputOutcome::SetState(GameScreen::Paused));
    assert_eq!(screen_press(&[Key::Space], GameScreen::Paused, data, 3).0, InputOutcome::SetState(GameScreen::Playing));
    assert_eq!(screen_press(&[Key::Back], GameScreen::Paused, data, 3).0, InputOutcome::SetState(GameScreen::StartMenu));
    assert_eq!(screen_press(&[Key::Back], GameScreen::StartMenu, data, 3).0, InputOutcome::Nothing);
    assert_eq!(GameScreen::default(), GameScreen::StartMenu);
}

#[test]
fn screen_entities_start_despawning_when_they_do_not_belong() {
    let for_paused = ForStates(vec![GameScreen::Paused]);
    assert_eq!(despawn_invalid_entities_for_current_screen(GameScreen::Paused, &for_paused, false), EntityFate::Keep);
    assert_eq!(
        despawn_invalid_entities_for_current_screen(GameScreen::Playing, &for_paused, true),
        EntityFate::FadeOut
    );
    assert_eq!(
        despawn_invalid_entities_for_current_screen(GameScreen::StartMenu, &for_paused, false),
        EntityFate::Despawn
    );
}

#[test]
fn only_right_on_the_start_menu_compares_with_the_last_mode() {
    assert!(reaches_last_mode_check(&vec![Key::Right], true, 0));
    assert!(!reaches_last_mode_check(&vec![Key::Right], false, 0));
    assert!(!reaches_last_mode_check(&vec![Key::Right, Key::Return], true, 0));
    assert!(!reaches_last_mode_check(&vec![Key::Left, Key::Right], true, 1));
    assert!(reaches_last_mode_check(&vec![Key::Left, Key::Right], true, 0));
    assert!(!reaches_last_mode_check(&vec![Key::Space], true, 0));
}

#[test]
fn inputs_that_never_read_the_modes_work_without_any() {
    assert_eq!(press(&[Key::Space], GameState::Playing, 0, 0, false), (InputOutcome::SetState(GameState::Paused), 0, false));
    assert_eq!(press(&[Key::Return], GameState::StartMenu, 0, 0, false), (InputOutcome::SetState(GameState::Playing), 0, false));
    assert_eq!(press(&[Key::Left], GameState::StartMenu, 2, 0, false), (InputOutcome::Nothing, 1, false));
    let data = GlobalData { mode_index: 0, is_debugging_enabled: false, winning_team: None };
    assert_eq!(screen_press(&[Key::Back], GameScreen::Paused, data, 0), (InputOutcome::SetState(GameScreen::StartMenu), data));
}
