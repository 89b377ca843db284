use crab_pong::input::Key;
use crab_pong::movement::Force;
use crab_pong::scoring::{GoalsHitPoints, HitPoints};
use crab_pong::side::Side;
use crab_pong::team::GameOver;
use crab_pong::ui::{
    goal_hit_points_ui_system, spawn_pause_ui_system, spawn_start_menu_ui, spawn_start_menu_ui_system,
    spawn_ui_message_event_system, update_goal_hit_points_ui, user_input_system, AppState, MessageUiEvent,
};

#[test]
fn each_message_event_becomes_a_ui_in_its_screen() {
    let events = vec![
        MessageUiEvent { message: "Paused".to_string(), screen: AppState::Pause },
        MessageUiEvent { message: "Press Enter".to_string(), screen: AppState::StartMenu },
    ];
    let ui = spawn_ui_message_event_system(&events);
    assert_eq!(ui.len(), 2);
    assert_eq!(ui[0].text, "Paused");
    assert_eq!(ui[0].for_states.0, vec![AppState::Pause]);
    assert_eq!(ui[1].text, "Press Enter");
    assert_eq!(ui[1].for_states.0, vec![AppState::StartMenu]);
    assert!(spawn_ui_message_event_system(&vec![]).is_empty());
}

#[test]
fn start_menu_message_reports_the_last_game() {
    let win = "You won! ".to_string();
    let lose = "You lost! ".to_string();
    let new_game = "Press Enter to start".to_string();
    let won = spawn_start_menu_ui_system(Some(GameOver::Won), &win, &lose, &new_game);
    assert_eq!(won.message, "You won! Press Enter to start");
    assert_eq!(won.screen, AppState::StartMenu);
    let lost = spawn_start_menu_ui_system(Some(GameOver::Lost), &win, &lose, &new_game);
    assert_eq!(lost.message, "You lost! Press Enter to start");
    let first = spawn_start_menu_ui_system(None, &win, &lose, &new_game);
    assert_eq!(first.message, "Press Enter to start");
}

#[test]
fn start_menu_message_names_the_winning_team() {
    let messages = vec!["Blue wins! ".to_string(), "Red wins! ".to_string()];
    let new_game = "New game?".to_string();
    assert_eq!(spawn_start_menu_ui(&messages, Some(1), &new_game), "Red wins! New game?");
    assert_eq!(spawn_start_menu_ui(&messages, None, &new_game), "New game?");
}

#[test]
fn pause_message_is_shown_in_the_pause_screen() {
    let event = spawn_pause_ui_system(&"Paused".to_string());
    assert_eq!(event.message, "Paused");
    assert_eq!(event.screen, AppState::Pause);
}

#[test]
fn user_input_during_a_game() {
    let r = user_input_system(&vec![Key::Space], &vec![Key::Left], AppState::Game);
    assert!(!r.exit);
    assert_eq!(r.next_state, Some(AppState::Pause));
    assert_eq!(r.paddle_force, Some(Some(Force::Negative)));
    let r = user_input_system(&vec![], &vec![Key::Right], AppState::Game);
    assert_eq!(r.next_state, None);
    assert_eq!(r.paddle_force, Some(Some(Force::Positive)));
    let r = user_input_system(&vec![Key::Back], &vec![], AppState::Game);
    assert_eq!(r.next_state, Some(AppState::StartMenu));
    assert_eq!(r.paddle_force, Some(None));
}

#[test]
fn user_input_outside_a_game() {
    let r = user_input_system(&vec![Key::Space], &vec![Key::Left], AppState::Pause);
    assert_eq!(r.next_state, Some(AppState::Game));
    assert_eq!(r.paddle_force, None);
    let r = user_input_system(&vec![Key::Return, Key::Back], &vec![], AppState::StartMenu);
    assert_eq!(r.next_state, Some(AppState::Game));
    let r = user_input_system(&vec![Key::Escape], &vec![], AppState::StartMenu);
    assert!(r.exit);
    assert_eq!(r.next_state, None);
}

#[test]
fn hit_points_ui_shows_its_sides_goal() {
    let hp = GoalsHitPoints { bottom: 1, right: 2, top: 3, left: 4 };
    assert_eq!(goal_hit_points_ui_system(&hp, &vec![Side::Top, Side::Bottom]), vec![3, 1]);
}

#[test]
fn hit_points_ui_follows_the_last_paddle_on_its_side() {
    let paddles = vec![(HitPoints(5), Side::Bottom), (HitPoints(2), Side::Left), (HitPoints(4), Side::Bottom)];
    let shown = update_goal_hit_points_ui(&paddles, &vec![Side::Bottom, Side::Left, Side::Top]);
    assert_eq!(shown, vec![Some(4), Some(2), None]);
}
