use crab_pong::crab_input::{
    crab_action_for_input, crab_action_for_key, move_crabs_based_on_user_input as crab, pressed_crab_actions,
    CrabAction, CrabInput, CrabInputBundle, GamepadButton, StickPush,
};
use crab_pong::input::Key;
use crab_pong::movement::{handle_keyboard_input_for_player_controlled_paddles, Force, Movement};
use crab_pong::player_input::{move_crabs_based_on_user_input as player, PlayerAction};
use crab_pong::side::{sides, Side, SignedAxis};

#[test]
fn crab_controls_follow_the_side() {
    assert_eq!(crab(Side::Bottom, &vec![CrabAction::MoveLeft]), Some(Force::Negative));
    assert_eq!(crab(Side::Bottom, &vec![CrabAction::MoveRight]), Some(Force::Positive));
    assert_eq!(crab(Side::Right, &vec![CrabAction::MoveUp]), Some(Force::Positive));
    assert_eq!(crab(Side::Top, &vec![CrabAction::MoveLeft]), Some(Force::Positive));
    assert_eq!(crab(Side::Left, &vec![CrabAction::MoveUp]), Some(Force::Negative));
    assert_eq!(crab(Side::Left, &vec![CrabAction::MoveLeft]), None);
    // Holding both directions pushes toward the negative end.
    assert_eq!(crab(Side::Right, &vec![CrabAction::MoveUp, CrabAction::MoveDown]), Some(Force::Negative));
}

#[test]
fn player_controls_follow_the_side() {
    assert_eq!(player(Side::Bottom, &vec![PlayerAction::MoveCrabLeft]), Some(Force::Negative));
    assert_eq!(player(Side::Right, &vec![PlayerAction::MoveCrabDown]), Some(Force::Negative));
    assert_eq!(player(Side::Top, &vec![PlayerAction::MoveCrabRight]), Some(Force::Negative));
    assert_eq!(player(Side::Left, &vec![PlayerAction::MoveCrabDown]), Some(Force::Positive));
    assert_eq!(player(Side::Top, &vec![]), None);
    // On the right side the first direction checked is up.
    assert_eq!(
        player(Side::Right, &vec![PlayerAction::MoveCrabUp, PlayerAction::MoveCrabDown]),
        Some(Force::Positive)
    );
}

#[test]
fn keys_bind_to_crab_actions() {
    assert_eq!(crab_action_for_key(Key::W), Some(CrabAction::MoveUp));
    assert_eq!(crab_action_for_key(Key::Down), Some(CrabAction::MoveDown));
    assert_eq!(crab_action_for_key(Key::A), Some(CrabAction::MoveLeft));
    assert_eq!(crab_action_for_key(Key::Right), Some(CrabAction::MoveRight));
    assert_eq!(crab_action_for_key(Key::Space), None);
}

#[test]
fn keyboard_paddles_follow_arrows_and_letters() {
    assert_eq!(handle_keyboard_input_for_player_controlled_paddles(&vec![Key::A]), Some(Force::Negative));
    assert_eq!(handle_keyboard_input_for_player_controlled_paddles(&vec![Key::Right]), Some(Force::Positive));
    assert_eq!(
        handle_keyboard_input_for_player_controlled_paddles(&vec![Key::D, Key::Left]),
        Some(Force::Negative)
    );
    assert_eq!(handle_keyboard_input_for_player_controlled_paddles(&vec![Key::Space]), None);
    assert_eq!(Movement::default().force, None);
}

#[test]
fn sides_and_their_axes() {
    assert_eq!(sides(), vec![Side::Bottom, Side::Right, Side::Top, Side::Left]);
    let indexes: Vec<usize> = sides().iter().map(|s| s.index()).collect();
    assert_eq!(indexes, vec![0, 1, 2, 3]);
    assert_eq!(Side::Bottom.axis(), SignedAxis::PosZ);
    assert_eq!(Side::Right.axis(), SignedAxis::PosX);
    assert_eq!(Side::Top.axis(), SignedAxis::NegZ);
    assert_eq!(Side::Left.axis(), SignedAxis::NegX);
    assert_eq!(Side::Bottom.get_ball_position_axis(), SignedAxis::PosX);
    assert_eq!(Side::Right.get_ball_position_axis(), SignedAxis::NegZ);
    assert_eq!(Side::Top.get_ball_position_axis(), SignedAxis::NegX);
    assert_eq!(Side::Left.get_ball_position_axis(), SignedAxis::PosZ);
}

#[test]
fn crab_input_map_binds_keys_dpad_and_sticks() {
    let bundle = CrabInputBundle::default();
    assert_eq!(bundle.input_map.len(), 16);
    assert!(bundle.input_map.contains(&(CrabInput::Key(Key::W), CrabAction::MoveUp)));
    assert!(bundle.input_map.contains(&(CrabInput::Button(GamepadButton::DPadUp), CrabAction::MoveUp)));
    assert!(bundle.input_map.contains(&(CrabInput::Button(GamepadButton::DPadDown), CrabAction::MoveDown)));
    assert!(bundle.input_map.contains(&(CrabInput::Button(GamepadButton::DPadLeft), CrabAction::MoveLeft)));
    assert!(bundle.input_map.contains(&(CrabInput::Button(GamepadButton::DPadRight), CrabAction::MoveRight)));
    assert!(bundle.input_map.contains(&(CrabInput::Stick(StickPush::RightStickUp), CrabAction::MoveUp)));
    assert!(bundle.input_map.contains(&(CrabInput::Stick(StickPush::LeftStickLeft), CrabAction::MoveLeft)));
    for (input, action) in &bundle.input_map {
        assert_eq!(crab_action_for_input(*input), Some(*action));
    }
}

#[test]
fn gamepad_inputs_resolve_to_crab_actions() {
    assert_eq!(crab_action_for_input(CrabInput::Button(GamepadButton::DPadRight)), Some(CrabAction::MoveRight));
    assert_eq!(crab_action_for_input(CrabInput::Stick(StickPush::RightStickDown)), Some(CrabAction::MoveDown));
    assert_eq!(crab_action_for_input(CrabInput::Stick(StickPush::LeftStickRight)), Some(CrabAction::MoveRight));
    assert_eq!(crab_action_for_input(CrabInput::Key(Key::Space)), None);
    let held = vec![
        CrabInput::Key(Key::Escape),
        CrabInput::Button(GamepadButton::DPadLeft),
        CrabInput::Stick(StickPush::RightStickUp),
    ];
    let actions = pressed_crab_actions(&held);
    assert_eq!(actions, vec![CrabAction::MoveLeft, CrabAction::MoveUp]);
    // A bottom crab moves toward its negative end with the D-pad's left.
    assert_eq!(crab(Side::Bottom, &actions), Some(Force::Negative));
}
