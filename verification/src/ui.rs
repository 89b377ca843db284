use vstd::prelude::*;
use vstd::string::*;
use crate::input::{key_held, Key};
use crate::movement::Force;
use crate::scoring::{GoalsHitPoints, HitPoints};
use crate::search::{last_index, lemma_last_index, lemma_last_index_at, lemma_last_index_none};
use crate::side::Side;
use crate::states::ForStates;
use crate::team::GameOver;

verus! {

/// The screens of the app.
#[derive(Clone, Copy, Debug, PartialEq, Eq, Hash, Structural)]
pub enum AppState {
    StartMenu,
    Game,
    Pause,
}

/// An event fired when spawning a message UI.
#[derive(Debug)]
pub struct MessageUiEvent {
    pub message: String,
    pub screen: AppState,
}

/// A component for marking a text UI entity as displaying the hit points
/// for an associated goal.
#[derive(Clone, Copy, Debug, PartialEq, Eq, Structural)]
pub struct HitPointsUi;

/// A message UI to spawn: the text, and the states in which it exists.
#[derive(Debug)]
pub struct UiMessage {
    pub for_states: ForStates<AppState>,
    pub text: String,
}

/// Turns each message event into the UI that shows it: its text, living
/// only in the event's screen.
pub fn spawn_ui_message_event_system(events: &Vec<MessageUiEvent>) -> (ui: Vec<UiMessage>)
    ensures
        ui@.len() == events@.len(),
        forall|i: int| 0 <= i < events@.len() ==> #[trigger] ui@[i].text@ == events@[i].message@,
        forall|i: int| 0 <= i < events@.len() ==> #[trigger] ui@[i].for_states.0@ == seq![events@[i].screen],
{
    let mut ui: Vec<UiMessage> = Vec::new();
    for i in 0..events.len()
        invariant
            ui@.len() == i,
            forall|k: int| 0 <= k < i ==> #[trigger] ui@[k].text@ == events@[k].message@,
            forall|k: int| 0 <= k < i ==> #[trigger] ui@[k].for_states.0@ == seq![events@[k].screen],
    {
        let event = &events[i];
        let states = vec![event.screen];
        assert(states@ == seq![event.screen]);
        let ghost before = ui@;
        ui.push(UiMessage { for_states: ForStates(states), text: event.message.clone() });
        assert(ui@[i as int].for_states.0@ == seq![events@[i as int].screen]);
        assert forall|k: int| 0 <= k < i + 1 implies #[trigger] ui@[k].for_states.0@ == seq![events@[k].screen] by {
            if k < i {
                assert(ui@[k] == before[k]);
                assert(before[k].for_states.0@ == seq![events@[k].screen]);
            }
        }
    }
    ui
}

/// The start menu message: how the last game ended, if it ended, followed
/// by the new game prompt.
pub open spec fn start_menu_message(
    game_over: Option<GameOver>,
    game_over_win_message: Seq<char>,
    game_over_lose_message: Seq<char>,
    new_game_message: Seq<char>,
) -> Seq<char> {
    match game_over {
        Some(GameOver::Won) => game_over_win_message + new_game_message,
        Some(GameOver::Lost) => game_over_lose_message + new_game_message,
        None => new_game_message,
    }
}

/// Builds the start menu's message event.
pub fn spawn_start_menu_ui_system(
    game_over: Option<GameOver>,
    game_over_win_message: &String,
    game_over_lose_message: &String,
    new_game_message: &String,
) -> (event: MessageUiEvent)
    ensures
        event.screen == AppState::StartMenu,
        event.message@ == start_menu_message(
            game_over,
            game_over_win_message@,
            game_over_lose_message@,
            new_game_message@,
        ),
{
    let mut message = String::new();
    match game_over {
        Some(GameOver::Won) => message.append(game_over_win_message.as_str()),
        Some(GameOver::Lost) => message.append(game_over_lose_message.as_str()),
        None => {},
    }
    message.append(new_game_message.as_str());
    proof {
        if game_over is None {
            assert(message@ =~= new_game_message@);
        }
    }
    MessageUiEvent { message, screen: AppState::StartMenu }
}

/// Builds the start menu's message from the configured messages: the
/// winning team's message if a team won the previous round, then the new
/// game prompt.
pub fn spawn_start_menu_ui(
    team_win_messages: &Vec<String>,
    winning_team: Option<usize>,
    new_game_message: &String,
) -> (message: String)
    requires
        winning_team matches Some(t) ==> t < team_win_messages.len(),
    ensures
        message@ == match winning_team {
            Some(t) => team_win_messages[t as int]@ + new_game_message@,
            None => new_game_message@,
        },
{
    let mut message = String::new();
    match winning_team {
        Some(t) => message.append(team_win_messages[t].as_str()),
        None => {},
    }
    message.append(new_game_message.as_str());
    proof {
        if winning_team is None {
            assert(message@ =~= new_game_message@);
        }
    }
    message
}

/// Builds the pause screen's message event.
pub fn spawn_pause_ui_system(pause_message: &String) -> (event: MessageUiEvent)
    ensures
        event.screen == AppState::Pause,
        event.message@ == pause_message@,
{
    MessageUiEvent { message: pause_message.clone(), screen: AppState::Pause }
}

/// What the app does after the keyboard input of one frame.
#[derive(Clone, Copy, Debug, PartialEq, Eq, Structural)]
pub struct UserInput {
    /// Quit the app.
    pub exit: bool,
    /// The state to switch to, if any.
    pub next_state: Option<AppState>,
    /// The new force of the player's paddles, when they are updated.
    pub paddle_force: Option<Option<Force>>,
}

/// The effect of one frame's keyboard input, given the keys pressed this
/// frame and the keys held.
pub open spec fn user_input(just_pressed: Seq<Key>, pressed: Seq<Key>, state: AppState) -> UserInput {
    let exit = just_pressed.contains(Key::Escape);
    let back = state != AppState::StartMenu && just_pressed.contains(Key::Back);
    let space = just_pressed.contains(Key::Space);
    match state {
        AppState::Game => UserInput {
            exit,
            next_state: if back {
                Some(AppState::StartMenu)
            } else if space {
                Some(AppState::Pause)
            } else {
                None
            },
            paddle_force: Some(
                if pressed.contains(Key::Left) {
                    Some(Force::Negative)
                } else if pressed.contains(Key::Right) {
                    Some(Force::Positive)
                } else {
                    None
                },
            ),
        },
        AppState::Pause => UserInput {
            exit,
            next_state: if back {
                Some(AppState::StartMenu)
            } else if space {
                Some(AppState::Game)
            } else {
                None
            },
            paddle_force: None,
        },
        AppState::StartMenu => UserInput {
            exit,
            next_state: if just_pressed.contains(Key::Return) {
                Some(AppState::Game)
            } else {
                None
            },
            paddle_force: None,
        },
    }
}

/// Handles all user input regardless of the current state.
///
/// Escape quits. Outside the start menu, Back returns to it. In a game the
/// player's paddles follow the held Left/Right arrows and Space pauses; when
/// paused, Space resumes; on the start menu, Return starts a game. Only one
/// state change can be queued per frame, so Back and Space are not pressed
/// together during a game.
pub fn user_input_system(just_pressed: &Vec<Key>, pressed: &Vec<Key>, state: AppState) -> (r: UserInput)
    requires
        !(state != AppState::StartMenu && just_pressed@.contains(Key::Back) && just_pressed@.contains(Key::Space)),
    ensures
        r == user_input(just_pressed@, pressed@, state),
{
    let exit = key_held(just_pressed, Key::Escape);
    let mut next_state: Option<AppState> = None;
    if state != AppState::StartMenu && key_held(just_pressed, Key::Back) {
        next_state = Some(AppState::StartMenu);
    }
    let mut paddle_force: Option<Option<Force>> = None;
    if state == AppState::Game {
        paddle_force = Some(
            if key_held(pressed, Key::Left) {
                Some(Force::Negative)
            } else if key_held(pressed, Key::Right) {
                Some(Force::Positive)
            } else {
                None
            },
        );
        if key_held(just_pressed, Key::Space) {
            next_state = Some(AppState::Pause);
        }
    } else if state == AppState::Pause {
        if key_held(just_pressed, Key::Space) {
            next_state = Some(AppState::Game);
        }
    } else if state == AppState::StartMenu {
        if key_held(just_pressed, Key::Return) {
            next_state = Some(AppState::Game);
        }
    }
    UserInput { exit, next_state, paddle_force }
}

/// The text each hit points UI shows: the hit points of the goal on its side.
pub fn goal_hit_points_ui_system(goals_hit_points: &GoalsHitPoints, ui_sides: &Vec<Side>) -> (shown: Vec<u8>)
    ensures
        shown.len() == ui_sides.len(),
        forall|i: int| 0 <= i < ui_sides.len() ==> #[trigger] shown[i] == goals_hit_points.spec_get(ui_sides[i]),
{
    let mut shown: Vec<u8> = Vec::new();
    for i in 0..ui_sides.len()
        invariant
            shown.len() == i,
            forall|k: int| 0 <= k < i ==> #[trigger] shown[k] == goals_hit_points.spec_get(ui_sides[k]),
    {
        shown.push(goals_hit_points.get(ui_sides[i]));
    }
    shown
}

/// Whether a paddle is on `side`.
pub open spec fn paddle_on(side: Side) -> spec_fn((HitPoints, Side)) -> bool {
    |p: (HitPoints, Side)| p.1 == side
}

/// The hit points shown on a UI for `side`: those of the last paddle on
/// that side in query order (each paddle overwrites the text in turn), or
/// nothing new when no paddle is on that side.
pub open spec fn shown_hit_points(paddles: Seq<(HitPoints, Side)>, side: Side) -> Option<u8> {
    match last_index(paddles, paddle_on(side)) {
        Some(i) => Some(paddles[i].0.0),
        None => None,
    }
}

/// The hit points of the last paddle on `side`, if any.
fn last_paddle_hit_points(paddles: &Vec<(HitPoints, Side)>, side: Side) -> (found: Option<u8>)
    ensures
        found == shown_hit_points(paddles@, side),
{
    let mut j: usize = paddles.len();
    while j > 0
        invariant
            j <= paddles.len(),
            forall|k: int| j <= k < paddles.len() ==> !paddle_on(side)(#[trigger] paddles@[k]),
        decreases j,
    {
        if paddles[j - 1].1 == side {
            proof {
                lemma_last_index_at(paddles@, paddle_on(side), j - 1);
            }
            return Some(paddles[j - 1].0.0);
        }
        j = j - 1;
    }
    proof {
        lemma_last_index_none(paddles@, paddle_on(side));
    }
    None
}

/// Updates each hit points UI with the hit points of the paddle on its
/// side; `None` leaves the UI's text as it was.
pub fn update_goal_hit_points_ui(paddles: &Vec<(HitPoints, Side)>, ui_sides: &Vec<Side>) -> (shown: Vec<Option<u8>>)
    ensures
        shown.len() == ui_sides.len(),
        forall|i: int| 0 <= i < ui_sides.len() ==> #[trigger] shown[i] == shown_hit_points(paddles@, ui_sides[i]),
{
    let mut shown: Vec<Option<u8>> = Vec::new();
    for i in 0..ui_sides.len()
        invariant
            shown.len() == i,
            forall|k: int| 0 <= k < i ==> #[trigger] shown[k] == shown_hit_points(paddles@, ui_sides[k]),
    {
        let found = last_paddle_hit_points(paddles, ui_sides[i]);
        shown.push(found);
    }
    shown
}

/// How one frame's keys act on the app. Escape, and only Escape, quits.
/// Outside the start menu a just-pressed Back returns to it; otherwise Space
/// pauses a game and resumes a paused one, and nothing else changes the
/// state. On the start menu Return starts a game and nothing else does.
/// Only a game steers the paddles: left arrow pushes negatively, otherwise
/// right arrow pushes positively, otherwise they decelerate.
pub proof fn lemma_user_input_follows_the_keys(just_pressed: Seq<Key>, pressed: Seq<Key>, state: AppState)
    ensures
        user_input(just_pressed, pressed, state).exit == just_pressed.contains(Key::Escape),
        state != AppState::StartMenu && just_pressed.contains(Key::Back) ==> user_input(
            just_pressed,
            pressed,
            state,
        ).next_state == Some(AppState::StartMenu),
        state == AppState::Game && !just_pressed.contains(Key::Back) && just_pressed.contains(Key::Space)
            ==> user_input(just_pressed, pressed, state).next_state == Some(AppState::Pause),
        state == AppState::Pause && !just_pressed.contains(Key::Back) && just_pressed.contains(Key::Space)
            ==> user_input(just_pressed, pressed, state).next_state == Some(AppState::Game),
        state != AppState::StartMenu && !just_pressed.contains(Key::Back) && !just_pressed.contains(Key::Space)
            ==> user_input(just_pressed, pressed, state).next_state is None,
        state == AppState::StartMenu ==> user_input(just_pressed, pressed, state).next_state == (if just_pressed.contains(
            Key::Return,
        ) {
            Some(AppState::Game)
        } else {
            None
        }),
        user_input(just_pressed, pressed, state).paddle_force is Some <==> state == AppState::Game,
        state == AppState::Game && pressed.contains(Key::Left) ==> user_input(just_pressed, pressed, state).paddle_force
            == Some(Some(Force::Negative)),
        state == AppState::Game && !pressed.contains(Key::Left) && pressed.contains(Key::Right) ==> user_input(
            just_pressed,
            pressed,
            state,
        ).paddle_force == Some(Some(Force::Positive)),
        state == AppState::Game && !pressed.contains(Key::Left) && !pressed.contains(Key::Right) ==> user_input(
            just_pressed,
            pressed,
            state,
        ).paddle_force == Some(None::<Force>),
{
}

/// A hit points UI shows nothing new exactly when no paddle is on its side;
/// otherwise it shows the hit points of the last paddle on its side in
/// query order.
pub proof fn lemma_shown_hit_points_come_from_a_paddle_on_the_side(paddles: Seq<(HitPoints, Side)>, side: Side)
    ensures
        shown_hit_points(paddles, side) is None <==> forall|i: int|
            0 <= i < paddles.len() ==> #[trigger] paddles[i].1 != side,
        shown_hit_points(paddles, side) matches Some(h) ==> exists|i: int|
            0 <= i < paddles.len() && paddles[i] == (HitPoints(h), side) && forall|j: int|
                i < j < paddles.len() ==> #[trigger] paddles[j].1 != side,
{
    lemma_last_index(paddles, paddle_on(side));
    match last_index(paddles, paddle_on(side)) {
        Some(i) => {
            assert(paddle_on(side)(paddles[i]));
            assert forall|j: int| i < j < paddles.len() implies #[trigger] paddles[j].1 != side by {
                assert(!paddle_on(side)(paddles[j]));
            }
        },
        None => {
            assert forall|i: int| 0 <= i < paddles.len() implies #[trigger] paddles[i].1 != side by {
                assert(!paddle_on(side)(paddles[i]));
            }
        },
    }
}

} // verus!
