use vstd::prelude::*;
use crate::input::{compares_with_last_mode, key_held, InputOutcome, Key};
use crate::states::{fate, EntityFate, ForStates};

verus! {

/// Current screen of the game.
#[derive(Clone, Copy, Debug, PartialEq, Eq, Hash, Structural)]
pub enum GameScreen {
    StartMenu,
    Playing,
    Paused,
}

impl Default for GameScreen {
    fn default() -> (s: Self)
        ensures
            s == GameScreen::StartMenu,
    {
        GameScreen::StartMenu
    }
}

/// Settings and results that live across screens.
#[derive(Clone, Copy, Debug, PartialEq, Eq, Structural)]
pub struct GlobalData {
    /// Index of the selected game mode.
    pub mode_index: usize,
    /// Whether debugging gizmos are shown.
    pub is_debugging_enabled: bool,
    /// The team that won the previous round, if any.
    pub winning_team: Option<usize>,
}

/// The effect of one frame's keyboard input on the screen, the selected
/// mode and the debugging flag.
pub open spec fn game_screen_input(
    just_pressed: Seq<Key>,
    game_screen: GameScreen,
    global_data: GlobalData,
    mode_count: usize,
) -> (InputOutcome<GameScreen>, GlobalData) {
    if just_pressed.contains(Key::Escape) {
        (InputOutcome::ExitApp, global_data)
    } else if just_pressed.contains(Key::G) {
        (InputOutcome::Nothing, GlobalData { is_debugging_enabled: !global_data.is_debugging_enabled, ..global_data })
    } else {
        match game_screen {
            GameScreen::StartMenu => if just_pressed.contains(Key::Return) {
                (InputOutcome::SetState(GameScreen::Playing), global_data)
            } else if just_pressed.contains(Key::Left) && global_data.mode_index > 0 {
                (InputOutcome::Nothing, GlobalData { mode_index: (global_data.mode_index - 1) as usize, ..global_data })
            } else if just_pressed.contains(Key::Right) && global_data.mode_index < mode_count - 1 {
                (InputOutcome::Nothing, GlobalData { mode_index: (global_data.mode_index + 1) as usize, ..global_data })
            } else {
                (InputOutcome::Nothing, global_data)
            },
            GameScreen::Playing => if just_pressed.contains(Key::Space) {
                (InputOutcome::SetState(GameScreen::Paused), global_data)
            } else if just_pressed.contains(Key::Back) {
                (InputOutcome::SetState(GameScreen::StartMenu), global_data)
            } else {
                (InputOutcome::Nothing, global_data)
            },
            GameScreen::Paused => if just_pressed.contains(Key::Space) {
                (InputOutcome::SetState(GameScreen::Playing), global_data)
            } else if just_pressed.contains(Key::Back) {
                (InputOutcome::SetState(GameScreen::StartMenu), global_data)
            } else {
                (InputOutcome::Nothing, global_data)
            },
        }
    }
}

/// Handles the keys that act on the game as a whole, given the keys pressed
/// this frame.
///
/// Escape quits and `G` toggles debugging on every screen. On the start
/// menu, Return starts a game and Left/Right step through the `mode_count`
/// game modes without leaving their range. During a game, Space pauses and
/// unpauses, and Back returns to the start menu.
pub fn handle_game_screen_specific_inputs(
    just_pressed: &Vec<Key>,
    game_screen: GameScreen,
    global_data: &mut GlobalData,
    mode_count: usize,
) -> (outcome: InputOutcome<GameScreen>)
    requires
        compares_with_last_mode(just_pressed@, game_screen == GameScreen::StartMenu, old(global_data).mode_index)
            ==> mode_count > 0,
    ensures
        (outcome, *final(global_data)) == game_screen_input(just_pressed@, game_screen, *old(global_data), mode_count),
        old(global_data).mode_index < mode_count ==> final(global_data).mode_index < mode_count,
{
    let mut data = *global_data;
    let outcome = if key_held(just_pressed, Key::Escape) {
        InputOutcome::ExitApp
    } else if key_held(just_pressed, Key::G) {
        data.is_debugging_enabled = !data.is_debugging_enabled;
        InputOutcome::Nothing
    } else {
        match game_screen {
            GameScreen::StartMenu => {
                if key_held(just_pressed, Key::Return) {
                    InputOutcome::SetState(GameScreen::Playing)
                } else if key_held(just_pressed, Key::Left) && data.mode_index > 0 {
                    data.mode_index = data.mode_index - 1;
                    InputOutcome::Nothing
                } else if key_held(just_pressed, Key::Right) && data.mode_index < mode_count - 1 {
                    data.mode_index = data.mode_index + 1;
                    InputOutcome::Nothing
                } else {
                    InputOutcome::Nothing
                }
            },
            GameScreen::Playing => {
                if key_held(just_pressed, Key::Space) {
                    InputOutcome::SetState(GameScreen::Paused)
                } else if key_held(just_pressed, Key::Back) {
                    InputOutcome::SetState(GameScreen::StartMenu)
                } else {
                    InputOutcome::Nothing
                }
            },
            GameScreen::Paused => {
                if key_held(just_pressed, Key::Space) {
                    InputOutcome::SetState(GameScreen::Playing)
                } else if key_held(just_pressed, Key::Back) {
                    InputOutcome::SetState(GameScreen::StartMenu)
                } else {
                    InputOutcome::Nothing
                }
            },
        }
    };
    *global_data = data;
    outcome
}

/// Whether `screen` is among `screens`.
fn contains_screen(screens: &Vec<GameScreen>, screen: GameScreen) -> (r: bool)
    ensures
        r == screens@.contains(screen),
{
    let mut i: usize = 0;
    while i < screens.len()
        invariant
            i <= screens.len(),
            forall|j: int| 0 <= j < i ==> screens@[j] != screen,
        decreases screens.len() - i,
    {
        if screens[i] == screen {
            return true;
        }
        i = i + 1;
    }
    false
}

/// Decides what becomes of an entity tagged with [`ForStates`] once the
/// screen changes to `game_screen`: it stays if it belongs there, otherwise
/// it starts despawning if it has a spawn animation, or is despawned at once.
pub fn despawn_invalid_entities_for_current_screen(
    game_screen: GameScreen,
    for_states: &ForStates<GameScreen>,
    has_spawn_animation: bool,
) -> (f: EntityFate)
    ensures
        f == fate(for_states.0@.contains(game_screen), has_spawn_animation),
{
    if !contains_screen(&for_states.0, game_screen) {
        if has_spawn_animation {
            EntityFate::FadeOut
        } else {
            EntityFate::Despawn
        }
    } else {
        EntityFate::Keep
    }
}

/// Leaving a game with Back from either the playing or the paused screen
/// always lands on the start menu, and never changes the selected mode.
pub proof fn lemma_back_returns_to_start_menu(just_pressed: Seq<Key>, global_data: GlobalData, mode_count: usize)
    requires
        just_pressed.contains(Key::Back),
        !just_pressed.contains(Key::Escape),
        !just_pressed.contains(Key::G),
        !just_pressed.contains(Key::Space),
    ensures
        game_screen_input(just_pressed, GameScreen::Playing, global_data, mode_count) == (
            InputOutcome::SetState(GameScreen::StartMenu),
            global_data,
        ),
        game_screen_input(just_pressed, GameScreen::Paused, global_data, mode_count) == (
            InputOutcome::SetState(GameScreen::StartMenu),
            global_data,
        ),
{
}

/// How one frame's keys act on every screen. Escape quits and changes
/// nothing; otherwise `G` toggles debugging and does nothing else. Only the
/// start menu changes the selected mode: Return starts a game, otherwise
/// Left steps to the previous mode when there is one, otherwise Right steps
/// to the next mode when there is one. During a game Space pauses or
/// resumes, otherwise Back returns to the start menu. The winning team is
/// never changed.
pub proof fn lemma_game_screen_input_follows_the_keys(
    just_pressed: Seq<Key>,
    game_screen: GameScreen,
    global_data: GlobalData,
    mode_count: usize,
)
    ensures
        ({
            let r = game_screen_input(just_pressed, game_screen, global_data, mode_count);
            let escape = just_pressed.contains(Key::Escape);
            let g = just_pressed.contains(Key::G);
            let on_menu = game_screen == GameScreen::StartMenu;
            &&& r.1.winning_team == global_data.winning_team
            &&& escape ==> r == (InputOutcome::<GameScreen>::ExitApp, global_data)
            &&& r.0 == InputOutcome::<GameScreen>::ExitApp ==> escape
            &&& !escape && g ==> r.0 == InputOutcome::<GameScreen>::Nothing && r.1.mode_index == global_data.mode_index
                && r.1.is_debugging_enabled == !global_data.is_debugging_enabled
            &&& !escape && !g ==> r.1.is_debugging_enabled == global_data.is_debugging_enabled
            &&& !on_menu ==> r.1.mode_index == global_data.mode_index
            &&& !escape && !g && on_menu && just_pressed.contains(Key::Return) ==> r == (
                InputOutcome::SetState(GameScreen::Playing),
                global_data,
            )
            &&& !escape && !g && on_menu && !just_pressed.contains(Key::Return) ==> r.0
                == InputOutcome::<GameScreen>::Nothing
            &&& !escape && !g && on_menu && !just_pressed.contains(Key::Return) && just_pressed.contains(Key::Left)
                && global_data.mode_index > 0 ==> r.1.mode_index == global_data.mode_index - 1
            &&& !escape && !g && on_menu && !just_pressed.contains(Key::Return) && !(just_pressed.contains(Key::Left)
                && global_data.mode_index > 0) && just_pressed.contains(Key::Right) && global_data.mode_index + 1
                < mode_count ==> r.1.mode_index == global_data.mode_index + 1
            &&& !just_pressed.contains(Key::Left) && !just_pressed.contains(Key::Right) ==> r.1.mode_index
                == global_data.mode_index
            &&& !escape && !g && game_screen == GameScreen::Playing && just_pressed.contains(Key::Space) ==> r.0
                == InputOutcome::SetState(GameScreen::Paused)
            &&& !escape && !g && game_screen == GameScreen::Paused && just_pressed.contains(Key::Space) ==> r.0
                == InputOutcome::SetState(GameScreen::Playing)
            &&& !escape && !g && !on_menu && !just_pressed.contains(Key::Space) && just_pressed.contains(Key::Back)
                ==> r.0 == InputOutcome::SetState(GameScreen::StartMenu)
            &&& !escape && !g && !on_menu && !just_pressed.contains(Key::Space) && !just_pressed.contains(Key::Back)
                ==> r.0 == InputOutcome::<GameScreen>::Nothing
        }),
{
}

} // verus!
