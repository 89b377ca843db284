use vstd::prelude::*;
use crate::config::SelectedGameMode;
use crate::input::{compares_with_last_mode, key_held, InputOutcome, Key};

verus! {

/// All the app's possible states.
#[derive(Clone, Copy, Debug, PartialEq, Eq, Hash, Structural)]
pub enum GameState {
    Loading,
    StartMenu,
    Playing,
    Paused,
}

impl Default for GameState {
    fn default() -> (s: Self)
        ensures
            s == GameState::Loading,
    {
        GameState::Loading
    }
}

/// The states in which a game is under way.
pub open spec fn any_game_state() -> Seq<GameState> {
    seq![GameState::Playing, GameState::Paused]
}

impl GameState {
    /// Whether a game is under way (playing or paused).
    pub fn is_any_game_state(&self) -> (r: bool)
        ensures
            r == any_game_state().contains(*self),
            r == (*self == GameState::Playing || *self == GameState::Paused),
    {
        let r = match self {
            GameState::Playing | GameState::Paused => true,
            _ => false,
        };
        proof {
            if r {
                assert(any_game_state()[0] == GameState::Playing);
                assert(any_game_state()[1] == GameState::Paused);
            } else {
                assert forall|i: int| 0 <= i < any_game_state().len() implies any_game_state()[i] != *self by {}
            }
        }
        r
    }
}

/// Tags an entity to only exist in the listed states.
#[derive(Clone, Debug)]
pub struct ForStates<S>(pub Vec<S>);

/// What becomes of an entity when the state changes.
#[derive(Clone, Copy, Debug, PartialEq, Eq, Structural)]
pub enum EntityFate {
    /// It belongs to the new state and stays.
    Keep,
    /// It does not belong, and plays its fade-out (or despawn) animation first.
    FadeOut,
    /// It does not belong and has no animation, so it is removed at once.
    Despawn,
}

/// The fate of an entity that may or may not belong to the new state.
pub open spec fn fate(belongs: bool, has_animation: bool) -> EntityFate {
    if belongs {
        EntityFate::Keep
    } else if has_animation {
        EntityFate::FadeOut
    } else {
        EntityFate::Despawn
    }
}

/// Whether `state` is among `states`.
fn contains_state(states: &Vec<GameState>, state: GameState) -> (r: bool)
    ensures
        r == states@.contains(state),
{
    let mut i: usize = 0;
    while i < states.len()
        invariant
            i <= states.len(),
            forall|j: int| 0 <= j < i ==> states@[j] != state,
        decreases states.len() - i,
    {
        if states[i] == state {
            return true;
        }
        i = i + 1;
    }
    false
}

/// Decides what becomes of an entity tagged with [`ForStates`] once the game
/// state changes to `game_state`: it stays if it belongs there, otherwise it
/// fades out if it has a fade animation, or is despawned at once.
pub fn despawn_invalid_entities_for_state(
    game_state: GameState,
    for_states: &ForStates<GameState>,
    has_fade_animation: bool,
) -> (f: EntityFate)
    ensures
        f == fate(for_states.0@.contains(game_state), has_fade_animation),
{
    if !contains_state(&for_states.0, game_state) {
        if has_fade_animation {
            EntityFate::FadeOut
        } else {
            EntityFate::Despawn
        }
    } else {
        EntityFate::Keep
    }
}

/// The effect of one frame's keyboard input on the app: the outcome, the
/// selected game mode, and whether debugging gizmos are shown.
pub open spec fn game_state_input(
    just_pressed: Seq<Key>,
    game_state: GameState,
    selected_mode: usize,
    mode_count: usize,
    is_debugging_mode: bool,
) -> (InputOutcome<GameState>, usize, bool) {
    if just_pressed.contains(Key::Escape) {
        (InputOutcome::ExitApp, selected_mode, is_debugging_mode)
    } else if just_pressed.contains(Key::G) {
        (InputOutcome::Nothing, selected_mode, !is_debugging_mode)
    } else {
        match game_state {
            GameState::StartMenu => if just_pressed.contains(Key::Return) {
                (InputOutcome::SetState(GameState::Playing), selected_mode, is_debugging_mode)
            } else if just_pressed.contains(Key::Left) && selected_mode > 0 {
                (InputOutcome::Nothing, (selected_mode - 1) as usize, is_debugging_mode)
            } else if just_pressed.contains(Key::Right) && selected_mode < mode_count - 1 {
                (InputOutcome::Nothing, (selected_mode + 1) as usize, is_debugging_mode)
            } else {
                (InputOutcome::Nothing, selected_mode, is_debugging_mode)
            },
            GameState::Playing if just_pressed.contains(Key::Space) => (
                InputOutcome::SetState(GameState::Paused),
                selected_mode,
                is_debugging_mode,
            ),
            GameState::Paused if just_pressed.contains(Key::Space) => (
                InputOutcome::SetState(GameState::Playing),
                selected_mode,
                is_debugging_mode,
            ),
            GameState::Playing if just_pressed.contains(Key::Back) => (
                InputOutcome::SetState(GameState::StartMenu),
                selected_mode,
                is_debugging_mode,
            ),
            GameState::Paused if just_pressed.contains(Key::Back) => (
                InputOutcome::SetState(GameState::StartMenu),
                selected_mode,
                is_debugging_mode,
            ),
            _ => (InputOutcome::Nothing, selected_mode, is_debugging_mode),
        }
    }
}

/// Handles the keys that act on the app as a whole, given the keys pressed
/// this frame.
///
/// Escape quits and `G` toggles debugging in any state. In the start menu,
/// Return starts a game and Left/Right step through the `mode_count` game
/// modes without leaving their range. During a game, Space pauses and
/// unpauses, and Back returns to the start menu.
pub fn handle_game_state_specific_inputs(
    just_pressed: &Vec<Key>,
    game_state: GameState,
    selected_mode: &mut SelectedGameMode,
    mode_count: usize,
    is_debugging_mode: &mut bool,
) -> (outcome: InputOutcome<GameState>)
    requires
        compares_with_last_mode(just_pressed@, game_state == GameState::StartMenu, old(selected_mode).0)
            ==> mode_count > 0,
    ensures
        (outcome, final(selected_mode).0, *final(is_debugging_mode)) == game_state_input(
            just_pressed@,
            game_state,
            old(selected_mode).0,
            mode_count,
            *old(is_debugging_mode),
        ),
{
    if key_held(just_pressed, Key::Escape) {
        return InputOutcome::ExitApp;
    } else if key_held(just_pressed, Key::G) {
        *is_debugging_mode = !*is_debugging_mode;
        return InputOutcome::Nothing;
    }
    let space = key_held(just_pressed, Key::Space);
    let back = key_held(just_pressed, Key::Back);
    let mut mode = selected_mode.0;
    let outcome = match game_state {
        GameState::StartMenu => {
            if key_held(just_pressed, Key::Return) {
                InputOutcome::SetState(GameState::Playing)
            } else if key_held(just_pressed, Key::Left) && mode > 0 {
                mode = mode - 1;
                InputOutcome::Nothing
            } else if key_held(just_pressed, Key::Right) && mode < mode_count - 1 {
                mode = mode + 1;
                InputOutcome::Nothing
            } else {
                InputOutcome::Nothing
            }
        },
        GameState::Playing if space => InputOutcome::SetState(GameState::Paused),
        GameState::Paused if space => InputOutcome::SetState(GameState::Playing),
        GameState::Playing if back => InputOutcome::SetState(GameState::StartMenu),
        GameState::Paused if back => InputOutcome::SetState(GameState::StartMenu),
        _ => InputOutcome::Nothing,
    };
    *selected_mode = SelectedGameMode(mode);
    outcome
}

/// The selected game mode never leaves the range of configured modes.
pub proof fn lemma_selected_mode_stays_in_range(
    just_pressed: Seq<Key>,
    game_state: GameState,
    selected_mode: usize,
    mode_count: usize,
    is_debugging_mode: bool,
)
    requires
        selected_mode < mode_count,
    ensures
        game_state_input(just_pressed, game_state, selected_mode, mode_count, is_debugging_mode).1 < mode_count,
{
}

/// Escape quits the app from every state, whatever else is pressed.
pub proof fn lemma_escape_always_exits(
    just_pressed: Seq<Key>,
    game_state: GameState,
    selected_mode: usize,
    mode_count: usize,
    is_debugging_mode: bool,
)
    requires
        just_pressed.contains(Key::Escape),
    ensures
        game_state_input(just_pressed, game_state, selected_mode, mode_count, is_debugging_mode).0
            == InputOutcome::<GameState>::ExitApp,
{
}

/// Pressing Space pauses a game and pressing it again resumes it, leaving
/// the mode selection and debugging flag untouched.
pub proof fn lemma_space_pauses_and_resumes(selected_mode: usize, mode_count: usize, is_debugging_mode: bool)
    ensures
        game_state_input(seq![Key::Space], GameState::Playing, selected_mode, mode_count, is_debugging_mode)
            == (InputOutcome::SetState(GameState::Paused), selected_mode, is_debugging_mode),
        game_state_input(seq![Key::Space], GameState::Paused, selected_mode, mode_count, is_debugging_mode)
            == (InputOutcome::SetState(GameState::Playing), selected_mode, is_debugging_mode),
{
    assert(seq![Key::Space].contains(Key::Space)) by {
        assert(seq![Key::Space][0] == Key::Space);
    }
    assert(!seq![Key::Space].contains(Key::Escape)) by {
        assert forall|i: int| 0 <= i < 1 implies seq![Key::Space][i] != Key::Escape by {}
    }
    assert(!seq![Key::Space].contains(Key::G)) by {
        assert forall|i: int| 0 <= i < 1 implies seq![Key::Space][i] != Key::G by {}
    }
}

/// Called in the loading state, the handler changes nothing unless Escape
/// or `G` is pressed.
pub proof fn lemma_loading_ignores_game_keys(
    just_pressed: Seq<Key>,
    selected_mode: usize,
    mode_count: usize,
    is_debugging_mode: bool,
)
    requires
        !just_pressed.contains(Key::Escape),
        !just_pressed.contains(Key::G),
    ensures
        game_state_input(just_pressed, GameState::Loading, selected_mode, mode_count, is_debugging_mode)
            == (InputOutcome::<GameState>::Nothing, selected_mode, is_debugging_mode),
{
}

/// How one frame's keys act, for every state. Escape quits and changes
/// nothing else; otherwise `G` toggles debugging and does nothing else; no
/// other key touches the debugging flag. Only the start menu changes the
/// selected mode: Return starts a game, otherwise Left steps to the previous
/// mode when there is one, otherwise Right steps to the next mode when there
/// is one. During a game Space pauses or resumes, otherwise Back returns to
/// the start menu. Loading never changes the state.
pub proof fn lemma_game_state_input_follows_the_keys(
    just_pressed: Seq<Key>,
    game_state: GameState,
    selected_mode: usize,
    mode_count: usize,
    is_debugging_mode: bool,
)
    ensures
        ({
            let r = game_state_input(just_pressed, game_state, selected_mode, mode_count, is_debugging_mode);
            let escape = just_pressed.contains(Key::Escape);
            let g = just_pressed.contains(Key::G);
            let in_game = game_state == GameState::Playing || game_state == GameState::Paused;
            &&& escape ==> r == (InputOutcome::<GameState>::ExitApp, selected_mode, is_debugging_mode)
            &&& r.0 == InputOutcome::<GameState>::ExitApp ==> escape
            &&& !escape && g ==> r == (InputOutcome::<GameState>::Nothing, selected_mode, !is_debugging_mode)
            &&& !escape && !g ==> r.2 == is_debugging_mode
            &&& game_state != GameState::StartMenu ==> r.1 == selected_mode
            &&& !escape && !g && game_state == GameState::StartMenu && just_pressed.contains(Key::Return) ==> r == (
                InputOutcome::SetState(GameState::Playing),
                selected_mode,
                is_debugging_mode,
            )
            &&& !escape && !g && game_state == GameState::StartMenu && !just_pressed.contains(Key::Return)
                ==> r.0 == InputOutcome::<GameState>::Nothing
            &&& !escape && !g && game_state == GameState::StartMenu && !just_pressed.contains(Key::Return)
                && just_pressed.contains(Key::Left) && selected_mode > 0 ==> r.1 == selected_mode - 1
            &&& !escape && !g && game_state == GameState::StartMenu && !just_pressed.contains(Key::Return) && !(
            just_pressed.contains(Key::Left) && selected_mode > 0) && just_pressed.contains(Key::Right)
                && selected_mode + 1 < mode_count ==> r.1 == selected_mode + 1
            &&& !escape && !g && game_state == GameState::StartMenu && !just_pressed.contains(Key::Left)
                && !just_pressed.contains(Key::Right) ==> r.1 == selected_mode
            &&& !escape && !g && game_state == GameState::Playing && just_pressed.contains(Key::Space) ==> r.0
                == InputOutcome::SetState(GameState::Paused)
            &&& !escape && !g && game_state == GameState::Paused && just_pressed.contains(Key::Space) ==> r.0
                == InputOutcome::SetState(GameState::Playing)
            &&& !escape && !g && in_game && !just_pressed.contains(Key::Space) && just_pressed.contains(Key::Back)
                ==> r.0 == InputOutcome::SetState(GameState::StartMenu)
            &&& !escape && !g && in_game && !just_pressed.contains(Key::Space) && !just_pressed.contains(Key::Back)
                ==> r.0 == InputOutcome::<GameState>::Nothing
            &&& game_state == GameState::Loading ==> !(r.0 is SetState)
        }),
{
}

/// An entity stays exactly when it belongs to the new state; one that does
/// not belong fades out when it has an animation and is despawned at once
/// otherwise.
pub proof fn lemma_entities_stay_exactly_when_they_belong(belongs: bool, has_animation: bool)
    ensures
        (fate(belongs, has_animation) == EntityFate::Keep) == belongs,
        (fate(belongs, has_animation) == EntityFate::FadeOut) == (!belongs && has_animation),
        (fate(belongs, has_animation) == EntityFate::Despawn) == (!belongs && !has_animation),
{
}

} // verus!
