use vstd::prelude::*;

verus! {

/// The keyboard keys the game responds to.
#[derive(Clone, Copy, Debug, PartialEq, Eq, Hash, Structural)]
pub enum Key {
    Escape,
    /// Toggles the debugging gizmos.
    G,
    Return,
    Left,
    Right,
    Up,
    Down,
    Space,
    Back,
    W,
    A,
    S,
    D,
}

/// Whether `key` is among `keys` (held, or pressed this frame, depending
/// on which set is passed).
pub fn key_held(keys: &Vec<Key>, key: Key) -> (r: bool)
    ensures
        r == keys@.contains(key),
{
    let mut i: usize = 0;
    while i < keys.len()
        invariant
            i <= keys.len(),
            forall|j: int| 0 <= j < i ==> keys@[j] != key,
        decreases keys.len() - i,
    {
        if keys[i] == key {
            return true;
        }
        i = i + 1;
    }
    false
}

/// Whether handling this frame's keys compares the selected mode with the
/// last configured one: on the start menu, with Right pressed and no key
/// that is handled before it (Escape, `G`, Return, or Left when a lower mode
/// exists). The comparison needs at least one configured mode.
pub open spec fn compares_with_last_mode(just_pressed: Seq<Key>, on_start_menu: bool, selected_mode: usize) -> bool {
    &&& on_start_menu
    &&& !just_pressed.contains(Key::Escape)
    &&& !just_pressed.contains(Key::G)
    &&& !just_pressed.contains(Key::Return)
    &&& !(just_pressed.contains(Key::Left) && selected_mode > 0)
    &&& just_pressed.contains(Key::Right)
}

/// Tells whether handling this frame's keys compares the selected mode with
/// the last configured one.
pub fn reaches_last_mode_check(just_pressed: &Vec<Key>, on_start_menu: bool, selected_mode: usize) -> (r: bool)
    ensures
        r == compares_with_last_mode(just_pressed@, on_start_menu, selected_mode),
{
    on_start_menu && !key_held(just_pressed, Key::Escape) && !key_held(just_pressed, Key::G) && !key_held(
        just_pressed,
        Key::Return,
    ) && !(key_held(just_pressed, Key::Left) && selected_mode > 0) && key_held(just_pressed, Key::Right)
}

/// What the app must do after handling this frame's keyboard input, besides
/// the settings that the handler updates in place.
#[derive(Clone, Copy, Debug, PartialEq, Eq, Structural)]
pub enum InputOutcome<S> {
    /// Nothing beyond the in-place updates.
    Nothing,
    /// Quit the app.
    ExitApp,
    /// Switch to the given state.
    SetState(S),
}

} // verus!
