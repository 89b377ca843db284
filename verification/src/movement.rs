use vstd::prelude::*;
use crate::input::{key_held, Key};

verus! {

/// Positive or negative force affecting acceleration.
#[derive(Clone, Copy, Debug, PartialEq, Eq, Hash, Structural)]
pub enum Force {
    Positive,
    Negative,
}

/// A component that handles all acceleration-based movement for a given entity.
#[derive(Clone, Copy, Debug, PartialEq, Eq, Structural)]
pub struct Movement {
    /// Whether the entity has positive/negative acceleration, or is
    /// decelerating if there is none.
    pub force: Option<Force>,
}

impl Default for Movement {
    fn default() -> (m: Self)
        ensures
            m.force is None,
    {
        Movement { force: None }
    }
}

/// The force for a keyboard-controlled paddle: left (arrow or `A`) pushes
/// it negatively, otherwise right (arrow or `D`) pushes it positively,
/// otherwise it decelerates.
pub open spec fn keyboard_paddle_force(pressed: Seq<Key>) -> Option<Force> {
    if pressed.contains(Key::Left) || pressed.contains(Key::A) {
        Some(Force::Negative)
    } else if pressed.contains(Key::Right) || pressed.contains(Key::D) {
        Some(Force::Positive)
    } else {
        None
    }
}

/// Makes a paddle move left/right in response to the keyboard's
/// corresponding arrow keys (or `A`/`D`), given the keys currently held.
pub fn handle_keyboard_input_for_player_controlled_paddles(pressed: &Vec<Key>) -> (force: Option<Force>)
    ensures
        force == keyboard_paddle_force(pressed@),
{
    if key_held(pressed, Key::Left) || key_held(pressed, Key::A) {
        Some(Force::Negative)
    } else if key_held(pressed, Key::Right) || key_held(pressed, Key::D) {
        Some(Force::Positive)
    } else {
        None
    }
}

/// Holding left (arrow or `A`) pushes a keyboard paddle negatively, even
/// with right held too; otherwise holding right (arrow or `D`) pushes it
/// positively; holding none of these four keys lets it decelerate.
pub proof fn lemma_paddle_force_follows_held_keys(pressed: Seq<Key>)
    ensures
        pressed.contains(Key::Left) || pressed.contains(Key::A) ==> keyboard_paddle_force(pressed) == Some(
            Force::Negative,
        ),
        !pressed.contains(Key::Left) && !pressed.contains(Key::A) && (pressed.contains(Key::Right)
            || pressed.contains(Key::D)) ==> keyboard_paddle_force(pressed) == Some(Force::Positive),
        !pressed.contains(Key::Left) && !pressed.contains(Key::A) && !pressed.contains(Key::Right)
            && !pressed.contains(Key::D) ==> keyboard_paddle_force(pressed) is None,
{
}

} // verus!
