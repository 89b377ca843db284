use vstd::prelude::*;
use crate::crab_input::{crab_force, CrabAction};
use crate::movement::Force;
use crate::side::Side;

verus! {

/// The actions a player can take to move their crab, in screen directions.
#[derive(Clone, Copy, Debug, PartialEq, Eq, Hash, Structural)]
pub enum PlayerAction {
    MoveCrabUp,
    MoveCrabDown,
    MoveCrabLeft,
    MoveCrabRight,
}

/// The force on a player's crab. Each side checks its two directions in a
/// fixed order, and the first one held wins.
pub open spec fn player_force(side: Side, pressed: Seq<PlayerAction>) -> Option<Force> {
    match side {
        Side::Bottom => if pressed.contains(PlayerAction::MoveCrabLeft) {
            Some(Force::Negative)
        } else if pressed.contains(PlayerAction::MoveCrabRight) {
            Some(Force::Positive)
        } else {
            None
        },
        Side::Right => if pressed.contains(PlayerAction::MoveCrabUp) {
            Some(Force::Positive)
        } else if pressed.contains(PlayerAction::MoveCrabDown) {
            Some(Force::Negative)
        } else {
            None
        },
        Side::Top => if pressed.contains(PlayerAction::MoveCrabLeft) {
            Some(Force::Positive)
        } else if pressed.contains(PlayerAction::MoveCrabRight) {
            Some(Force::Negative)
        } else {
            None
        },
        Side::Left => if pressed.contains(PlayerAction::MoveCrabUp) {
            Some(Force::Negative)
        } else if pressed.contains(PlayerAction::MoveCrabDown) {
            Some(Force::Positive)
        } else {
            None
        },
    }
}

/// Whether `action` is among `actions`.
fn action_pressed(actions: &Vec<PlayerAction>, action: PlayerAction) -> (r: bool)
    ensures
        r == actions@.contains(action),
{
    let mut i: usize = 0;
    while i < actions.len()
        invariant
            i <= actions.len(),
            forall|j: int| 0 <= j < i ==> actions@[j] != action,
        decreases actions.len() - i,
    {
        if actions[i] == action {
            return true;
        }
        i = i + 1;
    }
    false
}

/// Moves a player's crab along its goal according to the actions pressed,
/// mapping screen directions to the crab's side of the beach.
pub fn move_crabs_based_on_user_input(side: Side, pressed: &Vec<PlayerAction>) -> (force: Option<Force>)
    ensures
        force == player_force(side, pressed@),
{
    match side {
        Side::Bottom => {
            if action_pressed(pressed, PlayerAction::MoveCrabLeft) {
                Some(Force::Negative)
            } else if action_pressed(pressed, PlayerAction::MoveCrabRight) {
                Some(Force::Positive)
            } else {
                None
            }
        },
        Side::Right => {
            if action_pressed(pressed, PlayerAction::MoveCrabUp) {
                Some(Force::Positive)
            } else if action_pressed(pressed, PlayerAction::MoveCrabDown) {
                Some(Force::Negative)
            } else {
                None
            }
        },
        Side::Top => {
            if action_pressed(pressed, PlayerAction::MoveCrabLeft) {
                Some(Force::Positive)
            } else if action_pressed(pressed, PlayerAction::MoveCrabRight) {
                Some(Force::Negative)
            } else {
                None
            }
        },
        Side::Left => {
            if action_pressed(pressed, PlayerAction::MoveCrabUp) {
                Some(Force::Negative)
            } else if action_pressed(pressed, PlayerAction::MoveCrabDown) {
                Some(Force::Positive)
            } else {
                None
            }
        },
    }
}

/// The crab action that names the same screen direction.
pub open spec fn as_crab_action(action: PlayerAction) -> CrabAction {
    match action {
        PlayerAction::MoveCrabUp => CrabAction::MoveUp,
        PlayerAction::MoveCrabDown => CrabAction::MoveDown,
        PlayerAction::MoveCrabLeft => CrabAction::MoveLeft,
        PlayerAction::MoveCrabRight => CrabAction::MoveRight,
    }
}

/// The player controls and the crab controls move a crab the same way
/// whenever a single direction is held.
pub proof fn lemma_player_and_crab_controls_agree(side: Side, action: PlayerAction)
    ensures
        player_force(side, seq![action]) == crab_force(side, seq![as_crab_action(action)]),
{
    let p = seq![action];
    let c = seq![as_crab_action(action)];
    assert(p[0] == action);
    assert(c[0] == as_crab_action(action));
    assert forall|a: PlayerAction| p.contains(a) <==> a == action by {
        if p.contains(a) {
            let i = choose|i: int| 0 <= i < p.len() && p[i] == a;
            assert(i == 0);
        }
    }
    assert forall|a: CrabAction| c.contains(a) <==> a == as_crab_action(action) by {
        if c.contains(a) {
            let i = choose|i: int| 0 <= i < c.len() && c[i] == a;
            assert(i == 0);
        }
    }
}

} // verus!
