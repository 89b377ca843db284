use vstd::prelude::*;
use crate::input::Key;
use crate::movement::Force;
use crate::side::{Side, SignedAxis};

verus! {

/// The actions a user can take to move a crab, in screen directions.
#[derive(Clone, Copy, Debug, PartialEq, Eq, Hash, Structural)]
pub enum CrabAction {
    MoveUp,
    MoveDown,
    MoveLeft,
    MoveRight,
}

/// The action that a keyboard key is bound to: `W`/Up, `S`/Down, `A`/Left
/// and `D`/Right.
pub open spec fn spec_crab_action_for_key(key: Key) -> Option<CrabAction> {
    match key {
        Key::W | Key::Up => Some(CrabAction::MoveUp),
        Key::S | Key::Down => Some(CrabAction::MoveDown),
        Key::A | Key::Left => Some(CrabAction::MoveLeft),
        Key::D | Key::Right => Some(CrabAction::MoveRight),
        _ => None,
    }
}

/// The keyboard binding of the crab input map.
pub fn crab_action_for_key(key: Key) -> (action: Option<CrabAction>)
    ensures
        action == spec_crab_action_for_key(key),
{
    match key {
        Key::W | Key::Up => Some(CrabAction::MoveUp),
        Key::S | Key::Down => Some(CrabAction::MoveDown),
        Key::A | Key::Left => Some(CrabAction::MoveLeft),
        Key::D | Key::Right => Some(CrabAction::MoveRight),
        _ => None,
    }
}

/// The gamepad buttons the crab controls respond to.
#[derive(Clone, Copy, Debug, PartialEq, Eq, Hash, Structural)]
pub enum GamepadButton {
    DPadUp,
    DPadDown,
    DPadLeft,
    DPadRight,
}

/// A gamepad stick pushed past its threshold along one axis.
#[derive(Clone, Copy, Debug, PartialEq, Eq, Hash, Structural)]
pub enum StickPush {
    RightStickUp,
    RightStickDown,
    LeftStickLeft,
    LeftStickRight,
}

/// One input that the crab controls can be bound to.
#[derive(Clone, Copy, Debug, PartialEq, Eq, Hash, Structural)]
pub enum CrabInput {
    Key(Key),
    Button(GamepadButton),
    Stick(StickPush),
}

/// The crab input map, entry by entry: the keyboard keys, then the D-pad,
/// then the sticks.
pub open spec fn spec_crab_input_map() -> Seq<(CrabInput, CrabAction)> {
    seq![
        (CrabInput::Key(Key::W), CrabAction::MoveUp),
        (CrabInput::Key(Key::Up), CrabAction::MoveUp),
        (CrabInput::Key(Key::S), CrabAction::MoveDown),
        (CrabInput::Key(Key::Down), CrabAction::MoveDown),
        (CrabInput::Key(Key::A), CrabAction::MoveLeft),
        (CrabInput::Key(Key::Left), CrabAction::MoveLeft),
        (CrabInput::Key(Key::D), CrabAction::MoveRight),
        (CrabInput::Key(Key::Right), CrabAction::MoveRight),
        (CrabInput::Button(GamepadButton::DPadUp), CrabAction::MoveUp),
        (CrabInput::Button(GamepadButton::DPadDown), CrabAction::MoveDown),
        (CrabInput::Button(GamepadButton::DPadLeft), CrabAction::MoveLeft),
        (CrabInput::Button(GamepadButton::DPadRight), CrabAction::MoveRight),
        (CrabInput::Stick(StickPush::RightStickUp), CrabAction::MoveUp),
        (CrabInput::Stick(StickPush::RightStickDown), CrabAction::MoveDown),
        (CrabInput::Stick(StickPush::LeftStickLeft), CrabAction::MoveLeft),
        (CrabInput::Stick(StickPush::LeftStickRight), CrabAction::MoveRight),
    ]
}

/// Marks a crab as controlled by user input devices: the bindings from
/// inputs to crab actions.
#[derive(Debug)]
pub struct CrabInputBundle {
    pub input_map: Vec<(CrabInput, CrabAction)>,
}

impl Default for CrabInputBundle {
    /// Binds W/Up, the D-pad's up and the right stick pushed up to moving
    /// up; S/Down, the D-pad's down and the right stick pushed down to moving
    /// down; A/Left, the D-pad's left and the left stick pushed left to
    /// moving left; D/Right, the D-pad's right and the left stick pushed
    /// right to moving right; and nothing else.
    fn default() -> (bundle: Self)
        ensures
            bundle.input_map@ == spec_crab_input_map(),
    {
        let input_map = vec![
            (CrabInput::Key(Key::W), CrabAction::MoveUp),
            (CrabInput::Key(Key::Up), CrabAction::MoveUp),
            (CrabInput::Key(Key::S), CrabAction::MoveDown),
            (CrabInput::Key(Key::Down), CrabAction::MoveDown),
            (CrabInput::Key(Key::A), CrabAction::MoveLeft),
            (CrabInput::Key(Key::Left), CrabAction::MoveLeft),
            (CrabInput::Key(Key::D), CrabAction::MoveRight),
            (CrabInput::Key(Key::Right), CrabAction::MoveRight),
            (CrabInput::Button(GamepadButton::DPadUp), CrabAction::MoveUp),
            (CrabInput::Button(GamepadButton::DPadDown), CrabAction::MoveDown),
            (CrabInput::Button(GamepadButton::DPadLeft), CrabAction::MoveLeft),
            (CrabInput::Button(GamepadButton::DPadRight), CrabAction::MoveRight),
            (CrabInput::Stick(StickPush::RightStickUp), CrabAction::MoveUp),
            (CrabInput::Stick(StickPush::RightStickDown), CrabAction::MoveDown),
            (CrabInput::Stick(StickPush::LeftStickLeft), CrabAction::MoveLeft),
            (CrabInput::Stick(StickPush::LeftStickRight), CrabAction::MoveRight),
        ];
        assert(input_map@ =~= spec_crab_input_map());
        CrabInputBundle { input_map }
    }
}

/// The action that an input is bound to in the crab input map.
pub open spec fn spec_crab_action_for_input(input: CrabInput) -> Option<CrabAction> {
    match input {
        CrabInput::Key(key) => spec_crab_action_for_key(key),
        CrabInput::Button(GamepadButton::DPadUp) => Some(CrabAction::MoveUp),
        CrabInput::Button(GamepadButton::DPadDown) => Some(CrabAction::MoveDown),
        CrabInput::Button(GamepadButton::DPadLeft) => Some(CrabAction::MoveLeft),
        CrabInput::Button(GamepadButton::DPadRight) => Some(CrabAction::MoveRight),
        CrabInput::Stick(StickPush::RightStickUp) => Some(CrabAction::MoveUp),
        CrabInput::Stick(StickPush::RightStickDown) => Some(CrabAction::MoveDown),
        CrabInput::Stick(StickPush::LeftStickLeft) => Some(CrabAction::MoveLeft),
        CrabInput::Stick(StickPush::LeftStickRight) => Some(CrabAction::MoveRight),
    }
}

/// Looks up the action an input is bound to.
pub fn crab_action_for_input(input: CrabInput) -> (action: Option<CrabAction>)
    ensures
        action == spec_crab_action_for_input(input),
{
    match input {
        CrabInput::Key(key) => crab_action_for_key(key),
        CrabInput::Button(GamepadButton::DPadUp) => Some(CrabAction::MoveUp),
        CrabInput::Button(GamepadButton::DPadDown) => Some(CrabAction::MoveDown),
        CrabInput::Button(GamepadButton::DPadLeft) => Some(CrabAction::MoveLeft),
        CrabInput::Button(GamepadButton::DPadRight) => Some(CrabAction::MoveRight),
        CrabInput::Stick(StickPush::RightStickUp) => Some(CrabAction::MoveUp),
        CrabInput::Stick(StickPush::RightStickDown) => Some(CrabAction::MoveDown),
        CrabInput::Stick(StickPush::LeftStickLeft) => Some(CrabAction::MoveLeft),
        CrabInput::Stick(StickPush::LeftStickRight) => Some(CrabAction::MoveRight),
    }
}

/// An input is bound to an action in the crab input map exactly when the
/// lookup gives that action, so each input is bound to at most one action.
pub proof fn lemma_lookup_follows_the_input_map(input: CrabInput, action: CrabAction)
    ensures
        spec_crab_input_map().contains((input, action)) <==> spec_crab_action_for_input(input) == Some(action),
{
    let m = spec_crab_input_map();
    assert(m.len() == 16);
    assert forall|k: int| 0 <= k < m.len() implies spec_crab_action_for_input(#[trigger] m[k].0) == Some(m[k].1) by {}
    if spec_crab_action_for_input(input) == Some(action) {
        let k: int = match input {
            CrabInput::Key(Key::W) => 0,
            CrabInput::Key(Key::Up) => 1,
            CrabInput::Key(Key::S) => 2,
            CrabInput::Key(Key::Down) => 3,
            CrabInput::Key(Key::A) => 4,
            CrabInput::Key(Key::Left) => 5,
            CrabInput::Key(Key::D) => 6,
            CrabInput::Key(Key::Right) => 7,
            CrabInput::Button(GamepadButton::DPadUp) => 8,
            CrabInput::Button(GamepadButton::DPadDown) => 9,
            CrabInput::Button(GamepadButton::DPadLeft) => 10,
            CrabInput::Button(GamepadButton::DPadRight) => 11,
            CrabInput::Stick(StickPush::RightStickUp) => 12,
            CrabInput::Stick(StickPush::RightStickDown) => 13,
            CrabInput::Stick(StickPush::LeftStickLeft) => 14,
            CrabInput::Stick(StickPush::LeftStickRight) => 15,
            _ => 0,
        };
        assert(m[k] == (input, action));
    }
}

/// The actions pressed this frame: the action bound to each held input, in
/// the order the inputs are held (inputs bound to nothing are skipped).
pub open spec fn actions_of(held: Seq<CrabInput>) -> Seq<CrabAction>
    decreases held.len(),
{
    if held.len() == 0 {
        seq![]
    } else {
        let rest = actions_of(held.drop_last());
        match spec_crab_action_for_input(held.last()) {
            Some(a) => rest.push(a),
            None => rest,
        }
    }
}

/// Resolves the inputs held this frame into the crab actions pressed.
pub fn pressed_crab_actions(held: &Vec<CrabInput>) -> (actions: Vec<CrabAction>)
    ensures
        actions@ == actions_of(held@),
{
    let mut actions: Vec<CrabAction> = Vec::new();
    for i in 0..held.len()
        invariant
            actions@ == actions_of(held@.take(i as int)),
    {
        assert(held@.take(i + 1).drop_last() == held@.take(i as int));
        assert(held@.take(i + 1).last() == held@[i as int]);
        match crab_action_for_input(held[i]) {
            Some(a) => actions.push(a),
            None => {},
        }
    }
    assert(held@.take(held.len() as int) == held@);
    actions
}

/// An action is pressed exactly when some held input is bound to it in the
/// crab input map.
pub proof fn lemma_action_pressed_iff_a_bound_input_is_held(held: Seq<CrabInput>, action: CrabAction)
    ensures
        actions_of(held).contains(action) <==> exists|i: int|
            0 <= i < held.len() && spec_crab_input_map().contains((#[trigger] held[i], action)),
    decreases held.len(),
{
    let m = spec_crab_input_map();
    if held.len() > 0 {
        let prev = held.drop_last();
        let last = held.last();
        lemma_action_pressed_iff_a_bound_input_is_held(prev, action);
        lemma_lookup_follows_the_input_map(last, action);
        let rest = actions_of(prev);
        let all = actions_of(held);
        assert(all.contains(action) <==> (rest.contains(action) || spec_crab_action_for_input(last) == Some(
            action,
        ))) by {
            match spec_crab_action_for_input(last) {
                Some(a) => {
                    assert(all == rest.push(a));
                    if all.contains(action) {
                        let k = choose|k: int| 0 <= k < all.len() && all[k] == action;
                        if k < rest.len() {
                            assert(rest[k] == action);
                        }
                    }
                    if rest.contains(action) {
                        let k = choose|k: int| 0 <= k < rest.len() && rest[k] == action;
                        assert(all[k] == action);
                    }
                    if a == action {
                        assert(all[rest.len() as int] == action);
                    }
                },
                None => {},
            }
        }
        assert((exists|i: int| 0 <= i < held.len() && m.contains((#[trigger] held[i], action))) <==> ((exists|
            i: int,
        | 0 <= i < prev.len() && m.contains((#[trigger] prev[i], action))) || m.contains((last, action)))) by {
            if exists|i: int| 0 <= i < held.len() && m.contains((#[trigger] held[i], action)) {
                let i = choose|i: int| 0 <= i < held.len() && m.contains((#[trigger] held[i], action));
                if i < prev.len() {
                    assert(prev[i] == held[i]);
                }
            }
            if exists|i: int| 0 <= i < prev.len() && m.contains((#[trigger] prev[i], action)) {
                let i = choose|i: int| 0 <= i < prev.len() && m.contains((#[trigger] prev[i], action));
                assert(held[i] == prev[i]);
            }
            if m.contains((last, action)) {
                assert(held[held.len() - 1] == last);
            }
        }
    }
}

/// The screen directions that move a crab on `side` toward the negative and
/// the positive end of its goal.
pub open spec fn spec_crab_move_actions(side: Side) -> (CrabAction, CrabAction) {
    match side {
        Side::Bottom => (CrabAction::MoveLeft, CrabAction::MoveRight),
        Side::Right => (CrabAction::MoveDown, CrabAction::MoveUp),
        Side::Top => (CrabAction::MoveRight, CrabAction::MoveLeft),
        Side::Left => (CrabAction::MoveUp, CrabAction::MoveDown),
    }
}

/// The force on a user-controlled crab: the negative direction wins when
/// both are held.
pub open spec fn crab_force(side: Side, pressed: Seq<CrabAction>) -> Option<Force> {
    if pressed.contains(spec_crab_move_actions(side).0) {
        Some(Force::Negative)
    } else if pressed.contains(spec_crab_move_actions(side).1) {
        Some(Force::Positive)
    } else {
        None
    }
}

/// Whether `action` is among `actions`.
fn action_pressed(actions: &Vec<CrabAction>, action: CrabAction) -> (r: bool)
    ensures
        r == actions@.contains(action),
{
    let mut i: usize = 0;
    while i < actions.len()
        invariant
            i <= actions.len(),
            forall|j: int| 0 <= j < i ==> actions@[j] != action,
        decreases actions.len() - i,
    {
        if actions[i] == action {
            return true;
        }
        i = i + 1;
    }
    false
}

/// Moves a user-controlled crab along its goal according to the actions
/// pressed, mapping screen directions to the crab's side of the beach.
pub fn move_crabs_based_on_user_input(side: Side, pressed: &Vec<CrabAction>) -> (force: Option<Force>)
    ensures
        force == crab_force(side, pressed@),
{
    let (move_crab_left, move_crab_right) = match side {
        Side::Bottom => (CrabAction::MoveLeft, CrabAction::MoveRight),
        Side::Right => (CrabAction::MoveDown, CrabAction::MoveUp),
        Side::Top => (CrabAction::MoveRight, CrabAction::MoveLeft),
        Side::Left => (CrabAction::MoveUp, CrabAction::MoveDown),
    };
    if action_pressed(pressed, move_crab_left) {
        Some(Force::Negative)
    } else if action_pressed(pressed, move_crab_right) {
        Some(Force::Positive)
    } else {
        None
    }
}

/// Crabs on opposite sides face each other, so the same screen direction
/// pushes them in opposite directions along their goals.
pub proof fn lemma_opposite_crabs_move_mirrored(side: Side, action: CrabAction)
    ensures
        crab_force(side, seq![action]) is Some ==> crab_force(side.spec_opposite(), seq![action]) is Some
            && crab_force(side.spec_opposite(), seq![action]) != crab_force(side, seq![action]),
{
    let s = seq![action];
    assert(s[0] == action);
    assert forall|a: CrabAction| s.contains(a) <==> a == action by {
        if s.contains(a) {
            let i = choose|i: int| 0 <= i < s.len() && s[i] == a;
            assert(i == 0);
        }
    }
}

/// The world direction a screen direction points along, seen from the
/// camera above the bottom side: right is `+X`, left is `-X`, up is away
/// from the camera (`-Z`) and down is toward it (`+Z`).
pub open spec fn screen_direction(action: CrabAction) -> SignedAxis {
    match action {
        CrabAction::MoveRight => SignedAxis::PosX,
        CrabAction::MoveLeft => SignedAxis::NegX,
        CrabAction::MoveUp => SignedAxis::NegZ,
        CrabAction::MoveDown => SignedAxis::PosZ,
    }
}

/// A user-controlled crab moves the way the screen direction points: the
/// action that pushes it positively points along its side's local x-axis,
/// the one that pushes it negatively points the other way, and the two
/// directions across the side (neither along nor against that axis) move it
/// not at all.
pub proof fn lemma_crab_moves_along_the_screen_direction(side: Side, action: CrabAction)
    ensures
        crab_force(side, seq![action]) == Some(Force::Positive) <==> screen_direction(action)
            == side.spec_ball_position_axis(),
        crab_force(side, seq![action]) == Some(Force::Negative) <==> screen_direction(action)
            == side.spec_ball_position_axis().negated(),
        crab_force(side, seq![action]) is None <==> screen_direction(action) != side.spec_ball_position_axis()
            && screen_direction(action) != side.spec_ball_position_axis().negated(),
{
    let s = seq![action];
    assert(s[0] == action);
    assert forall|a: CrabAction| s.contains(a) <==> a == action by {
        if s.contains(a) {
            let i = choose|i: int| 0 <= i < s.len() && s[i] == a;
            assert(i == 0);
        }
    }
}

/// Holding the action that pushes a crab toward its negative end wins over
/// everything else held; otherwise the one toward its positive end decides;
/// holding neither leaves it decelerating.
pub proof fn lemma_crab_force_follows_held_actions(side: Side, pressed: Seq<CrabAction>, action: CrabAction)
    ensures
        pressed.contains(action) && screen_direction(action) == side.spec_ball_position_axis().negated()
            ==> crab_force(side, pressed) == Some(Force::Negative),
        pressed.contains(action) && screen_direction(action) == side.spec_ball_position_axis() && !(exists|
            a: CrabAction,
        | pressed.contains(a) && screen_direction(a) == side.spec_ball_position_axis().negated())
            ==> crab_force(side, pressed) == Some(Force::Positive),
        crab_force(side, pressed) is Some ==> exists|a: CrabAction|
            pressed.contains(a) && (screen_direction(a) == side.spec_ball_position_axis() || screen_direction(a)
                == side.spec_ball_position_axis().negated()),
{
    let (negative, positive) = spec_crab_move_actions(side);
    let axis = side.spec_ball_position_axis();
    assert(screen_direction(negative) == axis.negated() && screen_direction(positive) == axis) by {
        match side {
            Side::Bottom => {},
            Side::Right => {},
            Side::Top => {},
            Side::Left => {},
        }
    }
    assert forall|a: CrabAction, b: CrabAction| screen_direction(a) == screen_direction(b) implies a == b by {
        match a {
            CrabAction::MoveUp => {},
            CrabAction::MoveDown => {},
            CrabAction::MoveLeft => {},
            CrabAction::MoveRight => {},
        }
    }
    if crab_force(side, pressed) is Some {
        if pressed.contains(negative) {
            assert(pressed.contains(negative) && screen_direction(negative) == axis.negated());
        } else {
            assert(pressed.contains(positive) && screen_direction(positive) == axis);
        }
    }
}

} // verus!
