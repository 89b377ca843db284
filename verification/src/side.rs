use vstd::prelude::*;

verus! {

/// Assigns an entity to a given side of the beach.
///
/// The sides are listed counter-clockwise, starting from the side nearest
/// the camera.
#[derive(Clone, Copy, Debug, PartialEq, Eq, Hash, Structural)]
pub enum Side {
    Bottom,
    Right,
    Top,
    Left,
}

/// A unit vector along one of the horizontal world axes, with its sign.
///
/// The beach lies in the X/Z plane, so every side faces along one of these.
#[derive(Clone, Copy, Debug, PartialEq, Eq, Hash, Structural)]
pub enum SignedAxis {
    PosX,
    NegX,
    PosZ,
    NegZ,
}

impl SignedAxis {
    /// The `(x, z)` components of the unit vector.
    pub open spec fn components(self) -> (int, int) {
        match self {
            SignedAxis::PosX => (1, 0),
            SignedAxis::NegX => (-1, 0),
            SignedAxis::PosZ => (0, 1),
            SignedAxis::NegZ => (0, -1),
        }
    }

    /// The dot product of two axes' unit vectors.
    pub open spec fn dot(self, other: SignedAxis) -> int {
        self.components().0 * other.components().0 + self.components().1
            * other.components().1
    }

    /// The same axis pointing the other way.
    pub open spec fn negated(self) -> SignedAxis {
        match self {
            SignedAxis::PosX => SignedAxis::NegX,
            SignedAxis::NegX => SignedAxis::PosX,
            SignedAxis::PosZ => SignedAxis::NegZ,
            SignedAxis::NegZ => SignedAxis::PosZ,
        }
    }

    /// The axis turned a quarter turn about the vertical axis, taking `+Z`
    /// to `+X`.
    pub open spec fn quarter_turn(self) -> SignedAxis {
        match self {
            SignedAxis::PosZ => SignedAxis::PosX,
            SignedAxis::PosX => SignedAxis::NegZ,
            SignedAxis::NegZ => SignedAxis::NegX,
            SignedAxis::NegX => SignedAxis::PosZ,
        }
    }
}

/// The sides in their iteration order, which is also the order in which
/// the level is laid out.
pub open spec fn spec_sides() -> Seq<Side> {
    seq![Side::Bottom, Side::Right, Side::Top, Side::Left]
}

/// All sides of the beach, in iteration order.
pub fn sides() -> (all: Vec<Side>)
    ensures
        all@ == spec_sides(),
{
    let v = vec![Side::Bottom, Side::Right, Side::Top, Side::Left];
    assert(v@ =~= spec_sides());
    v
}

impl Side {
    /// The position of the side in iteration order, which is also its
    /// discriminant.
    pub open spec fn spec_index(self) -> nat {
        match self {
            Side::Bottom => 0,
            Side::Right => 1,
            Side::Top => 2,
            Side::Left => 3,
        }
    }

    /// The side across the beach.
    pub open spec fn spec_opposite(self) -> Side {
        match self {
            Side::Bottom => Side::Top,
            Side::Right => Side::Left,
            Side::Top => Side::Bottom,
            Side::Left => Side::Right,
        }
    }

    /// The next side counter-clockwise.
    pub open spec fn spec_next(self) -> Side {
        match self {
            Side::Bottom => Side::Right,
            Side::Right => Side::Top,
            Side::Top => Side::Left,
            Side::Left => Side::Bottom,
        }
    }

    /// The axis that points from the side toward the center of the beach
    /// is the negation of this one: a ball at world position `p` is at
    /// perpendicular distance `0.5 * width - p . axis` from the side.
    pub open spec fn spec_axis(self) -> SignedAxis {
        match self {
            Side::Bottom => SignedAxis::PosZ,
            Side::Right => SignedAxis::PosX,
            Side::Top => SignedAxis::NegZ,
            Side::Left => SignedAxis::NegX,
        }
    }

    /// The side's local x-axis: a ball at world position `p` is at local
    /// position `p . ball_position_axis` along the side.
    pub open spec fn spec_ball_position_axis(self) -> SignedAxis {
        match self {
            Side::Bottom => SignedAxis::PosX,
            Side::Right => SignedAxis::NegZ,
            Side::Top => SignedAxis::NegX,
            Side::Left => SignedAxis::PosZ,
        }
    }

    /// The index of the side, which is also its discriminant.
    pub fn index(&self) -> (i: usize)
        ensures
            i == self.spec_index(),
    {
        match self {
            Side::Bottom => 0,
            Side::Right => 1,
            Side::Top => 2,
            Side::Left => 3,
        }
    }

    /// Get the (+/-)(X/Z) axis the side occupies.
    pub fn axis(&self) -> (a: SignedAxis)
        ensures
            a == self.spec_axis(),
    {
        match self {
            Side::Bottom => SignedAxis::PosZ,
            Side::Right => SignedAxis::PosX,
            Side::Top => SignedAxis::NegZ,
            Side::Left => SignedAxis::NegX,
        }
    }

    /// The world axis onto which a ball's position is projected to map it to
    /// the side's local x-axis.
    pub fn get_ball_position_axis(&self) -> (a: SignedAxis)
        ensures
            a == self.spec_ball_position_axis(),
    {
        match self {
            Side::Bottom => SignedAxis::PosX,
            Side::Right => SignedAxis::NegZ,
            Side::Top => SignedAxis::NegX,
            Side::Left => SignedAxis::PosZ,
        }
    }
}

/// Every side appears exactly once in iteration order, at its own index.
pub proof fn lemma_sides_enumerate_each_side_once(side: Side)
    ensures
        spec_sides().len() == 4,
        spec_sides()[side.spec_index() as int] == side,
        forall|i: int, j: int|
            0 <= i < j < spec_sides().len() ==> spec_sides()[i] != spec_sides()[j],
{
}

/// A side's local x-axis is perpendicular to the axis it occupies, and is
/// that axis turned a quarter turn, so the four sides form a rotation of
/// one another.
pub proof fn lemma_ball_position_axis_is_perpendicular(side: Side)
    ensures
        side.spec_axis().dot(side.spec_ball_position_axis()) == 0,
        side.spec_ball_position_axis() == side.spec_axis().quarter_turn(),
        side.spec_next().spec_axis() == side.spec_axis().quarter_turn(),
{
}

/// Opposite sides of the beach face opposite ways, and measure ball
/// positions in opposite directions.
pub proof fn lemma_opposite_sides_face_opposite_ways(side: Side)
    ensures
        side.spec_opposite().spec_axis() == side.spec_axis().negated(),
        side.spec_opposite().spec_ball_position_axis() == side.spec_ball_position_axis().negated(),
        side.spec_axis().dot(side.spec_opposite().spec_axis()) == -1,
        side.spec_opposite().spec_opposite() == side,
{
}

} // verus!
