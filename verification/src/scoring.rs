use vstd::prelude::*;
use crate::side::Side;

verus! {

/// A paddle's HP which controls when they are eliminated and the game is over.
#[derive(Clone, Copy, Debug, PartialEq, Eq, Structural)]
pub struct HitPoints(pub u8);

/// One less hit point, stopping at zero.
pub open spec fn saturating_dec(hp: u8) -> u8 {
    if hp == 0 {
        0
    } else {
        (hp - 1) as u8
    }
}

/// The first paddle in query order that a ball has fully passed, if any.
pub open spec fn first_passed(row: Seq<bool>) -> Option<int>
    decreases row.len(),
{
    if row.len() == 0 {
        None
    } else {
        match first_passed(row.drop_last()) {
            Some(i) => Some(i),
            None => if row.last() {
                Some(row.len() - 1)
            } else {
                None
            },
        }
    }
}

/// Whether index `i` appears in `indices`.
pub open spec fn listed(indices: Seq<usize>, i: int) -> bool {
    exists|k: int| 0 <= k < indices.len() && indices[k] == i
}

/// The state of a round of scoring: the hit points of every slot, the
/// paddles (by query index) whose goal was eliminated, in event order, and
/// the balls (by query index) that scored and must be despawned.
pub struct ScoreTally {
    pub hit_points: Seq<u8>,
    pub eliminations: Seq<usize>,
    pub scoring_balls: Seq<usize>,
}

/// One ball's turn: it scores against the first paddle it has fully
/// passed, which loses a hit point (stopping at zero) in its slot; if the
/// slot is left at zero the paddle's goal is eliminated.
pub open spec fn tally_ball(t: ScoreTally, slots: Seq<usize>, row: Seq<bool>, ball: usize) -> ScoreTally {
    match first_passed(row) {
        None => t,
        Some(p) => {
            let slot = slots[p] as int;
            let hp = saturating_dec(t.hit_points[slot]);
            ScoreTally {
                hit_points: t.hit_points.update(slot, hp),
                eliminations: if hp == 0 {
                    t.eliminations.push(p as usize)
                } else {
                    t.eliminations
                },
                scoring_balls: t.scoring_balls.push(ball),
            }
        },
    }
}

/// All balls take their turn in query order. `passed[b][p]` says whether
/// ball `b` is fully past paddle `p`, and `slots[p]` is the index of the
/// hit points that paddle `p` defends.
pub open spec fn tally(hit_points: Seq<u8>, slots: Seq<usize>, passed: Seq<Seq<bool>>) -> ScoreTally
    decreases passed.len(),
{
    if passed.len() == 0 {
        ScoreTally { hit_points, eliminations: seq![], scoring_balls: seq![] }
    } else {
        tally_ball(
            tally(hit_points, slots, passed.drop_last()),
            slots,
            passed.last(),
            (passed.len() - 1) as usize,
        )
    }
}

/// Whether the inputs of a round of scoring fit together: every ball has
/// one entry per paddle and every paddle defends an existing slot.
pub open spec fn scoring_inputs_fit(hit_points: Seq<u8>, slots: Seq<usize>, passed: Seq<Seq<bool>>) -> bool {
    &&& passed.len() <= usize::MAX
    &&& slots.len() <= usize::MAX
    &&& forall|b: int| 0 <= b < passed.len() ==> #[trigger] passed[b].len() == slots.len()
    &&& forall|p: int| 0 <= p < slots.len() ==> #[trigger] slots[p] < hit_points.len()
}

/// `first_passed` finds the first `true` entry, or reports there is none.
pub proof fn lemma_first_passed(row: Seq<bool>)
    ensures
        match first_passed(row) {
            Some(i) => 0 <= i < row.len() && row[i] && forall|j: int| 0 <= j < i ==> !row[j],
            None => forall|j: int| 0 <= j < row.len() ==> !row[j],
        },
    decreases row.len(),
{
    if row.len() > 0 {
        lemma_first_passed(row.drop_last());
        assert forall|j: int| 0 <= j < row.len() - 1 implies row.drop_last()[j] == row[j] by {}
    }
}

/// Finds the first paddle that a ball has fully passed.
fn first_passed_paddle(row: &Vec<bool>) -> (r: Option<usize>)
    ensures
        match r {
            Some(i) => first_passed(row@) == Some(i as int),
            None => first_passed(row@) is None,
        },
{
    proof {
        lemma_first_passed(row@);
    }
    let mut p: usize = 0;
    while p < row.len()
        invariant
            p <= row.len(),
            forall|j: int| 0 <= j < p ==> !row@[j],
            match first_passed(row@) {
                Some(i) => 0 <= i < row@.len() && row@[i] && forall|j: int| 0 <= j < i ==> !row@[j],
                None => forall|j: int| 0 <= j < row@.len() ==> !row@[j],
            },
        decreases row.len() - p,
    {
        if row[p] {
            return Some(p);
        }
        p = p + 1;
    }
    None
}

/// Runs a round of scoring over the given hit point slots.
fn score_balls(hit_points: &mut Vec<u8>, slots: &Vec<usize>, passed: &Vec<Vec<bool>>) -> (res: (Vec<usize>, Vec<usize>))
    requires
        scoring_inputs_fit(old(hit_points)@, slots@, passed.deep_view()),
    ensures
        final(hit_points)@ == tally(old(hit_points)@, slots@, passed.deep_view()).hit_points,
        res.0@ == tally(old(hit_points)@, slots@, passed.deep_view()).eliminations,
        res.1@ == tally(old(hit_points)@, slots@, passed.deep_view()).scoring_balls,
{
    let ghost start = hit_points@;
    let ghost rows = passed.deep_view();
    let mut eliminations: Vec<usize> = Vec::new();
    let mut scoring_balls: Vec<usize> = Vec::new();
    let n = passed.len();
    for b in 0..n
        invariant
            n == passed.len(),
            rows == passed.deep_view(),
            rows.len() == n,
            scoring_inputs_fit(start, slots@, rows),
            hit_points@.len() == start.len(),
            tally(start, slots@, rows.take(b as int)) == (ScoreTally {
                hit_points: hit_points@,
                eliminations: eliminations@,
                scoring_balls: scoring_balls@,
            }),
    {
        assert(rows.take(b + 1).drop_last() == rows.take(b as int));
        assert(rows.take(b + 1).last() == rows[b as int]);
        assert(rows[b as int] == passed[b as int]@);
        let found = first_passed_paddle(&passed[b]);
        match found {
            None => {},
            Some(p) => {
                proof {
                    lemma_first_passed(passed[b as int]@);
                }
                let slot = slots[p];
                let hp = hit_points[slot];
                let new_hp = if hp == 0 { 0 } else { hp - 1 };
                hit_points.set(slot, new_hp);
                if new_hp == 0 {
                    eliminations.push(p);
                }
                scoring_balls.push(b);
            },
        }
    }
    assert(rows.take(n as int) == rows);
    (eliminations, scoring_balls)
}

/// The goals and the balls that one round of scoring touched.
pub struct ScoringOutcome<E> {
    /// The goals eliminated, in event order (a goal can appear again if a
    /// second ball scores on it while it has no hit points left).
    pub eliminated: Vec<E>,
    /// The balls (by query index) that scored and must be despawned.
    pub scoring_balls: Vec<usize>,
}

/// Builds `0, 1, ..., n - 1`.
fn identity_slots(n: usize) -> (slots: Vec<usize>)
    ensures
        slots@.len() == n,
        forall|p: int| 0 <= p < n ==> #[trigger] slots@[p] == p,
{
    let mut slots: Vec<usize> = Vec::new();
    for p in 0..n
        invariant
            slots@.len() == p,
            forall|q: int| 0 <= q < p ==> #[trigger] slots@[q] == q,
    {
        slots.push(p);
    }
    slots
}

/// Scores every ball against the first paddle it has fully passed.
///
/// `paddle_hit_points[p]` and `paddle_goals[p]` are the hit points and the
/// goal (parent entity) of paddle `p` in query order; `balls_past_paddles[b][p]`
/// says whether ball `b` is fully past paddle `p`. Each scoring paddle loses
/// one hit point, stopping at zero; a paddle left at zero eliminates its goal.
/// Each scoring ball is reported so it can be despawned and replaced.
pub fn deduct_paddle_hp_and_potentially_eliminate_goal(
    paddle_hit_points: &mut Vec<u8>,
    paddle_goals: &Vec<u64>,
    balls_past_paddles: &Vec<Vec<bool>>,
) -> (outcome: ScoringOutcome<u64>)
    requires
        paddle_goals.len() == old(paddle_hit_points).len(),
        forall|b: int|
            0 <= b < balls_past_paddles.len() ==> #[trigger] balls_past_paddles[b].len()
                == old(paddle_hit_points).len(),
    ensures
        ({
            let slots = Seq::new(old(paddle_hit_points)@.len(), |p: int| p as usize);
            let t = tally(old(paddle_hit_points)@, slots, balls_past_paddles.deep_view());
            &&& final(paddle_hit_points)@ == t.hit_points
            &&& outcome.eliminated@ == t.eliminations.map_values(|p: usize| paddle_goals@[p as int])
            &&& outcome.scoring_balls@ == t.scoring_balls
        }),
{
    let ghost start = paddle_hit_points@;
    let ball_count = balls_past_paddles.len();
    let slots = identity_slots(paddle_hit_points.len());
    assert(slots@ == Seq::new(start.len(), |p: int| p as usize));
    proof {
        let rows = balls_past_paddles.deep_view();
        assert(rows.len() == ball_count);
        assert forall|b: int| 0 <= b < rows.len() implies #[trigger] rows[b].len() == slots@.len() by {
            assert(balls_past_paddles[b].len() == start.len());
            assert(rows[b].len() == balls_past_paddles[b]@.len());
        }
    }
    let (eliminations, scoring_balls) = score_balls(paddle_hit_points, &slots, balls_past_paddles);
    let ghost t = tally(start, slots@, balls_past_paddles.deep_view());
    proof {
        lemma_tally_bounds(start, slots@, balls_past_paddles.deep_view());
    }
    let mut eliminated: Vec<u64> = Vec::new();
    for i in 0..eliminations.len()
        invariant
            eliminations@ == t.eliminations,
            paddle_goals@.len() == start.len(),
            forall|k: int| 0 <= k < t.eliminations.len() ==> #[trigger] t.eliminations[k] < slots@.len(),
            slots@.len() == start.len(),
            eliminated@ == t.eliminations.take(i as int).map_values(|p: usize| paddle_goals@[p as int]),
    {
        assert(t.eliminations.take(i + 1) == t.eliminations.take(i as int).push(t.eliminations[i as int]));
        eliminated.push(paddle_goals[eliminations[i]]);
    }
    assert(t.eliminations.take(eliminations.len() as int) == t.eliminations);
    ScoringOutcome { eliminated, scoring_balls }
}

/// Eliminations name existing paddles, and scoring balls name existing balls.
pub proof fn lemma_tally_bounds(hit_points: Seq<u8>, slots: Seq<usize>, passed: Seq<Seq<bool>>)
    requires
        scoring_inputs_fit(hit_points, slots, passed),
    ensures
        tally(hit_points, slots, passed).hit_points.len() == hit_points.len(),
        forall|k: int|
            0 <= k < tally(hit_points, slots, passed).eliminations.len()
                ==> #[trigger] tally(hit_points, slots, passed).eliminations[k] < slots.len(),
        forall|k: int|
            0 <= k < tally(hit_points, slots, passed).scoring_balls.len()
                ==> #[trigger] tally(hit_points, slots, passed).scoring_balls[k] < passed.len(),
    decreases passed.len(),
{
    if passed.len() > 0 {
        let prev = passed.drop_last();
        assert(scoring_inputs_fit(hit_points, slots, prev)) by {
            assert forall|b: int| 0 <= b < prev.len() implies #[trigger] prev[b].len() == slots.len() by {
                assert(prev[b] == passed[b]);
            }
        }
        lemma_tally_bounds(hit_points, slots, prev);
        lemma_first_passed(passed.last());
    }
}


/// How a round of scoring changes hit points, by induction over the balls.
proof fn lemma_tally_hit_point_facts(hit_points: Seq<u8>, slots: Seq<usize>, passed: Seq<Seq<bool>>)
    requires
        scoring_inputs_fit(hit_points, slots, passed),
    ensures
        ({
            let t = tally(hit_points, slots, passed);
            &&& t.hit_points.len() == hit_points.len()
            &&& forall|s: int| 0 <= s < hit_points.len() ==> #[trigger] t.hit_points[s] <= hit_points[s]
            &&& forall|k: int|
                0 <= k < t.eliminations.len() ==> #[trigger] t.hit_points[slots[t.eliminations[k] as int] as int] == 0
            &&& forall|s: int|
                0 <= s < hit_points.len() && hit_points[s] > 0 && #[trigger] t.hit_points[s] == 0 ==> exists|k: int|
                    0 <= k < t.eliminations.len() && slots[#[trigger] t.eliminations[k] as int] == s
        }),
    decreases passed.len(),
{
    lemma_tally_bounds(hit_points, slots, passed);
    if passed.len() > 0 {
        let prev = passed.drop_last();
        assert(scoring_inputs_fit(hit_points, slots, prev)) by {
            assert forall|b: int| 0 <= b < prev.len() implies #[trigger] prev[b].len() == slots.len() by {
                assert(prev[b] == passed[b]);
            }
        }
        lemma_tally_hit_point_facts(hit_points, slots, prev);
        lemma_tally_bounds(hit_points, slots, prev);
        let row = passed.last();
        lemma_first_passed(row);
        let t0 = tally(hit_points, slots, prev);
        let t = tally(hit_points, slots, passed);
        match first_passed(row) {
            None => {},
            Some(p) => {
                let slot = slots[p] as int;
                assert(0 <= slot < hit_points.len());
                assert forall|s: int|
                    0 <= s < hit_points.len() && hit_points[s] > 0 && #[trigger] t.hit_points[s] == 0 implies exists|k: int|
                        0 <= k < t.eliminations.len() && slots[#[trigger] t.eliminations[k] as int] == s by {
                    if s == slot && t0.hit_points[s] > 0 {
                        assert(slots[t.eliminations[t.eliminations.len() - 1] as int] == s);
                    } else {
                        assert(t0.hit_points[s] == 0);
                        let k = choose|k: int|
                            0 <= k < t0.eliminations.len() && slots[#[trigger] t0.eliminations[k] as int] == s;
                        assert(t.eliminations[k] == t0.eliminations[k]);
                    }
                }
                assert forall|k: int|
                    0 <= k < t.eliminations.len() implies #[trigger] t.hit_points[slots[t.eliminations[k] as int] as int] == 0 by {
                    if k < t0.eliminations.len() {
                        assert(t.eliminations[k] == t0.eliminations[k]);
                        assert(t0.eliminations[k] < slots.len());
                    }
                }
            },
        }
    }
}

/// Which balls score in a round, by induction over the balls.
#[verifier::rlimit(40)]
proof fn lemma_tally_ball_facts(hit_points: Seq<u8>, slots: Seq<usize>, passed: Seq<Seq<bool>>)
    requires
        scoring_inputs_fit(hit_points, slots, passed),
    ensures
        ({
            let t = tally(hit_points, slots, passed);
            &&& forall|i: int, j: int|
                0 <= i < j < t.scoring_balls.len() ==> t.scoring_balls[i] < t.scoring_balls[j]
            &&& forall|b: int|
                #![trigger passed[b]]
                #![trigger listed(t.scoring_balls, b)]
                0 <= b < passed.len() ==> (listed(t.scoring_balls, b) <==> exists|p: int|
                    0 <= p < passed[b].len() && #[trigger] passed[b][p])
            &&& t.eliminations.len() <= t.scoring_balls.len()
        }),
    decreases passed.len(),
{
    lemma_tally_bounds(hit_points, slots, passed);
    if passed.len() > 0 {
        let prev = passed.drop_last();
        assert(scoring_inputs_fit(hit_points, slots, prev)) by {
            assert forall|b: int| 0 <= b < prev.len() implies #[trigger] prev[b].len() == slots.len() by {
                assert(prev[b] == passed[b]);
            }
        }
        lemma_tally_ball_facts(hit_points, slots, prev);
        lemma_tally_bounds(hit_points, slots, prev);
        let row = passed.last();
        lemma_first_passed(row);
        let t0 = tally(hit_points, slots, prev);
        let t = tally(hit_points, slots, passed);
        let last = (passed.len() - 1) as usize;
        assert forall|b: int| 0 <= b < passed.len() && #[trigger] listed(t.scoring_balls, b) implies exists|p: int|
                0 <= p < passed[b].len() && #[trigger] passed[b][p] by {
            let k = choose|k: int| 0 <= k < t.scoring_balls.len() && t.scoring_balls[k] == b as usize;
            if b < passed.len() - 1 {
                assert(prev[b] == passed[b]);
                if k < t0.scoring_balls.len() {
                    assert(t0.scoring_balls[k] == t.scoring_balls[k]);
                    assert(listed(t0.scoring_balls, b));
                    let p = choose|p: int| 0 <= p < prev[b].len() && #[trigger] prev[b][p];
                    assert(passed[b][p]);
                } else {
                    assert(t.scoring_balls[k] == last);
                }
            } else {
                assert(passed[b] == row);
                if k < t0.scoring_balls.len() {
                    assert(t0.scoring_balls[k] == t.scoring_balls[k]);
                    assert(t0.scoring_balls[k] < prev.len());
                }
                assert(first_passed(row) is Some);
                let i = first_passed(row)->0;
                assert(passed[b][i]);
            }
        }
        assert forall|b: int| 0 <= b < passed.len() && (exists|p: int|
                0 <= p < passed[b].len() && #[trigger] passed[b][p]) implies #[trigger] listed(t.scoring_balls, b) by {
            if b < passed.len() - 1 {
                assert(prev[b] == passed[b]);
                let p = choose|p: int| 0 <= p < passed[b].len() && #[trigger] passed[b][p];
                assert(prev[b][p]);
                assert(listed(t0.scoring_balls, b));
                let k = choose|k: int| 0 <= k < t0.scoring_balls.len() && t0.scoring_balls[k] == b as usize;
                assert(t.scoring_balls[k] == b as usize);
            } else {
                assert(passed[b] == row);
                assert(first_passed(row) is Some);
                assert(t.scoring_balls[t.scoring_balls.len() - 1] == last);
            }
        }
        assert(forall|i: int, j: int|
                0 <= i < j < t.scoring_balls.len() ==> t.scoring_balls[i] < t.scoring_balls[j]);

        assert(t.eliminations.len() <= t.scoring_balls.len());
    }
}

/// A round of scoring never raises any goal's hit points.
pub proof fn lemma_scoring_never_raises_hit_points(hit_points: Seq<u8>, slots: Seq<usize>, passed: Seq<Seq<bool>>)
    requires
        scoring_inputs_fit(hit_points, slots, passed),
    ensures
        tally(hit_points, slots, passed).hit_points.len() == hit_points.len(),
        forall|s: int|
            0 <= s < hit_points.len() ==> #[trigger] tally(hit_points, slots, passed).hit_points[s] <= hit_points[s],
{
    lemma_tally_hit_point_facts(hit_points, slots, passed);
}

/// A goal is eliminated only when its paddle's hit points are at zero, and
/// every goal whose hit points reach zero during a round is eliminated.
pub proof fn lemma_elimination_exactly_when_hit_points_reach_zero(
    hit_points: Seq<u8>,
    slots: Seq<usize>,
    passed: Seq<Seq<bool>>,
)
    requires
        scoring_inputs_fit(hit_points, slots, passed),
    ensures
        ({
            let t = tally(hit_points, slots, passed);
            &&& forall|k: int|
                0 <= k < t.eliminations.len() ==> #[trigger] t.hit_points[slots[t.eliminations[k] as int] as int] == 0
            &&& forall|s: int|
                0 <= s < hit_points.len() && hit_points[s] > 0 && #[trigger] t.hit_points[s] == 0 ==> exists|k: int|
                    0 <= k < t.eliminations.len() && slots[#[trigger] t.eliminations[k] as int] == s
        }),
{
    lemma_tally_hit_point_facts(hit_points, slots, passed);
}

/// Every ball that is fully past some paddle scores exactly once, and no
/// other ball scores; there are never more eliminations than scoring balls.
pub proof fn lemma_each_passing_ball_scores_once(hit_points: Seq<u8>, slots: Seq<usize>, passed: Seq<Seq<bool>>)
    requires
        scoring_inputs_fit(hit_points, slots, passed),
    ensures
        ({
            let t = tally(hit_points, slots, passed);
            &&& forall|i: int, j: int|
                0 <= i < j < t.scoring_balls.len() ==> t.scoring_balls[i] < t.scoring_balls[j]
            &&& forall|b: int|
                #![trigger passed[b]]
                #![trigger listed(t.scoring_balls, b)]
                0 <= b < passed.len() ==> (listed(t.scoring_balls, b) <==> exists|p: int|
                    0 <= p < passed[b].len() && #[trigger] passed[b][p])
            &&& t.eliminations.len() <= t.scoring_balls.len()
        }),
{
    lemma_tally_ball_facts(hit_points, slots, passed);
    let t = tally(hit_points, slots, passed);
    assert forall|b: int|
        #![trigger passed[b]]
        0 <= b < passed.len() implies (listed(t.scoring_balls, b) <==> exists|p: int|
            0 <= p < passed[b].len() && #[trigger] passed[b][p]) by {
    }
}

/// The hit points of the goal on each side of the beach.
#[derive(Clone, Copy, Debug, PartialEq, Eq, Structural)]
pub struct GoalsHitPoints {
    pub bottom: u8,
    pub right: u8,
    pub top: u8,
    pub left: u8,
}

impl View for GoalsHitPoints {
    type V = Seq<u8>;

    /// The hit points indexed by side.
    open spec fn view(&self) -> Seq<u8> {
        seq![self.bottom, self.right, self.top, self.left]
    }
}

impl GoalsHitPoints {
    /// The hit points of the goal on `side`.
    pub open spec fn spec_get(self, side: Side) -> u8 {
        self@[side.spec_index() as int]
    }

    /// Looks up the hit points of the goal on `side`.
    pub fn get(&self, side: Side) -> (hp: u8)
        ensures
            hp == self.spec_get(side),
    {
        match side {
            Side::Bottom => self.bottom,
            Side::Right => self.right,
            Side::Top => self.top,
            Side::Left => self.left,
        }
    }
}

/// Each side's hit points are read from that side's field.
pub proof fn lemma_hit_points_by_side(hit_points: GoalsHitPoints)
    ensures
        hit_points.spec_get(Side::Bottom) == hit_points.bottom,
        hit_points.spec_get(Side::Right) == hit_points.right,
        hit_points.spec_get(Side::Top) == hit_points.top,
        hit_points.spec_get(Side::Left) == hit_points.left,
{
}

/// Scores every ball against the first goal it has fully passed.
///
/// `goal_sides[g]` is the side of goal `g` in query order and
/// `balls_past_goals[b][g]` says whether ball `b` is fully past the paddle of
/// goal `g`. The scored goal's side loses one hit point, stopping at zero; a
/// side left at zero is reported as eliminated. Each scoring ball is reported
/// so that it can fade out without scoring again.
pub fn check_if_any_balls_have_scored_against_any_goals(
    goals_hit_points: &mut GoalsHitPoints,
    goal_sides: &Vec<Side>,
    balls_past_goals: &Vec<Vec<bool>>,
) -> (outcome: ScoringOutcome<Side>)
    requires
        forall|b: int|
            0 <= b < balls_past_goals.len() ==> #[trigger] balls_past_goals[b].len() == goal_sides.len(),
    ensures
        ({
            let slots = goal_sides@.map_values(|side: Side| side.spec_index() as usize);
            let t = tally(old(goals_hit_points)@, slots, balls_past_goals.deep_view());
            &&& final(goals_hit_points)@ == t.hit_points
            &&& outcome.eliminated@ == t.eliminations.map_values(|g: usize| goal_sides@[g as int])
            &&& outcome.scoring_balls@ == t.scoring_balls
        }),
{
    let ghost start = goals_hit_points@;
    let ball_count = balls_past_goals.len();
    let mut slots: Vec<usize> = Vec::new();
    for g in 0..goal_sides.len()
        invariant
            slots@ == goal_sides@.take(g as int).map_values(|side: Side| side.spec_index() as usize),
    {
        assert(goal_sides@.take(g + 1) == goal_sides@.take(g as int).push(goal_sides@[g as int]));
        slots.push(goal_sides[g].index());
    }
    assert(goal_sides@.take(goal_sides.len() as int) == goal_sides@);
    let mut hit_points = vec![
        goals_hit_points.bottom,
        goals_hit_points.right,
        goals_hit_points.top,
        goals_hit_points.left,
    ];
    assert(hit_points@ == start);
    proof {
        let rows = balls_past_goals.deep_view();
        assert(rows.len() == ball_count);
        assert forall|b: int| 0 <= b < rows.len() implies #[trigger] rows[b].len() == slots@.len() by {
            assert(balls_past_goals[b].len() == goal_sides.len());
            assert(rows[b].len() == balls_past_goals[b]@.len());
        }
    }
    let (eliminations, scoring_balls) = score_balls(&mut hit_points, &slots, balls_past_goals);
    let ghost t = tally(start, slots@, balls_past_goals.deep_view());
    proof {
        lemma_tally_bounds(start, slots@, balls_past_goals.deep_view());
    }
    goals_hit_points.bottom = hit_points[0];
    goals_hit_points.right = hit_points[1];
    goals_hit_points.top = hit_points[2];
    goals_hit_points.left = hit_points[3];
    assert(goals_hit_points@ == t.hit_points);
    let mut eliminated: Vec<Side> = Vec::new();
    for i in 0..eliminations.len()
        invariant
            eliminations@ == t.eliminations,
            slots@.len() == goal_sides@.len(),
            forall|k: int| 0 <= k < t.eliminations.len() ==> #[trigger] t.eliminations[k] < slots@.len(),
            eliminated@ == t.eliminations.take(i as int).map_values(|g: usize| goal_sides@[g as int]),
    {
        assert(t.eliminations.take(i + 1) == t.eliminations.take(i as int).push(t.eliminations[i as int]));
        eliminated.push(goal_sides[eliminations[i]]);
    }
    assert(t.eliminations.take(eliminations.len() as int) == t.eliminations);
    ScoringOutcome { eliminated, scoring_balls }
}

/// The sides of the crabs that one ball is fully past, in crab order.
pub open spec fn sides_passed(crab_sides: Seq<Side>, row: Seq<bool>) -> Seq<Side>
    decreases row.len(),
{
    if row.len() == 0 {
        seq![]
    } else {
        let rest = sides_passed(crab_sides, row.drop_last());
        if row.last() {
            rest.push(crab_sides[row.len() - 1])
        } else {
            rest
        }
    }
}

/// The scored events for all balls in order: one per ball and crab it is
/// fully past.
pub open spec fn side_scored_events(crab_sides: Seq<Side>, passed: Seq<Seq<bool>>) -> Seq<Side>
    decreases passed.len(),
{
    if passed.len() == 0 {
        seq![]
    } else {
        side_scored_events(crab_sides, passed.drop_last()) + sides_passed(crab_sides, passed.last())
    }
}

/// The balls (by query index) that are fully past at least one crab.
pub open spec fn balls_past_any(passed: Seq<Seq<bool>>) -> Seq<usize>
    decreases passed.len(),
{
    if passed.len() == 0 {
        seq![]
    } else {
        let rest = balls_past_any(passed.drop_last());
        if first_passed(passed.last()) is Some {
            rest.push((passed.len() - 1) as usize)
        } else {
            rest
        }
    }
}

/// The sides scored on by one ball.
fn scored_sides_for_ball(crab_sides: &Vec<Side>, row: &Vec<bool>) -> (events: Vec<Side>)
    requires
        row@.len() == crab_sides@.len(),
    ensures
        events@ == sides_passed(crab_sides@, row@),
{
    let mut events: Vec<Side> = Vec::new();
    for c in 0..row.len()
        invariant
            row@.len() == crab_sides@.len(),
            events@ == sides_passed(crab_sides@, row@.take(c as int)),
    {
        assert(row@.take(c + 1).drop_last() == row@.take(c as int));
        assert(row@.take(c + 1).last() == row@[c as int]);
        if row[c] {
            events.push(crab_sides[c]);
        }
    }
    assert(row@.take(row.len() as int) == row@);
    events
}

/// Checks every ball against every crab that guards a side: each crab that
/// a ball is fully past (`balls_past_crabs[b][c]`) raises a scored event for
/// that crab's side, and the ball fades out.
pub fn check_if_any_balls_have_scored_in_any_sides(crab_sides: &Vec<Side>, balls_past_crabs: &Vec<Vec<bool>>) -> (outcome:
    (Vec<Side>, Vec<usize>))
    requires
        forall|b: int|
            0 <= b < balls_past_crabs.len() ==> #[trigger] balls_past_crabs[b].len() == crab_sides.len(),
    ensures
        outcome.0@ == side_scored_events(crab_sides@, balls_past_crabs.deep_view()),
        outcome.1@ == balls_past_any(balls_past_crabs.deep_view()),
{
    let ghost rows = balls_past_crabs.deep_view();
    let mut events: Vec<Side> = Vec::new();
    let mut faded: Vec<usize> = Vec::new();
    let n = balls_past_crabs.len();
    for b in 0..n
        invariant
            n == balls_past_crabs.len(),
            rows == balls_past_crabs.deep_view(),
            rows.len() == n,
            forall|k: int| 0 <= k < n ==> #[trigger] balls_past_crabs[k].len() == crab_sides.len(),
            events@ == side_scored_events(crab_sides@, rows.take(b as int)),
            faded@ == balls_past_any(rows.take(b as int)),
    {
        assert(rows.take(b + 1).drop_last() == rows.take(b as int));
        assert(rows.take(b + 1).last() == rows[b as int]);
        assert(rows[b as int] =~= balls_past_crabs[b as int]@);
        assert(balls_past_crabs[b as int].len() == crab_sides.len());
        let mut ball_events = scored_sides_for_ball(crab_sides, &balls_past_crabs[b]);
        events.append(&mut ball_events);
        if first_passed_paddle(&balls_past_crabs[b]).is_some() {
            faded.push(b);
        }
    }
    assert(rows.take(n as int) == rows);
    (events, faded)
}

/// How many crabs one ball is fully past.
pub open spec fn crabs_passed(row: Seq<bool>) -> nat {
    row.filter(|x: bool| x).len()
}

/// How many crabs are fully passed, counted over all balls.
pub open spec fn crabs_passed_in_total(passed: Seq<Seq<bool>>) -> nat
    decreases passed.len(),
{
    if passed.len() == 0 {
        0
    } else {
        crabs_passed_in_total(passed.drop_last()) + crabs_passed(passed.last())
    }
}

/// A ball fades out exactly when it is fully past at least one crab; each
/// faded ball is listed once, and the list follows query order.
pub proof fn lemma_balls_fade_exactly_when_past_a_crab(passed: Seq<Seq<bool>>)
    requires
        passed.len() <= usize::MAX,
    ensures
        forall|k: int| 0 <= k < balls_past_any(passed).len() ==> #[trigger] balls_past_any(passed)[k] < passed.len(),
        forall|i: int, j: int|
            0 <= i < j < balls_past_any(passed).len() ==> balls_past_any(passed)[i] < balls_past_any(passed)[j],
        forall|b: int|
            #![trigger passed[b]]
            #![trigger listed(balls_past_any(passed), b)]
            0 <= b < passed.len() ==> (listed(balls_past_any(passed), b) <==> exists|c: int|
                0 <= c < passed[b].len() && #[trigger] passed[b][c]),
    decreases passed.len(),
{
    if passed.len() > 0 {
        let prev = passed.drop_last();
        let row = passed.last();
        let last = (passed.len() - 1) as usize;
        lemma_balls_fade_exactly_when_past_a_crab(prev);
        lemma_first_passed(row);
        let f0 = balls_past_any(prev);
        let f = balls_past_any(passed);
        assert(row == passed[passed.len() - 1]);
        assert forall|b: int| 0 <= b < prev.len() implies prev[b] == passed[b] by {}
        if first_passed(row) is Some {
            assert(f == f0.push(last));
            assert(exists|c: int| 0 <= c < row.len() && row[c]) by {
                let i = first_passed(row)->0;
                assert(row[i]);
            }
        } else {
            assert(f == f0);
        }
        assert forall|b: int|
            #![trigger passed[b]]
            #![trigger listed(balls_past_any(passed), b)]
            0 <= b < passed.len() implies (listed(f, b) <==> exists|c: int|
                0 <= c < passed[b].len() && #[trigger] passed[b][c]) by {
            if b < prev.len() {
                assert(prev[b] == passed[b]);
                if listed(f, b) {
                    let k = choose|k: int| 0 <= k < f.len() && f[k] == b;
                    if k < f0.len() {
                        assert(f0[k] == f[k]);
                        assert(listed(f0, b));
                    }
                }
                if listed(f0, b) {
                    let k = choose|k: int| 0 <= k < f0.len() && f0[k] == b;
                    assert(f[k] == f0[k]);
                }
                if exists|c: int| 0 <= c < passed[b].len() && #[trigger] passed[b][c] {
                    let c = choose|c: int| 0 <= c < passed[b].len() && #[trigger] passed[b][c];
                    assert(prev[b][c]);
                }
            } else {
                if listed(f, b) {
                    let k = choose|k: int| 0 <= k < f.len() && f[k] == b;
                    if k < f0.len() {
                        assert(f0[k] == f[k]);
                    }
                }
                if first_passed(row) is Some {
                    assert(f[f.len() - 1] == last);
                }
            }
        }
    }
}

/// The scored events of one ball name the side of each crab it is fully
/// past, one event per crab passed.
pub proof fn lemma_side_events_of_one_ball(crab_sides: Seq<Side>, row: Seq<bool>)
    requires
        row.len() <= crab_sides.len(),
    ensures
        sides_passed(crab_sides, row).len() == crabs_passed(row),
        forall|s: Side|
            #[trigger] sides_passed(crab_sides, row).contains(s) <==> exists|c: int|
                0 <= c < row.len() && row[c] && #[trigger] crab_sides[c] == s,
    decreases row.len(),
{
    reveal(Seq::filter);
    if row.len() > 0 {
        let prev = row.drop_last();
        lemma_side_events_of_one_ball(crab_sides, prev);
        let rest = sides_passed(crab_sides, prev);
        let all = sides_passed(crab_sides, row);
        let c0 = row.len() - 1;
        assert(row.filter(|x: bool| x) == if row.last() {
            prev.filter(|x: bool| x).push(row.last())
        } else {
            prev.filter(|x: bool| x)
        });
        assert forall|s: Side| #[trigger] all.contains(s) <==> exists|c: int|
            0 <= c < row.len() && row[c] && #[trigger] crab_sides[c] == s by {
            if all.contains(s) {
                let k = choose|k: int| 0 <= k < all.len() && all[k] == s;
                if row.last() && k == rest.len() {
                    assert(row[c0] && crab_sides[c0] == s);
                } else {
                    assert(rest[k] == s);
                    assert(rest.contains(s));
                    let c = choose|c: int| 0 <= c < prev.len() && prev[c] && #[trigger] crab_sides[c] == s;
                    assert(row[c]);
                }
            }
            if exists|c: int| 0 <= c < row.len() && row[c] && #[trigger] crab_sides[c] == s {
                let c = choose|c: int| 0 <= c < row.len() && row[c] && #[trigger] crab_sides[c] == s;
                if c == c0 {
                    assert(all[all.len() - 1] == s);
                } else {
                    assert(prev[c]);
                    assert(rest.contains(s));
                    let k = choose|k: int| 0 <= k < rest.len() && rest[k] == s;
                    assert(all[k] == s);
                }
            }
        }
    }
}

/// Every crab a ball is fully past raises one scored event naming that
/// crab's side, and no other event is raised.
pub proof fn lemma_scored_events_follow_passed_crabs(crab_sides: Seq<Side>, passed: Seq<Seq<bool>>)
    requires
        forall|b: int| 0 <= b < passed.len() ==> #[trigger] passed[b].len() == crab_sides.len(),
    ensures
        side_scored_events(crab_sides, passed).len() == crabs_passed_in_total(passed),
        forall|s: Side|
            #[trigger] side_scored_events(crab_sides, passed).contains(s) <==> exists|b: int, c: int|
                0 <= b < passed.len() && 0 <= c < passed[b].len() && #[trigger] passed[b][c] && crab_sides[c] == s,
    decreases passed.len(),
{
    if passed.len() > 0 {
        let prev = passed.drop_last();
        let row = passed.last();
        let b0 = passed.len() - 1;
        assert forall|b: int| 0 <= b < prev.len() implies #[trigger] prev[b].len() == crab_sides.len() by {
            assert(prev[b] == passed[b]);
        }
        lemma_scored_events_follow_passed_crabs(crab_sides, prev);
        assert(row == passed[b0]);
        lemma_side_events_of_one_ball(crab_sides, row);
        let a = side_scored_events(crab_sides, prev);
        let r = sides_passed(crab_sides, row);
        let all = side_scored_events(crab_sides, passed);
        assert(all == a + r);
        assert forall|s: Side| #[trigger] all.contains(s) <==> exists|b: int, c: int|
            0 <= b < passed.len() && 0 <= c < passed[b].len() && #[trigger] passed[b][c] && crab_sides[c] == s by {
            if all.contains(s) {
                let k = choose|k: int| 0 <= k < all.len() && all[k] == s;
                if k < a.len() {
                    assert(a[k] == s);
                    assert(a.contains(s));
                    let (b, c) = choose|b: int, c: int|
                        0 <= b < prev.len() && 0 <= c < prev[b].len() && #[trigger] prev[b][c] && crab_sides[c] == s;
                    assert(prev[b] == passed[b]);
                    assert(passed[b][c]);
                } else {
                    assert(r[k - a.len()] == s);
                    assert(r.contains(s));
                    let c = choose|c: int| 0 <= c < row.len() && row[c] && #[trigger] crab_sides[c] == s;
                    assert(passed[b0][c]);
                }
            }
            if exists|b: int, c: int|
                0 <= b < passed.len() && 0 <= c < passed[b].len() && #[trigger] passed[b][c] && crab_sides[c] == s {
                let (b, c) = choose|b: int, c: int|
                    0 <= b < passed.len() && 0 <= c < passed[b].len() && #[trigger] passed[b][c] && crab_sides[c] == s;
                if b < prev.len() {
                    assert(prev[b] == passed[b]);
                    assert(prev[b][c]);
                    assert(a.contains(s));
                    let k = choose|k: int| 0 <= k < a.len() && a[k] == s;
                    assert(all[k] == s);
                } else {
                    assert(b == b0);
                    assert(row[c]);
                    assert(r.contains(s));
                    let k = choose|k: int| 0 <= k < r.len() && r[k] == s;
                    assert(all[a.len() + k] == s);
                }
            }
        }
    }
}

/// One ball's scoring. A ball fully past no paddle changes nothing.
/// Otherwise the first paddle it is fully past loses one hit point in the
/// slot it defends (stopping at zero), no other slot changes, the ball is
/// the one scoring ball, and the paddle is eliminated exactly when its slot
/// is left at zero.
pub proof fn lemma_one_ball_scores_against_the_first_paddle_it_passed(
    hit_points: Seq<u8>,
    slots: Seq<usize>,
    row: Seq<bool>,
    p: int,
)
    requires
        scoring_inputs_fit(hit_points, slots, seq![row]),
    ensures
        (forall|c: int| 0 <= c < row.len() ==> !row[c]) ==> tally(hit_points, slots, seq![row]) == (ScoreTally {
            hit_points,
            eliminations: seq![],
            scoring_balls: seq![],
        }),
        0 <= p < row.len() && row[p] && (forall|c: int| 0 <= c < p ==> !row[c]) ==> ({
            let t = tally(hit_points, slots, seq![row]);
            let s = slots[p] as int;
            &&& t.hit_points.len() == hit_points.len()
            &&& t.hit_points[s] == (if hit_points[s] == 0 {
                0
            } else {
                hit_points[s] - 1
            })
            &&& forall|x: int| 0 <= x < hit_points.len() && x != s ==> t.hit_points[x] == hit_points[x]
            &&& t.scoring_balls == seq![0usize]
            &&& t.eliminations == (if t.hit_points[s] == 0 {
                seq![p as usize]
            } else {
                seq![]
            })
        }),
{
    let passed = seq![row];
    let empty = ScoreTally { hit_points, eliminations: seq![], scoring_balls: seq![] };
    assert(passed.drop_last() =~= Seq::<Seq<bool>>::empty());
    assert(passed.last() == row);
    assert(passed[0] == row);
    assert(tally(hit_points, slots, passed.drop_last()) == empty);
    assert(tally(hit_points, slots, passed) == tally_ball(empty, slots, row, 0usize));
    lemma_first_passed(row);
    match first_passed(row) {
        Some(i) => {
            if 0 <= p < row.len() && row[p] && (forall|c: int| 0 <= c < p ==> !row[c]) {
                if i < p {
                    assert(!row[i]);
                } else if p < i {
                    assert(!row[p]);
                }
                assert(slots[p] < hit_points.len());
                assert(seq![].push(0usize) =~= seq![0usize]);
                assert(seq![].push(p as usize) =~= seq![p as usize]);
            }
            if forall|c: int| 0 <= c < row.len() ==> !row[c] {
                assert(!row[i]);
            }
        },
        None => {
            if 0 <= p < row.len() && row[p] {
                assert(!row[p]);
            }
        },
    }
}

} // verus!
