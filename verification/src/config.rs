use vstd::prelude::*;
use crate::scoring::HitPoints;
use crate::search::{first_index, last_index, lemma_first_index, lemma_first_index_at, lemma_first_index_none,
    lemma_last_index, lemma_last_index_at, lemma_last_index_none};
use crate::side::Side;
use crate::team::Team;

verus! {

/// The currently-selected game mode, as an index into the configured modes.
#[derive(Clone, Copy, Debug, PartialEq, Eq, Structural)]
pub struct SelectedGameMode(pub usize);

impl Default for SelectedGameMode {
    fn default() -> (m: Self)
        ensures
            m.0 == 0,
    {
        SelectedGameMode(0)
    }
}

/// Who controls a paddle.
#[derive(Clone, Copy, Debug, PartialEq, Eq, Hash, Structural)]
pub enum PlayerConfig {
    Keyboard,
    AI,
}

/// The configuration of the paddle on one side in a game mode.
#[derive(Debug)]
pub struct PaddleConfig {
    /// The paddle's color, as a hex string.
    pub color: String,
    pub team: usize,
    pub player: PlayerConfig,
    pub hit_points: u8,
}

/// Which team a goal's paddle is configured to play for.
#[derive(Clone, Copy, Debug, PartialEq, Eq, Hash, Structural)]
pub enum TeamConfig {
    Allies,
    Enemies,
}

/// Who a goal's paddle is configured to be controlled by.
#[derive(Clone, Copy, Debug, PartialEq, Eq, Hash, Structural)]
pub enum ControlledByConfig {
    Keyboard,
    AI,
}

/// The configuration of the paddle in one goal, listed in the order in
/// which the goals are queried.
#[derive(Clone, Debug)]
pub struct GoalConfig {
    /// The paddle's color, as a hex string.
    pub color: String,
    pub team: TeamConfig,
    pub controlled_by: ControlledByConfig,
}

/// A game mode: its name, how many balls are in play at once, and the
/// paddle on each configured side.
#[derive(Debug)]
pub struct ModeConfig {
    pub name: String,
    pub max_ball_count: usize,
    pub paddles: Vec<(Side, PaddleConfig)>,
}

/// Whether a configured paddle is on `side`.
pub open spec fn configured_on(side: Side) -> spec_fn((Side, PaddleConfig)) -> bool {
    |entry: (Side, PaddleConfig)| entry.0 == side
}

impl ModeConfig {
    /// Each side has at most one configured paddle, as in a map keyed by side.
    pub open spec fn wf(&self) -> bool {
        forall|i: int, j: int|
            0 <= i < j < self.paddles@.len() ==> #[trigger] self.paddles@[i].0 != #[trigger] self.paddles@[j].0
    }

    /// The index of the paddle configured on `side`, if any.
    pub open spec fn spec_paddle_index(&self, side: Side) -> Option<int> {
        first_index(self.paddles@, configured_on(side))
    }

    /// Checks that each side has at most one configured paddle.
    pub fn has_one_paddle_per_side(&self) -> (r: bool)
        ensures
            r == self.wf(),
    {
        let n = self.paddles.len();
        for i in 0..n
            invariant
                n == self.paddles@.len(),
                forall|a: int, b: int|
                    0 <= a < i && a < b < n ==> #[trigger] self.paddles@[a].0 != #[trigger] self.paddles@[b].0,
        {
            for j in i + 1..n
                invariant
                    n == self.paddles@.len(),
                    i < n,
                    forall|a: int, b: int|
                        0 <= a < i && a < b < n ==> #[trigger] self.paddles@[a].0 != #[trigger] self.paddles@[b].0,
                    forall|b: int| i < b < j ==> self.paddles@[i as int].0 != #[trigger] self.paddles@[b].0,
            {
                if self.paddles[i].0 == self.paddles[j].0 {
                    return false;
                }
            }
        }
        true
    }

    /// Looks up the paddle configured on `side`.
    pub fn paddle_config(&self, side: Side) -> (config: Option<&PaddleConfig>)
        ensures
            match self.spec_paddle_index(side) {
                Some(i) => config == Some(&self.paddles@[i].1),
                None => config is None,
            },
    {
        let mut i: usize = 0;
        while i < self.paddles.len()
            invariant
                i <= self.paddles@.len(),
                forall|j: int| 0 <= j < i ==> !configured_on(side)(#[trigger] self.paddles@[j]),
            decreases self.paddles.len() - i,
        {
            if self.paddles[i].0 == side {
                proof {
                    lemma_first_index_at(self.paddles@, configured_on(side), i as int);
                }
                return Some(&self.paddles[i].1);
            }
            i = i + 1;
        }
        proof {
            lemma_first_index_none(self.paddles@, configured_on(side));
        }
        None
    }
}

/// The team and hit points a goal on `side` starts a game with: those of
/// the last paddle configured on that side, or what it had when none is.
pub open spec fn reset_goal(paddles: Seq<(Side, PaddleConfig)>, goal: (Side, Team, HitPoints)) -> (Side, Team, HitPoints) {
    match last_index(paddles, configured_on(goal.0)) {
        Some(i) => (goal.0, Team(paddles[i].1.team), HitPoints(paddles[i].1.hit_points)),
        None => goal,
    }
}

/// Finds the last paddle configured on `side`.
fn last_paddle_on(paddles: &Vec<(Side, PaddleConfig)>, side: Side) -> (r: Option<usize>)
    ensures
        match r {
            Some(i) => last_index(paddles@, configured_on(side)) == Some(i as int),
            None => last_index(paddles@, configured_on(side)) is None,
        },
{
    let mut j: usize = paddles.len();
    while j > 0
        invariant
            j <= paddles@.len(),
            forall|k: int| j <= k < paddles@.len() ==> !configured_on(side)(#[trigger] paddles@[k]),
        decreases j,
    {
        if paddles[j - 1].0 == side {
            proof {
                lemma_last_index_at(paddles@, configured_on(side), j - 1);
            }
            return Some(j - 1);
        }
        j = j - 1;
    }
    proof {
        lemma_last_index_none(paddles@, configured_on(side));
    }
    None
}

/// Gives every goal the team and hit points that the game mode configures
/// for its side; goals on unconfigured sides keep theirs.
pub fn reset_team_and_hit_points(mode: &ModeConfig, goals: &mut Vec<(Side, Team, HitPoints)>)
    requires
        mode.wf(),
    ensures
        final(goals)@.len() == old(goals)@.len(),
        forall|g: int|
            0 <= g < old(goals)@.len() ==> #[trigger] final(goals)@[g] == reset_goal(mode.paddles@, old(goals)@[g]),
{
    let ghost start = goals@;
    let n = goals.len();
    for g in 0..n
        invariant
            n == start.len(),
            goals@.len() == start.len(),
            forall|k: int| 0 <= k < g ==> #[trigger] goals@[k] == reset_goal(mode.paddles@, start[k]),
            forall|k: int| g <= k < goals@.len() ==> #[trigger] goals@[k] == start[k],
    {
        let side = goals[g].0;
        proof {
            lemma_last_index(mode.paddles@, configured_on(side));
        }
        match last_paddle_on(&mode.paddles, side) {
            Some(i) => {
                let paddle = &mode.paddles[i].1;
                goals.set(g, (side, Team(paddle.team), HitPoints(paddle.hit_points)));
            },
            None => {},
        }
    }
}

/// In a well-formed game mode each side has at most one paddle, so the
/// paddle configured on a goal's side decides its team and hit points, in
/// whatever order the configuration lists the sides.
pub proof fn lemma_reset_uses_the_side_configuration(mode: ModeConfig, goal: (Side, Team, HitPoints), j: int)
    requires
        mode.wf(),
        0 <= j < mode.paddles@.len(),
        mode.paddles@[j].0 == goal.0,
    ensures
        reset_goal(mode.paddles@, goal) == (goal.0, Team(mode.paddles@[j].1.team), HitPoints(
            mode.paddles@[j].1.hit_points,
        )),
        mode.spec_paddle_index(goal.0) == Some(j),
{
    lemma_last_index(mode.paddles@, configured_on(goal.0));
    lemma_first_index(mode.paddles@, configured_on(goal.0));
    let s = mode.paddles@;
    match last_index(s, configured_on(goal.0)) {
        Some(i) => {
            if i != j {
                if i < j {
                    assert(s[i].0 != s[j].0);
                } else {
                    assert(s[j].0 != s[i].0);
                }
            }
        },
        None => {
            assert(configured_on(goal.0)(s[j]));
        },
    }
    match first_index(s, configured_on(goal.0)) {
        Some(i) => {
            if i != j {
                if i < j {
                    assert(s[i].0 != s[j].0);
                } else {
                    assert(s[j].0 != s[i].0);
                }
            }
        },
        None => {
            assert(configured_on(goal.0)(s[j]));
        },
    }
}

/// Resetting keeps a goal's side. A goal on a side with no configured
/// paddle keeps its team and hit points; a goal on a configured side takes
/// the team and hit points of a paddle configured on that side.
pub proof fn lemma_reset_goal_takes_its_sides_configuration(
    paddles: Seq<(Side, PaddleConfig)>,
    goal: (Side, Team, HitPoints),
)
    ensures
        reset_goal(paddles, goal).0 == goal.0,
        (forall|i: int| 0 <= i < paddles.len() ==> #[trigger] paddles[i].0 != goal.0) ==> reset_goal(paddles, goal)
            == goal,
        (exists|i: int| 0 <= i < paddles.len() && #[trigger] paddles[i].0 == goal.0) ==> exists|i: int|
            0 <= i < paddles.len() && #[trigger] paddles[i].0 == goal.0 && reset_goal(paddles, goal) == (
                goal.0,
                Team(paddles[i].1.team),
                HitPoints(paddles[i].1.hit_points),
            ),
{
    lemma_last_index(paddles, configured_on(goal.0));
    match last_index(paddles, configured_on(goal.0)) {
        Some(i) => {
            assert(configured_on(goal.0)(paddles[i]));
        },
        None => {
            if exists|i: int| 0 <= i < paddles.len() && #[trigger] paddles[i].0 == goal.0 {
                let i = choose|i: int| 0 <= i < paddles.len() && #[trigger] paddles[i].0 == goal.0;
                assert(configured_on(goal.0)(paddles[i]));
            }
        },
    }
}

} // verus!
