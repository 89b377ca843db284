use vstd::prelude::*;
use crate::scoring::{GoalsHitPoints, HitPoints};
use crate::search::{first_index, lemma_first_index, lemma_first_index_at, lemma_first_index_none};
use crate::side::Side;

verus! {

/// An entity's team for checking win conditions.
#[derive(Clone, Copy, Debug, PartialEq, Eq, Structural)]
pub struct Team(pub usize);

/// Indicates which team won the previous round.
#[derive(Clone, Copy, Debug, PartialEq, Eq, Structural)]
pub struct WinningTeam(pub usize);

impl Default for WinningTeam {
    fn default() -> (w: Self)
        ensures
            w == WinningTeam(0),
    {
        WinningTeam(0)
    }
}

/// Whether a competitor still has hit points.
pub open spec fn still_alive() -> spec_fn((Team, HitPoints)) -> bool {
    |m: (Team, HitPoints)| m.1.0 > 0
}

/// The team that every competitor still holding hit points belongs to,
/// provided at least one such competitor exists. The first surviving
/// competitor in query order names the team.
pub open spec fn sole_surviving_team(competitors: Seq<(Team, HitPoints)>) -> Option<usize> {
    match first_index(competitors, still_alive()) {
        None => None,
        Some(i) => if forall|j: int|
            0 <= j < competitors.len() ==> #[trigger] competitors[j].0 == competitors[i].0
                || competitors[j].1.0 == 0 {
            Some(competitors[i].0.0)
        } else {
            None
        },
    }
}

/// The team declared the winner after some goals were eliminated: only when
/// at least one elimination happened and exactly one team still has hit
/// points.
pub open spec fn declared_winner(goal_eliminated_events: nat, competitors: Seq<(Team, HitPoints)>) -> Option<
    WinningTeam,
> {
    if goal_eliminated_events == 0 {
        None
    } else {
        match sole_surviving_team(competitors) {
            Some(t) => Some(WinningTeam(t)),
            None => None,
        }
    }
}

/// Finds the first competitor that still has hit points.
fn first_surviving(competitors: &Vec<(Team, HitPoints)>) -> (r: Option<usize>)
    ensures
        match r {
            Some(i) => first_index(competitors@, still_alive()) == Some(i as int),
            None => first_index(competitors@, still_alive()) is None,
        },
{
    let mut i: usize = 0;
    while i < competitors.len()
        invariant
            i <= competitors.len(),
            forall|j: int| 0 <= j < i ==> !still_alive()(#[trigger] competitors@[j]),
        decreases competitors.len() - i,
    {
        if competitors[i].1.0 > 0 {
            proof {
                lemma_first_index_at(competitors@, still_alive(), i as int);
            }
            return Some(i);
        }
        i = i + 1;
    }
    proof {
        lemma_first_index_none(competitors@, still_alive());
    }
    None
}

/// Decides whether a round is over after goals were eliminated.
///
/// `goal_eliminated_events` is the number of goal-eliminated events read this
/// frame and `crabs` lists every crab's team and hit points in query order.
/// When some goal was eliminated and only one team still has hit points,
/// that team wins (and the game returns to the start menu).
pub fn check_for_winning_team(goal_eliminated_events: usize, crabs: &Vec<(Team, HitPoints)>) -> (winner:
    Option<WinningTeam>)
    ensures
        winner == declared_winner(goal_eliminated_events as nat, crabs@),
{
    if goal_eliminated_events == 0 {
        return None;
    }
    proof {
        lemma_first_index(crabs@, still_alive());
    }
    let survivor = match first_surviving(crabs) {
        None => {
            return None;
        },
        Some(i) => i,
    };
    let team = crabs[survivor].0.0;
    let mut j: usize = 0;
    while j < crabs.len()
        invariant
            j <= crabs.len(),
            survivor < crabs.len(),
            goal_eliminated_events > 0,
            first_index(crabs@, still_alive()) == Some(survivor as int),
            team == crabs@[survivor as int].0.0,
            forall|k: int| 0 <= k < j ==> #[trigger] crabs@[k].0 == crabs@[survivor as int].0 || crabs@[k].1.0 == 0,
        decreases crabs.len() - j,
    {
        if !(crabs[j].0.0 == team || crabs[j].1.0 == 0) {
            return None;
        }
        j = j + 1;
    }
    Some(WinningTeam(team))
}

/// Decides whether the game is over after goals were eliminated, for the
/// paddles' teams and hit points; the same rule as [`check_for_winning_team`].
pub fn check_for_game_over(goal_eliminated_events: usize, paddles: &Vec<(Team, HitPoints)>) -> (winner:
    Option<WinningTeam>)
    ensures
        winner == declared_winner(goal_eliminated_events as nat, paddles@),
{
    check_for_winning_team(goal_eliminated_events, paddles)
}

/// A team is declared the winner exactly when some competitor still has hit
/// points and every competitor that still has hit points is on that team.
pub proof fn lemma_winner_is_the_only_team_with_hit_points(competitors: Seq<(Team, HitPoints)>, team: usize)
    ensures
        sole_surviving_team(competitors) == Some(team) <==> {
            &&& exists|i: int| 0 <= i < competitors.len() && #[trigger] competitors[i].1.0 > 0
            &&& forall|j: int|
                0 <= j < competitors.len() && #[trigger] competitors[j].1.0 > 0 ==> competitors[j].0.0 == team
        },
{
    lemma_first_index(competitors, still_alive());
    match first_index(competitors, still_alive()) {
        None => {
            if exists|i: int| 0 <= i < competitors.len() && #[trigger] competitors[i].1.0 > 0 {
                let i = choose|i: int| 0 <= i < competitors.len() && #[trigger] competitors[i].1.0 > 0;
                assert(still_alive()(competitors[i]));
            }
        },
        Some(i) => {
            assert(competitors[i].1.0 > 0);
            if forall|j: int|
                0 <= j < competitors.len() && #[trigger] competitors[j].1.0 > 0 ==> competitors[j].0.0 == team {
                assert(competitors[i].0.0 == team);
                assert forall|j: int| 0 <= j < competitors.len() implies #[trigger] competitors[j].0
                    == competitors[i].0 || competitors[j].1.0 == 0 by {
                    if competitors[j].1.0 > 0 {
                        assert(competitors[j].0.0 == team);
                    }
                }
            }
            if sole_surviving_team(competitors) == Some(team) {
                assert forall|j: int|
                    0 <= j < competitors.len() && #[trigger] competitors[j].1.0 > 0 implies competitors[j].0.0
                    == team by {
                    assert(competitors[j].0 == competitors[i].0 || competitors[j].1.0 == 0);
                }
            }
        },
    }
}

/// Which side of the game a paddle plays for.
#[derive(Clone, Copy, Debug, PartialEq, Eq, Structural)]
pub enum Faction {
    Allies,
    Enemies,
}

/// How the last game ended for the player.
#[derive(Clone, Copy, Debug, PartialEq, Eq, Structural)]
pub enum GameOver {
    Won,
    Lost,
}

/// Every paddle of `faction` defends a goal with no hit points left (which
/// holds vacuously when the faction has no paddles).
pub open spec fn faction_defeated(paddles: Seq<(Faction, Side)>, hit_points: GoalsHitPoints, faction: Faction) -> bool {
    forall|i: int|
        0 <= i < paddles.len() && #[trigger] paddles[i].0 == faction ==> hit_points.spec_get(paddles[i].1) == 0
}

/// How the game ends after some goals were eliminated: the player wins
/// when every enemy goal is out of hit points, loses when every allied goal
/// is, and a win takes precedence.
pub open spec fn game_over_outcome(
    goal_eliminated_events: nat,
    paddles: Seq<(Faction, Side)>,
    hit_points: GoalsHitPoints,
) -> Option<GameOver> {
    if goal_eliminated_events == 0 {
        None
    } else if faction_defeated(paddles, hit_points, Faction::Enemies) {
        Some(GameOver::Won)
    } else if faction_defeated(paddles, hit_points, Faction::Allies) {
        Some(GameOver::Lost)
    } else {
        None
    }
}

/// Checks whether every paddle of `faction` has a goal with no hit points.
fn all_defeated(paddles: &Vec<(Faction, Side)>, goals_hit_points: &GoalsHitPoints, faction: Faction) -> (r: bool)
    ensures
        r == faction_defeated(paddles@, *goals_hit_points, faction),
{
    let mut i: usize = 0;
    while i < paddles.len()
        invariant
            i <= paddles.len(),
            forall|k: int|
                0 <= k < i && #[trigger] paddles@[k].0 == faction ==> goals_hit_points.spec_get(paddles@[k].1) == 0,
        decreases paddles.len() - i,
    {
        if paddles[i].0 == faction && goals_hit_points.get(paddles[i].1) != 0 {
            return false;
        }
        i = i + 1;
    }
    true
}

/// Decides whether the game is over after goals were eliminated.
///
/// `paddles` lists each paddle's faction and side; `goals_hit_points` holds
/// the hit points of every side's goal.
pub fn check_for_game_over_conditions(
    goal_eliminated_events: usize,
    paddles: &Vec<(Faction, Side)>,
    goals_hit_points: &GoalsHitPoints,
) -> (r: Option<GameOver>)
    ensures
        r == game_over_outcome(goal_eliminated_events as nat, paddles@, *goals_hit_points),
{
    if goal_eliminated_events == 0 {
        return None;
    }
    let has_player_won = all_defeated(paddles, goals_hit_points, Faction::Enemies);
    let has_player_lost = all_defeated(paddles, goals_hit_points, Faction::Allies);
    if !has_player_won && !has_player_lost {
        None
    } else if has_player_won {
        Some(GameOver::Won)
    } else {
        Some(GameOver::Lost)
    }
}

/// The game ends only after some goal was eliminated. The player wins
/// exactly when every enemy paddle defends a goal with no hit points left;
/// the player loses exactly when that is not so and every allied paddle
/// defends a goal with no hit points left. So an enemy goal that still has
/// hit points rules out a win, and an allied one rules out a loss.
pub proof fn lemma_game_over_follows_the_goals(
    goal_eliminated_events: nat,
    paddles: Seq<(Faction, Side)>,
    hit_points: GoalsHitPoints,
)
    ensures
        goal_eliminated_events == 0 ==> game_over_outcome(goal_eliminated_events, paddles, hit_points) is None,
        game_over_outcome(goal_eliminated_events, paddles, hit_points) == Some(GameOver::Won) <==> (
        goal_eliminated_events > 0 && forall|i: int|
            0 <= i < paddles.len() && #[trigger] paddles[i].0 == Faction::Enemies ==> hit_points.spec_get(
                paddles[i].1,
            ) == 0),
        game_over_outcome(goal_eliminated_events, paddles, hit_points) == Some(GameOver::Lost) <==> (
        goal_eliminated_events > 0 && (exists|i: int|
            0 <= i < paddles.len() && #[trigger] paddles[i].0 == Faction::Enemies && hit_points.spec_get(
                paddles[i].1,
            ) > 0) && forall|i: int|
            0 <= i < paddles.len() && #[trigger] paddles[i].0 == Faction::Allies ==> hit_points.spec_get(
                paddles[i].1,
            ) == 0),
        forall|i: int|
            0 <= i < paddles.len() && #[trigger] paddles[i].0 == Faction::Enemies && hit_points.spec_get(
                paddles[i].1,
            ) > 0 ==> game_over_outcome(goal_eliminated_events, paddles, hit_points) != Some(GameOver::Won),
        forall|i: int|
            0 <= i < paddles.len() && #[trigger] paddles[i].0 == Faction::Allies && hit_points.spec_get(
                paddles[i].1,
            ) > 0 ==> game_over_outcome(goal_eliminated_events, paddles, hit_points) != Some(GameOver::Lost),
{
}

/// A winner is declared only after some goal was eliminated, and then
/// exactly when some competitor still has hit points and all competitors
/// with hit points are on one team, which is the team declared.
pub proof fn lemma_winner_declared_after_an_elimination(
    goal_eliminated_events: nat,
    competitors: Seq<(Team, HitPoints)>,
    team: usize,
)
    ensures
        goal_eliminated_events == 0 ==> declared_winner(goal_eliminated_events, competitors) is None,
        declared_winner(goal_eliminated_events, competitors) == Some(WinningTeam(team)) <==> {
            &&& goal_eliminated_events > 0
            &&& exists|i: int| 0 <= i < competitors.len() && #[trigger] competitors[i].1.0 > 0
            &&& forall|j: int|
                0 <= j < competitors.len() && #[trigger] competitors[j].1.0 > 0 ==> competitors[j].0.0 == team
        },
{
    lemma_winner_is_the_only_team_with_hit_points(competitors, team);
}

} // verus!
