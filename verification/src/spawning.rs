use vstd::prelude::*;
use crate::config::{configured_on, ControlledByConfig, GoalConfig, ModeConfig, PlayerConfig, TeamConfig};
use crate::search::{first_index, lemma_first_index, lemma_first_index_at, lemma_first_index_none};
use crate::side::Side;
use crate::team::Faction;

verus! {

/// Balls spawn, fade in and launch one at a time: a new ball appears only
/// while fewer than the maximum are in play and no other ball is still
/// appearing.
pub open spec fn should_spawn_ball(ball_count: nat, appearing_ball_count: nat, max_ball_count: nat) -> bool {
    ball_count < max_ball_count && appearing_ball_count == 0
}

/// Decides whether to spawn a ball, given how many balls exist, how many of
/// them are still appearing (spawning and not yet moving), and the game
/// mode's maximum.
pub fn spawn_balls_sequentially_as_needed(
    ball_count: usize,
    appearing_ball_count: usize,
    max_ball_count: usize,
) -> (spawn: bool)
    ensures
        spawn == should_spawn_ball(ball_count as nat, appearing_ball_count as nat, max_ball_count as nat),
{
    ball_count < max_ball_count && appearing_ball_count < 1
}

/// Decides whether to spawn a ball for a game mode whose ball count is a
/// `u8`; the same rule as [`spawn_balls_sequentially_as_needed`].
pub fn spawn_balls_sequentially_up_to_max_count(
    non_moving_ball_count: usize,
    ball_count: usize,
    mode_ball_count: u8,
) -> (spawn: bool)
    ensures
        spawn == should_spawn_ball(ball_count as nat, non_moving_ball_count as nat, mode_ball_count as nat),
{
    if non_moving_ball_count >= 1 {
        return false;
    }
    if ball_count >= mode_ball_count as usize {
        return false;
    }
    true
}

/// Spawning balls by this rule never puts more than the maximum in play
/// nor has more than one ball appearing at once: the bounds hold after
/// every spawn decision, and balls leaving or finishing their fade-in only
/// lower the counts.
pub proof fn lemma_ball_spawning_respects_limits(ball_count: nat, appearing_ball_count: nat, max_ball_count: nat)
    requires
        ball_count <= max_ball_count,
        appearing_ball_count <= 1,
        appearing_ball_count <= ball_count,
    ensures
        ({
            let spawn = should_spawn_ball(ball_count, appearing_ball_count, max_ball_count);
            let after = if spawn { ball_count + 1 } else { ball_count };
            let appearing = if spawn { appearing_ball_count + 1 } else { appearing_ball_count };
            &&& after <= max_ball_count
            &&& appearing <= 1
            &&& appearing <= after
        }),
{
}

/// A ball spawns exactly when fewer than the maximum are in play and none
/// is still appearing.
pub proof fn lemma_balls_spawn_whenever_there_is_room(
    ball_count: nat,
    appearing_ball_count: nat,
    max_ball_count: nat,
)
    ensures
        ball_count < max_ball_count && appearing_ball_count == 0 ==> should_spawn_ball(
            ball_count,
            appearing_ball_count,
            max_ball_count,
        ),
        ball_count >= max_ball_count ==> !should_spawn_ball(ball_count, appearing_ball_count, max_ball_count),
        appearing_ball_count > 0 ==> !should_spawn_ball(ball_count, appearing_ball_count, max_ball_count),
{
}

/// The entity that a newly added entity replaces: the first existing one
/// (other than itself) under the same key.
pub open spec fn replaced_by<K>(new: (u64, K)) -> spec_fn((u64, K)) -> bool {
    |o: (u64, K)| o.1 == new.1 && o.0 != new.0
}

/// For each new entity in order, the first other entity already under the
/// same key (goal or side), which must fade out.
pub open spec fn replaced_entities<K>(new: Seq<(u64, K)>, old: Seq<(u64, K)>) -> Seq<u64>
    decreases new.len(),
{
    if new.len() == 0 {
        seq![]
    } else {
        let rest = replaced_entities(new.drop_last(), old);
        match first_index(old, replaced_by(new.last())) {
            Some(i) => rest.push(old[i].0),
            None => rest,
        }
    }
}

/// The first entity in `old` under the goal `parent` other than `entity`.
fn first_rival_under_goal(old: &Vec<(u64, u64)>, entity: u64, parent: u64) -> (found: Option<u64>)
    ensures
        match first_index(old@, replaced_by((entity, parent))) {
            Some(i) => found == Some(old@[i].0),
            None => found is None,
        },
{
    let ghost pred = replaced_by((entity, parent));
    let mut o: usize = 0;
    while o < old.len()
        invariant
            o <= old@.len(),
            pred == replaced_by((entity, parent)),
            forall|j: int| 0 <= j < o ==> !pred(#[trigger] old@[j]),
        decreases old.len() - o,
    {
        if old[o].1 == parent && old[o].0 != entity {
            proof {
                lemma_first_index_at(old@, pred, o as int);
            }
            return Some(old[o].0);
        }
        o = o + 1;
    }
    proof {
        lemma_first_index_none(old@, pred);
    }
    None
}

/// The first entity in `old` on `side` other than `entity`.
fn first_rival_on_side(old: &Vec<(u64, Side)>, entity: u64, side: Side) -> (found: Option<u64>)
    ensures
        match first_index(old@, replaced_by((entity, side))) {
            Some(i) => found == Some(old@[i].0),
            None => found is None,
        },
{
    let ghost pred = replaced_by((entity, side));
    let mut o: usize = 0;
    while o < old.len()
        invariant
            o <= old@.len(),
            pred == replaced_by((entity, side)),
            forall|j: int| 0 <= j < o ==> !pred(#[trigger] old@[j]),
        decreases old.len() - o,
    {
        if old[o].1 == side && old[o].0 != entity {
            proof {
                lemma_first_index_at(old@, pred, o as int);
            }
            return Some(old[o].0);
        }
        o = o + 1;
    }
    proof {
        lemma_first_index_none(old@, pred);
    }
    None
}

/// Allows only one crab or wall per goal: for each new crab or wall
/// (entity, parent goal), the first other crab or wall under the same goal
/// is returned to be faded out.
pub fn allow_only_one_crab_or_wall_per_goal(new: &Vec<(u64, u64)>, old: &Vec<(u64, u64)>) -> (faded: Vec<u64>)
    ensures
        faded@ == replaced_entities(new@, old@),
{
    let mut faded: Vec<u64> = Vec::new();
    for n in 0..new.len()
        invariant
            faded@ == replaced_entities(new@.take(n as int), old@),
    {
        let (new_entity, new_parent) = new[n];
        assert(new@.take(n + 1).drop_last() == new@.take(n as int));
        assert(new@.take(n + 1).last() == new@[n as int]);
        match first_rival_under_goal(old, new_entity, new_parent) {
            Some(e) => faded.push(e),
            None => {},
        }
    }
    assert(new@.take(new.len() as int) == new@);
    faded
}

/// Allows only one crab or pole per side: for each new crab or pole
/// (entity, side), the first other crab or pole on the same side is
/// returned to be faded out.
pub fn allow_only_one_crab_or_pole_per_side(new: &Vec<(u64, Side)>, old: &Vec<(u64, Side)>) -> (faded: Vec<u64>)
    ensures
        faded@ == replaced_entities(new@, old@),
{
    let mut faded: Vec<u64> = Vec::new();
    for n in 0..new.len()
        invariant
            faded@ == replaced_entities(new@.take(n as int), old@),
    {
        let (new_entity, new_side) = new[n];
        assert(new@.take(n + 1).drop_last() == new@.take(n as int));
        assert(new@.take(n + 1).last() == new@[n as int]);
        match first_rival_on_side(old, new_entity, new_side) {
            Some(e) => faded.push(e),
            None => {},
        }
    }
    assert(new@.take(new.len() as int) == new@);
    faded
}

/// Every entity faded out shares its key with one of the new entities and
/// is not that new entity itself; a new entity that has no rival under its
/// key replaces nothing.
pub proof fn lemma_only_rivals_are_replaced<K>(new: Seq<(u64, K)>, old: Seq<(u64, K)>)
    ensures
        forall|k: int|
            0 <= k < replaced_entities(new, old).len() ==> exists|n: int, o: int|
                0 <= n < new.len() && 0 <= o < old.len() && old[o].0 == #[trigger] replaced_entities(new, old)[k]
                    && old[o].1 == new[n].1 && old[o].0 != new[n].0,
        replaced_entities(new, old).len() <= new.len(),
    decreases new.len(),
{
    if new.len() > 0 {
        let prev = new.drop_last();
        lemma_only_rivals_are_replaced(prev, old);
        let rest = replaced_entities(prev, old);
        let pred = replaced_by(new.last());
        lemma_first_index(old, pred);
        let all = replaced_entities(new, old);
        assert forall|k: int| 0 <= k < all.len() implies exists|n: int, o: int|
            0 <= n < new.len() && 0 <= o < old.len() && old[o].0 == #[trigger] all[k] && old[o].1 == new[n].1
                && old[o].0 != new[n].0 by {
            if k < rest.len() {
                assert(all[k] == rest[k]);
                let (n, o) = choose|n: int, o: int|
                    0 <= n < prev.len() && 0 <= o < old.len() && old[o].0 == #[trigger] rest[k] && old[o].1
                        == prev[n].1 && old[o].0 != prev[n].0;
                assert(prev[n] == new[n]);
            } else {
                let i = first_index(old, pred)->0;
                assert(pred(old[i]));
                assert(old[i].0 == all[k]);
                assert(new[new.len() - 1] == new.last());
            }
        }
    }
}

/// Whether an entity has a rival in `old`: another entity under the same key.
pub open spec fn has_rival<K>(old: Seq<(u64, K)>) -> spec_fn((u64, K)) -> bool {
    |e: (u64, K)| exists|o: int| 0 <= o < old.len() && old[o].1 == e.1 && old[o].0 != e.0
}

/// Every new entity that has a rival replaces its first rival: that rival
/// is faded out, and exactly one entity is faded per new entity that has a
/// rival.
pub proof fn lemma_every_new_entity_replaces_its_first_rival<K>(new: Seq<(u64, K)>, old: Seq<(u64, K)>)
    ensures
        replaced_entities(new, old).len() == new.filter(has_rival(old)).len(),
        forall|n: int, o: int|
            #![trigger new[n], old[o]]
            0 <= n < new.len() && 0 <= o < old.len() && old[o].1 == new[n].1 && old[o].0 != new[n].0 && (forall|
                p: int,
            | 0 <= p < o ==> !(#[trigger] old[p].1 == new[n].1 && old[p].0 != new[n].0))
                ==> replaced_entities(new, old).contains(old[o].0),
    decreases new.len(),
{
    reveal(Seq::filter);
    if new.len() > 0 {
        let prev = new.drop_last();
        let e = new.last();
        lemma_every_new_entity_replaces_its_first_rival(prev, old);
        let pred = replaced_by(e);
        lemma_first_index(old, pred);
        let rest = replaced_entities(prev, old);
        let all = replaced_entities(new, old);
        assert(has_rival(old)(e) <==> first_index(old, pred) is Some) by {
            if has_rival(old)(e) {
                let o = choose|o: int| 0 <= o < old.len() && old[o].1 == e.1 && old[o].0 != e.0;
                assert(pred(old[o]));
            }
            if first_index(old, pred) is Some {
                let i = first_index(old, pred)->0;
                assert(pred(old[i]));
            }
        }
        assert forall|n: int, o: int|
            #![trigger new[n], old[o]]
            0 <= n < new.len() && 0 <= o < old.len() && old[o].1 == new[n].1 && old[o].0 != new[n].0 && (forall|
                p: int,
            | 0 <= p < o ==> !(#[trigger] old[p].1 == new[n].1 && old[p].0 != new[n].0)) implies all.contains(
            old[o].0,
        ) by {
            if n < prev.len() {
                assert(prev[n] == new[n]);
                assert(rest.contains(old[o].0));
                let k = choose|k: int| 0 <= k < rest.len() && rest[k] == old[o].0;
                assert(all[k] == old[o].0);
            } else {
                assert(new[n] == e);
                assert(pred(old[o]));
                let i = first_index(old, pred)->0;
                if i < o {
                    assert(pred(old[i]));
                    assert(!(old[i].1 == new[n].1 && old[i].0 != new[n].0));
                } else if o < i {
                    assert(!pred(old[o]));
                }
                assert(all[all.len() - 1] == old[o].0);
            }
        }
    }
}

/// The first goal on `side`, with its position in query order, in which
/// `goals` lists each goal's entity and side.
pub open spec fn goal_on(side: Side) -> spec_fn((u64, Side)) -> bool {
    |g: (u64, Side)| g.1 == side
}

/// Finds the first goal on `side`: its position in query order and its entity.
pub fn goal_on_side(goals: &Vec<(u64, Side)>, side: Side) -> (found: Option<(usize, u64)>)
    ensures
        match first_index(goals@, goal_on(side)) {
            Some(i) => found == Some((i as usize, goals@[i].0)),
            None => found is None,
        },
{
    let mut i: usize = 0;
    while i < goals.len()
        invariant
            i <= goals@.len(),
            forall|j: int| 0 <= j < i ==> !goal_on(side)(#[trigger] goals@[j]),
        decreases goals.len() - i,
    {
        if goals[i].1 == side {
            proof {
                lemma_first_index_at(goals@, goal_on(side), i as int);
            }
            return Some((i, goals[i].0));
        }
        i = i + 1;
    }
    proof {
        lemma_first_index_none(goals@, goal_on(side));
    }
    None
}

/// Whether a child entity hangs under `parent`.
pub open spec fn child_of(parent: u64) -> spec_fn((u64, u64)) -> bool {
    |c: (u64, u64)| c.1 == parent
}

/// Finds the first of `children` (entity, parent) that hangs under `parent`.
pub fn first_child_of(children: &Vec<(u64, u64)>, parent: u64) -> (found: Option<u64>)
    ensures
        match first_index(children@, child_of(parent)) {
            Some(i) => found == Some(children@[i].0),
            None => found is None,
        },
{
    let mut i: usize = 0;
    while i < children.len()
        invariant
            i <= children@.len(),
            forall|j: int| 0 <= j < i ==> !child_of(parent)(#[trigger] children@[j]),
        decreases children.len() - i,
    {
        if children[i].1 == parent {
            proof {
                lemma_first_index_at(children@, child_of(parent), i as int);
            }
            return Some(children[i].0);
        }
        i = i + 1;
    }
    proof {
        lemma_first_index_none(children@, child_of(parent));
    }
    None
}

/// Where to spawn an object in a goal, and what it replaces there.
#[derive(Clone, Copy, Debug, PartialEq, Eq, Structural)]
pub struct GoalSpawnPlan {
    /// The goal's position in query order (which also picks its
    /// configuration).
    pub goal_index: usize,
    /// The goal entity that becomes the new object's parent.
    pub goal_entity: u64,
    /// The object that currently occupies the goal and must go.
    pub replaced: Option<u64>,
}

/// The plan for spawning into the first goal on `side`, replacing the first
/// of `occupants` (entity, parent) in that goal.
pub open spec fn goal_spawn_plan(goals: Seq<(u64, Side)>, occupants: Seq<(u64, u64)>, side: Side) -> Option<GoalSpawnPlan> {
    match first_index(goals, goal_on(side)) {
        None => None,
        Some(g) => Some(
            GoalSpawnPlan {
                goal_index: g as usize,
                goal_entity: goals[g].0,
                replaced: match first_index(occupants, child_of(goals[g].0)) {
                    Some(o) => Some(occupants[o].0),
                    None => None,
                },
            },
        ),
    }
}

/// Plans spawning a wall in the goal on `side`: the goal to spawn in and
/// the paddle (from `paddles`, as entity and parent) that the wall replaces.
pub fn spawn_wall_in_goal(goals: &Vec<(u64, Side)>, paddles: &Vec<(u64, u64)>, side: Side) -> (plan: Option<
    GoalSpawnPlan,
>)
    ensures
        plan == goal_spawn_plan(goals@, paddles@, side),
{
    match goal_on_side(goals, side) {
        None => None,
        Some((goal_index, goal_entity)) => Some(
            GoalSpawnPlan { goal_index, goal_entity, replaced: first_child_of(paddles, goal_entity) },
        ),
    }
}

/// The team and controller of a paddle spawned from a goal's configuration.
#[derive(Clone, Copy, Debug, PartialEq, Eq, Structural)]
pub struct PaddleSpawn {
    /// The paddle's team: the enemies exactly when the goal is configured
    /// for them, otherwise the allies.
    pub faction: Faction,
    /// Whether the paddle is AI-controlled rather than keyboard-controlled.
    pub ai_controlled: bool,
}

/// The paddle that a goal's configuration asks for.
pub open spec fn configured_paddle(goal_config: GoalConfig) -> PaddleSpawn {
    PaddleSpawn {
        faction: if goal_config.team == TeamConfig::Enemies {
            Faction::Enemies
        } else {
            Faction::Allies
        },
        ai_controlled: goal_config.controlled_by == ControlledByConfig::AI,
    }
}

/// Where a paddle spawns, what it replaces, and the paddle itself.
#[derive(Clone, Copy, Debug, PartialEq, Eq, Structural)]
pub struct PaddleSpawnPlan {
    pub goal: GoalSpawnPlan,
    pub paddle: PaddleSpawn,
}

/// The plan for spawning a paddle into the first goal on `side`: the goal
/// plan, and the paddle configured for that goal's position in query order.
pub open spec fn paddle_spawn_plan(
    goals: Seq<(u64, Side)>,
    walls: Seq<(u64, u64)>,
    goal_configs: Seq<GoalConfig>,
    side: Side,
) -> Option<PaddleSpawnPlan> {
    match goal_spawn_plan(goals, walls, side) {
        None => None,
        Some(goal) => Some(
            PaddleSpawnPlan { goal, paddle: configured_paddle(goal_configs[goal.goal_index as int]) },
        ),
    }
}

/// Plans spawning a paddle in the goal on `side`: the goal to spawn in, the
/// wall (from `walls`, as entity and parent) that the paddle replaces, and
/// the paddle's team and controller from `goal_configs`, the selected game
/// mode's goal configurations indexed by the goal's position in query order.
pub fn spawn_paddle_in_goal(
    goals: &Vec<(u64, Side)>,
    walls: &Vec<(u64, u64)>,
    goal_configs: &Vec<GoalConfig>,
    side: Side,
) -> (plan: Option<PaddleSpawnPlan>)
    requires
        first_index(goals@, goal_on(side)) matches Some(g) ==> g < goal_configs@.len(),
    ensures
        plan == paddle_spawn_plan(goals@, walls@, goal_configs@, side),
{
    proof {
        lemma_first_index(goals@, goal_on(side));
    }
    match goal_on_side(goals, side) {
        None => None,
        Some((goal_index, goal_entity)) => {
            let goal_config = &goal_configs[goal_index];
            let faction = if goal_config.team == TeamConfig::Enemies {
                Faction::Enemies
            } else {
                Faction::Allies
            };
            let ai_controlled = goal_config.controlled_by == ControlledByConfig::AI;
            Some(
                PaddleSpawnPlan {
                    goal: GoalSpawnPlan { goal_index, goal_entity, replaced: first_child_of(walls, goal_entity) },
                    paddle: PaddleSpawn { faction, ai_controlled },
                },
            )
        },
    }
}

/// Where a crab spawns and who controls it.
#[derive(Clone, Copy, Debug, PartialEq, Eq, Structural)]
pub struct CrabSpawnPlan {
    /// The goal entity on the crab's side.
    pub goal_entity: u64,
    /// Whether the crab is AI-controlled rather than user-controlled.
    pub ai_controlled: bool,
}

/// Plans spawning a crab on `side`: in the first goal on that side, and
/// controlled by AI exactly when the game mode configures an AI player there.
pub fn spawn_crab_on_side(goals: &Vec<(u64, Side)>, mode: &ModeConfig, side: Side) -> (plan: CrabSpawnPlan)
    requires
        mode.wf(),
        exists|g: int| 0 <= g < goals@.len() && #[trigger] goals@[g].1 == side,
        exists|p: int| 0 <= p < mode.paddles@.len() && #[trigger] mode.paddles@[p].0 == side,
    ensures
        ({
            let g = first_index(goals@, goal_on(side))->0;
            let p = mode.spec_paddle_index(side)->0;
            &&& first_index(goals@, goal_on(side)) is Some
            &&& mode.spec_paddle_index(side) is Some
            &&& plan.goal_entity == goals@[g].0
            &&& plan.ai_controlled == (mode.paddles@[p].1.player == PlayerConfig::AI)
        }),
{
    proof {
        lemma_first_index(goals@, goal_on(side));
        lemma_first_index(mode.paddles@, configured_on(side));
        let g = choose|g: int| 0 <= g < goals@.len() && #[trigger] goals@[g].1 == side;
        assert(goal_on(side)(goals@[g]));
        let p = choose|p: int| 0 <= p < mode.paddles@.len() && #[trigger] mode.paddles@[p].0 == side;
        assert(configured_on(side)(mode.paddles@[p]));
    }
    let (_, goal_entity) = goal_on_side(goals, side).unwrap();
    let config = mode.paddle_config(side).unwrap();
    CrabSpawnPlan { goal_entity, ai_controlled: config.player == PlayerConfig::AI }
}

/// A goal spawn plan exists exactly when some goal is on the side. It
/// names the first goal on the side (its position in query order and its
/// entity) and, as what the new object replaces, the first occupant under
/// that goal, or nothing when the goal has no occupant.
pub proof fn lemma_goal_spawn_plan_targets_the_first_goal_on_the_side(
    goals: Seq<(u64, Side)>,
    occupants: Seq<(u64, u64)>,
    side: Side,
)
    requires
        goals.len() <= usize::MAX,
    ensures
        goal_spawn_plan(goals, occupants, side) is Some <==> exists|g: int|
            0 <= g < goals.len() && #[trigger] goals[g].1 == side,
        goal_spawn_plan(goals, occupants, side) matches Some(plan) ==> ({
            &&& 0 <= plan.goal_index < goals.len()
            &&& goals[plan.goal_index as int] == (plan.goal_entity, side)
            &&& forall|g: int| 0 <= g < plan.goal_index ==> #[trigger] goals[g].1 != side
            &&& plan.replaced matches Some(e) ==> exists|o: int|
                0 <= o < occupants.len() && occupants[o] == (e, plan.goal_entity) && forall|q: int|
                    0 <= q < o ==> #[trigger] occupants[q].1 != plan.goal_entity
            &&& plan.replaced is None ==> forall|o: int|
                0 <= o < occupants.len() ==> #[trigger] occupants[o].1 != plan.goal_entity
        }),
{
    lemma_first_index(goals, goal_on(side));
    match first_index(goals, goal_on(side)) {
        Some(g) => {
            lemma_first_index(occupants, child_of(goals[g].0));
            assert forall|j: int| 0 <= j < g implies #[trigger] goals[j].1 != side by {
                assert(!goal_on(side)(goals[j]));
            }
            match first_index(occupants, child_of(goals[g].0)) {
                Some(o) => {
                    assert(child_of(goals[g].0)(occupants[o]));
                    assert(occupants[o] == (occupants[o].0, goals[g].0));
                    assert forall|q: int| 0 <= q < o implies #[trigger] occupants[q].1 != goals[g].0 by {
                        assert(!child_of(goals[g].0)(occupants[q]));
                    }
                },
                None => {
                    assert forall|q: int| 0 <= q < occupants.len() implies #[trigger] occupants[q].1 != goals[g].0 by {
                        assert(!child_of(goals[g].0)(occupants[q]));
                    }
                },
            }
        },
        None => {
            if exists|j: int| 0 <= j < goals.len() && #[trigger] goals[j].1 == side {
                let j = choose|j: int| 0 <= j < goals.len() && #[trigger] goals[j].1 == side;
                assert(goal_on(side)(goals[j]));
            }
        },
    }
}

/// A paddle is planned exactly when a goal is planned, in that goal; it
/// plays for the enemies exactly when that goal's configuration says so,
/// and is AI-controlled exactly when the configuration says so.
pub proof fn lemma_paddle_follows_its_goal_config(
    goals: Seq<(u64, Side)>,
    walls: Seq<(u64, u64)>,
    goal_configs: Seq<GoalConfig>,
    side: Side,
)
    ensures
        paddle_spawn_plan(goals, walls, goal_configs, side) is Some <==> goal_spawn_plan(goals, walls, side) is Some,
        paddle_spawn_plan(goals, walls, goal_configs, side) matches Some(plan) ==> ({
            &&& goal_spawn_plan(goals, walls, side) == Some(plan.goal)
            &&& (plan.paddle.faction == Faction::Enemies) == (goal_configs[plan.goal.goal_index as int].team
                == TeamConfig::Enemies)
            &&& plan.paddle.ai_controlled == (goal_configs[plan.goal.goal_index as int].controlled_by
                == ControlledByConfig::AI)
        }),
{
}

} // verus!
