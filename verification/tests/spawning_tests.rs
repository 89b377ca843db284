use crab_pong::config::{
    ControlledByConfig, GoalConfig, ModeConfig, PaddleConfig, PlayerConfig, SelectedGameMode, TeamConfig,
};
use crab_pong::scoring::HitPoints;
use crab_pong::side::Side;
use crab_pong::spawning::{
    allow_only_one_crab_or_pole_per_side, allow_only_one_crab_or_wall_per_goal, first_child_of, goal_on_side,
    spawn_balls_sequentially_as_needed, spawn_balls_sequentially_up_to_max_count, spawn_crab_on_side,
    spawn_paddle_in_goal, spawn_wall_in_goal, CrabSpawnPlan, GoalSpawnPlan, PaddleSpawn, PaddleSpawnPlan,
};
use crab_pong::team::{Faction, Team};
use crab_pong::config::reset_team_and_hit_points;

fn paddle(team: usize, player: PlayerConfig, hit_points: u8) -> PaddleConfig {
    PaddleConfig { color: "ff0000".to_string(), team, player, hit_points }
}

fn mode() -> ModeConfig {
    ModeConfig {
        name: "Versus".to_string(),
        max_ball_count: 2,
        paddles: vec![
            (Side::Bottom, paddle(0, PlayerConfig::Keyboard, 3)),
            (Side::Top, paddle(1, PlayerConfig::AI, 5)),
        ],
    }
}

#[test]
fn balls_spawn_one_at_a_time_up_to_the_maximum() {
    assert!(spawn_balls_sequentially_as_needed(0, 0, 2));
    assert!(!spawn_balls_sequentially_as_needed(1, 1, 2));
    assert!(spawn_balls_sequentially_as_needed(1, 0, 2));
    assert!(!spawn_balls_sequentially_as_needed(2, 0, 2));
    assert!(!spawn_balls_sequentially_as_needed(0, 0, 0));
}

#[test]
fn balls_spawn_up_to_a_modes_ball_count() {
    assert!(spawn_balls_sequentially_up_to_max_count(0, 0, 1));
    assert!(!spawn_balls_sequentially_up_to_max_count(1, 0, 3));
    assert!(!spawn_balls_sequentially_up_to_max_count(0, 3, 3));
    assert!(spawn_balls_sequentially_up_to_max_count(0, 2, 3));
}

#[test]
fn new_crab_replaces_the_wall_in_its_goal() {
    // Entity 5 (new crab) and entity 2 (old wall) share goal 100.
    let new = vec![(5u64, 100u64)];
    let old = vec![(1u64, 200u64), (5, 100), (2, 100), (3, 100)];
    assert_eq!(allow_only_one_crab_or_wall_per_goal(&new, &old), vec![2]);
    let alone = vec![(9u64, 300u64)];
    assert!(allow_only_one_crab_or_wall_per_goal(&alone, &old).is_empty());
}

#[test]
fn new_pole_replaces_the_crab_on_its_side() {
    let new = vec![(7u64, Side::Left), (8, Side::Right)];
    let old = vec![(7u64, Side::Left), (4, Side::Left), (8, Side::Right)];
    assert_eq!(allow_only_one_crab_or_pole_per_side(&new, &old), vec![4]);
}

#[test]
fn goal_and_child_lookups() {
    let goals = vec![(10u64, Side::Right), (11, Side::Top), (12, Side::Right)];
    assert_eq!(goal_on_side(&goals, Side::Right), Some((0, 10)));
    assert_eq!(goal_on_side(&goals, Side::Top), Some((1, 11)));
    assert_eq!(goal_on_side(&goals, Side::Left), None);
    let children = vec![(20u64, 11u64), (21, 10), (22, 10)];
    assert_eq!(first_child_of(&children, 10), Some(21));
    assert_eq!(first_child_of(&children, 12), None);
}

#[test]
fn wall_and_paddle_spawn_plans() {
    let goals = vec![(10u64, Side::Bottom), (11, Side::Top)];
    let paddles = vec![(30u64, 11u64)];
    assert_eq!(
        spawn_wall_in_goal(&goals, &paddles, Side::Top),
        Some(GoalSpawnPlan { goal_index: 1, goal_entity: 11, replaced: Some(30) })
    );
    assert_eq!(spawn_wall_in_goal(&goals, &paddles, Side::Left), None);
}

fn goal_config(team: TeamConfig, controlled_by: ControlledByConfig) -> GoalConfig {
    GoalConfig { color: "00ff00".to_string(), team, controlled_by }
}

#[test]
fn paddle_spawn_plan_takes_team_and_controller_from_the_goal_config() {
    let goals = vec![(10u64, Side::Bottom), (11, Side::Top)];
    let walls = vec![(40u64, 11u64), (41, 10)];
    let configs = vec![
        goal_config(TeamConfig::Allies, ControlledByConfig::Keyboard),
        goal_config(TeamConfig::Enemies, ControlledByConfig::AI),
    ];
    assert_eq!(
        spawn_paddle_in_goal(&goals, &walls, &configs, Side::Bottom),
        Some(PaddleSpawnPlan {
            goal: GoalSpawnPlan { goal_index: 0, goal_entity: 10, replaced: Some(41) },
            paddle: PaddleSpawn { faction: Faction::Allies, ai_controlled: false },
        })
    );
    assert_eq!(
        spawn_paddle_in_goal(&goals, &walls, &configs, Side::Top),
        Some(PaddleSpawnPlan {
            goal: GoalSpawnPlan { goal_index: 1, goal_entity: 11, replaced: Some(40) },
            paddle: PaddleSpawn { faction: Faction::Enemies, ai_controlled: true },
        })
    );
    assert_eq!(spawn_paddle_in_goal(&goals, &walls, &configs, Side::Left), None);
}

#[test]
fn paddle_team_and_controller_are_independent() {
    let goals = vec![(10u64, Side::Right)];
    let walls: Vec<(u64, u64)> = vec![];
    let configs = vec![goal_config(TeamConfig::Enemies, ControlledByConfig::Keyboard)];
    assert_eq!(
        spawn_paddle_in_goal(&goals, &walls, &configs, Side::Right).map(|plan| plan.paddle),
        Some(PaddleSpawn { faction: Faction::Enemies, ai_controlled: false })
    );
    let configs = vec![goal_config(TeamConfig::Allies, ControlledByConfig::AI)];
    assert_eq!(
        spawn_paddle_in_goal(&goals, &walls, &configs, Side::Right).map(|plan| plan.paddle),
        Some(PaddleSpawn { faction: Faction::Allies, ai_controlled: true })
    );
}

#[test]
fn a_mode_has_at_most_one_paddle_per_side() {
    assert!(mode().has_one_paddle_per_side());
    let twice = ModeConfig {
        name: "Broken".to_string(),
        max_ball_count: 1,
        paddles: vec![
            (Side::Top, paddle(0, PlayerConfig::Keyboard, 3)),
            (Side::Bottom, paddle(0, PlayerConfig::Keyboard, 3)),
            (Side::Top, paddle(1, PlayerConfig::AI, 3)),
        ],
    };
    assert!(!twice.has_one_paddle_per_side());
}

#[test]
fn crab_spawn_plan_follows_the_mode() {
    let goals = vec![(10u64, Side::Bottom), (11, Side::Top)];
    let mode = mode();
    assert_eq!(spawn_crab_on_side(&goals, &mode, Side::Top), CrabSpawnPlan { goal_entity: 11, ai_controlled: true });
    assert_eq!(
        spawn_crab_on_side(&goals, &mode, Side::Bottom),
        CrabSpawnPlan { goal_entity: 10, ai_controlled: false }
    );
}

#[test]
fn goals_get_their_sides_team_and_hit_points() {
    let mode = mode();
    let mut goals = vec![
        (Side::Bottom, Team(9), HitPoints(0)),
        (Side::Right, Team(9), HitPoints(0)),
        (Side::Top, Team(9), HitPoints(0)),
    ];
    reset_team_and_hit_points(&mode, &mut goals);
    assert_eq!(
        goals,
        vec![
            (Side::Bottom, Team(0), HitPoints(3)),
            (Side::Right, Team(9), HitPoints(0)),
            (Side::Top, Team(1), HitPoints(5)),
        ]
    );
    assert_eq!(mode.paddle_config(Side::Top).map(|p| p.hit_points), Some(5));
    assert!(mode.paddle_config(Side::Left).is_none());
    assert_eq!(SelectedGameMode::default(), SelectedGameMode(0));
}
