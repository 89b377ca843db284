use crab_pong::scoring::{
    check_if_any_balls_have_scored_against_any_goals, check_if_any_balls_have_scored_in_any_sides, deduct_paddle_hp_and_potentially_eliminate_goal,
    GoalsHitPoints,
};
use crab_pong::side::Side;

#[test]
fn ball_past_a_paddle_costs_one_hit_point() {
    let mut hit_points = vec![3u8, 3, 3, 3];
    let goals = vec![10u64, 11, 12, 13];
    let passed = vec![vec![false, false, true, false]];
    let outcome = deduct_paddle_hp_and_potentially_eliminate_goal(&mut hit_points, &goals, &passed);
    assert_eq!(hit_points, vec![3, 3, 2, 3]);
    assert!(outcome.eliminated.is_empty());
    assert_eq!(outcome.scoring_balls, vec![0]);
}

#[test]
fn ball_inside_the_beach_does_not_score() {
    let mut hit_points = vec![1u8, 1];
    let goals = vec![10u64, 11];
    let passed = vec![vec![false, false], vec![false, false]];
    let outcome = deduct_paddle_hp_and_potentially_eliminate_goal(&mut hit_points, &goals, &passed);
    assert_eq!(hit_points, vec![1, 1]);
    assert!(outcome.eliminated.is_empty());
    assert!(outcome.scoring_balls.is_empty());
}

#[test]
fn last_hit_point_eliminates_the_goal() {
    let mut hit_points = vec![1u8, 5];
    let goals = vec![10u64, 11];
    let passed = vec![vec![true, false]];
    let outcome = deduct_paddle_hp_and_potentially_eliminate_goal(&mut hit_points, &goals, &passed);
    assert_eq!(hit_points, vec![0, 5]);
    assert_eq!(outcome.eliminated, vec![10]);
    assert_eq!(outcome.scoring_balls, vec![0]);
}

#[test]
fn ball_scores_only_against_the_first_paddle_it_passed() {
    let mut hit_points = vec![2u8, 2, 2];
    let goals = vec![10u64, 11, 12];
    let passed = vec![vec![false, true, true]];
    let outcome = deduct_paddle_hp_and_potentially_eliminate_goal(&mut hit_points, &goals, &passed);
    assert_eq!(hit_points, vec![2, 1, 2]);
    assert_eq!(outcome.scoring_balls, vec![0]);
}

#[test]
fn hit_points_stop_at_zero_and_elimination_repeats() {
    // Two balls score on a paddle with one hit point in the same frame: the
    // hit points stay at zero and the goal is reported once per ball.
    let mut hit_points = vec![1u8];
    let goals = vec![7u64];
    let passed = vec![vec![true], vec![true]];
    let outcome = deduct_paddle_hp_and_potentially_eliminate_goal(&mut hit_points, &goals, &passed);
    assert_eq!(hit_points, vec![0]);
    assert_eq!(outcome.eliminated, vec![7, 7]);
    assert_eq!(outcome.scoring_balls, vec![0, 1]);
}

#[test]
fn several_balls_score_in_order() {
    let mut hit_points = vec![3u8, 1];
    let goals = vec![20u64, 21];
    let passed = vec![vec![false, false], vec![false, true], vec![true, false]];
    let outcome = deduct_paddle_hp_and_potentially_eliminate_goal(&mut hit_points, &goals, &passed);
    assert_eq!(hit_points, vec![2, 0]);
    assert_eq!(outcome.eliminated, vec![21]);
    assert_eq!(outcome.scoring_balls, vec![1, 2]);
}

#[test]
fn goals_lose_hit_points_by_side() {
    let mut goals_hit_points = GoalsHitPoints { bottom: 2, right: 1, top: 3, left: 0 };
    let sides = vec![Side::Bottom, Side::Right, Side::Top, Side::Left];
    let passed = vec![vec![false, true, false, false], vec![true, false, false, false]];
    let outcome = check_if_any_balls_have_scored_against_any_goals(&mut goals_hit_points, &sides, &passed);
    assert_eq!(goals_hit_points, GoalsHitPoints { bottom: 1, right: 0, top: 3, left: 0 });
    assert_eq!(outcome.eliminated, vec![Side::Right]);
    assert_eq!(outcome.scoring_balls, vec![0, 1]);
}

#[test]
fn goal_already_out_reports_elimination_again() {
    let mut goals_hit_points = GoalsHitPoints { bottom: 2, right: 2, top: 2, left: 0 };
    let sides = vec![Side::Left];
    let passed = vec![vec![true]];
    let outcome = check_if_any_balls_have_scored_against_any_goals(&mut goals_hit_points, &sides, &passed);
    assert_eq!(goals_hit_points.left, 0);
    assert_eq!(outcome.eliminated, vec![Side::Left]);
}

#[test]
fn goals_hit_points_lookup_by_side() {
    let goals_hit_points = GoalsHitPoints { bottom: 4, right: 5, top: 6, left: 7 };
    assert_eq!(goals_hit_points.get(Side::Bottom), 4);
    assert_eq!(goals_hit_points.get(Side::Right), 5);
    assert_eq!(goals_hit_points.get(Side::Top), 6);
    assert_eq!(goals_hit_points.get(Side::Left), 7);
}

#[test]
fn each_crab_passed_raises_a_scored_event() {
    let sides = vec![Side::Bottom, Side::Top];
    let passed = vec![vec![false, false], vec![true, true], vec![false, true]];
    let (events, faded) = check_if_any_balls_have_scored_in_any_sides(&sides, &passed);
    assert_eq!(events, vec![Side::Bottom, Side::Top, Side::Top]);
    assert_eq!(faded, vec![1, 2]);
}
