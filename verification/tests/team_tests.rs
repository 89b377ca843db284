use crab_pong::scoring::{GoalsHitPoints, HitPoints};
use crab_pong::side::Side;
use crab_pong::team::{
    check_for_game_over, check_for_game_over_conditions, check_for_winning_team, Faction, GameOver, Team,
    WinningTeam,
};

#[test]
fn only_surviving_team_wins() {
    let crabs = vec![(Team(0), HitPoints(0)), (Team(1), HitPoints(3)), (Team(1), HitPoints(1)), (Team(2), HitPoints(0))];
    assert_eq!(check_for_winning_team(1, &crabs), Some(WinningTeam(1)));
}

#[test]
fn two_teams_alive_means_no_winner() {
    let crabs = vec![(Team(0), HitPoints(2)), (Team(1), HitPoints(3))];
    assert_eq!(check_for_winning_team(1, &crabs), None);
}

#[test]
fn no_elimination_means_no_winner() {
    let crabs = vec![(Team(0), HitPoints(2)), (Team(0), HitPoints(3))];
    assert_eq!(check_for_winning_team(0, &crabs), None);
}

#[test]
fn nobody_alive_means_no_winner() {
    let crabs = vec![(Team(0), HitPoints(0)), (Team(1), HitPoints(0))];
    assert_eq!(check_for_winning_team(2, &crabs), None);
}

#[test]
fn paddles_game_over_uses_the_same_rule() {
    let paddles = vec![(Team(3), HitPoints(1)), (Team(4), HitPoints(0))];
    assert_eq!(check_for_game_over(1, &paddles), Some(WinningTeam(3)));
    assert_eq!(WinningTeam::default(), WinningTeam(0));
}

#[test]
fn player_wins_when_every_enemy_goal_is_out() {
    let paddles = vec![(Faction::Allies, Side::Bottom), (Faction::Enemies, Side::Top), (Faction::Enemies, Side::Left)];
    let hp = GoalsHitPoints { bottom: 2, right: 0, top: 0, left: 0 };
    assert_eq!(check_for_game_over_conditions(1, &paddles, &hp), Some(GameOver::Won));
}

#[test]
fn player_loses_when_every_allied_goal_is_out() {
    let paddles = vec![(Faction::Allies, Side::Bottom), (Faction::Enemies, Side::Top)];
    let hp = GoalsHitPoints { bottom: 0, right: 0, top: 1, left: 0 };
    assert_eq!(check_for_game_over_conditions(1, &paddles, &hp), Some(GameOver::Lost));
}

#[test]
fn game_goes_on_while_both_factions_have_hit_points() {
    let paddles = vec![(Faction::Allies, Side::Bottom), (Faction::Enemies, Side::Top)];
    let hp = GoalsHitPoints { bottom: 1, right: 0, top: 1, left: 0 };
    assert_eq!(check_for_game_over_conditions(1, &paddles, &hp), None);
    assert_eq!(check_for_game_over_conditions(0, &paddles, &GoalsHitPoints { bottom: 0, right: 0, top: 0, left: 0 }), None);
}

#[test]
fn a_win_takes_precedence_when_both_factions_are_out() {
    let paddles = vec![(Faction::Allies, Side::Bottom), (Faction::Enemies, Side::Top)];
    let hp = GoalsHitPoints { bottom: 0, right: 0, top: 0, left: 0 };
    assert_eq!(check_for_game_over_conditions(1, &paddles, &hp), Some(GameOver::Won));
}
