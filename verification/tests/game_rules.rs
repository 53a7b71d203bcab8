use rstarwars::game::{enemy_shot, Explosion, Game, GameState, PlayerAction};

/// `n` milliseconds, in the nanoseconds of the match's clock.
fn ms(n: u128) -> u128 {
    n * 1_000_000
}

fn quiet_game() -> Game {
    // A fresh match whose formation will not move in the next frame.
    Game::new()
}

#[test]
fn new_game_starts_with_three_lives_in_the_middle() {
    let g = Game::new();
    assert_eq!(g.player_x, 40);
    assert_eq!(g.player_lives, 3);
    assert_eq!(g.score, 0);
    assert_eq!(g.high_score, 0);
    assert_eq!(g.wave, 0);
    assert_eq!(g.step_interval, 10);
    assert_eq!(g.enemy_dir, 1);
    assert_eq!(g.tick, 0);
    assert_eq!(g.enemies_destroyed, 0);
    assert_eq!(g.last_shot, None);
    assert_eq!(g.state, GameState::Playing);
    assert!(g.enemies.is_empty() && g.lasers.is_empty() && g.enemy_lasers.is_empty());
    assert!(g.explosions.is_empty());
    assert!(g.update_is_safe());
}

#[test]
fn first_wave_is_five_rows_of_ten() {
    let mut g = Game::new();
    g.spawn_wave();
    assert_eq!(g.wave, 1);
    assert_eq!(g.wave_rows(), 5);
    assert_eq!(g.total_enemies_in_wave(), 50);
    assert_eq!(g.enemies.len(), 50);
    assert_eq!(g.enemies[0], (8, 3));
    assert_eq!(g.enemies[9], (71, 3));
    assert_eq!(g.enemies[10], (8, 5));
    assert_eq!(g.enemies[49], (71, 11));
    assert_eq!(g.step_interval, 10);
    assert_eq!(g.enemy_dir, 1);
}

#[test]
fn later_waves_are_larger_and_faster() {
    let mut g = Game::new();
    g.spawn_wave();
    g.spawn_wave();
    assert_eq!(g.wave, 2);
    assert_eq!(g.enemies.len(), 60);
    assert_eq!(g.step_interval, 9);
    g.spawn_wave();
    assert_eq!(g.wave, 3);
    assert_eq!(g.wave_rows(), 7);
    assert_eq!(g.enemies.len(), 70);
    assert_eq!(g.step_interval, 8);
    g.spawn_wave();
    assert_eq!(g.enemies.len(), 80);
    assert_eq!(g.step_interval, 7);
    g.spawn_wave();
    assert_eq!(g.enemies.len(), 80);
    assert_eq!(g.step_interval, 6);
    g.wave = 7;
    g.spawn_wave();
    assert_eq!(g.step_interval, 3);
    g.spawn_wave();
    assert_eq!(g.step_interval, 3);
    g.wave = 13;
    g.enemy_dir = -1;
    g.spawn_wave();
    assert_eq!(g.wave, 14);
    assert_eq!(g.wave_rows(), 8);
    assert_eq!(g.enemies.len(), 80);
    assert_eq!(g.step_interval, 3);
    assert_eq!(g.enemy_dir, 1);
    g.wave = 40;
    g.spawn_wave();
    assert_eq!(g.wave_rows(), 8);
    assert_eq!(g.step_interval, 3);
}

#[test]
fn ship_moves_within_its_lane() {
    let mut g = Game::new();
    assert!(g.handle_action_at(PlayerAction::MoveLeft, ms(0)));
    assert_eq!(g.player_x, 39);
    g.player_x = 3;
    g.handle_action_at(PlayerAction::MoveLeft, ms(0));
    assert_eq!(g.player_x, 2);
    g.handle_action_at(PlayerAction::MoveLeft, ms(0));
    assert_eq!(g.player_x, 2);
    g.player_x = 76;
    assert!(g.handle_action_at(PlayerAction::MoveRight, ms(0)));
    assert_eq!(g.player_x, 77);
    g.handle_action_at(PlayerAction::MoveRight, ms(0));
    assert_eq!(g.player_x, 77);
}

#[test]
fn shots_respect_the_cooldown() {
    let mut g = Game::new();
    assert!(g.handle_action_at(PlayerAction::Shoot, ms(1000)));
    assert_eq!(g.lasers, vec![(40, 22)]);
    assert_eq!(g.last_shot, Some(ms(1000)));
    g.handle_action_at(PlayerAction::Shoot, ms(1199));
    assert_eq!(g.lasers.len(), 1);
    assert_eq!(g.last_shot, Some(ms(1000)));
    g.handle_action_at(PlayerAction::MoveRight, ms(1199));
    g.handle_action_at(PlayerAction::Shoot, ms(1200));
    assert_eq!(g.lasers, vec![(40, 22), (41, 22)]);
    assert_eq!(g.last_shot, Some(ms(1200)));
}

#[test]
fn quitting_ends_the_match_and_changes_nothing() {
    let mut g = Game::new();
    assert!(!g.handle_action_at(PlayerAction::Quit, ms(5)));
    assert_eq!(g.player_x, 40);
    assert!(g.lasers.is_empty());
}

#[test]
fn handle_action_now_fires_the_first_shot() {
    let mut g = Game::new();
    assert!(g.handle_action(PlayerAction::Shoot));
    assert_eq!(g.lasers, vec![(40, 22)]);
    assert!(g.last_shot.is_some());
}

#[test]
fn a_laser_destroys_an_enemy_for_ten_points() {
    let mut g = quiet_game();
    g.enemies = vec![(10, 10), (30, 10)];
    g.lasers = vec![(10, 11)];
    assert!(g.update_at(ms(0), None));
    assert_eq!(g.enemies, vec![(30, 10)]);
    assert!(g.lasers.is_empty());
    assert_eq!(g.score, 10);
    assert_eq!(g.enemies_destroyed, 1);
    assert_eq!(g.explosions, vec![Explosion { x: 10, y: 10, lifetime: 8 }]);
    assert_eq!(g.state, GameState::Playing);
}

#[test]
fn a_laser_strikes_the_enemy_just_above_it() {
    let mut g = quiet_game();
    g.enemies = vec![(5, 5), (6, 5), (7, 5)];
    g.lasers = vec![(5, 5)];
    assert!(g.update_at(ms(0), None));
    // The laser rose to row 4 and struck the enemy at row 5; the last enemy
    // took the place of the one destroyed.
    assert_eq!(g.enemies, vec![(7, 5), (6, 5)]);
    assert_eq!(g.score, 10);
}

#[test]
fn a_laser_destroys_only_the_first_enemy_it_strikes() {
    let mut g = quiet_game();
    g.enemies = vec![(5, 4), (5, 5), (9, 9)];
    g.lasers = vec![(5, 5)];
    g.update_at(ms(0), None);
    assert_eq!(g.enemies, vec![(9, 9), (5, 5)]);
    assert_eq!(g.enemies_destroyed, 1);
}

#[test]
fn missed_lasers_fly_on_and_leave_the_top() {
    let mut g = quiet_game();
    g.enemies = vec![(60, 10)];
    g.lasers = vec![(10, 1), (11, 2), (12, 20)];
    g.update_at(ms(0), None);
    assert_eq!(g.lasers, vec![(11, 1), (12, 19)]);
}

#[test]
fn enemy_lasers_fall_and_leave_at_the_ground() {
    let mut g = quiet_game();
    g.enemies = vec![(60, 10)];
    g.enemy_lasers = vec![(10, 5), (11, 24), (12, 30)];
    g.update_at(ms(0), None);
    assert_eq!(g.enemy_lasers, vec![(10, 6)]);
}

#[test]
fn explosions_burn_out() {
    let mut g = quiet_game();
    g.enemies = vec![(60, 10)];
    g.explosions = vec![
        Explosion { x: 1, y: 1, lifetime: 1 },
        Explosion { x: 2, y: 2, lifetime: 5 },
        Explosion { x: 3, y: 3, lifetime: 0 },
    ];
    g.update_at(ms(0), None);
    assert_eq!(g.explosions, vec![Explosion { x: 2, y: 2, lifetime: 4 }]);
}

#[test]
fn the_chosen_enemy_fires_below_itself() {
    let mut g = quiet_game();
    g.enemies = vec![(10, 5), (20, 7)];
    assert!(g.update_at(ms(0), Some(1)));
    assert_eq!(g.enemy_lasers, vec![(20, 8)]);
}

#[test]
fn a_hit_costs_a_life_and_stuns() {
    let mut g = quiet_game();
    g.enemies = vec![(10, 5)];
    g.enemy_lasers = vec![(41, 22), (5, 5)];
    assert!(g.update_at(ms(1000), None));
    assert_eq!(g.player_lives, 2);
    assert!(g.enemy_lasers.is_empty());
    assert_eq!(g.explosions, vec![Explosion { x: 40, y: 24, lifetime: 10 }]);
    assert_eq!(g.state, GameState::HitStun { until: ms(1500) });
    assert!(g.update_at(ms(1499), None));
    assert_eq!(g.state, GameState::HitStun { until: ms(1500) });
    assert!(g.update_at(ms(1500), None));
    assert_eq!(g.state, GameState::Playing);
    assert_eq!(g.player_lives, 2);
}

#[test]
fn a_laser_two_columns_away_misses() {
    let mut g = quiet_game();
    g.enemies = vec![(10, 5)];
    g.enemy_lasers = vec![(42, 23)];
    assert!(g.update_at(ms(0), None));
    assert_eq!(g.player_lives, 3);
    assert_eq!(g.enemy_lasers, vec![(42, 24)]);
    assert_eq!(g.state, GameState::Playing);
}

#[test]
fn losing_the_last_life_ends_the_match() {
    let mut g = quiet_game();
    g.player_lives = 1;
    g.enemies = vec![(10, 5)];
    g.enemy_lasers = vec![(40, 23)];
    assert!(g.update_at(ms(0), None));
    assert_eq!(g.player_lives, 0);
    assert_eq!(g.state, GameState::HitStun { until: ms(500) });
    assert!(!g.update_at(ms(500), None));
    assert_eq!(g.state, GameState::GameOver);
    assert!(!g.update_at(ms(10_000), None));
    assert_eq!(g.state, GameState::GameOver);
}

#[test]
fn enemies_at_the_base_end_the_match() {
    let mut g = quiet_game();
    g.enemies = vec![(10, 23)];
    assert!(!g.update_at(ms(0), None));
    assert_eq!(g.state, GameState::Playing);
}

#[test]
fn clearing_a_wave_brings_the_next_after_a_pause() {
    let mut g = quiet_game();
    g.spawn_wave();
    g.enemies = vec![(10, 10)];
    g.lasers = vec![(10, 11)];
    assert!(g.update_at(ms(2000), None));
    assert!(g.enemies.is_empty());
    assert_eq!(g.state, GameState::WaveTransition { until: ms(3000) });
    assert!(g.update_at(ms(2999), None));
    assert!(g.enemies.is_empty());
    assert!(g.update_at(ms(3000), None));
    assert_eq!(g.state, GameState::Playing);
    assert_eq!(g.wave, 2);
    assert_eq!(g.enemies.len(), 60);
    assert_eq!(g.score, 10);
}

#[test]
fn the_formation_steps_sideways_every_interval() {
    let mut g = quiet_game();
    g.enemies = vec![(10, 5), (20, 5)];
    g.tick = 8;
    g.update_at(ms(0), None);
    assert_eq!(g.tick, 9);
    assert_eq!(g.enemies, vec![(10, 5), (20, 5)]);
    g.update_at(ms(0), None);
    assert_eq!(g.tick, 10);
    assert_eq!(g.enemies, vec![(11, 5), (21, 5)]);
}

#[test]
fn the_formation_drops_and_turns_at_an_edge() {
    let mut g = quiet_game();
    g.enemies = vec![(77, 5), (60, 5)];
    g.tick = 9;
    g.update_at(ms(0), None);
    assert_eq!(g.enemies, vec![(77, 6), (60, 6)]);
    assert_eq!(g.enemy_dir, -1);
    g.enemies = vec![(3, 5)];
    g.tick = 19;
    g.update_at(ms(0), None);
    assert_eq!(g.enemies, vec![(2, 5)]);
    g.tick = 29;
    g.update_at(ms(0), None);
    assert_eq!(g.enemies, vec![(2, 6)]);
    assert_eq!(g.enemy_dir, 1);
}

#[test]
fn score_grows_by_ten_per_enemy_destroyed() {
    let mut g = quiet_game();
    g.score = 70;
    g.enemies_destroyed = 7;
    g.enemies = vec![(10, 10), (20, 10), (30, 10)];
    g.lasers = vec![(10, 11), (20, 10), (50, 15)];
    g.update_at(ms(0), None);
    assert_eq!(g.enemies_destroyed, 9);
    assert_eq!(g.score, 90);
    assert_eq!(g.enemies.len() + 2, 3);
    assert_eq!(g.lasers, vec![(50, 14)]);
}

#[test]
fn high_score_is_left_to_the_session() {
    let mut g = quiet_game();
    g.high_score = 500;
    g.enemies = vec![(10, 10), (30, 10)];
    g.lasers = vec![(10, 11)];
    g.update_at(ms(0), None);
    g.handle_action_at(PlayerAction::Shoot, ms(0));
    assert_eq!(g.high_score, 500);
}

#[test]
fn updates_now_pick_enemies_within_the_formation() {
    let mut g = Game::new();
    g.spawn_wave();
    for _ in 0..2000 {
        if !g.update_is_safe() || !g.update() {
            break;
        }
        assert!(g.enemy_lasers.len() <= 2000);
    }
    assert_eq!(g.high_score, 0);
}

#[test]
fn updates_are_unsafe_only_near_a_limit() {
    let mut g = Game::new();
    g.spawn_wave();
    assert!(g.update_is_safe());
    g.step_interval = 0;
    assert!(!g.update_is_safe());
    g.step_interval = 5;
    g.enemy_dir = 2;
    assert!(!g.update_is_safe());
    g.enemy_dir = -1;
    assert!(g.update_is_safe());
    g.score = u32::MAX - 5;
    assert!(!g.update_is_safe());
    g.score = 0;
    g.tick = u64::MAX;
    assert!(!g.update_is_safe());
}

#[test]
fn the_fighters_stay_between_the_borders() {
    let mut g = quiet_game();
    g.enemies = vec![(1, 5), (78, 7)];
    g.enemy_dir = -1;
    g.tick = 9;
    g.update_at(ms(0), None);
    // The fighter at column 1 is at the left edge: the formation drops.
    assert_eq!(g.enemies, vec![(1, 6), (78, 8)]);
    assert_eq!(g.enemy_dir, 1);
    g.tick = 19;
    g.update_at(ms(0), None);
    assert_eq!(g.enemies, vec![(1, 7), (78, 9)]);
    assert_eq!(g.enemy_dir, -1);
    assert!(g.enemies.iter().all(|&(x, _)| (1..=78).contains(&x)));
}

#[test]
fn the_cooldown_is_counted_to_the_nanosecond() {
    let mut g = Game::new();
    g.handle_action_at(PlayerAction::Shoot, 7);
    g.handle_action_at(PlayerAction::Shoot, 7 + ms(200) - 1);
    assert_eq!(g.lasers.len(), 1);
    g.handle_action_at(PlayerAction::Shoot, 7 + ms(200));
    assert_eq!(g.lasers.len(), 2);
    assert_eq!(g.last_shot, Some(7 + ms(200)));
}

#[test]
fn a_stun_ends_exactly_half_a_second_after_the_hit() {
    let mut g = quiet_game();
    g.enemies = vec![(10, 5)];
    g.enemy_lasers = vec![(40, 23)];
    g.update_at(123, None);
    assert_eq!(g.state, GameState::HitStun { until: 123 + ms(500) });
    g.update_at(122 + ms(500), None);
    assert_eq!(g.state, GameState::HitStun { until: 123 + ms(500) });
    g.update_at(123 + ms(500), None);
    assert_eq!(g.state, GameState::Playing);
}

#[test]
fn an_enemy_fires_on_one_byte_in_forty() {
    assert_eq!(enemy_shot(0, 3, 5), Some(3));
    assert_eq!(enemy_shot(40, 4, 5), Some(4));
    assert_eq!(enemy_shot(240, 0, 1), Some(0));
    assert_eq!(enemy_shot(1, 3, 5), None);
    assert_eq!(enemy_shot(20, 3, 5), None);
    assert_eq!(enemy_shot(255, 3, 5), None);
    assert_eq!(enemy_shot(0, 0, 0), None);
}
