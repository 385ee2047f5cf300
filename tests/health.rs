use cell_defense::enemy_spawner::{EnemyPath, EnemySpawner, EnemySpawnerProgressTracker, SpawnTick};
use cell_defense::ingame_state_tracker::{GameplayState, IngameStateTracker, PhaseSignal};
use cell_defense::player_health::{Damageable, PlayerHealth};

#[test]
fn player_dies_when_health_runs_out() {
    let mut state = IngameStateTracker::new();
    let mut h = PlayerHealth::new(2);
    let r = h.take_damage(1, &mut state);
    assert!(!r.depleted);
    assert_eq!(h.health, 1);
    assert_eq!(state.get_state(), GameplayState::DEFENDING);
    let r = EnemyPath.hit_player(&mut h, &mut state);
    assert!(r.depleted);
    assert_eq!(r.signal, Some(PhaseSignal::Death));
    assert_eq!(state.get_state(), GameplayState::DEAD);
    let r = h.take_damage(1, &mut state);
    assert!(r.depleted);
    assert_eq!(r.signal, None);
    assert_eq!(h.health, -1);
}

#[test]
fn player_health_refills_on_ready() {
    let mut h = PlayerHealth { max_health: 5, health: 1 };
    h.ready();
    assert_eq!(h.health, 5);
}

#[test]
fn damageable_is_destroyed_by_a_hit_as_large_as_its_health() {
    let mut d = Damageable { max_health: 10, current_health: 10 };
    assert!(!d.take_damage(4));
    assert_eq!(d.current_health, 6);
    assert!(d.take_damage(6));
    assert_eq!(d.current_health, 0);
    let mut d = Damageable { max_health: 10, current_health: i32::MIN + 1 };
    d.take_damage(5);
    assert_eq!(d.current_health, i32::MIN);
}

#[test]
fn spawner_releases_after_interval_while_defending() {
    let mut s = EnemySpawner::new(10, 2, false);
    assert_eq!(s.physics_process(GameplayState::DRAWING, 100), SpawnTick { spawn: false, finished: false });
    assert_eq!(s.physics_process(GameplayState::DEFENDING, 10), SpawnTick { spawn: false, finished: false });
    assert_eq!(s.timer, 10);
    assert_eq!(s.physics_process(GameplayState::DEFENDING, 1), SpawnTick { spawn: true, finished: false });
    assert_eq!(s.timer, 0);
    assert_eq!(s.physics_process(GameplayState::DEFENDING, u64::MAX), SpawnTick { spawn: true, finished: true });
    assert!(s.is_done());
    assert_eq!(s.physics_process(GameplayState::DEFENDING, 50), SpawnTick { spawn: false, finished: false });
}

#[test]
fn waiting_spawner_starts_when_told() {
    let mut s = EnemySpawner::new(0, 1, true);
    assert_eq!(s.physics_process(GameplayState::DEFENDING, 5), SpawnTick { spawn: false, finished: false });
    s.on_spawning_end();
    assert_eq!(s.physics_process(GameplayState::DEFENDING, 5), SpawnTick { spawn: true, finished: true });
}

#[test]
fn wave_is_won_when_spawners_are_done_and_area_is_clear() {
    let mut state = IngameStateTracker::new();
    let spawners = vec![EnemySpawner::new(1, 0, false), EnemySpawner::new(1, 3, false)];
    assert_eq!(EnemySpawnerProgressTracker::physics_process(&spawners, 0, &mut state), (1, None));
    let spawners = vec![EnemySpawner::new(1, 0, false), EnemySpawner::new(1, 0, false)];
    assert_eq!(EnemySpawnerProgressTracker::physics_process(&spawners, 2, &mut state), (0, None));
    assert_eq!(EnemySpawnerProgressTracker::physics_process(&spawners, 0, &mut state), (0, Some(PhaseSignal::Win)));
    assert_eq!(state.get_state(), GameplayState::SUCCESS);
    assert_eq!(EnemySpawnerProgressTracker::physics_process(&spawners, 0, &mut state), (0, None));
}
