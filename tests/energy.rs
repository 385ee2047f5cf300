use cell_defense::ingame_state_tracker::GameplayState;
use cell_defense::player_energy::PlayerEnergy;

#[test]
fn try_use_debits_only_when_affordable() {
    let mut e = PlayerEnergy::new(10, 20, 100, 5);
    assert!(e.can_use(10));
    assert!(!e.can_use(11));
    assert!(e.try_use(4));
    assert_eq!(e.get_energy(), 6);
    assert!(!e.try_use(7));
    assert_eq!(e.get_energy(), 6);
    assert!(e.try_use(6));
    assert_eq!(e.get_energy(), 0);
    assert!(e.try_use(0));
    assert_eq!(e.get_energy(), 0);
}

#[test]
fn cost_six_with_four_energy_fails() {
    let mut e = PlayerEnergy::new(4, 20, 100, 5);
    assert!(!e.try_use(6));
    assert_eq!(e.get_energy(), 4);
}

#[test]
fn balance_stays_in_bounds_over_many_uses() {
    let mut e = PlayerEnergy::new(15, 15, 100, 5);
    for cost in [3, 20, 0, 12, 1, 7, 15] {
        e.try_use(cost);
        assert!(0 <= e.get_energy() && e.get_energy() <= e.get_max_energy());
    }
}

#[test]
fn gain_is_clamped_to_max() {
    let mut e = PlayerEnergy::new(18, 20, 100, 5);
    e.gain_energy(1);
    assert_eq!(e.get_energy(), 19);
    e.gain_energy(5);
    assert_eq!(e.get_energy(), 20);
}

#[test]
fn regenerates_only_while_defending() {
    let mut e = PlayerEnergy::new(0, 20, 100, 5);
    e.physics_process(GameplayState::DRAWING, 1000);
    assert_eq!(e.get_energy(), 0);
    e.physics_process(GameplayState::DEFENDING, 60);
    assert_eq!(e.get_energy(), 0);
    e.physics_process(GameplayState::DEFENDING, 40);
    assert_eq!(e.get_energy(), 5);
    e.physics_process(GameplayState::DEFENDING, 99);
    assert_eq!(e.get_energy(), 5);
    e.physics_process(GameplayState::DEFENDING, u64::MAX);
    assert_eq!(e.get_energy(), 10);
}

#[test]
fn regeneration_stops_at_max() {
    let mut e = PlayerEnergy::new(18, 20, 10, 5);
    e.physics_process(GameplayState::DEFENDING, 10);
    assert_eq!(e.get_energy(), 20);
    e.physics_process(GameplayState::DEFENDING, 10);
    assert_eq!(e.get_energy(), 20);
}
