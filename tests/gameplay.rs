use cell_defense::ingame_state_tracker::{GameplayState, IngameStateTracker, PhaseSignal};

fn tracker_in(state: GameplayState) -> IngameStateTracker {
    let mut t = IngameStateTracker::new();
    match state {
        GameplayState::DEFENDING => {}
        GameplayState::DRAWING => {
            t.end_wave();
        }
        GameplayState::DEAD => {
            t.die();
        }
        GameplayState::SUCCESS => {
            t.win();
        }
    }
    assert_eq!(t.get_state(), state);
    t
}

#[test]
fn match_starts_drawing() {
    let mut t = IngameStateTracker::new();
    assert_eq!(t.get_state(), GameplayState::DEFENDING);
    assert_eq!(t.ready(), Some(PhaseSignal::StartDraw));
    assert_eq!(t.get_state(), GameplayState::DRAWING);
    assert!(t.drawing_controls_visible());
}

#[test]
fn legal_transitions() {
    let mut t = tracker_in(GameplayState::DRAWING);
    assert_eq!(t.end_drawing(), Some(PhaseSignal::StartWave));
    assert_eq!(t.get_state(), GameplayState::DEFENDING);
    assert!(!t.drawing_controls_visible());
    assert_eq!(t.end_wave(), Some(PhaseSignal::StartDraw));
    assert_eq!(t.get_state(), GameplayState::DRAWING);
    assert_eq!(t.die(), Some(PhaseSignal::Death));
    assert_eq!(t.get_state(), GameplayState::DEAD);

    let mut t = tracker_in(GameplayState::DEFENDING);
    assert_eq!(t.win(), Some(PhaseSignal::Win));
    assert_eq!(t.get_state(), GameplayState::SUCCESS);

    let mut t = tracker_in(GameplayState::DEFENDING);
    assert_eq!(t.die(), Some(PhaseSignal::Death));
}

#[test]
fn illegal_transitions_change_nothing() {
    let mut t = tracker_in(GameplayState::DRAWING);
    assert_eq!(t.end_wave(), None);
    assert_eq!(t.win(), None);
    assert_eq!(t.get_state(), GameplayState::DRAWING);
    let mut t = tracker_in(GameplayState::DEFENDING);
    assert_eq!(t.end_drawing(), None);
    assert_eq!(t.get_state(), GameplayState::DEFENDING);
}

#[test]
fn terminal_phases_reject_everything() {
    for s in [GameplayState::DEAD, GameplayState::SUCCESS] {
        let mut t = tracker_in(s);
        assert_eq!(t.end_wave(), None);
        assert_eq!(t.end_drawing(), None);
        assert_eq!(t.die(), None);
        assert_eq!(t.win(), None);
        assert_eq!(t.get_state(), s);
    }
}

#[test]
fn names() {
    assert_eq!(GameplayState::DRAWING.name(), "DRAWING");
    assert_eq!(GameplayState::DEFENDING.name(), "DEFENDING");
    assert_eq!(GameplayState::DEAD.name(), "DEAD");
    assert_eq!(GameplayState::SUCCESS.name(), "SUCCESS");
    assert_eq!(PhaseSignal::StartDraw.name(), "on_start_draw");
    assert_eq!(PhaseSignal::StartWave.name(), "on_start_wave");
    assert_eq!(PhaseSignal::Death.name(), "on_death");
    assert_eq!(PhaseSignal::Win.name(), "on_win");
}
