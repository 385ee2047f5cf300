//! The gameplay phase machine: drawing, defending, and the two terminal
//! phases, with the notification raised by each legal transition.

use vstd::prelude::*;

verus! {

/// The phase of a match.
#[allow(non_camel_case_types)]
#[derive(PartialEq, Eq, Structural, Clone, Copy, Debug)]
pub enum GameplayState {
    DRAWING,
    DEFENDING,
    DEAD,
    SUCCESS,
}

/// A request to change phase.
#[derive(PartialEq, Eq, Structural, Clone, Copy, Debug)]
pub enum PhaseEvent {
    EndWave,
    EndDrawing,
    Die,
    Win,
}

/// The notification raised by a legal transition.
#[derive(PartialEq, Eq, Structural, Clone, Copy, Debug)]
pub enum PhaseSignal {
    StartDraw,
    StartWave,
    Death,
    Win,
}

/// The phase and notification that `e` leads to from `s`, or `None` where
/// the transition is illegal.
pub open spec fn phase_step(s: GameplayState, e: PhaseEvent) -> Option<(GameplayState, PhaseSignal)> {
    match e {
        PhaseEvent::EndWave => if s == GameplayState::DEFENDING {
            Some((GameplayState::DRAWING, PhaseSignal::StartDraw))
        } else {
            None
        },
        PhaseEvent::EndDrawing => if s == GameplayState::DRAWING {
            Some((GameplayState::DEFENDING, PhaseSignal::StartWave))
        } else {
            None
        },
        PhaseEvent::Die => if s == GameplayState::DEFENDING || s == GameplayState::DRAWING {
            Some((GameplayState::DEAD, PhaseSignal::Death))
        } else {
            None
        },
        PhaseEvent::Win => if s == GameplayState::DEFENDING {
            Some((GameplayState::SUCCESS, PhaseSignal::Win))
        } else {
            None
        },
    }
}

/// `after` and `r` are what a request `e` made in phase `before` gives:
/// the new phase and its notification, or no change and no notification.
pub open spec fn step_taken(
    before: GameplayState,
    e: PhaseEvent,
    after: GameplayState,
    r: Option<PhaseSignal>,
) -> bool {
    match phase_step(before, e) {
        Some(p) => after == p.0 && r == Some(p.1),
        None => after == before && r.is_none(),
    }
}

impl GameplayState {
    /// The phase's name.
    pub fn name(&self) -> (r: &'static str)
        ensures
            *self == GameplayState::DRAWING ==> r@ == "DRAWING"@,
            *self == GameplayState::DEFENDING ==> r@ == "DEFENDING"@,
            *self == GameplayState::DEAD ==> r@ == "DEAD"@,
            *self == GameplayState::SUCCESS ==> r@ == "SUCCESS"@,
    {
        proof {
            reveal_strlit("DRAWING");
            reveal_strlit("DEFENDING");
            reveal_strlit("DEAD");
            reveal_strlit("SUCCESS");
        }
        match self {
            GameplayState::DRAWING => "DRAWING",
            GameplayState::DEAD => "DEAD",
            GameplayState::DEFENDING => "DEFENDING",
            GameplayState::SUCCESS => "SUCCESS",
        }
    }
}

impl PhaseSignal {
    /// Name of the notification.
    pub fn name(&self) -> (r: &'static str)
        ensures
            *self == PhaseSignal::StartDraw ==> r@ == "on_start_draw"@,
            *self == PhaseSignal::StartWave ==> r@ == "on_start_wave"@,
            *self == PhaseSignal::Death ==> r@ == "on_death"@,
            *self == PhaseSignal::Win ==> r@ == "on_win"@,
    {
        proof {
            reveal_strlit("on_start_draw");
            reveal_strlit("on_start_wave");
            reveal_strlit("on_death");
            reveal_strlit("on_win");
        }
        match self {
            PhaseSignal::StartDraw => "on_start_draw",
            PhaseSignal::StartWave => "on_start_wave",
            PhaseSignal::Death => "on_death",
            PhaseSignal::Win => "on_win",
        }
    }
}

/// Tracks the phase of a match and arbitrates changes of phase.
pub struct IngameStateTracker {
    state: GameplayState,
}

impl IngameStateTracker {
    /// The phase.
    pub closed spec fn view_state(&self) -> GameplayState {
        self.state
    }

    /// A tracker as constructed, before setup: in `DEFENDING`.
    pub fn new() -> (r: Self)
        ensures
            r.view_state() == GameplayState::DEFENDING,
    {
        IngameStateTracker { state: GameplayState::DEFENDING }
    }

    /// Setup: forces the first wave to end, so a match begins by drawing.
    pub fn ready(&mut self) -> (r: Option<PhaseSignal>)
        ensures
            step_taken(old(self).view_state(), PhaseEvent::EndWave, final(self).view_state(), r),
    {
        self.end_wave()
    }

    /// Ends a wave: `DEFENDING` to `DRAWING`.
    pub fn end_wave(&mut self) -> (r: Option<PhaseSignal>)
        ensures
            step_taken(old(self).view_state(), PhaseEvent::EndWave, final(self).view_state(), r),
    {
        if self.state == GameplayState::DEFENDING {
            self.state = GameplayState::DRAWING;
            Some(PhaseSignal::StartDraw)
        } else {
            None
        }
    }

    /// Ends drawing: `DRAWING` to `DEFENDING`.
    pub fn end_drawing(&mut self) -> (r: Option<PhaseSignal>)
        ensures
            step_taken(old(self).view_state(), PhaseEvent::EndDrawing, final(self).view_state(), r),
    {
        if self.state == GameplayState::DRAWING {
            self.state = GameplayState::DEFENDING;
            Some(PhaseSignal::StartWave)
        } else {
            None
        }
    }

    /// The player dies: `DRAWING` or `DEFENDING` to `DEAD`.
    pub fn die(&mut self) -> (r: Option<PhaseSignal>)
        ensures
            step_taken(old(self).view_state(), PhaseEvent::Die, final(self).view_state(), r),
    {
        if self.state == GameplayState::DEFENDING || self.state == GameplayState::DRAWING {
            self.state = GameplayState::DEAD;
            Some(PhaseSignal::Death)
        } else {
            None
        }
    }

    /// The player wins: `DEFENDING` to `SUCCESS`.
    pub fn win(&mut self) -> (r: Option<PhaseSignal>)
        ensures
            step_taken(old(self).view_state(), PhaseEvent::Win, final(self).view_state(), r),
    {
        if self.state == GameplayState::DEFENDING {
            self.state = GameplayState::SUCCESS;
            Some(PhaseSignal::Win)
        } else {
            None
        }
    }

    /// The current phase.
    pub fn get_state(&self) -> (r: GameplayState)
        ensures
            r == self.view_state(),
    {
        self.state
    }

    /// Whether the drawing-only controls are shown: exactly while drawing.
    pub fn drawing_controls_visible(&self) -> (r: bool)
        ensures
            r == (self.view_state() == GameplayState::DRAWING),
    {
        self.state == GameplayState::DRAWING
    }
}

/// `DEAD` and `SUCCESS` are terminal: every request made in them is
/// rejected, leaving the phase as it is and raising no notification.
pub proof fn lemma_terminal_phases(s: GameplayState, e: PhaseEvent)
    requires
        s == GameplayState::DEAD || s == GameplayState::SUCCESS,
    ensures
        phase_step(s, e).is_none(),
        forall|after: GameplayState, r: Option<PhaseSignal>|
            step_taken(s, e, after, r) <==> (after == s && r.is_none()),
{
}

} // verus!
