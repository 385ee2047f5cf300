//! Health: the player's, whose running out ends the match, and that of
//! anything else that can be damaged.

use vstd::prelude::*;
use crate::ingame_state_tracker::{IngameStateTracker, PhaseEvent, PhaseSignal, step_taken};

verus! {

/// `current - amount`, held within the `i32` range.
pub open spec fn health_after(current: int, amount: int) -> int {
    let h = current - amount;
    if h < i32::MIN {
        i32::MIN as int
    } else if h > i32::MAX {
        i32::MAX as int
    } else {
        h
    }
}

fn saturating_damage(current: i32, amount: i32) -> (r: i32)
    ensures
        r == health_after(current as int, amount as int),
{
    let h: i64 = current as i64 - amount as i64;
    if h < i32::MIN as i64 {
        i32::MIN
    } else if h > i32::MAX as i64 {
        i32::MAX
    } else {
        h as i32
    }
}

/// What a hit on the player did.
#[derive(PartialEq, Eq, Structural, Clone, Copy, Debug)]
pub struct DamageReport {
    /// The player's health is used up.
    pub depleted: bool,
    /// The notification of the phase change the hit caused, if any.
    pub signal: Option<PhaseSignal>,
}

/// The player's health.
pub struct PlayerHealth {
    pub max_health: i32,
    pub health: i32,
}

impl PlayerHealth {
    /// Health at `max_health`.
    pub fn new(max_health: i32) -> (r: Self)
        ensures
            r.max_health == max_health,
            r.health == max_health,
    {
        PlayerHealth { max_health, health: max_health }
    }

    /// Setup: health starts full.
    pub fn ready(&mut self)
        ensures
            final(self).health == old(self).max_health,
            final(self).max_health == old(self).max_health,
    {
        self.health = self.max_health;
    }

    /// Takes `amount` of health away; once none is left the player dies.
    pub fn take_damage(&mut self, amount: i32, game_state: &mut IngameStateTracker) -> (r: DamageReport)
        ensures
            final(self).health == health_after(old(self).health as int, amount as int),
            final(self).max_health == old(self).max_health,
            r.depleted == (final(self).health <= 0),
            r.depleted ==> step_taken(
                old(game_state).view_state(),
                PhaseEvent::Die,
                final(game_state).view_state(),
                r.signal,
            ),
            !r.depleted ==> *final(game_state) == *old(game_state) && r.signal.is_none(),
    {
        self.health = saturating_damage(self.health, amount);
        if self.health <= 0 {
            let signal = game_state.die();
            DamageReport { depleted: true, signal }
        } else {
            DamageReport { depleted: false, signal: None }
        }
    }
}

/// Health of something that a hit can destroy.
pub struct Damageable {
    pub max_health: i32,
    pub current_health: i32,
}

impl Damageable {
    /// Takes `amount` of health away; returns whether the hit destroys
    /// its owner, which it does when `amount` is at least the health left.
    pub fn take_damage(&mut self, amount: i32) -> (r: bool)
        ensures
            r == (amount >= old(self).current_health),
            final(self).current_health == health_after(old(self).current_health as int, amount as int),
            final(self).max_health == old(self).max_health,
    {
        let destroyed = amount >= self.current_health;
        self.current_health = saturating_damage(self.current_health, amount);
        destroyed
    }
}

} // verus!
