//! The energy pool that pays for placed patterns: it regenerates while the
//! player defends and is debited by each placement.

use vstd::prelude::*;
use crate::ingame_state_tracker::GameplayState;

verus! {

/// The balance after asking to spend `cost` out of `current`: debited when
/// affordable, unchanged otherwise.
pub open spec fn balance_after_use(current: int, cost: int) -> int {
    if cost <= current {
        current - cost
    } else {
        current
    }
}

/// The balance after asking to spend each of `costs` in turn.
pub open spec fn balance_after_uses(current: int, costs: Seq<int>) -> int
    decreases costs.len(),
{
    if costs.len() == 0 {
        current
    } else {
        balance_after_use(balance_after_uses(current, costs.drop_last()), costs.last())
    }
}

/// An energy pool with `0 <= current <= max`, regenerating a fixed amount
/// each time a fixed amount of time has passed in the defending phase.
/// Time is counted in whole units chosen by the caller.
pub struct PlayerEnergy {
    energy: i32,
    max_energy: i32,
    energy_timer: u64,
    energy_interval: u64,
    energy_per_interval: i32,
}

impl PlayerEnergy {
    pub closed spec fn current(&self) -> int {
        self.energy as int
    }

    pub closed spec fn max(&self) -> int {
        self.max_energy as int
    }

    /// Time accumulated towards the next regeneration.
    pub closed spec fn timer(&self) -> int {
        self.energy_timer as int
    }

    pub closed spec fn interval(&self) -> int {
        self.energy_interval as int
    }

    pub closed spec fn per_interval(&self) -> int {
        self.energy_per_interval as int
    }

    /// The pool's invariant.
    pub open spec fn wf(&self) -> bool {
        &&& 0 <= self.current() <= self.max()
        &&& 0 <= self.per_interval()
    }

    /// A pool holding `energy` out of `max_energy`, gaining
    /// `energy_per_interval` every `energy_interval` units of time.
    pub fn new(energy: i32, max_energy: i32, energy_interval: u64, energy_per_interval: i32) -> (r:
        Self)
        requires
            0 <= energy <= max_energy,
            0 <= energy_per_interval,
        ensures
            r.wf(),
            r.current() == energy,
            r.max() == max_energy,
            r.timer() == 0,
            r.interval() == energy_interval,
            r.per_interval() == energy_per_interval,
    {
        PlayerEnergy { energy, max_energy, energy_timer: 0, energy_interval, energy_per_interval }
    }

    /// The balance.
    pub fn get_energy(&self) -> (r: i32)
        ensures
            r == self.current(),
    {
        self.energy
    }

    /// The largest balance.
    pub fn get_max_energy(&self) -> (r: i32)
        ensures
            r == self.max(),
    {
        self.max_energy
    }

    /// Whether `cost` is affordable.
    pub fn can_use(&self, cost: i32) -> (r: bool)
        ensures
            r == (cost <= self.current()),
    {
        cost <= self.energy
    }

    /// Spends `cost` if it is affordable, in one check-and-debit; reports
    /// whether it was spent.
    pub fn try_use(&mut self, cost: i32) -> (r: bool)
        requires
            old(self).wf(),
            0 <= cost,
        ensures
            final(self).wf(),
            r == (cost <= old(self).current()),
            final(self).current() == balance_after_use(old(self).current(), cost as int),
            final(self).max() == old(self).max(),
            final(self).timer() == old(self).timer(),
            final(self).interval() == old(self).interval(),
            final(self).per_interval() == old(self).per_interval(),
    {
        if cost <= self.energy {
            self.energy -= cost;
            return true;
        }
        false
    }

    /// Adds `amount`, clamped to the maximum.
    pub fn gain_energy(&mut self, amount: i32)
        requires
            old(self).wf(),
            0 <= amount,
        ensures
            final(self).wf(),
            final(self).current() == if old(self).current() + amount <= old(self).max() {
                old(self).current() + amount
            } else {
                old(self).max()
            },
            final(self).max() == old(self).max(),
            final(self).timer() == old(self).timer(),
            final(self).interval() == old(self).interval(),
            final(self).per_interval() == old(self).per_interval(),
    {
        let sum: i64 = self.energy as i64 + amount as i64;
        if sum <= self.max_energy as i64 {
            self.energy = sum as i32;
        } else {
            self.energy = self.max_energy;
        }
    }

    /// One physics tick of `delta` time units in phase `state`. Only while
    /// defending does time accumulate; once it reaches the interval the
    /// pool gains its regeneration (if below the maximum) and the
    /// accumulated time restarts from zero.
    pub fn physics_process(&mut self, state: GameplayState, delta: u64)
        requires
            old(self).wf(),
        ensures
            final(self).wf(),
            final(self).max() == old(self).max(),
            final(self).interval() == old(self).interval(),
            final(self).per_interval() == old(self).per_interval(),
            state != GameplayState::DEFENDING ==> *final(self) == *old(self),
            state == GameplayState::DEFENDING && old(self).timer() + delta < old(self).interval()
                ==> final(self).timer() == old(self).timer() + delta && final(self).current()
                == old(self).current(),
            state == GameplayState::DEFENDING && old(self).timer() + delta >= old(self).interval()
                ==> final(self).timer() == 0 && final(self).current() == if old(self).current()
                + old(self).per_interval() <= old(self).max() {
                old(self).current() + old(self).per_interval()
            } else {
                old(self).max()
            },
    {
        if state != GameplayState::DEFENDING {
            return;
        }
        self.energy_timer = self.energy_timer.saturating_add(delta);
        if self.energy_timer >= self.energy_interval {
            if self.energy < self.max_energy {
                self.gain_energy(self.energy_per_interval);
            }
            self.energy_timer = 0;
        }
    }
}

/// Whatever costs are asked for in turn, none negative, a balance that
/// starts within `[0, max]` stays within it.
pub proof fn lemma_energy_stays_in_bounds(current: int, max: int, costs: Seq<int>)
    requires
        0 <= current <= max,
        forall|i: int| 0 <= i < costs.len() ==> 0 <= #[trigger] costs[i],
    ensures
        0 <= balance_after_uses(current, costs) <= max,
    decreases costs.len(),
{
    if costs.len() > 0 {
        lemma_energy_stays_in_bounds(current, max, costs.drop_last());
    }
}

} // verus!
