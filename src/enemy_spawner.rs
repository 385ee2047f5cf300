//! Enemy waves: spawners that release enemies at an interval while the
//! player defends, the path whose end hurts the player, and the check that
//! a wave is won.

use vstd::prelude::*;
use crate::ingame_state_tracker::{GameplayState, IngameStateTracker, PhaseEvent, PhaseSignal, step_taken};
use crate::player_health::{DamageReport, PlayerHealth, health_after};

verus! {

/// What a spawner did in one tick.
#[derive(PartialEq, Eq, Structural, Clone, Copy, Debug)]
pub struct SpawnTick {
    /// An enemy is released.
    pub spawn: bool,
    /// That was the last one: spawners waiting on this one may start.
    pub finished: bool,
}

/// Releases `spawns_left` enemies, one each time more than `interval`
/// units of time have passed in the defending phase. A spawner that waits
/// on another starts disabled.
pub struct EnemySpawner {
    pub interval: u64,
    pub timer: u64,
    pub enabled: bool,
    pub spawns_left: u32,
}

impl EnemySpawner {
    /// A spawner with `spawns_left` enemies; `waits` when it starts only
    /// after another has finished.
    pub fn new(interval: u64, spawns_left: u32, waits: bool) -> (r: Self)
        ensures
            r.interval == interval,
            r.timer == 0,
            r.enabled == !waits,
            r.spawns_left == spawns_left,
    {
        EnemySpawner { interval, timer: 0, enabled: !waits, spawns_left }
    }

    /// Whether every enemy has been released.
    pub fn is_done(&self) -> (r: bool)
        ensures
            r == (self.spawns_left == 0),
    {
        self.spawns_left == 0
    }

    /// The spawner waited on has finished: this one starts.
    pub fn on_spawning_end(&mut self)
        ensures
            final(self).enabled,
            final(self).interval == old(self).interval,
            final(self).timer == old(self).timer,
            final(self).spawns_left == old(self).spawns_left,
    {
        self.enabled = true;
    }

    /// One physics tick of `delta` units of time in phase `state`.
    pub fn physics_process(&mut self, state: GameplayState, delta: u64) -> (r: SpawnTick)
        ensures
            final(self).interval == old(self).interval,
            final(self).enabled == old(self).enabled,
            (state != GameplayState::DEFENDING || !old(self).enabled || old(self).spawns_left == 0)
                ==> *final(self) == *old(self) && !r.spawn && !r.finished,
            (state == GameplayState::DEFENDING && old(self).enabled && old(self).spawns_left > 0) ==> {
                let t = old(self).timer + delta;
                if t > old(self).interval {
                    &&& r.spawn
                    &&& final(self).timer == 0
                    &&& final(self).spawns_left == old(self).spawns_left - 1
                    &&& r.finished == (final(self).spawns_left == 0)
                } else {
                    &&& !r.spawn
                    &&& !r.finished
                    &&& final(self).timer == t
                    &&& final(self).spawns_left == old(self).spawns_left
                }
            },
    {
        let idle = SpawnTick { spawn: false, finished: false };
        if state != GameplayState::DEFENDING {
            return idle;
        }
        if !self.enabled {
            return idle;
        }
        if self.is_done() {
            return idle;
        }
        if delta > self.interval || self.timer > self.interval - delta {
            self.timer = 0;
            self.spawns_left -= 1;
            SpawnTick { spawn: true, finished: self.is_done() }
        } else {
            self.timer = self.timer + delta;
            idle
        }
    }
}

/// Number of spawners in `s` that still have enemies to release.
pub open spec fn active_count(s: Seq<EnemySpawner>) -> int
    decreases s.len(),
{
    if s.len() == 0 {
        0
    } else {
        active_count(s.drop_last()) + if s.last().spawns_left > 0 {
            1int
        } else {
            0int
        }
    }
}

/// Tracks the progress of a wave over its spawners.
pub struct EnemySpawnerProgressTracker;

impl EnemySpawnerProgressTracker {
    /// Number of spawners still releasing enemies.
    pub fn active_spawners(spawners: &Vec<EnemySpawner>) -> (r: usize)
        ensures
            r == active_count(spawners@),
    {
        let mut active: usize = 0;
        let mut i: usize = 0;
        while i < spawners.len()
            invariant
                i <= spawners@.len(),
                active == active_count(spawners@.take(i as int)),
                active <= i,
            decreases spawners@.len() - i,
        {
            assert(spawners@.take(i + 1).drop_last() == spawners@.take(i as int));
            if !spawners[i].is_done() {
                active += 1;
            }
            i += 1;
        }
        assert(spawners@.take(spawners@.len() as int) == spawners@);
        active
    }

    /// One physics tick: the wave is won once no spawner has enemies left
    /// and no enemy remains in the goal area (`overlapping_areas`). Returns
    /// the number of active spawners and the notification of the win.
    pub fn physics_process(spawners: &Vec<EnemySpawner>, overlapping_areas: usize, game_state: &mut IngameStateTracker) -> (r: (usize, Option<PhaseSignal>))
        ensures
            r.0 == active_count(spawners@),
            (r.0 == 0 && overlapping_areas == 0) ==> step_taken(
                old(game_state).view_state(),
                PhaseEvent::Win,
                final(game_state).view_state(),
                r.1,
            ),
            !(r.0 == 0 && overlapping_areas == 0) ==> *final(game_state) == *old(game_state) && r.1.is_none(),
    {
        let active = Self::active_spawners(spawners);
        if active == 0 && overlapping_areas == 0 {
            (active, game_state.win())
        } else {
            (active, None)
        }
    }
}

/// The path enemies walk; reaching its end hurts the player.
pub struct EnemyPath;

impl EnemyPath {
    /// An enemy reached the end of the path: the player loses one health.
    pub fn hit_player(&self, player_health: &mut PlayerHealth, game_state: &mut IngameStateTracker) -> (r: DamageReport)
        ensures
            final(player_health).health == health_after(old(player_health).health as int, 1),
            final(player_health).max_health == old(player_health).max_health,
            r.depleted == (final(player_health).health <= 0),
            r.depleted ==> step_taken(
                old(game_state).view_state(),
                PhaseEvent::Die,
                final(game_state).view_state(),
                r.signal,
            ),
            !r.depleted ==> *final(game_state) == *old(game_state) && r.signal.is_none(),
    {
        player_health.take_damage(1, game_state)
    }
}

} // verus!
