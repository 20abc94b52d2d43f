//! A single agent: strategy, health, and the two per-agent timers.

use vstd::prelude::*;

use crate::rng::random_in_range;
use crate::sizing::spec_scale_milli;
use crate::sizing::scale_milli;
use crate::sizing::HEALTH_SCALE_LIMIT;
use crate::strategy::spec_payoff;
use crate::strategy::payoff;
use crate::strategy::PersonalityType;

verus! {

/// Largest component speed an agent may be given, in thousandths of a world
/// unit per second (15 units/s).
pub const MAX_SPEED_MILLI: i64 = 15000;

/// Shortest wait between two velocity changes, in milliseconds (3 s).
pub const MIN_WAIT_MS: u64 = 3000;

/// The wait between two velocity changes stays below this, in milliseconds (5 s).
pub const MAX_WAIT_MS: u64 = 5000;

/// How often an agent resolves its contacts, in milliseconds (0.5 s).
pub const CONTACT_INTERVAL_MS: u64 = 500;

/// Move timer a fresh agent starts with, in milliseconds.
pub const INITIAL_MOVE_TIMER_MS: u64 = 2000;

/// Move interval a fresh agent starts with, in milliseconds; it is
/// re-randomized the first time it elapses.
pub const INITIAL_MOVE_INTERVAL_MS: u64 = 1000;

/// Contact timer a fresh agent starts with, in milliseconds: already past
/// the contact interval, so the first tick resolves contacts at once.
pub const INITIAL_CONTACT_TIMER_MS: u64 = 1000;

/// Largest time step one tick may advance the simulation by, in
/// milliseconds: keeps every timer addition well inside `u64`.
pub const MAX_TICK_MS: u64 = 1_000_000_000;

/// One simulated agent. Health drives liveness, size and the population
/// totals; the timers schedule random velocity changes and contact
/// resolution. Positions and velocities themselves live with the host's
/// spatial world; the agent only remembers the speeds it last requested.
#[derive(Clone, Copy, Debug, PartialEq, Eq, Structural)]
pub struct Bugsters {
    pub healthpoints: i64,
    pub personality: PersonalityType,
    pub speed: i64,
    pub x_speed: i64,
    pub y_speed: i64,
    pub move_time_since_last_change: u64,
    pub move_change_interval: u64,
    pub collision_time_since_last_change: u64,
    pub collision_change_interval: u64,
}

/// The clamp of one contact's raw payoff at the resolving agent's current
/// health: the larger of the raw delta and the loss that would take the
/// health exactly to zero. A single contact never pushes health below zero.
pub open spec fn spec_applied_delta(raw: int, health: int) -> int {
    if raw >= -health {
        raw
    } else {
        -health
    }
}

/// The state every freshly spawned agent starts in: standing still, both
/// timers already ahead of their first interval.
pub open spec fn spec_new_bugster(healthpoints: i64, personality: PersonalityType) -> Bugsters {
    Bugsters {
        healthpoints,
        personality,
        speed: MAX_SPEED_MILLI,
        x_speed: 0,
        y_speed: 0,
        move_time_since_last_change: INITIAL_MOVE_TIMER_MS,
        move_change_interval: INITIAL_MOVE_INTERVAL_MS,
        collision_time_since_last_change: INITIAL_CONTACT_TIMER_MS,
        collision_change_interval: CONTACT_INTERVAL_MS,
    }
}

/// How one tick of `dt` milliseconds relates an agent's state after the
/// tick to its state before it: health, personality and speed budget are
/// untouched; each timer either accumulates `dt` or, having reached its
/// interval, resets. A move timer that fires leaves behind a freshly drawn
/// velocity within the speed budget and a fresh interval within the
/// waiting window; which values were drawn is the random source's affair.
pub open spec fn spec_tick_step(o: Bugsters, n: Bugsters, dt: u64) -> bool {
    &&& n.healthpoints == o.healthpoints
    &&& n.personality == o.personality
    &&& n.speed == o.speed
    &&& n.collision_change_interval == o.collision_change_interval
    &&& (o.contact_due(dt) ==> n.collision_time_since_last_change == 0)
    &&& (!o.contact_due(dt) ==> n.collision_time_since_last_change
        == o.collision_time_since_last_change + dt)
    &&& (!o.move_due(dt) ==> n.move_time_since_last_change == o.move_time_since_last_change + dt
        && n.move_change_interval == o.move_change_interval && n.x_speed == o.x_speed && n.y_speed
        == o.y_speed)
    &&& (o.move_due(dt) ==> n.move_time_since_last_change == 0 && MIN_WAIT_MS
        <= n.move_change_interval < MAX_WAIT_MS && -MAX_SPEED_MILLI <= n.x_speed <= MAX_SPEED_MILLI
        && vstd::math::abs(n.y_speed as int) <= MAX_SPEED_MILLI - vstd::math::abs(n.x_speed as int))
}

/// The clamp bounds every applied delta: whatever the raw payoff, the
/// delta a contact actually applies never exceeds the agent's current
/// health in loss, so an agent entering a contact with nonnegative health
/// leaves it with nonnegative health.
pub proof fn lemma_applied_delta_bounds(raw: int, health: int)
    ensures
        spec_applied_delta(raw, health) >= -health,
        spec_applied_delta(raw, health) >= raw,
        health >= 0 ==> health + spec_applied_delta(raw, health) >= 0,
        health + spec_applied_delta(raw, health) == health + raw || health + spec_applied_delta(
            raw,
            health,
        ) == 0,
{
}

impl Bugsters {
    /// Timer and speed sanity: every constructed agent satisfies this and
    /// every operation preserves it.
    pub open spec fn wf(self) -> bool {
        &&& self.speed == MAX_SPEED_MILLI
        &&& -MAX_SPEED_MILLI <= self.x_speed <= MAX_SPEED_MILLI
        &&& vstd::math::abs(self.y_speed as int)
            <= MAX_SPEED_MILLI - vstd::math::abs(self.x_speed as int)
        &&& self.move_change_interval <= MAX_WAIT_MS
        &&& self.move_time_since_last_change <= MAX_WAIT_MS
        &&& self.collision_change_interval == CONTACT_INTERVAL_MS
        &&& self.collision_time_since_last_change <= INITIAL_CONTACT_TIMER_MS
    }

    /// The move timer elapses during a tick of `dt` milliseconds.
    pub open spec fn move_due(self, dt: u64) -> bool {
        self.move_time_since_last_change + dt >= self.move_change_interval
    }

    /// The contact timer elapses during a tick of `dt` milliseconds.
    pub open spec fn contact_due(self, dt: u64) -> bool {
        self.collision_time_since_last_change + dt >= self.collision_change_interval
    }

    /// Creates an agent with the given health and personality, standing
    /// still, with both timers already ahead of their first interval so the
    /// agent moves and resolves contacts on its first tick.
    pub fn new(healthpoints: i64, personality: PersonalityType) -> (b: Bugsters)
        ensures
            b.wf(),
            b == spec_new_bugster(healthpoints, personality),
    {
        Bugsters {
            healthpoints,
            personality,
            speed: MAX_SPEED_MILLI,
            x_speed: 0,
            y_speed: 0,
            move_time_since_last_change: INITIAL_MOVE_TIMER_MS,
            move_change_interval: INITIAL_MOVE_INTERVAL_MS,
            collision_time_since_last_change: INITIAL_CONTACT_TIMER_MS,
            collision_change_interval: CONTACT_INTERVAL_MS,
        }
    }

    /// Looks up the payoff table for this agent against the given opponent
    /// personality. Reads only the two strategies; changes nothing.
    pub fn health_calculation(&mut self, contact_personality: &PersonalityType) -> (delta: i64)
        ensures
            *final(self) == *old(self),
            delta == spec_payoff(old(self).personality, *contact_personality),
    {
        payoff(self.personality, *contact_personality)
    }

    /// Resolves one contact against an opponent of the given personality:
    /// looks up the raw payoff, clamps the loss at the current health, and
    /// applies the clamped delta. Returns the applied delta, which is what
    /// the population ledger must be adjusted by.
    pub fn apply_payoff(&mut self, contact_personality: &PersonalityType) -> (applied: i64)
        requires
            i64::MIN + 4 <= old(self).healthpoints <= i64::MAX - 4,
        ensures
            applied == spec_applied_delta(
                spec_payoff(old(self).personality, *contact_personality),
                old(self).healthpoints as int,
            ),
            applied >= -old(self).healthpoints,
            final(self).healthpoints == old(self).healthpoints + applied,
            old(self).healthpoints >= 0 ==> final(self).healthpoints >= 0,
            *final(self) == (Bugsters { healthpoints: final(self).healthpoints, ..*old(self) }),
    {
        let raw = payoff(self.personality, *contact_personality);
        let floor = -self.healthpoints;
        let applied = if raw >= floor {
            raw
        } else {
            floor
        };
        self.healthpoints = self.healthpoints + applied;
        applied
    }

    /// The render scale this agent's current health calls for, in
    /// thousandths of a world unit; the host applies it to the sprite and
    /// to both collider regions.
    pub fn change_size(&self) -> (scale: i64)
        requires
            -HEALTH_SCALE_LIMIT <= self.healthpoints <= HEALTH_SCALE_LIMIT,
        ensures
            scale == spec_scale_milli(self.healthpoints as int),
    {
        scale_milli(self.healthpoints)
    }

    /// Advances the move timer by `dt_ms`. If it reaches the current
    /// interval: draws a fresh random velocity whose component magnitudes
    /// stay within the speed budget, resets the timer, re-randomizes the
    /// interval within the waiting window, and returns the velocity for the
    /// host to apply as an impulse. Otherwise returns nothing.
    pub fn update_movement(&mut self, dt_ms: u64) -> (impulse: Option<(i64, i64)>)
        requires
            old(self).wf(),
            dt_ms <= MAX_TICK_MS,
        ensures
            final(self).wf(),
            final(self).healthpoints == old(self).healthpoints,
            final(self).personality == old(self).personality,
            final(self).speed == old(self).speed,
            final(self).collision_time_since_last_change
                == old(self).collision_time_since_last_change,
            final(self).collision_change_interval == old(self).collision_change_interval,
            !old(self).move_due(dt_ms) ==> {
                &&& impulse is None
                &&& *final(self) == (Bugsters {
                    move_time_since_last_change: (old(self).move_time_since_last_change
                        + dt_ms) as u64,
                    ..*old(self)
                })
            },
            old(self).move_due(dt_ms) ==> {
                &&& impulse == Some((final(self).x_speed, final(self).y_speed))
                &&& final(self).move_time_since_last_change == 0
                &&& MIN_WAIT_MS <= final(self).move_change_interval < MAX_WAIT_MS
                &&& -MAX_SPEED_MILLI <= final(self).x_speed <= MAX_SPEED_MILLI
                &&& vstd::math::abs(final(self).y_speed as int)
                    <= MAX_SPEED_MILLI - vstd::math::abs(final(self).x_speed as int)
            },
    {
        let timer = self.move_time_since_last_change + dt_ms;
        if timer >= self.move_change_interval {
            let x = random_in_range(-MAX_SPEED_MILLI, MAX_SPEED_MILLI);
            let u = random_in_range(-1000, 1000);
            let xa: u64 = if x < 0 {
                (-x) as u64
            } else {
                x as u64
            };
            let ua: u64 = if u < 0 {
                (-u) as u64
            } else {
                u as u64
            };
            let rem: u64 = (MAX_SPEED_MILLI as u64) - xa;
            proof {
                assert(ua * rem <= 1000 * rem && 1000 * rem <= 15_000_000) by (nonlinear_arith)
                    requires
                        0 <= ua <= 1000,
                        0 <= rem <= 15000,
                ;
            }
            let mag: u64 = (ua * rem) / 1000;
            proof {
                vstd::arithmetic::div_mod::lemma_div_is_ordered(
                    (ua * rem) as int,
                    (1000 * rem) as int,
                    1000,
                );
                vstd::arithmetic::div_mod::lemma_div_multiples_vanish(rem as int, 1000);
            }
            let y: i64 = if u < 0 {
                -(mag as i64)
            } else {
                mag as i64
            };
            self.x_speed = x;
            self.y_speed = y;
            self.move_time_since_last_change = 0;
            let interval = random_in_range(MIN_WAIT_MS as i64, (MAX_WAIT_MS as i64) - 1);
            self.move_change_interval = interval as u64;
            Some((self.x_speed, self.y_speed))
        } else {
            self.move_time_since_last_change = timer;
            None
        }
    }

    /// Advances the contact timer by `dt_ms` and reports whether it reached
    /// the contact interval; if so the timer is reset and the caller owes
    /// this agent a contact-resolution pass.
    pub fn update_contact_timer(&mut self, dt_ms: u64) -> (due: bool)
        requires
            old(self).wf(),
            dt_ms <= MAX_TICK_MS,
        ensures
            final(self).wf(),
            due == old(self).contact_due(dt_ms),
            due ==> *final(self) == (Bugsters {
                collision_time_since_last_change: 0,
                ..*old(self)
            }),
            !due ==> *final(self) == (Bugsters {
                collision_time_since_last_change: (old(self).collision_time_since_last_change
                    + dt_ms) as u64,
                ..*old(self)
            }),
    {
        let timer = self.collision_time_since_last_change + dt_ms;
        if timer >= self.collision_change_interval {
            self.collision_time_since_last_change = 0;
            true
        } else {
            self.collision_time_since_last_change = timer;
            false
        }
    }
}

} // verus!
