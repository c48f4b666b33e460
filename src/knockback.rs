//! Transient, self-expiring displacement impulses.
//!
//! A knockback is never removed to stop it: once its timer has run out,
//! stepping it moves nothing.
use vstd::prelude::*;
use crate::geometry::{Dir3, Vec3i};

verus! {

/// How long a knockback pushes, in microseconds.
pub const KNOCKBACK_DURATION: u64 = 200_000;

/// Largest component of a knockback velocity, in millimetres per second.
pub const MAX_KNOCKBACK_SPEED: i64 = 65_535_000;

/// A velocity that applies for a bounded time.
#[derive(Clone, Copy, Debug, PartialEq, Eq, Structural)]
pub struct Knockback {
    /// Velocity in millimetres per second.
    pub velocity: Vec3i,
    /// Time run so far, in microseconds; never more than `duration`.
    pub elapsed: u64,
    /// Total time of the impulse, in microseconds.
    pub duration: u64,
}

/// A velocity component within `MAX_KNOCKBACK_SPEED`.
pub open spec fn speed_ok(v: i64) -> bool {
    -MAX_KNOCKBACK_SPEED <= v <= MAX_KNOCKBACK_SPEED
}

/// The knockback after `dt` more microseconds: its timer stops at the duration.
pub open spec fn advanced(k: Knockback, dt: int) -> Knockback {
    Knockback {
        elapsed: if k.elapsed + dt >= k.duration {
            k.duration
        } else {
            (k.elapsed + dt) as u64
        },
        ..k
    }
}

/// How far a step of `dt` microseconds moves, in nanometres: the whole
/// step at the knockback's velocity while the timer has not run out
/// after it, nothing otherwise.
pub open spec fn step_displacement(k: Knockback, dt: int) -> Vec3i {
    if k.elapsed + dt < k.duration {
        Vec3i {
            x: (k.velocity.x * dt) as i64,
            y: (k.velocity.y * dt) as i64,
            z: (k.velocity.z * dt) as i64,
        }
    } else {
        Vec3i { x: 0, y: 0, z: 0 }
    }
}

/// Knockback pushing along `dir` flattened onto the ground plane.
pub open spec fn started(dir: Dir3, power: u16) -> Knockback {
    Knockback {
        velocity: Vec3i { x: (dir.x * power) as i64, y: 0, z: (dir.z * power) as i64 },
        elapsed: 0,
        duration: KNOCKBACK_DURATION,
    }
}

/// Time spent moving over a run of steps.
pub open spec fn moving_time(k: Knockback, dts: Seq<u32>) -> int
    decreases dts.len(),
{
    if dts.len() == 0 {
        0
    } else {
        let dt = dts[0] as int;
        (if k.elapsed + dt < k.duration {
            dt
        } else {
            0
        }) + moving_time(advanced(k, dt), dts.drop_first())
    }
}

/// The knockback after a run of steps.
pub open spec fn run(k: Knockback, dts: Seq<u32>) -> Knockback
    decreases dts.len(),
{
    if dts.len() == 0 {
        k
    } else {
        run(advanced(k, dts[0] as int), dts.drop_first())
    }
}

impl Knockback {
    /// The timer is within the duration, the duration within
    /// `KNOCKBACK_DURATION` and the velocity within bounds.
    pub open spec fn wf(self) -> bool {
        &&& self.elapsed <= self.duration
        &&& self.duration <= KNOCKBACK_DURATION
        &&& speed_ok(self.velocity.x)
        &&& speed_ok(self.velocity.y)
        &&& speed_ok(self.velocity.z)
    }

    /// The timer has run out.
    pub open spec fn finished(self) -> bool {
        self.elapsed >= self.duration
    }

    /// A knockback along the strike direction `dir` flattened onto the
    /// ground plane and scaled by `power` (metres per second), for
    /// `KNOCKBACK_DURATION`.
    pub fn start(dir: Dir3, power: u16) -> (r: Knockback)
        requires
            dir.valid(),
        ensures
            r == started(dir, power),
            r.wf(),
    {
        proof {
            assert(-65_535_000 <= dir.x * power <= 65_535_000) by (nonlinear_arith)
                requires
                    -1000 <= dir.x <= 1000,
                    0 <= power <= 65535,
            ;
            assert(-65_535_000 <= dir.z * power <= 65_535_000) by (nonlinear_arith)
                requires
                    -1000 <= dir.z <= 1000,
                    0 <= power <= 65535,
            ;
        }
        Knockback {
            velocity: Vec3i {
                x: dir.x as i64 * power as i64,
                y: 0,
                z: dir.z as i64 * power as i64,
            },
            elapsed: 0,
            duration: KNOCKBACK_DURATION,
        }
    }

    /// Whether the timer has run out.
    pub fn is_finished(&self) -> (r: bool)
        ensures
            r == self.finished(),
    {
        self.elapsed >= self.duration
    }

    /// Runs the timer for `dt` microseconds and returns how far that step
    /// moves the entity, in nanometres.
    pub fn advance(&mut self, dt: u32) -> (d: Vec3i)
        requires
            old(self).wf(),
        ensures
            *final(self) == advanced(*old(self), dt as int),
            final(self).wf(),
            d == step_displacement(*old(self), dt as int),
    {
        let moving = (self.duration - self.elapsed) > dt as u64;
        if moving {
            self.elapsed = self.elapsed + dt as u64;
        } else {
            self.elapsed = self.duration;
        }
        if moving {
            proof {
                let v = self.velocity;
                assert(-65_535_000 * 4_294_967_295 <= v.x * dt <= 65_535_000 * 4_294_967_295)
                    by (nonlinear_arith)
                    requires
                        -65_535_000 <= v.x <= 65_535_000,
                        0 <= dt <= 4_294_967_295,
                ;
                assert(-65_535_000 * 4_294_967_295 <= v.y * dt <= 65_535_000 * 4_294_967_295)
                    by (nonlinear_arith)
                    requires
                        -65_535_000 <= v.y <= 65_535_000,
                        0 <= dt <= 4_294_967_295,
                ;
                assert(-65_535_000 * 4_294_967_295 <= v.z * dt <= 65_535_000 * 4_294_967_295)
                    by (nonlinear_arith)
                    requires
                        -65_535_000 <= v.z <= 65_535_000,
                        0 <= dt <= 4_294_967_295,
                ;
            }
            Vec3i {
                x: self.velocity.x * dt as i64,
                y: self.velocity.y * dt as i64,
                z: self.velocity.z * dt as i64,
            }
        } else {
            Vec3i { x: 0, y: 0, z: 0 }
        }
    }
    /// Runs the steps `dts` in order and returns the total displacement,
    /// in nanometres: the velocity times the time spent moving, which is
    /// the sum of the steps that end before the duration.
    pub fn advance_all(&mut self, dts: &Vec<u32>) -> (d: Vec3i)
        requires
            old(self).wf(),
        ensures
            final(self).wf(),
            *final(self) == run(*old(self), dts@),
            d.x == old(self).velocity.x * moving_time(*old(self), dts@),
            d.y == old(self).velocity.y * moving_time(*old(self), dts@),
            d.z == old(self).velocity.z * moving_time(*old(self), dts@),
    {
        let ghost k0 = *self;
        let ghost v = self.velocity;
        let ghost mut moved: int = 0;
        let mut total = Vec3i { x: 0, y: 0, z: 0 };
        let mut i: usize = 0;
        proof {
            assert(dts@.subrange(0, dts@.len() as int) =~= dts@);
            knockback_moves_within_duration(k0, dts@);
        }
        while i < dts.len()
            invariant
                self.wf(),
                self.velocity == v,
                k0.wf(),
                i <= dts@.len(),
                run(*self, dts@.subrange(i as int, dts@.len() as int)) == run(k0, dts@),
                moving_time(k0, dts@) == moved + moving_time(
                    *self,
                    dts@.subrange(i as int, dts@.len() as int),
                ),
                0 <= moved <= moving_time(k0, dts@) <= KNOCKBACK_DURATION,
                total.x == v.x * moved,
                total.y == v.y * moved,
                total.z == v.z * moved,
            decreases dts@.len() - i,
        {
            let ghost before = *self;
            let ghost rest = dts@.subrange(i as int, dts@.len() as int);
            let ghost dt = dts@[i as int] as int;
            proof {
                assert(rest.drop_first() =~= dts@.subrange(i + 1, dts@.len() as int));
                assert(rest[0] == dts@[i as int]);
                knockback_moves_within_duration(advanced(before, dt), rest.drop_first());
            }
            let step = self.advance(dts[i]);
            let ghost m = if before.elapsed + dt < before.duration {
                dt
            } else {
                0
            };
            proof {
                assert(moved + m <= KNOCKBACK_DURATION);
                assert(-65_535_000 * 200_000 <= v.x * (moved + m) <= 65_535_000 * 200_000)
                    by (nonlinear_arith)
                    requires
                        -65_535_000 <= v.x <= 65_535_000,
                        0 <= moved + m <= 200_000,
                ;
                assert(-65_535_000 * 200_000 <= v.y * (moved + m) <= 65_535_000 * 200_000)
                    by (nonlinear_arith)
                    requires
                        -65_535_000 <= v.y <= 65_535_000,
                        0 <= moved + m <= 200_000,
                ;
                assert(-65_535_000 * 200_000 <= v.z * (moved + m) <= 65_535_000 * 200_000)
                    by (nonlinear_arith)
                    requires
                        -65_535_000 <= v.z <= 65_535_000,
                        0 <= moved + m <= 200_000,
                ;
                assert(v.x * (moved + m) == v.x * moved + v.x * m) by (nonlinear_arith);
                assert(v.y * (moved + m) == v.y * moved + v.y * m) by (nonlinear_arith);
                assert(v.z * (moved + m) == v.z * moved + v.z * m) by (nonlinear_arith);
                assert(0 <= m <= 200_000);
                assert(-65_535_000 * 200_000 <= v.x * m <= 65_535_000 * 200_000
                    && -65_535_000 * 200_000 <= v.y * m <= 65_535_000 * 200_000
                    && -65_535_000 * 200_000 <= v.z * m <= 65_535_000 * 200_000) by (nonlinear_arith)
                    requires
                        -65_535_000 <= v.x <= 65_535_000,
                        -65_535_000 <= v.y <= 65_535_000,
                        -65_535_000 <= v.z <= 65_535_000,
                        0 <= m <= 200_000,
                ;
                if m == 0 {
                    assert(v.x * m == 0 && v.y * m == 0 && v.z * m == 0) by (nonlinear_arith)
                        requires
                            m == 0,
                    ;
                }
                assert(step.x == v.x * m && step.y == v.y * m && step.z == v.z * m);
            }
            total = Vec3i { x: total.x + step.x, y: total.y + step.y, z: total.z + step.z };
            proof {
                moved = moved + m;
            }
            i = i + 1;
        }
        proof {
            assert(dts@.subrange(i as int, dts@.len() as int) =~= Seq::<u32>::empty());
        }
        total
    }
}

/// Once its timer has run out a knockback moves nothing and stays run
/// out; a step that moves the entity ends before the duration.
pub proof fn knockback_stops_at_duration(k: Knockback, dt: u32)
    requires
        k.wf(),
    ensures
        k.finished() ==> step_displacement(k, dt as int) == (Vec3i { x: 0, y: 0, z: 0 })
            && advanced(k, dt as int) == k,
        step_displacement(k, dt as int) != (Vec3i { x: 0, y: 0, z: 0 }) ==> advanced(
            k,
            dt as int,
        ).elapsed < k.duration,
        advanced(k, dt as int).wf(),
{
}

/// Over any run of steps, a knockback moves for at most the time left
/// on its timer, so it never pushes past its duration.
pub proof fn knockback_moves_within_duration(k: Knockback, dts: Seq<u32>)
    requires
        k.wf(),
    ensures
        0 <= moving_time(k, dts) <= k.duration - k.elapsed,
    decreases dts.len(),
{
    if dts.len() > 0 {
        knockback_moves_within_duration(advanced(k, dts[0] as int), dts.drop_first());
    }
}

} // verus!
