//! Procedural joint animation driven by phase timers.
//!
//! The waveform is a rational approximation of the sine (Bhaskara's
//! formula) on a period of 6284 milliradians, so that every pose is
//! computed exactly in integers, repeats with a fixed period and stays
//! within its amplitude.
use vstd::prelude::*;
use vstd::arithmetic::div_mod::{
    lemma_multiply_divide_le,
    lemma_mod_add_multiples_vanish,
    lemma_div_multiples_vanish,
};

verus! {

/// Half a turn, in milliradians.
pub const HALF_TURN: u64 = 3142;

/// A full turn, in milliradians: the period of [`sine`].
pub const FULL_TURN: u64 = 6284;

/// A quarter turn, in milliradians.
pub const QUARTER_TURN: u64 = 1571;

/// The value of the waveform at its peak.
pub const WAVE_UNIT: i64 = 1000;

/// Largest bend of a joint, in milliradians.
pub const JOINT_BEND_AMPLITUDE: i64 = 785;

/// Largest twist of a joint, in milliradians.
pub const JOINT_TWIST_AMPLITUDE: i64 = 628;

/// Largest swing of a cycling joint, in milliradians.
pub const CYCLE_AMPLITUDE: i64 = 785;

/// Largest vertical step of the cosmetic bobbing, in nanometres.
pub const BOB_AMPLITUDE: i64 = 4_000_000;

/// Time after which a joint's pose repeats, in microseconds.
pub const JOINT_PERIOD: u64 = 6_284_000;

/// Time after which a cycling joint's pose repeats, in microseconds.
pub const CYCLE_PERIOD: u64 = 12_568_000;

/// A rotation as angles about the x, y and z axes (applied in that
/// order), in milliradians.
#[derive(Clone, Copy, Debug, PartialEq, Eq, Structural)]
pub struct JointPose {
    pub x: i64,
    pub y: i64,
    pub z: i64,
}

/// The waveform on the first half turn, `0 <= x <= HALF_TURN`.
pub open spec fn half_wave(x: int) -> int {
    let h = HALF_TURN as int;
    (16 * WAVE_UNIT * x * (h - x)) / (5 * h * h - 4 * x * (h - x))
}

/// The waveform at `phase` milliradians: positive on the first half of
/// each turn, its mirror image on the second.
pub open spec fn sine(phase: int) -> int {
    let x = phase % (FULL_TURN as int);
    if x < HALF_TURN {
        half_wave(x)
    } else {
        -half_wave(x - HALF_TURN)
    }
}

/// The waveform a quarter turn ahead.
pub open spec fn cosine(phase: int) -> int {
    sine(phase % (FULL_TURN as int) + QUARTER_TURN)
}

/// `amp * s / WAVE_UNIT`, rounded towards zero.
pub open spec fn scaled(amp: int, s: int) -> int {
    if s >= 0 {
        (amp * s) / (WAVE_UNIT as int)
    } else {
        -((amp * -s) / (WAVE_UNIT as int))
    }
}

/// Phase of a joint's waveform, in milliradians, after `t` microseconds.
pub open spec fn joint_phase(t: int) -> int {
    t / 1000
}

/// Phase of a cycling joint's waveform: five and a half times faster.
pub open spec fn cycle_phase(t: int) -> int {
    (t / 1000) * 11 / 2
}

/// Pose of a joint whose phase timer reads `t` microseconds.
pub open spec fn joint_pose_of(t: int) -> JointPose {
    JointPose {
        x: 0,
        y: scaled(JOINT_BEND_AMPLITUDE as int, sine(joint_phase(t))) as i64,
        z: scaled(JOINT_TWIST_AMPLITUDE as int, cosine(joint_phase(t))) as i64,
    }
}

/// Pose of a cycling joint whose phase timer reads `t` microseconds.
pub open spec fn cycle_pose_of(t: int) -> JointPose {
    JointPose { x: scaled(CYCLE_AMPLITUDE as int, sine(cycle_phase(t))) as i64, y: 0, z: 0 }
}

proof fn lemma_half_wave_bounds(x: int)
    requires
        0 <= x <= HALF_TURN,
    ensures
        0 <= half_wave(x) <= WAVE_UNIT,
        5 * (HALF_TURN as int) * (HALF_TURN as int) - 4 * x * (HALF_TURN as int - x) > 0,
{
    let h = HALF_TURN as int;
    let y = x * (h - x);
    assert(0 <= y) by (nonlinear_arith)
        requires
            0 <= x <= h,
            y == x * (h - x),
    ;
    assert(4 * y <= h * h) by (nonlinear_arith)
        requires
            y == x * (h - x),
    {
        assert((h - 2 * x) * (h - 2 * x) >= 0);
    }
    let n = 16 * WAVE_UNIT * x * (h - x);
    let d = 5 * h * h - 4 * x * (h - x);
    assert(n == 16000 * y) by (nonlinear_arith)
        requires
            n == 16 * WAVE_UNIT * x * (h - x),
            y == x * (h - x),
    ;
    assert(d == 5 * h * h - 4 * y) by (nonlinear_arith)
        requires
            d == 5 * h * h - 4 * x * (h - x),
            y == x * (h - x),
    ;
    assert(n <= d * 1000);
    lemma_multiply_divide_le(n, d, 1000);
    assert(0 <= n / d) by (nonlinear_arith)
        requires
            0 <= n,
            0 < d,
    ;
}

proof fn lemma_sine_bounds(phase: int)
    ensures
        -WAVE_UNIT <= sine(phase) <= WAVE_UNIT,
{
    let x = phase % (FULL_TURN as int);
    if x < HALF_TURN {
        lemma_half_wave_bounds(x);
    } else {
        lemma_half_wave_bounds(x - HALF_TURN);
    }
}

proof fn lemma_scaled_bounds(amp: int, s: int)
    requires
        0 <= amp,
        -WAVE_UNIT <= s <= WAVE_UNIT,
    ensures
        -amp <= scaled(amp, s) <= amp,
{
    let m = if s >= 0 {
        s
    } else {
        -s
    };
    assert(amp * m <= 1000 * amp) by (nonlinear_arith)
        requires
            0 <= m <= 1000,
            0 <= amp,
    ;
    lemma_multiply_divide_le(amp * m, 1000, amp);
    assert(0 <= (amp * m) / 1000) by (nonlinear_arith)
        requires
            0 <= m,
            0 <= amp,
    ;
}

/// The waveform, in thousandths, at `phase` milliradians.
pub fn sine_thousandths(phase: u64) -> (r: i64)
    ensures
        r == sine(phase as int),
        -WAVE_UNIT <= r <= WAVE_UNIT,
{
    let x = phase % FULL_TURN;
    proof {
        lemma_sine_bounds(phase as int);
    }
    if x < HALF_TURN {
        proof {
            lemma_half_wave_bounds(x as int);
            assert(x * (HALF_TURN - x) <= 3142 * 3142) by (nonlinear_arith)
                requires
                    x < 3142,
            ;
        }
        let y = x * (HALF_TURN - x);
        let v = (16000 * y) / (5 * HALF_TURN * HALF_TURN - 4 * y);
        proof {
            assert(16 * WAVE_UNIT * x * (HALF_TURN - x) == 16000 * y) by (nonlinear_arith)
                requires
                    y == x * (HALF_TURN - x),
            ;
            assert(4 * x * (HALF_TURN - x) == 4 * y) by (nonlinear_arith)
                requires
                    y == x * (HALF_TURN - x),
            ;
        }
        v as i64
    } else {
        let z = x - HALF_TURN;
        proof {
            lemma_half_wave_bounds(z as int);
            assert(z * (HALF_TURN - z) <= 3142 * 3142) by (nonlinear_arith)
                requires
                    z <= 3142,
            ;
        }
        let y = z * (HALF_TURN - z);
        let v = (16000 * y) / (5 * HALF_TURN * HALF_TURN - 4 * y);
        proof {
            assert(16 * WAVE_UNIT * z * (HALF_TURN - z) == 16000 * y) by (nonlinear_arith)
                requires
                    y == z * (HALF_TURN - z),
            ;
            assert(4 * z * (HALF_TURN - z) == 4 * y) by (nonlinear_arith)
                requires
                    y == z * (HALF_TURN - z),
            ;
        }
        -(v as i64)
    }
}

/// The waveform, in thousandths, a quarter turn ahead of `phase`.
pub fn cosine_thousandths(phase: u64) -> (r: i64)
    ensures
        r == cosine(phase as int),
        -WAVE_UNIT <= r <= WAVE_UNIT,
{
    sine_thousandths(phase % FULL_TURN + QUARTER_TURN)
}

/// `amp * s / WAVE_UNIT`, rounded towards zero.
pub fn scale(amp: i64, s: i64) -> (r: i64)
    requires
        0 <= amp <= 1_000_000_000,
        -WAVE_UNIT <= s <= WAVE_UNIT,
    ensures
        r == scaled(amp as int, s as int),
        -amp <= r <= amp,
{
    proof {
        lemma_scaled_bounds(amp as int, s as int);
    }
    if s >= 0 {
        proof {
            assert(amp * s <= 1_000_000_000_000) by (nonlinear_arith)
                requires
                    0 <= amp <= 1_000_000_000,
                    0 <= s <= 1000,
            ;
        }
        (amp * s) / 1000
    } else {
        proof {
            assert(amp * (-s) <= 1_000_000_000_000) by (nonlinear_arith)
                requires
                    0 <= amp <= 1_000_000_000,
                    0 < -s <= 1000,
            ;
        }
        -((amp * (-s)) / 1000)
    }
}

/// Pose of a joint whose phase timer reads `t` microseconds: a bend about
/// y and a twist about z that run a quarter turn apart.
pub fn joint_pose(t: u64) -> (r: JointPose)
    ensures
        r == joint_pose_of(t as int),
        -JOINT_BEND_AMPLITUDE <= r.y <= JOINT_BEND_AMPLITUDE,
        -JOINT_TWIST_AMPLITUDE <= r.z <= JOINT_TWIST_AMPLITUDE,
        r.x == 0,
{
    let phase = t / 1000;
    let s = sine_thousandths(phase);
    let c = cosine_thousandths(phase);
    JointPose { x: 0, y: scale(JOINT_BEND_AMPLITUDE, s), z: scale(JOINT_TWIST_AMPLITUDE, c) }
}

/// Pose of a cycling joint whose phase timer reads `t` microseconds: a
/// swing about x only.
pub fn cycle_pose(t: u64) -> (r: JointPose)
    ensures
        r == cycle_pose_of(t as int),
        -CYCLE_AMPLITUDE <= r.x <= CYCLE_AMPLITUDE,
        r.y == 0,
        r.z == 0,
{
    let phase = (t / 1000) * 11 / 2;
    let s = sine_thousandths(phase);
    JointPose { x: scale(CYCLE_AMPLITUDE, s), y: 0, z: 0 }
}

/// Vertical bobbing step at bobbing phase `t` microseconds.
pub open spec fn bob_step_of(t: int) -> i64 {
    scaled(BOB_AMPLITUDE as int, sine((t / 1000) * 10)) as i64
}

/// Vertical step, in nanometres, of an actor whose bobbing phase reads
/// `t` microseconds: a wave ten times faster than a joint's.
pub fn bob_step(t: u64) -> (r: i64)
    ensures
        r == bob_step_of(t as int),
        -BOB_AMPLITUDE <= r <= BOB_AMPLITUDE,
{
    let s = sine_thousandths((t / 1000) * 10);
    scale(BOB_AMPLITUDE, s)
}

/// A joint's pose repeats every `JOINT_PERIOD` and never swings past
/// its amplitudes, whatever time has passed.
pub proof fn joint_pose_periodic_and_bounded(t: int)
    requires
        0 <= t,
    ensures
        joint_pose_of(t + JOINT_PERIOD) == joint_pose_of(t),
        -JOINT_BEND_AMPLITUDE <= joint_pose_of(t).y <= JOINT_BEND_AMPLITUDE,
        -JOINT_TWIST_AMPLITUDE <= joint_pose_of(t).z <= JOINT_TWIST_AMPLITUDE,
{
    let m = t / 1000;
    assert((t + 1000 * 6284) / 1000 == m + 6284) by {
        vstd::arithmetic::div_mod::lemma_div_plus_one(t, 1000);
        vstd::arithmetic::div_mod::lemma_fundamental_div_mod(t, 1000);
        vstd::arithmetic::div_mod::lemma_fundamental_div_mod_converse_div(
            t + 1000 * 6284,
            1000,
            m + 6284,
            t % 1000,
        );
    }
    lemma_mod_add_multiples_vanish(m, 6284);
    assert((m + 6284) % 6284 == m % 6284);
    lemma_sine_bounds(m);
    lemma_sine_bounds(m % 6284 + QUARTER_TURN);
    lemma_scaled_bounds(JOINT_BEND_AMPLITUDE as int, sine(m));
    lemma_scaled_bounds(JOINT_TWIST_AMPLITUDE as int, cosine(m));
}

/// A cycling joint's pose repeats every `CYCLE_PERIOD` and never swings
/// past its amplitude, whatever time has passed.
pub proof fn cycle_pose_periodic_and_bounded(t: int)
    requires
        0 <= t,
    ensures
        cycle_pose_of(t + CYCLE_PERIOD) == cycle_pose_of(t),
        -CYCLE_AMPLITUDE <= cycle_pose_of(t).x <= CYCLE_AMPLITUDE,
{
    let m = t / 1000;
    assert((t + 1000 * 12568) / 1000 == m + 12568) by {
        vstd::arithmetic::div_mod::lemma_fundamental_div_mod(t, 1000);
        vstd::arithmetic::div_mod::lemma_fundamental_div_mod_converse_div(
            t + 1000 * 12568,
            1000,
            m + 12568,
            t % 1000,
        );
    }
    let p = m * 11 / 2;
    assert((m + 12568) * 11 / 2 == p + 11 * 6284) by {
        vstd::arithmetic::div_mod::lemma_fundamental_div_mod(m * 11, 2);
        vstd::arithmetic::div_mod::lemma_fundamental_div_mod_converse_div(
            (m + 12568) * 11,
            2,
            p + 11 * 6284,
            (m * 11) % 2,
        );
    }
    assert((p + 11 * 6284) % 6284 == p % 6284) by {
        vstd::arithmetic::div_mod::lemma_mod_multiples_vanish(11, p, 6284);
    }
    lemma_sine_bounds(p);
    lemma_scaled_bounds(CYCLE_AMPLITUDE as int, sine(p));
}

/// A joint's pose after any whole number `k` of periods is the pose it
/// started from.
pub proof fn joint_pose_repeats(t: int, k: nat)
    requires
        0 <= t,
    ensures
        joint_pose_of(t + k * JOINT_PERIOD) == joint_pose_of(t),
    decreases k,
{
    if k > 0 {
        joint_pose_repeats(t, (k - 1) as nat);
        assert(t + k * JOINT_PERIOD == (t + (k - 1) * JOINT_PERIOD) + JOINT_PERIOD) by (nonlinear_arith);
        assert(t + (k - 1) * JOINT_PERIOD >= 0) by (nonlinear_arith)
            requires
                t >= 0,
                k >= 1,
        ;
        joint_pose_periodic_and_bounded(t + (k - 1) * JOINT_PERIOD);
    }
}

/// A cycling joint's pose after any whole number `k` of its periods is
/// the pose it started from.
pub proof fn cycle_pose_repeats(t: int, k: nat)
    requires
        0 <= t,
    ensures
        cycle_pose_of(t + k * CYCLE_PERIOD) == cycle_pose_of(t),
    decreases k,
{
    if k > 0 {
        cycle_pose_repeats(t, (k - 1) as nat);
        assert(t + k * CYCLE_PERIOD == (t + (k - 1) * CYCLE_PERIOD) + CYCLE_PERIOD) by (nonlinear_arith);
        assert(t + (k - 1) * CYCLE_PERIOD >= 0) by (nonlinear_arith)
            requires
                t >= 0,
                k >= 1,
        ;
        cycle_pose_periodic_and_bounded(t + (k - 1) * CYCLE_PERIOD);
    }
}

} // verus!
