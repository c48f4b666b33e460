//! Integer vectors used for positions, velocities and directions.
use vstd::prelude::*;

verus! {

/// Largest magnitude of a component of a [`Dir3`] (a unit vector is scaled by this).
pub const DIR_SCALE: i32 = 1000;

/// A point or an offset; each component is in nanometres.
#[derive(Clone, Copy, Debug, PartialEq, Eq, Structural)]
pub struct Vec3i {
    pub x: i64,
    pub y: i64,
    pub z: i64,
}

/// A direction whose components are thousandths of a unit vector.
#[derive(Clone, Copy, Debug, PartialEq, Eq, Structural)]
pub struct Dir3 {
    pub x: i32,
    pub y: i32,
    pub z: i32,
}

impl Vec3i {
    /// The vector with components `x`, `y` and `z`.
    pub fn new(x: i64, y: i64, z: i64) -> (r: Vec3i)
        ensures
            r == (Vec3i { x, y, z }),
    {
        Vec3i { x, y, z }
    }

    /// The zero vector.
    pub fn zero() -> (r: Vec3i)
        ensures
            r == (Vec3i { x: 0, y: 0, z: 0 }),
    {
        Vec3i { x: 0, y: 0, z: 0 }
    }

    /// Component-wise sum, each component clamped to the range of `i64`.
    pub fn saturating_add(self, o: Vec3i) -> (r: Vec3i)
        ensures
            r.x == clamp_i64(self.x + o.x),
            r.y == clamp_i64(self.y + o.y),
            r.z == clamp_i64(self.z + o.z),
    {
        Vec3i {
            x: add_clamped(self.x, o.x),
            y: add_clamped(self.y, o.y),
            z: add_clamped(self.z, o.z),
        }
    }
}

impl Dir3 {
    /// Each component lies within `[-DIR_SCALE, DIR_SCALE]`.
    pub open spec fn valid(self) -> bool {
        &&& -DIR_SCALE <= self.x <= DIR_SCALE
        &&& -DIR_SCALE <= self.y <= DIR_SCALE
        &&& -DIR_SCALE <= self.z <= DIR_SCALE
    }
}

/// The integer nearest to `v` within the range of `i64`.
pub open spec fn clamp_i64(v: int) -> int {
    if v > i64::MAX {
        i64::MAX as int
    } else if v < i64::MIN {
        i64::MIN as int
    } else {
        v
    }
}

/// `a + b`, clamped to the range of `i64`.
pub fn add_clamped(a: i64, b: i64) -> (r: i64)
    ensures
        r == clamp_i64(a + b),
{
    match a.checked_add(b) {
        Some(s) => s,
        None => if b > 0 {
            i64::MAX
        } else {
            i64::MIN
        },
    }
}

/// The length of a level direction in thousandths lies within rounding of
/// `DIR_SCALE`: its square is between 994 000 and 1 000 000.
pub open spec fn level_unit(d: Dir3) -> bool {
    &&& d.y == 0
    &&& 994_000 <= d.x * d.x + d.z * d.z <= 1_000_000
}

/// The smallest `s` whose square is at least `m`.
fn ceil_sqrt(m: u64) -> (s: u64)
    requires
        1 <= m <= 4_000_000_000_000,
    ensures
        1 <= s <= 2_000_000,
        (s - 1) * (s - 1) < m <= s * s,
{
    let mut lo: u64 = 0;
    let mut hi: u64 = 2_000_000;
    while hi - lo > 1
        invariant
            lo < hi <= 2_000_000,
            lo * lo < m <= hi * hi,
        decreases hi - lo,
    {
        let mid = lo + (hi - lo) / 2;
        assert(mid * mid <= 4_000_000_000_000) by (nonlinear_arith)
            requires
                mid <= 2_000_000,
        ;
        if mid * mid >= m {
            hi = mid;
        } else {
            lo = mid;
        }
    }
    assert(hi >= 1) by (nonlinear_arith)
        requires
            m <= hi * hi,
            1 <= m,
    ;
    hi
}

/// The level direction `(dx, 0, dz)` scaled to length `DIR_SCALE`, each
/// component rounded towards zero.
pub fn level_direction(dx: i32, dz: i32) -> (r: Dir3)
    requires
        -1000 <= dx <= 1000,
        -1000 <= dz <= 1000,
        dx != 0 || dz != 0,
    ensures
        r.valid(),
        level_unit(r),
        dx >= 0 ==> r.x >= 0,
        dx <= 0 ==> r.x <= 0,
        dz >= 0 ==> r.z >= 0,
        dz <= 0 ==> r.z <= 0,
{
    let ux: u64 = if dx < 0 {
        (-dx) as u64
    } else {
        dx as u64
    };
    let uz: u64 = if dz < 0 {
        (-dz) as u64
    } else {
        dz as u64
    };
    assert(ux * ux <= 1_000_000 && uz * uz <= 1_000_000) by (nonlinear_arith)
        requires
            ux <= 1000,
            uz <= 1000,
    ;
    assert(ux * ux + uz * uz >= 1) by (nonlinear_arith)
        requires
            ux >= 1 || uz >= 1,
    ;
    let n = ux * ux + uz * uz;
    let m = n * 1_000_000;
    let l = ceil_sqrt(m);
    assert(l >= 1000) by (nonlinear_arith)
        requires
            m <= l * l,
            m >= 1_000_000,
            l >= 1,
    ;
    let ax = ux * 1_000_000 / l;
    let az = uz * 1_000_000 / l;
    proof {
        let (xi, zi, li, axi, azi) = (ux as int, uz as int, l as int, ax as int, az as int);
        let big = 1_000_000int;
        assert(axi * li <= xi * big && xi * big < (axi + 1) * li) by (nonlinear_arith)
            requires
                axi == (xi * big) / li,
                li >= 1,
                xi >= 0,
        {
            vstd::arithmetic::div_mod::lemma_fundamental_div_mod(xi * big, li);
        }
        assert(azi * li <= zi * big && zi * big < (azi + 1) * li) by (nonlinear_arith)
            requires
                azi == (zi * big) / li,
                li >= 1,
                zi >= 0,
        {
            vstd::arithmetic::div_mod::lemma_fundamental_div_mod(zi * big, li);
        }
        assert(axi * li >= 0 && azi * li >= 0) by (nonlinear_arith)
            requires
                axi >= 0,
                azi >= 0,
                li >= 1,
        ;
        let p = xi * xi + zi * zi;
        assert(p * big <= li * li);
        assert((li - 1) * (li - 1) < p * big);
        assert((xi * big) * (xi * big) + (zi * big) * (zi * big) == (p * big) * big) by (nonlinear_arith)
            requires
                p == xi * xi + zi * zi,
        ;
        let a2 = axi * axi + azi * azi;
        assert((axi * li) * (axi * li) <= (xi * big) * (xi * big)) by (nonlinear_arith)
            requires
                0 <= axi * li <= xi * big,
        ;
        assert((azi * li) * (azi * li) <= (zi * big) * (zi * big)) by (nonlinear_arith)
            requires
                0 <= azi * li <= zi * big,
        ;
        assert(a2 * (li * li) == (axi * li) * (axi * li) + (azi * li) * (azi * li)) by (nonlinear_arith)
            requires
                a2 == axi * axi + azi * azi,
        ;
        assert((p * big) * big <= (li * li) * big) by (nonlinear_arith)
            requires
                p * big <= li * li,
                big > 0,
        ;
        assert(a2 * (li * li) <= big * (li * li)) by (nonlinear_arith)
            requires
                a2 * (li * li) <= (li * li) * big,
        ;
        assert(a2 <= big) by (nonlinear_arith)
            requires
                a2 * (li * li) <= big * (li * li),
                li >= 1,
        ;
        let b2 = (axi + 1) * (axi + 1) + (azi + 1) * (azi + 1);
        assert(((axi + 1) * li) * ((axi + 1) * li) >= (xi * big) * (xi * big)) by (nonlinear_arith)
            requires
                0 <= xi * big < (axi + 1) * li,
        ;
        assert(((azi + 1) * li) * ((azi + 1) * li) >= (zi * big) * (zi * big)) by (nonlinear_arith)
            requires
                0 <= zi * big < (azi + 1) * li,
        ;
        assert(b2 * (li * li) == ((axi + 1) * li) * ((axi + 1) * li) + ((azi + 1) * li) * ((azi + 1)
            * li)) by (nonlinear_arith)
            requires
                b2 == (axi + 1) * (axi + 1) + (azi + 1) * (azi + 1),
        ;
        assert(((li - 1) * (li - 1)) * big < (p * big) * big) by (nonlinear_arith)
            requires
                (li - 1) * (li - 1) < p * big,
                big > 0,
        ;
        assert(1000 * (li - 1) >= 999 * li);
        assert((1000 * (li - 1)) * (1000 * (li - 1)) >= (999 * li) * (999 * li)) by (nonlinear_arith)
            requires
                1000 * (li - 1) >= 999 * li,
                li >= 0,
        ;
        assert(((li - 1) * (li - 1)) * big == (1000 * (li - 1)) * (1000 * (li - 1))) by (nonlinear_arith)
            requires
                big == 1_000_000,
        ;
        assert(998_001 * (li * li) == (999 * li) * (999 * li)) by (nonlinear_arith);
        assert(b2 > 998_001) by (nonlinear_arith)
            requires
                b2 * (li * li) > 998_001 * (li * li),
                li >= 1,
        ;
        assert(axi <= 1000 && azi <= 1000) by (nonlinear_arith)
            requires
                axi * axi + azi * azi <= 1_000_000,
                axi >= 0,
                azi >= 0,
        ;
        assert(a2 >= 994_000) by (nonlinear_arith)
            requires
                b2 == (axi + 1) * (axi + 1) + (azi + 1) * (azi + 1),
                a2 == axi * axi + azi * azi,
                b2 > 998_001,
                0 <= axi <= 1000,
                0 <= azi <= 1000,
        ;
    }
    let x = if dx < 0 {
        -(ax as i32)
    } else {
        ax as i32
    };
    let z = if dz < 0 {
        -(az as i32)
    } else {
        az as i32
    };
    proof {
        assert(x * x == ax * ax && z * z == az * az) by (nonlinear_arith)
            requires
                x == ax || x == -ax,
                z == az || z == -az,
        ;
    }
    Dir3 { x, y: 0, z }
}

} // verus!
