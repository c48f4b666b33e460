//! The actors scattered over the ground when a session starts.
use vstd::prelude::*;
use crate::geometry::{level_direction, level_unit, Vec3i};
use crate::lifecycle::SpawnPerson;

verus! {

/// Number of actors at the start of a session.
pub const POPULATION: usize = 20;

/// Half the side of the square the actors start in, in nanometres.
pub const SCATTER_HALF_EXTENT: i64 = 40_000_000_000;

/// Slowest starting speed, in millimetres per second.
pub const MIN_START_SPEED: i64 = 200;

/// Starting speeds stay below this, in millimetres per second.
pub const MAX_START_SPEED: i64 = 400;

/// Relies on rand's `Rng::gen_range` on the thread-local generator: a
/// value drawn from `lo..hi`, which must not be empty.
#[verifier::external_body]
fn draw(lo: i64, hi: i64) -> (r: i64)
    requires
        lo < hi,
    ensures
        lo <= r < hi,
{
    rand::Rng::gen_range(&mut rand::thread_rng(), lo..hi)
}

/// A start request satisfies the scatter's bounds.
pub open spec fn scattered(req: SpawnPerson) -> bool {
    &&& -SCATTER_HALF_EXTENT <= req.position.x < SCATTER_HALF_EXTENT
    &&& req.position.y == 0
    &&& -SCATTER_HALF_EXTENT <= req.position.z < SCATTER_HALF_EXTENT
    &&& MIN_START_SPEED <= req.speed < MAX_START_SPEED
    &&& req.facing.valid()
    &&& level_unit(req.facing)
    &&& req.target is None
}

/// `count` requests for free-standing actors at random places on the
/// ground, looking along random level directions (scaled to unit length;
/// a draw of the zero vector faces along -z), at random speeds.
pub fn scatter_population(count: usize) -> (r: Vec<SpawnPerson>)
    ensures
        r@.len() == count,
        forall|k: int| 0 <= k < count ==> scattered(#[trigger] r@[k]),
{
    let mut out: Vec<SpawnPerson> = Vec::new();
    let mut k: usize = 0;
    while k < count
        invariant
            k <= count,
            out@.len() == k,
            forall|j: int| 0 <= j < k ==> scattered(#[trigger] out@[j]),
        decreases count - k,
    {
        let x = draw(-SCATTER_HALF_EXTENT, SCATTER_HALF_EXTENT);
        let z = draw(-SCATTER_HALF_EXTENT, SCATTER_HALF_EXTENT);
        let speed = draw(MIN_START_SPEED, MAX_START_SPEED);
        let dx = draw(-1000, 1000) as i32;
        let dz = draw(-1000, 1000) as i32;
        let facing = if dx == 0 && dz == 0 {
            level_direction(0, -1)
        } else {
            level_direction(dx, dz)
        };
        out.push(
            SpawnPerson {
                position: Vec3i { x, y: 0, z },
                facing,
                speed: speed as u32,
                target: None,
            },
        );
        k = k + 1;
    }
    out
}

} // verus!
