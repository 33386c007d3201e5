//! Placing new actors on the field, at a point or scattered around one.
use vstd::prelude::*;
use crate::actor::{fresh_actor, Faction, World};
use crate::geometry::{clamp_coord, clamp_to_field, Point};

verus! {

/// Half-width of the square around a point in which scattered spawns land, in sub-units.
pub const SPAWN_SPREAD: i64 = 300_000;

/// Relies on rand::random_range: a value drawn from the half-open range
/// `lo..hi`, which must not be empty.
#[verifier::external_body]
fn random_between(lo: i64, hi: i64) -> (r: i64)
    requires
        lo < hi,
    ensures
        lo <= r < hi,
{
    rand::random_range(lo..hi)
}

/// The point at offset `(dx, dy)` from `center`, clamped into the field.
pub open spec fn offset_point(center: Point, dx: int, dy: int) -> Point {
    Point { x: clamp_coord(center.x + dx), y: clamp_coord(center.y + dy) }
}

/// Spawns an actor at offset `(dx, dy)` from `center`.
pub fn spawn_at_offset(world: &mut World, faction: Faction, center: Point, dx: i64, dy: i64) -> (r: u64)
    requires
        old(world).wf(),
        old(world).next_id < u64::MAX,
    ensures
        final(world).wf(),
        r == old(world).next_id,
        final(world).next_id == r + 1,
        final(world).actors@ == old(world).actors@.push(
            fresh_actor(r, faction, offset_point(center, dx as int, dy as int)),
        ),
{
    let x: i64 = clamp_to_field(center.x as i128 + dx as i128);
    let y: i64 = clamp_to_field(center.y as i128 + dy as i128);
    world.spawn(faction, Point { x, y })
}

/// Spawns an actor at a random point within `SPAWN_SPREAD` of `center` on
/// each axis.
pub fn spawn_near(world: &mut World, faction: Faction, center: Point) -> (r: u64)
    requires
        old(world).wf(),
        old(world).next_id < u64::MAX,
    ensures
        final(world).wf(),
        r == old(world).next_id,
        final(world).next_id == r + 1,
        exists|dx: int, dy: int|
            -SPAWN_SPREAD <= dx < SPAWN_SPREAD && -SPAWN_SPREAD <= dy < SPAWN_SPREAD
                && final(world).actors@ == old(world).actors@.push(
                #[trigger] fresh_actor(r, faction, offset_point(center, dx, dy)),
            ),
{
    let dx: i64 = random_between(-SPAWN_SPREAD, SPAWN_SPREAD);
    let dy: i64 = random_between(-SPAWN_SPREAD, SPAWN_SPREAD);
    let r: u64 = spawn_at_offset(world, faction, center, dx, dy);
    r
}

} // verus!
