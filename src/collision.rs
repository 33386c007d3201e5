//! Pushing overlapping actors apart.
use vstd::prelude::*;
use crate::actor::{Actor, World};
use crate::geometry::{
    clamp_coord, clamp_to_field, dist2, distance_squared, is_isqrt, length_between, scale_component,
    scaled,
};

verus! {

/// How far actor `i` is pushed away from actor `j` when their colliders
/// overlap: half the overlap, along the line from `j` to `i`, with the
/// length rounded down. Coincident actors are not pushed.
pub open spec fn push_from(s: Seq<Actor>, i: int, j: int) -> (int, int) {
    let d2 = dist2(s[i].pos, s[j].pos);
    let reach = s[i].collider.radius + s[j].collider.radius;
    if i == j || d2 == 0 || d2 >= reach * reach {
        (0, 0)
    } else {
        let len = choose|r: int| is_isqrt(d2, r);
        let half = (reach - len) / 2;
        (
            scaled(s[i].pos.x - s[j].pos.x, half, len),
            scaled(s[i].pos.y - s[j].pos.y, half, len),
        )
    }
}

/// The pushes on actor `i` from the first `n` actors, summed.
pub open spec fn push_sum(s: Seq<Actor>, i: int, n: int) -> (int, int)
    decreases n,
{
    if n <= 0 {
        (0, 0)
    } else {
        let (x, y) = push_sum(s, i, n - 1);
        let (px, py) = push_from(s, i, n - 1);
        (x + px, y + py)
    }
}

/// Actor `i` after separation, its position clamped into the field.
pub open spec fn separated(s: Seq<Actor>, i: int) -> Actor {
    let (x, y) = push_sum(s, i, s.len() as int);
    Actor {
        pos: crate::geometry::Point {
            x: clamp_coord(s[i].pos.x + x),
            y: clamp_coord(s[i].pos.y + y),
        },
        ..s[i]
    }
}

/// The push on actor `i` from actor `j`, as `push_from` states it.
pub fn push(world: &World, i: usize, j: usize) -> (r: (i128, i128))
    requires
        world.wf(),
        i < world.actors@.len(),
        j < world.actors@.len(),
    ensures
        r.0 == push_from(world.actors@, i as int, j as int).0,
        r.1 == push_from(world.actors@, i as int, j as int).1,
        -4_294_967_296 <= r.0 <= 4_294_967_296,
        -4_294_967_296 <= r.1 <= 4_294_967_296,
{
    let a: Actor = world.actors[i];
    let b: Actor = world.actors[j];
    assert(world.actors@[i as int].wf() && world.actors@[j as int].wf());
    let d2: i128 = distance_squared(&a.pos, &b.pos);
    let reach: i128 = a.collider.radius as i128 + b.collider.radius as i128;
    assert(0 <= reach * reach <= 18_446_744_073_709_551_616 * 4) by (nonlinear_arith)
        requires
            0 <= reach <= 8_589_934_590,
    ;
    if i == j || d2 == 0 || d2 >= reach * reach {
        return (0, 0);
    }
    let lenv: i128 = length_between(&a.pos, &b.pos) as i128;
    proof {
        let len = lenv as int;
        assert(len < reach) by {
            if len >= reach {
                assert(reach * reach <= len * len) by (nonlinear_arith)
                    requires
                        0 <= reach <= len,
                ;
            }
        }
    }
    let half: i128 = (reach - lenv) / 2;
    let dx: i128 = a.pos.x as i128 - b.pos.x as i128;
    let dy: i128 = a.pos.y as i128 - b.pos.y as i128;
    (scale_component(dx, half, lenv), scale_component(dy, half, lenv))
}

/// Pushes every pair of overlapping actors apart, each by half the overlap,
/// all measured from the positions before the pass.
pub fn separate_actors(world: &mut World)
    requires
        old(world).wf(),
        old(world).actors@.len() <= u32::MAX,
    ensures
        final(world).wf(),
        final(world).next_id == old(world).next_id,
        final(world).actors@.len() == old(world).actors@.len(),
        forall|i: int|
            0 <= i < old(world).actors@.len() ==> #[trigger] final(world).actors@[i] == separated(
                old(world).actors@,
                i,
            ),
{
    let ghost s = world.actors@;
    let mut out: Vec<Actor> = Vec::new();
    let mut i: usize = 0;
    while i < world.actors.len()
        invariant
            world.wf(),
            s == world.actors@,
            s.len() <= u32::MAX,
            i <= s.len(),
            out@.len() == i,
            forall|k: int| 0 <= k < i ==> #[trigger] out@[k] == separated(s, k),
            forall|k: int| 0 <= k < i ==> (#[trigger] out@[k]).wf() && out@[k].id == s[k].id,
        decreases s.len() - i,
    {
        let mut sx: i128 = 0;
        let mut sy: i128 = 0;
        let mut j: usize = 0;
        while j < world.actors.len()
            invariant
                world.wf(),
                s == world.actors@,
                s.len() <= u32::MAX,
                i < s.len(),
                j <= s.len(),
                sx == push_sum(s, i as int, j as int).0,
                sy == push_sum(s, i as int, j as int).1,
                -j * 4_294_967_296 <= sx <= j * 4_294_967_296,
                -j * 4_294_967_296 <= sy <= j * 4_294_967_296,
            decreases s.len() - j,
        {
            let (px, py) = push(world, i, j);
            sx = sx + px;
            sy = sy + py;
            j = j + 1;
        }
        let a: Actor = world.actors[i];
        assert(s[i as int].wf());
        let x: i128 = a.pos.x as i128 + sx;
        let y: i128 = a.pos.y as i128 + sy;
        out.push(
            Actor { pos: crate::geometry::Point { x: clamp_to_field(x), y: clamp_to_field(y) }, ..a },
        );
        i = i + 1;
    }
    world.actors = out;
    proof {
        let n = world.actors@;
        assert forall|j: int, k: int| 0 <= j < k < n.len() implies n[j].id < n[k].id by {
            assert(n[j].id == s[j].id && n[k].id == s[k].id);
        }
        assert forall|j: int| 0 <= j < n.len() implies n[j].id < world.next_id by {
            assert(n[j].id == s[j].id);
        }
    }
}

} // verus!
