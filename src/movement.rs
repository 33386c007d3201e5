//! Movement arbitration: one destination per actor per frame, then
//! straight-line steering toward it.
use vstd::prelude::*;
use crate::actor::{find, has_id, speed, speed_of, Actor, Facing, World};
use crate::geometry::{dist2, distance_squared, steer, steer_toward, turns_horizontally, Point};

verus! {

/// Distance below which a commanded destination counts as reached, in sub-units.
pub const COMPLETE_RADIUS: i64 = 30_000;

/// Squared completion radius.
pub const COMPLETE2: i128 = 900_000_000;

pub open spec fn complete2() -> int {
    COMPLETE_RADIUS * COMPLETE_RADIUS
}

/// The position of the actor that actor `i` pursues, if that actor exists.
pub open spec fn chase_point(s: Seq<Actor>, i: int) -> Option<Point> {
    match s[i].target {
        Some(t) => if has_id(s, t.target) {
            Some(s[find(s, t.target)].pos)
        } else {
            None
        },
        None => None,
    }
}

/// The point actor `i` steers toward: a commanded destination first, else
/// the position of its target.
pub open spec fn desired_point(s: Seq<Actor>, i: int) -> Option<Point> {
    match s[i].move_to {
        Some(m) => Some(m.loc),
        None => chase_point(s, i),
    }
}

/// Whether the actor's attack cooldown is running.
pub open spec fn cooling(a: Actor) -> bool {
    a.attack_timer matches Some(t) && !t.is_finished()
}

/// Whether the actor is committed to an attack: the cooldown started by an
/// attack it landed has not finished.
pub open spec fn committed(a: Actor) -> bool {
    a.striking && cooling(a)
}

/// Whether the actor may not move this frame: it is flinching from a hit,
/// or committed to an attack.
pub open spec fn held(a: Actor) -> bool {
    !a.recovered() || committed(a)
}

/// Whether the actor is within the completion radius of its commanded destination.
pub open spec fn arrived(a: Actor) -> bool {
    a.move_to matches Some(m) && dist2(a.pos, m.loc) < complete2()
}

/// Facing after steering from `pos` toward `dest`.
pub open spec fn facing_toward(facing: Facing, pos: Point, dest: Point) -> Facing {
    if turns_horizontally(pos, dest) {
        if dest.x > pos.x {
            Facing::Right
        } else {
            Facing::Left
        }
    } else {
        facing
    }
}

/// Actor `i` after one movement pass of `dt` milliseconds. A destination
/// already reached is cleared without moving; otherwise the actor steers
/// toward its desired point unless a hit or an attack holds it, and a destination
/// reached by that step is cleared.
pub open spec fn moved(s: Seq<Actor>, i: int, dt: nat) -> Actor {
    let a = s[i];
    if arrived(a) {
        Actor { move_to: None, ..a }
    } else {
        match desired_point(s, i) {
            None => a,
            Some(p) => if held(a) {
                a
            } else {
                let np = steer(a.pos, p, speed_of(a.faction) * dt);
                Actor {
                    pos: np,
                    facing: facing_toward(a.facing, a.pos, p),
                    move_to: if arrived(Actor { pos: np, ..a }) {
                        None
                    } else {
                        a.move_to
                    },
                    ..a
                }
            },
        }
    }
}

/// What the movement pass does: every actor moves as `moved` states, all
/// reading the positions from before the pass.
pub open spec fn movement_post(old: Seq<Actor>, new: Seq<Actor>, dt: nat) -> bool {
    &&& new.len() == old.len()
    &&& forall|i: int| 0 <= i < old.len() ==> new[i] == moved(old, i, dt)
}

/// The point actor `i` steers toward, as `desired_point` states it.
pub fn desired(world: &World, i: usize) -> (r: Option<Point>)
    requires
        world.wf(),
        i < world.actors@.len(),
    ensures
        r == desired_point(world.actors@, i as int),
        r matches Some(p) ==> p.in_bounds(),
{
    let a: Actor = world.actors[i];
    assert(world.actors@[i as int].wf());
    match a.move_to {
        Some(m) => Some(m.loc),
        None => match a.target {
            None => None,
            Some(t) => match world.index_of(t.target) {
                None => None,
                Some(j) => {
                    assert(world.actors@[j as int].wf());
                    Some(world.actors[j].pos)
                },
            },
        },
    }
}

fn is_arrived(a: &Actor) -> (r: bool)
    requires
        a.wf(),
    ensures
        r == arrived(*a),
{
    match a.move_to {
        None => false,
        Some(m) => distance_squared(&a.pos, &m.loc) < COMPLETE2,
    }
}

/// Actor `i` after one movement pass, as `moved` states it.
pub fn move_one(world: &World, i: usize, dt: u32) -> (r: Actor)
    requires
        world.wf(),
        i < world.actors@.len(),
    ensures
        r == moved(world.actors@, i as int, dt as nat),
        r.wf(),
        r.id == world.actors@[i as int].id,
{
    let a: Actor = world.actors[i];
    assert(world.actors@[i as int].wf());
    if is_arrived(&a) {
        return Actor { move_to: None, ..a };
    }
    match desired(world, i) {
        None => a,
        Some(p) => {
            let cooling: bool = match a.attack_timer {
                Some(t) => !t.finished(),
                None => false,
            };
            if !a.hit_timer.timer.finished() || (a.striking && cooling) {
                a
            } else {
                let step: i64 = speed(a.faction) as i64 * dt as i64;
                let np: Point = steer_toward(a.pos, p, step);
                let d2: i128 = distance_squared(&a.pos, &p);
                let dx: i128 = p.x as i128 - a.pos.x as i128;
                assert(0 <= dx * dx <= 64_000_000_000_000_000_000_000_000) by (nonlinear_arith)
                    requires
                        -8_000_000_000_000 <= dx <= 8_000_000_000_000,
                ;
                let facing: Facing = if 100 * (dx * dx) > d2 {
                    if p.x > a.pos.x {
                        Facing::Right
                    } else {
                        Facing::Left
                    }
                } else {
                    a.facing
                };
                let b: Actor = Actor { pos: np, facing, ..a };
                if is_arrived(&b) {
                    Actor { move_to: None, ..b }
                } else {
                    b
                }
            }
        },
    }
}

/// Moves every actor for one frame of `dt` milliseconds.
pub fn move_actors(world: &mut World, dt: u32)
    requires
        old(world).wf(),
    ensures
        final(world).wf(),
        final(world).next_id == old(world).next_id,
        movement_post(old(world).actors@, final(world).actors@, dt as nat),
{
    let ghost s = world.actors@;
    let mut out: Vec<Actor> = Vec::new();
    let mut i: usize = 0;
    while i < world.actors.len()
        invariant
            world.wf(),
            s == world.actors@,
            i <= s.len(),
            out@.len() == i,
            forall|k: int| 0 <= k < i ==> #[trigger] out@[k] == moved(s, k, dt as nat),
            forall|k: int| 0 <= k < i ==> (#[trigger] out@[k]).wf() && out@[k].id == s[k].id,
        decreases s.len() - i,
    {
        let a: Actor = move_one(world, i, dt);
        out.push(a);
        i = i + 1;
    }
    world.actors = out;
    proof {
        let n = world.actors@;
        assert forall|j: int, k: int| 0 <= j < k < n.len() implies n[j].id < n[k].id by {
            assert(n[j].id == s[j].id && n[k].id == s[k].id);
        }
        assert forall|j: int| 0 <= j < n.len() implies n[j].id < world.next_id by {
            assert(n[j].id == s[j].id);
        }
    }
}

/// A commanded destination always wins over the target's position.
pub proof fn lemma_move_to_first(s: Seq<Actor>, i: int)
    requires
        0 <= i < s.len(),
        s[i].move_to is Some,
    ensures
        desired_point(s, i) == Some(s[i].move_to->Some_0.loc),
{
}

/// A commanded destination is consumed once reached: after a movement pass no
/// actor holds a destination it is within the completion radius of, and an
/// actor already that close to it stays where it is.
pub proof fn lemma_move_to_complete(s: Seq<Actor>, i: int, dt: nat)
    requires
        0 <= i < s.len(),
    ensures
        !arrived(moved(s, i, dt)),
        arrived(s[i]) ==> moved(s, i, dt).pos == s[i].pos && moved(s, i, dt).move_to is None,
{
}

/// Issuing again the destination an actor has just reached leaves its
/// position unchanged by the next movement pass.
pub proof fn lemma_reissue_no_op(s: Seq<Actor>, i: int, m: crate::actor::MoveTo, dt: nat)
    requires
        0 <= i < s.len(),
        dist2(s[i].pos, m.loc) < complete2(),
    ensures
        moved(s.update(i, Actor { move_to: Some(m), ..s[i] }), i, dt).pos == s[i].pos,
        moved(s.update(i, Actor { move_to: Some(m), ..s[i] }), i, dt).move_to is None,
{
}

/// An actor flinching from a hit does not move.
pub proof fn lemma_stun_holds(s: Seq<Actor>, i: int, dt: nat)
    requires
        0 <= i < s.len(),
        !s[i].recovered(),
    ensures
        moved(s, i, dt).pos == s[i].pos,
{
}

} // verus!
