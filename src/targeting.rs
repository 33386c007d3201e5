//! Target acquisition within one radius and release beyond a larger one.
use vstd::prelude::*;
use crate::actor::{autonomous, find, has_id, ids_increasing, is_autonomous, opposed, opposes, table_wf, Actor, Target, World};
use crate::geometry::{dist2, distance_squared};

verus! {

/// Radius within which a target is acquired, in sub-units.
pub const ACQUIRE_RADIUS: i64 = 500_000;

/// Radius beyond which a target is released, in sub-units.
pub const RELEASE_RADIUS: i64 = 550_000;

/// Squared acquisition radius.
pub const ACQUIRE2: i128 = 250_000_000_000;

/// Squared release radius.
pub const RELEASE2: i128 = 302_500_000_000;

pub open spec fn acquire2() -> int {
    ACQUIRE_RADIUS * ACQUIRE_RADIUS
}

pub open spec fn release2() -> int {
    RELEASE_RADIUS * RELEASE_RADIUS
}

pub proof fn lemma_radii()
    ensures
        ACQUIRE2 == acquire2(),
        RELEASE2 == release2(),
        acquire2() < release2(),
{
}

/// Whether actor `k` is one that actor `i` may acquire.
pub open spec fn candidate(s: Seq<Actor>, i: int, k: int) -> bool {
    &&& opposed(s[i].faction, s[k].faction)
    &&& dist2(s[i].pos, s[k].pos) < acquire2()
}

/// Whether `r` is what acquisition picks for actor `i`: the strictly closest
/// candidate, the earliest in the table among equally close ones, or none
/// when there is no candidate.
pub open spec fn nearest(s: Seq<Actor>, i: int, r: Option<Target>) -> bool {
    match r {
        None => forall|k: int| 0 <= k < s.len() ==> !candidate(s, i, k),
        Some(t) => exists|j: int|
            {
                &&& 0 <= j < s.len()
                &&& s[j].id == t.target
                &&& candidate(s, i, j)
                &&& forall|k: int|
                    0 <= k < s.len() && candidate(s, i, k) ==> dist2(s[i].pos, s[j].pos) <= dist2(
                        s[i].pos,
                        s[k].pos,
                    )
                &&& forall|k: int|
                    0 <= k < j && candidate(s, i, k) ==> dist2(s[i].pos, s[j].pos) < dist2(
                        s[i].pos,
                        s[k].pos,
                    )
            },
    }
}

/// Whether an actor looks for a target this frame.
pub open spec fn acquiring(a: Actor) -> bool {
    autonomous(a) && a.target is None
}

/// `new` is `old` with only the targets changed, to `t`.
pub open spec fn retargeted(old: Seq<Actor>, new: Seq<Actor>, t: Seq<Option<Target>>) -> bool {
    &&& new.len() == old.len()
    &&& t.len() == old.len()
    &&& forall|i: int| 0 <= i < old.len() ==> new[i] == (Actor { target: t[i], ..old[i] })
}

/// What the acquisition pass does: every acquiring actor gets its nearest
/// candidate, or stays without a target; every other actor is unchanged.
pub open spec fn acquire_post(old: Seq<Actor>, new: Seq<Actor>) -> bool {
    &&& new.len() == old.len()
    &&& forall|i: int|
        0 <= i < old.len() ==> new[i] == (Actor { target: new[i].target, ..old[i] })
    &&& forall|i: int|
        0 <= i < old.len() ==> if acquiring(old[i]) {
            nearest(old, i, new[i].target)
        } else {
            new[i].target == old[i].target
        }
}

/// The target actor `i` keeps through the release pass: none when the
/// referenced actor is gone or farther than the release radius.
pub open spec fn kept_target(s: Seq<Actor>, i: int) -> Option<Target> {
    match s[i].target {
        None => None,
        Some(t) => if has_id(s, t.target) && dist2(s[i].pos, s[find(s, t.target)].pos)
            <= release2() {
            Some(t)
        } else {
            None
        },
    }
}

/// What the release pass does.
pub open spec fn release_post(old: Seq<Actor>, new: Seq<Actor>) -> bool {
    &&& new.len() == old.len()
    &&& forall|i: int|
        0 <= i < old.len() ==> new[i] == (Actor { target: kept_target(old, i), ..old[i] })
}

/// The nearest candidate of actor `i`, as `nearest` states it.
pub fn nearest_target(world: &World, i: usize) -> (r: Option<Target>)
    requires
        world.wf(),
        i < world.actors@.len(),
    ensures
        nearest(world.actors@, i as int, r),
{
    let ghost s = world.actors@;
    proof {
        lemma_radii();
    }
    let me: Actor = world.actors[i];
    let mut best: Option<(usize, i128)> = None;
    let mut k: usize = 0;
    while k < world.actors.len()
        invariant
            world.wf(),
            s == world.actors@,
            me == s[i as int],
            i < s.len(),
            k <= s.len(),
            best is None ==> forall|m: int| 0 <= m < k ==> !candidate(s, i as int, m),
            best matches Some((j, d)) ==> {
                &&& j < k
                &&& candidate(s, i as int, j as int)
                &&& d == dist2(me.pos, s[j as int].pos)
                &&& forall|m: int|
                    0 <= m < k && candidate(s, i as int, m) ==> d <= dist2(me.pos, s[m].pos)
                &&& forall|m: int|
                    0 <= m < j && candidate(s, i as int, m) ==> d < dist2(me.pos, s[m].pos)
            },
        decreases s.len() - k,
    {
        let other: Actor = world.actors[k];
        assert(s[i as int].wf() && s[k as int].wf());
        if opposes(me.faction, other.faction) {
            let d: i128 = distance_squared(&me.pos, &other.pos);
            if d < ACQUIRE2 {
                match best {
                    None => {
                        best = Some((k, d));
                    },
                    Some((_, bd)) => {
                        if d < bd {
                            best = Some((k, d));
                        }
                    },
                }
            }
        }
        k = k + 1;
    }
    match best {
        None => None,
        Some((j, _)) => {
            let r = Target { target: world.actors[j].id };
            assert(s[j as int].id == r.target);
            Some(r)
        },
    }
}

/// Replaces each actor's target with the matching entry of `picks`.
fn set_targets(world: &mut World, picks: &Vec<Option<Target>>)
    requires
        old(world).wf(),
        picks@.len() == old(world).actors@.len(),
    ensures
        final(world).wf(),
        final(world).next_id == old(world).next_id,
        retargeted(old(world).actors@, final(world).actors@, picks@),
{
    let ghost s = world.actors@;
    let mut i: usize = 0;
    while i < world.actors.len()
        invariant
            world.actors@.len() == s.len(),
            picks@.len() == s.len(),
            i <= s.len(),
            world.next_id == old(world).next_id,
            s == old(world).actors@,
            table_wf(s, world.next_id),
            forall|k: int| 0 <= k < i ==> world.actors@[k] == (Actor { target: picks@[k], ..s[k] }),
            forall|k: int| i <= k < s.len() ==> world.actors@[k] == s[k],
        decreases s.len() - i,
    {
        let mut a: Actor = world.actors[i];
        a.target = picks[i];
        world.actors.set(i, a);
        i = i + 1;
    }
    proof {
        let n = world.actors@;
        assert forall|j: int| 0 <= j < n.len() implies (#[trigger] n[j]).wf() by {
            assert(s[j].wf());
        }
    }
}

/// Gives every autonomous actor without a target its nearest candidate.
pub fn acquire_targets(world: &mut World)
    requires
        old(world).wf(),
    ensures
        final(world).wf(),
        final(world).next_id == old(world).next_id,
        acquire_post(old(world).actors@, final(world).actors@),
{
    let ghost s = world.actors@;
    let mut picks: Vec<Option<Target>> = Vec::new();
    let mut i: usize = 0;
    while i < world.actors.len()
        invariant
            world.wf(),
            s == world.actors@,
            i <= s.len(),
            picks@.len() == i,
            forall|k: int|
                0 <= k < i ==> if acquiring(s[k]) {
                    nearest(s, k, #[trigger] picks@[k])
                } else {
                    picks@[k] == s[k].target
                },
        decreases s.len() - i,
    {
        let a: Actor = world.actors[i];
        let pick: Option<Target> = if is_autonomous(&a) && a.target.is_none() {
            nearest_target(world, i)
        } else {
            a.target
        };
        picks.push(pick);
        i = i + 1;
    }
    set_targets(world, &picks);
}

/// The target actor `i` keeps, as `kept_target` states it.
pub fn kept(world: &World, i: usize) -> (r: Option<Target>)
    requires
        world.wf(),
        i < world.actors@.len(),
    ensures
        r == kept_target(world.actors@, i as int),
{
    proof {
        lemma_radii();
    }
    let a: Actor = world.actors[i];
    match a.target {
        None => None,
        Some(t) => match world.index_of(t.target) {
            None => None,
            Some(j) => {
                assert(world.actors@[i as int].wf() && world.actors@[j as int].wf());
                let d: i128 = distance_squared(&a.pos, &world.actors[j].pos);
                if d <= RELEASE2 {
                    Some(t)
                } else {
                    None
                }
            },
        },
    }
}

/// Clears every target that is gone or has moved out of the release radius.
pub fn release_targets(world: &mut World)
    requires
        old(world).wf(),
    ensures
        final(world).wf(),
        final(world).next_id == old(world).next_id,
        release_post(old(world).actors@, final(world).actors@),
{
    let ghost s = world.actors@;
    let mut picks: Vec<Option<Target>> = Vec::new();
    let mut i: usize = 0;
    while i < world.actors.len()
        invariant
            world.wf(),
            s == world.actors@,
            i <= s.len(),
            picks@.len() == i,
            forall|k: int| 0 <= k < i ==> #[trigger] picks@[k] == kept_target(s, k),
        decreases s.len() - i,
    {
        let pick: Option<Target> = kept(world, i);
        picks.push(pick);
        i = i + 1;
    }
    set_targets(world, &picks);
}

/// Runs acquisition, then release.
pub fn resolve_targets(world: &mut World)
    requires
        old(world).wf(),
    ensures
        final(world).wf(),
        final(world).next_id == old(world).next_id,
        exists|mid: Seq<Actor>|
            acquire_post(old(world).actors@, mid) && release_post(mid, final(world).actors@),
{
    acquire_targets(world);
    let ghost mid = world.actors@;
    release_targets(world);
    assert(acquire_post(old(world).actors@, mid) && release_post(mid, world.actors@));
}

/// After the release pass an actor has no target whose referenced actor is
/// gone or lies beyond the release radius.
pub proof fn lemma_release_beyond(old: Seq<Actor>, new: Seq<Actor>, i: int)
    requires
        release_post(old, new),
        0 <= i < old.len(),
        old[i].target matches Some(t) && (!has_id(old, t.target) || dist2(
            old[i].pos,
            old[find(old, t.target)].pos,
        ) > release2()),
    ensures
        new[i].target is None,
{
}

/// The release pass never drops a target that still exists within the
/// release radius, so one between the two radii is kept.
pub proof fn lemma_release_within(old: Seq<Actor>, new: Seq<Actor>, i: int)
    requires
        release_post(old, new),
        0 <= i < old.len(),
        old[i].target matches Some(t) && has_id(old, t.target) && dist2(
            old[i].pos,
            old[find(old, t.target)].pos,
        ) <= release2(),
    ensures
        new[i].target == old[i].target,
{
}

/// An autonomous actor without a target that has an opposing actor strictly
/// within the acquisition radius holds a target after acquisition; when that
/// actor is strictly closer than every other candidate, it is the target.
pub proof fn lemma_acquire_within(old: Seq<Actor>, new: Seq<Actor>, i: int, j: int)
    requires
        acquire_post(old, new),
        ids_increasing(old),
        0 <= i < old.len(),
        0 <= j < old.len(),
        acquiring(old[i]),
        candidate(old, i, j),
    ensures
        new[i].target is Some,
        (forall|k: int|
            0 <= k < old.len() && k != j && candidate(old, i, k) ==> dist2(old[i].pos, old[j].pos)
                < dist2(old[i].pos, old[k].pos)) ==> new[i].target == Some(
            Target { target: old[j].id },
        ),
{
    assert(nearest(old, i, new[i].target));
    if new[i].target is None {
        assert(!candidate(old, i, j));
    }
    if forall|k: int|
        0 <= k < old.len() && k != j && candidate(old, i, k) ==> dist2(old[i].pos, old[j].pos)
            < dist2(old[i].pos, old[k].pos) {
        let t = new[i].target->Some_0;
        let w = choose|w: int|
            {
                &&& 0 <= w < old.len()
                &&& old[w].id == t.target
                &&& candidate(old, i, w)
                &&& forall|k: int|
                    0 <= k < old.len() && candidate(old, i, k) ==> dist2(old[i].pos, old[w].pos)
                        <= dist2(old[i].pos, old[k].pos)
                &&& forall|k: int|
                    0 <= k < w && candidate(old, i, k) ==> dist2(old[i].pos, old[w].pos) < dist2(
                        old[i].pos,
                        old[k].pos,
                    )
            };
        if w != j {
            assert(dist2(old[i].pos, old[w].pos) <= dist2(old[i].pos, old[j].pos));
        }
    }
}

} // verus!
