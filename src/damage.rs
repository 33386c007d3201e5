//! Applying damage events and removing actors whose health is exhausted.
use vstd::prelude::*;
use crate::actor::{
    find, has_id, ids_increasing, lemma_find, Actor, AttackEvent, Faction,
    HitReactionTimer, MinnionMode, Stats, World,
};
use crate::timer::Timer;

verus! {

/// `v` limited to the range of `i32`.
pub open spec fn clamp_hp(v: int) -> i32 {
    if v < i32::MIN {
        i32::MIN
    } else if v > i32::MAX {
        i32::MAX
    } else {
        v as i32
    }
}

/// An actor after taking `damage`: health drops by it, the hit reaction
/// starts over, and a neutral allied unit turns aggressive.
pub open spec fn struck(a: Actor, damage: i32) -> Actor {
    Actor {
        stats: Stats { hp: clamp_hp(a.stats.hp - damage), ..a.stats },
        hit_timer: HitReactionTimer { timer: a.hit_timer.timer.cleared() },
        mode: if a.faction == Faction::Allied && a.mode == MinnionMode::Neutral {
            MinnionMode::Aggresiv
        } else {
            a.mode
        },
        ..a
    }
}

/// The table after one event; an event whose target is gone changes nothing.
pub open spec fn apply_event(s: Seq<Actor>, e: AttackEvent) -> Seq<Actor> {
    if has_id(s, e.target) {
        s.update(find(s, e.target), struck(s[find(s, e.target)], e.damage))
    } else {
        s
    }
}

/// The table after a sequence of events, applied in order.
pub open spec fn applied(s: Seq<Actor>, evs: Seq<AttackEvent>) -> Seq<Actor>
    decreases evs.len(),
{
    if evs.len() == 0 {
        s
    } else {
        apply_event(applied(s, evs.drop_last()), evs.last())
    }
}

/// An actor after its hit reaction has run `dt` more milliseconds.
pub open spec fn recovering(a: Actor, dt: nat) -> Actor {
    Actor { hit_timer: HitReactionTimer { timer: a.hit_timer.timer.ticked(dt) }, ..a }
}

/// The table after the lifecycle pass: actors with health above zero, in
/// order, with their hit reactions ticked; all others removed.
pub open spec fn survivors(s: Seq<Actor>, dt: nat) -> Seq<Actor>
    decreases s.len(),
{
    if s.len() == 0 {
        Seq::empty()
    } else if s.last().stats.hp > 0 {
        survivors(s.drop_last(), dt).push(recovering(s.last(), dt))
    } else {
        survivors(s.drop_last(), dt)
    }
}

fn strike(a: Actor, damage: i32) -> (r: Actor)
    requires
        a.wf(),
    ensures
        r == struck(a, damage),
        r.wf(),
{
    let v: i64 = a.stats.hp as i64 - damage as i64;
    let hp: i32 = if v < i32::MIN as i64 {
        i32::MIN
    } else if v > i32::MAX as i64 {
        i32::MAX
    } else {
        v as i32
    };
    let mut t: Timer = a.hit_timer.timer;
    t.reset();
    let mode: MinnionMode = match (a.faction, a.mode) {
        (Faction::Allied, MinnionMode::Neutral) => MinnionMode::Aggresiv,
        _ => a.mode,
    };
    Actor { stats: Stats { hp, ..a.stats }, hit_timer: HitReactionTimer { timer: t }, mode, ..a }
}

proof fn lemma_apply_event_frame(s: Seq<Actor>, e: AttackEvent)
    ensures
        apply_event(s, e).len() == s.len(),
        forall|j: int| 0 <= j < s.len() ==> #[trigger] apply_event(s, e)[j].id == s[j].id,
{
}

/// Applying events keeps the table's length and ids.
pub proof fn lemma_applied_frame(s: Seq<Actor>, evs: Seq<AttackEvent>)
    ensures
        applied(s, evs).len() == s.len(),
        forall|j: int| 0 <= j < s.len() ==> #[trigger] applied(s, evs)[j].id == s[j].id,
    decreases evs.len(),
{
    if evs.len() > 0 {
        lemma_applied_frame(s, evs.drop_last());
        lemma_apply_event_frame(applied(s, evs.drop_last()), evs.last());
    }
}

/// Applies each event in order to its target.
pub fn apply_attacks(world: &mut World, events: &Vec<AttackEvent>)
    requires
        old(world).wf(),
    ensures
        final(world).wf(),
        final(world).next_id == old(world).next_id,
        final(world).actors@ == applied(old(world).actors@, events@),
{
    let ghost s = world.actors@;
    let mut k: usize = 0;
    while k < events.len()
        invariant
            world.wf(),
            world.next_id == old(world).next_id,
            k <= events@.len(),
            world.actors@ == applied(s, events@.take(k as int)),
        decreases events@.len() - k,
    {
        let e: AttackEvent = events[k];
        assert(events@.take(k as int + 1).drop_last() =~= events@.take(k as int));
        match world.index_of(e.target) {
            None => {},
            Some(j) => {
                let ghost before = world.actors@;
                assert(before[j as int].wf());
                let a: Actor = strike(world.actors[j], e.damage);
                world.actors.set(j, a);
                proof {
                    let n = world.actors@;
                    assert forall|x: int| 0 <= x < n.len() implies (#[trigger] n[x]).wf() by {
                        assert(before[x].wf());
                    }
                    assert forall|x: int, y: int| 0 <= x < y < n.len() implies n[x].id
                        < n[y].id by {
                        assert(before[x].id < before[y].id);
                    }
                    assert forall|x: int| 0 <= x < n.len() implies n[x].id < world.next_id by {
                        assert(before[x].id < world.next_id);
                    }
                }
            },
        }
        k = k + 1;
    }
    assert(events@.take(events@.len() as int) =~= events@);
}

/// Ticks every hit reaction by `dt` milliseconds and removes every actor
/// whose health is zero or below.
pub fn lifecycle(world: &mut World, dt: u32)
    requires
        old(world).wf(),
    ensures
        final(world).wf(),
        final(world).next_id == old(world).next_id,
        final(world).actors@ == survivors(old(world).actors@, dt as nat),
{
    let ghost s = world.actors@;
    let mut out: Vec<Actor> = Vec::new();
    let mut i: usize = 0;
    while i < world.actors.len()
        invariant
            world.wf(),
            s == world.actors@,
            i <= s.len(),
            out@ == survivors(s.take(i as int), dt as nat),
            ids_increasing(out@),
            forall|m: int|
                0 <= m < out@.len() ==> out@[m].id < (if i < s.len() {
                    s[i as int].id
                } else {
                    world.next_id
                }),
            forall|m: int| 0 <= m < out@.len() ==> (#[trigger] out@[m]).wf(),
        decreases s.len() - i,
    {
        let a: Actor = world.actors[i];
        assert(s.take(i as int + 1).drop_last() =~= s.take(i as int));
        assert(s[i as int].wf());
        if a.stats.hp > 0 {
            let mut t: Timer = a.hit_timer.timer;
            t.tick(dt);
            out.push(Actor { hit_timer: HitReactionTimer { timer: t }, ..a });
        }
        i = i + 1;
    }
    assert(s.take(s.len() as int) =~= s);
    world.actors = out;
}

/// Total damage of the events in a sequence aimed at actor `id`.
pub open spec fn damage_to(evs: Seq<AttackEvent>, id: u64) -> int
    decreases evs.len(),
{
    if evs.len() == 0 {
        0
    } else {
        damage_to(evs.drop_last(), id) + if evs.last().target == id {
            evs.last().damage as int
        } else {
            0
        }
    }
}

/// Health after a sequence of events is the starting health minus the
/// summed damage of the events aimed at that actor, whatever other actors
/// the remaining events hit, as long as no partial sum leaves `i32`.
pub proof fn lemma_damage_sum(s: Seq<Actor>, evs: Seq<AttackEvent>, j: int)
    requires
        ids_increasing(s),
        0 <= j < s.len(),
        forall|k: int|
            0 <= k <= evs.len() ==> i32::MIN <= s[j].stats.hp - damage_to(
                #[trigger] evs.take(k),
                s[j].id,
            ) <= i32::MAX,
    ensures
        applied(s, evs)[j].stats.hp == s[j].stats.hp - damage_to(evs, s[j].id),
        applied(s, evs)[j].id == s[j].id,
    decreases evs.len(),
{
    lemma_applied_frame(s, evs);
    if evs.len() > 0 {
        let p = evs.drop_last();
        assert forall|k: int| 0 <= k <= p.len() implies i32::MIN <= s[j].stats.hp - damage_to(
            #[trigger] p.take(k),
            s[j].id,
        ) <= i32::MAX by {
            assert(p.take(k) =~= evs.take(k));
        }
        lemma_damage_sum(s, p, j);
        let prev = applied(s, p);
        lemma_applied_frame(s, p);
        assert(ids_increasing(prev));
        assert(evs.take(evs.len() as int) =~= evs);
        let e = evs.last();
        if e.target == s[j].id {
            lemma_find(prev, j);
        } else if has_id(prev, e.target) {
            let x = find(prev, e.target);
            assert(prev[x].id == e.target);
            assert(x != j);
        }
    }
}

/// An actor is still in the table after the lifecycle pass exactly when its
/// health is above zero.
pub proof fn lemma_survives(s: Seq<Actor>, dt: nat, id: u64)
    ensures
        has_id(survivors(s, dt), id) <==> exists|j: int|
            0 <= j < s.len() && s[j].id == id && s[j].stats.hp > 0,
    decreases s.len(),
{
    if s.len() > 0 {
        let p = s.drop_last();
        lemma_survives(p, dt, id);
        let r = survivors(p, dt);
        if has_id(survivors(s, dt), id) {
            let m = choose|m: int|
                0 <= m < survivors(s, dt).len() && survivors(s, dt)[m].id == id;
            if m < r.len() {
                assert(has_id(r, id));
                let j = choose|j: int| 0 <= j < p.len() && p[j].id == id && p[j].stats.hp > 0;
                assert(s[j] == p[j]);
            } else {
                assert(s[s.len() - 1].id == id);
            }
        }
        if exists|j: int| 0 <= j < s.len() && s[j].id == id && s[j].stats.hp > 0 {
            let j = choose|j: int| 0 <= j < s.len() && s[j].id == id && s[j].stats.hp > 0;
            if j < s.len() - 1 {
                assert(p[j] == s[j]);
                assert(has_id(r, id));
                let m = choose|m: int| 0 <= m < r.len() && r[m].id == id;
                if s.last().stats.hp > 0 {
                    assert(survivors(s, dt)[m] == r[m]);
                }
            } else {
                assert(survivors(s, dt).last().id == id);
            }
        }
    }
}

} // verus!
