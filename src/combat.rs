//! Cooldown-gated melee attacks that emit damage events.
use vstd::prelude::*;
use vstd::arithmetic::div_mod::lemma_fundamental_div_mod_converse;
use crate::actor::{autonomous, is_autonomous, Actor, AttackEvent, World};
use crate::geometry::{dist2, distance_squared};
use crate::movement::chase_point;
use crate::timer::{Timer, TimerMode};

verus! {

/// Reach of a melee attack, in sub-units.
pub const MELEE_RADIUS: i64 = 110_000;

/// Squared melee reach.
pub const MELEE2: i128 = 12_100_000_000;

pub open spec fn melee2() -> int {
    MELEE_RADIUS * MELEE_RADIUS
}

/// Whether actor `i` has a target that exists and is within melee reach.
pub open spec fn in_melee(s: Seq<Actor>, i: int) -> bool {
    chase_point(s, i) matches Some(p) && dist2(s[i].pos, p) < melee2()
}

/// Whether actor `i` takes part in the combat pass: it acts on its own, has
/// a target and an attack cooldown.
pub open spec fn fights(a: Actor) -> bool {
    autonomous(a) && a.target is Some && a.attack_timer is Some
}

/// One frame of an attack cooldown: it ticks, and when it reaches its
/// duration on this tick while an attack is possible, the attack fires and
/// the cooldown restarts from zero.
pub open spec fn cooldown_step(t: Timer, dt: nat, can_hit: bool) -> (Timer, bool) {
    let t2 = t.ticked(dt);
    if can_hit && t2.just {
        (t2.cleared(), true)
    } else {
        (t2, false)
    }
}

/// Whether actor `i` is able to land a hit this frame, cooldown aside.
pub open spec fn can_hit(s: Seq<Actor>, i: int) -> bool {
    s[i].recovered() && in_melee(s, i)
}

/// Whether actor `i` emits an attack this frame.
pub open spec fn fires(s: Seq<Actor>, i: int, dt: nat) -> bool {
    fights(s[i]) && cooldown_step(s[i].attack_timer->Some_0, dt, can_hit(s, i)).1
}

/// Actor `i` after the combat pass. An attack that fires commits the actor
/// until its cooldown next finishes; an actor that stops fighting is no
/// longer committed.
pub open spec fn fought(s: Seq<Actor>, i: int, dt: nat) -> Actor {
    if fights(s[i]) {
        let (t, fired) = cooldown_step(s[i].attack_timer->Some_0, dt, can_hit(s, i));
        Actor {
            attack_timer: Some(t),
            striking: fired || (s[i].striking && !s[i].attack_timer->Some_0.ticked(dt).just),
            ..s[i]
        }
    } else {
        Actor { striking: false, ..s[i] }
    }
}

/// The event actor `i` emits when it fires.
pub open spec fn attack_of(s: Seq<Actor>, i: int) -> AttackEvent {
    AttackEvent {
        attacker: s[i].id,
        target: s[i].target->Some_0.target,
        damage: s[i].stats.attack,
    }
}

/// The events emitted by the first `n` actors, in table order.
pub open spec fn events_upto(s: Seq<Actor>, dt: nat, n: int) -> Seq<AttackEvent>
    decreases n,
{
    if n <= 0 {
        Seq::empty()
    } else if fires(s, n - 1, dt) {
        events_upto(s, dt, n - 1).push(attack_of(s, n - 1))
    } else {
        events_upto(s, dt, n - 1)
    }
}

/// What the combat pass does to the table.
pub open spec fn combat_post(old: Seq<Actor>, new: Seq<Actor>, dt: nat) -> bool {
    &&& new.len() == old.len()
    &&& forall|i: int| 0 <= i < old.len() ==> new[i] == fought(old, i, dt)
}

/// Runs the combat pass for `dt` milliseconds and returns the attacks emitted.
pub fn resolve_attacks(world: &mut World, dt: u32) -> (events: Vec<AttackEvent>)
    requires
        old(world).wf(),
    ensures
        final(world).wf(),
        final(world).next_id == old(world).next_id,
        combat_post(old(world).actors@, final(world).actors@, dt as nat),
        events@ == events_upto(old(world).actors@, dt as nat, old(world).actors@.len() as int),
{
    let ghost s = world.actors@;
    let mut out: Vec<Actor> = Vec::new();
    let mut events: Vec<AttackEvent> = Vec::new();
    let mut i: usize = 0;
    while i < world.actors.len()
        invariant
            world.wf(),
            s == world.actors@,
            i <= s.len(),
            out@.len() == i,
            forall|k: int| 0 <= k < i ==> #[trigger] out@[k] == fought(s, k, dt as nat),
            events@ == events_upto(s, dt as nat, i as int),
        decreases s.len() - i,
    {
        let a: Actor = world.actors[i];
        assert(s[i as int].wf());
        let mut b: Actor = Actor { striking: false, ..a };
        if is_autonomous(&a) && a.target.is_some() {
            match a.attack_timer {
                None => {},
                Some(t0) => {
                    let mut t: Timer = t0;
                    t.tick(dt);
                    let hit_ok: bool = a.hit_timer.timer.finished() && within_melee_of(world, i);
                    let wrapped: bool = t.just_finished();
                    let fired: bool = hit_ok && wrapped;
                    if fired {
                        let tgt: u64 = match a.target {
                            Some(x) => x.target,
                            None => 0,
                        };
                        events.push(AttackEvent { attacker: a.id, target: tgt, damage: a.stats.attack });
                        t.reset();
                    }
                    b = Actor { attack_timer: Some(t), striking: fired || (a.striking && !wrapped), ..a };
                },
            }
        }
        out.push(b);
        i = i + 1;
    }
    world.actors = out;
    proof {
        let n = world.actors@;
        assert forall|j: int, k: int| 0 <= j < k < n.len() implies n[j].id < n[k].id by {
            assert(n[j].id == s[j].id && n[k].id == s[k].id);
        }
        assert forall|j: int| 0 <= j < n.len() implies n[j].id < world.next_id by {
            assert(n[j].id == s[j].id);
        }
        assert forall|j: int| 0 <= j < n.len() implies (#[trigger] n[j]).wf() by {
            assert(s[j].wf());
        }
    }
    events
}

fn within_melee_of(world: &World, i: usize) -> (r: bool)
    requires
        world.wf(),
        i < world.actors@.len(),
    ensures
        r == in_melee(world.actors@, i as int),
{
    let a: Actor = world.actors[i];
    assert(world.actors@[i as int].wf());
    match a.target {
        None => false,
        Some(t) => match world.index_of(t.target) {
            None => false,
            Some(j) => {
                assert(world.actors@[j as int].wf());
                distance_squared(&a.pos, &world.actors[j].pos) < MELEE2
            },
        },
    }
}

/// A cooldown after `n` frames of `dt` milliseconds during which an attack
/// was possible on every frame, and how many attacks fired.
pub open spec fn engaged(t: Timer, dt: nat, n: nat) -> (Timer, nat)
    decreases n,
{
    if n == 0 {
        (t, 0)
    } else {
        let (t1, c) = engaged(t, dt, (n - 1) as nat);
        let (t2, f) = cooldown_step(t1, dt, true);
        (t2, c + if f { 1nat } else { 0nat })
    }
}

proof fn lemma_div_parts(x: int, d: int)
    requires
        0 <= x,
        0 < d,
    ensures
        x == (x / d) * d + x % d,
        0 <= x % d < d,
        0 <= x / d,
{
    vstd::arithmetic::div_mod::lemma_fundamental_div_mod(x, d);
    vstd::arithmetic::div_mod::lemma_mod_pos_bound(x, d);
    assert(d * (x / d) == (x / d) * d) by (nonlinear_arith);
    assert(0 <= x / d) by (nonlinear_arith)
        requires
            x == (x / d) * d + x % d,
            0 <= x % d < d,
            0 <= x,
            0 < d,
    ;
}

/// Frames from a restart of the cooldown to the next attack: the cooldown
/// divided by the frame time, rounded up.
pub open spec fn frames_per_attack(duration: int, dt: int) -> int {
    (duration + dt - 1) / dt
}

proof fn lemma_period(t: Timer, dt: nat) -> (k: int)
    requires
        t.duration > 0,
        dt > 0,
    ensures
        k == frames_per_attack(t.duration as int, dt as int),
        k >= 1,
        (k - 1) * dt < t.duration <= k * dt,
{
    let k = frames_per_attack(t.duration as int, dt as int);
    let x = t.duration + dt - 1;
    lemma_div_parts(x, dt as int);
    let r = x % (dt as int);
    assert(k * dt == x - r);
    assert((k - 1) * dt == k * dt - dt) by (nonlinear_arith);
    assert(k >= 1) by (nonlinear_arith)
        requires
            k * dt >= t.duration,
            t.duration > 0,
            dt > 0,
    ;
    k
}

proof fn lemma_engaged_state(t: Timer, dt: nat, n: nat)
    requires
        t.mode == TimerMode::Repeating,
        t.elapsed == 0,
        t.duration > 0,
        dt > 0,
    ensures
        engaged(t, dt, n).0.mode == TimerMode::Repeating,
        engaged(t, dt, n).0.duration == t.duration,
        engaged(t, dt, n).0.elapsed == ((n as int) % frames_per_attack(t.duration as int, dt as int))
            * dt,
        engaged(t, dt, n).1 == (n as int) / frames_per_attack(t.duration as int, dt as int),
    decreases n,
{
    let k = lemma_period(t, dt);
    if n == 0 {
        lemma_fundamental_div_mod_converse(0, k, 0, 0);
    } else {
        let m = (n - 1) as nat;
        lemma_engaged_state(t, dt, m);
        let q = (m as int) / k;
        let r = (m as int) % k;
        lemma_div_parts(m as int, k);
        let t1 = engaged(t, dt, m).0;
        assert(t1.elapsed == r * dt);
        let total = t1.elapsed + dt;
        assert(total == (r + 1) * dt) by (nonlinear_arith)
            requires
                total == r * dt + dt,
        ;
        if r + 1 == k {
            assert(total >= t.duration);
            assert(n == (q + 1) * k + 0) by (nonlinear_arith)
                requires
                    n == m + 1,
                    m == q * k + r,
                    r + 1 == k,
            ;
            lemma_fundamental_div_mod_converse(n as int, k, q + 1, 0);
            assert(engaged(t, dt, n).0 == t1.ticked(dt).cleared());
            assert(0 * dt == 0);
        } else {
            assert(total < t.duration) by (nonlinear_arith)
                requires
                    total == (r + 1) * dt,
                    r + 1 <= k - 1,
                    (k - 1) * dt < t.duration,
                    dt > 0,
            ;
            assert(n == q * k + (r + 1));
            lemma_fundamental_div_mod_converse(n as int, k, q, r + 1);
            assert(t1.ticked(dt).elapsed == total);
            assert(engaged(t, dt, n).0 == t1.ticked(dt));
        }
    }
}

/// An actor continuously able to hit fires once every `frames_per_attack`
/// frames: `n / frames_per_attack(duration, dt)` times over `n` frames,
/// for any frame time.
pub proof fn lemma_cooldown_period(t: Timer, dt: nat, n: nat)
    requires
        t.mode == TimerMode::Repeating,
        t.elapsed == 0,
        t.duration > 0,
        dt > 0,
    ensures
        engaged(t, dt, n).1 == (n as int) / frames_per_attack(t.duration as int, dt as int),
{
    lemma_engaged_state(t, dt, n);
}

/// An actor continuously able to hit with a cooldown of `duration`
/// milliseconds, a multiple of the frame time `dt`, fires exactly
/// `floor(n * dt / duration)` times over `n` frames.
pub proof fn lemma_cooldown_fires(t: Timer, dt: nat, n: nat)
    requires
        t.mode == TimerMode::Repeating,
        t.elapsed == 0,
        t.duration > 0,
        dt > 0,
        (t.duration as int) % (dt as int) == 0,
    ensures
        engaged(t, dt, n).1 == ((n * dt) as int) / (t.duration as int),
{
    lemma_engaged_state(t, dt, n);
    let k = lemma_period(t, dt);
    lemma_div_parts(t.duration as int, dt as int);
    let j = (t.duration as int) / (dt as int);
    assert(j * dt == t.duration);
    assert(k - 1 < j && j <= k) by (nonlinear_arith)
        requires
            (k - 1) * dt < j * dt,
            j * dt <= k * dt,
            dt > 0,
    ;
    assert(k * dt == t.duration);
    let q = (n as int) / k;
    let r = (n as int) % k;
    lemma_div_parts(n as int, k);
    assert(n * dt == q * t.duration + r * dt && 0 <= r * dt < t.duration) by (nonlinear_arith)
        requires
            n == q * k + r,
            0 <= r < k,
            k * dt == t.duration,
            dt > 0,
    ;
    lemma_fundamental_div_mod_converse((n * dt) as int, t.duration as int, q, r * dt);
}

} // verus!
