//! One frame of the simulation, with every pass in its fixed order, and the
//! limiter that throttles spawning.
use vstd::prelude::*;
use crate::actor::{has_id, Actor, AttackEvent, Faction, World};
use crate::classify::{classified, classify_all};
use crate::combat::{combat_post, events_upto, resolve_attacks};
use crate::damage::{applied, apply_attacks, lemma_survives, lifecycle, survivors};
use crate::movement::{move_actors, movement_post};
use crate::player::{control_player, controlled, player_attack, swing_ticked, swings_upto, PlayerInput};
use crate::targeting::{acquire_post, release_post, resolve_targets};
use crate::timer::{Timer, TimerMode};

verus! {

/// Milliseconds between hostile spawns.
pub const HOSTILE_SPAWN_MS: u32 = 120;

/// Milliseconds between allied spawns.
pub const ALLIED_SPAWN_MS: u32 = 125;

/// Throttles how often a spawn request is granted.
#[derive(Clone, Copy, Debug, PartialEq, Eq, Structural)]
pub struct SpawnLimiter {
    pub timer: Timer,
    /// Whether the timer also runs on frames without a request.
    pub idle_ticks: bool,
}

impl SpawnLimiter {
    pub open spec fn wf(self) -> bool {
        self.timer.wf()
    }

    /// The limiter after one frame of `dt` milliseconds, and whether it
    /// grants the request. Without a request a limiter that does not tick
    /// idly is left alone. Otherwise its timer ticks, a request is granted
    /// when the timer is finished, and a grant restarts a once-timer.
    pub open spec fn polled(self, dt: nat, requested: bool) -> (SpawnLimiter, bool) {
        if !requested && !self.idle_ticks {
            (self, false)
        } else {
            let t = self.timer.ticked(dt);
            let ready = requested && t.is_finished();
            (
                SpawnLimiter {
                    timer: if ready && t.mode == TimerMode::Once {
                        t.cleared()
                    } else {
                        t
                    },
                    ..self
                },
                ready,
            )
        }
    }

    /// A limiter whose timer starts at zero.
    pub fn new(duration: u32, mode: TimerMode, idle_ticks: bool) -> (r: SpawnLimiter)
        ensures
            r.wf(),
            r.timer == (Timer { elapsed: 0, duration, mode, just: false }),
            r.idle_ticks == idle_ticks,
    {
        SpawnLimiter { timer: Timer::new(duration, mode), idle_ticks }
    }

    /// The hostile limiter: a repeating timer that runs only while spawning
    /// is requested, granting each time it wraps.
    pub fn hostile() -> (r: SpawnLimiter)
        ensures
            r.wf(),
            r.timer == (Timer {
                elapsed: 0,
                duration: HOSTILE_SPAWN_MS,
                mode: TimerMode::Repeating,
                just: false,
            }),
            !r.idle_ticks,
    {
        SpawnLimiter::new(HOSTILE_SPAWN_MS, TimerMode::Repeating, false)
    }

    /// The allied limiter: a once-timer that runs every frame and restarts
    /// on each grant.
    pub fn allied() -> (r: SpawnLimiter)
        ensures
            r.wf(),
            r.timer == (Timer {
                elapsed: 0,
                duration: ALLIED_SPAWN_MS,
                mode: TimerMode::Once,
                just: false,
            }),
            r.idle_ticks,
    {
        SpawnLimiter::new(ALLIED_SPAWN_MS, TimerMode::Once, true)
    }

    /// Advances the limiter by one frame, as `polled` states it.
    pub fn poll(&mut self, dt: u32, requested: bool) -> (ready: bool)
        requires
            old(self).wf(),
        ensures
            final(self).wf(),
            (*final(self), ready) == old(self).polled(dt as nat, requested),
    {
        if !requested && !self.idle_ticks {
            return false;
        }
        self.timer.tick(dt);
        let ready: bool = requested && self.timer.finished();
        if ready {
            match self.timer.mode {
                TimerMode::Once => self.timer.reset(),
                TimerMode::Repeating => {},
            }
        }
        ready
    }
}

/// The passes of one frame, in order: player control, acquisition,
/// release, movement, the player's swing and the combat pass, damage,
/// the lifecycle pass and classification.
pub open spec fn frame_chain(
    old: Seq<Actor>,
    c: Seq<Actor>,
    a: Seq<Actor>,
    r: Seq<Actor>,
    m: Seq<Actor>,
    w: Seq<Actor>,
    f: Seq<Actor>,
    new: Seq<Actor>,
    events: Seq<AttackEvent>,
    inp: PlayerInput,
    dt: nat,
) -> bool {
    &&& c.len() == old.len()
    &&& (forall|i: int|
        0 <= i < old.len() ==> #[trigger] c[i] == if old[i].faction == Faction::Player {
            controlled(old[i], inp, dt)
        } else {
            old[i]
        })
    &&& acquire_post(c, a)
    &&& release_post(a, r)
    &&& movement_post(r, m, dt)
    &&& w.len() == m.len()
    &&& (forall|i: int| 0 <= i < m.len() ==> #[trigger] w[i] == swing_ticked(m[i], dt))
    &&& combat_post(w, f, dt)
    &&& events == swings_upto(m, dt, m.len() as int) + events_upto(w, dt, w.len() as int)
    &&& new.len() == survivors(applied(f, events), dt).len()
    &&& forall|i: int|
        0 <= i < new.len() ==> #[trigger] new[i] == classified(survivors(applied(f, events), dt), i)
}

/// Runs one frame of `dt` milliseconds with the player's input and returns
/// the attacks that were applied.
pub fn step(world: &mut World, inp: PlayerInput, dt: u32) -> (events: Vec<AttackEvent>)
    requires
        old(world).wf(),
    ensures
        final(world).wf(),
        final(world).next_id == old(world).next_id,
        exists|
            c: Seq<Actor>,
            a: Seq<Actor>,
            r: Seq<Actor>,
            m: Seq<Actor>,
            w: Seq<Actor>,
            f: Seq<Actor>,
        |
            #[trigger] frame_chain(
                old(world).actors@,
                c,
                a,
                r,
                m,
                w,
                f,
                final(world).actors@,
                events@,
                inp,
                dt as nat,
            ),
{
    control_player(world, inp, dt);
    let ghost c = world.actors@;
    resolve_targets(world);
    let ghost r = world.actors@;
    move_actors(world, dt);
    let ghost m = world.actors@;
    let mut events: Vec<AttackEvent> = player_attack(world, dt);
    let ghost w = world.actors@;
    let mut fought: Vec<AttackEvent> = resolve_attacks(world, dt);
    let ghost f = world.actors@;
    let ghost e1 = events@;
    let ghost e2 = fought@;
    events.append(&mut fought);
    assert(events@ == e1 + e2);
    apply_attacks(world, &events);
    lifecycle(world, dt);
    classify_all(world);
    let ghost a = choose|a: Seq<Actor>| acquire_post(c, a) && release_post(a, r);
    assert(frame_chain(old(world).actors@, c, a, r, m, w, f, world.actors@, events@, inp, dt as nat));
    events
}

/// An actor is gone at the end of a frame exactly when the damage applied
/// in that frame left it with no health above zero: removal never waits
/// for a later frame.
pub proof fn lemma_removed_same_frame(
    old: Seq<Actor>,
    c: Seq<Actor>,
    a: Seq<Actor>,
    r: Seq<Actor>,
    m: Seq<Actor>,
    w: Seq<Actor>,
    f: Seq<Actor>,
    new: Seq<Actor>,
    events: Seq<AttackEvent>,
    inp: PlayerInput,
    dt: nat,
    id: u64,
)
    requires
        frame_chain(old, c, a, r, m, w, f, new, events, inp, dt),
    ensures
        has_id(new, id) <==> exists|j: int|
            0 <= j < applied(f, events).len() && applied(f, events)[j].id == id && applied(
                f,
                events,
            )[j].stats.hp > 0,
{
    let l = survivors(applied(f, events), dt);
    lemma_survives(applied(f, events), dt, id);
    if has_id(new, id) {
        let j = choose|j: int| 0 <= j < new.len() && new[j].id == id;
        assert(new[j] == classified(l, j));
        assert(l[j].id == id);
    }
    if has_id(l, id) {
        let j = choose|j: int| 0 <= j < l.len() && l[j].id == id;
        assert(new[j] == classified(l, j));
        assert(new[j].id == id);
    }
}

} // verus!
