//! Direct control of the player: directional movement, facing state and
//! the timed sword swing.
use vstd::prelude::*;
use crate::actor::{speed, speed_of, Actor, AnimationState, AttackEvent, Faction, World};
use crate::geometry::{clamp_coord, clamp_to_field, Point};
use crate::timer::Timer;

verus! {

/// Reach of the player's swing and its offset from the player, in sub-units.
pub const SWING_RANGE: i64 = 300_000;

/// Squared swing reach.
pub const SWING2: i128 = 90_000_000_000;

/// The buttons held this frame.
#[derive(Clone, Copy, Debug, PartialEq, Eq, Structural)]
pub struct PlayerInput {
    pub up: bool,
    pub down: bool,
    pub left: bool,
    pub right: bool,
    pub attack: bool,
}

pub open spec fn is_swing(st: AnimationState) -> bool {
    st == AnimationState::AttackUp || st == AnimationState::AttackDown || st
        == AnimationState::AttackLeft || st == AnimationState::AttackRight
}

/// The swing that starts from a state, in the direction it faces.
pub open spec fn swing_of(st: AnimationState) -> AnimationState {
    match st {
        AnimationState::RunUp | AnimationState::IdleUp => AnimationState::AttackUp,
        AnimationState::RunDown | AnimationState::IdleDown => AnimationState::AttackDown,
        AnimationState::RunLeft | AnimationState::IdleLeft => AnimationState::AttackLeft,
        AnimationState::RunRight | AnimationState::IdleRight => AnimationState::AttackRight,
        _ => AnimationState::AttackDown,
    }
}

/// The resting state facing the way a state faces.
pub open spec fn rest_of(st: AnimationState) -> AnimationState {
    match st {
        AnimationState::RunUp | AnimationState::AttackUp => AnimationState::IdleUp,
        AnimationState::RunDown | AnimationState::AttackDown => AnimationState::IdleDown,
        AnimationState::RunLeft | AnimationState::AttackLeft => AnimationState::IdleLeft,
        AnimationState::RunRight | AnimationState::AttackRight => AnimationState::IdleRight,
        _ => st,
    }
}

/// The running state the held buttons select; the last in the order up,
/// down, left, right wins.
pub open spec fn run_of(inp: PlayerInput, st: AnimationState) -> AnimationState {
    if inp.right {
        AnimationState::RunRight
    } else if inp.left {
        AnimationState::RunLeft
    } else if inp.down {
        AnimationState::RunDown
    } else if inp.up {
        AnimationState::RunUp
    } else {
        st
    }
}

pub open spec fn axis(neg: bool, pos: bool) -> int {
    (if pos { 1int } else { 0int }) - (if neg { 1int } else { 0int })
}

/// Whether a swing is under way and holds the player still.
pub open spec fn swinging(a: Actor) -> bool {
    is_swing(a.anim) && (a.attack_timer matches Some(t) && !t.is_finished())
}

/// The player after one frame of input. A swing under way ignores the
/// buttons. Otherwise the direction buttons set a velocity of one step per
/// axis and a running state; the attack button starts a swing when the
/// swing timer has finished, which stops the player; with no velocity the
/// state comes to rest facing the same way.
pub open spec fn controlled(a: Actor, inp: PlayerInput, dt: nat) -> Actor {
    if swinging(a) {
        a
    } else {
        let vx = axis(inp.left, inp.right);
        let vy = axis(inp.down, inp.up);
        let ready = a.attack_timer matches Some(t) && t.is_finished();
        if inp.attack && ready {
            Actor {
                anim: swing_of(a.anim),
                attack_timer: Some(a.attack_timer->Some_0.cleared()),
                ..a
            }
        } else {
            let step = speed_of(a.faction) * dt;
            Actor {
                anim: if vx == 0 && vy == 0 {
                    rest_of(a.anim)
                } else {
                    run_of(inp, a.anim)
                },
                pos: Point {
                    x: clamp_coord(a.pos.x + vx * step),
                    y: clamp_coord(a.pos.y + vy * step),
                },
                ..a
            }
        }
    }
}

fn swing_state(st: AnimationState) -> (r: AnimationState)
    ensures
        r == swing_of(st),
{
    match st {
        AnimationState::RunUp | AnimationState::IdleUp => AnimationState::AttackUp,
        AnimationState::RunDown | AnimationState::IdleDown => AnimationState::AttackDown,
        AnimationState::RunLeft | AnimationState::IdleLeft => AnimationState::AttackLeft,
        AnimationState::RunRight | AnimationState::IdleRight => AnimationState::AttackRight,
        _ => AnimationState::AttackDown,
    }
}

fn rest_state(st: AnimationState) -> (r: AnimationState)
    ensures
        r == rest_of(st),
{
    match st {
        AnimationState::RunUp | AnimationState::AttackUp => AnimationState::IdleUp,
        AnimationState::RunDown | AnimationState::AttackDown => AnimationState::IdleDown,
        AnimationState::RunLeft | AnimationState::AttackLeft => AnimationState::IdleLeft,
        AnimationState::RunRight | AnimationState::AttackRight => AnimationState::IdleRight,
        _ => st,
    }
}

fn is_swing_state(st: AnimationState) -> (r: bool)
    ensures
        r == is_swing(st),
{
    match st {
        AnimationState::AttackUp | AnimationState::AttackDown | AnimationState::AttackLeft
        | AnimationState::AttackRight => true,
        _ => false,
    }
}

/// The player after one frame of input, as `controlled` states it.
pub fn control(a: Actor, inp: PlayerInput, dt: u32) -> (r: Actor)
    requires
        a.wf(),
    ensures
        r == controlled(a, inp, dt as nat),
        r.wf(),
        r.id == a.id,
{
    let busy: bool = is_swing_state(a.anim) && match a.attack_timer {
        Some(t) => !t.finished(),
        None => false,
    };
    if busy {
        return a;
    }
    let vx: i128 = (if inp.right { 1 } else { 0 }) - (if inp.left { 1 } else { 0 });
    let vy: i128 = (if inp.up { 1 } else { 0 }) - (if inp.down { 1 } else { 0 });
    let ready: bool = match a.attack_timer {
        Some(t) => t.finished(),
        None => false,
    };
    if inp.attack && ready {
        let mut t: Timer = match a.attack_timer {
            Some(t) => t,
            None => Timer::new(0, crate::timer::TimerMode::Once),
        };
        t.reset();
        return Actor { anim: swing_state(a.anim), attack_timer: Some(t), ..a };
    }
    let step: i128 = speed(a.faction) as i128 * dt as i128;
    let anim: AnimationState = if vx == 0 && vy == 0 {
        rest_state(a.anim)
    } else if inp.right {
        AnimationState::RunRight
    } else if inp.left {
        AnimationState::RunLeft
    } else if inp.down {
        AnimationState::RunDown
    } else if inp.up {
        AnimationState::RunUp
    } else {
        a.anim
    };
    let mx: i128 = if vx > 0 {
        step
    } else if vx < 0 {
        -step
    } else {
        0
    };
    let my: i128 = if vy > 0 {
        step
    } else if vy < 0 {
        -step
    } else {
        0
    };
    assert(mx == vx * step && my == vy * step) by (nonlinear_arith)
        requires
            -1 <= vx <= 1,
            -1 <= vy <= 1,
            vx > 0 ==> mx == step,
            vx < 0 ==> mx == -step,
            vx == 0 ==> mx == 0,
            vy > 0 ==> my == step,
            vy < 0 ==> my == -step,
            vy == 0 ==> my == 0,
    ;
    Actor { anim, pos: Point { x: clamp_to_field(a.pos.x as i128 + mx), y: clamp_to_field(a.pos.y as i128 + my) }, ..a }
}

/// Applies the frame's input to every player actor.
pub fn control_player(world: &mut World, inp: PlayerInput, dt: u32)
    requires
        old(world).wf(),
    ensures
        final(world).wf(),
        final(world).next_id == old(world).next_id,
        final(world).actors@.len() == old(world).actors@.len(),
        forall|i: int|
            0 <= i < old(world).actors@.len() ==> #[trigger] final(world).actors@[i] == if old(
                world,
            ).actors@[i].faction == Faction::Player {
                controlled(old(world).actors@[i], inp, dt as nat)
            } else {
                old(world).actors@[i]
            },
{
    let ghost s = world.actors@;
    let mut out: Vec<Actor> = Vec::new();
    let mut i: usize = 0;
    while i < world.actors.len()
        invariant
            world.wf(),
            s == world.actors@,
            i <= s.len(),
            out@.len() == i,
            forall|k: int|
                0 <= k < i ==> #[trigger] out@[k] == if s[k].faction == Faction::Player {
                    controlled(s[k], inp, dt as nat)
                } else {
                    s[k]
                },
            forall|k: int| 0 <= k < i ==> (#[trigger] out@[k]).wf() && out@[k].id == s[k].id,
        decreases s.len() - i,
    {
        let a: Actor = world.actors[i];
        assert(s[i as int].wf());
        let b: Actor = match a.faction {
            Faction::Player => control(a, inp, dt),
            _ => a,
        };
        out.push(b);
        i = i + 1;
    }
    world.actors = out;
    proof {
        let n = world.actors@;
        assert forall|j: int, k: int| 0 <= j < k < n.len() implies n[j].id < n[k].id by {
            assert(n[j].id == s[j].id && n[k].id == s[k].id);
        }
        assert forall|j: int| 0 <= j < n.len() implies n[j].id < world.next_id by {
            assert(n[j].id == s[j].id);
        }
    }
}

/// Where a swing lands, relative to the player, by the way it faces.
pub open spec fn swing_offset(st: AnimationState) -> (int, int) {
    match st {
        AnimationState::AttackUp => (0, SWING_RANGE as int),
        AnimationState::AttackDown => (0, -SWING_RANGE),
        AnimationState::AttackLeft => (-SWING_RANGE, 0),
        AnimationState::AttackRight => (SWING_RANGE as int, 0),
        _ => (0, 0),
    }
}

/// Whether the swing of actor `i` reaches actor `k`: a hostile strictly
/// within the swing range of the point the swing lands on.
pub open spec fn swing_reaches(s: Seq<Actor>, i: int, k: int) -> bool {
    let (ox, oy) = swing_offset(s[i].anim);
    let dx = s[k].pos.x - (s[i].pos.x + ox);
    let dy = s[k].pos.y - (s[i].pos.y + oy);
    s[k].faction == Faction::Hostile && dx * dx + dy * dy < SWING2
}

/// The hits of actor `i`'s swing on the first `n` actors, in table order.
pub open spec fn swing_hits(s: Seq<Actor>, i: int, n: int) -> Seq<AttackEvent>
    decreases n,
{
    if n <= 0 {
        Seq::empty()
    } else if swing_reaches(s, i, n - 1) {
        swing_hits(s, i, n - 1).push(
            AttackEvent { attacker: s[i].id, target: s[n - 1].id, damage: s[i].stats.attack },
        )
    } else {
        swing_hits(s, i, n - 1)
    }
}

/// Whether a player's swing timer finishes on this tick, landing the swing.
pub open spec fn swing_lands(a: Actor, dt: nat) -> bool {
    a.faction == Faction::Player && (a.attack_timer matches Some(t) && t.ticked(dt).just)
}

/// Actor `a` after its swing timer runs `dt` more milliseconds.
pub open spec fn swing_ticked(a: Actor, dt: nat) -> Actor {
    if a.faction == Faction::Player && a.attack_timer is Some {
        Actor { attack_timer: Some(a.attack_timer->Some_0.ticked(dt)), ..a }
    } else {
        a
    }
}

/// The hits of the swings that land among the first `n` actors.
pub open spec fn swings_upto(s: Seq<Actor>, dt: nat, n: int) -> Seq<AttackEvent>
    decreases n,
{
    if n <= 0 {
        Seq::empty()
    } else if swing_lands(s[n - 1], dt) {
        swings_upto(s, dt, n - 1) + swing_hits(s, n - 1, s.len() as int)
    } else {
        swings_upto(s, dt, n - 1)
    }
}

fn reaches(world: &World, i: usize, k: usize) -> (r: bool)
    requires
        world.wf(),
        i < world.actors@.len(),
        k < world.actors@.len(),
    ensures
        r == swing_reaches(world.actors@, i as int, k as int),
{
    let a: Actor = world.actors[i];
    let b: Actor = world.actors[k];
    assert(world.actors@[i as int].wf() && world.actors@[k as int].wf());
    let (ox, oy): (i128, i128) = match a.anim {
        AnimationState::AttackUp => (0, SWING_RANGE as i128),
        AnimationState::AttackDown => (0, -(SWING_RANGE as i128)),
        AnimationState::AttackLeft => (-(SWING_RANGE as i128), 0),
        AnimationState::AttackRight => (SWING_RANGE as i128, 0),
        _ => (0, 0),
    };
    let dx: i128 = b.pos.x as i128 - (a.pos.x as i128 + ox);
    let dy: i128 = b.pos.y as i128 - (a.pos.y as i128 + oy);
    assert(0 <= dx * dx <= 100_000_000_000_000_000_000_000_000) by (nonlinear_arith)
        requires
            -9_000_000_000_000 <= dx <= 9_000_000_000_000,
    ;
    assert(0 <= dy * dy <= 100_000_000_000_000_000_000_000_000) by (nonlinear_arith)
        requires
            -9_000_000_000_000 <= dy <= 9_000_000_000_000,
    ;
    let hostile: bool = match b.faction {
        Faction::Hostile => true,
        _ => false,
    };
    hostile && dx * dx + dy * dy < SWING2
}

/// Ticks every player's swing timer and returns the hits of the swings
/// that land this frame.
pub fn player_attack(world: &mut World, dt: u32) -> (events: Vec<AttackEvent>)
    requires
        old(world).wf(),
    ensures
        final(world).wf(),
        final(world).next_id == old(world).next_id,
        final(world).actors@.len() == old(world).actors@.len(),
        forall|i: int|
            0 <= i < old(world).actors@.len() ==> #[trigger] final(world).actors@[i]
                == swing_ticked(old(world).actors@[i], dt as nat),
        events@ == swings_upto(old(world).actors@, dt as nat, old(world).actors@.len() as int),
{
    let ghost s = world.actors@;
    let mut events: Vec<AttackEvent> = Vec::new();
    let mut out: Vec<Actor> = Vec::new();
    let mut i: usize = 0;
    while i < world.actors.len()
        invariant
            world.wf(),
            s == world.actors@,
            i <= s.len(),
            out@.len() == i,
            forall|k: int| 0 <= k < i ==> #[trigger] out@[k] == swing_ticked(s[k], dt as nat),
            forall|k: int| 0 <= k < i ==> (#[trigger] out@[k]).wf() && out@[k].id == s[k].id,
            events@ == swings_upto(s, dt as nat, i as int),
        decreases s.len() - i,
    {
        let a: Actor = world.actors[i];
        assert(s[i as int].wf());
        let is_player: bool = match a.faction {
            Faction::Player => true,
            _ => false,
        };
        let mut b: Actor = a;
        if is_player {
            match a.attack_timer {
                None => {},
                Some(t0) => {
                    let mut t: Timer = t0;
                    t.tick(dt);
                    b = Actor { attack_timer: Some(t), ..a };
                    if t.just_finished() {
                        let ghost before = events@;
                        let mut k: usize = 0;
                        while k < world.actors.len()
                            invariant
                                world.wf(),
                                s == world.actors@,
                                i < s.len(),
                                a == s[i as int],
                                k <= s.len(),
                                events@ == before + swing_hits(s, i as int, k as int),
                            decreases s.len() - k,
                        {
                            if reaches(world, i, k) {
                                events.push(
                                    AttackEvent {
                                        attacker: a.id,
                                        target: world.actors[k].id,
                                        damage: a.stats.attack,
                                    },
                                );
                            }
                            assert(events@ =~= before + swing_hits(s, i as int, k as int + 1));
                            k = k + 1;
                        }
                    }
                },
            }
        }
        out.push(b);
        i = i + 1;
    }
    world.actors = out;
    proof {
        let n = world.actors@;
        assert forall|j: int, k: int| 0 <= j < k < n.len() implies n[j].id < n[k].id by {
            assert(n[j].id == s[j].id && n[k].id == s[k].id);
        }
        assert forall|j: int| 0 <= j < n.len() implies n[j].id < world.next_id by {
            assert(n[j].id == s[j].id);
        }
    }
    events
}

} // verus!
