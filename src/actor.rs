//! The actor table: every simulated entity with its stats, timers and directives.
use vstd::prelude::*;
use crate::geometry::Point;
use crate::timer::{Timer, TimerMode};

verus! {

/// Which side an actor fights on.
#[derive(Clone, Copy, Debug, PartialEq, Eq, Structural)]
pub enum Faction {
    Player,
    Allied,
    Hostile,
}

/// Horizontal facing of an actor's sprite.
#[derive(Clone, Copy, Debug, PartialEq, Eq, Structural)]
pub enum Facing {
    Left,
    Right,
}

/// Autonomy setting of an allied unit.
#[derive(Clone, Copy, Debug, PartialEq, Eq, Structural)]
pub enum MinnionMode {
    Neutral,
    Aggresiv,
    Passiv,
}

/// Display state derived each frame.
#[derive(Clone, Copy, Debug, PartialEq, Eq, Structural)]
pub enum AnimationState {
    Idle,
    Walk,
    Attack01,
    Attack02,
    Hurt,
    IdleUp,
    IdleDown,
    IdleLeft,
    IdleRight,
    RunUp,
    RunDown,
    RunLeft,
    RunRight,
    WalkUp,
    WalkDown,
    WalkRight,
    WalkLeft,
    AttackUp,
    AttackDown,
    AttackLeft,
    AttackRight,
}

/// Health and attack power.
#[derive(Clone, Copy, Debug, PartialEq, Eq, Structural)]
pub struct Stats {
    pub hp: i32,
    pub max_hp: i32,
    pub attack: i32,
}

/// Collision and reach radius, in sub-units.
#[derive(Clone, Copy, Debug, PartialEq, Eq, Structural)]
pub struct Collider {
    pub radius: u32,
}

/// The actor being pursued, by id.
#[derive(Clone, Copy, Debug, PartialEq, Eq, Structural)]
pub struct Target {
    pub target: u64,
}

/// A commanded destination.
#[derive(Clone, Copy, Debug, PartialEq, Eq, Structural)]
pub struct MoveTo {
    pub loc: Point,
}

/// How long an actor flinches after a hit.
#[derive(Clone, Copy, Debug, PartialEq, Eq, Structural)]
pub struct HitReactionTimer {
    pub timer: Timer,
}

/// Damage immunity window, held by the player.
#[derive(Clone, Copy, Debug, PartialEq, Eq, Structural)]
pub struct InvincibilityTimer {
    pub timer: Timer,
}

/// A damage message from one actor to another, alive for one frame.
#[derive(Clone, Copy, Debug, PartialEq, Eq, Structural)]
pub struct AttackEvent {
    pub attacker: u64,
    pub target: u64,
    pub damage: i32,
}

/// One simulated entity.
#[derive(Clone, Copy, Debug, PartialEq, Eq, Structural)]
pub struct Actor {
    pub id: u64,
    pub faction: Faction,
    pub pos: Point,
    pub facing: Facing,
    pub collider: Collider,
    pub stats: Stats,
    pub target: Option<Target>,
    pub move_to: Option<MoveTo>,
    pub mode: MinnionMode,
    /// Attack cooldown; for the player, the swing timer.
    pub attack_timer: Option<Timer>,
    /// Whether the running attack cooldown was started by an attack that
    /// landed; only then does it hold the actor in place.
    pub striking: bool,
    pub hit_timer: HitReactionTimer,
    pub invincibility: Option<InvincibilityTimer>,
    pub anim: AnimationState,
    pub selected: bool,
}

/// Hit points every actor starts with.
pub const START_HP: i32 = 100;
pub const HOSTILE_ATTACK: i32 = 30;
pub const ALLIED_ATTACK: i32 = 25;
pub const PLAYER_ATTACK: i32 = 30;
pub const UNIT_RADIUS: u32 = 22_000;
pub const PLAYER_RADIUS: u32 = 30_000;
/// Milliseconds between attacks of autonomous units.
pub const ATTACK_COOLDOWN_MS: u32 = 600;
pub const HOSTILE_HIT_MS: u32 = 200;
pub const ALLIED_HIT_MS: u32 = 400;
pub const PLAYER_HIT_MS: u32 = 200;
pub const PLAYER_SWING_MS: u32 = 320;
pub const PLAYER_INVINCIBLE_MS: u32 = 300;

impl Actor {
    pub open spec fn wf(self) -> bool {
        &&& self.pos.in_bounds()
        &&& (self.move_to matches Some(m) ==> m.loc.in_bounds())
        &&& (self.attack_timer matches Some(t) ==> t.wf())
        &&& self.hit_timer.timer.wf()
        &&& (self.invincibility matches Some(t) ==> t.timer.wf())
    }

    /// Whether the actor is no longer flinching from a hit.
    pub open spec fn recovered(self) -> bool {
        self.hit_timer.timer.is_finished()
    }
}

/// Whether actors of these factions fight each other.
pub open spec fn opposed(a: Faction, b: Faction) -> bool {
    (a == Faction::Hostile) != (b == Faction::Hostile)
}

/// Whether an actor picks and attacks targets on its own.
pub open spec fn autonomous(a: Actor) -> bool {
    a.faction == Faction::Hostile || (a.faction == Faction::Allied && a.mode
        == MinnionMode::Aggresiv)
}

/// Movement speed in sub-units per millisecond (world units per second).
pub open spec fn speed_of(f: Faction) -> int {
    match f {
        Faction::Player => 200,
        _ => 100,
    }
}

pub fn opposes(a: Faction, b: Faction) -> (r: bool)
    ensures
        r == opposed(a, b),
{
    let ah: bool = match a {
        Faction::Hostile => true,
        _ => false,
    };
    let bh: bool = match b {
        Faction::Hostile => true,
        _ => false,
    };
    ah != bh
}

pub fn is_autonomous(a: &Actor) -> (r: bool)
    ensures
        r == autonomous(*a),
{
    match a.faction {
        Faction::Hostile => true,
        Faction::Allied => match a.mode {
            MinnionMode::Aggresiv => true,
            _ => false,
        },
        Faction::Player => false,
    }
}

pub fn speed(f: Faction) -> (r: u32)
    ensures
        r == speed_of(f),
{
    match f {
        Faction::Player => 200,
        _ => 100,
    }
}

/// Whether some actor in `s` has this id.
pub open spec fn has_id(s: Seq<Actor>, id: u64) -> bool {
    exists|j: int| 0 <= j < s.len() && s[j].id == id
}

/// The position in `s` of the actor with this id.
pub open spec fn find(s: Seq<Actor>, id: u64) -> int {
    choose|j: int| 0 <= j < s.len() && s[j].id == id
}

pub open spec fn ids_increasing(s: Seq<Actor>) -> bool {
    forall|j: int, k: int| 0 <= j < k < s.len() ==> s[j].id < s[k].id
}

/// A well-formed actor table: ids strictly increase along it, stay below
/// `next_id`, and every actor is well formed.
pub open spec fn table_wf(s: Seq<Actor>, next_id: u64) -> bool {
    &&& ids_increasing(s)
    &&& forall|j: int| 0 <= j < s.len() ==> s[j].id < next_id
    &&& forall|j: int| 0 <= j < s.len() ==> (#[trigger] s[j]).wf()
}

pub proof fn lemma_find(s: Seq<Actor>, j: int)
    requires
        ids_increasing(s),
        0 <= j < s.len(),
    ensures
        has_id(s, s[j].id),
        find(s, s[j].id) == j,
{
    let k = find(s, s[j].id);
    assert(0 <= k < s.len() && s[k].id == s[j].id);
}

/// Every actor, in order of creation.
pub struct World {
    pub actors: Vec<Actor>,
    pub next_id: u64,
}

impl World {
    pub open spec fn wf(self) -> bool {
        table_wf(self.actors@, self.next_id)
    }

    /// An empty field.
    pub fn new() -> (r: World)
        ensures
            r.wf(),
            r.actors@.len() == 0,
            r.next_id == 0,
    {
        World { actors: Vec::new(), next_id: 0 }
    }

    /// The position in the table of the actor with this id, if it exists.
    pub fn index_of(&self, id: u64) -> (r: Option<usize>)
        requires
            self.wf(),
        ensures
            r matches Some(j) ==> j < self.actors@.len() && self.actors@[j as int].id == id && j
                == find(self.actors@, id),
            r is None <==> !has_id(self.actors@, id),
    {
        let mut j: usize = 0;
        while j < self.actors.len()
            invariant
                self.wf(),
                j <= self.actors@.len(),
                forall|k: int| 0 <= k < j ==> self.actors@[k].id != id,
            decreases self.actors@.len() - j,
        {
            if self.actors[j].id == id {
                proof {
                    lemma_find(self.actors@, j as int);
                }
                return Some(j);
            }
            j = j + 1;
        }
        None
    }

    /// Adds a new actor of the given faction at `pos` and returns its id.
    pub fn spawn(&mut self, faction: Faction, pos: Point) -> (r: u64)
        requires
            old(self).wf(),
            old(self).next_id < u64::MAX,
            pos.in_bounds(),
        ensures
            final(self).wf(),
            r == old(self).next_id,
            final(self).next_id == r + 1,
            final(self).actors@ == old(self).actors@.push(fresh_actor(r, faction, pos)),
    {
        let id: u64 = self.next_id;
        let a: Actor = new_actor(id, faction, pos);
        self.actors.push(a);
        self.next_id = id + 1;
        proof {
            let s = self.actors@;
            assert forall|j: int| 0 <= j < s.len() implies (#[trigger] s[j]).wf() by {
                if j < s.len() - 1 {
                    assert(old(self).actors@[j].wf());
                }
            }
        }
        id
    }
}

/// The actor that `spawn` creates.
pub open spec fn fresh_actor(id: u64, faction: Faction, pos: Point) -> Actor {
    let (stats, hit_ms, attack_timer, radius) = match faction {
        Faction::Hostile => (
            Stats { hp: START_HP, max_hp: START_HP, attack: HOSTILE_ATTACK },
            HOSTILE_HIT_MS,
            Timer { elapsed: 0, duration: ATTACK_COOLDOWN_MS, mode: TimerMode::Repeating, just: false },
            UNIT_RADIUS,
        ),
        Faction::Allied => (
            Stats { hp: START_HP, max_hp: START_HP, attack: ALLIED_ATTACK },
            ALLIED_HIT_MS,
            Timer { elapsed: 0, duration: ATTACK_COOLDOWN_MS, mode: TimerMode::Repeating, just: false },
            UNIT_RADIUS,
        ),
        Faction::Player => (
            Stats { hp: START_HP, max_hp: START_HP, attack: PLAYER_ATTACK },
            PLAYER_HIT_MS,
            Timer { elapsed: 0, duration: PLAYER_SWING_MS, mode: TimerMode::Once, just: false },
            PLAYER_RADIUS,
        ),
    };
    Actor {
        id,
        faction,
        pos,
        facing: Facing::Right,
        collider: Collider { radius },
        stats,
        target: None,
        move_to: None,
        mode: MinnionMode::Neutral,
        attack_timer: Some(attack_timer),
        striking: false,
        hit_timer: HitReactionTimer {
            timer: Timer { elapsed: hit_ms, duration: hit_ms, mode: TimerMode::Once, just: false },
        },
        invincibility: if faction == Faction::Player {
            Some(
                InvincibilityTimer {
                    timer: Timer {
                        elapsed: 0,
                        duration: PLAYER_INVINCIBLE_MS,
                        mode: TimerMode::Once,
                        just: false,
                    },
                },
            )
        } else {
            None
        },
        anim: if faction == Faction::Player {
            AnimationState::IdleDown
        } else {
            AnimationState::Idle
        },
        selected: false,
    }
}

fn new_actor(id: u64, faction: Faction, pos: Point) -> (r: Actor)
    requires
        pos.in_bounds(),
    ensures
        r == fresh_actor(id, faction, pos),
        r.wf(),
{
    let (stats, hit_ms, attack_timer, radius) = match faction {
        Faction::Hostile => (
            Stats { hp: START_HP, max_hp: START_HP, attack: HOSTILE_ATTACK },
            HOSTILE_HIT_MS,
            Timer::new(ATTACK_COOLDOWN_MS, TimerMode::Repeating),
            UNIT_RADIUS,
        ),
        Faction::Allied => (
            Stats { hp: START_HP, max_hp: START_HP, attack: ALLIED_ATTACK },
            ALLIED_HIT_MS,
            Timer::new(ATTACK_COOLDOWN_MS, TimerMode::Repeating),
            UNIT_RADIUS,
        ),
        Faction::Player => (
            Stats { hp: START_HP, max_hp: START_HP, attack: PLAYER_ATTACK },
            PLAYER_HIT_MS,
            Timer::new(PLAYER_SWING_MS, TimerMode::Once),
            PLAYER_RADIUS,
        ),
    };
    let is_player: bool = match faction {
        Faction::Player => true,
        _ => false,
    };
    Actor {
        id,
        faction,
        pos,
        facing: Facing::Right,
        collider: Collider { radius },
        stats,
        target: None,
        move_to: None,
        mode: MinnionMode::Neutral,
        attack_timer: Some(attack_timer),
        striking: false,
        hit_timer: HitReactionTimer { timer: Timer::expired(hit_ms) },
        invincibility: if is_player {
            Some(InvincibilityTimer { timer: Timer::new(PLAYER_INVINCIBLE_MS, TimerMode::Once) })
        } else {
            None
        },
        anim: if is_player {
            AnimationState::IdleDown
        } else {
            AnimationState::Idle
        },
        selected: false,
    }
}

} // verus!
