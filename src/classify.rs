//! The display state of each actor, derived fresh every frame.
use vstd::prelude::*;
use crate::actor::{autonomous, is_autonomous, Actor, AnimationState, Faction, World};
use crate::combat::{in_melee, MELEE2};
use crate::geometry::{dist2, distance_squared};
use crate::movement::{chase_point, complete2, cooling, COMPLETE2};

verus! {

/// The display state of actor `i`: hurt while flinching, walking toward a
/// commanded destination that is still away, attacking a target in reach
/// while its cooldown runs, walking toward a target out of reach, else idle.
pub open spec fn display_state(s: Seq<Actor>, i: int) -> AnimationState {
    let a = s[i];
    if !a.recovered() {
        AnimationState::Hurt
    } else if a.move_to matches Some(m) && dist2(a.pos, m.loc) > complete2() {
        AnimationState::Walk
    } else if autonomous(a) && in_melee(s, i) && cooling(a) {
        AnimationState::Attack01
    } else if chase_point(s, i) is Some && !in_melee(s, i) {
        AnimationState::Walk
    } else {
        AnimationState::Idle
    }
}

/// Actor `i` after classification; the player's state is set by its controls.
pub open spec fn classified(s: Seq<Actor>, i: int) -> Actor {
    if s[i].faction == Faction::Player {
        s[i]
    } else {
        Actor { anim: display_state(s, i), ..s[i] }
    }
}

/// The display state of actor `i`, as `display_state` states it.
pub fn classify(world: &World, i: usize) -> (r: AnimationState)
    requires
        world.wf(),
        i < world.actors@.len(),
    ensures
        r == display_state(world.actors@, i as int),
{
    let a: Actor = world.actors[i];
    assert(world.actors@[i as int].wf());
    if !a.hit_timer.timer.finished() {
        return AnimationState::Hurt;
    }
    match a.move_to {
        Some(m) => {
            if distance_squared(&a.pos, &m.loc) > COMPLETE2 {
                return AnimationState::Walk;
            }
        },
        None => {},
    }
    let chase = match a.target {
        None => None,
        Some(t) => match world.index_of(t.target) {
            None => None,
            Some(j) => {
                assert(world.actors@[j as int].wf());
                Some(world.actors[j].pos)
            },
        },
    };
    assert(chase == chase_point(world.actors@, i as int));
    let reach: bool = match chase {
        None => false,
        Some(p) => distance_squared(&a.pos, &p) < MELEE2,
    };
    let held: bool = match a.attack_timer {
        Some(t) => !t.finished(),
        None => false,
    };
    if is_autonomous(&a) && reach && held {
        AnimationState::Attack01
    } else if chase.is_some() && !reach {
        AnimationState::Walk
    } else {
        AnimationState::Idle
    }
}

/// Sets the display state of every actor but the player.
pub fn classify_all(world: &mut World)
    requires
        old(world).wf(),
    ensures
        final(world).wf(),
        final(world).next_id == old(world).next_id,
        final(world).actors@.len() == old(world).actors@.len(),
        forall|i: int|
            0 <= i < old(world).actors@.len() ==> #[trigger] final(world).actors@[i] == classified(
                old(world).actors@,
                i,
            ),
{
    let ghost s = world.actors@;
    let mut out: Vec<Actor> = Vec::new();
    let mut i: usize = 0;
    while i < world.actors.len()
        invariant
            world.wf(),
            s == world.actors@,
            i <= s.len(),
            out@.len() == i,
            forall|k: int| 0 <= k < i ==> #[trigger] out@[k] == classified(s, k),
        decreases s.len() - i,
    {
        let a: Actor = world.actors[i];
        let b: Actor = match a.faction {
            Faction::Player => a,
            _ => Actor { anim: classify(world, i), ..a },
        };
        out.push(b);
        i = i + 1;
    }
    world.actors = out;
    proof {
        let n = world.actors@;
        assert forall|j: int, k: int| 0 <= j < k < n.len() implies n[j].id < n[k].id by {
            assert(n[j].id == s[j].id && n[k].id == s[k].id);
        }
        assert forall|j: int| 0 <= j < n.len() implies n[j].id < world.next_id by {
            assert(n[j].id == s[j].id);
        }
        assert forall|j: int| 0 <= j < n.len() implies (#[trigger] n[j]).wf() by {
            assert(s[j].wf());
        }
    }
}

} // verus!
