//! Drag-box selection of allied units and the commands given to them.
use vstd::prelude::*;
use crate::actor::{table_wf, Actor, Faction, MinnionMode, MoveTo, World};
use crate::geometry::Point;

verus! {

/// An axis-aligned box given by its lower and upper corners.
#[derive(Clone, Copy, Debug, PartialEq, Eq, Structural)]
pub struct DragRect {
    pub min: Point,
    pub max: Point,
}

/// The box spanned by two corners.
pub open spec fn span(a: Point, b: Point) -> DragRect {
    DragRect {
        min: Point {
            x: if a.x <= b.x { a.x } else { b.x },
            y: if a.y <= b.y { a.y } else { b.y },
        },
        max: Point {
            x: if a.x <= b.x { b.x } else { a.x },
            y: if a.y <= b.y { b.y } else { a.y },
        },
    }
}

pub open spec fn inside(p: Point, r: DragRect) -> bool {
    r.min.x <= p.x <= r.max.x && r.min.y <= p.y <= r.max.y
}

impl DragRect {
    /// The box spanned by two corners.
    pub fn spanning(a: Point, b: Point) -> (r: DragRect)
        ensures
            r == span(a, b),
    {
        DragRect {
            min: Point {
                x: if a.x <= b.x { a.x } else { b.x },
                y: if a.y <= b.y { a.y } else { b.y },
            },
            max: Point {
                x: if a.x <= b.x { b.x } else { a.x },
                y: if a.y <= b.y { b.y } else { a.y },
            },
        }
    }

    /// The center of the box, rounded toward its lower corner.
    pub fn center(&self) -> (r: Point)
        requires
            self.min.x <= self.max.x,
            self.min.y <= self.max.y,
        ensures
            r.x == self.min.x + (self.max.x - self.min.x) / 2,
            r.y == self.min.y + (self.max.y - self.min.y) / 2,
    {
        let hx: i128 = (self.max.x as i128 - self.min.x as i128) / 2;
        let hy: i128 = (self.max.y as i128 - self.min.y as i128) / 2;
        Point { x: (self.min.x as i128 + hx) as i64, y: (self.min.y as i128 + hy) as i64 }
    }

    /// Width and height of the box.
    pub fn size(&self) -> (r: (u64, u64))
        requires
            self.min.x <= self.max.x,
            self.min.y <= self.max.y,
        ensures
            r.0 == self.max.x - self.min.x,
            r.1 == self.max.y - self.min.y,
    {
        (
            (self.max.x as i128 - self.min.x as i128) as u64,
            (self.max.y as i128 - self.min.y as i128) as u64,
        )
    }

    pub fn contains(&self, p: &Point) -> (r: bool)
        ensures
            r == inside(*p, *self),
    {
        self.min.x <= p.x && p.x <= self.max.x && self.min.y <= p.y && p.y <= self.max.y
    }
}

/// The state of a drag gesture: idle when `start` is empty.
#[derive(Clone, Copy, Debug, PartialEq, Eq, Structural)]
pub struct SelectionBox {
    pub start: Option<Point>,
    pub end: Option<Point>,
}

/// Actor `a` after a drag that spans `r` completes.
pub open spec fn reselected(a: Actor, r: DragRect) -> Actor {
    Actor { selected: a.faction == Faction::Allied && inside(a.pos, r), ..a }
}

/// Actor `a` after a move command to `p`.
pub open spec fn commanded(a: Actor, p: Point) -> Actor {
    if a.selected && a.faction == Faction::Allied {
        Actor { move_to: Some(MoveTo { loc: p }), ..a }
    } else {
        a
    }
}

/// Actor `a` after a mode change to `m`.
pub open spec fn moded(a: Actor, m: MinnionMode) -> Actor {
    if a.selected && a.faction == Faction::Allied {
        Actor { mode: m, ..a }
    } else {
        a
    }
}

/// Whether `new` is `old` with each actor changed by `f`, which keeps ids.
pub open spec fn mapped(old: Seq<Actor>, new: Seq<Actor>, f: spec_fn(Actor) -> Actor) -> bool {
    &&& new.len() == old.len()
    &&& forall|i: int| 0 <= i < old.len() ==> #[trigger] new[i] == f(old[i])
}

impl SelectionBox {
    pub fn new() -> (r: SelectionBox)
        ensures
            r.start is None,
            r.end is None,
    {
        SelectionBox { start: None, end: None }
    }

    /// Begins a drag at `p`.
    pub fn start_drag(&mut self, p: Point)
        ensures
            final(self).start == Some(p),
            final(self).end == Some(p),
    {
        self.start = Some(p);
        self.end = Some(p);
    }

    /// Moves the dragged corner to `p` and returns the box to draw, if a
    /// drag is under way.
    pub fn update_drag(&mut self, p: Point) -> (r: Option<DragRect>)
        ensures
            old(self).start matches Some(s) ==> r == Some(span(s, p)) && *final(self) == (
            SelectionBox { start: old(self).start, end: Some(p) }),
            old(self).start is None ==> r is None && *final(self) == *old(self),
    {
        match self.start {
            None => None,
            Some(s) => {
                self.end = Some(p);
                Some(DragRect::spanning(s, p))
            },
        }
    }

    /// Completes the drag: every allied actor inside the box becomes
    /// selected and every other actor unselected. The gesture returns to idle.
    pub fn end_drag(&mut self, world: &mut World)
        requires
            old(world).wf(),
        ensures
            final(world).wf(),
            final(world).next_id == old(world).next_id,
            final(self).start is None,
            final(self).end is None,
            old(self).start is Some && old(self).end is Some ==> mapped(
                old(world).actors@,
                final(world).actors@,
                |a: Actor|
                    reselected(a, span(old(self).start->Some_0, old(self).end->Some_0)),
            ),
            !(old(self).start is Some && old(self).end is Some) ==> final(world).actors@ == old(
                world,
            ).actors@,
    {
        match (self.start, self.end) {
            (Some(s), Some(e)) => {
                select_in(world, DragRect::spanning(s, e));
            },
            _ => {},
        }
        self.start = None;
        self.end = None;
    }
}

proof fn lemma_same_frame(old: Seq<Actor>, new: Seq<Actor>, next_id: u64)
    requires
        table_wf(old, next_id),
        new.len() == old.len(),
        forall|i: int|
            0 <= i < old.len() ==> #[trigger] new[i].id == old[i].id && new[i].pos == old[i].pos
                && new[i].move_to == old[i].move_to && new[i].attack_timer == old[i].attack_timer
                && new[i].hit_timer == old[i].hit_timer && new[i].invincibility
                == old[i].invincibility,
    ensures
        table_wf(new, next_id),
{
    assert forall|j: int, k: int| 0 <= j < k < new.len() implies new[j].id < new[k].id by {
        assert(new[j].id == old[j].id && new[k].id == old[k].id);
    }
    assert forall|j: int| 0 <= j < new.len() implies new[j].id < next_id by {
        assert(new[j].id == old[j].id);
    }
    assert forall|j: int| 0 <= j < new.len() implies (#[trigger] new[j]).wf() by {
        assert(new[j].id == old[j].id);
        assert(old[j].wf());
    }
}

/// Selects exactly the allied actors inside `r`.
pub fn select_in(world: &mut World, r: DragRect)
    requires
        old(world).wf(),
    ensures
        final(world).wf(),
        final(world).next_id == old(world).next_id,
        mapped(old(world).actors@, final(world).actors@, |a: Actor| reselected(a, r)),
{
    let ghost s = world.actors@;
    let mut out: Vec<Actor> = Vec::new();
    let mut i: usize = 0;
    while i < world.actors.len()
        invariant
            world.wf(),
            s == world.actors@,
            i <= s.len(),
            out@.len() == i,
            forall|k: int| 0 <= k < i ==> #[trigger] out@[k] == reselected(s[k], r),
        decreases s.len() - i,
    {
        let a: Actor = world.actors[i];
        let allied: bool = match a.faction {
            Faction::Allied => true,
            _ => false,
        };
        out.push(Actor { selected: allied && r.contains(&a.pos), ..a });
        i = i + 1;
    }
    world.actors = out;
    proof {
        lemma_same_frame(s, world.actors@, world.next_id);
    }
}

/// Orders every selected allied unit to move to `p`.
pub fn command_selected(world: &mut World, p: Point)
    requires
        old(world).wf(),
        p.in_bounds(),
    ensures
        final(world).wf(),
        final(world).next_id == old(world).next_id,
        mapped(old(world).actors@, final(world).actors@, |a: Actor| commanded(a, p)),
{
    let ghost s = world.actors@;
    let mut out: Vec<Actor> = Vec::new();
    let mut i: usize = 0;
    while i < world.actors.len()
        invariant
            world.wf(),
            p.in_bounds(),
            s == world.actors@,
            i <= s.len(),
            out@.len() == i,
            forall|k: int| 0 <= k < i ==> #[trigger] out@[k] == commanded(s[k], p),
            forall|k: int| 0 <= k < i ==> (#[trigger] out@[k]).wf() && out@[k].id == s[k].id,
        decreases s.len() - i,
    {
        let a: Actor = world.actors[i];
        assert(s[i as int].wf());
        let allied: bool = match a.faction {
            Faction::Allied => true,
            _ => false,
        };
        if a.selected && allied {
            out.push(Actor { move_to: Some(MoveTo { loc: p }), ..a });
        } else {
            out.push(a);
        }
        i = i + 1;
    }
    world.actors = out;
    proof {
        let n = world.actors@;
        assert forall|j: int, k: int| 0 <= j < k < n.len() implies n[j].id < n[k].id by {
            assert(n[j].id == s[j].id && n[k].id == s[k].id);
        }
        assert forall|j: int| 0 <= j < n.len() implies n[j].id < world.next_id by {
            assert(n[j].id == s[j].id);
        }
    }
}

/// Sets the mode of every selected allied unit.
pub fn set_selected_mode(world: &mut World, m: MinnionMode)
    requires
        old(world).wf(),
    ensures
        final(world).wf(),
        final(world).next_id == old(world).next_id,
        mapped(old(world).actors@, final(world).actors@, |a: Actor| moded(a, m)),
{
    let ghost s = world.actors@;
    let mut out: Vec<Actor> = Vec::new();
    let mut i: usize = 0;
    while i < world.actors.len()
        invariant
            world.wf(),
            s == world.actors@,
            i <= s.len(),
            out@.len() == i,
            forall|k: int| 0 <= k < i ==> #[trigger] out@[k] == moded(s[k], m),
        decreases s.len() - i,
    {
        let a: Actor = world.actors[i];
        let allied: bool = match a.faction {
            Faction::Allied => true,
            _ => false,
        };
        if a.selected && allied {
            out.push(Actor { mode: m, ..a });
        } else {
            out.push(a);
        }
        i = i + 1;
    }
    world.actors = out;
    proof {
        lemma_same_frame(s, world.actors@, world.next_id);
    }
}

} // verus!
