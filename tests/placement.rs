use skirmish::actor::{Faction, World};
use skirmish::collision::separate_actors;
use skirmish::geometry::{Point, COORD_LIMIT};
use skirmish::spawn::{spawn_at_offset, spawn_near, SPAWN_SPREAD};

#[test]
fn overlapping_units_are_pushed_apart_by_half_the_overlap() {
    let mut w = World::new();
    w.spawn(Faction::Allied, Point::from_units(0, 0));
    w.spawn(Faction::Hostile, Point::from_units(30, 0));
    w.spawn(Faction::Allied, Point::from_units(500, 500));
    separate_actors(&mut w);
    assert_eq!(w.actors[0].pos, Point::from_units(-7, 0));
    assert_eq!(w.actors[1].pos, Point::from_units(37, 0));
    assert_eq!(w.actors[2].pos, Point::from_units(500, 500));
}

#[test]
fn coincident_units_are_not_pushed() {
    let mut w = World::new();
    w.spawn(Faction::Allied, Point::from_units(10, 10));
    w.spawn(Faction::Allied, Point::from_units(10, 10));
    separate_actors(&mut w);
    assert_eq!(w.actors[0].pos, Point::from_units(10, 10));
    assert_eq!(w.actors[1].pos, Point::from_units(10, 10));
}

#[test]
fn spawn_at_offset_places_and_clamps() {
    let mut w = World::new();
    let a = spawn_at_offset(&mut w, Faction::Hostile, Point::new(0, 0), 5, -7);
    let b = spawn_at_offset(&mut w, Faction::Hostile, Point::new(COORD_LIMIT, 0), 10, 0);
    assert_eq!(a, 0);
    assert_eq!(b, 1);
    assert_eq!(w.actors[0].pos, Point::new(5, -7));
    assert_eq!(w.actors[1].pos, Point::new(COORD_LIMIT, 0));
    assert_eq!(w.next_id, 2);
}

#[test]
fn scattered_spawns_stay_within_spread_and_vary() {
    let mut w = World::new();
    let center = Point::from_units(1000, -1000);
    for _ in 0..20 {
        spawn_near(&mut w, Faction::Hostile, center);
    }
    for a in w.actors.iter() {
        assert!(a.pos.x >= center.x - SPAWN_SPREAD && a.pos.x < center.x + SPAWN_SPREAD);
        assert!(a.pos.y >= center.y - SPAWN_SPREAD && a.pos.y < center.y + SPAWN_SPREAD);
    }
    let first = w.actors[0].pos;
    assert!(w.actors.iter().any(|a| a.pos != first));
}
