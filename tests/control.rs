use skirmish::actor::{AnimationState, Faction, MinnionMode, MoveTo, World};
use skirmish::frame::{step, SpawnLimiter};
use skirmish::geometry::Point;
use skirmish::player::{control_player, player_attack, PlayerInput};
use skirmish::selection::{command_selected, set_selected_mode, DragRect, SelectionBox};

fn no_input() -> PlayerInput {
    PlayerInput { up: false, down: false, left: false, right: false, attack: false }
}

#[test]
fn selection_box_scenario() {
    let mut w = World::new();
    let inside = w.spawn(Faction::Allied, Point::from_units(50, 50));
    let outside = w.spawn(Faction::Allied, Point::from_units(200, 200));
    let hostile = w.spawn(Faction::Hostile, Point::from_units(60, 60));
    let mut sel = SelectionBox::new();
    sel.start_drag(Point::from_units(0, 0));
    let rect = sel.update_drag(Point::from_units(100, 100)).unwrap();
    assert_eq!(rect.center(), Point::from_units(50, 50));
    assert_eq!(rect.size(), (100_000, 100_000));
    sel.end_drag(&mut w);
    assert!(w.actors[w.index_of(inside).unwrap()].selected);
    assert!(!w.actors[w.index_of(outside).unwrap()].selected);
    assert!(!w.actors[w.index_of(hostile).unwrap()].selected);
    assert_eq!(sel.start, None);
    assert_eq!(sel.end, None);
}

#[test]
fn reversed_drag_spans_same_box_and_replaces_selection() {
    let mut w = World::new();
    let first = w.spawn(Faction::Allied, Point::from_units(50, 50));
    let second = w.spawn(Faction::Allied, Point::from_units(-50, -50));
    let mut sel = SelectionBox::new();
    sel.start_drag(Point::from_units(100, 100));
    let r = sel.update_drag(Point::from_units(0, 0)).unwrap();
    assert_eq!(r, DragRect { min: Point::from_units(0, 0), max: Point::from_units(100, 100) });
    sel.end_drag(&mut w);
    assert!(w.actors[0].selected);
    sel.start_drag(Point::from_units(-100, -100));
    sel.update_drag(Point::from_units(-10, -10));
    sel.end_drag(&mut w);
    assert!(!w.actors[w.index_of(first).unwrap()].selected);
    assert!(w.actors[w.index_of(second).unwrap()].selected);
}

#[test]
fn update_without_drag_does_nothing() {
    let mut sel = SelectionBox::new();
    assert_eq!(sel.update_drag(Point::from_units(5, 5)), None);
    assert_eq!(sel, SelectionBox::new());
}

#[test]
fn commands_reach_only_selected_allies() {
    let mut w = World::new();
    let a = w.spawn(Faction::Allied, Point::from_units(0, 0));
    let b = w.spawn(Faction::Allied, Point::from_units(10, 0));
    let ai = w.index_of(a).unwrap();
    let bi = w.index_of(b).unwrap();
    w.actors[ai].selected = true;
    command_selected(&mut w, Point::from_units(300, 300));
    set_selected_mode(&mut w, MinnionMode::Passiv);
    assert_eq!(w.actors[ai].move_to, Some(MoveTo { loc: Point::from_units(300, 300) }));
    assert_eq!(w.actors[ai].mode, MinnionMode::Passiv);
    assert_eq!(w.actors[bi].move_to, None);
    assert_eq!(w.actors[bi].mode, MinnionMode::Neutral);
}

#[test]
fn player_runs_and_rests() {
    let mut w = World::new();
    let p = w.spawn(Faction::Player, Point::from_units(0, 0));
    let pi = w.index_of(p).unwrap();
    let right = PlayerInput { right: true, ..no_input() };
    control_player(&mut w, right, 100);
    assert_eq!(w.actors[pi].pos, Point::from_units(20, 0));
    assert_eq!(w.actors[pi].anim, AnimationState::RunRight);
    control_player(&mut w, PlayerInput { up: true, right: true, ..no_input() }, 100);
    assert_eq!(w.actors[pi].pos, Point::from_units(40, 20));
    control_player(&mut w, no_input(), 100);
    assert_eq!(w.actors[pi].anim, AnimationState::IdleRight);
    assert_eq!(w.actors[pi].pos, Point::from_units(40, 20));
}

#[test]
fn player_swing_holds_then_lands() {
    let mut w = World::new();
    let p = w.spawn(Faction::Player, Point::from_units(0, 0));
    let near = w.spawn(Faction::Hostile, Point::from_units(0, 350));
    let _far = w.spawn(Faction::Hostile, Point::from_units(0, -350));
    let pi = w.index_of(p).unwrap();
    // The swing timer starts at zero, so it must run out before a swing.
    assert!(player_attack(&mut w, 400).is_empty());
    control_player(&mut w, PlayerInput { up: true, ..no_input() }, 0);
    control_player(&mut w, PlayerInput { attack: true, ..no_input() }, 0);
    assert_eq!(w.actors[pi].anim, AnimationState::AttackUp);
    control_player(&mut w, PlayerInput { left: true, ..no_input() }, 100);
    assert_eq!(w.actors[pi].pos, Point::from_units(0, 0));
    assert!(player_attack(&mut w, 200).is_empty());
    let hits = player_attack(&mut w, 200);
    assert_eq!(hits.len(), 1);
    assert_eq!(hits[0].target, near);
    assert_eq!(hits[0].damage, 30);
}

#[test]
fn allied_limiter_runs_between_requests() {
    let mut lim = SpawnLimiter::allied();
    assert!(!lim.poll(100, true));
    assert!(lim.poll(100, true));
    assert!(!lim.poll(100, true));
    assert!(!lim.poll(100, false));
    assert!(lim.poll(0, true));
}

#[test]
fn hostile_limiter_waits_while_idle() {
    let mut lim = SpawnLimiter::hostile();
    assert!(!lim.poll(100, true));
    let before = lim;
    assert!(!lim.poll(500, false));
    assert_eq!(lim, before);
    assert!(lim.poll(30, true));
    assert_eq!(lim.timer.elapsed, 10);
    assert!(!lim.poll(100, true));
}

#[test]
fn frame_step_runs_a_fight_to_the_end() {
    let mut w = World::new();
    let h = w.spawn(Faction::Hostile, Point::from_units(0, 0));
    let a = w.spawn(Faction::Allied, Point::from_units(50, 0));
    let mut total = 0;
    let mut frames = 0;
    while w.index_of(a).is_some() && frames < 1000 {
        total += step(&mut w, no_input(), 100).len();
        frames += 1;
    }
    assert!(w.index_of(a).is_none());
    assert!(w.index_of(h).is_some());
    assert!(total >= 4);
}
