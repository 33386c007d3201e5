use skirmish::actor::{AnimationState, AttackEvent, Faction, MinnionMode, MoveTo, Target, World};
use skirmish::classify::{classify, classify_all};
use skirmish::combat::resolve_attacks;
use skirmish::damage::{apply_attacks, lifecycle};
use skirmish::geometry::{distance_squared, isqrt, steer_toward, Point};
use skirmish::movement::{desired, move_actors};
use skirmish::targeting::{acquire_targets, nearest_target, release_targets};
use skirmish::timer::{Timer, TimerMode};

fn two_sides(ally_x: i32) -> (World, u64, u64) {
    let mut w = World::new();
    let h = w.spawn(Faction::Hostile, Point::from_units(0, 0));
    let a = w.spawn(Faction::Allied, Point::from_units(ally_x, 0));
    (w, h, a)
}

#[test]
fn acquisition_then_release_scenario() {
    let (mut w, h, a) = two_sides(400);
    acquire_targets(&mut w);
    let hi = w.index_of(h).unwrap();
    assert_eq!(w.actors[hi].target, Some(Target { target: a }));
    let ai = w.index_of(a).unwrap();
    w.actors[ai].pos = Point::from_units(600, 0);
    release_targets(&mut w);
    assert_eq!(w.actors[hi].target, None);
}

#[test]
fn target_between_radii_is_kept_but_not_acquired() {
    let (mut w, h, a) = two_sides(520);
    acquire_targets(&mut w);
    let hi = w.index_of(h).unwrap();
    assert_eq!(w.actors[hi].target, None);
    w.actors[hi].target = Some(Target { target: a });
    release_targets(&mut w);
    assert_eq!(w.actors[hi].target, Some(Target { target: a }));
}

#[test]
fn release_at_exact_radius_keeps_target() {
    let (mut w, h, a) = two_sides(550);
    let hi = w.index_of(h).unwrap();
    w.actors[hi].target = Some(Target { target: a });
    release_targets(&mut w);
    assert_eq!(w.actors[hi].target, Some(Target { target: a }));
}

#[test]
fn acquisition_radius_is_strict() {
    let (mut w, h, _a) = two_sides(500);
    acquire_targets(&mut w);
    let hi = w.index_of(h).unwrap();
    assert_eq!(w.actors[hi].target, None);
}

#[test]
fn release_when_target_removed() {
    let (mut w, h, a) = two_sides(100);
    let hi = w.index_of(h).unwrap();
    w.actors[hi].target = Some(Target { target: a });
    w.actors.remove(1);
    release_targets(&mut w);
    assert_eq!(w.actors[0].target, None);
}

#[test]
fn nearest_candidate_wins_and_ties_go_to_first() {
    let mut w = World::new();
    let h = w.spawn(Faction::Hostile, Point::from_units(0, 0));
    let far = w.spawn(Faction::Allied, Point::from_units(300, 0));
    let near = w.spawn(Faction::Allied, Point::from_units(0, 200));
    let tie = w.spawn(Faction::Player, Point::from_units(-200, 0));
    let _other_hostile = w.spawn(Faction::Hostile, Point::from_units(10, 0));
    assert_ne!(far, near);
    assert_eq!(nearest_target(&w, w.index_of(h).unwrap()), Some(Target { target: near }));
    assert_ne!(tie, near);
}

#[test]
fn neutral_ally_does_not_acquire_but_aggressive_does() {
    let (mut w, h, a) = two_sides(100);
    let ai = w.index_of(a).unwrap();
    acquire_targets(&mut w);
    assert_eq!(w.actors[ai].target, None);
    w.actors[ai].mode = MinnionMode::Aggresiv;
    acquire_targets(&mut w);
    assert_eq!(w.actors[ai].target, Some(Target { target: h }));
}

#[test]
fn lethal_hit_removes_actor() {
    let (mut w, h, a) = two_sides(100);
    let ai = w.index_of(a).unwrap();
    assert_eq!(w.actors[ai].stats.hp, 100);
    apply_attacks(&mut w, &vec![AttackEvent { attacker: h, target: a, damage: 120 }]);
    assert_eq!(w.actors[ai].stats.hp, -20);
    lifecycle(&mut w, 16);
    assert_eq!(w.index_of(a), None);
    assert!(w.index_of(h).is_some());
}

#[test]
fn damage_accumulates_and_actor_survives_above_zero() {
    let (mut w, h, a) = two_sides(100);
    let evs = vec![
        AttackEvent { attacker: h, target: a, damage: 10 },
        AttackEvent { attacker: h, target: a, damage: 20 },
        AttackEvent { attacker: h, target: a, damage: 30 },
    ];
    apply_attacks(&mut w, &evs);
    let ai = w.index_of(a).unwrap();
    assert_eq!(w.actors[ai].stats.hp, 40);
    lifecycle(&mut w, 16);
    assert!(w.index_of(a).is_some());
}

#[test]
fn damage_to_exactly_zero_removes() {
    let (mut w, h, a) = two_sides(100);
    apply_attacks(&mut w, &vec![AttackEvent { attacker: h, target: a, damage: 100 }]);
    lifecycle(&mut w, 16);
    assert_eq!(w.index_of(a), None);
}

#[test]
fn event_for_missing_actor_is_skipped() {
    let (mut w, h, _a) = two_sides(100);
    let before = w.actors.clone();
    apply_attacks(&mut w, &vec![AttackEvent { attacker: h, target: 99, damage: 50 }]);
    assert_eq!(w.actors, before);
}

#[test]
fn hit_restarts_reaction_and_provokes_neutral_ally() {
    let (mut w, h, a) = two_sides(100);
    let ai = w.index_of(a).unwrap();
    assert!(w.actors[ai].hit_timer.timer.finished());
    apply_attacks(&mut w, &vec![AttackEvent { attacker: h, target: a, damage: 5 }]);
    assert_eq!(w.actors[ai].hit_timer.timer.elapsed, 0);
    assert!(!w.actors[ai].hit_timer.timer.finished());
    assert_eq!(w.actors[ai].mode, MinnionMode::Aggresiv);
    assert_eq!(classify(&w, ai), AnimationState::Hurt);
}

#[test]
fn cooldown_fires_once_per_period() {
    let (mut w, h, a) = two_sides(50);
    let hi = w.index_of(h).unwrap();
    w.actors[hi].target = Some(Target { target: a });
    let mut count = 0;
    for _ in 0..30 {
        let evs = resolve_attacks(&mut w, 100);
        assert!(evs.len() <= 1);
        for e in evs.iter() {
            assert_eq!(*e, AttackEvent { attacker: h, target: a, damage: 30 });
        }
        count += evs.len();
    }
    assert_eq!(count, 5);
}

#[test]
fn no_attack_out_of_melee_range() {
    let (mut w, h, a) = two_sides(110);
    let hi = w.index_of(h).unwrap();
    w.actors[hi].target = Some(Target { target: a });
    let mut count = 0;
    for _ in 0..20 {
        count += resolve_attacks(&mut w, 100).len();
    }
    assert_eq!(count, 0);
}

#[test]
fn stunned_attacker_does_not_fire() {
    let (mut w, h, a) = two_sides(50);
    let hi = w.index_of(h).unwrap();
    w.actors[hi].target = Some(Target { target: a });
    w.actors[hi].hit_timer.timer = Timer::new(10_000, TimerMode::Once);
    let mut count = 0;
    for _ in 0..20 {
        count += resolve_attacks(&mut w, 100).len();
    }
    assert_eq!(count, 0);
}

#[test]
fn move_to_takes_priority_over_target() {
    let (mut w, h, a) = two_sides(100);
    let hi = w.index_of(h).unwrap();
    w.actors[hi].target = Some(Target { target: a });
    assert_eq!(desired(&w, hi), Some(Point::from_units(100, 0)));
    w.actors[hi].move_to = Some(MoveTo { loc: Point::from_units(-50, 7) });
    assert_eq!(desired(&w, hi), Some(Point::from_units(-50, 7)));
}

#[test]
fn reached_move_to_is_cleared_without_moving() {
    let (mut w, _h, a) = two_sides(100);
    let ai = w.index_of(a).unwrap();
    let start = w.actors[ai].pos;
    w.actors[ai].move_to = Some(MoveTo { loc: Point::from_units(120, 0) });
    move_actors(&mut w, 16);
    assert_eq!(w.actors[ai].pos, start);
    assert_eq!(w.actors[ai].move_to, None);
    w.actors[ai].move_to = Some(MoveTo { loc: Point::from_units(120, 0) });
    move_actors(&mut w, 16);
    assert_eq!(w.actors[ai].pos, start);
    assert_eq!(w.actors[ai].move_to, None);
}

#[test]
fn commanded_ally_walks_to_its_destination() {
    let (mut w, _h, a) = two_sides(100);
    let ai = w.index_of(a).unwrap();
    w.actors[ai].move_to = Some(MoveTo { loc: Point::from_units(400, 0) });
    move_actors(&mut w, 100);
    assert_eq!(w.actors[ai].pos, Point::from_units(110, 0));
    assert!(w.actors[ai].move_to.is_some());
    for _ in 0..40 {
        move_actors(&mut w, 100);
    }
    assert_eq!(w.actors[ai].move_to, None);
}

#[test]
fn attack_commits_attacker_until_cooldown_finishes() {
    let (mut w, h, a) = two_sides(50);
    let hi = w.index_of(h).unwrap();
    w.actors[hi].target = Some(Target { target: a });
    let mut frames = 0;
    while resolve_attacks(&mut w, 100).is_empty() {
        frames += 1;
    }
    assert_eq!(frames, 5);
    assert!(w.actors[hi].striking);
    let ai = w.index_of(a).unwrap();
    w.actors[ai].pos = Point::from_units(300, 0);
    move_actors(&mut w, 100);
    assert_eq!(w.actors[hi].pos, Point::from_units(0, 0));
}

#[test]
fn stunned_actor_does_not_move() {
    let (mut w, h, a) = two_sides(300);
    let hi = w.index_of(h).unwrap();
    w.actors[hi].target = Some(Target { target: a });
    w.actors[hi].attack_timer = Some(Timer { elapsed: 0, duration: 600, mode: TimerMode::Repeating, just: true });
    w.actors[hi].hit_timer.timer = Timer::new(200, TimerMode::Once);
    move_actors(&mut w, 50);
    assert_eq!(w.actors[hi].pos, Point::from_units(0, 0));
}

#[test]
fn chase_step_passes_a_target_closer_than_one_step() {
    let (mut w, h, a) = two_sides(5);
    let hi = w.index_of(h).unwrap();
    w.actors[hi].target = Some(Target { target: a });
    move_actors(&mut w, 100);
    assert_eq!(w.actors[hi].pos, Point::from_units(10, 0));
}

#[test]
fn damage_sums_per_target_when_events_interleave() {
    let mut w = World::new();
    let h = w.spawn(Faction::Hostile, Point::from_units(0, 0));
    let a = w.spawn(Faction::Allied, Point::from_units(10, 0));
    let evs = vec![
        AttackEvent { attacker: a, target: h, damage: 25 },
        AttackEvent { attacker: h, target: a, damage: 30 },
        AttackEvent { attacker: a, target: h, damage: 25 },
        AttackEvent { attacker: h, target: a, damage: 30 },
    ];
    apply_attacks(&mut w, &evs);
    assert_eq!(w.actors[0].stats.hp, 50);
    assert_eq!(w.actors[1].stats.hp, 40);
}

#[test]
fn free_actor_steps_toward_move_to_and_faces_it() {
    let (mut w, _h, a) = two_sides(100);
    let ai = w.index_of(a).unwrap();
    w.actors[ai].attack_timer = None;
    w.actors[ai].move_to = Some(MoveTo { loc: Point::from_units(-100, 0) });
    move_actors(&mut w, 100);
    assert_eq!(w.actors[ai].pos, Point::from_units(90, 0));
    assert_eq!(w.actors[ai].facing, skirmish::actor::Facing::Left);
    assert!(w.actors[ai].move_to.is_some());
}

#[test]
fn chase_step_with_cooldown_just_finished() {
    let (mut w, h, a) = two_sides(300);
    let hi = w.index_of(h).unwrap();
    w.actors[hi].target = Some(Target { target: a });
    w.actors[hi].attack_timer = Some(Timer { elapsed: 0, duration: 600, mode: TimerMode::Repeating, just: true });
    move_actors(&mut w, 50);
    assert_eq!(w.actors[hi].pos, Point::from_units(5, 0));
}

#[test]
fn steering_takes_a_full_step() {
    assert_eq!(steer_toward(Point::new(0, 0), Point::new(3000, 4000), 1000), Point::new(600, 800));
    assert_eq!(steer_toward(Point::new(0, 0), Point::new(-3000, -4000), 1000), Point::new(-600, -800));
    assert_eq!(steer_toward(Point::new(0, 0), Point::new(30, 40), 1000), Point::new(600, 800));
    assert_eq!(steer_toward(Point::new(7, 7), Point::new(7, 7), 1000), Point::new(7, 7));
}

#[test]
fn integer_square_root() {
    assert_eq!(isqrt(0), 0);
    assert_eq!(isqrt(24), 4);
    assert_eq!(isqrt(25), 5);
    assert_eq!(isqrt(26), 5);
    assert_eq!(distance_squared(&Point::new(0, 0), &Point::new(3, 4)), 25);
}

#[test]
fn classifier_states() {
    let (mut w, h, a) = two_sides(300);
    let hi = w.index_of(h).unwrap();
    assert_eq!(classify(&w, hi), AnimationState::Idle);
    w.actors[hi].target = Some(Target { target: a });
    assert_eq!(classify(&w, hi), AnimationState::Walk);
    let ai = w.index_of(a).unwrap();
    w.actors[ai].pos = Point::from_units(60, 0);
    assert_eq!(classify(&w, hi), AnimationState::Attack01);
    w.actors[hi].move_to = Some(MoveTo { loc: Point::from_units(-300, 0) });
    assert_eq!(classify(&w, hi), AnimationState::Walk);
    classify_all(&mut w);
    assert_eq!(w.actors[hi].anim, AnimationState::Walk);
}

#[test]
fn timer_modes() {
    let mut once = Timer::new(100, TimerMode::Once);
    once.tick(60);
    assert!(!once.finished());
    once.tick(60);
    assert!(once.finished() && once.just_finished());
    assert_eq!(once.elapsed, 100);
    once.tick(60);
    assert!(once.finished() && !once.just_finished());
    let mut rep = Timer::new(100, TimerMode::Repeating);
    rep.tick(130);
    assert!(rep.finished());
    assert_eq!(rep.elapsed, 30);
    rep.tick(10);
    assert!(!rep.finished());
    rep.reset();
    assert_eq!(rep.elapsed, 0);
}

#[test]
fn cooldown_with_uneven_frame_time_rounds_each_period_up() {
    let (mut w, h, a) = two_sides(50);
    let hi = w.index_of(h).unwrap();
    w.actors[hi].target = Some(Target { target: a });
    let mut count = 0;
    for _ in 0..120 {
        count += resolve_attacks(&mut w, 250).len();
    }
    assert_eq!(count, 40);
}

#[test]
fn empty_world_frame_is_no_op() {
    let mut w = World::new();
    let idle = skirmish::player::PlayerInput { up: false, down: false, left: false, right: false, attack: false };
    assert!(skirmish::frame::step(&mut w, idle, 16).is_empty());
    assert!(w.actors.is_empty());
    assert_eq!(w.next_id, 0);
}

#[test]
fn lethal_hit_removed_within_the_same_frame() {
    let (mut w, h, a) = two_sides(50);
    let ai = w.index_of(a).unwrap();
    w.actors[ai].stats.hp = 30;
    let hi = w.index_of(h).unwrap();
    w.actors[hi].target = Some(Target { target: a });
    let idle = skirmish::player::PlayerInput { up: false, down: false, left: false, right: false, attack: false };
    let evs = skirmish::frame::step(&mut w, idle, 600);
    assert_eq!(evs, vec![AttackEvent { attacker: h, target: a, damage: 30 }]);
    assert_eq!(w.index_of(a), None);
}
