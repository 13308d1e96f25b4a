use dogfight::collision::Collider;
use dogfight::dogfight::{setup, Dogfight, DogfightBundle, WindowEvent};
use dogfight::input::{exit_system, InputState, KeyEvent, KEY_ESCAPE, KEY_F4, KEY_LALT, KEY_LWIN,
    KEY_Q, KEY_SPACE};
use dogfight::mob::{movement_step, Mob};
use dogfight::systems::{movement_system, shot_collision_system, shot_expiry_system};
use dogfight::transform::{Transform, Vec2};
use dogfight::world::World;

fn ballistic_mob(vx: i64, vy: i64) -> Mob {
    Mob {
        thrust_angle: 0,
        thrust_power: 0,
        thrust_power_max: 0,
        thrust_power_min: 0,
        thrust_power_speed: 0,
        thrust_turn_speed: 0,
        max_speed: 400_000,
        lift_factor: 0,
        gravity_factor: 0,
        drag_factor: 0,
        velocity: Vec2 { x: vx, y: vy },
    }
}

fn at(x: i64, y: i64) -> Transform {
    Transform { pos: Vec2 { x, y }, z: 0, rotation: 0, scale: Vec2 { x: 1000, y: 1000 } }
}

#[test]
fn setup_spawns_the_two_planes() {
    let mut w = World::new();
    setup(&mut w);
    assert_eq!(w.entities.len(), 2);
    assert_eq!(w.next_id, 2);
    let p1 = &w.entities[0];
    assert_eq!(p1.id, 0);
    assert!(p1.plane.is_some());
    assert_eq!(p1.collider, Some(Collider::Plane));
    assert_eq!(p1.mob.unwrap().velocity.x, 140_000);
    assert_eq!(p1.transform.unwrap().pos.x, -100_000);
    assert_eq!(p1.sprite_index, Some(1));
    let p2 = &w.entities[1];
    assert_eq!(p2.id, 1);
    assert_eq!(p2.transform.unwrap().rotation, 3140);
    assert_eq!(p2.plane.unwrap().flip_animation_timer.duration, 50);
}

#[test]
fn end_to_end_single_tick() {
    // thrust 10 at angle 0, drag one percent, clamp at 200, then lift and
    // gravity on y, all over a tenth of a time unit
    let mut w = World::new();
    setup(&mut w);
    movement_system(&mut w, 100);
    let m = w.entities[0].mob.unwrap();
    assert_eq!(m.velocity.x, 148_500);
    assert_eq!(m.velocity.y, -515);
    let v2 = m.velocity.x as i128 * m.velocity.x as i128
        + m.velocity.y as i128 * m.velocity.y as i128;
    assert!(v2 <= 200_000i128 * 200_000i128);
    let t = w.entities[0].transform.unwrap();
    assert!(t.pos.x > -100_000);
    assert_eq!(t.pos.x, -85_150);
    assert_eq!(t.pos.y, -215_051);
    assert_eq!(t.rotation, 0);
}

#[test]
fn drag_clamps_an_overspeed_mob_to_max_speed() {
    let mut m = ballistic_mob(300_000, 0);
    m.max_speed = 200_000;
    let (m2, _) = movement_step(&m, &at(0, 0), 100);
    assert_eq!(m2.velocity.x, 200_000);
    assert_eq!(m2.velocity.y, 0);
}

#[test]
fn zero_speed_skips_drag_lift_and_gravity() {
    let mut m = ballistic_mob(0, 0);
    m.lift_factor = 10;
    m.gravity_factor = 1000;
    let (m2, t2) = movement_step(&m, &at(5000, 6000), 100);
    assert_eq!(m2.velocity, Vec2 { x: 0, y: 0 });
    assert_eq!(t2.pos, Vec2 { x: 5000, y: 6000 });
}

#[test]
fn collision_pass_reflects_and_removes_scorables() {
    let mut w = World::new();
    w.spawn_shot(ballistic_mob(100_000, 50_000), at(0, 0));
    w.spawn_collider(Collider::Scorable, at(6000, 0), Vec2 { x: 10_000, y: 40_000 });
    w.spawn_collider(Collider::Solid, at(0, 6000), Vec2 { x: 40_000, y: 10_000 });
    w.spawn_collider(Collider::Scorable, at(-6000, 0), Vec2 { x: 10_000, y: 40_000 });
    shot_collision_system(&mut w);
    assert_eq!(w.entities.len(), 3);
    assert_eq!(w.entities[0].mob.unwrap().velocity, Vec2 { x: -100_000, y: -50_000 });
    assert_eq!(w.entities[1].id, 2);
    assert_eq!(w.entities[1].collider, Some(Collider::Solid));
    assert_eq!(w.entities[2].id, 3);
    assert_eq!(w.entities[2].collider, Some(Collider::Scorable));
}

#[test]
fn shots_do_not_test_against_plane_colliders() {
    let mut w = World::new();
    w.spawn_shot(ballistic_mob(100_000, 0), at(0, 0));
    w.spawn_collider(Collider::Plane, at(6000, 0), Vec2 { x: 10_000, y: 40_000 });
    shot_collision_system(&mut w);
    assert_eq!(w.entities.len(), 2);
    assert_eq!(w.entities[0].mob.unwrap().velocity, Vec2 { x: 100_000, y: 0 });
}

#[test]
fn expiry_pass_removes_a_shot_after_its_lifetime() {
    let mut w = World::new();
    w.spawn_shot(ballistic_mob(0, 0), at(0, 0));
    shot_expiry_system(&mut w, 500);
    assert_eq!(w.entities.len(), 1);
    shot_expiry_system(&mut w, 500);
    shot_expiry_system(&mut w, 500);
    assert_eq!(w.entities.len(), 1);
    shot_expiry_system(&mut w, 500);
    assert_eq!(w.entities.len(), 0);
}

#[test]
fn despawn_removes_by_identity() {
    let mut w = World::new();
    let a = w.spawn_collider(Collider::Solid, at(0, 0), Vec2 { x: 1000, y: 1000 }).unwrap();
    let b = w.spawn_collider(Collider::Solid, at(9000, 0), Vec2 { x: 1000, y: 1000 }).unwrap();
    assert!(w.despawn(a));
    assert_eq!(w.entities.len(), 1);
    assert_eq!(w.entities[0].id, b);
    assert!(!w.despawn(77));
}

#[test]
fn one_frame_fires_one_shot_and_moves_it() {
    let mut game = Dogfight::new();
    game.on_start();
    let bundle = DogfightBundle;
    let input = InputState::new(vec![KEY_SPACE]);
    bundle.run_frame(&mut game.world, &input, 100);
    assert_eq!(game.world.entities.len(), 3);
    let shot = &game.world.entities[2];
    assert!(shot.shot);
    assert_eq!(shot.mob.unwrap().velocity, Vec2 { x: 240_000, y: 0 });
    assert_eq!(shot.transform.unwrap().pos, Vec2 { x: -51_000, y: -215_000 });
    assert!(shot.expiry.is_some());
    let p1 = game.world.entities[0].plane.unwrap();
    assert_eq!(p1.cannot_shoot_timer.duration, 500);
}

#[test]
fn a_frame_without_fire_spawns_nothing() {
    let mut game = Dogfight::new();
    game.on_start();
    let bundle = DogfightBundle;
    let input = InputState::new(vec![]);
    bundle.run_frame(&mut game.world, &input, 100);
    assert_eq!(game.world.entities.len(), 2);
}

#[test]
fn a_frame_on_an_empty_world_changes_nothing() {
    let mut w = World::new();
    let bundle = DogfightBundle;
    bundle.run_frame(&mut w, &InputState::new(vec![KEY_SPACE]), 100);
    assert_eq!(w.entities.len(), 0);
    assert_eq!(w.next_id, 0);
}

#[test]
fn exit_on_escape_and_chords() {
    let esc = vec![KeyEvent { key_code: Some(KEY_ESCAPE), pressed: true }];
    assert!(exit_system(&esc, &InputState::new(vec![])));
    let q = vec![KeyEvent { key_code: Some(KEY_Q), pressed: true }];
    assert!(!exit_system(&q, &InputState::new(vec![])));
    assert!(exit_system(&q, &InputState::new(vec![KEY_LWIN])));
    let f4 = vec![KeyEvent { key_code: Some(KEY_F4), pressed: true }];
    assert!(!exit_system(&f4, &InputState::new(vec![])));
    assert!(exit_system(&f4, &InputState::new(vec![KEY_LALT])));
    let released = vec![KeyEvent { key_code: Some(KEY_ESCAPE), pressed: false }];
    assert!(!exit_system(&released, &InputState::new(vec![])));
    let blank = vec![KeyEvent { key_code: None, pressed: true }];
    assert!(!exit_system(&blank, &InputState::new(vec![])));
}

#[test]
fn quit_decision_on_window_events() {
    let game = Dogfight::new();
    assert!(game.handle_event(&WindowEvent { close_requested: true, key_pressed: None }));
    assert!(game.handle_event(&WindowEvent {
        close_requested: false,
        key_pressed: Some(KEY_ESCAPE),
    }));
    assert!(!game.handle_event(&WindowEvent { close_requested: false, key_pressed: Some(KEY_Q) }));
    assert!(!game.handle_event(&WindowEvent { close_requested: false, key_pressed: None }));
}
