use dogfight::input::InputState;
use dogfight::mob::Mob;
use dogfight::plane::{control_step, flip_step, Plane, MUZZLE_OFFSET, MUZZLE_SPEED,
    SHOT_MAX_SPEED};
use dogfight::transform::{Transform, Vec2};
use dogfight::trig::TAU_FP;

fn test_mob() -> Mob {
    Mob {
        thrust_angle: 0,
        thrust_power: 10_000,
        thrust_power_max: 10_000,
        thrust_power_min: 0,
        thrust_power_speed: 200,
        thrust_turn_speed: 50,
        max_speed: 200_000,
        lift_factor: 10,
        gravity_factor: 1000,
        drag_factor: 10,
        velocity: Vec2 { x: 140_000, y: 0 },
    }
}

fn test_transform() -> Transform {
    Transform { pos: Vec2 { x: 1000, y: 2000 }, z: 0, rotation: 0, scale: Vec2 { x: 1000, y: 1000 } }
}

#[test]
fn fire_when_cooldown_elapsed_spawns_exactly_one_shot() {
    let p = Plane::new(1, 2, 3, 4, 5, 100);
    let m = test_mob();
    let t = test_transform();
    let held = InputState::new(vec![5]);
    let (p1, _m1, shot) = control_step(&p, &m, &t, &held, 100);
    assert!(shot.is_some());
    assert_eq!(p1.cannot_shoot_timer.duration, 500);
    assert_eq!(p1.cannot_shoot_timer.elapsed, 0);
}

#[test]
fn fire_during_cooldown_spawns_nothing() {
    let p = Plane::new(1, 2, 3, 4, 5, 100);
    let m = test_mob();
    let t = test_transform();
    let held = InputState::new(vec![5]);
    let (p1, m1, shot) = control_step(&p, &m, &t, &held, 100);
    assert!(shot.is_some());
    let (p2, _m2, shot2) = control_step(&p1, &m1, &t, &held, 100);
    assert!(shot2.is_none());
    assert_eq!(p2.cannot_shoot_timer.elapsed, 100);
}

#[test]
fn no_fire_key_spawns_nothing() {
    let p = Plane::new(1, 2, 3, 4, 5, 100);
    let m = test_mob();
    let t = test_transform();
    let held = InputState::new(vec![]);
    let (_p1, _m1, shot) = control_step(&p, &m, &t, &held, 100);
    assert!(shot.is_none());
}

#[test]
fn shot_launches_ahead_along_the_heading() {
    let p = Plane::new(1, 2, 3, 4, 5, 100);
    let m = test_mob();
    let t = test_transform();
    let held = InputState::new(vec![5]);
    let (_p1, _m1, shot) = control_step(&p, &m, &t, &held, 100);
    let sp = shot.unwrap();
    assert_eq!(sp.mob.velocity.x, 140_000 + MUZZLE_SPEED);
    assert_eq!(sp.mob.velocity.y, 0);
    assert_eq!(sp.mob.thrust_power, 0);
    assert_eq!(sp.mob.lift_factor, 0);
    assert_eq!(sp.mob.drag_factor, 0);
    assert_eq!(sp.mob.gravity_factor, 0);
    assert_eq!(sp.mob.max_speed, SHOT_MAX_SPEED);
    assert_eq!(sp.transform.pos.x, 1000 + MUZZLE_OFFSET);
    assert_eq!(sp.transform.pos.y, 2000);
    assert_eq!(sp.transform.rotation, 0);
}

#[test]
fn steering_turns_and_wraps_the_thrust_angle() {
    let p = Plane::new(1, 2, 3, 4, 5, 100);
    let m = test_mob();
    let t = test_transform();
    let left = InputState::new(vec![1]);
    let (_, m1, _) = control_step(&p, &m, &t, &left, 10);
    assert_eq!(m1.thrust_angle, 50);
    let right = InputState::new(vec![2]);
    let (_, m2, _) = control_step(&p, &m, &t, &right, 10);
    assert_eq!(m2.thrust_angle, TAU_FP - 50);
    let both = InputState::new(vec![1, 2]);
    let (_, m3, _) = control_step(&p, &m, &t, &both, 10);
    assert_eq!(m3.thrust_angle, 0);
}

#[test]
fn throttle_clamps_at_both_ends() {
    let p = Plane::new(1, 2, 3, 4, 5, 100);
    let mut m = test_mob();
    let t = test_transform();
    let up = InputState::new(vec![3]);
    let (_, m1, _) = control_step(&p, &m, &t, &up, 10);
    assert_eq!(m1.thrust_power, 10_000);
    let down = InputState::new(vec![4]);
    let (_, m2, _) = control_step(&p, &m, &t, &down, 10);
    assert_eq!(m2.thrust_power, 9_800);
    m.thrust_power = 100;
    let (_, m3, _) = control_step(&p, &m, &t, &down, 10);
    assert_eq!(m3.thrust_power, 0);
}

#[test]
fn turning_restarts_the_flip_lock() {
    let p = Plane::new(1, 2, 3, 4, 5, 100);
    let m = test_mob();
    let t = test_transform();
    let left = InputState::new(vec![1]);
    let (p1, _, _) = control_step(&p, &m, &t, &left, 10);
    assert_eq!(p1.cannot_flip_timer.duration, 100);
    assert_eq!(p1.cannot_flip_timer.elapsed, 0);
    let none = InputState::new(vec![]);
    let (p2, _, _) = control_step(&p, &m, &t, &none, 10);
    assert_eq!(p2.cannot_flip_timer.duration, 0);
}

#[test]
fn flip_steps_toward_upside_down_in_the_upper_band() {
    let p = Plane::new(1, 2, 3, 4, 5, 0);
    let mut t = test_transform();
    t.rotation = 3140;
    let (p1, idx) = flip_step(&p, &t, 1, 10);
    assert_eq!(idx, 2);
    assert!(p1.flipping);
    let (_, idx2) = flip_step(&p1, &t, 9, 10);
    assert_eq!(idx2, 9);
}

#[test]
fn flip_steps_back_toward_right_way_up_outside_the_band() {
    let p = Plane::new(1, 2, 3, 4, 5, 0);
    let t = test_transform();
    let (p1, idx) = flip_step(&p, &t, 2, 10);
    assert_eq!(idx, 1);
    assert!(!p1.flipping);
    let (_, idx2) = flip_step(&p1, &t, 1, 10);
    assert_eq!(idx2, 1);
}

#[test]
fn flip_waits_for_the_lock_timer() {
    let mut p = Plane::new(1, 2, 3, 4, 5, 0);
    p.cannot_flip_timer.set_duration(1000);
    let mut t = test_transform();
    t.rotation = 3140;
    let (p1, idx) = flip_step(&p, &t, 1, 10);
    assert_eq!(idx, 1);
    assert!(!p1.flipping);
}
