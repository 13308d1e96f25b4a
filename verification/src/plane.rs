//! The plane control state machine and the flip animation.
//!
//! Per tick and per plane: tick the fire cooldown, steer and throttle from
//! the held keys, restart the flip lock on a turn, and — when the cooldown
//! has elapsed and the fire key is held — restart the cooldown and emit one
//! shot ahead of the plane.
//!
//! The flip animation walks a sprite index between `RIGHT_WAY_UP` and
//! `UPSIDE_DOWN`, one saturating step per elapsed animation tick, toward
//! whichever end the heading band calls for; `flipping` holds exactly while
//! the index sits strictly between the two ends.

use vstd::prelude::*;
use crate::fixed::{fp_mul, spec_clamp, fp_mul_i64, clamp_i64, lemma_abs_product_bound,
    lemma_fp_mul_abs_bound,
    SCALE, VEL_CAP, POS_CAP, TIME_CAP};
use crate::trig::{wrap_angle, spec_sin, spec_cos, fp_sin, fp_cos, angle_add, HALF_PI_FP,
    THREE_HALF_PI_FP};
use crate::input::InputState;
use crate::timer::Timer;
use crate::transform::{Vec2, Transform};
use crate::mob::Mob;

verus! {

/// How long a turn locks the flip animation out.
pub const FLIP_LOCK_DURATION: i64 = 100;

/// Fire cooldown restarted on every shot.
pub const SHOOT_COOLDOWN: i64 = 500;

/// Lifetime of a shot.
pub const SHOT_EXPIRY: i64 = 2000;

/// Speed cap of a shot's mob; its only nonzero aerodynamic field.
pub const SHOT_MAX_SPEED: i64 = 400_000;

/// Muzzle speed added to the plane's velocity along its heading.
pub const MUZZLE_SPEED: i64 = 100_000;

/// How far ahead of the plane a shot appears.
pub const MUZZLE_OFFSET: i64 = 25_000;

/// Side of a shot's square bounding box.
pub const SHOT_SIZE: i64 = 10_000;

/// Sprite frame of a plane flying right way up.
pub const PLANE_SPRITE_INDEX_RIGHT_WAY_UP: usize = 1;

/// Sprite frame of a plane flying upside down.
pub const PLANE_SPRITE_INDEX_UPSIDE_DOWN: usize = 9;

/// Control and cooldown state of one player-controlled aircraft.
#[derive(Clone, Copy, PartialEq, Eq, Structural, Debug)]
pub struct Plane {
    pub steer_left_key: u32,
    pub steer_right_key: u32,
    pub throttle_up_key: u32,
    pub throttle_down_key: u32,
    pub fire_gun_key: u32,
    pub cannot_shoot_timer: Timer,
    pub cannot_flip_timer: Timer,
    pub flip_animation_timer: Timer,
    pub flipping: bool,
}

impl Plane {
    pub open spec fn wf(self) -> bool {
        &&& self.cannot_shoot_timer.wf()
        &&& self.cannot_flip_timer.wf()
        &&& self.flip_animation_timer.wf()
    }

    /// A plane with the given bindings, zeroed cooldowns, and a repeating
    /// animation timer of the given period.
    pub fn new(
        steer_left_key: u32,
        steer_right_key: u32,
        throttle_up_key: u32,
        throttle_down_key: u32,
        fire_gun_key: u32,
        flip_animation_period: i64,
    ) -> (r: Plane)
        requires
            0 <= flip_animation_period <= TIME_CAP,
        ensures
            r == (Plane {
                steer_left_key,
                steer_right_key,
                throttle_up_key,
                throttle_down_key,
                fire_gun_key,
                cannot_shoot_timer: Timer {
                    elapsed: 0,
                    duration: 0,
                    repeating: false,
                    finished: false,
                },
                cannot_flip_timer: Timer {
                    elapsed: 0,
                    duration: 0,
                    repeating: false,
                    finished: false,
                },
                flip_animation_timer: Timer {
                    elapsed: 0,
                    duration: flip_animation_period,
                    repeating: true,
                    finished: false,
                },
                flipping: false,
            }),
            r.wf(),
    {
        Plane {
            steer_left_key,
            steer_right_key,
            throttle_up_key,
            throttle_down_key,
            fire_gun_key,
            cannot_shoot_timer: Timer::new(0, false),
            cannot_flip_timer: Timer::new(0, false),
            flip_animation_timer: Timer::new(flip_animation_period, true),
            flipping: false,
        }
    }
}

/// Everything a newly fired shot starts with.
#[derive(Clone, Copy, PartialEq, Eq, Structural, Debug)]
pub struct ShotSpawn {
    pub mob: Mob,
    pub transform: Transform,
}

/// The mob and transform of a shot fired by a plane with mob `m` (after
/// this tick's steering) and transform `t`: ballistic, expiring, launched
/// ahead of the plane along its current rotation.
pub open spec fn spec_make_shot(m: Mob, t: Transform) -> ShotSpawn {
    let c = spec_cos(t.rotation as int);
    let s = spec_sin(t.rotation as int);
    let vx = spec_clamp(m.velocity.x + fp_mul(MUZZLE_SPEED as int, c), -VEL_CAP as int,
        VEL_CAP as int);
    let vy = spec_clamp(m.velocity.y + fp_mul(MUZZLE_SPEED as int, s), -VEL_CAP as int,
        VEL_CAP as int);
    let px = spec_clamp(t.pos.x + fp_mul(MUZZLE_OFFSET as int, c), -POS_CAP as int,
        POS_CAP as int);
    let py = spec_clamp(t.pos.y + fp_mul(MUZZLE_OFFSET as int, s), -POS_CAP as int,
        POS_CAP as int);
    ShotSpawn {
        mob: Mob {
            thrust_angle: m.thrust_angle,
            thrust_power: 0,
            thrust_power_max: 0,
            thrust_power_min: 0,
            thrust_power_speed: 0,
            thrust_turn_speed: 0,
            max_speed: SHOT_MAX_SPEED,
            lift_factor: 0,
            gravity_factor: 0,
            drag_factor: 0,
            velocity: Vec2 { x: vx as i64, y: vy as i64 },
        },
        transform: Transform {
            pos: Vec2 { x: px as i64, y: py as i64 },
            z: t.z,
            rotation: t.rotation,
            scale: Vec2 { x: SCALE, y: SCALE },
        },
    }
}

/// One control tick for one plane: the updated plane and mob, and the shot
/// it fired, if any.
pub open spec fn spec_control(p: Plane, m: Mob, t: Transform, held: Seq<u32>, dt: int) -> (
    Plane,
    Mob,
    Option<ShotSpawn>,
) {
    let ts = p.cannot_shoot_timer.spec_tick(dt);
    let left = held.contains(p.steer_left_key);
    let right = held.contains(p.steer_right_key);
    let up = held.contains(p.throttle_up_key);
    let down = held.contains(p.throttle_down_key);
    let fire = held.contains(p.fire_gun_key);
    let a1 = if left {
        wrap_angle(m.thrust_angle + m.thrust_turn_speed)
    } else {
        m.thrust_angle as int
    };
    let a2 = if right {
        wrap_angle(a1 - m.thrust_turn_speed)
    } else {
        a1
    };
    let turned = left || right;
    let pw1 = if up {
        if m.thrust_power + m.thrust_power_speed > m.thrust_power_max {
            m.thrust_power_max as int
        } else {
            m.thrust_power + m.thrust_power_speed
        }
    } else {
        m.thrust_power as int
    };
    let pw2 = if down {
        if pw1 - m.thrust_power_speed < m.thrust_power_min {
            m.thrust_power_min as int
        } else {
            pw1 - m.thrust_power_speed
        }
    } else {
        pw1
    };
    let m1 = Mob { thrust_angle: a2 as i64, thrust_power: pw2 as i64, ..m };
    let cf = if turned && !p.flipping {
        Timer {
            elapsed: 0,
            duration: FLIP_LOCK_DURATION,
            repeating: p.cannot_flip_timer.repeating,
            finished: false,
        }
    } else {
        p.cannot_flip_timer
    };
    let fired = ts.finished && fire;
    let cs = if fired {
        Timer { elapsed: 0, duration: SHOOT_COOLDOWN, repeating: ts.repeating, finished: false }
    } else {
        ts
    };
    let p1 = Plane { cannot_shoot_timer: cs, cannot_flip_timer: cf, ..p };
    let spawn = if fired {
        Option::Some(spec_make_shot(m1, t))
    } else {
        Option::None
    };
    (p1, m1, spawn)
}

/// One control tick for one plane, exactly as `spec_control` lays it out.
/// A shot comes out if and only if the fire key is held and the cooldown
/// has elapsed by this tick — so an unfinished cooldown never fires, and a
/// finished one fires exactly once, since firing restarts it.
pub fn control_step(p: &Plane, m: &Mob, t: &Transform, input: &InputState, dt: i64) -> (r: (
    Plane,
    Mob,
    Option<ShotSpawn>,
))
    requires
        p.wf(),
        m.wf(),
        t.wf(),
        0 <= dt <= TIME_CAP,
    ensures
        r == spec_control(*p, *m, *t, input.held@, dt as int),
        r.0.wf(),
        r.1.wf(),
        r.2 is Some ==> r.2.unwrap().mob.wf() && r.2.unwrap().transform.wf(),
        r.2 is Some <==> (input.held@.contains(p.fire_gun_key)
            && p.cannot_shoot_timer.spec_tick(dt as int).finished),
{
    let mut shoot_timer: Timer = p.cannot_shoot_timer;
    shoot_timer.tick(dt);
    let left: bool = input.is_held(p.steer_left_key);
    let right: bool = input.is_held(p.steer_right_key);
    let up: bool = input.is_held(p.throttle_up_key);
    let down: bool = input.is_held(p.throttle_down_key);
    let fire: bool = input.is_held(p.fire_gun_key);
    let mut angle: i64 = m.thrust_angle;
    if left {
        angle = angle_add(angle, m.thrust_turn_speed);
    }
    if right {
        angle = angle_add(angle, -m.thrust_turn_speed);
    }
    let mut power: i64 = m.thrust_power;
    if up {
        power = power + m.thrust_power_speed;
        if power > m.thrust_power_max {
            power = m.thrust_power_max;
        }
    }
    if down {
        power = power - m.thrust_power_speed;
        if power < m.thrust_power_min {
            power = m.thrust_power_min;
        }
    }
    let turned: bool = left || right;
    let m1 = Mob { thrust_angle: angle, thrust_power: power, ..*m };
    let mut flip_timer: Timer = p.cannot_flip_timer;
    if turned && !p.flipping {
        flip_timer.set_duration(FLIP_LOCK_DURATION);
        flip_timer.reset();
    }
    let fired: bool = shoot_timer.finished() && fire;
    let spawn: Option<ShotSpawn> = if fired {
        shoot_timer.set_duration(SHOOT_COOLDOWN);
        shoot_timer.reset();
        Some(make_shot(&m1, t))
    } else {
        None
    };
    let p1 = Plane { cannot_shoot_timer: shoot_timer, cannot_flip_timer: flip_timer, ..*p };
    (p1, m1, spawn)
}

/// Build the shot a plane fires, exactly as `spec_make_shot` lays it out.
pub fn make_shot(m: &Mob, t: &Transform) -> (r: ShotSpawn)
    requires
        m.wf(),
        t.wf(),
    ensures
        r == spec_make_shot(*m, *t),
        r.mob.wf(),
        r.transform.wf(),
{
    let c: i64 = fp_cos(t.rotation);
    let s: i64 = fp_sin(t.rotation);
    proof {
        lemma_abs_product_bound(MUZZLE_SPEED as int, c as int, MUZZLE_SPEED as int, 1000);
        lemma_abs_product_bound(MUZZLE_SPEED as int, s as int, MUZZLE_SPEED as int, 1000);
        lemma_abs_product_bound(MUZZLE_OFFSET as int, c as int, MUZZLE_OFFSET as int, 1000);
        lemma_abs_product_bound(MUZZLE_OFFSET as int, s as int, MUZZLE_OFFSET as int, 1000);
        lemma_fp_mul_abs_bound(MUZZLE_SPEED as int, c as int, MUZZLE_SPEED as int, 1000,
            MUZZLE_SPEED as int);
        lemma_fp_mul_abs_bound(MUZZLE_SPEED as int, s as int, MUZZLE_SPEED as int, 1000,
            MUZZLE_SPEED as int);
        lemma_fp_mul_abs_bound(MUZZLE_OFFSET as int, c as int, MUZZLE_OFFSET as int, 1000,
            MUZZLE_OFFSET as int);
        lemma_fp_mul_abs_bound(MUZZLE_OFFSET as int, s as int, MUZZLE_OFFSET as int, 1000,
            MUZZLE_OFFSET as int);
    }
    let vx: i64 = clamp_i64(m.velocity.x + fp_mul_i64(MUZZLE_SPEED, c), -VEL_CAP, VEL_CAP);
    let vy: i64 = clamp_i64(m.velocity.y + fp_mul_i64(MUZZLE_SPEED, s), -VEL_CAP, VEL_CAP);
    let px: i64 = clamp_i64(t.pos.x + fp_mul_i64(MUZZLE_OFFSET, c), -POS_CAP, POS_CAP);
    let py: i64 = clamp_i64(t.pos.y + fp_mul_i64(MUZZLE_OFFSET, s), -POS_CAP, POS_CAP);
    ShotSpawn {
        mob: Mob {
            thrust_angle: m.thrust_angle,
            thrust_power: 0,
            thrust_power_max: 0,
            thrust_power_min: 0,
            thrust_power_speed: 0,
            thrust_turn_speed: 0,
            max_speed: SHOT_MAX_SPEED,
            lift_factor: 0,
            gravity_factor: 0,
            drag_factor: 0,
            velocity: Vec2 { x: vx, y: vy },
        },
        transform: Transform {
            pos: Vec2 { x: px, y: py },
            z: t.z,
            rotation: t.rotation,
            scale: Vec2 { x: SCALE, y: SCALE },
        },
    }
}

/// One animation tick: the plane with both flip timers advanced, and the
/// new sprite index.
pub open spec fn spec_flip(p: Plane, t: Transform, sprite_index: int, dt: int) -> (Plane, int) {
    let cf = p.cannot_flip_timer.spec_tick(dt);
    let fa = p.flip_animation_timer.spec_tick(dt);
    if cf.finished && fa.finished {
        let idx = if HALF_PI_FP < t.rotation < THREE_HALF_PI_FP {
            if sprite_index + 1 > PLANE_SPRITE_INDEX_UPSIDE_DOWN {
                PLANE_SPRITE_INDEX_UPSIDE_DOWN as int
            } else {
                sprite_index + 1
            }
        } else {
            if sprite_index - 1 < PLANE_SPRITE_INDEX_RIGHT_WAY_UP {
                PLANE_SPRITE_INDEX_RIGHT_WAY_UP as int
            } else {
                sprite_index - 1
            }
        };
        (
            Plane {
                cannot_flip_timer: cf,
                flip_animation_timer: fa,
                flipping: PLANE_SPRITE_INDEX_RIGHT_WAY_UP < idx < PLANE_SPRITE_INDEX_UPSIDE_DOWN,
                ..p
            },
            idx,
        )
    } else {
        (Plane { cannot_flip_timer: cf, flip_animation_timer: fa, ..p }, sprite_index)
    }
}

/// One animation tick, exactly as `spec_flip` lays it out. Both the flip
/// lock and the animation timer must have elapsed for the index to move;
/// it then steps one frame toward the end the heading band calls for,
/// saturating there.
pub fn flip_step(p: &Plane, t: &Transform, sprite_index: usize, dt: i64) -> (r: (Plane, usize))
    requires
        p.wf(),
        0 <= dt <= TIME_CAP,
        PLANE_SPRITE_INDEX_RIGHT_WAY_UP <= sprite_index <= PLANE_SPRITE_INDEX_UPSIDE_DOWN,
    ensures
        (r.0, r.1 as int) == spec_flip(*p, *t, sprite_index as int, dt as int),
        r.0.wf(),
        PLANE_SPRITE_INDEX_RIGHT_WAY_UP <= r.1 <= PLANE_SPRITE_INDEX_UPSIDE_DOWN,
{
    let mut flip_timer: Timer = p.cannot_flip_timer;
    flip_timer.tick(dt);
    let mut anim_timer: Timer = p.flip_animation_timer;
    anim_timer.tick(dt);
    if flip_timer.finished() && anim_timer.finished() {
        let idx: usize = if HALF_PI_FP < t.rotation && t.rotation < THREE_HALF_PI_FP {
            if sprite_index + 1 > PLANE_SPRITE_INDEX_UPSIDE_DOWN {
                PLANE_SPRITE_INDEX_UPSIDE_DOWN
            } else {
                sprite_index + 1
            }
        } else {
            if sprite_index - 1 < PLANE_SPRITE_INDEX_RIGHT_WAY_UP {
                PLANE_SPRITE_INDEX_RIGHT_WAY_UP
            } else {
                sprite_index - 1
            }
        };
        let flipping: bool = PLANE_SPRITE_INDEX_RIGHT_WAY_UP < idx
            && idx < PLANE_SPRITE_INDEX_UPSIDE_DOWN;
        (Plane { cannot_flip_timer: flip_timer, flip_animation_timer: anim_timer, flipping, ..*p },
            idx)
    } else {
        (Plane { cannot_flip_timer: flip_timer, flip_animation_timer: anim_timer, ..*p },
            sprite_index)
    }
}

} // verus!
