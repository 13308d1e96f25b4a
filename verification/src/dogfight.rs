//! The scenario: two planes with mirrored bindings, and the frame loop
//! that runs the five systems in order.
//!
//! One frame is plane control, then flight dynamics, then shot collision,
//! then flip animation, then shot expiry — `spec_frame` is exactly that
//! composition, so a whole frame is a pure function of the store, the held
//! keys and the delta-time.

use vstd::prelude::*;
use crate::fixed::TIME_CAP;
use crate::input::{
    InputState, KEY_LEFT, KEY_RIGHT, KEY_UP, KEY_DOWN, KEY_SPACE, KEY_A, KEY_D, KEY_W, KEY_S,
    KEY_E, KEY_ESCAPE,
};
use crate::timer::Timer;
use crate::transform::{Vec2, Transform};
use crate::mob::Mob;
use crate::plane::Plane;
use crate::collision::Collider;
use crate::world::{Entity, World, ENT_CAP, ID_CAP};
use crate::systems::{
    spec_plane_input, spec_movement_sys, spec_collision_sys, spec_flip_sys, spec_expiry_sys,
    plane_input_system, movement_system, shot_collision_system, plane_flip_system,
    shot_expiry_system,
};

verus! {

/// The store and id counter after one whole frame.
pub open spec fn spec_frame(s: Seq<Entity>, next_id: u64, held: Seq<u32>, dt: int) -> (
    Seq<Entity>,
    u64,
) {
    let a = spec_plane_input(s, next_id, held, dt);
    let b = spec_movement_sys(a.0, dt);
    let c = spec_collision_sys(b);
    let d = spec_flip_sys(c, dt);
    let e = spec_expiry_sys(d, dt);
    (e, a.1)
}

/// The five systems bundled in their frame order.
pub struct DogfightBundle;

impl DogfightBundle {
    /// Run one frame: plane control, flight dynamics, shot collision, flip
    /// animation, shot expiry — exactly `spec_frame`.
    pub fn run_frame(&self, world: &mut World, input: &InputState, dt: i64)
        requires
            old(world).wf(),
            0 <= dt <= TIME_CAP,
        ensures
            final(world).wf(),
            (final(world).entities@, final(world).next_id) == spec_frame(
                old(world).entities@,
                old(world).next_id,
                input.held@,
                dt as int,
            ),
    {
        plane_input_system(world, input, dt);
        movement_system(world, dt);
        shot_collision_system(world);
        plane_flip_system(world, dt);
        shot_expiry_system(world, dt);
    }
}

/// The mob every plane starts with.
pub open spec fn spec_start_mob() -> Mob {
    Mob {
        thrust_angle: 0,
        thrust_power: 10_000,
        thrust_power_max: 10_000,
        thrust_power_min: 0,
        thrust_power_speed: 200,
        thrust_turn_speed: 50,
        max_speed: 200_000,
        lift_factor: 10,
        gravity_factor: 1000,
        drag_factor: 10,
        velocity: Vec2 { x: 140_000, y: 0 },
    }
}

/// The hitbox every plane starts with: its sprite cell at its scale.
pub open spec fn spec_plane_box() -> Vec2 {
    Vec2 { x: 48_000, y: 44_000 }
}

/// The first plane: arrow keys and space, facing right, lower left.
pub open spec fn spec_plane_one(id: u64) -> Entity {
    Entity {
        id,
        plane: Option::Some(
            Plane {
                steer_left_key: KEY_LEFT,
                steer_right_key: KEY_RIGHT,
                throttle_up_key: KEY_UP,
                throttle_down_key: KEY_DOWN,
                fire_gun_key: KEY_SPACE,
                cannot_shoot_timer: Timer {
                    elapsed: 0,
                    duration: 0,
                    repeating: false,
                    finished: false,
                },
                cannot_flip_timer: Timer {
                    elapsed: 0,
                    duration: 0,
                    repeating: false,
                    finished: false,
                },
                flip_animation_timer: Timer {
                    elapsed: 0,
                    duration: 100,
                    repeating: true,
                    finished: false,
                },
                flipping: false,
            },
        ),
        mob: Option::Some(spec_start_mob()),
        transform: Option::Some(
            Transform {
                pos: Vec2 { x: -100_000i64, y: -215_000i64 },
                z: 0,
                rotation: 0,
                scale: Vec2 { x: 4000, y: 4000 },
            },
        ),
        collider: Option::Some(Collider::Plane),
        shot: false,
        expiry: Option::None,
        sprite_index: Option::Some(1),
        box_size: Option::Some(spec_plane_box()),
    }
}

/// The second plane: WASD and E, facing left, center right.
pub open spec fn spec_plane_two(id: u64) -> Entity {
    Entity {
        id,
        plane: Option::Some(
            Plane {
                steer_left_key: KEY_A,
                steer_right_key: KEY_D,
                throttle_up_key: KEY_W,
                throttle_down_key: KEY_S,
                fire_gun_key: KEY_E,
                cannot_shoot_timer: Timer {
                    elapsed: 0,
                    duration: 0,
                    repeating: false,
                    finished: false,
                },
                cannot_flip_timer: Timer {
                    elapsed: 0,
                    duration: 0,
                    repeating: false,
                    finished: false,
                },
                flip_animation_timer: Timer {
                    elapsed: 0,
                    duration: 50,
                    repeating: true,
                    finished: false,
                },
                flipping: false,
            },
        ),
        mob: Option::Some(spec_start_mob()),
        transform: Option::Some(
            Transform {
                pos: Vec2 { x: 100_000, y: 0 },
                z: 0,
                rotation: 3140,
                scale: Vec2 { x: 4000, y: 4000 },
            },
        ),
        collider: Option::Some(Collider::Plane),
        shot: false,
        expiry: Option::None,
        sprite_index: Option::Some(1),
        box_size: Option::Some(spec_plane_box()),
    }
}

/// Populate the scenario: the two planes, under the next two ids.
pub fn setup(world: &mut World)
    requires
        old(world).wf(),
        old(world).entities@.len() + 2 <= ENT_CAP,
        old(world).next_id + 2 <= ID_CAP,
    ensures
        final(world).wf(),
        final(world).entities@ == old(world).entities@ + seq![
            spec_plane_one(old(world).next_id),
            spec_plane_two((old(world).next_id + 1) as u64),
        ],
        final(world).next_id == old(world).next_id + 2,
{
    let ghost s0 = world.entities@;
    let plane1 = Plane::new(KEY_LEFT, KEY_RIGHT, KEY_UP, KEY_DOWN, KEY_SPACE, 100);
    let mob1 = Mob {
        thrust_angle: 0,
        thrust_power: 10_000,
        thrust_power_max: 10_000,
        thrust_power_min: 0,
        thrust_power_speed: 200,
        thrust_turn_speed: 50,
        max_speed: 200_000,
        lift_factor: 10,
        gravity_factor: 1000,
        drag_factor: 10,
        velocity: Vec2 { x: 140_000, y: 0 },
    };
    let t1 = Transform {
        pos: Vec2 { x: -100_000, y: -215_000 },
        z: 0,
        rotation: 0,
        scale: Vec2 { x: 4000, y: 4000 },
    };
    let r1 = world.spawn_plane(plane1, mob1, t1, Vec2 { x: 48_000, y: 44_000 });
    let plane2 = Plane::new(KEY_A, KEY_D, KEY_W, KEY_S, KEY_E, 50);
    let t2 = Transform {
        pos: Vec2 { x: 100_000, y: 0 },
        z: 0,
        rotation: 3140,
        scale: Vec2 { x: 4000, y: 4000 },
    };
    let r2 = world.spawn_plane(plane2, mob1, t2, Vec2 { x: 48_000, y: 44_000 });
    proof {
        assert(world.entities@ =~= s0 + seq![
            spec_plane_one(old(world).next_id),
            spec_plane_two((old(world).next_id + 1) as u64),
        ]);
    }
}

/// A window-level event, as the frame driver reports it.
#[derive(Clone, Copy, PartialEq, Eq, Structural, Debug)]
pub struct WindowEvent {
    pub close_requested: bool,
    pub key_pressed: Option<u32>,
}

/// Whether a window event ends the game: a close request or Escape.
pub open spec fn spec_quit_event(e: WindowEvent) -> bool {
    e.close_requested || e.key_pressed == Option::Some(KEY_ESCAPE)
}

/// The running game: the store, stepped frame by frame.
pub struct Dogfight {
    pub world: World,
}

impl Dogfight {
    pub fn new() -> (r: Dogfight)
        ensures
            r.world.next_id == 0,
            r.world.entities@ == Seq::<Entity>::empty(),
            r.world.wf(),
    {
        Dogfight { world: World::new() }
    }

    /// Populate the scenario; see `setup`.
    pub fn on_start(&mut self)
        requires
            old(self).world.wf(),
            old(self).world.entities@.len() + 2 <= ENT_CAP,
            old(self).world.next_id + 2 <= ID_CAP,
        ensures
            final(self).world.wf(),
            final(self).world.entities@ == old(self).world.entities@ + seq![
                spec_plane_one(old(self).world.next_id),
                spec_plane_two((old(self).world.next_id + 1) as u64),
            ],
            final(self).world.next_id == old(self).world.next_id + 2,
    {
        setup(&mut self.world);
    }

    /// Decide whether a window event ends the game.
    pub fn handle_event(&self, event: &WindowEvent) -> (quit: bool)
        ensures
            quit == spec_quit_event(*event),
    {
        if event.close_requested {
            return true;
        }
        match event.key_pressed {
            Some(k) => k == KEY_ESCAPE,
            None => false,
        }
    }
}

} // verus!
