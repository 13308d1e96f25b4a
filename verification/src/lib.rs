//! A small arcade flight-combat simulation core: planes accelerate under
//! thrust and simplified aerodynamic forces, fire projectiles, and those
//! projectiles reflect off axis-aligned colliders.
//!
//! All quantities are fixed-point integers: a value of `SCALE` (1000) stands
//! for one unit, so `drag_factor == 10` means a drag of one percent per tick.
//! Angles are in thousandths of a radian, normalized into `[0, TAU_FP)`.

pub mod collision;
pub mod dogfight;
pub mod fixed;
pub mod input;
pub mod mob;
pub mod plane;
pub mod systems;
pub mod timer;
pub mod transform;
pub mod trig;
pub mod world;
