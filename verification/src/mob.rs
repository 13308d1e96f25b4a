//! The flight-dynamics component and its per-tick integration step.
//!
//! Every moving entity — plane or shot — carries a `Mob`. One tick applies,
//! in this exact order: thrust along the thrust angle, drag with a clamp of
//! the speed to `max_speed`, a lift term proportional to horizontal speed
//! minus gravity, then position integration over the (capped) delta-time.
//! The order is part of the contract: it decides the numerical outcome.

use vstd::prelude::*;
use crate::fixed::{
    s_abs, div_trunc, fp_mul, spec_clamp, sqrt_ceil, is_sqrt_ceil, clamp_i64, abs_i64,
    div_trunc_i64, fp_mul_i64, sqrt_ceil_u64, lemma_abs_product_bound, lemma_fp_mul_abs_bound,
    lemma_fp_mul_nonneg, lemma_scaled_component_bound, lemma_sqrt_ceil_exists,
    lemma_sqrt_ceil_unique, SCALE, VEL_CAP, POS_CAP, SPEED_CAP, POWER_CAP, FACTOR_CAP, TIME_CAP,
};
use crate::trig::{is_angle, spec_sin, spec_cos, fp_sin, fp_cos, TAU_FP};
use crate::transform::{Vec2, Transform};

verus! {

/// Downward pull per tick before scaling by `gravity_factor`.
pub const GRAVITY: i64 = 2000;

/// Ceiling on the delta-time one integration step may consume.
pub const DT_CAP: i64 = 200;

/// Aerodynamic state shared by planes and shots.
#[derive(Clone, Copy, PartialEq, Eq, Structural, Debug)]
pub struct Mob {
    pub thrust_angle: i64,
    pub thrust_power: i64,
    pub thrust_power_max: i64,
    pub thrust_power_min: i64,
    pub thrust_power_speed: i64,
    pub thrust_turn_speed: i64,
    pub max_speed: i64,
    pub lift_factor: i64,
    pub gravity_factor: i64,
    pub drag_factor: i64,
    pub velocity: Vec2,
}

impl Mob {
    /// Field bounds every mob keeps: thrust power inside its own band,
    /// factors at most one unit, velocity inside the component cap.
    pub open spec fn wf(self) -> bool {
        &&& is_angle(self.thrust_angle as int)
        &&& 0 <= self.thrust_power_min <= self.thrust_power <= self.thrust_power_max <= POWER_CAP
        &&& 0 <= self.thrust_power_speed <= POWER_CAP
        &&& 0 <= self.thrust_turn_speed <= TAU_FP
        &&& 0 <= self.max_speed <= SPEED_CAP
        &&& 0 <= self.drag_factor <= SCALE
        &&& 0 <= self.lift_factor <= SCALE
        &&& 0 <= self.gravity_factor <= FACTOR_CAP
        &&& s_abs(self.velocity.x as int) <= VEL_CAP
        &&& s_abs(self.velocity.y as int) <= VEL_CAP
    }
}

/// Horizontal velocity after the thrust step.
pub open spec fn spec_thrust_vx(m: Mob) -> int {
    m.velocity.x + fp_mul(m.thrust_power as int, spec_cos(m.thrust_angle as int))
}

/// Vertical velocity after the thrust step.
pub open spec fn spec_thrust_vy(m: Mob) -> int {
    m.velocity.y + fp_mul(m.thrust_power as int, spec_sin(m.thrust_angle as int))
}

/// The velocity one tick produces: thrust, then drag with the speed clamp,
/// then lift minus gravity on the vertical component. A mob at rest after
/// thrust skips the drag and lift steps entirely.
pub open spec fn spec_vel_after(m: Mob) -> (int, int) {
    let tx = spec_thrust_vx(m);
    let ty = spec_thrust_vy(m);
    let ss = tx * tx + ty * ty;
    if ss == 0 {
        (tx, ty)
    } else {
        let s = sqrt_ceil(ss);
        let ns0 = fp_mul(s, (SCALE - m.drag_factor) as int);
        let ns = if ns0 > m.max_speed {
            m.max_speed as int
        } else {
            ns0
        };
        let vx = div_trunc(tx * ns, s);
        let vy = div_trunc(ty * ns, s);
        (
            vx,
            vy + fp_mul(s_abs(vx), m.lift_factor as int) - fp_mul(
                GRAVITY as int,
                m.gravity_factor as int,
            ),
        )
    }
}

/// One whole integration step: the new velocity, the heading copied to the
/// transform's rotation, and the position advanced by velocity times the
/// capped delta-time, saturating at the playfield range.
pub open spec fn spec_movement(m: Mob, t: Transform, dt: int) -> (Mob, Transform) {
    let dtc = if dt > DT_CAP {
        DT_CAP as int
    } else {
        dt
    };
    let v = spec_vel_after(m);
    let px = spec_clamp(t.pos.x + fp_mul(v.0, dtc), -POS_CAP as int, POS_CAP as int);
    let py = spec_clamp(t.pos.y + fp_mul(v.1, dtc), -POS_CAP as int, POS_CAP as int);
    (
        Mob { velocity: Vec2 { x: v.0 as i64, y: v.1 as i64 }, ..m },
        Transform { pos: Vec2 { x: px as i64, y: py as i64 }, rotation: m.thrust_angle, ..t },
    )
}

/// The integration step is a pure function of the previous state and the
/// delta-time: equal inputs give equal outputs, tick after tick.
pub proof fn lemma_movement_deterministic(
    m1: Mob,
    t1: Transform,
    dt1: int,
    m2: Mob,
    t2: Transform,
    dt2: int,
)
    requires
        m1 == m2,
        t1 == t2,
        dt1 == dt2,
    ensures
        spec_movement(m1, t1, dt1) == spec_movement(m2, t2, dt2),
{
}

/// With lift and gravity zeroed, the velocity one tick produces never
/// exceeds `max_speed`: the drag-step clamp bounds the whole vector, for
/// any starting velocity a well-formed mob allows.
pub proof fn lemma_speed_clamp(m: Mob)
    requires
        m.wf(),
        m.lift_factor == 0,
        m.gravity_factor == 0,
    ensures
        ({
            let v = spec_vel_after(m);
            v.0 * v.0 + v.1 * v.1 <= m.max_speed * m.max_speed
        }),
{
    let tx = spec_thrust_vx(m);
    let ty = spec_thrust_vy(m);
    let ss = tx * tx + ty * ty;
    assert(tx * tx >= 0 && ty * ty >= 0) by (nonlinear_arith);
    assert(m.max_speed * m.max_speed >= 0) by (nonlinear_arith)
        requires
            m.max_speed >= 0,
    ;
    if ss == 0 {
        assert(spec_vel_after(m) == (tx, ty));
    } else {
        lemma_sqrt_ceil_exists(ss);
        let s = sqrt_ceil(ss);
        assert(is_sqrt_ceil(ss, s));
        assert(s > 0) by {
            if s == 0 {
                assert(s * s == 0) by (nonlinear_arith)
                    requires
                        s == 0,
                ;
            }
        }
        let ns0 = fp_mul(s, (SCALE - m.drag_factor) as int);
        lemma_fp_mul_nonneg(s, (SCALE - m.drag_factor) as int);
        let ns = if ns0 > m.max_speed {
            m.max_speed as int
        } else {
            ns0
        };
        let vx = div_trunc(tx * ns, s);
        let vy = div_trunc(ty * ns, s);
        lemma_scaled_component_bound(tx, ns, s);
        lemma_scaled_component_bound(ty, ns, s);
        assert(fp_mul(s_abs(vx), 0) == 0);
        assert(fp_mul(GRAVITY as int, 0) == 0);
        assert(spec_vel_after(m) == (vx, vy));
        let avx = s_abs(vx);
        let avy = s_abs(vy);
        let atx = s_abs(tx);
        let aty = s_abs(ty);
        assert(avx * avx == vx * vx) by (nonlinear_arith)
            requires
                avx == vx || avx == -vx,
        ;
        assert(avy * avy == vy * vy) by (nonlinear_arith)
            requires
                avy == vy || avy == -vy,
        ;
        assert(atx * atx == tx * tx) by (nonlinear_arith)
            requires
                atx == tx || atx == -tx,
        ;
        assert(aty * aty == ty * ty) by (nonlinear_arith)
            requires
                aty == ty || aty == -ty,
        ;
        assert(vx * vx + vy * vy <= ns * ns) by (nonlinear_arith)
            requires
                avx * s <= atx * ns,
                avy * s <= aty * ns,
                0 <= avx,
                0 <= avy,
                0 <= atx,
                0 <= aty,
                0 <= ns,
                s > 0,
                avx * avx == vx * vx,
                avy * avy == vy * vy,
                atx * atx == tx * tx,
                aty * aty == ty * ty,
                tx * tx + ty * ty <= s * s,
        ;
        assert(ns * ns <= m.max_speed * m.max_speed) by (nonlinear_arith)
            requires
                0 <= ns <= m.max_speed,
        ;
    }
}

/// One integration step over `dt` time units, exactly as `spec_movement`
/// lays it out.
#[verifier::rlimit(60)]
pub fn movement_step(m: &Mob, t: &Transform, dt: i64) -> (r: (Mob, Transform))
    requires
        m.wf(),
        t.wf(),
        0 <= dt <= TIME_CAP,
    ensures
        r == spec_movement(*m, *t, dt as int),
        r.0.wf(),
        r.1.wf(),
{
    let dtc: i64 = if dt > DT_CAP {
        DT_CAP
    } else {
        dt
    };
    let cos_a: i64 = fp_cos(m.thrust_angle);
    let sin_a: i64 = fp_sin(m.thrust_angle);
    proof {
        lemma_abs_product_bound(m.thrust_power as int, cos_a as int, POWER_CAP as int, 1000);
        lemma_abs_product_bound(m.thrust_power as int, sin_a as int, POWER_CAP as int, 1000);
        lemma_fp_mul_abs_bound(
            m.thrust_power as int,
            cos_a as int,
            POWER_CAP as int,
            1000,
            POWER_CAP as int,
        );
        lemma_fp_mul_abs_bound(
            m.thrust_power as int,
            sin_a as int,
            POWER_CAP as int,
            1000,
            POWER_CAP as int,
        );
    }
    let thrust_x: i64 = fp_mul_i64(m.thrust_power, cos_a);
    let thrust_y: i64 = fp_mul_i64(m.thrust_power, sin_a);
    let tx: i64 = m.velocity.x + thrust_x;
    let ty: i64 = m.velocity.y + thrust_y;
    let ax: u64 = abs_i64(tx) as u64;
    let ay: u64 = abs_i64(ty) as u64;
    proof {
        assert(ax * ax == tx * tx && ax * ax <= 101_000_000 * 101_000_000) by (nonlinear_arith)
            requires
                ax == s_abs(tx as int) && ax <= 101_000_000,
        ;
        assert(ay * ay == ty * ty && ay * ay <= 101_000_000 * 101_000_000) by (nonlinear_arith)
            requires
                ay == s_abs(ty as int) && ay <= 101_000_000,
        ;
    }
    let ss: u64 = ax * ax + ay * ay;
    let ghost ssi: int = (tx as int) * (tx as int) + (ty as int) * (ty as int);
    assert(ss == ssi);
    let (vfx, vfy): (i64, i64) = if ss == 0 {
        proof {
            assert(tx == 0 && ty == 0) by (nonlinear_arith)
                requires
                    (tx as int) * (tx as int) + (ty as int) * (ty as int) == 0,
            ;
        }
        (tx, ty)
    } else {
        let s_u: u64 = sqrt_ceil_u64(ss);
        proof {
            assert(s_u > 0) by {
                if s_u == 0 {
                    assert((s_u as int) * (s_u as int) == 0) by (nonlinear_arith)
                        requires
                            s_u == 0,
                    ;
                }
            }
        }
        let s_i: i64 = s_u as i64;
        proof {
            lemma_abs_product_bound(s_i as int, (SCALE - m.drag_factor) as int, 3_037_000_500, 1000);
        }
        let ns0: i64 = fp_mul_i64(s_i, SCALE - m.drag_factor);
        proof {
            lemma_fp_mul_nonneg(s_i as int, (SCALE - m.drag_factor) as int);
        }
        let ns: i64 = if ns0 > m.max_speed {
            m.max_speed
        } else {
            ns0
        };
        proof {
            assert(s_abs(tx as int) * (ns as int) <= 101_000_000 * 10_000_000) by (nonlinear_arith)
                requires
                    0 <= s_abs(tx as int) <= 101_000_000 && 0 <= ns <= 10_000_000,
            ;
            assert(s_abs(ty as int) * (ns as int) <= 101_000_000 * 10_000_000) by (nonlinear_arith)
                requires
                    0 <= s_abs(ty as int) <= 101_000_000 && 0 <= ns <= 10_000_000,
            ;
            assert(s_abs((tx as int) * (ns as int)) == s_abs(tx as int) * (ns as int)
                && s_abs((ty as int) * (ns as int)) == s_abs(ty as int) * (ns as int))
                by (nonlinear_arith)
                requires
                    0 <= ns,
            ;
        }
        let prod_x: i64 = tx * ns;
        let prod_y: i64 = ty * ns;
        let vx: i64 = div_trunc_i64(prod_x, s_i);
        let vy: i64 = div_trunc_i64(prod_y, s_i);
        proof {
            assert((tx as int) * (tx as int) <= (s_i as int) * (s_i as int));
            assert((ty as int) * (ty as int) <= (s_i as int) * (s_i as int));
            lemma_scaled_component_bound(tx as int, ns as int, s_i as int);
            lemma_scaled_component_bound(ty as int, ns as int, s_i as int);
        }
        let upness: i64 = abs_i64(vx);
        proof {
            lemma_fp_mul_abs_bound(
                upness as int,
                m.lift_factor as int,
                SPEED_CAP as int,
                1000,
                SPEED_CAP as int,
            );
            lemma_fp_mul_abs_bound(
                GRAVITY as int,
                m.gravity_factor as int,
                2000,
                FACTOR_CAP as int,
                2_000_000,
            );
        }
        let lift_term: i64 = fp_mul_i64(upness, m.lift_factor);
        let grav_term: i64 = fp_mul_i64(GRAVITY, m.gravity_factor);
        let vy2: i64 = vy + lift_term - grav_term;
        proof {
            lemma_sqrt_ceil_unique(ssi, s_u as int);
        }
        (vx, vy2)
    };
    assert((vfx as int, vfy as int) == spec_vel_after(*m));
    proof {
        lemma_abs_product_bound(vfx as int, dtc as int, VEL_CAP as int, 200);
        lemma_abs_product_bound(vfy as int, dtc as int, VEL_CAP as int, 200);
        lemma_fp_mul_abs_bound(vfx as int, dtc as int, VEL_CAP as int, 200, 20_000_000);
        lemma_fp_mul_abs_bound(vfy as int, dtc as int, VEL_CAP as int, 200, 20_000_000);
    }
    let dx: i64 = fp_mul_i64(vfx, dtc);
    let dy: i64 = fp_mul_i64(vfy, dtc);
    let px: i64 = clamp_i64(t.pos.x + dx, -POS_CAP, POS_CAP);
    let py: i64 = clamp_i64(t.pos.y + dy, -POS_CAP, POS_CAP);
    let new_mob = Mob { velocity: Vec2 { x: vfx, y: vfy }, ..*m };
    let new_t = Transform { pos: Vec2 { x: px, y: py }, rotation: m.thrust_angle, ..*t };
    (new_mob, new_t)
}

} // verus!
