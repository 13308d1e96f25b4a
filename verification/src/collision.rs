//! Axis-aligned collision between shots and colliders.
//!
//! Overlap and classification follow the usual static AABB rule: the side
//! with the smaller penetration depth names the hit, horizontal winning
//! ties. A `Hit` is named after the direction the shot was driving when it
//! struck: `Hit::Right` means the shot ran rightward into a surface (the
//! collider's left face). Reflection flips only the velocity component still
//! moving toward the struck surface, so a shot already moving away is left
//! alone and can never be double-reflected.
//!
//! A shot resolves against colliders in store order. A `Solid` hit stops the
//! scan for that shot this tick; a `Scorable` hit marks the collider for
//! removal and the scan goes on; `Plane` colliders are never tested against
//! shots.

use vstd::prelude::*;
use crate::fixed::{s_abs, POS_CAP, SIZE_CAP, VEL_CAP};
use crate::transform::Vec2;

verus! {

/// Collision tag: how an entity takes part in shot collision.
#[derive(Clone, Copy, PartialEq, Eq, Structural, Debug)]
pub enum Collider {
    /// Never removed; reflects and stops the scan for the shot this tick.
    Solid,
    /// Reflects, then is removed from the store.
    Scorable,
    /// A plane's own hitbox; shots do not test against it.
    Plane,
}

/// The side a shot struck, named by the shot's direction of travel.
#[derive(Clone, Copy, PartialEq, Eq, Structural, Debug)]
pub enum Hit {
    /// Struck while driving leftward (the collider's right face).
    Left,
    /// Struck while driving rightward (the collider's left face).
    Right,
    /// Struck while driving upward (the collider's bottom face).
    Top,
    /// Struck while driving downward (the collider's top face).
    Bottom,
    /// Boxes overlap with no straddled edge; nothing to reflect.
    Inside,
}

/// One collider as the collision pass sees it: owner, tag, box.
#[derive(Clone, Copy, PartialEq, Eq, Structural, Debug)]
pub struct ColliderBox {
    pub id: u64,
    pub kind: Collider,
    pub pos: Vec2,
    pub size: Vec2,
}

/// Bounds every collider box keeps.
pub open spec fn box_wf(b: ColliderBox) -> bool {
    &&& s_abs(b.pos.x as int) <= POS_CAP
    &&& s_abs(b.pos.y as int) <= POS_CAP
    &&& 0 <= b.size.x <= SIZE_CAP
    &&& 0 <= b.size.y <= SIZE_CAP
}

/// Whether two centered boxes overlap. Coordinates are doubled so that
/// half-sizes stay integral.
pub open spec fn spec_overlaps(sp: Vec2, ssz: Vec2, cp: Vec2, csz: Vec2) -> bool {
    let a_min_x = 2 * sp.x - ssz.x;
    let a_max_x = 2 * sp.x + ssz.x;
    let a_min_y = 2 * sp.y - ssz.y;
    let a_max_y = 2 * sp.y + ssz.y;
    let b_min_x = 2 * cp.x - csz.x;
    let b_max_x = 2 * cp.x + csz.x;
    let b_min_y = 2 * cp.y - csz.y;
    let b_max_y = 2 * cp.y + csz.y;
    a_min_x < b_max_x && a_max_x > b_min_x && a_min_y < b_max_y && a_max_y > b_min_y
}

/// Classify an overlap by the straddled edge with the smaller penetration
/// depth, horizontal before vertical on a tie; `None` when the boxes do not
/// overlap at all.
pub open spec fn spec_classify(sp: Vec2, ssz: Vec2, cp: Vec2, csz: Vec2) -> Option<Hit> {
    let a_min_x = 2 * sp.x - ssz.x;
    let a_max_x = 2 * sp.x + ssz.x;
    let a_min_y = 2 * sp.y - ssz.y;
    let a_max_y = 2 * sp.y + ssz.y;
    let b_min_x = 2 * cp.x - csz.x;
    let b_max_x = 2 * cp.x + csz.x;
    let b_min_y = 2 * cp.y - csz.y;
    let b_max_y = 2 * cp.y + csz.y;
    if !spec_overlaps(sp, ssz, cp, csz) {
        Option::None
    } else {
        let x_hit = a_min_x < b_min_x && a_max_x > b_min_x && a_max_x < b_max_x;
        let x_depth_right = a_max_x - b_min_x;
        let x_hit2 = a_min_x > b_min_x && a_min_x < b_max_x && a_max_x > b_max_x;
        let x_depth_left = b_max_x - a_min_x;
        let y_hit = a_min_y < b_min_y && a_max_y > b_min_y && a_max_y < b_max_y;
        let y_depth_top = a_max_y - b_min_y;
        let y_hit2 = a_min_y > b_min_y && a_min_y < b_max_y && a_max_y > b_max_y;
        let y_depth_bottom = b_max_y - a_min_y;
        let x_class: Option<(Hit, int)> = if x_hit {
            Option::Some((Hit::Right, x_depth_right as int))
        } else if x_hit2 {
            Option::Some((Hit::Left, x_depth_left as int))
        } else {
            Option::None
        };
        let y_class: Option<(Hit, int)> = if y_hit {
            Option::Some((Hit::Top, y_depth_top as int))
        } else if y_hit2 {
            Option::Some((Hit::Bottom, y_depth_bottom as int))
        } else {
            Option::None
        };
        match (x_class, y_class) {
            (Option::Some((xh, xd)), Option::Some((yh, yd))) => if yd < xd {
                Option::Some(yh)
            } else {
                Option::Some(xh)
            },
            (Option::Some((xh, _)), Option::None) => Option::Some(xh),
            (Option::None, Option::Some((yh, _))) => Option::Some(yh),
            (Option::None, Option::None) => Option::Some(Hit::Inside),
        }
    }
}

/// The velocity after a hit: flip the component still moving toward the
/// struck surface, leave everything else alone.
pub open spec fn spec_reflect(h: Hit, v: Vec2) -> Vec2 {
    match h {
        Hit::Right => if v.x > 0 {
            Vec2 { x: (-(v.x as int)) as i64, y: v.y }
        } else {
            v
        },
        Hit::Left => if v.x < 0 {
            Vec2 { x: (-(v.x as int)) as i64, y: v.y }
        } else {
            v
        },
        Hit::Top => if v.y > 0 {
            Vec2 { x: v.x, y: (-(v.y as int)) as i64 }
        } else {
            v
        },
        Hit::Bottom => if v.y < 0 {
            Vec2 { x: v.x, y: (-(v.y as int)) as i64 }
        } else {
            v
        },
        Hit::Inside => v,
    }
}

/// The reflection sign rule: a shot moving rightward into a `Hit::Right`
/// surface has its horizontal velocity flipped, and one already moving
/// leftward against the same classification is unchanged — and so on for
/// the other three directions.
pub proof fn lemma_reflection_sign_rule(v: Vec2)
    requires
        s_abs(v.x as int) <= VEL_CAP,
        s_abs(v.y as int) <= VEL_CAP,
    ensures
        v.x > 0 ==> spec_reflect(Hit::Right, v) == (Vec2 { x: (-(v.x as int)) as i64, y: v.y }),
        v.x <= 0 ==> spec_reflect(Hit::Right, v) == v,
        v.x < 0 ==> spec_reflect(Hit::Left, v) == (Vec2 { x: (-(v.x as int)) as i64, y: v.y }),
        v.x >= 0 ==> spec_reflect(Hit::Left, v) == v,
        v.y > 0 ==> spec_reflect(Hit::Top, v) == (Vec2 { x: v.x, y: (-(v.y as int)) as i64 }),
        v.y <= 0 ==> spec_reflect(Hit::Top, v) == v,
        v.y < 0 ==> spec_reflect(Hit::Bottom, v) == (Vec2 { x: v.x, y: (-(v.y as int)) as i64 }),
        v.y >= 0 ==> spec_reflect(Hit::Bottom, v) == v,
        spec_reflect(Hit::Inside, v) == v,
{
}

/// Exec mirror of `spec_classify`.
pub fn classify(sp: Vec2, ssz: Vec2, cp: Vec2, csz: Vec2) -> (r: Option<Hit>)
    requires
        s_abs(sp.x as int) <= POS_CAP,
        s_abs(sp.y as int) <= POS_CAP,
        0 <= ssz.x <= SIZE_CAP,
        0 <= ssz.y <= SIZE_CAP,
        s_abs(cp.x as int) <= POS_CAP,
        s_abs(cp.y as int) <= POS_CAP,
        0 <= csz.x <= SIZE_CAP,
        0 <= csz.y <= SIZE_CAP,
    ensures
        r == spec_classify(sp, ssz, cp, csz),
{
    let a_min_x: i64 = 2 * sp.x - ssz.x;
    let a_max_x: i64 = 2 * sp.x + ssz.x;
    let a_min_y: i64 = 2 * sp.y - ssz.y;
    let a_max_y: i64 = 2 * sp.y + ssz.y;
    let b_min_x: i64 = 2 * cp.x - csz.x;
    let b_max_x: i64 = 2 * cp.x + csz.x;
    let b_min_y: i64 = 2 * cp.y - csz.y;
    let b_max_y: i64 = 2 * cp.y + csz.y;
    if !(a_min_x < b_max_x && a_max_x > b_min_x && a_min_y < b_max_y && a_max_y > b_min_y) {
        return None;
    }
    let x_hit: bool = a_min_x < b_min_x && a_max_x > b_min_x && a_max_x < b_max_x;
    let x_hit2: bool = a_min_x > b_min_x && a_min_x < b_max_x && a_max_x > b_max_x;
    let y_hit: bool = a_min_y < b_min_y && a_max_y > b_min_y && a_max_y < b_max_y;
    let y_hit2: bool = a_min_y > b_min_y && a_min_y < b_max_y && a_max_y > b_max_y;
    if y_hit || y_hit2 {
        let yd: i64 = if y_hit {
            a_max_y - b_min_y
        } else {
            b_max_y - a_min_y
        };
        let yh: Hit = if y_hit {
            Hit::Top
        } else {
            Hit::Bottom
        };
        if x_hit || x_hit2 {
            let xd: i64 = if x_hit {
                a_max_x - b_min_x
            } else {
                b_max_x - a_min_x
            };
            let xh: Hit = if x_hit {
                Hit::Right
            } else {
                Hit::Left
            };
            if yd < xd {
                Some(yh)
            } else {
                Some(xh)
            }
        } else {
            Some(yh)
        }
    } else {
        if x_hit {
            Some(Hit::Right)
        } else if x_hit2 {
            Some(Hit::Left)
        } else {
            Some(Hit::Inside)
        }
    }
}

/// Exec mirror of `spec_reflect`.
pub fn reflect(h: Hit, v: Vec2) -> (r: Vec2)
    requires
        s_abs(v.x as int) <= VEL_CAP,
        s_abs(v.y as int) <= VEL_CAP,
    ensures
        r == spec_reflect(h, v),
        s_abs(r.x as int) <= VEL_CAP,
        s_abs(r.y as int) <= VEL_CAP,
{
    match h {
        Hit::Right => if v.x > 0 {
            Vec2 { x: -v.x, y: v.y }
        } else {
            v
        },
        Hit::Left => if v.x < 0 {
            Vec2 { x: -v.x, y: v.y }
        } else {
            v
        },
        Hit::Top => if v.y > 0 {
            Vec2 { x: v.x, y: -v.y }
        } else {
            v
        },
        Hit::Bottom => if v.y < 0 {
            Vec2 { x: v.x, y: -v.y }
        } else {
            v
        },
        Hit::Inside => v,
    }
}

/// One shot resolved against a run of colliders, in order: the velocity
/// after every reflection that applied, and the owners of the scorable
/// colliders that were struck. A struck solid ends the run; planes are
/// skipped.
pub open spec fn spec_resolve(v: Vec2, sp: Vec2, ssz: Vec2, cols: Seq<ColliderBox>) -> (
    Vec2,
    Seq<u64>,
)
    decreases cols.len(),
{
    if cols.len() == 0 {
        (v, Seq::empty())
    } else {
        let c = cols[0];
        let rest = cols.drop_first();
        if c.kind is Plane {
            spec_resolve(v, sp, ssz, rest)
        } else {
            match spec_classify(sp, ssz, c.pos, c.size) {
                Option::None => spec_resolve(v, sp, ssz, rest),
                Option::Some(h) => {
                    let v1 = spec_reflect(h, v);
                    if c.kind is Solid {
                        (v1, Seq::empty())
                    } else {
                        let r = spec_resolve(v1, sp, ssz, rest);
                        (r.0, seq![c.id] + r.1)
                    }
                },
            }
        }
    }
}

/// Whether `c` would end a shot's scan: a struck solid.
pub open spec fn is_blocking(sp: Vec2, ssz: Vec2, c: ColliderBox) -> bool {
    c.kind is Solid && spec_classify(sp, ssz, c.pos, c.size) is Some
}

/// The solid short-circuit: once the first struck solid is reached, the
/// colliders after it play no part — the whole resolution equals the
/// resolution of the prefix ending at that solid, every hit in the prefix
/// (the solid's included) still applied.
pub proof fn lemma_solid_short_circuit(
    v: Vec2,
    sp: Vec2,
    ssz: Vec2,
    cols: Seq<ColliderBox>,
    i: int,
)
    requires
        0 <= i < cols.len(),
        is_blocking(sp, ssz, cols[i]),
        forall|j: int| 0 <= j < i ==> !is_blocking(sp, ssz, #[trigger] cols[j]),
    ensures
        spec_resolve(v, sp, ssz, cols) == spec_resolve(v, sp, ssz, cols.take(i + 1)),
    decreases i,
{
    let pre = cols.take(i + 1);
    assert(pre.len() == i + 1);
    assert(pre[0] == cols[0]);
    if i == 0 {
        let h = spec_classify(sp, ssz, cols[0].pos, cols[0].size).unwrap();
        assert(spec_resolve(v, sp, ssz, cols) == (spec_reflect(h, v), Seq::<u64>::empty()));
        assert(spec_resolve(v, sp, ssz, pre) == (spec_reflect(h, v), Seq::<u64>::empty()));
    } else {
        let c = cols[0];
        let rest = cols.drop_first();
        assert(pre.drop_first() =~= rest.take(i));
        assert(forall|j: int| 0 <= j < i - 1 ==> !is_blocking(sp, ssz, #[trigger] rest[j]));
        assert(rest[i - 1] == cols[i]);
        if c.kind is Plane {
            lemma_solid_short_circuit(v, sp, ssz, rest, i - 1);
        } else {
            match spec_classify(sp, ssz, c.pos, c.size) {
                Option::None => {
                    lemma_solid_short_circuit(v, sp, ssz, rest, i - 1);
                },
                Option::Some(h) => {
                    let v1 = spec_reflect(h, v);
                    lemma_solid_short_circuit(v1, sp, ssz, rest, i - 1);
                },
            }
        }
    }
}

/// A struck scorable ahead of any struck solid is always among the removed
/// owners: scorables do not end the scan, solids do.
pub proof fn lemma_scorable_removed(v: Vec2, sp: Vec2, ssz: Vec2, cols: Seq<ColliderBox>, j: int)
    requires
        0 <= j < cols.len(),
        cols[j].kind is Scorable,
        spec_classify(sp, ssz, cols[j].pos, cols[j].size) is Some,
        forall|k: int| 0 <= k < j ==> !is_blocking(sp, ssz, #[trigger] cols[k]),
    ensures
        spec_resolve(v, sp, ssz, cols).1.contains(cols[j].id),
    decreases j,
{
    let c = cols[0];
    let rest = cols.drop_first();
    if j == 0 {
        let h = spec_classify(sp, ssz, c.pos, c.size).unwrap();
        let r = spec_resolve(spec_reflect(h, v), sp, ssz, rest);
        assert(spec_resolve(v, sp, ssz, cols).1 == seq![c.id] + r.1);
        assert((seq![c.id] + r.1)[0] == c.id);
    } else {
        assert(forall|k: int| 0 <= k < j - 1 ==> !is_blocking(sp, ssz, #[trigger] rest[k]));
        assert(rest[j - 1] == cols[j]);
        if c.kind is Plane {
            lemma_scorable_removed(v, sp, ssz, rest, j - 1);
        } else {
            match spec_classify(sp, ssz, c.pos, c.size) {
                Option::None => {
                    lemma_scorable_removed(v, sp, ssz, rest, j - 1);
                },
                Option::Some(h) => {
                    let v1 = spec_reflect(h, v);
                    lemma_scorable_removed(v1, sp, ssz, rest, j - 1);
                    let r = spec_resolve(v1, sp, ssz, rest);
                    assert(r.1.contains(cols[j].id));
                    let w = choose|w: int| 0 <= w < r.1.len() && r.1[w] == cols[j].id;
                    assert((seq![c.id] + r.1)[w + 1] == cols[j].id);
                },
            }
        }
    }
}

/// Exec mirror of `spec_resolve`: walk the colliders in order, reflect on
/// every hit, collect struck scorables, stop at the first struck solid.
pub fn resolve_shot(v: Vec2, sp: Vec2, ssz: Vec2, cols: &Vec<ColliderBox>) -> (r: (Vec2, Vec<u64>))
    requires
        s_abs(v.x as int) <= VEL_CAP,
        s_abs(v.y as int) <= VEL_CAP,
        s_abs(sp.x as int) <= POS_CAP,
        s_abs(sp.y as int) <= POS_CAP,
        0 <= ssz.x <= SIZE_CAP,
        0 <= ssz.y <= SIZE_CAP,
        forall|i: int| 0 <= i < cols@.len() ==> box_wf(#[trigger] cols@[i]),
    ensures
        (r.0, r.1@) == spec_resolve(v, sp, ssz, cols@),
        s_abs(r.0.x as int) <= VEL_CAP,
        s_abs(r.0.y as int) <= VEL_CAP,
{
    let mut vel: Vec2 = v;
    let mut removed: Vec<u64> = Vec::new();
    let mut i: usize = 0;
    let mut stopped: bool = false;
    proof {
        assert(cols@.skip(0) =~= cols@);
        let rr = spec_resolve(v, sp, ssz, cols@);
        assert(Seq::<u64>::empty() + rr.1 =~= rr.1);
    }
    while i < cols.len() && !stopped
        invariant
            0 <= i <= cols@.len(),
            s_abs(v.x as int) <= VEL_CAP,
            s_abs(v.y as int) <= VEL_CAP,
            s_abs(sp.x as int) <= POS_CAP,
            s_abs(sp.y as int) <= POS_CAP,
            0 <= ssz.x <= SIZE_CAP,
            0 <= ssz.y <= SIZE_CAP,
            forall|k: int| 0 <= k < cols@.len() ==> box_wf(#[trigger] cols@[k]),
            s_abs(vel.x as int) <= VEL_CAP,
            s_abs(vel.y as int) <= VEL_CAP,
            stopped ==> spec_resolve(v, sp, ssz, cols@) == (vel, removed@),
            !stopped ==> spec_resolve(v, sp, ssz, cols@) == ({
                let rr = spec_resolve(vel, sp, ssz, cols@.skip(i as int));
                (rr.0, removed@ + rr.1)
            }),
        decreases cols@.len() - i + (if stopped { 0int } else { 1int }),
    {
        let c: ColliderBox = cols[i];
        proof {
            assert(cols@.skip(i as int)[0] == cols@[i as int]);
            assert(cols@.skip(i as int).drop_first() =~= cols@.skip(i as int + 1));
        }
        match c.kind {
            Collider::Plane => {
                i = i + 1;
            },
            _ => {
                let hit = classify(sp, ssz, c.pos, c.size);
                match hit {
                    None => {
                        i = i + 1;
                    },
                    Some(h) => {
                        vel = reflect(h, vel);
                        match c.kind {
                            Collider::Solid => {
                                proof {
                                    assert(removed@ + Seq::<u64>::empty() =~= removed@);
                                }
                                stopped = true;
                            },
                            _ => {
                                let ghost old_removed = removed@;
                                removed.push(c.id);
                                proof {
                                    assert(removed@ =~= old_removed + seq![c.id]);
                                    let rr = spec_resolve(vel, sp, ssz, cols@.skip(i as int + 1));
                                    assert(old_removed + (seq![c.id] + rr.1) =~= (old_removed
                                        + seq![c.id]) + rr.1);
                                }
                                i = i + 1;
                            },
                        }
                    },
                }
            },
        }
    }
    proof {
        if !stopped {
            assert(cols@.skip(cols@.len() as int) =~= Seq::<ColliderBox>::empty());
            assert(removed@ + Seq::<u64>::empty() =~= removed@);
        }
    }
    (vel, removed)
}

} // verus!
