use dogfight::collision::{classify, reflect, resolve_shot, Collider, ColliderBox, Hit};
use dogfight::transform::Vec2;

fn shot_pos() -> Vec2 {
    Vec2 { x: 0, y: 0 }
}

fn shot_size() -> Vec2 {
    Vec2 { x: 10_000, y: 10_000 }
}

#[test]
fn classify_collider_to_the_right() {
    let h = classify(shot_pos(), shot_size(), Vec2 { x: 6000, y: 0 }, Vec2 { x: 10_000, y: 40_000 });
    assert_eq!(h, Some(Hit::Right));
}

#[test]
fn classify_collider_to_the_left() {
    let h = classify(shot_pos(), shot_size(), Vec2 { x: -6000, y: 0 }, Vec2 {
        x: 10_000,
        y: 40_000,
    });
    assert_eq!(h, Some(Hit::Left));
}

#[test]
fn classify_collider_above_and_below() {
    let above = classify(shot_pos(), shot_size(), Vec2 { x: 0, y: 6000 }, Vec2 {
        x: 40_000,
        y: 10_000,
    });
    assert_eq!(above, Some(Hit::Top));
    let below = classify(shot_pos(), shot_size(), Vec2 { x: 0, y: -6000 }, Vec2 {
        x: 40_000,
        y: 10_000,
    });
    assert_eq!(below, Some(Hit::Bottom));
}

#[test]
fn classify_fully_overlapping_as_inside() {
    let h = classify(shot_pos(), shot_size(), Vec2 { x: 0, y: 0 }, Vec2 { x: 40_000, y: 40_000 });
    assert_eq!(h, Some(Hit::Inside));
}

#[test]
fn classify_no_overlap() {
    let h = classify(shot_pos(), shot_size(), Vec2 { x: 50_000, y: 0 }, Vec2 {
        x: 10_000,
        y: 10_000,
    });
    assert_eq!(h, None);
}

#[test]
fn classify_tie_prefers_horizontal() {
    let h = classify(shot_pos(), shot_size(), Vec2 { x: 6000, y: 6000 }, Vec2 {
        x: 10_000,
        y: 10_000,
    });
    assert_eq!(h, Some(Hit::Right));
}

#[test]
fn reflection_flips_a_shot_moving_into_the_surface() {
    let v = Vec2 { x: 100, y: 40 };
    let r = reflect(Hit::Right, v);
    assert_eq!(r, Vec2 { x: -100, y: 40 });
}

#[test]
fn reflection_leaves_a_shot_moving_away_unchanged() {
    let v = Vec2 { x: -100, y: 40 };
    let r = reflect(Hit::Right, v);
    assert_eq!(r, v);
}

#[test]
fn reflection_other_directions() {
    assert_eq!(reflect(Hit::Left, Vec2 { x: -100, y: 40 }), Vec2 { x: 100, y: 40 });
    assert_eq!(reflect(Hit::Left, Vec2 { x: 100, y: 40 }), Vec2 { x: 100, y: 40 });
    assert_eq!(reflect(Hit::Top, Vec2 { x: 7, y: 50 }), Vec2 { x: 7, y: -50 });
    assert_eq!(reflect(Hit::Bottom, Vec2 { x: 7, y: -50 }), Vec2 { x: 7, y: 50 });
    assert_eq!(reflect(Hit::Inside, Vec2 { x: 7, y: -50 }), Vec2 { x: 7, y: -50 });
}

#[test]
fn solid_stops_the_scan_and_scorable_does_not() {
    let cols = vec![
        ColliderBox {
            id: 10,
            kind: Collider::Scorable,
            pos: Vec2 { x: 6000, y: 0 },
            size: Vec2 { x: 10_000, y: 40_000 },
        },
        ColliderBox {
            id: 11,
            kind: Collider::Solid,
            pos: Vec2 { x: 0, y: 6000 },
            size: Vec2 { x: 40_000, y: 10_000 },
        },
        ColliderBox {
            id: 12,
            kind: Collider::Scorable,
            pos: Vec2 { x: -6000, y: 0 },
            size: Vec2 { x: 10_000, y: 40_000 },
        },
    ];
    let v = Vec2 { x: 100_000, y: 50_000 };
    let (v2, removed) = resolve_shot(v, shot_pos(), shot_size(), &cols);
    // the scorable flips x, the solid flips y, the collider after the solid
    // is never tested (it would have flipped x back)
    assert_eq!(v2, Vec2 { x: -100_000, y: -50_000 });
    assert_eq!(removed, vec![10]);
}

#[test]
fn plane_colliders_are_skipped() {
    let cols = vec![ColliderBox {
        id: 3,
        kind: Collider::Plane,
        pos: Vec2 { x: 6000, y: 0 },
        size: Vec2 { x: 10_000, y: 40_000 },
    }];
    let v = Vec2 { x: 100_000, y: 0 };
    let (v2, removed) = resolve_shot(v, shot_pos(), shot_size(), &cols);
    assert_eq!(v2, v);
    assert!(removed.is_empty());
}

#[test]
fn non_overlapping_colliders_change_nothing() {
    let cols = vec![ColliderBox {
        id: 4,
        kind: Collider::Solid,
        pos: Vec2 { x: 90_000, y: 0 },
        size: Vec2 { x: 10_000, y: 10_000 },
    }];
    let v = Vec2 { x: 100_000, y: 0 };
    let (v2, removed) = resolve_shot(v, shot_pos(), shot_size(), &cols);
    assert_eq!(v2, v);
    assert!(removed.is_empty());
}
