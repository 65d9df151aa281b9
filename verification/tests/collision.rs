//! The pairwise collision resolver.

use rts_core::geom::Vec2;
use rts_core::movement::{random_direction, resolve_collision_pair};

fn d2(a: Vec2, b: Vec2) -> i128 {
    let dx = (a.x - b.x) as i128;
    let dy = (a.y - b.y) as i128;
    dx * dx + dy * dy
}

#[test]
fn stationary_pair_splits_correction_evenly_and_separates() {
    let a = Vec2 { x: 0, y: 0 };
    let b = Vec2 { x: 1000, y: 0 };
    // footprints of 1.0 each overlap by 1.0 world units
    let (na, nb) = resolve_collision_pair(a, b, 1000, 1000, 0, 0, Vec2 { x: 1000, y: 0 });
    // displacement is split exactly half and half, in opposite directions
    assert_eq!(na.x - a.x, -(nb.x - b.x));
    assert_eq!(na.y - a.y, -(nb.y - b.y));
    assert_eq!(na, Vec2 { x: -500, y: 0 });
    assert_eq!(nb, Vec2 { x: 1500, y: 0 });
    // the pair no longer overlaps
    assert!(d2(na, nb) >= 2000 * 2000);
}

#[test]
fn stationary_pair_separates_on_a_diagonal() {
    let a = Vec2 { x: 300, y: 400 };
    let b = Vec2 { x: 0, y: 0 };
    // distance 0.5, footprints 0.6 + 0.6
    let (na, nb) = resolve_collision_pair(a, b, 600, 600, 0, 0, Vec2 { x: 1000, y: 0 });
    assert_eq!(na.x - a.x, -(nb.x - b.x));
    assert_eq!(na.y - a.y, -(nb.y - b.y));
    assert!(d2(na, nb) >= 1200 * 1200);
}

#[test]
fn moving_unit_pushes_stationary_one_aside() {
    let a = Vec2 { x: 0, y: 0 };
    let b = Vec2 { x: 1000, y: 0 };
    let (na, nb) = resolve_collision_pair(a, b, 1000, 1000, 100, 0, Vec2 { x: 1000, y: 0 });
    // the mover absorbs nothing; the stationary unit takes the whole
    // correction, away from the mover, and no overlap remains
    assert_eq!(na, a);
    assert_eq!(nb, Vec2 { x: 2000, y: 0 });
    assert!(d2(na, nb) >= 2000 * 2000);
}

#[test]
fn small_priority_still_pushes_the_full_overlap() {
    // the push must not scale with the mover's absolute weight
    let a = Vec2 { x: 0, y: 0 };
    let b = Vec2 { x: 1000, y: 0 };
    let (na, nb) = resolve_collision_pair(a, b, 1000, 1000, 5, 0, Vec2 { x: 1000, y: 0 });
    assert_eq!(na, a);
    assert_eq!(nb, Vec2 { x: 2000, y: 0 });
}

#[test]
fn two_movers_split_the_full_overlap_by_the_other_weight() {
    let a = Vec2 { x: 0, y: 0 };
    let b = Vec2 { x: 1000, y: 0 };
    // weights three to one: the heavier mover yields a quarter of the
    // overlap, the lighter one three quarters
    let (na, nb) = resolve_collision_pair(a, b, 1000, 1000, 3, 1, Vec2 { x: 1000, y: 0 });
    assert_eq!(na, Vec2 { x: -250, y: 0 });
    assert_eq!(nb, Vec2 { x: 1750, y: 0 });
    assert!(d2(na, nb) >= 2000 * 2000);
}

#[test]
fn non_overlapping_pair_is_untouched() {
    let a = Vec2 { x: 0, y: 0 };
    let b = Vec2 { x: 5000, y: 0 };
    let (na, nb) = resolve_collision_pair(a, b, 1000, 1000, 0, 0, Vec2 { x: 1000, y: 0 });
    assert_eq!(na, a);
    assert_eq!(nb, b);
}

#[test]
fn coincident_pair_separates_fully_along_the_fallback_axis() {
    let a = Vec2 { x: 0, y: 0 };
    let b = Vec2 { x: 0, y: 0 };
    let fallback = Vec2 { x: 1000, y: 0 };
    let (na, nb) = resolve_collision_pair(a, b, 1000, 1000, 0, 0, fallback);
    // the fallback gives only the direction: the full summed footprint is
    // the overlap, split evenly
    assert_eq!(na, Vec2 { x: 1000, y: 0 });
    assert_eq!(nb, Vec2 { x: -1000, y: 0 });
    assert!(d2(na, nb) >= 2000 * 2000);
}

#[test]
fn coincident_pair_with_a_short_draw_still_separates() {
    // the draw's magnitude must not scale the correction down
    let a = Vec2 { x: 0, y: 0 };
    let (na, nb) = resolve_collision_pair(a, a, 500, 500, 0, 0, Vec2 { x: 3, y: 4 });
    assert!(d2(na, nb) >= 1000 * 1000);
    assert_eq!(na.x - a.x, -(nb.x - a.x));
    assert_eq!(na.y - a.y, -(nb.y - a.y));
}

#[test]
fn random_direction_is_never_zero() {
    for _ in 0..64 {
        let d = random_direction();
        assert!(!(d.x == 0 && d.y == 0));
        assert!(d.x >= -1000 && d.x <= 1000);
        assert!(d.y >= -1000 && d.y <= 1000);
    }
}
