use gameplay_core::collision::{
    detect_collisions, overlaps, CircleCollider, ColliderType, Position,
};
use gameplay_core::ecs::Ecs;
use gameplay_core::entity::Entity;

fn body(ecs: &mut Ecs, id: u64, x: i32, y: i32, radius: u32) -> Entity {
    let e = Entity { id };
    ecs.entities.push(e);
    ecs.components.positions.insert(id, Position { x, y });
    ecs.components.colliders.insert(id, CircleCollider { radius, coll_type: ColliderType::Enemy });
    e
}

#[test]
fn overlap_is_strict_distance_below_radius_sum() {
    let a = Position { x: 0, y: 0 };
    // centres 10 apart, radii summing to 10: touching is not overlapping
    assert!(!overlaps(a, 4, Position { x: 10, y: 0 }, 6));
    // radii summing to 11: overlap
    assert!(overlaps(a, 5, Position { x: 10, y: 0 }, 6));
    // 3-4-5 triangle: distance 5 exactly
    assert!(!overlaps(a, 2, Position { x: 3, y: 4 }, 3));
    assert!(overlaps(a, 3, Position { x: 3, y: 4 }, 3));
}

#[test]
fn overlap_is_symmetric() {
    let a = Position { x: -5, y: 2 };
    let b = Position { x: 1, y: -1 };
    assert_eq!(overlaps(a, 4, b, 3), overlaps(b, 3, a, 4));
    assert_eq!(overlaps(a, 1, b, 1), overlaps(b, 1, a, 1));
}

#[test]
fn both_orderings_of_a_pair_yield_one_record() {
    let mut ecs = Ecs::new();
    let a = body(&mut ecs, 1, 0, 0, 5);
    let b = body(&mut ecs, 2, 6, 0, 5);
    let records = detect_collisions(&ecs);
    assert_eq!(records.len(), 1);
    let rec = &records[0];
    assert!(
        (rec.a == a && rec.b == b) || (rec.a == b && rec.b == a),
        "the one record stands for the unordered pair"
    );
    assert_eq!(rec.dist_sq, 36);
    assert_eq!(rec.rad_sum_sq, 100);
}

#[test]
fn collision_holds_iff_circles_overlap() {
    let mut ecs = Ecs::new();
    let _near1 = body(&mut ecs, 1, 0, 0, 5);
    let _near2 = body(&mut ecs, 2, 6, 0, 5);
    let _far = body(&mut ecs, 3, 1000, 1000, 5);
    let records = detect_collisions(&ecs);
    assert_eq!(records.len(), 1, "only the overlapping pair is recorded");
    assert!(records.iter().all(|r| r.a.id != 3 && r.b.id != 3));
}

#[test]
fn entities_without_position_or_collider_are_skipped() {
    let mut ecs = Ecs::new();
    let _a = body(&mut ecs, 1, 0, 0, 10);
    // same spot, but no collider
    let b = Entity { id: 2 };
    ecs.entities.push(b);
    ecs.components.positions.insert(b.id, Position { x: 0, y: 0 });
    // same spot, but no position
    let c = Entity { id: 3 };
    ecs.entities.push(c);
    ecs.components.colliders.insert(
        c.id,
        CircleCollider { radius: 10, coll_type: ColliderType::Player },
    );
    assert!(detect_collisions(&ecs).is_empty());
}

#[test]
fn three_mutually_overlapping_bodies_give_three_records() {
    let mut ecs = Ecs::new();
    body(&mut ecs, 1, 0, 0, 10);
    body(&mut ecs, 2, 5, 0, 10);
    body(&mut ecs, 3, 0, 5, 10);
    let records = detect_collisions(&ecs);
    assert_eq!(records.len(), 3);
    for i in 0..records.len() {
        for j in (i + 1)..records.len() {
            let (r1, r2) = (&records[i], &records[j]);
            assert!(!(r1.a == r2.a && r1.b == r2.b));
            assert!(!(r1.a == r2.b && r1.b == r2.a));
        }
    }
}

#[test]
fn detection_output_is_fresh_each_frame() {
    let mut ecs = Ecs::new();
    body(&mut ecs, 1, 0, 0, 5);
    body(&mut ecs, 2, 6, 0, 5);
    assert_eq!(detect_collisions(&ecs).len(), 1);
    // move them apart: the new pass carries nothing over
    ecs.components.positions.insert(2, Position { x: 600, y: 0 });
    assert!(detect_collisions(&ecs).is_empty());
}
