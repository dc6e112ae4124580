//! Circle colliders and the geometric overlap test. World coordinates and
//! radii are fixed-point integers; two circles overlap exactly when the
//! squared distance between their centres is below the squared sum of
//! their radii, which keeps the test free of square roots.

use vstd::prelude::*;
use crate::ecs::Components;
use crate::ecs::Ecs;
use crate::ecs::entities_distinct;
use crate::entity::Entity;

verus! {

/// A fixed-point world position.
#[derive(Clone, Copy, PartialEq, Eq, Structural, Debug)]
pub struct Position {
    pub x: i32,
    pub y: i32,
}

/// A fixed-point world velocity, in units per second.
#[derive(Clone, Copy, PartialEq, Eq, Structural, Debug)]
pub struct Velocity {
    pub x: i32,
    pub y: i32,
}

/// Category tag on a collider, distinguishing whose body it is. Collision
/// detection itself does not filter on it; faction filtering happens
/// downstream in the damage and despawn logic.
#[derive(Clone, Copy, PartialEq, Eq, Structural, Debug)]
pub enum ColliderType {
    Player,
    Enemy,
    Projectile,
}

/// A circle-shaped collision body.
#[derive(Clone, Copy, PartialEq, Eq, Structural, Debug)]
pub struct CircleCollider {
    pub radius: u32,
    pub coll_type: ColliderType,
}

/// One deduplicated overlap record for an unordered pair of entities,
/// produced at most once per pair per frame. The contact metadata keeps
/// the squared centre distance and the squared radius sum, so the
/// penetration is available without a square root.
#[derive(Clone, Copy, PartialEq, Eq, Structural, Debug)]
pub struct Collision {
    pub a: Entity,
    pub b: Entity,
    /// Squared distance between the two centres.
    pub dist_sq: u128,
    /// Squared sum of the two radii.
    pub rad_sum_sq: u128,
}

/// Two circles overlap when their centres are closer than the sum of their
/// radii: `dist(pa, pb) < ra + rb`, stated over squares.
pub open spec fn circles_overlap(pa: Position, ra: u32, pb: Position, rb: u32) -> bool {
    let dx = pa.x - pb.x;
    let dy = pa.y - pb.y;
    dx * dx + dy * dy < (ra + rb) * (ra + rb)
}

/// Squared centre distance, the stored contact metadata.
pub open spec fn centre_dist_sq(pa: Position, pb: Position) -> int {
    let dx = pa.x - pb.x;
    let dy = pa.y - pb.y;
    dx * dx + dy * dy
}

impl Collision {
    /// Whether this record stands for the unordered pair `{x, y}`.
    pub open spec fn is_pair(self, x: Entity, y: Entity) -> bool {
        (self.a == x && self.b == y) || (self.a == y && self.b == x)
    }
}

/// The executable overlap test, exact with respect to `circles_overlap`.
pub fn overlaps(pa: Position, ra: u32, pb: Position, rb: u32) -> (r: bool)
    ensures
        r == circles_overlap(pa, ra, pb, rb),
{
    let dx: i128 = pa.x as i128 - pb.x as i128;
    let dy: i128 = pa.y as i128 - pb.y as i128;
    let rs: i128 = ra as i128 + rb as i128;
    proof {
        assert(dx * dx < 0x1_0000_0000_0000_0000_0000i128 && dx * dx >= 0) by (nonlinear_arith)
            requires -0x1_0000_0000i128 < dx < 0x1_0000_0000i128;
        assert(dy * dy < 0x1_0000_0000_0000_0000_0000i128 && dy * dy >= 0) by (nonlinear_arith)
            requires -0x1_0000_0000i128 < dy < 0x1_0000_0000i128;
        assert(rs * rs < 0x1_0000_0000_0000_0000_0000i128 && rs * rs >= 0) by (nonlinear_arith)
            requires 0i128 <= rs < 0x2_0000_0000i128;
    }
    dx * dx + dy * dy < rs * rs
}

/// Squared sum of two radii, the other stored contact metadatum.
pub open spec fn rad_sum_sq_of(ra: u32, rb: u32) -> int {
    (ra + rb) * (ra + rb)
}

/// Whether this entity identity takes part in collision detection: it has
/// both a world position and a collider.
pub open spec fn has_body(c: Components, id: u64) -> bool {
    c.positions@.contains_key(id) && c.colliders@.contains_key(id)
}

/// Whether two entity identities' circles overlap this frame.
pub open spec fn entities_collide(c: Components, x: u64, y: u64) -> bool {
    &&& has_body(c, x)
    &&& has_body(c, y)
    &&& circles_overlap(
        c.positions@[x],
        c.colliders@[x].radius,
        c.positions@[y],
        c.colliders@[y].radius,
    )
}

/// Whether the record set holds an entry for the unordered pair `{x, y}`.
pub open spec fn contains_pair(recs: Seq<Collision>, x: Entity, y: Entity) -> bool {
    exists|k: int| 0 <= k < recs.len() && #[trigger] recs[k].is_pair(x, y)
}

/// A record is sound for this runtime: both ends are live and distinct,
/// their circles overlap, and the stored metadata is exact.
pub open spec fn sound_record(ecs: Ecs, rec: Collision) -> bool {
    &&& ecs.entities@.contains(rec.a)
    &&& ecs.entities@.contains(rec.b)
    &&& rec.a.id != rec.b.id
    &&& entities_collide(ecs.components, rec.a.id, rec.b.id)
    &&& rec.dist_sq == centre_dist_sq(
        ecs.components.positions@[rec.a.id],
        ecs.components.positions@[rec.b.id],
    )
    &&& rec.rad_sum_sq == rad_sum_sq_of(
        ecs.components.colliders@[rec.a.id].radius,
        ecs.components.colliders@[rec.b.id].radius,
    )
}

/// What collision detection returns: a sound record for every entry, an
/// entry for every overlapping live pair, and at most one entry per
/// unordered pair.
pub open spec fn detected(ecs: Ecs, recs: Seq<Collision>) -> bool {
    &&& forall|k: int| 0 <= k < recs.len() ==> sound_record(ecs, #[trigger] recs[k])
    &&& forall|i: int, j: int|
        0 <= i < j < ecs.entities@.len() && #[trigger] entities_collide(
            ecs.components,
            ecs.entities@[i].id,
            ecs.entities@[j].id,
        ) ==> contains_pair(recs, ecs.entities@[i], ecs.entities@[j])
    &&& forall|k1: int, k2: int|
        0 <= k1 < k2 < recs.len() ==> !(#[trigger] recs[k1].is_pair(recs[k2].a, recs[k2].b))
}

/// Lexicographic order on index pairs, driving the deduplication argument.
pub open spec fn lex_lt(p: (int, int), q: (int, int)) -> bool {
    p.0 < q.0 || (p.0 == q.0 && p.1 < q.1)
}

/// A record together with the index pair it was produced from.
pub open spec fn record_indexed(es: Seq<Entity>, c: Components, rec: Collision, p: (int, int)) -> bool {
    &&& 0 <= p.0 < p.1 < es.len()
    &&& rec.a == es[p.0]
    &&& rec.b == es[p.1]
    &&& entities_collide(c, rec.a.id, rec.b.id)
    &&& rec.dist_sq == centre_dist_sq(c.positions@[rec.a.id], c.positions@[rec.b.id])
    &&& rec.rad_sum_sq == rad_sum_sq_of(
        c.colliders@[rec.a.id].radius,
        c.colliders@[rec.b.id].radius,
    )
}

/// Loop invariant of the pairwise scan, with `cur` the index pair about to
/// be examined.
pub open spec fn detect_inv(
    es: Seq<Entity>,
    c: Components,
    recs: Seq<Collision>,
    pairs: Seq<(int, int)>,
    cur: (int, int),
) -> bool {
    &&& pairs.len() == recs.len()
    &&& forall|k: int| 0 <= k < recs.len() ==> record_indexed(es, c, recs[k], #[trigger] pairs[k])
    &&& forall|k: int| 0 <= k < pairs.len() ==> lex_lt(#[trigger] pairs[k], cur)
    &&& forall|k1: int, k2: int| 0 <= k1 < k2 < pairs.len() ==> lex_lt(pairs[k1], pairs[k2])
    &&& forall|i1: int, j1: int|
        0 <= i1 < j1 < es.len() && lex_lt((i1, j1), cur) && #[trigger] entities_collide(
            c,
            es[i1].id,
            es[j1].id,
        ) ==> contains_pair(recs, es[i1], es[j1])
}

/// Two live-list positions carrying the same identity are the same
/// position.
proof fn lemma_index_unique(es: Seq<Entity>, x: int, y: int)
    requires
        entities_distinct(es),
        0 <= x < es.len(),
        0 <= y < es.len(),
        es[x].id == es[y].id,
    ensures
        x == y,
{
}

/// An existing pair entry survives a push.
proof fn lemma_contains_pair_push(recs: Seq<Collision>, rec: Collision, x: Entity, y: Entity)
    requires
        contains_pair(recs, x, y),
    ensures
        contains_pair(recs.push(rec), x, y),
{
    let k = choose|k: int| 0 <= k < recs.len() && #[trigger] recs[k].is_pair(x, y);
    assert(recs.push(rec)[k].is_pair(x, y));
}

/// Exact overlap test plus the contact metadata for one candidate pair.
fn overlap_metrics(pa: Position, ra: u32, pb: Position, rb: u32) -> (r: (bool, u128, u128))
    ensures
        r.0 == circles_overlap(pa, ra, pb, rb),
        r.1 == centre_dist_sq(pa, pb),
        r.2 == rad_sum_sq_of(ra, rb),
{
    let dx: i128 = pa.x as i128 - pb.x as i128;
    let dy: i128 = pa.y as i128 - pb.y as i128;
    let rs: i128 = ra as i128 + rb as i128;
    proof {
        assert(0 <= dx * dx < 0x1_0000_0000_0000_0000_0000i128) by (nonlinear_arith)
            requires -0x1_0000_0000i128 < dx < 0x1_0000_0000i128;
        assert(0 <= dy * dy < 0x1_0000_0000_0000_0000_0000i128) by (nonlinear_arith)
            requires -0x1_0000_0000i128 < dy < 0x1_0000_0000i128;
        assert(0 <= rs * rs < 0x1_0000_0000_0000_0000_0000i128) by (nonlinear_arith)
            requires 0i128 <= rs < 0x2_0000_0000i128;
    }
    let dist_sq: i128 = dx * dx + dy * dy;
    let rad_sum_sq: i128 = rs * rs;
    (dist_sq < rad_sum_sq, dist_sq as u128, rad_sum_sq as u128)
}

/// The per-frame broad pass: given every live entity with both a position
/// and a collider, produce the deduplicated set of unordered entity pairs
/// whose circles overlap this frame, in a fresh record list with no
/// carry-over state. Category tags are not filtered here; faction
/// filtering happens downstream.
pub fn detect_collisions(ecs: &Ecs) -> (r: Vec<Collision>)
    requires
        entities_distinct(ecs.entities@),
    ensures
        detected(*ecs, r@),
{
    let mut recs: Vec<Collision> = Vec::new();
    let ghost mut pairs: Seq<(int, int)> = Seq::empty();
    let n = ecs.entities.len();
    for i in 0..n
        invariant
            n == ecs.entities.len(),
            entities_distinct(ecs.entities@),
            detect_inv(ecs.entities@, ecs.components, recs@, pairs, (i as int, i as int + 1)),
    {
        let mut j = i + 1;
        while j < n
            invariant
                n == ecs.entities.len(),
                entities_distinct(ecs.entities@),
                i < n,
                i < j <= n,
                detect_inv(ecs.entities@, ecs.components, recs@, pairs, (i as int, j as int)),
            decreases n - j,
        {
            let ea = ecs.entities[i];
            let eb = ecs.entities[j];
            let pa = ecs.components.positions.get(&ea.id);
            let ca = ecs.components.colliders.get(&ea.id);
            let pb = ecs.components.positions.get(&eb.id);
            let cb = ecs.components.colliders.get(&eb.id);
            match (pa, ca, pb, cb) {
                (Some(pa), Some(ca), Some(pb), Some(cb)) => {
                    let (hit, dist_sq, rad_sum_sq) = overlap_metrics(*pa, ca.radius, *pb, cb.radius);
                    if hit {
                        let rec = Collision { a: ea, b: eb, dist_sq, rad_sum_sq };
                        proof {
                            assert forall|x: Entity, y: Entity|
                                contains_pair(recs@, x, y) implies contains_pair(
                                recs@.push(rec),
                                x,
                                y,
                            ) by {
                                lemma_contains_pair_push(recs@, rec, x, y);
                            }
                            assert(recs@.push(rec)[recs@.len() as int].is_pair(ea, eb));
                            pairs = pairs.push((i as int, j as int));
                        }
                        recs.push(rec);
                    }
                },
                _ => {},
            }
            j = j + 1;
        }
    }
    proof {
        let es = ecs.entities@;
        let c = ecs.components;
        assert forall|k: int| 0 <= k < recs@.len() implies sound_record(*ecs, #[trigger] recs@[k])
        by {
            let p = pairs[k];
            assert(record_indexed(es, c, recs@[k], p));
            assert(es[p.0] == recs@[k].a);
            assert(es[p.1] == recs@[k].b);
            assert(es.contains(recs@[k].a));
            assert(es.contains(recs@[k].b));
        }
        assert forall|k1: int, k2: int| 0 <= k1 < k2 < recs@.len() implies !(
        #[trigger] recs@[k1].is_pair(recs@[k2].a, recs@[k2].b)) by {
            let p1 = pairs[k1];
            let p2 = pairs[k2];
            assert(record_indexed(es, c, recs@[k1], p1));
            assert(record_indexed(es, c, recs@[k2], p2));
            assert(lex_lt(p1, p2));
            if recs@[k1].is_pair(recs@[k2].a, recs@[k2].b) {
                if recs@[k1].a == recs@[k2].a && recs@[k1].b == recs@[k2].b {
                    lemma_index_unique(es, p1.0, p2.0);
                    lemma_index_unique(es, p1.1, p2.1);
                } else {
                    lemma_index_unique(es, p1.0, p2.1);
                    lemma_index_unique(es, p1.1, p2.0);
                }
            }
        }
    }
    recs
}

/// The collision relation is symmetric in the two entities.
pub proof fn lemma_entities_collide_symmetric(c: Components, x: u64, y: u64)
    ensures
        entities_collide(c, x, y) == entities_collide(c, y, x),
{
    lemma_overlap_symmetric(
        c.positions@[x],
        c.colliders@[x].radius,
        c.positions@[y],
        c.colliders@[y].radius,
    );
}

/// Collision detection is symmetric and exact: for two distinct live
/// entities, the record set holds the unordered pair exactly when their
/// circles overlap, and holds it irrespective of the order the pair is
/// asked for. Together with the at-most-once clause of `detected`, the
/// orderings yield one record.
pub proof fn lemma_collision_characterisation(ecs: Ecs, recs: Seq<Collision>, x: Entity, y: Entity)
    requires
        entities_distinct(ecs.entities@),
        detected(ecs, recs),
        ecs.entities@.contains(x),
        ecs.entities@.contains(y),
        x.id != y.id,
    ensures
        contains_pair(recs, x, y) <==> entities_collide(ecs.components, x.id, y.id),
        contains_pair(recs, x, y) <==> contains_pair(recs, y, x),
{
    let es = ecs.entities@;
    let c = ecs.components;
    assert forall|u: Entity, v: Entity| contains_pair(recs, u, v) implies contains_pair(
        recs,
        v,
        u,
    ) by {
        let k = choose|k: int| 0 <= k < recs.len() && #[trigger] recs[k].is_pair(u, v);
        assert(recs[k].is_pair(v, u));
    }
    lemma_entities_collide_symmetric(c, x.id, y.id);
    if entities_collide(c, x.id, y.id) {
        let i = choose|i: int| 0 <= i < es.len() && es[i] == x;
        let j = choose|j: int| 0 <= j < es.len() && es[j] == y;
        if i < j {
            assert(entities_collide(c, es[i].id, es[j].id));
            assert(contains_pair(recs, x, y));
        } else {
            assert(i != j);
            assert(entities_collide(c, es[j].id, es[i].id));
            assert(contains_pair(recs, y, x));
        }
    }
    if contains_pair(recs, x, y) {
        let k = choose|k: int| 0 <= k < recs.len() && #[trigger] recs[k].is_pair(x, y);
        assert(sound_record(ecs, recs[k]));
        if recs[k].a == x {
            assert(entities_collide(c, x.id, y.id));
        } else {
            lemma_entities_collide_symmetric(c, y.id, x.id);
        }
    }
}

/// The overlap relation is symmetric in the two circles.
pub proof fn lemma_overlap_symmetric(pa: Position, ra: u32, pb: Position, rb: u32)
    ensures
        circles_overlap(pa, ra, pb, rb) == circles_overlap(pb, rb, pa, ra),
{
    let dx1 = pa.x - pb.x;
    let dy1 = pa.y - pb.y;
    let dx2 = pb.x - pa.x;
    let dy2 = pb.y - pa.y;
    assert(dx1 * dx1 == dx2 * dx2) by (nonlinear_arith)
        requires dx1 == -dx2;
    assert(dy1 * dy1 == dy2 * dy2) by (nonlinear_arith)
        requires dy1 == -dy2;
}

} // verus!
