//! The damage resolution and lifecycle systems: per-frame timer advance on
//! damage-gating components, collision-to-damage-event translation,
//! despawn-on-hit, damage application gated by invulnerability windows,
//! the kill check, and death handling. These run once per frame in this
//! fixed order, and they are the only place hit points are mutated, the
//! only origin of hit- and kill-driven despawns, and the only producer and
//! consumer of damage and death events.

use vstd::prelude::*;
use crate::collision::Collision;
use crate::collision::Position;
use crate::ecs::Ecs;
use crate::ecs::entities_distinct;
use crate::ecs::id_in;
use crate::ecs::lemma_distinct_not_in_prefix;
use crate::ecs::lemma_id_in_take_step;
use crate::entity::Entity;
use crate::events::DamageEvent;
use crate::events::DeathEvent;
use crate::player::PlayerData;
use crate::tags::DamageOnCollision;
use crate::tags::DespawnOnHit;
use crate::tags::Damageable;
use crate::tags::EntityType;
use crate::tags::Health;
use crate::timer::Timer;
use crate::timer::elapsed_after_update;
use crate::timer::reset_timer;
use crate::timer::timer_completed;
use crate::timer::update_crosses_completion;

verus! {

broadcast use vstd::std_specs::hash::group_hash_axioms, vstd::seq_lib::group_seq_properties;

/// A timer's value after one tick of `dt`.
pub open spec fn timer_updated(t: Timer, dt: u64) -> Timer {
    Timer {
        duration: t.duration,
        elapsed: elapsed_after_update(t, dt) as u64,
        repeat: t.repeat,
        just_completed: update_crosses_completion(t, dt),
    }
}

/// A damageable component after one tick of `dt`: whichever of its two
/// optional timers is present advances.
pub open spec fn damageable_updated(d: Damageable, dt: u64) -> Damageable {
    Damageable {
        invulnerable_timer: match d.invulnerable_timer {
            Some(t) => Some(timer_updated(t, dt)),
            None => None,
        },
        hit_fx_timer: match d.hit_fx_timer {
            Some(t) => Some(timer_updated(t, dt)),
            None => None,
        },
    }
}

/// The whole timer table after one tick of `dt` over the given live
/// list: live entries advance, entries of identities not in the list stay
/// as they are.
pub open spec fn timers_after_tick(timers: Map<u64, Timer>, es: Seq<Entity>, dt: u64) -> Map<
    u64,
    Timer,
> {
    Map::new(
        |id: u64| timers.contains_key(id),
        |id: u64|
            if id_in(es, id) {
                timer_updated(timers[id], dt)
            } else {
                timers[id]
            },
    )
}

/// The whole damage-gating table after one tick of `dt` over the given
/// live list.
pub open spec fn damageables_after_tick(dmg: Map<u64, Damageable>, es: Seq<Entity>, dt: u64) -> Map<
    u64,
    Damageable,
> {
    Map::new(
        |id: u64| dmg.contains_key(id),
        |id: u64|
            if id_in(es, id) {
                damageable_updated(dmg[id], dt)
            } else {
                dmg[id]
            },
    )
}

/// Advance the timer component of every live entity that has one by `dt`
/// ticks. Entries of identities not in the live list stay as they are.
pub fn update_timers(ecs: &mut Ecs, dt: u64)
    requires
        entities_distinct(old(ecs).entities@),
    ensures
        final(ecs).entities == old(ecs).entities,
        final(ecs).marked_for_despawn == old(ecs).marked_for_despawn,
        final(ecs).components.timers@ == timers_after_tick(
            old(ecs).components.timers@,
            old(ecs).entities@,
            dt,
        ),
        final(ecs).components.colliders == old(ecs).components.colliders,
        final(ecs).components.positions == old(ecs).components.positions,
        final(ecs).components.velocities == old(ecs).components.velocities,
        final(ecs).components.damage_on_collision == old(ecs).components.damage_on_collision,
        final(ecs).components.health == old(ecs).components.health,
        final(ecs).components.damageables == old(ecs).components.damageables,
        final(ecs).components.despawn_on_anim_end == old(ecs).components.despawn_on_anim_end,
        final(ecs).components.despawn_on_hit == old(ecs).components.despawn_on_hit,
        final(ecs).components.player_data == old(ecs).components.player_data,
        final(ecs).components.player_entity == old(ecs).components.player_entity,
{
    let n = ecs.entities.len();
    for i in 0..n
        invariant
            n == ecs.entities.len(),
            entities_distinct(ecs.entities@),
            ecs.entities == old(ecs).entities,
            ecs.marked_for_despawn == old(ecs).marked_for_despawn,
            ecs.components.timers@.dom() == old(ecs).components.timers@.dom(),
            forall|id: u64|
                old(ecs).components.timers@.contains_key(id)
                    ==> ecs.components.timers@[id] == (if id_in(
                    old(ecs).entities@.take(i as int),
                    id,
                ) {
                    timer_updated(old(ecs).components.timers@[id], dt)
                } else {
                    old(ecs).components.timers@[id]
                }),
            ecs.components.colliders == old(ecs).components.colliders,
            ecs.components.positions == old(ecs).components.positions,
            ecs.components.velocities == old(ecs).components.velocities,
            ecs.components.damage_on_collision == old(ecs).components.damage_on_collision,
            ecs.components.health == old(ecs).components.health,
            ecs.components.damageables == old(ecs).components.damageables,
            ecs.components.despawn_on_anim_end == old(ecs).components.despawn_on_anim_end,
            ecs.components.despawn_on_hit == old(ecs).components.despawn_on_hit,
            ecs.components.player_data == old(ecs).components.player_data,
            ecs.components.player_entity == old(ecs).components.player_entity,
    {
        let e = ecs.entities[i];
        proof {
            lemma_distinct_not_in_prefix(old(ecs).entities@, i as int);
            assert forall|id: u64| true implies id_in(old(ecs).entities@.take(i + 1), id) == (
            id_in(old(ecs).entities@.take(i as int), id) || old(ecs).entities@[i as int].id
                == id) by {
                lemma_id_in_take_step(old(ecs).entities@, i as int, id);
            }
        }
        let t_opt = ecs.components.timers.get(&e.id);
        match t_opt {
            Some(t) => {
                let mut t2 = *t;
                t2.update(dt);
                proof {
                    assert(t2 == timer_updated(old(ecs).components.timers@[e.id], dt));
                }
                ecs.components.timers.insert(e.id, t2);
                proof {
                    assert(ecs.components.timers@.dom() =~= old(ecs).components.timers@.dom());
                }
            },
            None => {},
        }
    }
    proof {
        assert forall|id: u64| true implies id_in(old(ecs).entities@.take(n as int), id) == id_in(
            old(ecs).entities@,
            id,
        ) by {
            assert(old(ecs).entities@.take(n as int) =~= old(ecs).entities@);
        }
        assert(ecs.components.timers@ =~= timers_after_tick(
            old(ecs).components.timers@,
            old(ecs).entities@,
            dt,
        ));
    }
}

/// Advance both gating timers of every live damageable entity by `dt`
/// ticks: the invulnerability window keeps counting down, the hit-flash
/// timer keeps playing out. Entries of identities not in the live list
/// stay as they are.
pub fn update_damageables(ecs: &mut Ecs, dt: u64)
    requires
        entities_distinct(old(ecs).entities@),
    ensures
        final(ecs).entities == old(ecs).entities,
        final(ecs).marked_for_despawn == old(ecs).marked_for_despawn,
        final(ecs).components.damageables@ == damageables_after_tick(
            old(ecs).components.damageables@,
            old(ecs).entities@,
            dt,
        ),
        final(ecs).components.timers == old(ecs).components.timers,
        final(ecs).components.colliders == old(ecs).components.colliders,
        final(ecs).components.positions == old(ecs).components.positions,
        final(ecs).components.velocities == old(ecs).components.velocities,
        final(ecs).components.damage_on_collision == old(ecs).components.damage_on_collision,
        final(ecs).components.health == old(ecs).components.health,
        final(ecs).components.despawn_on_anim_end == old(ecs).components.despawn_on_anim_end,
        final(ecs).components.despawn_on_hit == old(ecs).components.despawn_on_hit,
        final(ecs).components.player_data == old(ecs).components.player_data,
        final(ecs).components.player_entity == old(ecs).components.player_entity,
{
    let n = ecs.entities.len();
    for i in 0..n
        invariant
            n == ecs.entities.len(),
            entities_distinct(ecs.entities@),
            ecs.entities == old(ecs).entities,
            ecs.marked_for_despawn == old(ecs).marked_for_despawn,
            ecs.components.damageables@.dom() == old(ecs).components.damageables@.dom(),
            forall|id: u64|
                old(ecs).components.damageables@.contains_key(id)
                    ==> ecs.components.damageables@[id] == (if id_in(
                    old(ecs).entities@.take(i as int),
                    id,
                ) {
                    damageable_updated(old(ecs).components.damageables@[id], dt)
                } else {
                    old(ecs).components.damageables@[id]
                }),
            ecs.components.timers == old(ecs).components.timers,
            ecs.components.colliders == old(ecs).components.colliders,
            ecs.components.positions == old(ecs).components.positions,
            ecs.components.velocities == old(ecs).components.velocities,
            ecs.components.damage_on_collision == old(ecs).components.damage_on_collision,
            ecs.components.health == old(ecs).components.health,
            ecs.components.despawn_on_anim_end == old(ecs).components.despawn_on_anim_end,
            ecs.components.despawn_on_hit == old(ecs).components.despawn_on_hit,
            ecs.components.player_data == old(ecs).components.player_data,
            ecs.components.player_entity == old(ecs).components.player_entity,
    {
        let e = ecs.entities[i];
        proof {
            lemma_distinct_not_in_prefix(old(ecs).entities@, i as int);
            assert forall|id: u64| true implies id_in(old(ecs).entities@.take(i + 1), id) == (
            id_in(old(ecs).entities@.take(i as int), id) || old(ecs).entities@[i as int].id
                == id) by {
                lemma_id_in_take_step(old(ecs).entities@, i as int, id);
            }
        }
        let d_opt = ecs.components.damageables.get(&e.id);
        match d_opt {
            Some(d) => {
                let d = *d;
                let invulnerable_timer = match d.invulnerable_timer {
                    Some(t) => {
                        let mut t2 = t;
                        t2.update(dt);
                        Some(t2)
                    },
                    None => None,
                };
                let hit_fx_timer = match d.hit_fx_timer {
                    Some(t) => {
                        let mut t2 = t;
                        t2.update(dt);
                        Some(t2)
                    },
                    None => None,
                };
                let d2 = Damageable { invulnerable_timer, hit_fx_timer };
                proof {
                    assert(d2 == damageable_updated(old(ecs).components.damageables@[e.id], dt));
                }
                ecs.components.damageables.insert(e.id, d2);
                proof {
                    assert(ecs.components.damageables@.dom() =~= old(
                        ecs,
                    ).components.damageables@.dom());
                }
            },
            None => {},
        }
    }
    proof {
        assert forall|id: u64| true implies id_in(old(ecs).entities@.take(n as int), id) == id_in(
            old(ecs).entities@,
            id,
        ) by {
            assert(old(ecs).entities@.take(n as int) =~= old(ecs).entities@);
        }
        assert(ecs.components.damageables@ =~= damageables_after_tick(
            old(ecs).components.damageables@,
            old(ecs).entities@,
            dt,
        ));
    }
}

/// Faction-correct damage: the source hurts the other party only when the
/// other party's side is the opposite one. An entity carrying the player's
/// statistics counts as the player's side.
pub open spec fn faction_allows(
    pd: Map<u64, PlayerData>,
    source: EntityType,
    other_id: u64,
) -> bool {
    if pd.contains_key(other_id) {
        source == EntityType::Enemy
    } else {
        source == EntityType::Player
    }
}

/// The damage event that `s` (which carries `DamageOnCollision`) deals to
/// the other end of one of its collision pairs: one event when the faction
/// check passes, none otherwise.
pub open spec fn events_for_other(
    doc: Map<u64, DamageOnCollision>,
    pd: Map<u64, PlayerData>,
    s: Entity,
    other: Entity,
) -> Seq<DamageEvent> {
    if faction_allows(pd, doc[s.id].source, other.id) {
        seq![DamageEvent { source: s, target: other, damage: doc[s.id].damage }]
    } else {
        Seq::empty()
    }
}

/// The damage events `s` deals through one collision record: one per end
/// of the pair held by `s`, aimed at the opposite end.
pub open spec fn events_for_collision(
    doc: Map<u64, DamageOnCollision>,
    pd: Map<u64, PlayerData>,
    s: Entity,
    col: Collision,
) -> Seq<DamageEvent> {
    (if col.a == s {
        events_for_other(doc, pd, s, col.b)
    } else {
        Seq::empty()
    }) + (if col.b == s {
        events_for_other(doc, pd, s, col.a)
    } else {
        Seq::empty()
    })
}

/// The damage events `s` deals over all collision records, in record
/// order.
pub open spec fn events_for_entity(
    doc: Map<u64, DamageOnCollision>,
    pd: Map<u64, PlayerData>,
    s: Entity,
    cols: Seq<Collision>,
) -> Seq<DamageEvent>
    decreases cols.len(),
{
    if cols.len() == 0 {
        Seq::empty()
    } else {
        events_for_entity(doc, pd, s, cols.drop_last()) + events_for_collision(
            doc,
            pd,
            s,
            cols.last(),
        )
    }
}

/// All damage events of one frame: for every entity with
/// `DamageOnCollision`, in live-list order, the events it deals through
/// the collision records touching it.
pub open spec fn generated_damage_events(
    doc: Map<u64, DamageOnCollision>,
    pd: Map<u64, PlayerData>,
    es: Seq<Entity>,
    cols: Seq<Collision>,
) -> Seq<DamageEvent>
    decreases es.len(),
{
    if es.len() == 0 {
        Seq::empty()
    } else {
        generated_damage_events(doc, pd, es.drop_last(), cols) + (if doc.contains_key(
            es.last().id,
        ) {
            events_for_entity(doc, pd, es.last(), cols)
        } else {
            Seq::empty()
        })
    }
}

/// Translate this frame's collisions into damage events: for every entity
/// with `DamageOnCollision` and every collision pair touching it, inspect
/// the other entity of the pair, and emit an event against it exactly when
/// the source faction is the opposite of the other party's side.
pub fn damage_on_collision(
    ecs: &Ecs,
    damage_events: &mut Vec<DamageEvent>,
    collisions: &Vec<Collision>,
)
    ensures
        final(damage_events)@ == old(damage_events)@ + generated_damage_events(
            ecs.components.damage_on_collision@,
            ecs.components.player_data@,
            ecs.entities@,
            collisions@,
        ),
{
    let ghost doc = ecs.components.damage_on_collision@;
    let ghost pd = ecs.components.player_data@;
    let n = ecs.entities.len();
    for i in 0..n
        invariant
            n == ecs.entities.len(),
            doc == ecs.components.damage_on_collision@,
            pd == ecs.components.player_data@,
            damage_events@ == old(damage_events)@ + generated_damage_events(
                doc,
                pd,
                ecs.entities@.take(i as int),
                collisions@,
            ),
    {
        let e = ecs.entities[i];
        proof {
            assert(ecs.entities@.take(i + 1).drop_last() =~= ecs.entities@.take(i as int));
            assert(ecs.entities@.take(i + 1).last() == e);
        }
        let doc_opt = ecs.components.damage_on_collision.get(&e.id);
        match doc_opt {
            Some(doc_e) => {
                let doc_e = *doc_e;
                let m = collisions.len();
                for j in 0..m
                    invariant
                        n == ecs.entities.len(),
                        m == collisions.len(),
                        doc == ecs.components.damage_on_collision@,
                        pd == ecs.components.player_data@,
                        doc.contains_key(e.id),
                        doc_e == doc[e.id],
                        damage_events@ == old(damage_events)@ + generated_damage_events(
                            doc,
                            pd,
                            ecs.entities@.take(i as int),
                            collisions@,
                        ) + events_for_entity(doc, pd, e, collisions@.take(j as int)),
                {
                    let col = collisions[j];
                    proof {
                        assert(collisions@.take(j + 1).drop_last() =~= collisions@.take(j as int));
                        assert(collisions@.take(j + 1).last() == col);
                    }
                    if col.a == e {
                        let allowed = if ecs.components.player_data.contains_key(&col.b.id) {
                            doc_e.source == EntityType::Enemy
                        } else {
                            doc_e.source == EntityType::Player
                        };
                        if allowed {
                            damage_events.push(
                                DamageEvent { source: e, target: col.b, damage: doc_e.damage },
                            );
                        }
                    }
                    if col.b == e {
                        let allowed = if ecs.components.player_data.contains_key(&col.a.id) {
                            doc_e.source == EntityType::Enemy
                        } else {
                            doc_e.source == EntityType::Player
                        };
                        if allowed {
                            damage_events.push(
                                DamageEvent { source: e, target: col.a, damage: doc_e.damage },
                            );
                        }
                    }
                    proof {
                        assert(damage_events@ == old(damage_events)@ + generated_damage_events(
                            doc,
                            pd,
                            ecs.entities@.take(i as int),
                            collisions@,
                        ) + events_for_entity(doc, pd, e, collisions@.take(j + 1)));
                    }
                }
                proof {
                    assert(collisions@.take(m as int) =~= collisions@);
                }
            },
            None => {},
        }
    }
    proof {
        assert(ecs.entities@.take(n as int) =~= ecs.entities@);
    }
}

/// Whether the other party of a pair is on the side opposite to a
/// `DespawnOnHit(faction)` tag: a `Player`-tagged entity goes off against
/// anything off the player's side, an `Enemy`-tagged one against the
/// player's side. An entity tagged as a player entity counts as the
/// player's side.
pub open spec fn despawn_hit_match(pe: Map<u64, ()>, faction: EntityType, other: Entity) -> bool {
    (pe.contains_key(other.id) && faction == EntityType::Enemy) || (!pe.contains_key(other.id)
        && faction == EntityType::Player)
}

/// Whether one collision record makes the entity `d`, waiting on the
/// given faction, despawn: `d` is one end and the opposite end matches
/// the faction expectation.
pub open spec fn collision_triggers(
    pe: Map<u64, ()>,
    faction: EntityType,
    d: Entity,
    col: Collision,
) -> bool {
    (col.a == d && despawn_hit_match(pe, faction, col.b)) || (col.b == d && despawn_hit_match(
        pe,
        faction,
        col.a,
    ))
}

/// Whether one collision record makes the tagged entity `d` despawn: `d`
/// is one end and the opposite end matches the tagged faction expectation.
pub open spec fn collision_triggers_despawn(
    doh: Map<u64, DespawnOnHit>,
    pe: Map<u64, ()>,
    d: Entity,
    col: Collision,
) -> bool {
    collision_triggers(pe, doh[d.id].0, d, col)
}

/// Whether any of this frame's collision records makes `d` despawn.
pub open spec fn any_collision_triggers_despawn(
    doh: Map<u64, DespawnOnHit>,
    pe: Map<u64, ()>,
    d: Entity,
    cols: Seq<Collision>,
) -> bool {
    exists|k: int|
        0 <= k < cols.len() && collision_triggers_despawn(doh, pe, d, #[trigger] cols[k])
}

/// The entities that despawn-on-hit marks this frame, in live-list order:
/// every tagged entity with at least one faction-matched collision.
pub open spec fn despawn_requests(
    doh: Map<u64, DespawnOnHit>,
    pe: Map<u64, ()>,
    es: Seq<Entity>,
    cols: Seq<Collision>,
) -> Seq<Entity>
    decreases es.len(),
{
    if es.len() == 0 {
        Seq::empty()
    } else {
        despawn_requests(doh, pe, es.drop_last(), cols) + (if doh.contains_key(es.last().id)
            && any_collision_triggers_despawn(doh, pe, es.last(), cols) {
            seq![es.last()]
        } else {
            Seq::empty()
        })
    }
}

/// Where impact feedback is requested this frame: the position of every
/// entity that despawn-on-hit marks and that has a position at all.
pub open spec fn impact_positions(
    doh: Map<u64, DespawnOnHit>,
    pe: Map<u64, ()>,
    pos: Map<u64, Position>,
    es: Seq<Entity>,
    cols: Seq<Collision>,
) -> Seq<Position>
    decreases es.len(),
{
    if es.len() == 0 {
        Seq::empty()
    } else {
        impact_positions(doh, pe, pos, es.drop_last(), cols) + (if doh.contains_key(es.last().id)
            && any_collision_triggers_despawn(doh, pe, es.last(), cols) && pos.contains_key(
            es.last().id,
        ) {
            seq![pos[es.last().id]]
        } else {
            Seq::empty()
        })
    }
}

/// Executable form of `despawn_hit_match`.
fn hit_match(pe: &std::collections::HashMap<u64, ()>, faction: EntityType, other: Entity) -> (r:
    bool)
    ensures
        r == despawn_hit_match(pe@, faction, other),
{
    let is_player_side = pe.contains_key(&other.id);
    (is_player_side && faction == EntityType::Enemy) || (!is_player_side && faction
        == EntityType::Player)
}

/// Scan this frame's collision records for the first one that makes `d`,
/// waiting on the given faction, despawn.
fn any_hit(
    pe: &std::collections::HashMap<u64, ()>,
    faction: EntityType,
    d: Entity,
    collisions: &Vec<Collision>,
) -> (r: bool)
    ensures
        r == exists|k: int|
            0 <= k < collisions@.len() && collision_triggers(
                pe@,
                faction,
                d,
                #[trigger] collisions@[k],
            ),
{
    let m = collisions.len();
    for j in 0..m
        invariant
            m == collisions.len(),
            forall|t: int|
                0 <= t < j ==> !collision_triggers(pe@, faction, d, #[trigger] collisions@[t]),
    {
        let col = collisions[j];
        let triggered = (col.a == d && hit_match(pe, faction, col.b)) || (col.b == d && hit_match(
            pe,
            faction,
            col.a,
        ));
        if triggered {
            proof {
                assert(collision_triggers(pe@, faction, d, collisions@[j as int]));
            }
            return true;
        }
    }
    false
}

/// Despawn-on-hit: every entity tagged `DespawnOnHit(faction)` that
/// touches a collision pair whose other party matches the opposite-side
/// expectation is marked for despawn, once, and an impact-feedback
/// position is recorded for it when it has a position. Further pairs of
/// that entity are not considered: first match wins.
pub fn despawn_on_collision(ecs: &mut Ecs, collisions: &Vec<Collision>) -> (r: Vec<Position>)
    ensures
        final(ecs).entities == old(ecs).entities,
        final(ecs).components == old(ecs).components,
        final(ecs).marked_for_despawn@ == old(ecs).marked_for_despawn@ + despawn_requests(
            old(ecs).components.despawn_on_hit@,
            old(ecs).components.player_entity@,
            old(ecs).entities@,
            collisions@,
        ),
        r@ == impact_positions(
            old(ecs).components.despawn_on_hit@,
            old(ecs).components.player_entity@,
            old(ecs).components.positions@,
            old(ecs).entities@,
            collisions@,
        ),
{
    let ghost doh = ecs.components.despawn_on_hit@;
    let ghost pe = ecs.components.player_entity@;
    let ghost pos = ecs.components.positions@;
    let mut out: Vec<Position> = Vec::new();
    let n = ecs.entities.len();
    for i in 0..n
        invariant
            n == ecs.entities.len(),
            ecs.entities == old(ecs).entities,
            ecs.components == old(ecs).components,
            doh == ecs.components.despawn_on_hit@,
            pe == ecs.components.player_entity@,
            pos == ecs.components.positions@,
            ecs.marked_for_despawn@ == old(ecs).marked_for_despawn@ + despawn_requests(
                doh,
                pe,
                ecs.entities@.take(i as int),
                collisions@,
            ),
            out@ == impact_positions(doh, pe, pos, ecs.entities@.take(i as int), collisions@),
    {
        let e = ecs.entities[i];
        proof {
            assert(ecs.entities@.take(i + 1).drop_last() =~= ecs.entities@.take(i as int));
            assert(ecs.entities@.take(i + 1).last() == e);
        }
        let tag_opt = ecs.components.despawn_on_hit.get(&e.id);
        match tag_opt {
            Some(tag) => {
                let tag = *tag;
                let hit = any_hit(&ecs.components.player_entity, tag.0, e, collisions);
                proof {
                    assert(hit == any_collision_triggers_despawn(doh, pe, e, collisions@));
                }
                if hit {
                    let p_opt = ecs.components.positions.get(&e.id);
                    match p_opt {
                        Some(p) => {
                            out.push(*p);
                        },
                        None => {},
                    }
                    ecs.despawn(e);
                }
            },
            None => {},
        }
        proof {
            assert(out@ =~= impact_positions(doh, pe, pos, ecs.entities@.take(i + 1), collisions@));
            assert(ecs.marked_for_despawn@ =~= old(ecs).marked_for_despawn@ + despawn_requests(
                doh,
                pe,
                ecs.entities@.take(i + 1),
                collisions@,
            ));
        }
    }
    proof {
        assert(ecs.entities@.take(n as int) =~= ecs.entities@);
    }
    out
}

/// Where the first pending damage event aimed at `id` stands, scanning
/// from position `from` onwards.
pub open spec fn first_event_from(evs: Seq<DamageEvent>, id: u64, from: int) -> Option<DamageEvent>
    decreases evs.len() - from,
{
    if from < 0 || from >= evs.len() {
        None
    } else if evs[from].target.id == id {
        Some(evs[from])
    } else {
        first_event_from(evs, id, from + 1)
    }
}

/// The first pending damage event aimed at `id`, in insertion order.
/// Simultaneous hits against one target in a frame are not summed: only
/// this one is ever applied.
pub open spec fn first_event_for(evs: Seq<DamageEvent>, id: u64) -> Option<DamageEvent> {
    first_event_from(evs, id, 0)
}

/// Whether damage lands on `id` this frame: the entity can take damage
/// and carries hit points, some pending event targets it, and its
/// invulnerability window — which must exist — has completed.
pub open spec fn applied_now(
    dmg: Map<u64, Damageable>,
    h: Map<u64, Health>,
    evs: Seq<DamageEvent>,
    id: u64,
) -> bool {
    &&& dmg.contains_key(id)
    &&& h.contains_key(id)
    &&& first_event_for(evs, id) is Some
    &&& match dmg[id].invulnerable_timer {
        Some(t) => timer_completed(t),
        None => false,
    }
}

/// Hit points clamped into the representable range.
pub open spec fn hp_clamped(v: int) -> int {
    if v < i64::MIN {
        i64::MIN as int
    } else if v > i64::MAX {
        i64::MAX as int
    } else {
        v
    }
}

/// The hit points of `id` after damage application: lowered by the first
/// pending event's amount when damage lands, untouched otherwise.
pub open spec fn health_value_after(
    dmg: Map<u64, Damageable>,
    h: Map<u64, Health>,
    evs: Seq<DamageEvent>,
    id: u64,
) -> Health {
    if applied_now(dmg, h, evs, id) {
        match first_event_for(evs, id) {
            Some(ev) => Health { hp: hp_clamped(h[id].hp - ev.damage) as i64 },
            None => h[id],
        }
    } else {
        h[id]
    }
}

/// The damage-gating component of `id` after damage application: both
/// timers reset when damage lands (opening the invulnerability window and
/// restarting the hit flash), untouched otherwise.
pub open spec fn damageable_value_after(
    dmg: Map<u64, Damageable>,
    h: Map<u64, Health>,
    evs: Seq<DamageEvent>,
    id: u64,
) -> Damageable {
    if applied_now(dmg, h, evs, id) {
        Damageable {
            invulnerable_timer: match dmg[id].invulnerable_timer {
                Some(t) => Some(reset_timer(t)),
                None => None,
            },
            hit_fx_timer: match dmg[id].hit_fx_timer {
                Some(t) => Some(reset_timer(t)),
                None => None,
            },
        }
    } else {
        dmg[id]
    }
}

/// The whole health table after damage application over the given live
/// list: damage lands per `health_value_after`, entries of identities not
/// in the list stay as they are.
pub open spec fn health_after_apply(
    dmg: Map<u64, Damageable>,
    h: Map<u64, Health>,
    evs: Seq<DamageEvent>,
    es: Seq<Entity>,
) -> Map<u64, Health> {
    Map::new(
        |id: u64| h.contains_key(id),
        |id: u64|
            if id_in(es, id) {
                health_value_after(dmg, h, evs, id)
            } else {
                h[id]
            },
    )
}

/// The whole damage-gating table after damage application over the given
/// live list: timers reset per `damageable_value_after` where damage
/// lands, entries of identities not in the list stay as they are.
pub open spec fn damageables_after_apply(
    dmg: Map<u64, Damageable>,
    h: Map<u64, Health>,
    evs: Seq<DamageEvent>,
    es: Seq<Entity>,
) -> Map<u64, Damageable> {
    Map::new(
        |id: u64| dmg.contains_key(id),
        |id: u64|
            if id_in(es, id) {
                damageable_value_after(dmg, h, evs, id)
            } else {
                dmg[id]
            },
    )
}

/// Where blood feedback is requested this frame: the position of every
/// entity on which damage lands and that has a position at all, in
/// live-list order.
pub open spec fn splatter_positions(
    dmg: Map<u64, Damageable>,
    h: Map<u64, Health>,
    pos: Map<u64, Position>,
    evs: Seq<DamageEvent>,
    es: Seq<Entity>,
) -> Seq<Position>
    decreases es.len(),
{
    if es.len() == 0 {
        Seq::empty()
    } else {
        splatter_positions(dmg, h, pos, evs, es.drop_last()) + (if applied_now(
            dmg,
            h,
            evs,
            es.last().id,
        ) && pos.contains_key(es.last().id) {
            seq![pos[es.last().id]]
        } else {
            Seq::empty()
        })
    }
}

/// Scan the pending damage events for the first one aimed at `id`.
fn find_first_event(damage_events: &Vec<DamageEvent>, id: u64) -> (r: Option<DamageEvent>)
    ensures
        r == first_event_for(damage_events@, id),
{
    let m = damage_events.len();
    for j in 0..m
        invariant
            m == damage_events@.len(),
            first_event_for(damage_events@, id) == first_event_from(damage_events@, id, j as int),
    {
        if damage_events[j].target.id == id {
            return Some(damage_events[j]);
        }
    }
    None
}

/// Damage application, gated by invulnerability windows. For every live
/// damageable entity with hit points, take the first pending damage event
/// aimed at it; only if its invulnerability timer exists and has completed,
/// lower its hit points by the event's amount, reset the invulnerability
/// window and the hit flash, and record its position for blood feedback.
/// Afterwards the whole damage queue is cleared unconditionally: events
/// are frame-scoped and never carry over, applied or not.
pub fn apply_damage(ecs: &mut Ecs, damage_events: &mut Vec<DamageEvent>) -> (r: Vec<Position>)
    requires
        entities_distinct(old(ecs).entities@),
    ensures
        final(damage_events)@.len() == 0,
        final(ecs).entities == old(ecs).entities,
        final(ecs).marked_for_despawn == old(ecs).marked_for_despawn,
        final(ecs).components.timers == old(ecs).components.timers,
        final(ecs).components.colliders == old(ecs).components.colliders,
        final(ecs).components.positions == old(ecs).components.positions,
        final(ecs).components.velocities == old(ecs).components.velocities,
        final(ecs).components.damage_on_collision == old(ecs).components.damage_on_collision,
        final(ecs).components.despawn_on_anim_end == old(ecs).components.despawn_on_anim_end,
        final(ecs).components.despawn_on_hit == old(ecs).components.despawn_on_hit,
        final(ecs).components.player_data == old(ecs).components.player_data,
        final(ecs).components.player_entity == old(ecs).components.player_entity,
        final(ecs).components.health@ == health_after_apply(
            old(ecs).components.damageables@,
            old(ecs).components.health@,
            old(damage_events)@,
            old(ecs).entities@,
        ),
        final(ecs).components.damageables@ == damageables_after_apply(
            old(ecs).components.damageables@,
            old(ecs).components.health@,
            old(damage_events)@,
            old(ecs).entities@,
        ),
        r@ == splatter_positions(
            old(ecs).components.damageables@,
            old(ecs).components.health@,
            old(ecs).components.positions@,
            old(damage_events)@,
            old(ecs).entities@,
        ),
{
    let ghost dmg0 = ecs.components.damageables@;
    let ghost h0 = ecs.components.health@;
    let ghost pos0 = ecs.components.positions@;
    let ghost evs0 = damage_events@;
    let mut splatters: Vec<Position> = Vec::new();
    let n = ecs.entities.len();
    for i in 0..n
        invariant
            n == ecs.entities.len(),
            entities_distinct(ecs.entities@),
            ecs.entities == old(ecs).entities,
            ecs.marked_for_despawn == old(ecs).marked_for_despawn,
            damage_events@ == evs0,
            evs0 == old(damage_events)@,
            dmg0 == old(ecs).components.damageables@,
            h0 == old(ecs).components.health@,
            pos0 == old(ecs).components.positions@,
            ecs.components.timers == old(ecs).components.timers,
            ecs.components.colliders == old(ecs).components.colliders,
            ecs.components.positions == old(ecs).components.positions,
            ecs.components.velocities == old(ecs).components.velocities,
            ecs.components.damage_on_collision == old(ecs).components.damage_on_collision,
            ecs.components.despawn_on_anim_end == old(ecs).components.despawn_on_anim_end,
            ecs.components.despawn_on_hit == old(ecs).components.despawn_on_hit,
            ecs.components.player_data == old(ecs).components.player_data,
            ecs.components.player_entity == old(ecs).components.player_entity,
            ecs.components.health@.dom() == h0.dom(),
            forall|id: u64|
                h0.contains_key(id) ==> ecs.components.health@[id] == (if id_in(
                    old(ecs).entities@.take(i as int),
                    id,
                ) {
                    health_value_after(dmg0, h0, evs0, id)
                } else {
                    h0[id]
                }),
            ecs.components.damageables@.dom() == dmg0.dom(),
            forall|id: u64|
                dmg0.contains_key(id) ==> ecs.components.damageables@[id] == (if id_in(
                    old(ecs).entities@.take(i as int),
                    id,
                ) {
                    damageable_value_after(dmg0, h0, evs0, id)
                } else {
                    dmg0[id]
                }),
            splatters@ == splatter_positions(dmg0, h0, pos0, evs0, ecs.entities@.take(i as int)),
    {
        let e = ecs.entities[i];
        proof {
            lemma_distinct_not_in_prefix(old(ecs).entities@, i as int);
            assert(ecs.entities@.take(i + 1).drop_last() =~= ecs.entities@.take(i as int));
            assert(ecs.entities@.take(i + 1).last() == e);
            assert forall|id: u64| true implies id_in(old(ecs).entities@.take(i + 1), id) == (
            id_in(old(ecs).entities@.take(i as int), id) || old(ecs).entities@[i as int].id
                == id) by {
                lemma_id_in_take_step(old(ecs).entities@, i as int, id);
            }
        }
        let d_opt = ecs.components.damageables.get(&e.id);
        let d = match d_opt {
            Some(d) => Some(*d),
            None => None,
        };
        let h_opt = ecs.components.health.get(&e.id);
        let h = match h_opt {
            Some(h) => Some(*h),
            None => None,
        };
        match (d, h) {
            (Some(d), Some(h)) => {
                let found = find_first_event(damage_events, e.id);
                match found {
                    Some(ev) => {
                        let apply = match d.invulnerable_timer {
                            Some(t) => t.completed(),
                            None => false,
                        };
                        if apply {
                            proof {
                                assert(applied_now(dmg0, h0, evs0, e.id));
                            }
                            let wide: i128 = h.hp as i128 - ev.damage as i128;
                            let new_hp: i64 = if wide < i64::MIN as i128 {
                                i64::MIN
                            } else if wide > i64::MAX as i128 {
                                i64::MAX
                            } else {
                                wide as i64
                            };
                            let p = match ecs.components.positions.get(&e.id) {
                                Some(p) => Some(*p),
                                None => None,
                            };
                            ecs.components.health.insert(e.id, Health { hp: new_hp });
                            match p {
                                Some(p) => {
                                    splatters.push(p);
                                },
                                None => {},
                            }
                            let invulnerable_timer = match d.invulnerable_timer {
                                Some(t) => {
                                    let mut t2 = t;
                                    t2.reset();
                                    Some(t2)
                                },
                                None => None,
                            };
                            let hit_fx_timer = match d.hit_fx_timer {
                                Some(t) => {
                                    let mut t2 = t;
                                    t2.reset();
                                    Some(t2)
                                },
                                None => None,
                            };
                            ecs.components.damageables.insert(
                                e.id,
                                Damageable { invulnerable_timer, hit_fx_timer },
                            );
                            proof {
                                assert(ecs.components.health@.dom() =~= h0.dom());
                                assert(ecs.components.damageables@.dom() =~= dmg0.dom());
                            }
                        } else {
                            proof {
                                assert(!applied_now(dmg0, h0, evs0, e.id));
                            }
                        }
                    },
                    None => {
                        proof {
                            assert(!applied_now(dmg0, h0, evs0, e.id));
                        }
                    },
                }
            },
            _ => {
                proof {
                    assert(!applied_now(dmg0, h0, evs0, e.id));
                }
            },
        }
        proof {
            let es = ecs.entities@;
            let old_splat = splatter_positions(dmg0, h0, pos0, evs0, es.take(i as int));
            let appended: Seq<Position> = if applied_now(dmg0, h0, evs0, es[i as int].id)
                && pos0.contains_key(es[i as int].id) {
                seq![pos0[es[i as int].id]]
            } else {
                Seq::empty()
            };
            assert(splatter_positions(dmg0, h0, pos0, evs0, es.take(i + 1)) == old_splat
                + appended);
            if applied_now(dmg0, h0, evs0, es[i as int].id) && pos0.contains_key(
                es[i as int].id,
            ) {
                assert(splatters@ == old_splat.push(pos0[es[i as int].id]));
                assert(splatters@ =~= old_splat + appended);
            } else {
                assert(splatters@ == old_splat);
                assert(splatters@ =~= old_splat + appended);
            }
        }
    }
    proof {
        assert(ecs.entities@.take(n as int) =~= ecs.entities@);
        assert forall|id: u64| true implies id_in(old(ecs).entities@.take(n as int), id) == id_in(
            old(ecs).entities@,
            id,
        ) by {
            assert(old(ecs).entities@.take(n as int) =~= old(ecs).entities@);
        }
        assert(ecs.components.health@ =~= health_after_apply(dmg0, h0, evs0, old(ecs).entities@));
        assert(ecs.components.damageables@ =~= damageables_after_apply(
            dmg0,
            h0,
            evs0,
            old(ecs).entities@,
        ));
    }
    damage_events.clear();
    splatters
}

/// The entities whose hit points have reached zero or below, in live-list
/// order.
pub open spec fn dead_entities(h: Map<u64, Health>, es: Seq<Entity>) -> Seq<Entity>
    decreases es.len(),
{
    if es.len() == 0 {
        Seq::empty()
    } else {
        dead_entities(h, es.drop_last()) + (if h.contains_key(es.last().id) && h[es.last().id].hp
            <= 0 {
            seq![es.last()]
        } else {
            Seq::empty()
        })
    }
}

/// One death event per entity whose hit points have reached zero or
/// below, in live-list order.
pub open spec fn dead_events(h: Map<u64, Health>, es: Seq<Entity>) -> Seq<DeathEvent>
    decreases es.len(),
{
    if es.len() == 0 {
        Seq::empty()
    } else {
        dead_events(h, es.drop_last()) + (if h.contains_key(es.last().id) && h[es.last().id].hp
            <= 0 {
            seq![DeathEvent(es.last())]
        } else {
            Seq::empty()
        })
    }
}

/// The kill check: every live entity whose hit points are zero or below is
/// marked for despawn and gets exactly one death event queued. The entity
/// itself, its components included, stays observable until the sweep.
pub fn kill_entities(ecs: &mut Ecs, death_events: &mut Vec<DeathEvent>)
    ensures
        final(ecs).entities == old(ecs).entities,
        final(ecs).components == old(ecs).components,
        final(ecs).marked_for_despawn@ == old(ecs).marked_for_despawn@ + dead_entities(
            old(ecs).components.health@,
            old(ecs).entities@,
        ),
        final(death_events)@ == old(death_events)@ + dead_events(
            old(ecs).components.health@,
            old(ecs).entities@,
        ),
{
    let ghost h0 = ecs.components.health@;
    let n = ecs.entities.len();
    for i in 0..n
        invariant
            n == ecs.entities.len(),
            ecs.entities == old(ecs).entities,
            ecs.components == old(ecs).components,
            h0 == ecs.components.health@,
            ecs.marked_for_despawn@ == old(ecs).marked_for_despawn@ + dead_entities(
                h0,
                ecs.entities@.take(i as int),
            ),
            death_events@ == old(death_events)@ + dead_events(h0, ecs.entities@.take(i as int)),
    {
        let e = ecs.entities[i];
        proof {
            assert(ecs.entities@.take(i + 1).drop_last() =~= ecs.entities@.take(i as int));
            assert(ecs.entities@.take(i + 1).last() == e);
        }
        let h_opt = ecs.components.health.get(&e.id);
        match h_opt {
            Some(h) => {
                if h.hp <= 0 {
                    ecs.despawn(e);
                    death_events.push(DeathEvent(e));
                }
            },
            None => {},
        }
    }
    proof {
        assert(ecs.entities@.take(n as int) =~= ecs.entities@);
    }
}

/// Whether any of this frame's death events names a player entity.
pub open spec fn any_player_death(pe: Map<u64, ()>, evs: Seq<DeathEvent>) -> bool {
    exists|k: int| 0 <= k < evs.len() && pe.contains_key(#[trigger] evs[k].0.id)
}

/// Where death feedback is requested: the position of every entity named
/// by a death event, for those that have a position, in event order.
pub open spec fn death_positions(pos: Map<u64, Position>, evs: Seq<DeathEvent>) -> Seq<Position>
    decreases evs.len(),
{
    if evs.len() == 0 {
        Seq::empty()
    } else {
        death_positions(pos, evs.drop_last()) + (if pos.contains_key(evs.last().0.id) {
            seq![pos[evs.last().0.id]]
        } else {
            Seq::empty()
        })
    }
}

/// One more death event contributes its own player check.
proof fn lemma_any_player_death_step(pe: Map<u64, ()>, evs: Seq<DeathEvent>, i: int)
    requires
        0 <= i < evs.len(),
    ensures
        any_player_death(pe, evs.take(i + 1)) == (any_player_death(pe, evs.take(i))
            || pe.contains_key(evs[i].0.id)),
{
    if any_player_death(pe, evs.take(i + 1)) {
        let k = choose|k: int| 0 <= k < evs.take(i + 1).len() && pe.contains_key(
            #[trigger] evs.take(i + 1)[k].0.id,
        );
        if k < i {
            assert(pe.contains_key(evs.take(i)[k].0.id));
        }
    }
    if any_player_death(pe, evs.take(i)) {
        let k = choose|k: int| 0 <= k < evs.take(i).len() && pe.contains_key(
            #[trigger] evs.take(i)[k].0.id,
        );
        assert(pe.contains_key(evs.take(i + 1)[k].0.id));
    }
    if pe.contains_key(evs[i].0.id) {
        assert(pe.contains_key(evs.take(i + 1)[i].0.id));
    }
}

/// What death handling reports to the surrounding game: whether the
/// player is among the dead, and where to spawn death-marker effects.
pub struct DeathSummary {
    pub player_died: bool,
    pub effect_positions: Vec<Position>,
}

/// Consume this frame's death events at the collaborator boundary: report
/// whether a player entity died, and collect the last known position of
/// every dead entity for the death-marker effects.
pub fn handle_death(ecs: &Ecs, death_events: &Vec<DeathEvent>) -> (r: DeathSummary)
    ensures
        r.player_died == any_player_death(ecs.components.player_entity@, death_events@),
        r.effect_positions@ == death_positions(ecs.components.positions@, death_events@),
{
    let mut player_died = false;
    let mut effect_positions: Vec<Position> = Vec::new();
    let n = death_events.len();
    for i in 0..n
        invariant
            n == death_events.len(),
            player_died == any_player_death(
                ecs.components.player_entity@,
                death_events@.take(i as int),
            ),
            effect_positions@ == death_positions(
                ecs.components.positions@,
                death_events@.take(i as int),
            ),
    {
        let ev = death_events[i];
        proof {
            lemma_any_player_death_step(ecs.components.player_entity@, death_events@, i as int);
            assert(death_events@.take(i + 1).drop_last() =~= death_events@.take(i as int));
            assert(death_events@.take(i + 1).last() == ev);
        }
        if ecs.components.player_entity.contains_key(&ev.0.id) {
            player_died = true;
        }
        let p_opt = ecs.components.positions.get(&ev.0.id);
        match p_opt {
            Some(p) => {
                effect_positions.push(*p);
            },
            None => {},
        }
    }
    proof {
        assert(death_events@.take(n as int) =~= death_events@);
    }
    DeathSummary { player_died, effect_positions }
}

/// Damage lands through a completed invulnerability window: a damageable
/// entity with hit points whose invulnerability timer has completed, faced
/// with a first pending event of amount `d`, loses exactly `d` hit points,
/// and its invulnerability timer is reset — no longer completed — right
/// after, for any window of positive duration. (A window of zero duration
/// is completed even when reset; amounts that would leave the
/// representable range saturate instead of landing exactly.)
pub proof fn lemma_completed_window_applies_damage(
    dmg: Map<u64, Damageable>,
    h: Map<u64, Health>,
    evs: Seq<DamageEvent>,
    id: u64,
    t: Timer,
    ev: DamageEvent,
)
    requires
        dmg.contains_key(id),
        h.contains_key(id),
        dmg[id].invulnerable_timer == Some(t),
        timer_completed(t),
        t.duration > 0,
        first_event_for(evs, id) == Some(ev),
        i64::MIN <= h[id].hp - ev.damage <= i64::MAX,
    ensures
        applied_now(dmg, h, evs, id),
        health_value_after(dmg, h, evs, id).hp == h[id].hp - ev.damage,
        damageable_value_after(dmg, h, evs, id).invulnerable_timer == Some(reset_timer(t)),
        !timer_completed(reset_timer(t)),
{
}

/// A non-completed invulnerability window blocks damage: whatever events
/// are pending against the entity, its hit points stay as they are, and
/// so does its damage-gating component. The pending events are still
/// discarded by damage application, which clears the whole queue.
pub proof fn lemma_open_window_blocks_damage(
    dmg: Map<u64, Damageable>,
    h: Map<u64, Health>,
    evs: Seq<DamageEvent>,
    id: u64,
    t: Timer,
)
    requires
        dmg.contains_key(id),
        h.contains_key(id),
        dmg[id].invulnerable_timer == Some(t),
        !timer_completed(t),
    ensures
        !applied_now(dmg, h, evs, id),
        health_value_after(dmg, h, evs, id) == h[id],
        damageable_value_after(dmg, h, evs, id) == dmg[id],
{
}

/// The kill check's output is well-formed over a duplicate-free live
/// list: it names only live entities, and no entity twice.
pub proof fn lemma_dead_entities_wf(h: Map<u64, Health>, es: Seq<Entity>)
    requires
        entities_distinct(es),
    ensures
        entities_distinct(dead_entities(h, es)),
        forall|k: int|
            0 <= k < dead_entities(h, es).len() ==> es.contains(#[trigger] dead_entities(h, es)[k]),
    decreases es.len(),
{
    if es.len() > 0 {
        let pre = es.drop_last();
        assert(entities_distinct(pre));
        lemma_dead_entities_wf(h, pre);
        let dd = dead_entities(h, pre);
        let full = dead_entities(h, es);
        assert forall|k: int| 0 <= k < full.len() implies es.contains(#[trigger] full[k]) by {
            if k < dd.len() {
                assert(full[k] == dd[k]);
                assert(pre.contains(dd[k]));
                let t = choose|t: int| 0 <= t < pre.len() && pre[t] == dd[k];
                assert(es[t] == full[k]);
            } else {
                assert(full[k] == es.last());
                assert(es[es.len() - 1] == es.last());
            }
        }
        assert forall|k1: int, k2: int| 0 <= k1 < k2 < full.len() implies full[k1].id
            != full[k2].id by {
            if k2 < dd.len() {
                assert(dd[k1].id != dd[k2].id);
            } else {
                assert(full[k2] == es.last());
                assert(full[k1] == dd[k1]);
                assert(pre.contains(dd[k1]));
                let t = choose|t: int| 0 <= t < pre.len() && pre[t] == dd[k1];
                assert(es[t].id != es[es.len() - 1].id);
            }
        }
    }
}

/// Which entities the kill check names: exactly the live ones whose hit
/// points are zero or below. In particular, an entity already swept out of
/// the live list is never named again.
pub proof fn lemma_dead_entities_iff(h: Map<u64, Health>, es: Seq<Entity>, e: Entity)
    ensures
        dead_entities(h, es).contains(e) <==> (es.contains(e) && h.contains_key(e.id) && h[e.id].hp
            <= 0),
    decreases es.len(),
{
    if es.len() > 0 {
        let pre = es.drop_last();
        lemma_dead_entities_iff(h, pre, e);
        let dd = dead_entities(h, pre);
        let full = dead_entities(h, es);
        if full.contains(e) {
            let k = choose|k: int| 0 <= k < full.len() && full[k] == e;
            if k < dd.len() {
                assert(dd[k] == e);
                assert(dd.contains(e));
                let t = choose|t: int| 0 <= t < pre.len() && pre[t] == e;
                assert(es[t] == e);
            } else {
                assert(e == es.last());
                assert(es[es.len() - 1] == e);
            }
            assert(es.contains(e));
        }
        if es.contains(e) && h.contains_key(e.id) && h[e.id].hp <= 0 {
            let t = choose|t: int| 0 <= t < es.len() && es[t] == e;
            if t < es.len() - 1 {
                assert(pre[t] == e);
                assert(pre.contains(e));
                let k = choose|k: int| 0 <= k < dd.len() && dd[k] == e;
                assert(full[k] == e);
            } else {
                assert(e == es.last());
                assert(full[dd.len() as int] == e);
            }
            assert(full.contains(e));
        }
    }
}

/// The death-event queue mirrors the dead-entity list one for one.
pub proof fn lemma_dead_events_match(h: Map<u64, Health>, es: Seq<Entity>)
    ensures
        dead_events(h, es).len() == dead_entities(h, es).len(),
        forall|k: int|
            0 <= k < dead_events(h, es).len() ==> #[trigger] dead_events(h, es)[k] == DeathEvent(
                dead_entities(h, es)[k],
            ),
    decreases es.len(),
{
    if es.len() > 0 {
        lemma_dead_events_match(h, es.drop_last());
    }
}

/// An entity whose health crossed to zero or below produces exactly one
/// death event: over a duplicate-free live list, no two entries of the
/// death-event queue name the same entity.
pub proof fn lemma_at_most_one_death_event(h: Map<u64, Health>, es: Seq<Entity>)
    requires
        entities_distinct(es),
    ensures
        forall|k1: int, k2: int|
            0 <= k1 < k2 < dead_events(h, es).len() ==> #[trigger] dead_events(h, es)[k1]
                != #[trigger] dead_events(h, es)[k2],
{
    lemma_dead_entities_wf(h, es);
    lemma_dead_events_match(h, es);
}

} // verus!
