//! The entity-component store: the live-entity list, one independent typed
//! table per component type, a deferred-despawn queue, and predicate-based
//! querying. Despawning is a two-phase protocol: `despawn` only marks an
//! entity, and the frame-boundary `sweep_despawned` removes it from the
//! live list and from every component table, leaving no orphaned entries.

use vstd::prelude::*;
use std::collections::HashMap;
use crate::collision::CircleCollider;
use crate::collision::Position;
use crate::collision::Velocity;
use crate::entity::Entity;
use crate::player::PlayerData;
use crate::tags::DamageOnCollision;
use crate::tags::Damageable;
use crate::tags::DespawnOnAnimEnd;
use crate::tags::DespawnOnHit;
use crate::tags::Health;
use crate::timer::Timer;

verus! {

broadcast use vstd::std_specs::hash::group_hash_axioms;

/// One independent mapping per component type, each keyed by the numeric
/// entity identity. No structural relationship is enforced between tables:
/// an entity may appear in any subset of them, and absence of an entry
/// means the entity does not have that component.
pub struct Components {
    pub timers: HashMap<u64, Timer>,
    pub colliders: HashMap<u64, CircleCollider>,
    pub positions: HashMap<u64, Position>,
    pub velocities: HashMap<u64, Velocity>,
    pub damage_on_collision: HashMap<u64, DamageOnCollision>,
    pub health: HashMap<u64, Health>,
    pub damageables: HashMap<u64, Damageable>,
    pub despawn_on_anim_end: HashMap<u64, DespawnOnAnimEnd>,
    pub despawn_on_hit: HashMap<u64, DespawnOnHit>,
    pub player_data: HashMap<u64, PlayerData>,
    pub player_entity: HashMap<u64, ()>,
}

/// A typed filter over the component tables, the querying mechanism the
/// systems select entities with.
#[derive(Clone, Copy, PartialEq, Eq, Structural, Debug)]
pub enum ComponentFilter {
    /// Every live entity.
    All,
    /// Entities that can take damage.
    Damageables,
    /// Entities that can take damage and carry hit points.
    DamageablesWithHealth,
    /// Entities that carry hit points.
    WithHealth,
    /// Entities that despawn on a faction-matched hit.
    WithDespawnOnHit,
    /// Entities carrying the player's statistics.
    WithPlayerData,
    /// Entities carrying the player's statistics and a world position.
    PlayerDataWithPosition,
}

/// What a filter means: which tables the entity must appear in.
pub open spec fn filter_matches(f: ComponentFilter, id: u64, c: Components) -> bool {
    match f {
        ComponentFilter::All => true,
        ComponentFilter::Damageables => c.damageables@.contains_key(id),
        ComponentFilter::DamageablesWithHealth => c.damageables@.contains_key(id)
            && c.health@.contains_key(id),
        ComponentFilter::WithHealth => c.health@.contains_key(id),
        ComponentFilter::WithDespawnOnHit => c.despawn_on_hit@.contains_key(id),
        ComponentFilter::WithPlayerData => c.player_data@.contains_key(id),
        ComponentFilter::PlayerDataWithPosition => c.player_data@.contains_key(id)
            && c.positions@.contains_key(id),
    }
}

impl Components {
    /// Empty tables all around.
    pub fn new() -> (r: Components)
        ensures
            r.timers@ == Map::<u64, Timer>::empty(),
            r.colliders@ == Map::<u64, CircleCollider>::empty(),
            r.positions@ == Map::<u64, Position>::empty(),
            r.velocities@ == Map::<u64, Velocity>::empty(),
            r.damage_on_collision@ == Map::<u64, DamageOnCollision>::empty(),
            r.health@ == Map::<u64, Health>::empty(),
            r.damageables@ == Map::<u64, Damageable>::empty(),
            r.despawn_on_anim_end@ == Map::<u64, DespawnOnAnimEnd>::empty(),
            r.despawn_on_hit@ == Map::<u64, DespawnOnHit>::empty(),
            r.player_data@ == Map::<u64, PlayerData>::empty(),
            r.player_entity@ == Map::<u64, ()>::empty(),
    {
        Components {
            timers: HashMap::new(),
            colliders: HashMap::new(),
            positions: HashMap::new(),
            velocities: HashMap::new(),
            damage_on_collision: HashMap::new(),
            health: HashMap::new(),
            damageables: HashMap::new(),
            despawn_on_anim_end: HashMap::new(),
            despawn_on_hit: HashMap::new(),
            player_data: HashMap::new(),
            player_entity: HashMap::new(),
        }
    }

    /// Evaluate a filter for one entity identity.
    pub fn matches(&self, f: ComponentFilter, id: u64) -> (r: bool)
        ensures
            r == filter_matches(f, id, *self),
    {
        match f {
            ComponentFilter::All => true,
            ComponentFilter::Damageables => self.damageables.contains_key(&id),
            ComponentFilter::DamageablesWithHealth => self.damageables.contains_key(&id)
                && self.health.contains_key(&id),
            ComponentFilter::WithHealth => self.health.contains_key(&id),
            ComponentFilter::WithDespawnOnHit => self.despawn_on_hit.contains_key(&id),
            ComponentFilter::WithPlayerData => self.player_data.contains_key(&id),
            ComponentFilter::PlayerDataWithPosition => self.player_data.contains_key(&id)
                && self.positions.contains_key(&id),
        }
    }
}

/// A filter as a predicate on entities, for stating query snapshots.
pub open spec fn filter_pred(f: ComponentFilter, c: Components) -> spec_fn(Entity) -> bool {
    |e: Entity| filter_matches(f, e.id, c)
}

/// Whether some entity in the sequence carries this identity.
pub open spec fn id_in(s: Seq<Entity>, id: u64) -> bool {
    exists|j: int| 0 <= j < s.len() && #[trigger] s[j].id == id
}

/// The identities named by a despawn queue.
pub open spec fn despawn_ids(s: Seq<Entity>) -> Set<u64> {
    Set::new(|k: u64| id_in(s, k))
}

/// No identity occurs twice in the live-entity list.
pub open spec fn entities_distinct(s: Seq<Entity>) -> bool {
    forall|i: int, j: int| 0 <= i < j < s.len() ==> s[i].id != s[j].id
}

/// Every key of the table belongs to a live entity.
pub open spec fn table_keys_live<V>(m: Map<u64, V>, entities: Seq<Entity>) -> bool {
    forall|k: u64| #[trigger] m.contains_key(k) ==> id_in(entities, k)
}

/// The facade owning the registry's product: the live-entity list
/// (insertion-ordered, no duplicates while alive), all component tables,
/// and the deferred-despawn queue (which may hold duplicates).
pub struct Ecs {
    pub entities: Vec<Entity>,
    pub components: Components,
    pub marked_for_despawn: Vec<Entity>,
}

impl Ecs {
    /// Consistency invariant: the live list holds no duplicate identity,
    /// and a component value exists for an entity only while that entity
    /// is in the live list.
    pub open spec fn wf(self) -> bool {
        &&& entities_distinct(self.entities@)
        &&& table_keys_live(self.components.timers@, self.entities@)
        &&& table_keys_live(self.components.colliders@, self.entities@)
        &&& table_keys_live(self.components.positions@, self.entities@)
        &&& table_keys_live(self.components.velocities@, self.entities@)
        &&& table_keys_live(self.components.damage_on_collision@, self.entities@)
        &&& table_keys_live(self.components.health@, self.entities@)
        &&& table_keys_live(self.components.damageables@, self.entities@)
        &&& table_keys_live(self.components.despawn_on_anim_end@, self.entities@)
        &&& table_keys_live(self.components.despawn_on_hit@, self.entities@)
        &&& table_keys_live(self.components.player_data@, self.entities@)
        &&& table_keys_live(self.components.player_entity@, self.entities@)
    }

    /// An empty runtime: no live entities, empty tables, empty queue.
    pub fn new() -> (r: Ecs)
        ensures
            r.entities@ == Seq::<Entity>::empty(),
            r.marked_for_despawn@ == Seq::<Entity>::empty(),
            r.components.timers@ == Map::<u64, Timer>::empty(),
            r.components.colliders@ == Map::<u64, CircleCollider>::empty(),
            r.components.positions@ == Map::<u64, Position>::empty(),
            r.components.velocities@ == Map::<u64, Velocity>::empty(),
            r.components.damage_on_collision@ == Map::<u64, DamageOnCollision>::empty(),
            r.components.health@ == Map::<u64, Health>::empty(),
            r.components.damageables@ == Map::<u64, Damageable>::empty(),
            r.components.despawn_on_anim_end@ == Map::<u64, DespawnOnAnimEnd>::empty(),
            r.components.despawn_on_hit@ == Map::<u64, DespawnOnHit>::empty(),
            r.components.player_data@ == Map::<u64, PlayerData>::empty(),
            r.components.player_entity@ == Map::<u64, ()>::empty(),
            r.wf(),
    {
        Ecs {
            entities: Vec::new(),
            components: Components::new(),
            marked_for_despawn: Vec::new(),
        }
    }

    /// A full scan of the live-entity list filtered by the given
    /// predicate over the component tables. Returns a snapshot: the
    /// matching entities in live-list order, safe to hold while the
    /// tables are mutated afterwards.
    pub fn check_components(&self, f: ComponentFilter) -> (r: Vec<Entity>)
        ensures
            r@ == self.entities@.filter(filter_pred(f, self.components)),
    {
        let mut r: Vec<Entity> = Vec::new();
        let n = self.entities.len();
        for i in 0..n
            invariant
                n == self.entities.len(),
                r@ == self.entities@.take(i as int).filter(filter_pred(f, self.components)),
        {
            let e = self.entities[i];
            proof {
                reveal(Seq::filter);
                assert(self.entities@.take(i + 1).drop_last() =~= self.entities@.take(i as int));
                assert(self.entities@.take(i + 1).last() == e);
            }
            if self.components.matches(f, e.id) {
                r.push(e);
            }
        }
        proof {
            assert(self.entities@.take(n as int) =~= self.entities@);
        }
        r
    }

    /// Request removal: append to the despawn queue. The entity stays
    /// fully observable until the frame-boundary sweep; duplicate
    /// requests are harmless.
    pub fn despawn(&mut self, entity: Entity)
        ensures
            final(self).entities == old(self).entities,
            final(self).components == old(self).components,
            final(self).marked_for_despawn@ == old(self).marked_for_despawn@.push(entity),
    {
        self.marked_for_despawn.push(entity);
    }

    /// Drop the entity's entry from every component table.
    pub fn remove_all_components(&mut self, entity: &Entity)
        ensures
            final(self).entities == old(self).entities,
            final(self).marked_for_despawn == old(self).marked_for_despawn,
            final(self).components.timers@ == old(self).components.timers@.remove(entity.id),
            final(self).components.colliders@ == old(self).components.colliders@.remove(entity.id),
            final(self).components.positions@ == old(self).components.positions@.remove(entity.id),
            final(self).components.velocities@ == old(self).components.velocities@.remove(
                entity.id),
            final(self).components.damage_on_collision@
                == old(self).components.damage_on_collision@.remove(entity.id),
            final(self).components.health@ == old(self).components.health@.remove(entity.id),
            final(self).components.damageables@ == old(self).components.damageables@.remove(
                entity.id),
            final(self).components.despawn_on_anim_end@
                == old(self).components.despawn_on_anim_end@.remove(entity.id),
            final(self).components.despawn_on_hit@ == old(self).components.despawn_on_hit@.remove(
                entity.id),
            final(self).components.player_data@ == old(self).components.player_data@.remove(
                entity.id),
            final(self).components.player_entity@ == old(self).components.player_entity@.remove(
                entity.id),
    {
        self.components.timers.remove(&entity.id);
        self.components.colliders.remove(&entity.id);
        self.components.positions.remove(&entity.id);
        self.components.velocities.remove(&entity.id);
        self.components.damage_on_collision.remove(&entity.id);
        self.components.health.remove(&entity.id);
        self.components.damageables.remove(&entity.id);
        self.components.despawn_on_anim_end.remove(&entity.id);
        self.components.despawn_on_hit.remove(&entity.id);
        self.components.player_data.remove(&entity.id);
        self.components.player_entity.remove(&entity.id);
    }

    /// Frame-boundary garbage collection: for every entity in the despawn
    /// queue, remove it from the live-entity list and from every component
    /// table, then clear the queue. Runs once per frame, before any system
    /// that assumes live entities have no stale component data.
    pub fn sweep_despawned(&mut self)
        ensures
            swept(*old(self), *final(self)),
    {
        let k = self.marked_for_despawn.len();
        proof {
            lemma_tables_removed_none(
                self.components,
                despawn_ids(self.marked_for_despawn@.take(0)),
            );
        }
        for idx in 0..k
            invariant
                k == self.marked_for_despawn.len(),
                self.marked_for_despawn == old(self).marked_for_despawn,
                self.entities == old(self).entities,
                tables_removed(
                    old(self).components,
                    self.components,
                    despawn_ids(self.marked_for_despawn@.take(idx as int)),
                ),
        {
            let e = self.marked_for_despawn[idx];
            proof {
                lemma_despawn_ids_take_step(self.marked_for_despawn@, idx as int);
                lemma_tables_removed_step(
                    old(self).components,
                    self.components,
                    despawn_ids(self.marked_for_despawn@.take(idx as int)),
                    e.id,
                );
            }
            self.remove_all_components(&e);
        }
        proof {
            assert(self.marked_for_despawn@.take(k as int) =~= self.marked_for_despawn@);
        }

        let mut kept: Vec<Entity> = Vec::new();
        let n = self.entities.len();
        for i in 0..n
            invariant
                n == self.entities.len(),
                self.entities == old(self).entities,
                self.marked_for_despawn == old(self).marked_for_despawn,
                tables_removed(
                    old(self).components,
                    self.components,
                    despawn_ids(old(self).marked_for_despawn@),
                ),
                kept@ == old(self).entities@.take(i as int).filter(
                    survivor_pred(old(self).marked_for_despawn@),
                ),
        {
            let e = self.entities[i];
            proof {
                reveal(Seq::filter);
                assert(self.entities@.take(i + 1).drop_last() =~= self.entities@.take(i as int));
                assert(self.entities@.take(i + 1).last() == e);
            }
            if !id_is_marked(&self.marked_for_despawn, e.id) {
                kept.push(e);
            }
        }
        proof {
            assert(self.entities@.take(n as int) =~= self.entities@);
        }
        self.entities = kept;
        self.marked_for_despawn.clear();
    }
}

/// Whether `post` holds exactly the tables of `pre` with the given
/// identities removed from each.
pub open spec fn tables_removed(pre: Components, post: Components, ids: Set<u64>) -> bool {
    &&& post.timers@ == pre.timers@.remove_keys(ids)
    &&& post.colliders@ == pre.colliders@.remove_keys(ids)
    &&& post.positions@ == pre.positions@.remove_keys(ids)
    &&& post.velocities@ == pre.velocities@.remove_keys(ids)
    &&& post.damage_on_collision@ == pre.damage_on_collision@.remove_keys(ids)
    &&& post.health@ == pre.health@.remove_keys(ids)
    &&& post.damageables@ == pre.damageables@.remove_keys(ids)
    &&& post.despawn_on_anim_end@ == pre.despawn_on_anim_end@.remove_keys(ids)
    &&& post.despawn_on_hit@ == pre.despawn_on_hit@.remove_keys(ids)
    &&& post.player_data@ == pre.player_data@.remove_keys(ids)
    &&& post.player_entity@ == pre.player_entity@.remove_keys(ids)
}

/// The predicate that keeps an entity through a sweep: its identity was
/// not requested for despawn.
pub open spec fn survivor_pred(marked: Seq<Entity>) -> spec_fn(Entity) -> bool {
    |e: Entity| !id_in(marked, e.id)
}

/// How one despawn sweep relates the runtime before (`pre`) and after
/// (`post`): the queue is drained, the live list keeps, in order, exactly
/// the entities whose identity was not queued, and every table has lost
/// exactly the queued identities.
pub open spec fn swept(pre: Ecs, post: Ecs) -> bool {
    &&& post.marked_for_despawn@ == Seq::<Entity>::empty()
    &&& post.entities@ == pre.entities@.filter(survivor_pred(pre.marked_for_despawn@))
    &&& tables_removed(pre.components, post.components, despawn_ids(pre.marked_for_despawn@))
}

/// Removing an empty identity set leaves every table as it is.
proof fn lemma_tables_removed_none(c: Components, ids: Set<u64>)
    requires
        forall|id: u64| !ids.contains(id),
    ensures
        tables_removed(c, c, ids),
{
    assert(c.timers@.remove_keys(ids) =~= c.timers@);
    assert(c.colliders@.remove_keys(ids) =~= c.colliders@);
    assert(c.positions@.remove_keys(ids) =~= c.positions@);
    assert(c.velocities@.remove_keys(ids) =~= c.velocities@);
    assert(c.damage_on_collision@.remove_keys(ids) =~= c.damage_on_collision@);
    assert(c.health@.remove_keys(ids) =~= c.health@);
    assert(c.damageables@.remove_keys(ids) =~= c.damageables@);
    assert(c.despawn_on_anim_end@.remove_keys(ids) =~= c.despawn_on_anim_end@);
    assert(c.despawn_on_hit@.remove_keys(ids) =~= c.despawn_on_hit@);
    assert(c.player_data@.remove_keys(ids) =~= c.player_data@);
    assert(c.player_entity@.remove_keys(ids) =~= c.player_entity@);
}

/// Removing one more key from every table is the same as widening the
/// removed-identity set by that key.
proof fn lemma_tables_removed_step(pre: Components, mid: Components, ids: Set<u64>, x: u64)
    requires
        tables_removed(pre, mid, ids),
    ensures
        mid.timers@.remove(x) == pre.timers@.remove_keys(ids.insert(x)),
        mid.colliders@.remove(x) == pre.colliders@.remove_keys(ids.insert(x)),
        mid.positions@.remove(x) == pre.positions@.remove_keys(ids.insert(x)),
        mid.velocities@.remove(x) == pre.velocities@.remove_keys(ids.insert(x)),
        mid.damage_on_collision@.remove(x) == pre.damage_on_collision@.remove_keys(ids.insert(x)),
        mid.health@.remove(x) == pre.health@.remove_keys(ids.insert(x)),
        mid.damageables@.remove(x) == pre.damageables@.remove_keys(ids.insert(x)),
        mid.despawn_on_anim_end@.remove(x) == pre.despawn_on_anim_end@.remove_keys(ids.insert(x)),
        mid.despawn_on_hit@.remove(x) == pre.despawn_on_hit@.remove_keys(ids.insert(x)),
        mid.player_data@.remove(x) == pre.player_data@.remove_keys(ids.insert(x)),
        mid.player_entity@.remove(x) == pre.player_entity@.remove_keys(ids.insert(x)),
{
    assert(mid.timers@.remove(x) =~= pre.timers@.remove_keys(ids.insert(x)));
    assert(mid.colliders@.remove(x) =~= pre.colliders@.remove_keys(ids.insert(x)));
    assert(mid.positions@.remove(x) =~= pre.positions@.remove_keys(ids.insert(x)));
    assert(mid.velocities@.remove(x) =~= pre.velocities@.remove_keys(ids.insert(x)));
    assert(mid.damage_on_collision@.remove(x) =~= pre.damage_on_collision@.remove_keys(
        ids.insert(x)));
    assert(mid.health@.remove(x) =~= pre.health@.remove_keys(ids.insert(x)));
    assert(mid.damageables@.remove(x) =~= pre.damageables@.remove_keys(ids.insert(x)));
    assert(mid.despawn_on_anim_end@.remove(x) =~= pre.despawn_on_anim_end@.remove_keys(
        ids.insert(x)));
    assert(mid.despawn_on_hit@.remove(x) =~= pre.despawn_on_hit@.remove_keys(ids.insert(x)));
    assert(mid.player_data@.remove(x) =~= pre.player_data@.remove_keys(ids.insert(x)));
    assert(mid.player_entity@.remove(x) =~= pre.player_entity@.remove_keys(ids.insert(x)));
}

/// The identities of one more queue entry are the identities so far plus
/// that entry's identity.
proof fn lemma_despawn_ids_take_step(s: Seq<Entity>, idx: int)
    requires
        0 <= idx < s.len(),
    ensures
        despawn_ids(s.take(idx + 1)) == despawn_ids(s.take(idx)).insert(s[idx].id),
{
    let a = despawn_ids(s.take(idx + 1));
    let b = despawn_ids(s.take(idx)).insert(s[idx].id);
    assert forall|id: u64| a.contains(id) implies b.contains(id) by {
        let j = choose|j: int| 0 <= j < s.take(idx + 1).len() && #[trigger] s.take(
            idx + 1)[j].id == id;
        if j < idx {
            assert(s.take(idx)[j].id == id);
        }
    }
    assert forall|id: u64| b.contains(id) implies a.contains(id) by {
        if id == s[idx].id {
            assert(s.take(idx + 1)[idx].id == id);
        } else {
            let j = choose|j: int| 0 <= j < s.take(idx).len() && #[trigger] s.take(idx)[j].id
                == id;
            assert(s.take(idx + 1)[j].id == id);
        }
    }
    assert(a =~= b);
}

/// One more list entry contributes exactly its own identity.
pub proof fn lemma_id_in_take_step(s: Seq<Entity>, i: int, id: u64)
    requires
        0 <= i < s.len(),
    ensures
        id_in(s.take(i + 1), id) == (id_in(s.take(i), id) || s[i].id == id),
{
    if id_in(s.take(i + 1), id) {
        let j = choose|j: int| 0 <= j < s.take(i + 1).len() && #[trigger] s.take(i + 1)[j].id
            == id;
        if j < i {
            assert(s.take(i)[j].id == id);
        }
    }
    if id_in(s.take(i), id) {
        let j = choose|j: int| 0 <= j < s.take(i).len() && #[trigger] s.take(i)[j].id == id;
        assert(s.take(i + 1)[j].id == id);
    }
    if s[i].id == id {
        assert(s.take(i + 1)[i].id == id);
    }
}

/// A distinct list never repeats an identity: the entity at position `i`
/// is not among the first `i` entries.
pub proof fn lemma_distinct_not_in_prefix(s: Seq<Entity>, i: int)
    requires
        entities_distinct(s),
        0 <= i < s.len(),
    ensures
        !id_in(s.take(i), s[i].id),
{
    if id_in(s.take(i), s[i].id) {
        let j = choose|j: int| 0 <= j < s.take(i).len() && #[trigger] s.take(i)[j].id == s[i].id;
        assert(s[j].id == s[i].id);
    }
}

/// Membership test for an identity in the despawn queue.
fn id_is_marked(marked: &Vec<Entity>, id: u64) -> (r: bool)
    ensures
        r == id_in(marked@, id),
{
    let n = marked.len();
    for j in 0..n
        invariant
            n == marked.len(),
            forall|t: int| 0 <= t < j ==> marked@[t].id != id,
    {
        if marked[j].id == id {
            proof {
                assert(marked@[j as int].id == id);
            }
            return true;
        }
    }
    false
}

/// Keeping a subsequence of a duplicate-free list leaves it
/// duplicate-free.
pub proof fn lemma_filter_distinct(s: Seq<Entity>, p: spec_fn(Entity) -> bool)
    requires
        entities_distinct(s),
    ensures
        entities_distinct(s.filter(p)),
    decreases s.len(),
{
    reveal(Seq::filter);
    if s.len() > 0 {
        let pre = s.drop_last();
        assert(entities_distinct(pre));
        lemma_filter_distinct(pre, p);
        let fpre = pre.filter(p);
        if p(s.last()) {
            assert(s.filter(p) == fpre.push(s.last()));
            assert forall|i: int, j: int| 0 <= i < j < s.filter(p).len() implies s.filter(
                p,
            )[i].id != s.filter(p)[j].id by {
                if j < fpre.len() {
                    assert(fpre[i].id != fpre[j].id);
                } else {
                    assert(s.filter(p)[j] == s.last());
                    assert(fpre.contains(fpre[i]));
                    pre.lemma_filter_contains_rev(p, fpre[i]);
                    let t = choose|t: int| 0 <= t < pre.len() && pre[t] == fpre[i];
                    assert(s[t].id != s[s.len() - 1].id);
                }
            }
        }
    }
}

/// A table keyed by live entities is still keyed by live entities after a
/// sweep removes the despawned identities from both the table and the
/// list.
proof fn lemma_keys_live_after_sweep<V>(m: Map<u64, V>, es: Seq<Entity>, marked: Seq<Entity>)
    requires
        table_keys_live(m, es),
    ensures
        table_keys_live(
            m.remove_keys(despawn_ids(marked)),
            es.filter(survivor_pred(marked)),
        ),
{
    let kept = m.remove_keys(despawn_ids(marked));
    let survivors = es.filter(survivor_pred(marked));
    assert forall|k: u64| #[trigger] kept.contains_key(k) implies id_in(survivors, k) by {
        assert(m.contains_key(k));
        assert(!id_in(marked, k));
        let t = choose|t: int| 0 <= t < es.len() && #[trigger] es[t].id == k;
        assert(survivor_pred(marked)(es[t]));
        es.lemma_filter_contains(survivor_pred(marked), t);
        let j = choose|j: int| 0 <= j < survivors.len() && survivors[j] == es[t];
        assert(survivors[j].id == k);
    }
}

/// The sweep keeps the runtime consistent: a duplicate-free live list
/// whose tables only mention live entities stays that way, so stale
/// component data is prevented by construction.
pub proof fn lemma_sweep_preserves_wf(pre: Ecs, post: Ecs)
    requires
        swept(pre, post),
        pre.wf(),
    ensures
        post.wf(),
{
    lemma_filter_distinct(pre.entities@, survivor_pred(pre.marked_for_despawn@));
    let es = pre.entities@;
    let marked = pre.marked_for_despawn@;
    lemma_keys_live_after_sweep(pre.components.timers@, es, marked);
    lemma_keys_live_after_sweep(pre.components.colliders@, es, marked);
    lemma_keys_live_after_sweep(pre.components.positions@, es, marked);
    lemma_keys_live_after_sweep(pre.components.velocities@, es, marked);
    lemma_keys_live_after_sweep(pre.components.damage_on_collision@, es, marked);
    lemma_keys_live_after_sweep(pre.components.health@, es, marked);
    lemma_keys_live_after_sweep(pre.components.damageables@, es, marked);
    lemma_keys_live_after_sweep(pre.components.despawn_on_anim_end@, es, marked);
    lemma_keys_live_after_sweep(pre.components.despawn_on_hit@, es, marked);
    lemma_keys_live_after_sweep(pre.components.player_data@, es, marked);
    lemma_keys_live_after_sweep(pre.components.player_entity@, es, marked);
}

/// After a sweep, an entity whose identity stood in the despawn queue is
/// absent from the live-entity list and from every component table.
pub proof fn lemma_sweep_removes_marked(pre: Ecs, post: Ecs, e: Entity)
    requires
        swept(pre, post),
        id_in(pre.marked_for_despawn@, e.id),
    ensures
        !id_in(post.entities@, e.id),
        !post.components.timers@.contains_key(e.id),
        !post.components.colliders@.contains_key(e.id),
        !post.components.positions@.contains_key(e.id),
        !post.components.velocities@.contains_key(e.id),
        !post.components.damage_on_collision@.contains_key(e.id),
        !post.components.health@.contains_key(e.id),
        !post.components.damageables@.contains_key(e.id),
        !post.components.despawn_on_anim_end@.contains_key(e.id),
        !post.components.despawn_on_hit@.contains_key(e.id),
        !post.components.player_data@.contains_key(e.id),
        !post.components.player_entity@.contains_key(e.id),
{
    let p = survivor_pred(pre.marked_for_despawn@);
    let s = pre.entities@.filter(p);
    assert forall|j: int| 0 <= j < s.len() implies #[trigger] s[j].id != e.id by {
        pre.entities@.lemma_filter_pred(p, j);
    }
    assert(despawn_ids(pre.marked_for_despawn@).contains(e.id));
}

} // verus!
