//! Entity identity: an opaque numeric id and the registry that allocates
//! ids uniquely and monotonically.

use vstd::prelude::*;

verus! {

/// An opaque, strictly increasing numeric identity. It carries no data of
/// its own; component tables key on it. Equality is by value, and an
/// identity is never reused after its entity despawns.
#[derive(Clone, Copy, PartialEq, Eq, Structural, Hash, Debug)]
pub struct Entity {
    pub id: u64,
}

/// Allocates unique, monotonically increasing entity identities. A stateful
/// counter with no reuse; the only failure mode is numeric overflow of the
/// counter, which callers rule out up front.
pub struct EntityRegistry {
    /// The identity most recently handed out; the next one is one larger.
    pub entity_index: u64,
}

impl EntityRegistry {
    pub fn new(initial_entity_index: u64) -> (r: EntityRegistry)
        ensures
            r.entity_index == initial_entity_index,
    {
        EntityRegistry { entity_index: initial_entity_index }
    }

    /// Allocate a fresh identity, strictly larger than every identity this
    /// registry has handed out before.
    pub fn new_entity(&mut self) -> (r: Entity)
        requires
            old(self).entity_index < u64::MAX,
        ensures
            final(self).entity_index == old(self).entity_index + 1,
            r.id == final(self).entity_index,
            r.id > old(self).entity_index,
    {
        self.entity_index = self.entity_index + 1;
        Entity { id: self.entity_index }
    }
}

/// Whether the registry has handed out every identity the list holds:
/// none of them exceeds the registry counter. Holding this, any freshly
/// allocated identity differs from every listed one.
pub open spec fn registry_covers(entity_index: u64, es: Seq<Entity>) -> bool {
    forall|i: int| 0 <= i < es.len() ==> #[trigger] es[i].id <= entity_index
}

/// Identities are never reused. An identity handed out while the registry
/// counter stood at most at `n1` can never equal one drawn after the
/// counter has grown to `n2 >= n1`: every fresh identity strictly exceeds
/// the counter it was drawn from. In particular a despawned entity never
/// reappears under the same identity.
pub proof fn lemma_identity_never_reused(earlier_id: u64, n1: u64, later_id: u64, n2: u64)
    requires
        earlier_id <= n1,
        n1 <= n2,
        later_id > n2,
    ensures
        later_id != earlier_id,
{
}

} // verus!
