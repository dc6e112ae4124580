//! Ephemeral, frame-scoped gameplay events. The queues never carry state
//! across frames: damage events are drained and cleared by damage
//! application, death events are cleared at the start of the next frame.

use vstd::prelude::*;
use crate::entity::Entity;

verus! {

/// `source` dealt `damage` fixed-point hit points to `target` this frame.
#[derive(Clone, Copy, PartialEq, Eq, Structural, Debug)]
pub struct DamageEvent {
    pub source: Entity,
    pub target: Entity,
    pub damage: i64,
}

/// This entity just reached non-positive health; queued once per
/// qualifying entity per frame.
#[derive(Clone, Copy, PartialEq, Eq, Structural, Debug)]
pub struct DeathEvent(pub Entity);

} // verus!
