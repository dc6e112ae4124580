//! Gameplay tag components: faction classification, damage-dealing tags,
//! hit points, damage gating, and despawn triggers.

use vstd::prelude::*;
use crate::timer::Timer;

verus! {

/// Player/enemy classification used to gate which collisions cause damage
/// or despawn.
#[derive(Clone, Copy, PartialEq, Eq, Structural, Debug)]
pub enum EntityType {
    Player,
    Enemy,
}

/// Tag component for projectile/melee entities: the faction the damage
/// comes from and the amount dealt, in fixed-point hit points.
#[derive(Clone, Copy, PartialEq, Eq, Structural, Debug)]
pub struct DamageOnCollision {
    pub source: EntityType,
    pub damage: i64,
}

/// Fixed-point hit points, mutated only by damage resolution. An entity is
/// eligible for death once the value drops to zero or below.
#[derive(Clone, Copy, PartialEq, Eq, Structural, Debug)]
pub struct Health {
    pub hp: i64,
}

/// Present on entities that can take damage: an optional invulnerability
/// timer that gates repeated damage, and an optional hit-flash timer that
/// drives visual feedback only.
#[derive(Clone, Copy, Debug)]
pub struct Damageable {
    pub invulnerable_timer: Option<Timer>,
    pub hit_fx_timer: Option<Timer>,
}

/// Tag: despawn this entity once its animation has finished playing.
#[derive(Clone, Copy, PartialEq, Eq, Structural, Debug)]
pub struct DespawnOnAnimEnd;

/// Tag: despawn this entity on its first collision against the side
/// opposite to the tagged faction.
#[derive(Clone, Copy, PartialEq, Eq, Structural, Debug)]
pub struct DespawnOnHit(pub EntityType);

} // verus!
