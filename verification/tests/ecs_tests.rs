use gameplay_core::collision::Position;
use gameplay_core::ecs::{ComponentFilter, Ecs};
use gameplay_core::entity::{Entity, EntityRegistry};
use gameplay_core::tags::{Damageable, Health};
use gameplay_core::timer::Timer;

fn live(ecs: &Ecs, e: Entity) -> bool {
    ecs.entities.iter().any(|x| *x == e)
}

#[test]
fn registry_hands_out_strictly_increasing_identities() {
    let mut reg = EntityRegistry::new(0);
    let a = reg.new_entity();
    let b = reg.new_entity();
    let c = reg.new_entity();
    assert_eq!(a.id, 1);
    assert_eq!(b.id, 2);
    assert_eq!(c.id, 3);
    assert!(a.id < b.id && b.id < c.id);
}

#[test]
fn query_returns_matching_entities_in_live_order() {
    let mut ecs = Ecs::new();
    let a = Entity { id: 1 };
    let b = Entity { id: 2 };
    let c = Entity { id: 3 };
    ecs.entities.push(a);
    ecs.entities.push(b);
    ecs.entities.push(c);
    ecs.components.health.insert(a.id, Health { hp: 10 });
    ecs.components.health.insert(c.id, Health { hp: 20 });
    ecs.components.damageables.insert(c.id, Damageable {
        invulnerable_timer: None,
        hit_fx_timer: None,
    });

    let healthy = ecs.check_components(ComponentFilter::WithHealth);
    assert_eq!(healthy, vec![a, c]);
    let both = ecs.check_components(ComponentFilter::DamageablesWithHealth);
    assert_eq!(both, vec![c]);
    let all = ecs.check_components(ComponentFilter::All);
    assert_eq!(all, vec![a, b, c]);
    let none = ecs.check_components(ComponentFilter::WithDespawnOnHit);
    assert!(none.is_empty());
}

#[test]
fn query_is_a_snapshot_safe_to_hold_while_mutating() {
    let mut ecs = Ecs::new();
    let a = Entity { id: 1 };
    ecs.entities.push(a);
    ecs.components.health.insert(a.id, Health { hp: 5 });
    let snapshot = ecs.check_components(ComponentFilter::WithHealth);
    ecs.components.health.remove(&a.id);
    assert_eq!(snapshot, vec![a]);
    assert!(ecs.check_components(ComponentFilter::WithHealth).is_empty());
}

#[test]
fn despawn_is_deferred_until_the_sweep() {
    let mut ecs = Ecs::new();
    let a = Entity { id: 7 };
    ecs.entities.push(a);
    ecs.components.health.insert(a.id, Health { hp: 1 });
    ecs.despawn(a);
    assert!(live(&ecs, a), "marking does not remove");
    assert!(ecs.components.health.contains_key(&a.id));
    ecs.sweep_despawned();
    assert!(!live(&ecs, a));
    assert!(!ecs.components.health.contains_key(&a.id));
    assert!(ecs.marked_for_despawn.is_empty());
}

#[test]
fn sweep_removes_from_every_component_table() {
    let mut ecs = Ecs::new();
    let a = Entity { id: 4 };
    let survivor = Entity { id: 5 };
    ecs.entities.push(a);
    ecs.entities.push(survivor);
    ecs.components.timers.insert(a.id, Timer::new(10, false));
    ecs.components.positions.insert(a.id, Position { x: 1, y: 2 });
    ecs.components.health.insert(a.id, Health { hp: 3 });
    ecs.components.health.insert(survivor.id, Health { hp: 9 });
    ecs.despawn(a);
    ecs.sweep_despawned();
    assert!(!ecs.components.timers.contains_key(&a.id));
    assert!(!ecs.components.positions.contains_key(&a.id));
    assert!(!ecs.components.health.contains_key(&a.id));
    assert!(live(&ecs, survivor));
    assert_eq!(ecs.components.health.get(&survivor.id), Some(&Health { hp: 9 }));
}

#[test]
fn duplicate_despawn_requests_are_harmless() {
    let mut ecs = Ecs::new();
    let a = Entity { id: 1 };
    let b = Entity { id: 2 };
    ecs.entities.push(a);
    ecs.entities.push(b);
    ecs.despawn(a);
    ecs.despawn(a);
    ecs.despawn(a);
    ecs.sweep_despawned();
    assert!(!live(&ecs, a));
    assert!(live(&ecs, b));
    assert_eq!(ecs.entities.len(), 1);
}

#[test]
fn a_despawned_identity_never_reappears() {
    let mut reg = EntityRegistry::new(0);
    let mut ecs = Ecs::new();
    let doomed = reg.new_entity();
    ecs.entities.push(doomed);
    ecs.despawn(doomed);
    ecs.sweep_despawned();
    for _ in 0..100 {
        let fresh = reg.new_entity();
        assert_ne!(fresh.id, doomed.id);
    }
}

#[test]
fn remove_all_components_leaves_the_live_list_alone() {
    let mut ecs = Ecs::new();
    let a = Entity { id: 11 };
    ecs.entities.push(a);
    ecs.components.health.insert(a.id, Health { hp: 2 });
    ecs.remove_all_components(&a);
    assert!(live(&ecs, a));
    assert!(!ecs.components.health.contains_key(&a.id));
}
