use gameplay_core::collision::{detect_collisions, CircleCollider, ColliderType, Position};
use gameplay_core::damage::{
    apply_damage, damage_on_collision, despawn_on_collision, kill_entities,
};
use gameplay_core::ecs::Ecs;
use gameplay_core::entity::Entity;
use gameplay_core::events::{DamageEvent, DeathEvent};
use gameplay_core::player::PlayerData;
use gameplay_core::tags::{Damageable, DamageOnCollision, DespawnOnHit, EntityType, Health};
use gameplay_core::timer::Timer;

fn completed_timer(duration: u64) -> Timer {
    Timer { duration, elapsed: duration, repeat: false, just_completed: false }
}

fn player_stats() -> PlayerData {
    PlayerData {
        base_move_speed: 72000,
        base_max_hp: 3,
        aberration: 0,
        aberration_increase_timer: Timer::new(200, true),
        shadows: Vec::new(),
        upgrades: Vec::new(),
    }
}

fn body(ecs: &mut Ecs, id: u64, x: i32, y: i32, radius: u32, side: ColliderType) -> Entity {
    let e = Entity { id };
    ecs.entities.push(e);
    ecs.components.positions.insert(id, Position { x, y });
    ecs.components.colliders.insert(id, CircleCollider { radius, coll_type: side });
    e
}

#[test]
fn enemy_contact_damages_the_player_by_exactly_the_amount() {
    // The player P: health 3, invulnerability window completed.
    let mut ecs = Ecs::new();
    let p = body(&mut ecs, 1, 0, 0, 3000, ColliderType::Player);
    ecs.components.player_data.insert(p.id, player_stats());
    ecs.components.player_entity.insert(p.id, ());
    ecs.components.health.insert(p.id, Health { hp: 3000 });
    ecs.components.damageables.insert(p.id, Damageable {
        invulnerable_timer: Some(completed_timer(1000)),
        hit_fx_timer: Some(completed_timer(220)),
    });
    // The hazard X: touches P, deals 1 heart of enemy damage on contact.
    let x = body(&mut ecs, 2, 1000, 0, 3000, ColliderType::Enemy);
    ecs.components.damage_on_collision.insert(x.id, DamageOnCollision {
        source: EntityType::Enemy,
        damage: 1000,
    });

    let collisions = detect_collisions(&ecs);
    assert_eq!(collisions.len(), 1);

    let mut damage_events: Vec<DamageEvent> = Vec::new();
    damage_on_collision(&ecs, &mut damage_events, &collisions);
    assert_eq!(damage_events, vec![DamageEvent { source: x, target: p, damage: 1000 }]);

    let splatters = apply_damage(&mut ecs, &mut damage_events);
    assert_eq!(ecs.components.health.get(&p.id), Some(&Health { hp: 2000 }));
    let invulnerable = ecs.components.damageables.get(&p.id).unwrap().invulnerable_timer.unwrap();
    assert_eq!(invulnerable.elapsed, 0, "the window was reset");
    assert!(!invulnerable.completed(), "and is no longer completed");
    assert!(damage_events.is_empty(), "the queue is drained");
    assert_eq!(splatters, vec![Position { x: 0, y: 0 }]);
}

#[test]
fn friendly_fire_is_filtered_out() {
    let mut ecs = Ecs::new();
    let p = body(&mut ecs, 1, 0, 0, 3000, ColliderType::Player);
    ecs.components.player_data.insert(p.id, player_stats());
    // A player-faction projectile overlapping the player deals nothing to it.
    let shot = body(&mut ecs, 2, 100, 0, 1000, ColliderType::Projectile);
    ecs.components.damage_on_collision.insert(shot.id, DamageOnCollision {
        source: EntityType::Player,
        damage: 1000,
    });
    let collisions = detect_collisions(&ecs);
    assert_eq!(collisions.len(), 1);
    let mut damage_events: Vec<DamageEvent> = Vec::new();
    damage_on_collision(&ecs, &mut damage_events, &collisions);
    assert!(damage_events.is_empty());
}

#[test]
fn player_shots_damage_enemies() {
    let mut ecs = Ecs::new();
    let enemy = body(&mut ecs, 1, 0, 0, 3000, ColliderType::Enemy);
    ecs.components.health.insert(enemy.id, Health { hp: 2000 });
    let shot = body(&mut ecs, 2, 100, 0, 1000, ColliderType::Projectile);
    ecs.components.damage_on_collision.insert(shot.id, DamageOnCollision {
        source: EntityType::Player,
        damage: 500,
    });
    let collisions = detect_collisions(&ecs);
    let mut damage_events: Vec<DamageEvent> = Vec::new();
    damage_on_collision(&ecs, &mut damage_events, &collisions);
    assert_eq!(damage_events, vec![DamageEvent { source: shot, target: enemy, damage: 500 }]);
}

#[test]
fn open_invulnerability_window_discards_damage_without_applying_it() {
    let mut ecs = Ecs::new();
    let p = Entity { id: 1 };
    ecs.entities.push(p);
    ecs.components.health.insert(p.id, Health { hp: 3000 });
    ecs.components.damageables.insert(p.id, Damageable {
        invulnerable_timer: Some(Timer::new(1000, false)), // still running
        hit_fx_timer: None,
    });
    let mut damage_events = vec![
        DamageEvent { source: Entity { id: 9 }, target: p, damage: 1000 },
        DamageEvent { source: Entity { id: 9 }, target: p, damage: 1000 },
    ];
    let splatters = apply_damage(&mut ecs, &mut damage_events);
    assert_eq!(ecs.components.health.get(&p.id), Some(&Health { hp: 3000 }));
    assert!(damage_events.is_empty(), "discarded, not kept for later");
    assert!(splatters.is_empty());
}

#[test]
fn simultaneous_hits_are_not_summed_first_event_wins() {
    let mut ecs = Ecs::new();
    let p = Entity { id: 1 };
    ecs.entities.push(p);
    ecs.components.health.insert(p.id, Health { hp: 3000 });
    ecs.components.damageables.insert(p.id, Damageable {
        invulnerable_timer: Some(completed_timer(1000)),
        hit_fx_timer: None,
    });
    let mut damage_events = vec![
        DamageEvent { source: Entity { id: 8 }, target: p, damage: 700 },
        DamageEvent { source: Entity { id: 9 }, target: p, damage: 1000 },
    ];
    apply_damage(&mut ecs, &mut damage_events);
    assert_eq!(
        ecs.components.health.get(&p.id),
        Some(&Health { hp: 2300 }),
        "only the first pending event lands"
    );
    assert!(damage_events.is_empty());
}

#[test]
fn crossing_to_nonpositive_health_kills_once() {
    // Health 0.5 hearts, a further hit of 1 heart: health becomes -0.5 hearts.
    let mut ecs = Ecs::new();
    let e = Entity { id: 1 };
    ecs.entities.push(e);
    ecs.components.positions.insert(e.id, Position { x: 4, y: 5 });
    ecs.components.health.insert(e.id, Health { hp: 500 });
    ecs.components.damageables.insert(e.id, Damageable {
        invulnerable_timer: Some(completed_timer(1000)),
        hit_fx_timer: None,
    });
    let mut damage_events =
        vec![DamageEvent { source: Entity { id: 7 }, target: e, damage: 1000 }];
    apply_damage(&mut ecs, &mut damage_events);
    assert_eq!(ecs.components.health.get(&e.id), Some(&Health { hp: -500 }));

    let mut death_events: Vec<DeathEvent> = Vec::new();
    kill_entities(&mut ecs, &mut death_events);
    assert_eq!(death_events, vec![DeathEvent(e)]);
    assert_eq!(ecs.marked_for_despawn, vec![e], "queued for despawn");

    // Once despawned, a later kill check never names it again.
    ecs.sweep_despawned();
    let mut later: Vec<DeathEvent> = Vec::new();
    kill_entities(&mut ecs, &mut later);
    assert!(later.is_empty());
}

#[test]
fn despawn_on_hit_fires_on_the_opposite_side() {
    let mut ecs = Ecs::new();
    // A player-faction shot despawns on hitting anything off the player's side.
    let shot = body(&mut ecs, 1, 0, 0, 2000, ColliderType::Projectile);
    ecs.components.despawn_on_hit.insert(shot.id, DespawnOnHit(EntityType::Player));
    let stranger = body(&mut ecs, 2, 500, 0, 2000, ColliderType::Enemy);
    let _ = stranger;
    let collisions = detect_collisions(&ecs);
    assert_eq!(collisions.len(), 1);
    let impacts = despawn_on_collision(&mut ecs, &collisions);
    assert_eq!(ecs.marked_for_despawn, vec![shot]);
    assert_eq!(impacts, vec![Position { x: 0, y: 0 }], "one impact effect requested");
}

#[test]
fn despawn_on_hit_ignores_its_own_side() {
    let mut ecs = Ecs::new();
    let shot = body(&mut ecs, 1, 0, 0, 2000, ColliderType::Projectile);
    ecs.components.despawn_on_hit.insert(shot.id, DespawnOnHit(EntityType::Player));
    // The other party is on the player's own side: no despawn.
    let p = body(&mut ecs, 2, 500, 0, 2000, ColliderType::Player);
    ecs.components.player_entity.insert(p.id, ());
    let collisions = detect_collisions(&ecs);
    assert_eq!(collisions.len(), 1);
    let impacts = despawn_on_collision(&mut ecs, &collisions);
    assert!(ecs.marked_for_despawn.is_empty());
    assert!(impacts.is_empty());
}

#[test]
fn enemy_tagged_despawn_on_hit_fires_on_the_player_side() {
    let mut ecs = Ecs::new();
    let shot = body(&mut ecs, 1, 0, 0, 2000, ColliderType::Projectile);
    ecs.components.despawn_on_hit.insert(shot.id, DespawnOnHit(EntityType::Enemy));
    let p = body(&mut ecs, 2, 500, 0, 2000, ColliderType::Player);
    ecs.components.player_entity.insert(p.id, ());
    let collisions = detect_collisions(&ecs);
    let impacts = despawn_on_collision(&mut ecs, &collisions);
    assert_eq!(ecs.marked_for_despawn, vec![shot]);
    assert_eq!(impacts.len(), 1);
}

#[test]
fn first_matching_pair_wins_one_despawn_mark_per_entity() {
    let mut ecs = Ecs::new();
    let shot = body(&mut ecs, 1, 0, 0, 2000, ColliderType::Projectile);
    ecs.components.despawn_on_hit.insert(shot.id, DespawnOnHit(EntityType::Player));
    body(&mut ecs, 2, 500, 0, 2000, ColliderType::Enemy);
    body(&mut ecs, 3, -500, 0, 2000, ColliderType::Enemy);
    let collisions = detect_collisions(&ecs);
    assert!(collisions.len() >= 2);
    let impacts = despawn_on_collision(&mut ecs, &collisions);
    assert_eq!(ecs.marked_for_despawn, vec![shot], "marked once despite two pairs");
    assert_eq!(impacts.len(), 1);
}

#[test]
fn damage_saturates_at_the_representable_floor() {
    let mut ecs = Ecs::new();
    let e = Entity { id: 1 };
    ecs.entities.push(e);
    ecs.components.health.insert(e.id, Health { hp: i64::MIN + 5 });
    ecs.components.damageables.insert(e.id, Damageable {
        invulnerable_timer: Some(completed_timer(10)),
        hit_fx_timer: None,
    });
    let mut damage_events = vec![DamageEvent { source: e, target: e, damage: 100 }];
    apply_damage(&mut ecs, &mut damage_events);
    assert_eq!(ecs.components.health.get(&e.id), Some(&Health { hp: i64::MIN }));
}
