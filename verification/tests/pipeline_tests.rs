use gameplay_core::collision::{detect_collisions, CircleCollider, ColliderType, Position};
use gameplay_core::ecs::Ecs;
use gameplay_core::entity::{Entity, EntityRegistry};
use gameplay_core::events::{DamageEvent, DeathEvent};
use gameplay_core::frame::run_frame;
use gameplay_core::player::{spawn_player, CommonUpgrade, PlayerData};
use gameplay_core::tags::{Damageable, DamageOnCollision, EntityType, Health};
use gameplay_core::timer::Timer;

fn completed_timer(duration: u64) -> Timer {
    Timer { duration, elapsed: duration, repeat: false, just_completed: false }
}

fn spawn_hazard(ecs: &mut Ecs, id: u64, x: i32, y: i32, damage: i64) -> Entity {
    let e = Entity { id };
    ecs.entities.push(e);
    ecs.components.positions.insert(id, Position { x, y });
    ecs.components.colliders.insert(
        id,
        CircleCollider { radius: 3000, coll_type: ColliderType::Enemy },
    );
    ecs.components.damage_on_collision.insert(
        id,
        DamageOnCollision { source: EntityType::Enemy, damage },
    );
    e
}

#[test]
fn spawn_player_builds_the_player_and_its_shadows() {
    let mut reg = EntityRegistry::new(0);
    let mut ecs = Ecs::new();
    let p = spawn_player(&mut reg, &mut ecs, Position { x: 180000, y: 120000 });
    assert_eq!(p.id, 3);
    assert_eq!(ecs.entities.len(), 3, "two shadows, then the player");
    assert_eq!(ecs.entities[2], p);
    assert_eq!(ecs.components.health.get(&p.id), Some(&Health { hp: 3000 }));
    assert!(ecs.components.player_entity.contains_key(&1));
    assert!(ecs.components.player_entity.contains_key(&2));
    assert!(ecs.components.player_entity.contains_key(&p.id));
    let stats = ecs.components.player_data.get(&p.id).unwrap();
    assert_eq!(stats.base_max_hp, 3);
    assert_eq!(stats.base_move_speed, 72000);
    assert_eq!(stats.shadows, vec![Entity { id: 1 }, Entity { id: 2 }]);
    let gate = ecs.components.damageables.get(&p.id).unwrap();
    assert!(!gate.invulnerable_timer.unwrap().completed(), "fresh spawn protection");
}

#[test]
fn upgrades_fold_into_the_player_statistics_exactly() {
    let stats = PlayerData {
        base_move_speed: 72000,
        base_max_hp: 3,
        aberration: 0,
        aberration_increase_timer: Timer::new(200, true),
        shadows: Vec::new(),
        upgrades: vec![
            CommonUpgrade::MaxHp(2),
            CommonUpgrade::MoveSpeed(500),
            CommonUpgrade::ItemDropChance(1),
        ],
    };
    let up = stats.get_upgraded_data();
    assert_eq!(up.max_hp, 5);
    assert_eq!(up.move_speed, 108000, "72000 raised by 500 thousandths");
}

#[test]
fn upgrade_aggregation_saturates_the_heart_counter() {
    let stats = PlayerData {
        base_move_speed: 10,
        base_max_hp: 250,
        aberration: 0,
        aberration_increase_timer: Timer::new(200, true),
        shadows: Vec::new(),
        upgrades: vec![CommonUpgrade::MaxHp(10)],
    };
    assert_eq!(stats.get_upgraded_data().max_hp, u8::MAX);
}

#[test]
fn one_frame_correlates_collision_damage_death_and_despawn() {
    let mut reg = EntityRegistry::new(0);
    let mut ecs = Ecs::new();
    let p = spawn_player(&mut reg, &mut ecs, Position { x: 0, y: 0 });
    // Open the spawn-protection window so the first hit lands.
    ecs.components.damageables.insert(p.id, Damageable {
        invulnerable_timer: Some(completed_timer(1000)),
        hit_fx_timer: Some(completed_timer(220)),
    });
    let hazard = spawn_hazard(&mut ecs, reg.new_entity().id, 1000, 0, 1000);
    let _ = hazard;
    let collisions = detect_collisions(&ecs);
    let mut damage_events: Vec<DamageEvent> = Vec::new();
    let mut death_events: Vec<DeathEvent> = Vec::new();

    let fx = run_frame(&mut ecs, &collisions, &mut damage_events, &mut death_events, 16);
    assert_eq!(ecs.components.health.get(&p.id), Some(&Health { hp: 2000 }));
    assert!(damage_events.is_empty());
    assert!(death_events.is_empty(), "nobody crossed to zero");
    assert!(!fx.player_died);
    assert_eq!(fx.splatter_positions, vec![Position { x: 0, y: 0 }]);
    assert!(
        !ecs.components.damageables.get(&p.id).unwrap().invulnerable_timer.unwrap().completed(),
        "window reopened by the hit"
    );

    // Second frame, same contact: the window is open, no further damage.
    let collisions = detect_collisions(&ecs);
    let fx = run_frame(&mut ecs, &collisions, &mut damage_events, &mut death_events, 16);
    assert_eq!(ecs.components.health.get(&p.id), Some(&Health { hp: 2000 }));
    assert!(fx.splatter_positions.is_empty());
}

#[test]
fn event_queues_never_carry_state_across_frames() {
    let mut ecs = Ecs::new();
    let bystander = Entity { id: 1 };
    ecs.entities.push(bystander);
    ecs.components.health.insert(bystander.id, Health { hp: 1000 });
    ecs.components.damageables.insert(bystander.id, Damageable {
        invulnerable_timer: Some(completed_timer(10)),
        hit_fx_timer: None,
    });
    // Junk left in the queues from an imagined previous frame.
    let mut damage_events =
        vec![DamageEvent { source: Entity { id: 9 }, target: bystander, damage: 1000 }];
    let mut death_events = vec![DeathEvent(Entity { id: 9 }), DeathEvent(bystander)];

    let collisions = Vec::new();
    let fx = run_frame(&mut ecs, &collisions, &mut damage_events, &mut death_events, 16);
    assert_eq!(
        ecs.components.health.get(&bystander.id),
        Some(&Health { hp: 1000 }),
        "the stale damage event was cleared, not applied"
    );
    assert!(damage_events.is_empty());
    assert!(death_events.is_empty(), "stale death events were cleared too");
    assert!(!fx.player_died);
    assert!(fx.death_positions.is_empty());
}

#[test]
fn a_death_frame_reports_the_player_and_sweeps_next_frame() {
    let mut reg = EntityRegistry::new(0);
    let mut ecs = Ecs::new();
    let p = spawn_player(&mut reg, &mut ecs, Position { x: 50, y: 60 });
    ecs.components.health.insert(p.id, Health { hp: 500 });
    ecs.components.damageables.insert(p.id, Damageable {
        invulnerable_timer: Some(completed_timer(1000)),
        hit_fx_timer: None,
    });
    spawn_hazard(&mut ecs, reg.new_entity().id, 50, 60, 1000);
    let collisions = detect_collisions(&ecs);
    let mut damage_events: Vec<DamageEvent> = Vec::new();
    let mut death_events: Vec<DeathEvent> = Vec::new();

    let fx = run_frame(&mut ecs, &collisions, &mut damage_events, &mut death_events, 16);
    assert_eq!(ecs.components.health.get(&p.id), Some(&Health { hp: -500 }));
    assert_eq!(death_events, vec![DeathEvent(p)]);
    assert!(fx.player_died);
    assert_eq!(fx.death_positions, vec![Position { x: 50, y: 60 }]);
    assert!(ecs.entities.contains(&p), "despawn stays deferred this frame");

    // The next frame's sweep removes the player everywhere.
    let collisions = Vec::new();
    run_frame(&mut ecs, &collisions, &mut damage_events, &mut death_events, 16);
    assert!(!ecs.entities.contains(&p));
    assert!(!ecs.components.health.contains_key(&p.id));
    assert!(!ecs.components.player_data.contains_key(&p.id));
    assert!(death_events.is_empty(), "the dead entity is never reported again");
}

#[test]
fn double_damage_in_one_frame_yields_one_death_event() {
    let mut ecs = Ecs::new();
    let e = Entity { id: 1 };
    ecs.entities.push(e);
    ecs.components.positions.insert(e.id, Position { x: 0, y: 0 });
    ecs.components.colliders.insert(
        e.id,
        CircleCollider { radius: 3000, coll_type: ColliderType::Enemy },
    );
    ecs.components.health.insert(e.id, Health { hp: 500 });
    ecs.components.damageables.insert(e.id, Damageable {
        invulnerable_timer: Some(completed_timer(10)),
        hit_fx_timer: None,
    });
    // Two player shots overlap it at once.
    for (id, x) in [(2u64, 100), (3u64, -100)] {
        let s = Entity { id };
        ecs.entities.push(s);
        ecs.components.positions.insert(id, Position { x, y: 0 });
        ecs.components.colliders.insert(
            id,
            CircleCollider { radius: 1000, coll_type: ColliderType::Projectile },
        );
        ecs.components.damage_on_collision.insert(
            id,
            DamageOnCollision { source: EntityType::Player, damage: 1000 },
        );
    }
    let collisions = detect_collisions(&ecs);
    let mut damage_events: Vec<DamageEvent> = Vec::new();
    let mut death_events: Vec<DeathEvent> = Vec::new();
    run_frame(&mut ecs, &collisions, &mut damage_events, &mut death_events, 16);
    assert_eq!(
        ecs.components.health.get(&e.id),
        Some(&Health { hp: -500 }),
        "hits are not summed: one event applied"
    );
    assert_eq!(death_events, vec![DeathEvent(e)], "exactly one death event");
    let marks: Vec<&Entity> =
        ecs.marked_for_despawn.iter().filter(|m| m.id == e.id).collect();
    assert_eq!(marks.len(), 1);
}
