//! One frame of the gameplay pipeline, in the fixed order that is itself a
//! correctness contract: despawn sweep, queue clearing, timer advance,
//! collision-to-damage translation, despawn-on-hit, damage application,
//! kill check, death handling. Later stages depend on event queues
//! populated by earlier ones within the same frame; both queues are
//! emptied before any event of the frame is generated, so nothing here
//! depends on what they held at the end of the previous frame.

use vstd::prelude::*;
use crate::collision::Collision;
use crate::collision::Position;
use crate::damage::any_player_death;
use crate::damage::apply_damage;
use crate::damage::damage_on_collision;
use crate::damage::damageables_after_apply;
use crate::damage::damageables_after_tick;
use crate::damage::dead_entities;
use crate::damage::dead_events;
use crate::damage::death_positions;
use crate::damage::despawn_on_collision;
use crate::damage::despawn_requests;
use crate::damage::generated_damage_events;
use crate::damage::health_after_apply;
use crate::damage::impact_positions;
use crate::damage::splatter_positions;
use crate::damage::timers_after_tick;
use crate::damage::handle_death;
use crate::damage::kill_entities;
use crate::damage::lemma_dead_events_match;
use crate::damage::lemma_dead_entities_wf;
use crate::damage::update_damageables;
use crate::damage::update_timers;
use crate::ecs::Ecs;
use crate::ecs::despawn_ids;
use crate::ecs::entities_distinct;
use crate::ecs::id_in;
use crate::ecs::lemma_filter_distinct;
use crate::ecs::survivor_pred;
use crate::events::DamageEvent;
use crate::events::DeathEvent;
use crate::tags::Damageable;
use crate::tags::Health;

verus! {

/// The damage events one frame generates. They are a function of the
/// damage tags, the player roster, the swept live list and the collision
/// records; the first three the rest of the frame leaves untouched, so
/// they can be read off the final state.
pub open spec fn frame_damage_events(post: Ecs, collisions: Seq<Collision>) -> Seq<DamageEvent> {
    generated_damage_events(
        post.components.damage_on_collision@,
        post.components.player_data@,
        post.entities@,
        collisions,
    )
}

/// The damage-gating table as damage application sees it mid-frame: the
/// swept table after one tick of `dt` over the swept live list.
pub open spec fn frame_gate_state(pre: Ecs, post: Ecs, dt: u64) -> Map<u64, Damageable> {
    damageables_after_tick(
        pre.components.damageables@.remove_keys(despawn_ids(pre.marked_for_despawn@)),
        post.entities@,
        dt,
    )
}

/// The health table as damage application sees it mid-frame: the swept
/// table, which nothing touches between the sweep and the application.
pub open spec fn frame_health_state(pre: Ecs) -> Map<u64, Health> {
    pre.components.health@.remove_keys(despawn_ids(pre.marked_for_despawn@))
}

/// What one frame hands back to the surrounding game for its effect and
/// screen collaborators: impact-feedback positions from despawn-on-hit,
/// blood positions from damage application, and the death summary.
pub struct FrameEffects {
    pub impact_positions: Vec<Position>,
    pub splatter_positions: Vec<Position>,
    pub player_died: bool,
    pub death_positions: Vec<Position>,
}

/// Run one frame of the damage pipeline over the collision records of the
/// previous movement pass. The live-entity list changes only in the sweep
/// at the frame boundary; afterwards despawns are merely queued. Both
/// event queues are frame-scoped: they are emptied here before any event
/// of this frame is generated, so no clause below depends on what they
/// held before the call, and the damage queue leaves empty.
///
/// The contract accounts for every table: timers advance once over the
/// swept list; health and the damage gates pass through the swept state,
/// one tick, and the application of this frame's generated events; every
/// other table is exactly the old one with the swept identities removed.
pub fn run_frame(
    ecs: &mut Ecs,
    collisions: &Vec<Collision>,
    damage_events: &mut Vec<DamageEvent>,
    death_events: &mut Vec<DeathEvent>,
    dt: u64,
) -> (fx: FrameEffects)
    requires
        entities_distinct(old(ecs).entities@),
    ensures
        final(ecs).entities@ == old(ecs).entities@.filter(
            survivor_pred(old(ecs).marked_for_despawn@),
        ),
        entities_distinct(final(ecs).entities@),
        final(ecs).components.timers@ == timers_after_tick(
            old(ecs).components.timers@.remove_keys(despawn_ids(old(ecs).marked_for_despawn@)),
            final(ecs).entities@,
            dt,
        ),
        final(ecs).components.health@ == health_after_apply(
            frame_gate_state(*old(ecs), *final(ecs), dt),
            frame_health_state(*old(ecs)),
            frame_damage_events(*final(ecs), collisions@),
            final(ecs).entities@,
        ),
        final(ecs).components.damageables@ == damageables_after_apply(
            frame_gate_state(*old(ecs), *final(ecs), dt),
            frame_health_state(*old(ecs)),
            frame_damage_events(*final(ecs), collisions@),
            final(ecs).entities@,
        ),
        fx.splatter_positions@ == splatter_positions(
            frame_gate_state(*old(ecs), *final(ecs), dt),
            frame_health_state(*old(ecs)),
            final(ecs).components.positions@,
            frame_damage_events(*final(ecs), collisions@),
            final(ecs).entities@,
        ),
        final(ecs).components.positions@ == old(ecs).components.positions@.remove_keys(
            despawn_ids(old(ecs).marked_for_despawn@),
        ),
        final(ecs).components.colliders@ == old(ecs).components.colliders@.remove_keys(
            despawn_ids(old(ecs).marked_for_despawn@),
        ),
        final(ecs).components.velocities@ == old(ecs).components.velocities@.remove_keys(
            despawn_ids(old(ecs).marked_for_despawn@),
        ),
        final(ecs).components.damage_on_collision@
            == old(ecs).components.damage_on_collision@.remove_keys(
            despawn_ids(old(ecs).marked_for_despawn@),
        ),
        final(ecs).components.despawn_on_anim_end@
            == old(ecs).components.despawn_on_anim_end@.remove_keys(
            despawn_ids(old(ecs).marked_for_despawn@),
        ),
        final(ecs).components.despawn_on_hit@ == old(ecs).components.despawn_on_hit@.remove_keys(
            despawn_ids(old(ecs).marked_for_despawn@),
        ),
        final(ecs).components.player_data@ == old(ecs).components.player_data@.remove_keys(
            despawn_ids(old(ecs).marked_for_despawn@),
        ),
        final(ecs).components.player_entity@ == old(ecs).components.player_entity@.remove_keys(
            despawn_ids(old(ecs).marked_for_despawn@),
        ),
        final(damage_events)@.len() == 0,
        final(death_events)@ == dead_events(
            final(ecs).components.health@,
            final(ecs).entities@,
        ),
        fx.player_died == any_player_death(
            final(ecs).components.player_entity@,
            final(death_events)@,
        ),
        fx.death_positions@ == death_positions(
            final(ecs).components.positions@,
            final(death_events)@,
        ),
        fx.impact_positions@ == impact_positions(
            final(ecs).components.despawn_on_hit@,
            final(ecs).components.player_entity@,
            final(ecs).components.positions@,
            final(ecs).entities@,
            collisions@,
        ),
        final(ecs).marked_for_despawn@ == despawn_requests(
            final(ecs).components.despawn_on_hit@,
            final(ecs).components.player_entity@,
            final(ecs).entities@,
            collisions@,
        ) + dead_entities(final(ecs).components.health@, final(ecs).entities@),
        forall|k: int|
            0 <= k < final(death_events)@.len() ==> id_in(
                final(ecs).marked_for_despawn@,
                #[trigger] final(death_events)@[k].0.id,
            ),
{
    ecs.sweep_despawned();
    proof {
        lemma_filter_distinct(old(ecs).entities@, survivor_pred(old(ecs).marked_for_despawn@));
    }
    death_events.clear();
    damage_events.clear();
    update_timers(ecs, dt);
    update_damageables(ecs, dt);
    damage_on_collision(ecs, damage_events, collisions);
    let impact_positions = despawn_on_collision(ecs, collisions);
    let splatter_positions = apply_damage(ecs, damage_events);
    let ghost pre_kill_marked = ecs.marked_for_despawn@;
    kill_entities(ecs, death_events);
    let summary = handle_death(ecs, death_events);
    proof {
        let h = ecs.components.health@;
        let es = ecs.entities@;
        lemma_dead_entities_wf(h, es);
        lemma_dead_events_match(h, es);
        assert forall|k: int| 0 <= k < death_events@.len() implies id_in(
            ecs.marked_for_despawn@,
            #[trigger] death_events@[k].0.id,
        ) by {
            assert(death_events@[k] == DeathEvent(crate::damage::dead_entities(h, es)[k]));
            assert(ecs.marked_for_despawn@[pre_kill_marked.len() + k]
                == crate::damage::dead_entities(h, es)[k]);
        }
    }
    FrameEffects {
        impact_positions,
        splatter_positions,
        player_died: summary.player_died,
        death_positions: summary.effect_positions,
    }
}

} // verus!
