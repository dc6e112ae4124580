//! Player statistics and upgrade aggregation. Speeds are fixed-point world
//! units per second, upgrade percentages are thousandths; maximum hit
//! points are whole hearts.

use vstd::prelude::*;
use crate::collision::CircleCollider;
use crate::collision::ColliderType;
use crate::collision::Position;
use crate::collision::Velocity;
use crate::ecs::Ecs;
use crate::ecs::entities_distinct;
use crate::ecs::id_in;
use crate::ecs::table_keys_live;
use crate::entity::Entity;
use crate::entity::EntityRegistry;
use crate::entity::registry_covers;
use crate::tags::Damageable;
use crate::tags::Health;
use crate::timer::Timer;

verus! {

/// The player's collider radius, in fixed-point world units.
pub const PLAYER_RADIUS: u32 = 3000;

/// The player's base movement speed, in fixed-point world units per
/// second.
pub const PLAYER_MOVE_SPEED: u32 = 72000;

/// The player's base maximum hit points, in hearts.
pub const PLAYER_MAX_HP: u8 = 3;

/// Fixed-point hit points per heart.
pub const HP_PER_HEART: i64 = 1000;

/// The player's starting hit points.
pub const PLAYER_START_HP: i64 = 3 * HP_PER_HEART;

/// Ticks of invulnerability after a hit lands on the player.
pub const PLAYER_INVULNERABLE_TICKS: u64 = 1000;

/// Ticks the player's hit flash plays after a hit.
pub const PLAYER_HIT_FX_TICKS: u64 = 220;

/// Cadence of the player's aberration build-up, in ticks.
pub const PLAYER_ABERRATION_TICKS: u64 = 200;

/// A per-player upgrade picked up during play.
#[derive(Clone, Copy, PartialEq, Eq, Structural, Debug)]
pub enum CommonUpgrade {
    /// Raises the maximum hit points by the given number of hearts.
    MaxHp(u8),
    /// Raises movement speed by the given amount, in thousandths of the
    /// base speed.
    MoveSpeed(u32),
    /// Raises the chance of an item drop; no effect on the stats below.
    ItemDropChance(i32),
}

/// The player's base statistics plus everything picked up during play.
pub struct PlayerData {
    /// Base movement speed in fixed-point world units per second.
    pub base_move_speed: u32,
    /// Base maximum hit points, in hearts.
    pub base_max_hp: u8,
    /// Aberration build-up, in thousandths.
    pub aberration: u32,
    /// Cadence at which the aberration builds up.
    pub aberration_increase_timer: Timer,
    /// Auxiliary shadow entities owned by the player, stored as weak
    /// entity identities and resolved through the component store.
    pub shadows: Vec<Entity>,
    /// Upgrades picked up so far, in pick-up order.
    pub upgrades: Vec<CommonUpgrade>,
}

/// Movement speed and maximum hit points after applying all upgrades.
pub struct PlayerUpgradeData {
    /// Upgraded movement speed in fixed-point world units per second.
    pub move_speed: u64,
    /// Upgraded maximum hit points, in hearts.
    pub max_hp: u8,
}

/// Maximum hit points after applying the upgrades in order, saturating at
/// the numeric limit of a heart counter.
pub open spec fn upgraded_max_hp(base: u8, ups: Seq<CommonUpgrade>) -> int
    decreases ups.len(),
{
    if ups.len() == 0 {
        base as int
    } else {
        let prev = upgraded_max_hp(base, ups.drop_last());
        match ups.last() {
            CommonUpgrade::MaxHp(inc) => if prev + inc > u8::MAX { u8::MAX as int } else {
                prev + inc
            },
            _ => prev,
        }
    }
}

/// Total speed increase in thousandths over the upgrades, saturating at
/// the accumulator's numeric limit.
pub open spec fn speed_increase_permille(ups: Seq<CommonUpgrade>) -> int
    decreases ups.len(),
{
    if ups.len() == 0 {
        0
    } else {
        let prev = speed_increase_permille(ups.drop_last());
        match ups.last() {
            CommonUpgrade::MoveSpeed(inc) => if prev + inc > u64::MAX { u64::MAX as int } else {
                prev + inc
            },
            _ => prev,
        }
    }
}

/// Movement speed after upgrades: the base speed scaled by one plus the
/// accumulated percentage increase, saturating at the numeric limit.
pub open spec fn upgraded_move_speed(base: u32, ups: Seq<CommonUpgrade>) -> int {
    let s = (base * (1000 + speed_increase_permille(ups))) / 1000;
    if s > u64::MAX {
        u64::MAX as int
    } else {
        s
    }
}

impl PlayerData {
    /// Fold every picked-up upgrade into the base statistics.
    pub fn get_upgraded_data(&self) -> (r: PlayerUpgradeData)
        ensures
            r.max_hp == upgraded_max_hp(self.base_max_hp, self.upgrades@),
            r.move_speed == upgraded_move_speed(self.base_move_speed, self.upgrades@),
    {
        let mut max_hp: u8 = self.base_max_hp;
        let mut speed_inc: u64 = 0;
        let n = self.upgrades.len();
        for i in 0..n
            invariant
                n == self.upgrades.len(),
                max_hp == upgraded_max_hp(self.base_max_hp, self.upgrades@.take(i as int)),
                speed_inc == speed_increase_permille(self.upgrades@.take(i as int)),
        {
            let up = self.upgrades[i];
            proof {
                assert(self.upgrades@.take(i + 1).drop_last() =~= self.upgrades@.take(i as int));
                assert(self.upgrades@.take(i + 1).last() == self.upgrades@[i as int]);
            }
            match up {
                CommonUpgrade::MaxHp(inc) => {
                    if max_hp > u8::MAX - inc {
                        max_hp = u8::MAX;
                    } else {
                        max_hp = max_hp + inc;
                    }
                },
                CommonUpgrade::MoveSpeed(inc) => {
                    if speed_inc > u64::MAX - inc as u64 {
                        speed_inc = u64::MAX;
                    } else {
                        speed_inc = speed_inc + inc as u64;
                    }
                },
                CommonUpgrade::ItemDropChance(_) => {},
            }
        }
        proof {
            assert(self.upgrades@.take(n as int) =~= self.upgrades@);
        }
        let factor: u128 = 1000 + speed_inc as u128;
        proof {
            assert((self.base_move_speed as u128) * factor
                < 0x1_0000_0000_0000_0000_0000_0000_0000u128) by (nonlinear_arith)
                requires (self.base_move_speed as u128) < 0x1_0000_0000u128
                    && factor < 0x2_0000_0000_0000_0000u128;
        }
        let scaled: u128 = (self.base_move_speed as u128) * factor / 1000;
        let move_speed: u64 = if scaled > u64::MAX as u128 {
            u64::MAX
        } else {
            scaled as u64
        };
        PlayerUpgradeData { move_speed, max_hp }
    }
}

/// A table whose keys were live stays keyed by live entities when the
/// live list only grows.
proof fn lemma_keys_live_grow<V>(m: Map<u64, V>, es_old: Seq<Entity>, es_new: Seq<Entity>)
    requires
        table_keys_live(m, es_old),
        forall|id: u64| id_in(es_old, id) ==> id_in(es_new, id),
    ensures
        table_keys_live(m, es_new),
{
}

/// Inserting an entry for a live entity keeps a table keyed by live
/// entities.
proof fn lemma_keys_live_insert<V>(m: Map<u64, V>, es: Seq<Entity>, k: u64, v: V)
    requires
        table_keys_live(m, es),
        id_in(es, k),
    ensures
        table_keys_live(m.insert(k, v), es),
{
}

/// Spawn the player: two invisible shadow entities tagged as the player's
/// side, then the player entity itself with its collider, position, zero
/// velocity, full health, statistics (owning the shadows as weak
/// back-references), and damage gating. Allocates three identities and
/// appends the three entities to the live list in that order.
pub fn spawn_player(reg: &mut EntityRegistry, ecs: &mut Ecs, pos: Position) -> (r: Entity)
    requires
        old(reg).entity_index + 3 <= u64::MAX,
    ensures
        final(reg).entity_index == old(reg).entity_index + 3,
        r == (Entity { id: (old(reg).entity_index + 3) as u64 }),
        final(ecs).entities@ == old(ecs).entities@ + seq![
            Entity { id: (old(reg).entity_index + 1) as u64 },
            Entity { id: (old(reg).entity_index + 2) as u64 },
            r,
        ],
        final(ecs).marked_for_despawn == old(ecs).marked_for_despawn,
        final(ecs).components.timers == old(ecs).components.timers,
        final(ecs).components.damage_on_collision == old(ecs).components.damage_on_collision,
        final(ecs).components.despawn_on_anim_end == old(ecs).components.despawn_on_anim_end,
        final(ecs).components.despawn_on_hit == old(ecs).components.despawn_on_hit,
        final(ecs).components.colliders@ == old(ecs).components.colliders@.insert(
            r.id,
            CircleCollider { radius: PLAYER_RADIUS, coll_type: ColliderType::Player },
        ),
        final(ecs).components.positions@ == old(ecs).components.positions@.insert(
            (old(reg).entity_index + 1) as u64,
            pos,
        ).insert((old(reg).entity_index + 2) as u64, pos).insert(r.id, pos),
        final(ecs).components.velocities@ == old(ecs).components.velocities@.insert(
            r.id,
            Velocity { x: 0, y: 0 },
        ),
        final(ecs).components.health@ == old(ecs).components.health@.insert(
            r.id,
            Health { hp: PLAYER_START_HP },
        ),
        final(ecs).components.damageables@ == old(ecs).components.damageables@.insert(
            r.id,
            Damageable {
                invulnerable_timer: Some(
                    Timer {
                        duration: PLAYER_INVULNERABLE_TICKS,
                        elapsed: 0,
                        repeat: false,
                        just_completed: false,
                    },
                ),
                hit_fx_timer: Some(
                    Timer {
                        duration: PLAYER_HIT_FX_TICKS,
                        elapsed: 0,
                        repeat: false,
                        just_completed: false,
                    },
                ),
            },
        ),
        final(ecs).components.player_entity@ == old(ecs).components.player_entity@.insert(
            (old(reg).entity_index + 1) as u64,
            (),
        ).insert((old(reg).entity_index + 2) as u64, ()).insert(r.id, ()),
        final(ecs).components.player_data@.dom() == old(ecs).components.player_data@.dom().insert(
            r.id,
        ),
        forall|k: u64|
            old(ecs).components.player_data@.contains_key(k) && k != r.id
                ==> final(ecs).components.player_data@[k] == old(ecs).components.player_data@[k],
        final(ecs).components.player_data@[r.id].base_move_speed == PLAYER_MOVE_SPEED,
        final(ecs).components.player_data@[r.id].base_max_hp == PLAYER_MAX_HP,
        final(ecs).components.player_data@[r.id].aberration == 0,
        final(ecs).components.player_data@[r.id].aberration_increase_timer == (Timer {
            duration: PLAYER_ABERRATION_TICKS,
            elapsed: 0,
            repeat: true,
            just_completed: false,
        }),
        final(ecs).components.player_data@[r.id].shadows@ == seq![
            Entity { id: (old(reg).entity_index + 1) as u64 },
            Entity { id: (old(reg).entity_index + 2) as u64 },
        ],
        final(ecs).components.player_data@[r.id].upgrades@ == Seq::<CommonUpgrade>::empty(),
        entities_distinct(old(ecs).entities@) && registry_covers(
            old(reg).entity_index,
            old(ecs).entities@,
        ) ==> entities_distinct(final(ecs).entities@) && registry_covers(
            final(reg).entity_index,
            final(ecs).entities@,
        ),
        old(ecs).wf() && registry_covers(old(reg).entity_index, old(ecs).entities@)
            ==> final(ecs).wf(),
{
    let shadow1 = reg.new_entity();
    ecs.components.positions.insert(shadow1.id, pos);
    ecs.components.player_entity.insert(shadow1.id, ());
    ecs.entities.push(shadow1);

    let shadow2 = reg.new_entity();
    ecs.components.positions.insert(shadow2.id, pos);
    ecs.components.player_entity.insert(shadow2.id, ());
    ecs.entities.push(shadow2);

    let id = reg.new_entity();
    ecs.components.colliders.insert(
        id.id,
        CircleCollider { radius: PLAYER_RADIUS, coll_type: ColliderType::Player },
    );
    ecs.components.positions.insert(id.id, pos);
    ecs.components.velocities.insert(id.id, Velocity { x: 0, y: 0 });
    ecs.components.health.insert(id.id, Health { hp: PLAYER_START_HP });
    let player_data = PlayerData {
        base_move_speed: PLAYER_MOVE_SPEED,
        base_max_hp: PLAYER_MAX_HP,
        aberration: 0,
        aberration_increase_timer: Timer::new(PLAYER_ABERRATION_TICKS, true),
        shadows: vec![shadow1, shadow2],
        upgrades: Vec::new(),
    };
    ecs.components.player_data.insert(id.id, player_data);
    ecs.components.damageables.insert(
        id.id,
        Damageable {
            invulnerable_timer: Some(Timer::new(PLAYER_INVULNERABLE_TICKS, false)),
            hit_fx_timer: Some(Timer::new(PLAYER_HIT_FX_TICKS, false)),
        },
    );
    ecs.components.player_entity.insert(id.id, ());
    ecs.entities.push(id);

    proof {
        assert(final(ecs).components.player_data@.dom() =~= old(
            ecs,
        ).components.player_data@.dom().insert(id.id));
        let es0 = old(ecs).entities@;
        let es2 = ecs.entities@;
        let n0 = old(reg).entity_index;
        assert(es2 == es0 + seq![shadow1, shadow2, id]);
        if entities_distinct(es0) && registry_covers(n0, es0) {
            assert forall|i: int, j: int| 0 <= i < j < es2.len() implies es2[i].id
                != es2[j].id by {
                if j < es0.len() {
                    assert(es2[i] == es0[i] && es2[j] == es0[j]);
                } else if i < es0.len() {
                    assert(es2[i] == es0[i]);
                    assert(es0[i].id <= n0);
                }
            }
            if old(ecs).wf() {
                assert forall|w: u64| id_in(es0, w) implies id_in(es2, w) by {
                    let t = choose|t: int| 0 <= t < es0.len() && #[trigger] es0[t].id == w;
                    assert(es2[t].id == w);
                }
                assert(id_in(es2, shadow1.id)) by {
                    assert(es2[es0.len() as int].id == shadow1.id);
                }
                assert(id_in(es2, shadow2.id)) by {
                    assert(es2[es0.len() as int + 1].id == shadow2.id);
                }
                assert(id_in(es2, id.id)) by {
                    assert(es2[es0.len() as int + 2].id == id.id);
                }
                let c0 = old(ecs).components;
                lemma_keys_live_grow(c0.timers@, es0, es2);
                lemma_keys_live_grow(c0.damage_on_collision@, es0, es2);
                lemma_keys_live_grow(c0.despawn_on_anim_end@, es0, es2);
                lemma_keys_live_grow(c0.despawn_on_hit@, es0, es2);
                lemma_keys_live_grow(c0.colliders@, es0, es2);
                lemma_keys_live_insert(c0.colliders@, es2, id.id, CircleCollider {
                    radius: PLAYER_RADIUS,
                    coll_type: ColliderType::Player,
                });
                lemma_keys_live_grow(c0.positions@, es0, es2);
                lemma_keys_live_insert(c0.positions@, es2, shadow1.id, pos);
                lemma_keys_live_insert(c0.positions@.insert(shadow1.id, pos), es2, shadow2.id, pos);
                lemma_keys_live_insert(
                    c0.positions@.insert(shadow1.id, pos).insert(shadow2.id, pos),
                    es2,
                    id.id,
                    pos,
                );
                lemma_keys_live_grow(c0.velocities@, es0, es2);
                lemma_keys_live_insert(c0.velocities@, es2, id.id, Velocity { x: 0, y: 0 });
                lemma_keys_live_grow(c0.health@, es0, es2);
                lemma_keys_live_insert(c0.health@, es2, id.id, Health { hp: PLAYER_START_HP });
                lemma_keys_live_grow(c0.damageables@, es0, es2);
                lemma_keys_live_insert(
                    c0.damageables@,
                    es2,
                    id.id,
                    ecs.components.damageables@[id.id],
                );
                lemma_keys_live_grow(c0.player_data@, es0, es2);
                lemma_keys_live_insert(
                    c0.player_data@,
                    es2,
                    id.id,
                    ecs.components.player_data@[id.id],
                );
                lemma_keys_live_grow(c0.player_entity@, es0, es2);
                lemma_keys_live_insert(c0.player_entity@, es2, shadow1.id, ());
                lemma_keys_live_insert(
                    c0.player_entity@.insert(shadow1.id, ()),
                    es2,
                    shadow2.id,
                    (),
                );
                lemma_keys_live_insert(
                    c0.player_entity@.insert(shadow1.id, ()).insert(shadow2.id, ()),
                    es2,
                    id.id,
                    (),
                );
            }
        }
    }
    id
}

} // verus!
