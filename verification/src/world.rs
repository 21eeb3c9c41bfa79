//! The entity/component store: a registry keyed by a stable entity index.
//!
//! Every storage is a vector of the same length, one slot per entity ever
//! created. Data components are `Option`s, tag components plain booleans.
//! Destruction is deferred: the death sweep marks entities `doomed` and the
//! maintenance step clears every component of a doomed entity atomically.

use vstd::prelude::*;
use crate::components::{
    AreaOfEffect, CombatStats, InBackpack, InflictDamage, Name, Position, ProvidesHealing, Ranged,
    Renderable, SufferDamage, Viewshed, WantsToDrop, WantsToMelee, WantsToPickupItem, WantsToUse,
    aoe_wf, damage_wf, healing_wf, ranged_wf, stats_wf, suffer_wf, AMOUNT_BOUND, DMG_QUEUE_BOUND,
};

verus! {

pub struct World {
    /// Liveness flag; a destroyed slot keeps its index but owns nothing.
    pub alive: Vec<bool>,
    /// Marked for removal at the next maintenance point.
    pub doomed: Vec<bool>,
    pub positions: Vec<Option<Position>>,
    pub renderables: Vec<Option<Renderable>>,
    /// Tag: the player entity.
    pub players: Vec<bool>,
    /// Tag: a monster.
    pub monsters: Vec<bool>,
    pub names: Vec<Option<Name>>,
    /// Tag: standing on a tile makes it blocked.
    pub blocks_tile: Vec<bool>,
    pub combat_stats: Vec<Option<CombatStats>>,
    pub viewsheds: Vec<Option<Viewshed>>,
    /// Tag: the entity can be picked up.
    pub items: Vec<bool>,
    /// Tag: the entity is destroyed after a successful use.
    pub consumables: Vec<bool>,
    pub provides_healing: Vec<Option<ProvidesHealing>>,
    pub inflict_damage: Vec<Option<InflictDamage>>,
    pub ranged: Vec<Option<Ranged>>,
    pub area_of_effect: Vec<Option<AreaOfEffect>>,
    pub in_backpack: Vec<Option<InBackpack>>,
    pub wants_to_pickup: Vec<Option<WantsToPickupItem>>,
    pub wants_to_use: Vec<Option<WantsToUse>>,
    pub wants_to_drop: Vec<Option<WantsToDrop>>,
    pub wants_to_melee: Vec<Option<WantsToMelee>>,
    pub suffer_damage: Vec<Option<SufferDamage>>,
}

impl World {
    /// Number of entity slots ever created.
    pub open spec fn n(self) -> int {
        self.alive@.len() as int
    }

    /// All storages cover the same entity slots.
    pub open spec fn lens_ok(self) -> bool {
        &&& self.doomed@.len() == self.n()
        &&& self.positions@.len() == self.n()
        &&& self.renderables@.len() == self.n()
        &&& self.players@.len() == self.n()
        &&& self.monsters@.len() == self.n()
        &&& self.names@.len() == self.n()
        &&& self.blocks_tile@.len() == self.n()
        &&& self.combat_stats@.len() == self.n()
        &&& self.viewsheds@.len() == self.n()
        &&& self.items@.len() == self.n()
        &&& self.consumables@.len() == self.n()
        &&& self.provides_healing@.len() == self.n()
        &&& self.inflict_damage@.len() == self.n()
        &&& self.ranged@.len() == self.n()
        &&& self.area_of_effect@.len() == self.n()
        &&& self.in_backpack@.len() == self.n()
        &&& self.wants_to_pickup@.len() == self.n()
        &&& self.wants_to_use@.len() == self.n()
        &&& self.wants_to_drop@.len() == self.n()
        &&& self.wants_to_melee@.len() == self.n()
        &&& self.suffer_damage@.len() == self.n()
    }

    /// Every stored component value is within its numeric bounds.
    pub open spec fn comps_wf(self) -> bool {
        &&& forall|e: int| 0 <= e < self.n() && self.combat_stats@[e] is Some
            ==> stats_wf(#[trigger] self.combat_stats@[e]->0)
        &&& forall|e: int| 0 <= e < self.n() && self.provides_healing@[e] is Some
            ==> healing_wf(#[trigger] self.provides_healing@[e]->0)
        &&& forall|e: int| 0 <= e < self.n() && self.inflict_damage@[e] is Some
            ==> damage_wf(#[trigger] self.inflict_damage@[e]->0)
        &&& forall|e: int| 0 <= e < self.n() && self.area_of_effect@[e] is Some
            ==> aoe_wf(#[trigger] self.area_of_effect@[e]->0)
        &&& forall|e: int| 0 <= e < self.n() && self.ranged@[e] is Some
            ==> ranged_wf(#[trigger] self.ranged@[e]->0)
        &&& forall|e: int| 0 <= e < self.n() && self.suffer_damage@[e] is Some
            ==> suffer_wf(#[trigger] self.suffer_damage@[e]->0)
    }

    pub open spec fn wf(self) -> bool {
        self.lens_ok() && self.comps_wf()
    }

    /// Every live item is either on the map or in a backpack, never both and
    /// never neither.
    pub open spec fn items_placed(self) -> bool {
        forall|e: int| 0 <= e < self.n() && self.alive@[e] && self.items@[e]
            ==> ((#[trigger] self.positions@[e]) is Some) != (self.in_backpack@[e] is Some)
    }

    /// Between pipeline passes every live fighter has positive hit points;
    /// the death sweep restores this after damage is applied.
    pub open spec fn settled(self) -> bool {
        forall|e: int| 0 <= e < self.n() && self.alive@[e] && self.combat_stats@[e] is Some
            ==> (#[trigger] self.combat_stats@[e])->0.hp >= 1
    }

    /// All four intent storages are empty.
    pub open spec fn intents_clear(self) -> bool {
        &&& forall|e: int| 0 <= e < self.n() ==> (#[trigger] self.wants_to_pickup@[e]) is None
        &&& forall|e: int| 0 <= e < self.n() ==> (#[trigger] self.wants_to_use@[e]) is None
        &&& forall|e: int| 0 <= e < self.n() ==> (#[trigger] self.wants_to_drop@[e]) is None
        &&& forall|e: int| 0 <= e < self.n() ==> (#[trigger] self.wants_to_melee@[e]) is None
    }

    pub fn new() -> (w: World)
        ensures
            w.n() == 0,
            w.wf(),
            w.items_placed(),
            w.settled(),
            w.intents_clear(),
    {
        World {
            alive: Vec::new(),
            doomed: Vec::new(),
            positions: Vec::new(),
            renderables: Vec::new(),
            players: Vec::new(),
            monsters: Vec::new(),
            names: Vec::new(),
            blocks_tile: Vec::new(),
            combat_stats: Vec::new(),
            viewsheds: Vec::new(),
            items: Vec::new(),
            consumables: Vec::new(),
            provides_healing: Vec::new(),
            inflict_damage: Vec::new(),
            ranged: Vec::new(),
            area_of_effect: Vec::new(),
            in_backpack: Vec::new(),
            wants_to_pickup: Vec::new(),
            wants_to_use: Vec::new(),
            wants_to_drop: Vec::new(),
            wants_to_melee: Vec::new(),
            suffer_damage: Vec::new(),
        }
    }

    /// Reserves a fresh entity slot with no components.
    pub fn create_entity(&mut self) -> (e: usize)
        requires
            old(self).lens_ok(),
            old(self).n() < usize::MAX,
        ensures
            e == old(self).n(),
            final(self).n() == old(self).n() + 1,
            final(self).lens_ok(),
            final(self).alive@ == old(self).alive@.push(true),
            final(self).doomed@ == old(self).doomed@.push(false),
            final(self).positions@ == old(self).positions@.push(None::<Position>),
            final(self).renderables@ == old(self).renderables@.push(None::<Renderable>),
            final(self).players@ == old(self).players@.push(false),
            final(self).monsters@ == old(self).monsters@.push(false),
            final(self).names@ == old(self).names@.push(None::<Name>),
            final(self).blocks_tile@ == old(self).blocks_tile@.push(false),
            final(self).combat_stats@ == old(self).combat_stats@.push(None::<CombatStats>),
            final(self).viewsheds@ == old(self).viewsheds@.push(None::<Viewshed>),
            final(self).items@ == old(self).items@.push(false),
            final(self).consumables@ == old(self).consumables@.push(false),
            final(self).provides_healing@ == old(self).provides_healing@.push(
                None::<ProvidesHealing>,
            ),
            final(self).inflict_damage@ == old(self).inflict_damage@.push(None::<InflictDamage>),
            final(self).ranged@ == old(self).ranged@.push(None::<Ranged>),
            final(self).area_of_effect@ == old(self).area_of_effect@.push(None::<AreaOfEffect>),
            final(self).in_backpack@ == old(self).in_backpack@.push(None::<InBackpack>),
            final(self).wants_to_pickup@ == old(self).wants_to_pickup@.push(
                None::<WantsToPickupItem>,
            ),
            final(self).wants_to_use@ == old(self).wants_to_use@.push(None::<WantsToUse>),
            final(self).wants_to_drop@ == old(self).wants_to_drop@.push(None::<WantsToDrop>),
            final(self).wants_to_melee@ == old(self).wants_to_melee@.push(None::<WantsToMelee>),
            final(self).suffer_damage@ == old(self).suffer_damage@.push(None::<SufferDamage>),
            old(self).wf() ==> final(self).wf(),
    {
        let e = self.alive.len();
        self.alive.push(true);
        self.doomed.push(false);
        self.positions.push(None);
        self.renderables.push(None);
        self.players.push(false);
        self.monsters.push(false);
        self.names.push(None);
        self.blocks_tile.push(false);
        self.combat_stats.push(None);
        self.viewsheds.push(None);
        self.items.push(false);
        self.consumables.push(false);
        self.provides_healing.push(None);
        self.inflict_damage.push(None);
        self.ranged.push(None);
        self.area_of_effect.push(None);
        self.in_backpack.push(None);
        self.wants_to_pickup.push(None);
        self.wants_to_use.push(None);
        self.wants_to_drop.push(None);
        self.wants_to_melee.push(None);
        self.suffer_damage.push(None);
        e
    }

    /// Clears every component of entity `e` and frees its slot.
    pub fn remove_entity(&mut self, e: usize)
        requires
            old(self).lens_ok(),
            0 <= e < old(self).n(),
        ensures
            final(self).n() == old(self).n(),
            final(self).lens_ok(),
            final(self).alive@ == old(self).alive@.update(e as int, false),
            final(self).doomed@ == old(self).doomed@.update(e as int, false),
            final(self).positions@ == old(self).positions@.update(e as int, None::<Position>),
            final(self).renderables@ == old(self).renderables@.update(
                e as int,
                None::<Renderable>,
            ),
            final(self).players@ == old(self).players@.update(e as int, false),
            final(self).monsters@ == old(self).monsters@.update(e as int, false),
            final(self).names@ == old(self).names@.update(e as int, None::<Name>),
            final(self).blocks_tile@ == old(self).blocks_tile@.update(e as int, false),
            final(self).combat_stats@ == old(self).combat_stats@.update(
                e as int,
                None::<CombatStats>,
            ),
            final(self).viewsheds@ == old(self).viewsheds@.update(e as int, None::<Viewshed>),
            final(self).items@ == old(self).items@.update(e as int, false),
            final(self).consumables@ == old(self).consumables@.update(e as int, false),
            final(self).provides_healing@ == old(self).provides_healing@.update(
                e as int,
                None::<ProvidesHealing>,
            ),
            final(self).inflict_damage@ == old(self).inflict_damage@.update(
                e as int,
                None::<InflictDamage>,
            ),
            final(self).ranged@ == old(self).ranged@.update(e as int, None::<Ranged>),
            final(self).area_of_effect@ == old(self).area_of_effect@.update(
                e as int,
                None::<AreaOfEffect>,
            ),
            final(self).in_backpack@ == old(self).in_backpack@.update(e as int, None::<InBackpack>),
            final(self).wants_to_pickup@ == old(self).wants_to_pickup@.update(
                e as int,
                None::<WantsToPickupItem>,
            ),
            final(self).wants_to_use@ == old(self).wants_to_use@.update(e as int, None::<WantsToUse>),
            final(self).wants_to_drop@ == old(self).wants_to_drop@.update(
                e as int,
                None::<WantsToDrop>,
            ),
            final(self).wants_to_melee@ == old(self).wants_to_melee@.update(
                e as int,
                None::<WantsToMelee>,
            ),
            final(self).suffer_damage@ == old(self).suffer_damage@.update(
                e as int,
                None::<SufferDamage>,
            ),
            old(self).wf() ==> final(self).wf(),
    {
        self.alive[e] = false;
        self.doomed[e] = false;
        self.positions[e] = None;
        self.renderables[e] = None;
        self.players[e] = false;
        self.monsters[e] = false;
        self.names[e] = None;
        self.blocks_tile[e] = false;
        self.combat_stats[e] = None;
        self.viewsheds[e] = None;
        self.items[e] = false;
        self.consumables[e] = false;
        self.provides_healing[e] = None;
        self.inflict_damage[e] = None;
        self.ranged[e] = None;
        self.area_of_effect[e] = None;
        self.in_backpack[e] = None;
        self.wants_to_pickup[e] = None;
        self.wants_to_use[e] = None;
        self.wants_to_drop[e] = None;
        self.wants_to_melee[e] = None;
        self.suffer_damage[e] = None;
    }

    /// Appends `amount` to the damage accumulator of `victim`, starting a
    /// fresh accumulator when none exists. A full accumulator drops the
    /// entry: the queue cap is an internal-consistency guard, not a rule of
    /// the game.
    pub fn new_damage(&mut self, victim: usize, amount: i32)
        requires
            old(self).wf(),
            0 <= victim < old(self).n(),
            0 <= amount <= AMOUNT_BOUND,
        ensures
            final(self).wf(),
            final(self).n() == old(self).n(),
            *final(self) == (World { suffer_damage: final(self).suffer_damage, ..*old(self) }),
            forall|i: int| 0 <= i < old(self).n() && i != victim
                ==> final(self).suffer_damage@[i] == old(self).suffer_damage@[i],
            final(self).suffer_damage@[victim as int] is Some,
            final(self).suffer_damage@[victim as int]->0.amounts@ == spec_damage_queue(
                old(self).suffer_damage@[victim as int],
                amount,
            ),
    {
        if self.suffer_damage[victim].is_none() {
            let mut amounts: Vec<i32> = Vec::new();
            amounts.push(amount);
            self.suffer_damage[victim] = Some(SufferDamage { amounts });
        } else if let Some(existing) = &mut self.suffer_damage[victim] {
            if existing.amounts.len() < DMG_QUEUE_BOUND {
                existing.amounts.push(amount);
            }
        }
    }
}

/// The damage queue after appending `amount` to `slot`: a fresh singleton
/// when the slot was empty, unchanged when the queue is already at its cap.
pub open spec fn spec_damage_queue(slot: Option<SufferDamage>, amount: i32) -> Seq<i32> {
    let q = match slot {
        None => Seq::<i32>::empty(),
        Some(s) => s.amounts@,
    };
    if q.len() < DMG_QUEUE_BOUND {
        q.push(amount)
    } else {
        q
    }
}

} // verus!
