//! The run-state machine and the fixed-order turn pipeline it drives.

use vstd::prelude::*;
use crate::components::Point;
use crate::damage_system::{DamageSystem, MeleeCombatSystem};
use crate::game_map::MapIndexingSystem;
use crate::inventory_system::{
    lemma_map_indexed_tile_lists, InventoryCollectionSystem, ItemDropSystem, ItemUseSystem,
};
use crate::monster_ai_system::MonsterAI;
use crate::player::{grab_outcome, move_outcome, player_input, spec_command_state, PlayerCommand};
use crate::components::{CombatStats, InBackpack, WantsToDrop, WantsToUse};
use crate::world::World;

verus! {

/// Which phase the game loop is in. The pipeline runs on `PreRun`,
/// `PlayerTurn` and `MonsterTurn`; the other states wait on the player.
#[derive(Clone, Copy, PartialEq, Eq, Structural, Debug)]
pub enum RunState {
    AwaitingInput,
    PreRun,
    PlayerTurn,
    MonsterTurn,
    ShowInventory,
    ShowDropItem,
    ShowTargeting { range: i32, item: usize },
}

/// The whole game: the entity store, the map, the log, the machine's
/// current phase, and which entity is the player.
pub struct State {
    pub world: crate::world::World,
    pub map: crate::game_map::GameMap,
    pub log: crate::gamelog::GameLog,
    pub run_state: RunState,
    pub player: usize,
    pub player_pos: crate::components::Point,
}

/// What the waiting states consume: a decoded command, a menu answer, or a
/// chosen target point. `Nothing` stands for a frame without input.
#[derive(Clone, Copy, PartialEq, Eq, Structural, Debug)]
pub enum TickInput {
    Nothing,
    Command(PlayerCommand),
    MenuCancel,
    MenuSelect { item: usize },
    TargetSelect { point: Point },
}

/// The next run state, as the machine's transition table gives it: the
/// three pipeline states advance by themselves, the waiting states move on
/// what the input layer handed over.
pub open spec fn spec_tick_state(
    s: RunState,
    input: TickInput,
    w: crate::world::World,
    m: crate::game_map::GameMap,
) -> RunState {
    match s {
        RunState::PreRun => RunState::AwaitingInput,
        RunState::AwaitingInput => match input {
            TickInput::Command(c) => spec_command_state(c, w, m),
            _ => RunState::AwaitingInput,
        },
        RunState::PlayerTurn => RunState::MonsterTurn,
        RunState::MonsterTurn => RunState::AwaitingInput,
        RunState::ShowInventory => match input {
            TickInput::MenuCancel => RunState::AwaitingInput,
            TickInput::MenuSelect { item } => if 0 <= item < w.n() && w.ranged@[item as int] is Some {
                RunState::ShowTargeting { range: w.ranged@[item as int]->0.range, item }
            } else {
                RunState::PlayerTurn
            },
            _ => RunState::ShowInventory,
        },
        RunState::ShowDropItem => match input {
            TickInput::MenuCancel => RunState::AwaitingInput,
            TickInput::MenuSelect { .. } => RunState::PlayerTurn,
            _ => RunState::ShowDropItem,
        },
        RunState::ShowTargeting { range, item } => match input {
            TickInput::MenuCancel => RunState::AwaitingInput,
            TickInput::TargetSelect { .. } => RunState::PlayerTurn,
            _ => RunState::ShowTargeting { range, item },
        },
    }
}

/// Summed pending damage of entity `e`, zero when no accumulator exists.
pub open spec fn pending_damage(w: World, e: int) -> int {
    if w.suffer_damage@[e] is Some {
        crate::components::sum_of(w.suffer_damage@[e]->0.amounts@)
    } else {
        0
    }
}

pub open spec fn no_pickup_intents(w: World) -> bool {
    forall|b: int| 0 <= b < w.n() ==> (#[trigger] w.wants_to_pickup@[b]) is None
}

pub open spec fn no_drop_intents(w: World) -> bool {
    forall|b: int| 0 <= b < w.n() ==> (#[trigger] w.wants_to_drop@[b]) is None
}

pub open spec fn no_melee_intents(w: World) -> bool {
    forall|b: int| 0 <= b < w.n() ==> (#[trigger] w.wants_to_melee@[b]) is None
}

pub open spec fn no_pending_damage(w: World) -> bool {
    forall|b: int| 0 <= b < w.n() ==> (#[trigger] w.suffer_damage@[b]) is None
}

pub open spec fn none_doomed(w: World) -> bool {
    forall|b: int| 0 <= b < w.n() ==> !(#[trigger] w.doomed@[b])
}

/// What one use intent leaves once the whole pass is over, targeting
/// against the freshly rebuilt index `m`: every target but the used item
/// healed with the clamp and handed its queued damage, the consumed item
/// swept away, and exactly the use's log lines appended.
pub open spec fn pass_use_outcome(
    pre: World,
    m: crate::game_map::GameMap,
    post: World,
    pre_lines: Seq<Seq<char>>,
    post_lines: Seq<Seq<char>>,
    a: usize,
    u: WantsToUse,
    player: usize,
) -> bool {
    let targets = crate::inventory_system::spec_targets(pre, m, a, u);
    let heal = crate::inventory_system::item_heal(pre, u.item as int);
    let dmg = crate::inventory_system::item_damage(pre, u.item as int);
    &&& forall|e: int| 0 <= e < pre.n() && e != u.item ==> (#[trigger] post.combat_stats@[e])
        == (if heal is Some && targets.contains(e as usize) && pre.combat_stats@[e] is Some {
        Some(
            crate::inventory_system::healed_stats(
                pre.combat_stats@[e]->0,
                heal->0.heal_amount as int,
            ),
        )
    } else {
        pre.combat_stats@[e]
    })
    &&& forall|e: int| 0 <= e < pre.n() && e != u.item ==> if dmg is Some && targets.contains(
        e as usize,
    ) {
        &&& (#[trigger] post.suffer_damage@[e]) is Some
        &&& post.suffer_damage@[e]->0.amounts@ == crate::world::spec_damage_queue(
            pre.suffer_damage@[e],
            dmg->0.damage,
        )
    } else {
        (#[trigger] post.suffer_damage@[e]) == pre.suffer_damage@[e]
    }
    &&& (crate::inventory_system::use_consumed(pre, u) ==> !post.alive@[u.item as int])
    &&& (!crate::inventory_system::use_consumed(pre, u) && 0 <= u.item < pre.n()
        ==> post.alive@[u.item as int] == pre.alive@[u.item as int])
    &&& post_lines == pre_lines + crate::inventory_system::use_lines(pre, m, a, u, player)
}

impl State {
    pub open spec fn wf(self) -> bool {
        &&& self.world.wf()
        &&& self.map.wf()
        &&& self.player < self.world.n()
        &&& crate::player::single_player(self.world)
    }

    /// Builds a game in the pre-run state, ready for the first pipeline
    /// pass.
    pub fn new(
        world: crate::world::World,
        map: crate::game_map::GameMap,
        log: crate::gamelog::GameLog,
        player: usize,
        player_pos: Point,
    ) -> (s: State)
        requires
            world.wf(),
            map.wf(),
            player < world.n(),
            crate::player::single_player(world),
        ensures
            s.wf(),
            s.world == world,
            s.map == map,
            s.log == log,
            s.player == player,
            s.player_pos == player_pos,
            s.run_state == RunState::PreRun,
    {
        State { world, map, log, run_state: RunState::PreRun, player, player_pos }
    }

    /// One full pipeline pass, in fixed order: monster turn logic, map
    /// indexing, damage application, melee resolution, pickups, item use,
    /// drops, and the death sweep. Afterwards every intent storage is
    /// empty, every live fighter has positive hit points, and every live
    /// item is either on the map or in a backpack.
    pub fn run_systems(&mut self, paths: &Vec<Option<Point>>)
        requires
            old(self).wf(),
            old(self).world.settled(),
            paths@.len() == old(self).world.n(),
        ensures
            final(self).wf(),
            final(self).world.n() == old(self).world.n(),
            final(self).world.settled(),
            final(self).world.intents_clear(),
            old(self).world.items_placed() ==> final(self).world.items_placed(),
            final(self).run_state == old(self).run_state,
            final(self).player == old(self).player,
            final(self).player_pos == old(self).player_pos,
            final(self).map.width == old(self).map.width,
            final(self).map.height == old(self).map.height,
            final(self).map.tiles == old(self).map.tiles,
            final(self).map.rooms == old(self).map.rooms,
            old(self).log.view_lines().is_prefix_of(final(self).log.view_lines()),
            // with no pending use intents and no prior dooming, the pass
            // applies every queued damage sum and buries the lethal ones
            (crate::inventory_system::no_use_intents(old(self).world) && none_doomed(
                old(self).world,
            )) ==> forall|e: int|
                0 <= e < old(self).world.n() && old(self).world.alive@[e] && (
                #[trigger] old(self).world.combat_stats@[e]) is Some ==> {
                    let hp0 = old(self).world.combat_stats@[e]->0.hp as int;
                    let sd = pending_damage(old(self).world, e);
                    if hp0 - sd <= 0 {
                        !final(self).world.alive@[e] && final(self).world.combat_stats@[e] is None
                    } else {
                        final(self).world.alive@[e] && final(self).world.combat_stats@[e] == Some(
                            CombatStats {
                                hp: (hp0 - sd) as i32,
                                ..old(self).world.combat_stats@[e]->0
                            },
                        )
                    }
                },
            // with sane pickups and an otherwise quiet queue, every named
            // item ends the pass in its collector's backpack
            (crate::inventory_system::pickups_sane(old(self).world, old(self).player)
                && crate::inventory_system::no_use_intents(old(self).world) && no_drop_intents(
                old(self).world,
            ) && no_pending_damage(old(self).world) && none_doomed(old(self).world)) ==> forall|
                a: int,
            |
                0 <= a < old(self).world.n() && (
                #[trigger] old(self).world.wants_to_pickup@[a]) is Some ==> {
                    let i = old(self).world.wants_to_pickup@[a]->0;
                    &&& final(self).world.positions@[i.item as int] is None
                    &&& final(self).world.in_backpack@[i.item as int] == Some(
                        InBackpack { owner: i.collected_by },
                    )
                },
            // a single pending use intent on an otherwise quiet non-monster
            // pass is resolved exactly, the consumed item swept away
            forall|a: int| (#[trigger] crate::inventory_system::single_intent_at(
                old(self).world,
                a,
            ) && no_pickup_intents(old(self).world) && no_drop_intents(old(self).world)
                && no_melee_intents(old(self).world) && no_pending_damage(old(self).world)
                && none_doomed(old(self).world) && old(self).run_state != RunState::MonsterTurn)
                ==> pass_use_outcome(
                old(self).world,
                final(self).map,
                final(self).world,
                old(self).log.view_lines(),
                final(self).log.view_lines(),
                a as usize,
                old(self).world.wants_to_use@[a]->0,
                old(self).player,
            ),
    {
        let ghost s0 = *old(self);
        let rs = self.run_state;
        MonsterAI::run(
            &mut self.world,
            &mut self.map,
            self.player,
            self.player_pos,
            rs,
            paths,
        );
        proof {
            assert(self.world.settled());
            assert(s0.world.items_placed() ==> self.world.items_placed()) by {
                if s0.world.items_placed() {
                    assert forall|e: int|
                        0 <= e < self.world.n() && self.world.alive@[e] && self.world.items@[e]
                            implies ((#[trigger] self.world.positions@[e]) is Some) != (
                        self.world.in_backpack@[e] is Some) by {
                        if rs == RunState::MonsterTurn {
                            assert(self.world.positions@[e] is Some
                                == s0.world.positions@[e] is Some);
                        }
                    }
                }
            }
            assert(crate::player::single_player(self.world));
        }
        let ghost sa = *self;
        MapIndexingSystem::run(&mut self.map, &self.world);
        proof {
            lemma_map_indexed_tile_lists(self.map, self.world);
        }
        DamageSystem::run(&mut self.world);
        proof {
            assert(crate::inventory_system::tile_lists_wf(self.map, self.world.n()));
        }
        let ghost sd = *self;
        MeleeCombatSystem::run(&mut self.world);
        let ghost sm = *self;
        InventoryCollectionSystem::run(&mut self.world, &mut self.log, self.player);
        let ghost sp = *self;
        ItemUseSystem::run(&mut self.world, &self.map, &mut self.log, self.player);
        let ghost su = *self;
        ItemDropSystem::run(&mut self.world, &mut self.log, self.player);
        let ghost s7 = *self;
        DamageSystem::delete_the_dead(&mut self.world);
        proof {
            // the late systems leave the earlier clears in place
            assert forall|e: int| 0 <= e < self.world.n() implies (
            #[trigger] self.world.wants_to_pickup@[e]) is None by {
                if !crate::damage_system::doomed_or_dead(s7.world, e) {
                    assert(self.world.wants_to_pickup@[e] == s7.world.wants_to_pickup@[e]);
                }
            }
            assert forall|e: int| 0 <= e < self.world.n() implies (
            #[trigger] self.world.wants_to_use@[e]) is None by {
                if !crate::damage_system::doomed_or_dead(s7.world, e) {
                    assert(self.world.wants_to_use@[e] == s7.world.wants_to_use@[e]);
                }
            }
            assert forall|e: int| 0 <= e < self.world.n() implies (
            #[trigger] self.world.wants_to_drop@[e]) is None by {
                if !crate::damage_system::doomed_or_dead(s7.world, e) {
                    assert(self.world.wants_to_drop@[e] == s7.world.wants_to_drop@[e]);
                }
            }
            assert forall|e: int| 0 <= e < self.world.n() implies (
            #[trigger] self.world.wants_to_melee@[e]) is None by {
                if !crate::damage_system::doomed_or_dead(s7.world, e) {
                    assert(self.world.wants_to_melee@[e] == s7.world.wants_to_melee@[e]);
                }
            }
            // the player tag only ever disappears, so it stays unique
            assert(crate::player::single_player(self.world)) by {
                assert(s7.world.players@ == s0.world.players@);
                assert forall|p1: int, p2: int|
                    0 <= p1 < self.world.n() && 0 <= p2 < self.world.n()
                        && #[trigger] self.world.players@[p1]
                        && #[trigger] self.world.players@[p2] implies p1 == p2 by {
                    if !crate::damage_system::doomed_or_dead(s7.world, p1) && !crate::damage_system::doomed_or_dead(
                        s7.world,
                        p2,
                    ) {
                        assert(s7.world.players@[p1] && s7.world.players@[p2]);
                    }
                }
            }

            // ---- pipeline effects under the quiet-pass premises ----
            // the use stage saw the entry intents: nothing before it
            // touches the use storage
            assert(sp.world.wants_to_use@ == s0.world.wants_to_use@);
            if crate::inventory_system::no_use_intents(s0.world) {
                assert(crate::inventory_system::no_use_intents(sp.world)) by {
                    assert forall|b: int| 0 <= b < sp.world.n() implies (
                    #[trigger] sp.world.wants_to_use@[b]) is None by {
                        assert(s0.world.wants_to_use@[b] is None);
                    }
                }
            }
            if crate::inventory_system::no_use_intents(s0.world) && none_doomed(s0.world) {
                assert forall|e: int|
                    0 <= e < s0.world.n() && s0.world.alive@[e] && (
                #[trigger] s0.world.combat_stats@[e]) is Some implies {
                    let hp0 = s0.world.combat_stats@[e]->0.hp as int;
                    let sd2 = pending_damage(s0.world, e);
                    if hp0 - sd2 <= 0 {
                        !self.world.alive@[e] && self.world.combat_stats@[e] is None
                    } else {
                        self.world.alive@[e] && self.world.combat_stats@[e] == Some(
                            CombatStats { hp: (hp0 - sd2) as i32, ..s0.world.combat_stats@[e]->0 },
                        )
                    }
                } by {
                    let hp0 = s0.world.combat_stats@[e]->0.hp as int;
                    let sd2 = pending_damage(s0.world, e);
                    assert(sa.world.combat_stats@[e] == s0.world.combat_stats@[e]);
                    assert(sa.world.suffer_damage@[e] == s0.world.suffer_damage@[e]);
                    assert(sa.world.alive@[e] == s0.world.alive@[e]);
                    assert(sm.world.combat_stats@[e] == sd.world.combat_stats@[e]);
                    assert(sp.world.combat_stats@[e] == sm.world.combat_stats@[e]);
                    assert(su.world.combat_stats@[e] == sp.world.combat_stats@[e]);
                    assert(s7.world.combat_stats@[e] == su.world.combat_stats@[e]);
                    assert(su.world.doomed@[e] == sp.world.doomed@[e]);
                    assert(s7.world.doomed@[e] == s0.world.doomed@[e]);
                    assert(!s7.world.doomed@[e]);
                    assert(s7.world.alive@[e] == s0.world.alive@[e]);
                    if s0.world.suffer_damage@[e] is Some {
                        assert(crate::components::suffer_wf(s0.world.suffer_damage@[e]->0));
                        crate::components::lemma_sum_of_bounds(
                            s0.world.suffer_damage@[e]->0.amounts@,
                        );
                    }
                    assert(0 <= sd2 <= 6_400_000);
                    assert(s7.world.combat_stats@[e] == Some(
                        CombatStats { hp: (hp0 - sd2) as i32, ..s0.world.combat_stats@[e]->0 },
                    ));
                    if hp0 - sd2 <= 0 {
                        assert(crate::damage_system::doomed_or_dead(s7.world, e));
                    } else {
                        assert(!crate::damage_system::doomed_or_dead(s7.world, e));
                    }
                }
            }
            if crate::inventory_system::pickups_sane(s0.world, s0.player)
                && crate::inventory_system::no_use_intents(s0.world) && no_drop_intents(s0.world)
                && no_pending_damage(s0.world) && none_doomed(s0.world) {
                assert(sm.world.wants_to_pickup@ == s0.world.wants_to_pickup@);
                assert(crate::inventory_system::pickups_sane(sm.world, s0.player)) by {
                    assert forall|b: int|
                        0 <= b < sm.world.n() && (
                    #[trigger] sm.world.wants_to_pickup@[b]) is Some implies {
                        let i = sm.world.wants_to_pickup@[b]->0;
                        &&& 0 <= i.item < sm.world.n()
                        &&& sm.world.positions@[i.item as int] is Some
                        &&& (i.collected_by == s0.player ==> sm.world.names@[i.item as int] is Some)
                    } by {
                        let i = s0.world.wants_to_pickup@[b]->0;
                        assert(s0.world.wants_to_pickup@[b] is Some);
                        assert(sm.world.positions@[i.item as int] == sa.world.positions@[i.item as int]);
                        if rs == RunState::MonsterTurn {
                            assert(sa.world.positions@[i.item as int] is Some);
                        } else {
                            assert(sa.world == s0.world);
                        }
                        assert(sm.world.names@[i.item as int] == s0.world.names@[i.item as int]);
                    }
                    assert forall|a1: int, a2: int|
                        0 <= a1 < sm.world.n() && 0 <= a2 < sm.world.n() && a1 != a2 && (
                    #[trigger] sm.world.wants_to_pickup@[a1]) is Some && (
                    #[trigger] sm.world.wants_to_pickup@[a2]) is Some implies sm.world.wants_to_pickup@[a1]->0.item
                        != sm.world.wants_to_pickup@[a2]->0.item by {
                        assert(s0.world.wants_to_pickup@[a1] is Some
                            && s0.world.wants_to_pickup@[a2] is Some);
                    }
                }
                assert forall|a2: int|
                    0 <= a2 < s0.world.n() && (
                #[trigger] s0.world.wants_to_pickup@[a2]) is Some implies {
                    let i = s0.world.wants_to_pickup@[a2]->0;
                    &&& self.world.positions@[i.item as int] is None
                    &&& self.world.in_backpack@[i.item as int] == Some(
                        InBackpack { owner: i.collected_by },
                    )
                } by {
                    let i = s0.world.wants_to_pickup@[a2]->0;
                    assert(sm.world.wants_to_pickup@[a2] is Some);
                    assert(sm.world.wants_to_pickup@[a2]->0 == i);
                    assert(sp.world.positions@[i.item as int] is None);
                    assert(sp.world.in_backpack@[i.item as int] == Some(
                        InBackpack { owner: i.collected_by },
                    ));
                    assert(su.world.positions@[i.item as int] == sp.world.positions@[i.item as int]);
                    assert(su.world.in_backpack@[i.item as int] == sp.world.in_backpack@[i.item as int]);
                    assert(!crate::inventory_system::dropped_upto(
                        su.world,
                        i.item as int,
                        su.world.n(),
                    )) by {
                        if crate::inventory_system::dropped_upto(
                            su.world,
                            i.item as int,
                            su.world.n(),
                        ) {
                            let b = choose|b: int|
                                0 <= b < su.world.n() && (
                                #[trigger] su.world.wants_to_drop@[b]) is Some
                                    && su.world.wants_to_drop@[b]->0.item == i.item as int;
                            assert(s0.world.wants_to_drop@[b] is Some);
                            assert(false);
                        }
                    }
                    assert(s7.world.positions@[i.item as int] == su.world.positions@[i.item as int]);
                    assert(s7.world.in_backpack@[i.item as int]
                        == su.world.in_backpack@[i.item as int]);
                    assert(!crate::damage_system::doomed_or_dead(s7.world, i.item as int)) by {
                        assert(su.world.doomed@[i.item as int] == sp.world.doomed@[i.item as int]);
                        assert(s7.world.doomed@[i.item as int] == s0.world.doomed@[i.item as int]);
                        if s7.world.alive@[i.item as int] && s7.world.combat_stats@[i.item as int] is Some {
                            assert(sa.world.suffer_damage@[i.item as int] is None);
                            assert(sd.world.combat_stats@[i.item as int]
                                == sa.world.combat_stats@[i.item as int]);
                            assert(sp.world.combat_stats@[i.item as int]
                                == sd.world.combat_stats@[i.item as int]);
                            assert(su.world.combat_stats@[i.item as int]
                                == sp.world.combat_stats@[i.item as int]);
                            assert(s7.world.combat_stats@[i.item as int]
                                == s0.world.combat_stats@[i.item as int]);
                            assert(s7.world.alive@[i.item as int] == s0.world.alive@[i.item as int]);
                            assert(s7.world.combat_stats@[i.item as int]->0.hp >= 1);
                        }
                    }
                }
            }
            assert forall|a2: int| (#[trigger] crate::inventory_system::single_intent_at(
                s0.world,
                a2,
            ) && no_pickup_intents(s0.world) && no_drop_intents(s0.world) && no_melee_intents(
                s0.world,
            ) && no_pending_damage(s0.world) && none_doomed(s0.world) && s0.run_state
                != RunState::MonsterTurn) implies pass_use_outcome(
                s0.world,
                self.map,
                self.world,
                s0.log.view_lines(),
                self.log.view_lines(),
                a2 as usize,
                s0.world.wants_to_use@[a2]->0,
                s0.player,
            ) by {
                reveal(crate::inventory_system::single_intent_at);
                reveal(crate::inventory_system::use_outcome);
                let u = s0.world.wants_to_use@[a2]->0;
                let n0 = s0.world.n();
                // the monster turn logic did not run
                assert(sa.world == s0.world);
                assert(sa.map == s0.map);
                // the damage stage was identity on stats; queues stay empty
                assert forall|e: int| 0 <= e < n0 implies (#[trigger] sd.world.combat_stats@[e])
                    == s0.world.combat_stats@[e] by {
                    assert(sa.world.suffer_damage@[e] is None);
                }
                assert(sd.world.combat_stats@ =~= s0.world.combat_stats@);
                // melee had no intents and queued nothing
                assert forall|e: int| 0 <= e < n0 implies (
                #[trigger] sm.world.suffer_damage@[e]) is None by {
                    if sm.world.suffer_damage@[e] is Some {
                        assert(!(sd.world.suffer_damage@[e] is Some));
                        assert(crate::damage_system::melee_touched_upto(sd.world, n0 as int, e));
                        let b = choose|b: int|
                            0 <= b < n0 && (#[trigger] crate::damage_system::melee_hit(
                                sd.world,
                                b,
                            )) is Some && crate::damage_system::melee_hit(sd.world, b)->0.target
                                == e;
                        assert(sd.world.wants_to_melee@[b] is Some);
                        assert(s0.world.wants_to_melee@[b] is Some);
                        assert(false);
                    }
                }
                assert(sm.world.suffer_damage@ =~= s0.world.suffer_damage@);
                assert(sm.world.combat_stats@ == sd.world.combat_stats@);
                // the pickup stage had nothing to do
                assert forall|b: int| 0 <= b < n0 implies (
                #[trigger] sm.world.wants_to_pickup@[b]) is None by {
                    assert(s0.world.wants_to_pickup@[b] is None);
                }
                assert(sp.world.positions@ == sm.world.positions@);
                assert(sp.log == sm.log);
                assert(sp.log.view_lines() == s0.log.view_lines());
                // the single intent reaches the use stage intact
                assert(crate::inventory_system::single_intent_at(sp.world, a2)) by {
                    assert(sp.world.wants_to_use@[a2] is Some);
                    assert forall|b: int| 0 <= b < sp.world.n() && b != a2 implies (
                    #[trigger] sp.world.wants_to_use@[b]) is None by {
                        assert(s0.world.wants_to_use@[b] is None);
                    }
                }
                assert(crate::inventory_system::use_outcome(
                    sp.world,
                    su.world.combat_stats@,
                    su.world.suffer_damage@,
                    su.world.doomed@,
                    sp.log.view_lines(),
                    su.log.view_lines(),
                    self.map,
                    a2 as usize,
                    sp.world.wants_to_use@[a2]->0,
                    s0.player,
                ));
                // rebase the outcome onto the entry state
                assert(sp.world.combat_stats@ == sd.world.combat_stats@);
                assert(sp.world.combat_stats@ == s0.world.combat_stats@);
                assert(sp.world.suffer_damage@ == sm.world.suffer_damage@);
                assert(sp.world.suffer_damage@ == s0.world.suffer_damage@);
                assert(sp.world.doomed@ == s0.world.doomed@);
                assert(sp.world.names@ == s0.world.names@);
                assert(sp.world.provides_healing@ == s0.world.provides_healing@);
                assert(sp.world.inflict_damage@ == s0.world.inflict_damage@);
                assert(sp.world.consumables@ == s0.world.consumables@);
                assert(sp.world.area_of_effect@ == s0.world.area_of_effect@);
                crate::inventory_system::lemma_use_outcome_same_pre(
                    sp.world,
                    s0.world,
                    su.world.combat_stats@,
                    su.world.suffer_damage@,
                    su.world.doomed@,
                    sp.log.view_lines(),
                    su.log.view_lines(),
                    self.map,
                    a2 as usize,
                    u,
                    s0.player,
                );
                // the drop stage had nothing to do
                assert forall|b: int| 0 <= b < n0 implies (
                #[trigger] su.world.wants_to_drop@[b]) is None by {
                    assert(s0.world.wants_to_drop@[b] is None);
                }
                assert(s7.world.combat_stats@ == su.world.combat_stats@);
                assert(s7.world.suffer_damage@ == su.world.suffer_damage@);
                assert(s7.world.doomed@ == su.world.doomed@);
                assert(s7.world.alive@ == s0.world.alive@);
                assert(s7.log == su.log);
                // the sweep removes at most the consumed item: hit points
                // only ever rose on this pass
                assert forall|e: int| 0 <= e < n0 && e != u.item implies !crate::damage_system::doomed_or_dead(
                    s7.world,
                    e,
                ) by {
                    assert(s7.world.doomed@[e] == (sp.world.doomed@[e] || (e == u.item
                        && crate::inventory_system::use_consumed(sp.world, u))));
                    assert(!s7.world.doomed@[e]);
                    if s7.world.alive@[e] && s7.world.combat_stats@[e] is Some {
                        let heal = crate::inventory_system::item_heal(s0.world, u.item as int);
                        if heal is Some && crate::inventory_system::spec_targets(
                            s0.world,
                            self.map,
                            a2 as usize,
                            u,
                        ).contains(e as usize) && s0.world.combat_stats@[e] is Some {
                            assert(crate::components::stats_wf(s0.world.combat_stats@[e]->0));
                            assert(crate::components::healing_wf(heal->0));
                            assert(s0.world.combat_stats@[e]->0.hp >= 1);
                            assert(s7.world.combat_stats@[e]->0.hp >= 1);
                        } else {
                            assert(s7.world.combat_stats@[e] == s0.world.combat_stats@[e]);
                            assert(s7.world.combat_stats@[e]->0.hp >= 1);
                        }
                    }
                }
                // the per-entity conclusions
                assert forall|e: int| 0 <= e < n0 && e != u.item implies (
                #[trigger] self.world.combat_stats@[e]) == su.world.combat_stats@[e]
                    && self.world.suffer_damage@[e] == su.world.suffer_damage@[e] by {
                    assert(!crate::damage_system::doomed_or_dead(s7.world, e));
                }
                // the used item's fate
                if crate::inventory_system::use_consumed(s0.world, u) {
                    assert(crate::inventory_system::use_consumed(sp.world, u));
                    assert(s7.world.doomed@[u.item as int]);
                    if s7.world.alive@[u.item as int] {
                        assert(crate::damage_system::doomed_or_dead(s7.world, u.item as int));
                        assert(!self.world.alive@[u.item as int]);
                    } else {
                        assert(!crate::damage_system::doomed_or_dead(s7.world, u.item as int));
                        assert(!self.world.alive@[u.item as int]);
                    }
                } else {
                    if 0 <= u.item < n0 {
                        assert(!crate::inventory_system::use_consumed(sp.world, u));
                        assert(!s7.world.doomed@[u.item as int]);
                        if s7.world.alive@[u.item as int] && s7.world.combat_stats@[u.item as int] is Some {
                            let heal = crate::inventory_system::item_heal(s0.world, u.item as int);
                            if heal is Some && crate::inventory_system::spec_targets(
                                s0.world,
                                self.map,
                                a2 as usize,
                                u,
                            ).contains(u.item) && s0.world.combat_stats@[u.item as int] is Some {
                                assert(crate::components::stats_wf(
                                    s0.world.combat_stats@[u.item as int]->0,
                                ));
                                assert(crate::components::healing_wf(heal->0));
                                assert(s7.world.combat_stats@[u.item as int]->0.hp >= 1);
                            } else {
                                assert(s7.world.combat_stats@[u.item as int]
                                    == s0.world.combat_stats@[u.item as int]);
                                assert(s7.world.combat_stats@[u.item as int]->0.hp >= 1);
                            }
                        }
                        assert(!crate::damage_system::doomed_or_dead(s7.world, u.item as int));
                        assert(self.world.alive@[u.item as int] == s0.world.alive@[u.item as int]);
                    }
                }
                // the log is exactly the use's lines
                assert(self.log.view_lines() == s0.log.view_lines()
                    + crate::inventory_system::use_lines(
                    s0.world,
                    self.map,
                    a2 as usize,
                    u,
                    s0.player,
                ));
                let targets = crate::inventory_system::spec_targets(
                    s0.world,
                    self.map,
                    a2 as usize,
                    u,
                );
                let heal = crate::inventory_system::item_heal(s0.world, u.item as int);
                let dmg = crate::inventory_system::item_damage(s0.world, u.item as int);
                assert forall|e: int| 0 <= e < n0 && e != u.item implies (
                #[trigger] self.world.combat_stats@[e]) == (if heal is Some && targets.contains(
                    e as usize,
                ) && s0.world.combat_stats@[e] is Some {
                    Some(
                        crate::inventory_system::healed_stats(
                            s0.world.combat_stats@[e]->0,
                            heal->0.heal_amount as int,
                        ),
                    )
                } else {
                    s0.world.combat_stats@[e]
                }) by {
                    assert(su.world.combat_stats@[e] == (if heal is Some && targets.contains(
                        e as usize,
                    ) && s0.world.combat_stats@[e] is Some {
                        Some(
                            crate::inventory_system::healed_stats(
                                s0.world.combat_stats@[e]->0,
                                heal->0.heal_amount as int,
                            ),
                        )
                    } else {
                        s0.world.combat_stats@[e]
                    }));
                    assert(self.world.combat_stats@[e] == su.world.combat_stats@[e]);
                }
                assert forall|e: int| 0 <= e < n0 && e != u.item implies (if dmg is Some
                    && targets.contains(e as usize) {
                    &&& (#[trigger] self.world.suffer_damage@[e]) is Some
                    &&& self.world.suffer_damage@[e]->0.amounts@ == crate::world::spec_damage_queue(
                        s0.world.suffer_damage@[e],
                        dmg->0.damage,
                    )
                } else {
                    (#[trigger] self.world.suffer_damage@[e]) == s0.world.suffer_damage@[e]
                }) by {
                    assert(if dmg is Some && targets.contains(e as usize) {
                        &&& su.world.suffer_damage@[e] is Some
                        &&& su.world.suffer_damage@[e]->0.amounts@
                            == crate::world::spec_damage_queue(
                            s0.world.suffer_damage@[e],
                            dmg->0.damage,
                        )
                    } else {
                        su.world.suffer_damage@[e] == s0.world.suffer_damage@[e]
                    });
                    assert(!crate::damage_system::doomed_or_dead(s7.world, e));
                    assert(self.world.suffer_damage@[e] == su.world.suffer_damage@[e]);
                }
            }
        }
    }

    /// One frame of the machine: a pipeline state runs the full pipeline
    /// and advances; a waiting state consumes the frame's input, possibly
    /// queueing an intent on the player.
    pub fn tick(&mut self, input: TickInput, paths: &Vec<Option<Point>>)
        requires
            old(self).wf(),
            old(self).world.settled(),
            paths@.len() == old(self).world.n(),
        ensures
            final(self).wf(),
            old(self).world.settled() ==> final(self).world.settled(),
            final(self).player == old(self).player,
            final(self).run_state == spec_tick_state(
                old(self).run_state,
                input,
                old(self).world,
                old(self).map,
            ),
            old(self).log.view_lines().is_prefix_of(final(self).log.view_lines()),
            // a pipeline pass ends with every intent storage empty
            (old(self).run_state == RunState::PreRun || old(self).run_state
                == RunState::PlayerTurn || old(self).run_state == RunState::MonsterTurn) ==> {
                &&& final(self).world.intents_clear()
                &&& old(self).world.items_placed() ==> final(self).world.items_placed()
            },
            // a pipeline pass applies queued damage and buries the lethal
            ((old(self).run_state == RunState::PreRun || old(self).run_state
                == RunState::PlayerTurn || old(self).run_state == RunState::MonsterTurn)
                && crate::inventory_system::no_use_intents(old(self).world) && none_doomed(
                old(self).world,
            )) ==> forall|e: int|
                0 <= e < old(self).world.n() && old(self).world.alive@[e] && (
                #[trigger] old(self).world.combat_stats@[e]) is Some ==> {
                    let hp0 = old(self).world.combat_stats@[e]->0.hp as int;
                    let sd = pending_damage(old(self).world, e);
                    if hp0 - sd <= 0 {
                        !final(self).world.alive@[e] && final(self).world.combat_stats@[e] is None
                    } else {
                        final(self).world.alive@[e] && final(self).world.combat_stats@[e] == Some(
                            CombatStats {
                                hp: (hp0 - sd) as i32,
                                ..old(self).world.combat_stats@[e]->0
                            },
                        )
                    }
                },
            // a pipeline pass lands every sane pending pickup
            ((old(self).run_state == RunState::PreRun || old(self).run_state
                == RunState::PlayerTurn || old(self).run_state == RunState::MonsterTurn)
                && crate::inventory_system::pickups_sane(old(self).world, old(self).player)
                && crate::inventory_system::no_use_intents(old(self).world) && no_drop_intents(
                old(self).world,
            ) && no_pending_damage(old(self).world) && none_doomed(old(self).world)) ==> forall|
                a: int,
            |
                0 <= a < old(self).world.n() && (
                #[trigger] old(self).world.wants_to_pickup@[a]) is Some ==> {
                    let i = old(self).world.wants_to_pickup@[a]->0;
                    &&& final(self).world.positions@[i.item as int] is None
                    &&& final(self).world.in_backpack@[i.item as int] == Some(
                        InBackpack { owner: i.collected_by },
                    )
                },
            // a pipeline pass resolves a single quiet use intent exactly
            forall|a: int| ((old(self).run_state == RunState::PreRun || old(self).run_state
                == RunState::PlayerTurn) && #[trigger] crate::inventory_system::single_intent_at(
                old(self).world,
                a,
            ) && no_pickup_intents(old(self).world) && no_drop_intents(old(self).world)
                && no_melee_intents(old(self).world) && no_pending_damage(old(self).world)
                && none_doomed(old(self).world)) ==> pass_use_outcome(
                old(self).world,
                final(self).map,
                final(self).world,
                old(self).log.view_lines(),
                final(self).log.view_lines(),
                a as usize,
                old(self).world.wants_to_use@[a]->0,
                old(self).player,
            ),
            // a command consumed while awaiting input has its decoded effect
            ((old(self).run_state == RunState::AwaitingInput && (input
                matches TickInput::Command(c))) && ((input->Command_0)
                matches PlayerCommand::Move { delta_x, delta_y }) && -1
                <= input->Command_0->Move_delta_x <= 1 && -1 <= input->Command_0->Move_delta_y
                <= 1) ==> move_outcome(
                old(self).world,
                final(self).world,
                old(self).map,
                old(self).player_pos,
                final(self).player_pos,
                input->Command_0->Move_delta_x as int,
                input->Command_0->Move_delta_y as int,
            ),
            (old(self).run_state == RunState::AwaitingInput && input == TickInput::Command(
                PlayerCommand::Grab,
            )) ==> grab_outcome(
                old(self).world,
                final(self).world,
                old(self).log.view_lines(),
                final(self).log.view_lines(),
                old(self).player,
                old(self).player_pos,
            ),
            // selecting a non-ranged item queues a self-targeted use
            (old(self).run_state == RunState::ShowInventory && (input matches TickInput::MenuSelect {
                item,
            } && !(0 <= item < old(self).world.n() && old(self).world.ranged@[item as int] is Some)))
                ==> final(self).world.wants_to_use@ == old(self).world.wants_to_use@.update(
                old(self).player as int,
                Some(WantsToUse { item: input->MenuSelect_item, target: None }),
            ),
            // confirming a drop queues a drop intent
            (old(self).run_state == RunState::ShowDropItem && (input matches TickInput::MenuSelect {
                item,
            })) ==> final(self).world.wants_to_drop@ == old(self).world.wants_to_drop@.update(
                old(self).player as int,
                Some(WantsToDrop { item: input->MenuSelect_item }),
            ),
            // confirming a target queues a targeted use of the chosen item
            ((old(self).run_state matches RunState::ShowTargeting { range, item })
                && (input matches TickInput::TargetSelect { point }))
                ==> final(self).world.wants_to_use@ == old(self).world.wants_to_use@.update(
                old(self).player as int,
                Some(
                    WantsToUse {
                        item: old(self).run_state->ShowTargeting_item,
                        target: Some(input->TargetSelect_point),
                    },
                ),
            ),
            // waiting states leave the world alone unless they queue an intent
            (old(self).run_state == RunState::ShowInventory && (input == TickInput::Nothing
                || input == TickInput::MenuCancel)) ==> final(self).world == old(self).world,
            // selecting a ranged item only opens targeting: no intent yet
            (old(self).run_state == RunState::ShowInventory && (input matches TickInput::MenuSelect {
                item,
            } && 0 <= item < old(self).world.n() && old(self).world.ranged@[item as int] is Some))
                ==> final(self).world == old(self).world && final(self).log == old(self).log,
            (old(self).run_state == RunState::ShowDropItem && (input == TickInput::Nothing
                || input == TickInput::MenuCancel)) ==> final(self).world == old(self).world,
            ((old(self).run_state matches RunState::ShowTargeting { range, item }) && (input
                == TickInput::Nothing || input == TickInput::MenuCancel)) ==> final(self).world
                == old(self).world,
            (old(self).run_state == RunState::AwaitingInput && !(input matches TickInput::Command(
                c,
            ))) ==> final(self).world == old(self).world,
    {
        let rs = self.run_state;
        match rs {
            RunState::PreRun => {
                self.run_systems(paths);
                self.run_state = RunState::AwaitingInput;
            },
            RunState::AwaitingInput => {
                match input {
                    TickInput::Command(c) => {
                        let next = player_input(self, c);
                        self.run_state = next;
                    },
                    _ => {
                        self.run_state = RunState::AwaitingInput;
                    },
                }
            },
            RunState::PlayerTurn => {
                self.run_systems(paths);
                self.run_state = RunState::MonsterTurn;
            },
            RunState::MonsterTurn => {
                self.run_systems(paths);
                self.run_state = RunState::AwaitingInput;
            },
            RunState::ShowInventory => {
                match input {
                    TickInput::MenuCancel => {
                        self.run_state = RunState::AwaitingInput;
                    },
                    TickInput::MenuSelect { item } => {
                        let mut ranged_range: Option<i32> = None;
                        if item < self.world.alive.len() {
                            if let Some(r) = self.world.ranged[item] {
                                ranged_range = Some(r.range);
                            }
                        }
                        match ranged_range {
                            Some(range) => {
                                self.run_state = RunState::ShowTargeting { range, item };
                            },
                            None => {
                                let player = self.player;
                                self.world.wants_to_use[player] = Some(
                                    WantsToUse { item, target: None },
                                );
                                self.run_state = RunState::PlayerTurn;
                            },
                        }
                    },
                    _ => {},
                }
            },
            RunState::ShowDropItem => {
                match input {
                    TickInput::MenuCancel => {
                        self.run_state = RunState::AwaitingInput;
                    },
                    TickInput::MenuSelect { item } => {
                        let player = self.player;
                        self.world.wants_to_drop[player] = Some(WantsToDrop { item });
                        self.run_state = RunState::PlayerTurn;
                    },
                    _ => {},
                }
            },
            RunState::ShowTargeting { range: _, item } => {
                match input {
                    TickInput::MenuCancel => {
                        self.run_state = RunState::AwaitingInput;
                    },
                    TickInput::TargetSelect { point } => {
                        let player = self.player;
                        self.world.wants_to_use[player] = Some(
                            WantsToUse { item, target: Some(point) },
                        );
                        self.run_state = RunState::PlayerTurn;
                    },
                    _ => {},
                }
            },
        }
    }
}

} // verus!
