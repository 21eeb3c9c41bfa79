//! Player actions: movement with melee-on-bump, picking an item off the
//! floor, and turning input-layer commands into intents and run states.

use vstd::prelude::*;
use crate::components::{
    AreaOfEffect, InflictDamage, Point, Position, ProvidesHealing, WantsToMelee,
    WantsToPickupItem,
};
use crate::game_map::GameMap;
use crate::gamelog::{nothing_here_line, spec_nothing_here_line, GameLog};
use crate::state::{RunState, State};
use crate::world::World;

verus! {

/// At most one entity carries the player tag.
pub open spec fn single_player(w: World) -> bool {
    forall|p1: int, p2: int|
        0 <= p1 < w.n() && 0 <= p2 < w.n() && #[trigger] w.players@[p1] && #[trigger] w.players@[p2]
            ==> p1 == p2
}

/// The last entity with combat stats among the first `k` of a tile list:
/// the one a bump attack strikes, since later intent writes overwrite
/// earlier ones.
pub open spec fn last_combat_target(w: World, list: Seq<usize>, k: int) -> Option<usize>
    decreases k,
{
    if k <= 0 {
        None
    } else {
        let t = list[k - 1];
        if 0 <= t < w.n() && w.combat_stats@[t as int] is Some {
            Some(t)
        } else {
            last_combat_target(w, list, k - 1)
        }
    }
}

/// The single player can make this movement attempt do something: they
/// are live, placed and seeing, the destination tile is on the map, and it
/// either holds a fighter to strike or is not blocked.
pub open spec fn move_acts(w: World, m: GameMap, dx: int, dy: int) -> bool {
    move_acts_upto(w, m, dx, dy, w.n())
}

/// `move_acts`, restricted to candidate players among the first `k`
/// entities.
pub open spec fn move_acts_upto(w: World, m: GameMap, dx: int, dy: int, k: int) -> bool {
    exists|p: int|
        0 <= p < k && #[trigger] w.players@[p] && w.alive@[p] && w.positions@[p] is Some
            && w.viewsheds@[p] is Some && {
            let nx = w.positions@[p]->0.x + dx;
            let ny = w.positions@[p]->0.y + dy;
            &&& m.spec_in_bounds(nx, ny)
            &&& {
                let tile = m.tile_content@[m.idx_of(nx, ny)]@;
                last_combat_target(w, tile, tile.len() as int) is Some || !m.blocked@[m.idx_of(
                    nx,
                    ny,
                )]
            }
        }
}

/// Everything one movement attempt does, relating the store, the player
/// position resource and nothing else: the qualified player strikes the
/// last fighter on the destination tile and steps onto it when unblocked,
/// with its viewshed marked dirty; everyone and everything else is
/// untouched.
pub open spec fn move_outcome(
    pre: World,
    post: World,
    m: GameMap,
    pre_pos: Point,
    post_pos: Point,
    delta_x: int,
    delta_y: int,
) -> bool {
    &&& forall|p: int|
        0 <= p < pre.n() && #[trigger] pre.players@[p] && pre.alive@[p] && pre.positions@[p] is Some
            && pre.viewsheds@[p] is Some ==> {
            let px = pre.positions@[p]->0.x as int;
            let py = pre.positions@[p]->0.y as int;
            let dx = px + delta_x;
            let dy = py + delta_y;
            if m.spec_in_bounds(dx, dy) {
                let tile = m.tile_content@[m.idx_of(dx, dy)]@;
                &&& post.wants_to_melee@[p] == (match last_combat_target(
                    pre,
                    tile,
                    tile.len() as int,
                ) {
                    Some(t) => Some(WantsToMelee { target: t }),
                    None => pre.wants_to_melee@[p],
                })
                &&& if !m.blocked@[m.idx_of(dx, dy)] {
                    &&& post.positions@[p] == Some(Position { x: dx as i32, y: dy as i32 })
                    &&& post_pos.x == dx && post_pos.y == dy
                    &&& post.viewsheds@[p] is Some
                    &&& post.viewsheds@[p]->0.visible_tiles@ == pre.viewsheds@[p]->0.visible_tiles@
                    &&& post.viewsheds@[p]->0.range == pre.viewsheds@[p]->0.range
                    &&& post.viewsheds@[p]->0.dirty
                } else {
                    &&& post.positions@[p] == pre.positions@[p]
                    &&& post.viewsheds@[p] == pre.viewsheds@[p]
                    &&& post_pos == pre_pos
                }
            } else {
                &&& post.wants_to_melee@[p] == pre.wants_to_melee@[p]
                &&& post.positions@[p] == pre.positions@[p]
                &&& post.viewsheds@[p] == pre.viewsheds@[p]
                &&& post_pos == pre_pos
            }
        }
    &&& (forall|j: int| 0 <= j < pre.n() ==> !(#[trigger] pre.players@[j] && pre.alive@[j]
        && pre.positions@[j] is Some && pre.viewsheds@[j] is Some && {
        let px = pre.positions@[j]->0.x as int;
        let py = pre.positions@[j]->0.y as int;
        m.spec_in_bounds(px + delta_x, py + delta_y) && !m.blocked@[m.idx_of(
            px + delta_x,
            py + delta_y,
        )]
    })) ==> post_pos == pre_pos
    &&& forall|p: int|
        0 <= p < pre.n() && #[trigger] pre.players@[p] && !(pre.alive@[p]
            && pre.positions@[p] is Some && pre.viewsheds@[p] is Some) ==> post.positions@[p]
            == pre.positions@[p] && post.viewsheds@[p] == pre.viewsheds@[p]
            && post.wants_to_melee@[p] == pre.wants_to_melee@[p]
    &&& forall|e: int|
        0 <= e < pre.n() && !(#[trigger] pre.players@[e]) ==> post.positions@[e]
            == pre.positions@[e] && post.viewsheds@[e] == pre.viewsheds@[e]
            && post.wants_to_melee@[e] == pre.wants_to_melee@[e]
}

/// The player tries to step by one tile. A fighter on the destination is
/// attacked instead (a melee intent on the last such occupant); a free,
/// unblocked destination moves the player and marks its viewshed dirty.
/// A destination off the map does nothing. Returns whether anything
/// happened — a strike or a step — so the caller can tell a spent turn
/// from a blocked one.
pub fn try_move_player(
    world: &mut World,
    map: &GameMap,
    player_pos: &mut Point,
    delta_x: i32,
    delta_y: i32,
) -> (acted: bool)
    requires
        old(world).wf(),
        map.wf(),
        single_player(*old(world)),
        -1 <= delta_x <= 1,
        -1 <= delta_y <= 1,
    ensures
        final(world).wf(),
        final(world).n() == old(world).n(),
        *final(world) == (World {
            positions: final(world).positions,
            viewsheds: final(world).viewsheds,
            wants_to_melee: final(world).wants_to_melee,
            ..*old(world)
        }),
        acted == move_acts(*old(world), *map, delta_x as int, delta_y as int),
        move_outcome(
            *old(world),
            *final(world),
            *map,
            *old(player_pos),
            *final(player_pos),
            delta_x as int,
            delta_y as int,
        ),
{
    let ghost w0 = *old(world);
    let n = world.alive.len();
    let mut acted = false;
    let mut p: usize = 0;
    while p < n
        invariant
            world.wf(),
            world.n() == w0.n(),
            n == w0.n(),
            0 <= p <= n,
            map.wf(),
            single_player(w0),
            -1 <= delta_x <= 1,
            -1 <= delta_y <= 1,
            *world == (World {
                positions: world.positions,
                viewsheds: world.viewsheds,
                wants_to_melee: world.wants_to_melee,
                ..w0
            }),
            acted == move_acts_upto(w0, *map, delta_x as int, delta_y as int, p as int),
            forall|j: int| p <= j < n ==> (#[trigger] world.positions@[j]) == w0.positions@[j],
            forall|j: int| p <= j < n ==> (#[trigger] world.viewsheds@[j]) == w0.viewsheds@[j],
            forall|j: int| p <= j < n
                ==> (#[trigger] world.wants_to_melee@[j]) == w0.wants_to_melee@[j],
            forall|j: int|
                0 <= j < p && #[trigger] w0.players@[j] && w0.alive@[j] && w0.positions@[j] is Some
                    && w0.viewsheds@[j] is Some ==> {
                    let px = w0.positions@[j]->0.x as int;
                    let py = w0.positions@[j]->0.y as int;
                    let dx = px + delta_x;
                    let dy = py + delta_y;
                    if map.spec_in_bounds(dx, dy) {
                        let tile = map.tile_content@[map.idx_of(dx, dy)]@;
                        &&& world.wants_to_melee@[j] == (match last_combat_target(
                            w0,
                            tile,
                            tile.len() as int,
                        ) {
                            Some(t) => Some(WantsToMelee { target: t }),
                            None => w0.wants_to_melee@[j],
                        })
                        &&& if !map.blocked@[map.idx_of(dx, dy)] {
                            &&& world.positions@[j] == Some(
                                Position { x: dx as i32, y: dy as i32 },
                            )
                            &&& player_pos.x == dx && player_pos.y == dy
                            &&& world.viewsheds@[j] is Some
                            &&& world.viewsheds@[j]->0.visible_tiles@
                                == w0.viewsheds@[j]->0.visible_tiles@
                            &&& world.viewsheds@[j]->0.range == w0.viewsheds@[j]->0.range
                            &&& world.viewsheds@[j]->0.dirty
                        } else {
                            &&& world.positions@[j] == w0.positions@[j]
                            &&& world.viewsheds@[j] == w0.viewsheds@[j]
                            &&& *player_pos == *old(player_pos)
                        }
                    } else {
                        &&& world.wants_to_melee@[j] == w0.wants_to_melee@[j]
                        &&& world.positions@[j] == w0.positions@[j]
                        &&& world.viewsheds@[j] == w0.viewsheds@[j]
                        &&& *player_pos == *old(player_pos)
                    }
                },
            (forall|j: int| 0 <= j < p ==> !(#[trigger] w0.players@[j] && w0.alive@[j]
                && w0.positions@[j] is Some && w0.viewsheds@[j] is Some && {
                let px = w0.positions@[j]->0.x as int;
                let py = w0.positions@[j]->0.y as int;
                map.spec_in_bounds(px + delta_x, py + delta_y) && !map.blocked@[map.idx_of(
                    px + delta_x,
                    py + delta_y,
                )]
            })) ==> *player_pos == *old(player_pos),
            forall|j: int|
                0 <= j < p && #[trigger] w0.players@[j] && !(w0.alive@[j] && w0.positions@[j] is Some
                    && w0.viewsheds@[j] is Some) ==> world.positions@[j] == w0.positions@[j]
                    && world.viewsheds@[j] == w0.viewsheds@[j] && world.wants_to_melee@[j]
                    == w0.wants_to_melee@[j],
            forall|j: int| 0 <= j < p && !(#[trigger] w0.players@[j]) ==> world.positions@[j]
                == w0.positions@[j] && world.viewsheds@[j] == w0.viewsheds@[j]
                && world.wants_to_melee@[j] == w0.wants_to_melee@[j],
        decreases n - p,
    {
        let mut here_acts = false;
        if world.players[p] && world.alive[p] {
            let pos_opt = world.positions[p];
            let has_view = world.viewsheds[p].is_some();
            if let Some(pos) = pos_opt {
                if has_view {
                    let dx64: i64 = pos.x as i64 + delta_x as i64;
                    let dy64: i64 = pos.y as i64 + delta_y as i64;
                    if 0 <= dx64 && dx64 < map.width as i64 && 0 <= dy64 && dy64 < map.height as i64 {
                        let dx = dx64 as i32;
                        let dy = dy64 as i32;
                        let dest = map.xy_idx(dx, dy);
                        // bump attack: strike the last fighter on the tile
                        let ghost wp = *world;
                        let tile_len = map.tile_content[dest].len();
                        let mut attacked = false;
                        let mut k: usize = 0;
                        while k < tile_len
                            invariant
                                world.wf(),
                                world.n() == w0.n(),
                                0 <= p < n,
                                n == w0.n(),
                                map.wf(),
                                dest < map.total(),
                                tile_len == map.tile_content@[dest as int]@.len(),
                                0 <= k <= tile_len,
                                wp.combat_stats@ == w0.combat_stats@,
                                *world == (World { wants_to_melee: world.wants_to_melee, ..wp }),
                                forall|j: int| 0 <= j < n && j != p
                                    ==> (#[trigger] world.wants_to_melee@[j])
                                        == wp.wants_to_melee@[j],
                                attacked == (last_combat_target(
                                    w0,
                                    map.tile_content@[dest as int]@,
                                    k as int,
                                ) is Some),
                                world.wants_to_melee@[p as int] == (match last_combat_target(
                                    w0,
                                    map.tile_content@[dest as int]@,
                                    k as int,
                                ) {
                                    Some(t) => Some(WantsToMelee { target: t }),
                                    None => wp.wants_to_melee@[p as int],
                                }),
                            decreases tile_len - k,
                        {
                            let t = map.tile_content[dest][k];
                            if t < n && world.combat_stats[t].is_some() {
                                world.wants_to_melee[p] = Some(WantsToMelee { target: t });
                                attacked = true;
                            }
                            k = k + 1;
                        }
                        if !map.blocked[dest] {
                            world.positions[p] = Some(Position { x: dx, y: dy });
                            player_pos.x = dx;
                            player_pos.y = dy;
                            if let Some(v) = &mut world.viewsheds[p] {
                                v.dirty = true;
                            }
                            here_acts = true;
                        } else if attacked {
                            here_acts = true;
                        }
                    }
                }
            }
        }
        if here_acts {
            acted = true;
        }
        proof {
            if here_acts {
                assert(move_acts_upto(w0, *map, delta_x as int, delta_y as int, p + 1));
            }
            if !here_acts && move_acts_upto(w0, *map, delta_x as int, delta_y as int, p + 1)
                && !move_acts_upto(w0, *map, delta_x as int, delta_y as int, p as int) {
                let j = choose|j: int|
                    0 <= j < p + 1 && #[trigger] w0.players@[j] && w0.alive@[j]
                        && w0.positions@[j] is Some && w0.viewsheds@[j] is Some && {
                        let nx = w0.positions@[j]->0.x + delta_x;
                        let ny = w0.positions@[j]->0.y + delta_y;
                        &&& map.spec_in_bounds(nx, ny)
                        &&& {
                            let tile = map.tile_content@[map.idx_of(nx, ny)]@;
                            last_combat_target(w0, tile, tile.len() as int) is Some
                                || !map.blocked@[map.idx_of(nx, ny)]
                        }
                    };
                assert(j == p);
                assert(false);
            }
        }
        p = p + 1;
    }
    acted
}

/// The last live item lying on `pos` among the first `k` entities: the one
/// a pickup grabs, since a later match overwrites an earlier one.
pub open spec fn last_item_at(w: World, pos: Point, k: int) -> Option<usize>
    decreases k,
{
    if k <= 0 {
        None
    } else {
        if w.alive@[k - 1] && w.items@[k - 1] && w.positions@[k - 1] == Some(
            Position { x: pos.x, y: pos.y },
        ) {
            Some((k - 1) as usize)
        } else {
            last_item_at(w, pos, k - 1)
        }
    }
}

/// Everything one grab does: a pickup intent on the player for the last
/// item underfoot, or only the "nothing here" log line.
pub open spec fn grab_outcome(
    pre: World,
    post: World,
    pre_lines: Seq<Seq<char>>,
    post_lines: Seq<Seq<char>>,
    player: usize,
    ppos: Point,
) -> bool {
    &&& post == (World { wants_to_pickup: post.wants_to_pickup, ..pre })
    &&& match last_item_at(pre, ppos, pre.n()) {
        None => {
            &&& post == pre
            &&& post_lines == pre_lines.push(spec_nothing_here_line())
        },
        Some(it) => {
            &&& post.wants_to_pickup@ == pre.wants_to_pickup@.update(
                player as int,
                Some(WantsToPickupItem { collected_by: player, item: it }),
            )
            &&& post_lines == pre_lines
        },
    }
}

/// The player grabs whatever item lies on their tile: a pickup intent on
/// the player for the last such item, or a log line that there is nothing.
pub fn get_item(world: &mut World, log: &mut GameLog, player: usize, player_pos: Point)
    requires
        old(world).wf(),
        player < old(world).n(),
    ensures
        final(world).wf(),
        final(world).n() == old(world).n(),
        grab_outcome(
            *old(world),
            *final(world),
            old(log).view_lines(),
            final(log).view_lines(),
            player,
            player_pos,
        ),
{
    let ghost w0 = *old(world);
    let n = world.alive.len();
    let mut found: Option<usize> = None;
    let mut e: usize = 0;
    while e < n
        invariant
            world.wf(),
            n == world.n(),
            0 <= e <= n,
            *world == w0,
            found == last_item_at(w0, player_pos, e as int),
        decreases n - e,
    {
        let ghost found_before = found;
        if world.alive[e] && world.items[e] {
            if let Some(pos) = world.positions[e] {
                if pos.x == player_pos.x && pos.y == player_pos.y {
                    found = Some(e);
                    proof {
                        assert(pos == (Position { x: player_pos.x, y: player_pos.y }));
                        assert(w0.positions@[e as int] == Some(
                            Position { x: player_pos.x, y: player_pos.y },
                        ));
                    }
                }
            }
        }
        proof {
            assert(found == last_item_at(w0, player_pos, e + 1));
        }
        e = e + 1;
    }
    match found {
        None => {
            log.push(nothing_here_line());
        },
        Some(it) => {
            world.wants_to_pickup[player] = Some(
                WantsToPickupItem { collected_by: player, item: it },
            );
        },
    }
}

/// One decoded command from the input layer.
#[derive(Clone, Copy, PartialEq, Eq, Structural, Debug)]
pub enum PlayerCommand {
    /// Step one tile; the components are each in -1..=1.
    Move { delta_x: i32, delta_y: i32 },
    /// Pick up what lies underfoot.
    Grab,
    OpenInventory,
    OpenDropMenu,
    /// Debug spawners, dropping an item at the given tile.
    SpawnFireball { x: i32, y: i32 },
    SpawnMagicMissile { x: i32, y: i32 },
    SpawnHealthPotion { x: i32, y: i32 },
    /// Any key the game does not know.
    Other,
}

/// The run state that a command decoded while awaiting input leads to. A
/// movement that neither strikes nor steps — blocked, off the map, or with
/// deltas no key produces — spends no turn and keeps waiting for input.
pub open spec fn spec_command_state(cmd: PlayerCommand, w: World, m: GameMap) -> RunState {
    match cmd {
        PlayerCommand::Move { delta_x, delta_y } => if -1 <= delta_x <= 1 && -1 <= delta_y <= 1
            && move_acts(w, m, delta_x as int, delta_y as int) {
            RunState::PlayerTurn
        } else {
            RunState::AwaitingInput
        },
        PlayerCommand::Grab => RunState::PlayerTurn,
        PlayerCommand::OpenInventory => RunState::ShowInventory,
        PlayerCommand::OpenDropMenu => RunState::ShowDropItem,
        PlayerCommand::SpawnFireball { .. } => RunState::PlayerTurn,
        PlayerCommand::SpawnMagicMissile { .. } => RunState::PlayerTurn,
        PlayerCommand::SpawnHealthPotion { .. } => RunState::PlayerTurn,
        PlayerCommand::Other => RunState::AwaitingInput,
    }
}

/// Turns one decoded command into its action and the next run state:
/// movement and pickups spend the player's turn, menu keys open menus, and
/// anything else keeps waiting.
pub fn player_input(gs: &mut State, cmd: PlayerCommand) -> (next: RunState)
    requires
        old(gs).wf(),
    ensures
        final(gs).wf(),
        final(gs).world.n() >= old(gs).world.n(),
        old(gs).world.settled() ==> final(gs).world.settled(),
        next == spec_command_state(cmd, old(gs).world, old(gs).map),
        final(gs).map == old(gs).map,
        final(gs).player == old(gs).player,
        final(gs).run_state == old(gs).run_state,
        old(gs).log.view_lines().is_prefix_of(final(gs).log.view_lines()),
        ((cmd matches PlayerCommand::Move { delta_x, delta_y }) && -1 <= cmd->Move_delta_x <= 1
            && -1 <= cmd->Move_delta_y <= 1) ==> move_outcome(
            old(gs).world,
            final(gs).world,
            old(gs).map,
            old(gs).player_pos,
            final(gs).player_pos,
            cmd->Move_delta_x as int,
            cmd->Move_delta_y as int,
        ) && final(gs).log == old(gs).log,
        cmd == PlayerCommand::Grab ==> grab_outcome(
            old(gs).world,
            final(gs).world,
            old(gs).log.view_lines(),
            final(gs).log.view_lines(),
            old(gs).player,
            old(gs).player_pos,
        ) && final(gs).player_pos == old(gs).player_pos,
        ((cmd matches PlayerCommand::SpawnHealthPotion { x, y }) && old(gs).world.n()
            < usize::MAX) ==> final(gs).world.n() == old(gs).world.n() + 1
            && crate::spawner::spawned_at(
            final(gs).world,
            old(gs).world.n(),
            cmd->SpawnHealthPotion_x,
            cmd->SpawnHealthPotion_y,
        ) && crate::spawner::item_shaped(final(gs).world, old(gs).world.n())
            && final(gs).world.provides_healing@[old(gs).world.n()] == Some(
            ProvidesHealing { heal_amount: 8 },
        ),
        ((cmd matches PlayerCommand::SpawnMagicMissile { x, y }) && old(gs).world.n()
            < usize::MAX) ==> final(gs).world.n() == old(gs).world.n() + 1
            && crate::spawner::spawned_at(
            final(gs).world,
            old(gs).world.n(),
            cmd->SpawnMagicMissile_x,
            cmd->SpawnMagicMissile_y,
        ) && crate::spawner::item_shaped(final(gs).world, old(gs).world.n())
            && final(gs).world.inflict_damage@[old(gs).world.n()] == Some(
            InflictDamage { damage: 17 },
        ),
        ((cmd matches PlayerCommand::SpawnFireball { x, y }) && old(gs).world.n() < usize::MAX)
            ==> final(gs).world.n() == old(gs).world.n() + 1 && crate::spawner::spawned_at(
            final(gs).world,
            old(gs).world.n(),
            cmd->SpawnFireball_x,
            cmd->SpawnFireball_y,
        ) && crate::spawner::item_shaped(final(gs).world, old(gs).world.n())
            && final(gs).world.inflict_damage@[old(gs).world.n()] == Some(
            InflictDamage { damage: 20 },
        ) && final(gs).world.area_of_effect@[old(gs).world.n()] == Some(
            AreaOfEffect { radius: 3 },
        ),
        (cmd == PlayerCommand::OpenInventory || cmd == PlayerCommand::OpenDropMenu || cmd
            == PlayerCommand::Other) ==> final(gs).world == old(gs).world && final(gs).log == old(
            gs,
        ).log && final(gs).player_pos == old(gs).player_pos,
{
    match cmd {
        PlayerCommand::Move { delta_x, delta_y } => {
            if -1 <= delta_x && delta_x <= 1 && -1 <= delta_y && delta_y <= 1 {
                let mut ppos = gs.player_pos;
                let acted = try_move_player(&mut gs.world, &gs.map, &mut ppos, delta_x, delta_y);
                gs.player_pos = ppos;
                if acted {
                    RunState::PlayerTurn
                } else {
                    RunState::AwaitingInput
                }
            } else {
                RunState::AwaitingInput
            }
        },
        PlayerCommand::Grab => {
            get_item(&mut gs.world, &mut gs.log, gs.player, gs.player_pos);
            RunState::PlayerTurn
        },
        PlayerCommand::OpenInventory => RunState::ShowInventory,
        PlayerCommand::OpenDropMenu => RunState::ShowDropItem,
        PlayerCommand::SpawnFireball { x, y } => {
            if gs.world.alive.len() < usize::MAX {
                crate::spawner::fireball(&mut gs.world, x, y);
            }
            RunState::PlayerTurn
        },
        PlayerCommand::SpawnMagicMissile { x, y } => {
            if gs.world.alive.len() < usize::MAX {
                crate::spawner::magic_missile(&mut gs.world, x, y);
            }
            RunState::PlayerTurn
        },
        PlayerCommand::SpawnHealthPotion { x, y } => {
            if gs.world.alive.len() < usize::MAX {
                crate::spawner::health_potion(&mut gs.world, x, y);
            }
            RunState::PlayerTurn
        },
        PlayerCommand::Other => RunState::AwaitingInput,
    }
}

} // verus!
