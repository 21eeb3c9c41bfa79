//! Monster turn logic: a monster adjacent to the player queues a melee
//! intent; one that sees the player from farther away takes the step an
//! outside pathfinder proposes. The system runs every pass but acts only
//! when the run state is the monster turn.

use vstd::prelude::*;
use crate::components::{Point, Position, WantsToMelee};
use crate::game_map::GameMap;
use crate::state::RunState;
use crate::world::World;

verus! {

/// Whether a list of points holds `p`.
pub fn point_in_list(list: &Vec<Point>, p: Point) -> (r: bool)
    ensures
        r == list@.contains(p),
{
    let mut k: usize = 0;
    while k < list.len()
        invariant
            0 <= k <= list@.len(),
            forall|i: int| 0 <= i < k ==> list@[i] != p,
        decreases list@.len() - k,
    {
        if list[k].x == p.x && list[k].y == p.y {
            proof {
                assert(list@[k as int] == p);
            }
            return true;
        }
        k = k + 1;
    }
    proof {
        if list@.contains(p) {
            let i = choose|i: int| 0 <= i < list@.len() && list@[i] == p;
            assert(false);
        }
    }
    false
}

/// The monster can act at all: it is live, tagged a monster, placed on the
/// map and has a viewshed.
pub open spec fn monster_acts(w: World, m: int) -> bool {
    &&& 0 <= m < w.n()
    &&& w.alive@[m]
    &&& w.monsters@[m]
    &&& w.positions@[m] is Some
    &&& w.viewsheds@[m] is Some
}

/// The monster stands within striking distance of the player: squared
/// Euclidean distance at most two (the eight surrounding tiles).
pub open spec fn monster_adjacent(w: World, ppos: Point, m: int) -> bool {
    crate::inventory_system::dist2(
        w.positions@[m]->0.x as int,
        w.positions@[m]->0.y as int,
        ppos.x as int,
        ppos.y as int,
    ) <= 2
}

/// The monster takes the proposed step: it acts, is not adjacent, sees the
/// player, and the pathfinder proposed an in-bounds step.
pub open spec fn monster_steps(
    w: World,
    mp: GameMap,
    ppos: Point,
    paths: Seq<Option<Point>>,
    m: int,
) -> bool {
    &&& monster_acts(w, m)
    &&& !monster_adjacent(w, ppos, m)
    &&& w.viewsheds@[m]->0.visible_tiles@.contains(ppos)
    &&& paths[m] is Some
    &&& mp.spec_in_bounds(paths[m]->0.x as int, paths[m]->0.y as int)
}

pub struct MonsterAI {}

impl MonsterAI {
    /// On the monster turn, each monster either strikes the adjacent player
    /// or follows its proposed path step; on any other turn nothing
    /// changes. The blocked flags are nudged along each move only as a
    /// scratch handoff between moves of the same turn; their value is not
    /// part of this contract, since the next map-indexing pass rebuilds
    /// them from scratch before anything else reads them.
    pub fn run(
        world: &mut World,
        map: &mut GameMap,
        player: usize,
        player_pos: Point,
        run_state: RunState,
        paths: &Vec<Option<Point>>,
    )
        requires
            old(world).wf(),
            old(map).wf(),
            paths@.len() == old(world).n(),
        ensures
            final(world).wf(),
            final(world).n() == old(world).n(),
            final(map).wf(),
            final(map).width == old(map).width,
            final(map).height == old(map).height,
            final(map).tiles == old(map).tiles,
            final(map).rooms == old(map).rooms,
            final(map).tile_content == old(map).tile_content,
            *final(world) == (World {
                positions: final(world).positions,
                viewsheds: final(world).viewsheds,
                wants_to_melee: final(world).wants_to_melee,
                ..*old(world)
            }),
            run_state != RunState::MonsterTurn ==> *final(world) == *old(world) && *final(map)
                == *old(map),
            run_state == RunState::MonsterTurn ==> forall|m: int|
                0 <= m < old(world).n() ==> (#[trigger] final(world).wants_to_melee@[m]) == (if monster_acts(
                    *old(world),
                    m,
                ) && monster_adjacent(*old(world), player_pos, m) {
                    Some(WantsToMelee { target: player })
                } else {
                    old(world).wants_to_melee@[m]
                }),
            run_state == RunState::MonsterTurn ==> forall|m: int|
                0 <= m < old(world).n() ==> (#[trigger] final(world).positions@[m]) == (if monster_steps(
                    *old(world),
                    *old(map),
                    player_pos,
                    paths@,
                    m,
                ) {
                    Some(
                        Position { x: paths@[m]->0.x, y: paths@[m]->0.y },
                    )
                } else {
                    old(world).positions@[m]
                }),
            run_state == RunState::MonsterTurn ==> forall|m: int|
                0 <= m < old(world).n() ==> if monster_steps(
                    *old(world),
                    *old(map),
                    player_pos,
                    paths@,
                    m,
                ) {
                    &&& (#[trigger] final(world).viewsheds@[m]) is Some
                    &&& final(world).viewsheds@[m]->0.visible_tiles@ == old(
                        world,
                    ).viewsheds@[m]->0.visible_tiles@
                    &&& final(world).viewsheds@[m]->0.range == old(world).viewsheds@[m]->0.range
                    &&& final(world).viewsheds@[m]->0.dirty
                } else {
                    (#[trigger] final(world).viewsheds@[m]) == old(world).viewsheds@[m]
                },
    {
        if !matches!(run_state, RunState::MonsterTurn) {
            return ;
        }
        let ghost w0 = *old(world);
        let ghost m0 = *old(map);
        let n = world.alive.len();
        let mut m: usize = 0;
        while m < n
            invariant
                world.wf(),
                world.n() == w0.n(),
                n == w0.n(),
                0 <= m <= n,
                paths@.len() == n,
                map.wf(),
                map.width == m0.width,
                map.height == m0.height,
                map.tiles == m0.tiles,
                map.rooms == m0.rooms,
                map.tile_content == m0.tile_content,
                *world == (World {
                    positions: world.positions,
                    viewsheds: world.viewsheds,
                    wants_to_melee: world.wants_to_melee,
                    ..w0
                }),
                forall|j: int| m <= j < n ==> (#[trigger] world.positions@[j]) == w0.positions@[j],
                forall|j: int| m <= j < n ==> (#[trigger] world.viewsheds@[j]) == w0.viewsheds@[j],
                forall|j: int| m <= j < n
                    ==> (#[trigger] world.wants_to_melee@[j]) == w0.wants_to_melee@[j],
                forall|j: int| 0 <= j < m ==> (#[trigger] world.wants_to_melee@[j]) == (if monster_acts(
                    w0,
                    j,
                ) && monster_adjacent(w0, player_pos, j) {
                    Some(WantsToMelee { target: player })
                } else {
                    w0.wants_to_melee@[j]
                }),
                forall|j: int| 0 <= j < m ==> (#[trigger] world.positions@[j]) == (if monster_steps(
                    w0,
                    m0,
                    player_pos,
                    paths@,
                    j,
                ) {
                    Some(
                        Position { x: paths@[j]->0.x, y: paths@[j]->0.y },
                    )
                } else {
                    w0.positions@[j]
                }),
                forall|j: int| 0 <= j < m ==> if monster_steps(w0, m0, player_pos, paths@, j) {
                    &&& (#[trigger] world.viewsheds@[j]) is Some
                    &&& world.viewsheds@[j]->0.visible_tiles@ == w0.viewsheds@[j]->0.visible_tiles@
                    &&& world.viewsheds@[j]->0.range == w0.viewsheds@[j]->0.range
                    &&& world.viewsheds@[j]->0.dirty
                } else {
                    (#[trigger] world.viewsheds@[j]) == w0.viewsheds@[j]
                },
            decreases n - m,
        {
            if world.alive[m] && world.monsters[m] {
                let pos_opt = world.positions[m];
                let has_view = world.viewsheds[m].is_some();
                if let Some(pos) = pos_opt {
                    if has_view {
                        let ddx: i64 = pos.x as i64 - player_pos.x as i64;
                        let ddy: i64 = pos.y as i64 - player_pos.y as i64;
                        let adjacent = -1 <= ddx && ddx <= 1 && -1 <= ddy && ddy <= 1;
                        proof {
                            let gx = pos.x as int - player_pos.x as int;
                            let gy = pos.y as int - player_pos.y as int;
                            assert((gx * gx + gy * gy <= 2) <==> (-1 <= gx <= 1 && -1 <= gy <= 1))
                                by (nonlinear_arith);
                            assert(adjacent == monster_adjacent(w0, player_pos, m as int));
                        }
                        if adjacent {
                            world.wants_to_melee[m] = Some(WantsToMelee { target: player });
                        } else {
                            let mut sees = false;
                            if let Some(v) = &world.viewsheds[m] {
                                sees = point_in_list(&v.visible_tiles, player_pos);
                            }
                            if sees {
                                if let Some(step) = paths[m] {
                                    if map.in_bounds(step.x, step.y) {
                                        let old_idx = if map.in_bounds(pos.x, pos.y) {
                                            Some(map.xy_idx(pos.x, pos.y))
                                        } else {
                                            None
                                        };
                                        if let Some(oi) = old_idx {
                                            map.blocked[oi] = false;
                                        }
                                        world.positions[m] = Some(Position { x: step.x, y: step.y });
                                        let new_idx = map.xy_idx(step.x, step.y);
                                        map.blocked[new_idx] = true;
                                        if let Some(v) = &mut world.viewsheds[m] {
                                            v.dirty = true;
                                        }
                                    }
                                }
                            }
                        }
                    }
                }
            }
            m = m + 1;
        }
    }
}

} // verus!
