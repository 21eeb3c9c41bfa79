//! Inventory systems of the turn pipeline: pickup collection, item use
//! (targeting, healing, damage, consumable bookkeeping) and item drop.

use vstd::prelude::*;
use crate::components::{CombatStats, WantsToUse};
use crate::game_map::{map_indexed, pos_at, GameMap};
use crate::world::World;

verus! {

/// Tile coordinates strictly inside the map, excluding the border ring.
pub open spec fn interior(m: GameMap, x: int, y: int) -> bool {
    0 < x < m.width - 1 && 0 < y < m.height - 1
}

/// Squared Euclidean distance between two grid points.
pub open spec fn dist2(x1: int, y1: int, x2: int, y2: int) -> int {
    (x1 - x2) * (x1 - x2) + (y1 - y2) * (y1 - y2)
}

/// Tile `idx` lies in the blast pattern of radius `r` centred at `(cx, cy)`:
/// within Euclidean distance `r` of the centre and inside the map interior,
/// the outermost border ring excluded. The pattern is deliberately the full
/// distance disk: walls inside the radius do not shadow the blast. A
/// line-of-sight pattern would need the outside geometry library's
/// visibility walk, which stays with the rendering layer; the disk is the
/// blast rule this library defines and proves.
pub open spec fn in_blast(m: GameMap, cx: int, cy: int, r: int, idx: int) -> bool {
    let x = idx % (m.width as int);
    let y = idx / (m.width as int);
    interior(m, x, y) && dist2(x, y, cx, cy) <= r * r
}

/// Concatenated tile contents of the blast tiles among the first `k` tiles,
/// in row-major tile order.
pub open spec fn aoe_targets_upto(m: GameMap, cx: int, cy: int, r: int, k: int) -> Seq<usize>
    decreases k,
{
    if k <= 0 {
        Seq::empty()
    } else {
        aoe_targets_upto(m, cx, cy, r, k - 1) + if in_blast(m, cx, cy, r, k - 1) {
            m.tile_content@[k - 1]@
        } else {
            Seq::empty()
        }
    }
}

/// Every entity standing on some blast tile, in row-major tile order.
pub open spec fn spec_aoe_targets(m: GameMap, cx: int, cy: int, r: int) -> Seq<usize> {
    aoe_targets_upto(m, cx, cy, r, m.total())
}

/// The resolved target list of a use intent: the acting entity itself for a
/// self-targeted item, the single tile's occupants for a plain targeted
/// item, and the union over blast tiles for an area-of-effect item. An
/// out-of-bounds target point resolves to no targets.
pub open spec fn spec_targets(w: World, m: GameMap, user: usize, intent: WantsToUse) -> Seq<
    usize,
> {
    match intent.target {
        None => seq![user],
        Some(pt) => {
            let aoe = if 0 <= intent.item < w.n() {
                w.area_of_effect@[intent.item as int]
            } else {
                None
            };
            if !m.spec_in_bounds(pt.x as int, pt.y as int) {
                Seq::empty()
            } else {
                match aoe {
                    None => m.tile_content@[m.idx_of(pt.x as int, pt.y as int)]@,
                    Some(a) => spec_aoe_targets(m, pt.x as int, pt.y as int, a.radius as int),
                }
            }
        },
    }
}

/// The tile-content lists are usable for targeting: each list repeats no
/// entity, no entity appears on two tiles, and every listed entity is a
/// slot of a world with `n` entities. A fresh map index guarantees this,
/// and it survives systems that do not move entities on the map.
pub open spec fn tile_lists_wf(m: GameMap, n: int) -> bool {
    &&& forall|i: int| 0 <= i < m.total() ==> (#[trigger] m.tile_content@[i])@.no_duplicates()
    &&& forall|i: int, j: int, e: usize|
        0 <= i < m.total() && 0 <= j < m.total() && i != j
            && #[trigger] m.tile_content@[i]@.contains(e)
            ==> !(#[trigger] m.tile_content@[j]@.contains(e))
    &&& forall|i: int, k: int| 0 <= i < m.total() && 0 <= k < m.tile_content@[i]@.len()
        ==> (#[trigger] m.tile_content@[i]@[k]) < n
}

/// A freshly rebuilt index satisfies `tile_lists_wf`: every listed entity
/// stands on exactly the one tile its position names.
pub proof fn lemma_map_indexed_tile_lists(m: GameMap, w: World)
    requires
        m.wf(),
        map_indexed(m, w),
    ensures
        tile_lists_wf(m, w.n()),
{
    assert forall|i: int, j: int, e: usize|
        0 <= i < m.total() && 0 <= j < m.total() && i != j
            && #[trigger] m.tile_content@[i]@.contains(e) implies !(
        #[trigger] m.tile_content@[j]@.contains(e)) by {
        if m.tile_content@[j]@.contains(e) {
            m.lemma_tile_coords(i);
            m.lemma_tile_coords(j);
            assert(false);
        }
    }
    assert forall|i: int, k: int|
        0 <= i < m.total() && 0 <= k < m.tile_content@[i]@.len() implies (
    #[trigger] m.tile_content@[i]@[k]) < w.n() by {
        let e = m.tile_content@[i]@[k];
        assert(m.tile_content@[i]@.contains(e));
    }
}

/// Membership and uniqueness of the blast target list: an entity is in it
/// exactly when it stands on a blast tile, and it appears at most once.
pub proof fn lemma_aoe_targets_set(m: GameMap, n: int, cx: int, cy: int, r: int, k: int)
    requires
        m.wf(),
        tile_lists_wf(m, n),
        0 <= k <= m.total(),
    ensures
        forall|e: usize| #[trigger] aoe_targets_upto(m, cx, cy, r, k).contains(e) <==> exists|
            idx: int,
        | 0 <= idx < k && in_blast(m, cx, cy, r, idx) && m.tile_content@[idx]@.contains(e),
        aoe_targets_upto(m, cx, cy, r, k).no_duplicates(),
    decreases k,
{
    if k > 0 {
        lemma_aoe_targets_set(m, n, cx, cy, r, k - 1);
        let prefix = aoe_targets_upto(m, cx, cy, r, k - 1);
        let tail: Seq<usize> = if in_blast(m, cx, cy, r, k - 1) {
            m.tile_content@[k - 1]@
        } else {
            Seq::empty()
        };
        let whole = aoe_targets_upto(m, cx, cy, r, k);
        assert(whole == prefix + tail);
        assert forall|e: usize| #[trigger] whole.contains(e) implies exists|idx: int|
            0 <= idx < k && in_blast(m, cx, cy, r, idx) && m.tile_content@[idx]@.contains(e) by {
            let i = choose|i: int| 0 <= i < whole.len() && whole[i] == e;
            if i < prefix.len() {
                assert(prefix.contains(e));
                let idx = choose|idx: int|
                    0 <= idx < k - 1 && in_blast(m, cx, cy, r, idx) && m.tile_content@[idx]@.contains(e);
                assert(0 <= idx < k && in_blast(m, cx, cy, r, idx) && m.tile_content@[idx]@.contains(e));
            } else {
                assert(tail[i - prefix.len()] == e);
                assert(tail.contains(e));
                assert(in_blast(m, cx, cy, r, k - 1) && m.tile_content@[k - 1]@.contains(e));
            }
        }
        assert forall|e: usize|
            (exists|idx: int|
                0 <= idx < k && in_blast(m, cx, cy, r, idx) && m.tile_content@[idx]@.contains(e)) implies #[trigger] whole.contains(e) by {
            let idx = choose|idx: int|
                0 <= idx < k && in_blast(m, cx, cy, r, idx) && m.tile_content@[idx]@.contains(e);
            if idx < k - 1 {
                assert(prefix.contains(e));
                let i = choose|i: int| 0 <= i < prefix.len() && prefix[i] == e;
                assert(whole[i] == e);
            } else {
                let i = choose|i: int| 0 <= i < tail.len() && tail[i] == e;
                assert(whole[prefix.len() + i] == e);
            }
        }
        // uniqueness: an entity stands on exactly one tile, so the prefix
        // (tiles before k-1) and the tail (tile k-1) are disjoint
        assert forall|a: int, b: int|
            0 <= a < whole.len() && 0 <= b < whole.len() && a != b implies whole[a] != whole[b] by {
            if a < prefix.len() && b < prefix.len() {
                assert(prefix[a] != prefix[b]);
            } else if a >= prefix.len() && b >= prefix.len() {
                assert(tail[a - prefix.len()] != tail[b - prefix.len()]);
            } else {
                let (pa, ta) = if a < prefix.len() {
                    (a, b)
                } else {
                    (b, a)
                };
                let ep = prefix[pa];
                let et = tail[ta - prefix.len()];
                if ep == et {
                    assert(prefix.contains(ep));
                    let idx = choose|idx: int|
                        0 <= idx < k - 1 && in_blast(m, cx, cy, r, idx) && m.tile_content@[idx]@.contains(ep);
                    assert(tail.contains(et));
                    assert(m.tile_content@[k - 1]@.contains(et));
                    // ep would appear both on tile idx and on tile k - 1
                    assert(false);
                }
            }
        }
    }
}

/// Targeting law: a use intent with no target point resolves to exactly
/// the acting entity as its sole target.
pub proof fn lemma_self_targeting(w: World, m: GameMap, user: usize, intent: WantsToUse)
    requires
        intent.target is None,
    ensures
        spec_targets(w, m, user, intent) == seq![user],
{
}

/// Targeting law: a use intent with an in-bounds target point and no
/// area-of-effect resolves to exactly the entities standing on that tile.
pub proof fn lemma_single_tile_targeting(w: World, m: GameMap, user: usize, intent: WantsToUse)
    requires
        m.wf(),
        map_indexed(m, w),
        intent.target is Some,
        m.spec_in_bounds(intent.target->0.x as int, intent.target->0.y as int),
        0 <= intent.item < w.n() ==> w.area_of_effect@[intent.item as int] is None,
    ensures
        forall|e: usize| #[trigger] spec_targets(w, m, user, intent).contains(e) <==> pos_at(
            w,
            e as int,
            intent.target->0.x as int,
            intent.target->0.y as int,
        ),
{
    let pt = intent.target->0;
    m.lemma_idx_of_bounds(pt.x as int, pt.y as int);
    let idx = m.idx_of(pt.x as int, pt.y as int);
    assert forall|e: usize| #[trigger] spec_targets(w, m, user, intent).contains(e) <==> pos_at(
        w,
        e as int,
        pt.x as int,
        pt.y as int,
    ) by {
        assert(m.tile_content@[idx]@.contains(e) <==> pos_at(
            w,
            e as int,
            idx % (m.width as int),
            idx / (m.width as int),
        ));
    }
}

/// Area-of-effect law: a use intent with an area-of-effect item resolves
/// to the union of tile contents over the blast tiles around the target
/// point — those within the radius and inside the map's border ring — and
/// no entity is targeted twice.
pub proof fn lemma_aoe_targeting(w: World, m: GameMap, user: usize, intent: WantsToUse)
    requires
        m.wf(),
        map_indexed(m, w),
        intent.target is Some,
        m.spec_in_bounds(intent.target->0.x as int, intent.target->0.y as int),
        0 <= intent.item < w.n(),
        w.area_of_effect@[intent.item as int] is Some,
    ensures
        forall|e: usize| #[trigger] spec_targets(w, m, user, intent).contains(e) <==> exists|
            idx: int,
        |
            0 <= idx < m.total() && in_blast(
                m,
                intent.target->0.x as int,
                intent.target->0.y as int,
                w.area_of_effect@[intent.item as int]->0.radius as int,
                idx,
            ) && m.tile_content@[idx]@.contains(e),
        spec_targets(w, m, user, intent).no_duplicates(),
{
    let pt = intent.target->0;
    let r = w.area_of_effect@[intent.item as int]->0.radius as int;
    lemma_map_indexed_tile_lists(m, w);
    lemma_aoe_targets_set(m, w.n(), pt.x as int, pt.y as int, r, m.total());
}

/// Resolves the target list of a use intent, as `spec_targets` describes.
/// With a freshly rebuilt map index the list has no duplicates: an entity
/// occupies exactly one tile.
pub fn resolve_targets(world: &World, map: &GameMap, user: usize, intent: WantsToUse) -> (targets:
    Vec<usize>)
    requires
        world.wf(),
        map.wf(),
    ensures
        targets@ == spec_targets(*world, *map, user, intent),
        tile_lists_wf(*map, world.n()) ==> targets@.no_duplicates(),
{
    let mut targets: Vec<usize> = Vec::new();
    match intent.target {
        None => {
            targets.push(user);
            proof {
                assert(targets@ =~= spec_targets(*world, *map, user, intent));
            }
        },
        Some(pt) => {
            let mut aoe_radius: Option<i32> = None;
            if intent.item < world.alive.len() {
                if let Some(a) = world.area_of_effect[intent.item] {
                    aoe_radius = Some(a.radius);
                }
            }
            if !map.in_bounds(pt.x, pt.y) {
                proof {
                    assert(targets@ =~= spec_targets(*world, *map, user, intent));
                }
            } else {
                match aoe_radius {
                    None => {
                        let idx = map.xy_idx(pt.x, pt.y);
                        let tile_len = map.tile_content[idx].len();
                        let mut j: usize = 0;
                        while j < tile_len
                            invariant
                                map.wf(),
                                idx < map.total(),
                                tile_len == map.tile_content@[idx as int]@.len(),
                                0 <= j <= tile_len,
                                targets@ == map.tile_content@[idx as int]@.subrange(0, j as int),
                            decreases tile_len - j,
                        {
                            targets.push(map.tile_content[idx][j]);
                            proof {
                                assert(targets@ =~= map.tile_content@[idx as int]@.subrange(
                                    0,
                                    j + 1,
                                ));
                            }
                            j = j + 1;
                        }
                        proof {
                            assert(map.tile_content@[idx as int]@.subrange(0, tile_len as int)
                                =~= map.tile_content@[idx as int]@);
                        }
                    },
                    Some(r) => {
                        proof {
                            map.lemma_total_bound();
                        }
                        let total = map.tiles.len();
                        let mut idx: usize = 0;
                        while idx < total
                            invariant
                                world.wf(),
                                map.wf(),
                                total == map.total(),
                                total <= 0x100_0000,
                                0 <= idx <= total,
                                map.spec_in_bounds(pt.x as int, pt.y as int),
                                0 <= r <= crate::components::RADIUS_BOUND,
                                targets@ == aoe_targets_upto(
                                    *map,
                                    pt.x as int,
                                    pt.y as int,
                                    r as int,
                                    idx as int,
                                ),
                            decreases total - idx,
                        {
                            proof {
                                map.lemma_tile_coords(idx as int);
                            }
                            let x = (idx as i32) % map.width;
                            let y = (idx as i32) / map.width;
                            let inside = x > 0 && x < map.width - 1 && y > 0 && y < map.height - 1;
                            let dx = x - pt.x;
                            let dy = y - pt.y;
                            proof {
                                assert(0 <= dx * dx <= 0x100_0000) by (nonlinear_arith)
                                    requires
                                        -4096 <= dx <= 4096,
                                ;
                                assert(0 <= dy * dy <= 0x100_0000) by (nonlinear_arith)
                                    requires
                                        -4096 <= dy <= 4096,
                                ;
                                assert(0 <= r * r <= 0x100_0000) by (nonlinear_arith)
                                    requires
                                        0 <= r <= 1024,
                                ;
                            }
                            if inside && dx * dx + dy * dy <= r * r {
                                let tile_len = map.tile_content[idx].len();
                                let ghost before = targets@;
                                let mut j: usize = 0;
                                while j < tile_len
                                    invariant
                                        map.wf(),
                                        idx < map.total(),
                                        tile_len == map.tile_content@[idx as int]@.len(),
                                        0 <= j <= tile_len,
                                        targets@ == before + map.tile_content@[idx as int]@.subrange(0, j as int),
                                    decreases tile_len - j,
                                {
                                    targets.push(map.tile_content[idx][j]);
                                    proof {
                                        assert(targets@ =~= before + map.tile_content@[idx as int]@.subrange(0, j + 1));
                                    }
                                    j = j + 1;
                                }
                                proof {
                                    assert(in_blast(
                                        *map,
                                        pt.x as int,
                                        pt.y as int,
                                        r as int,
                                        idx as int,
                                    ));
                                    assert(map.tile_content@[idx as int]@.subrange(
                                        0,
                                        tile_len as int,
                                    ) =~= map.tile_content@[idx as int]@);
                                    assert(targets@ =~= aoe_targets_upto(
                                        *map,
                                        pt.x as int,
                                        pt.y as int,
                                        r as int,
                                        idx + 1,
                                    ));
                                }
                            } else {
                                proof {
                                    assert(!in_blast(
                                        *map,
                                        pt.x as int,
                                        pt.y as int,
                                        r as int,
                                        idx as int,
                                    ));
                                    assert(targets@ =~= aoe_targets_upto(
                                        *map,
                                        pt.x as int,
                                        pt.y as int,
                                        r as int,
                                        idx + 1,
                                    ));
                                }
                            }
                            idx = idx + 1;
                        }
                    },
                }
            }
        },
    }
    proof {
        if tile_lists_wf(*map, world.n()) {
            lemma_targets_no_duplicates(*world, *map, user, intent);
        }
    }
    targets
}

/// Under a fresh map index a resolved target list never repeats an entity.
pub proof fn lemma_targets_no_duplicates(w: World, m: GameMap, user: usize, intent: WantsToUse)
    requires
        m.wf(),
        tile_lists_wf(m, w.n()),
    ensures
        spec_targets(w, m, user, intent).no_duplicates(),
{
    match intent.target {
        None => {
            assert(seq![user].no_duplicates());
        },
        Some(pt) => {
            let aoe = if 0 <= intent.item < w.n() {
                w.area_of_effect@[intent.item as int]
            } else {
                None
            };
            if m.spec_in_bounds(pt.x as int, pt.y as int) {
                match aoe {
                    None => {
                        m.lemma_idx_of_bounds(pt.x as int, pt.y as int);
                    },
                    Some(a) => {
                        lemma_aoe_targets_set(
                            m,
                            w.n(),
                            pt.x as int,
                            pt.y as int,
                            a.radius as int,
                            m.total(),
                        );
                    },
                }
            }
        },
    }
}

} // verus!

use crate::components::InBackpack;
use crate::gamelog::{
    drop_line, pickup_line, spec_drop_line, spec_pickup_line, GameLog,
};

verus! {

/// Some pickup intent among the first `k` actors names item `it`.
pub open spec fn picked_upto(w: World, it: int, k: int) -> bool {
    exists|a: int|
        0 <= a < k && (#[trigger] w.wants_to_pickup@[a]) is Some && w.wants_to_pickup@[a]->0.item
            == it
}

/// Every pickup intent names a distinct item that is on the map, and names
/// it well enough to log: what the collection system can rely on from the
/// input layer.
pub open spec fn pickups_sane(w: World, player: usize) -> bool {
    &&& forall|a: int| 0 <= a < w.n() && (#[trigger] w.wants_to_pickup@[a]) is Some ==> {
        let i = w.wants_to_pickup@[a]->0;
        &&& 0 <= i.item < w.n()
        &&& w.positions@[i.item as int] is Some
        &&& (i.collected_by == player ==> w.names@[i.item as int] is Some)
    }
    &&& forall|a: int, b: int|
        0 <= a < w.n() && 0 <= b < w.n() && a != b && (#[trigger] w.wants_to_pickup@[a]) is Some
            && (#[trigger] w.wants_to_pickup@[b]) is Some ==> w.wants_to_pickup@[a]->0.item
            != w.wants_to_pickup@[b]->0.item
}

/// The pickup line of actor `a` is emitted: the actor is the player and the
/// item can be named.
pub open spec fn pickup_line_emitted(w: World, player: usize, a: int) -> bool {
    &&& w.wants_to_pickup@[a] is Some
    &&& {
        let i = w.wants_to_pickup@[a]->0;
        &&& i.collected_by == player
        &&& 0 <= i.item < w.n()
        &&& w.positions@[i.item as int] is Some
        &&& w.names@[i.item as int] is Some
    }
}

/// The log lines the collection system appends for the first `k` actors.
pub open spec fn pickup_lines_upto(w: World, player: usize, k: int) -> Seq<Seq<char>>
    decreases k,
{
    if k <= 0 {
        Seq::empty()
    } else {
        pickup_lines_upto(w, player, k - 1) + if pickup_line_emitted(w, player, k - 1) {
            seq![spec_pickup_line(w.names@[w.wants_to_pickup@[k - 1]->0.item as int]->0.name@)]
        } else {
            Seq::<Seq<char>>::empty()
        }
    }
}

/// Resolves every pending pickup intent: the item leaves the map, enters the
/// collector's backpack, and a player pickup is logged. All pickup intents
/// are cleared, even malformed ones, which are skipped.
pub struct InventoryCollectionSystem {}

impl InventoryCollectionSystem {
    pub fn run(world: &mut World, log: &mut GameLog, player: usize)
        requires
            old(world).wf(),
        ensures
            final(world).wf(),
            final(world).n() == old(world).n(),
            *final(world) == (World {
                positions: final(world).positions,
                in_backpack: final(world).in_backpack,
                wants_to_pickup: final(world).wants_to_pickup,
                ..*old(world)
            }),
            forall|a: int| 0 <= a < final(world).n()
                ==> (#[trigger] final(world).wants_to_pickup@[a]) is None,
            old(world).items_placed() ==> final(world).items_placed(),
            old(log).view_lines().is_prefix_of(final(log).view_lines()),
            // entities no pending intent names keep their placement, well
            // formed or not
            forall|it: int| 0 <= it < old(world).n() && !picked_upto(
                *old(world),
                it,
                old(world).n(),
            ) ==> final(world).positions@[it] == old(world).positions@[it]
                && final(world).in_backpack@[it] == old(world).in_backpack@[it],
            (forall|b: int| 0 <= b < old(world).n()
                ==> (#[trigger] old(world).wants_to_pickup@[b]) is None) ==> final(world).positions@ == old(world).positions@ && final(world).in_backpack@ == old(world).in_backpack@ && *final(log) == *old(log),
            pickups_sane(*old(world), player) ==> {
                &&& forall|a: int|
                    0 <= a < old(world).n() && (#[trigger] old(world).wants_to_pickup@[a]) is Some
                        ==> {
                        let i = old(world).wants_to_pickup@[a]->0;
                        &&& final(world).positions@[i.item as int] is None
                        &&& final(world).in_backpack@[i.item as int] == Some(
                            InBackpack { owner: i.collected_by },
                        )
                    }
                &&& forall|it: int| 0 <= it < old(world).n() && !picked_upto(
                    *old(world),
                    it,
                    old(world).n(),
                ) ==> final(world).positions@[it] == old(world).positions@[it]
                    && final(world).in_backpack@[it] == old(world).in_backpack@[it]
                &&& final(log).view_lines() == old(log).view_lines() + pickup_lines_upto(
                    *old(world),
                    player,
                    old(world).n(),
                )
            },
    {
        let ghost w0 = *old(world);
        let ghost l0 = *old(log);
        let n = world.alive.len();
        let mut a: usize = 0;
        while a < n
            invariant
                world.wf(),
                world.n() == w0.n(),
                n == w0.n(),
                0 <= a <= n,
                *world == (World {
                    positions: world.positions,
                    in_backpack: world.in_backpack,
                    wants_to_pickup: world.wants_to_pickup,
                    ..w0
                }),
                forall|b: int| 0 <= b < a ==> (#[trigger] world.wants_to_pickup@[b]) is None,
                forall|b: int| a <= b < n
                    ==> (#[trigger] world.wants_to_pickup@[b]) == w0.wants_to_pickup@[b],
                w0.items_placed() ==> world.items_placed(),
                l0.view_lines().is_prefix_of(log.view_lines()),
                forall|it: int| 0 <= it < n && !picked_upto(w0, it, a as int)
                    ==> world.positions@[it] == w0.positions@[it] && world.in_backpack@[it]
                        == w0.in_backpack@[it],
                (forall|b: int| 0 <= b < n ==> (#[trigger] w0.wants_to_pickup@[b]) is None)
                    ==> world.positions@ == w0.positions@ && world.in_backpack@
                        == w0.in_backpack@ && *log == l0,
                pickups_sane(w0, player) ==> {
                    &&& forall|b: int|
                        0 <= b < a && (#[trigger] w0.wants_to_pickup@[b]) is Some ==> {
                            let i = w0.wants_to_pickup@[b]->0;
                            &&& world.positions@[i.item as int] is None
                            &&& world.in_backpack@[i.item as int] == Some(
                                InBackpack { owner: i.collected_by },
                            )
                        }
                    &&& forall|it: int| 0 <= it < n && !picked_upto(w0, it, a as int)
                        ==> world.positions@[it] == w0.positions@[it] && world.in_backpack@[it]
                            == w0.in_backpack@[it]
                    &&& log.view_lines() == l0.view_lines() + pickup_lines_upto(
                        w0,
                        player,
                        a as int,
                    )
                },
            decreases n - a,
        {
            let intent = world.wants_to_pickup[a];
            world.wants_to_pickup[a] = None;
            if let Some(i) = intent {
                if i.item < n && world.positions[i.item].is_some() {
                    world.positions[i.item] = None;
                    world.in_backpack[i.item] = Some(InBackpack { owner: i.collected_by });
                    if i.collected_by == player {
                        let mut named: Option<String> = None;
                        if let Some(nm) = &world.names[i.item] {
                            named = Some(pickup_line(nm.name.as_str()));
                        }
                        if let Some(line) = named {
                            log.push(line);
                        }
                    }
                } else {
                    // internal-consistency error: note it and skip the intent
                    log.push(crate::gamelog::invalid_intent_line());
                }
            }
            proof {
                if w0.wants_to_pickup@[a as int] is Some {
                    let ghost i = w0.wants_to_pickup@[a as int]->0;
                    assert(!picked_upto(w0, i.item as int, a as int) || picked_upto(
                        w0,
                        i.item as int,
                        a as int,
                    ));
                }
                assert forall|it: int|
                    0 <= it < n && !picked_upto(w0, it, a + 1) implies world.positions@[it]
                    == w0.positions@[it] && world.in_backpack@[it] == w0.in_backpack@[it] by {
                    assert(!picked_upto(w0, it, a as int));
                    if w0.wants_to_pickup@[a as int] is Some {
                        assert(w0.wants_to_pickup@[a as int]->0.item != it);
                    }
                }
                if pickups_sane(w0, player) {
                    assert(pickup_lines_upto(w0, player, a + 1) == pickup_lines_upto(
                        w0,
                        player,
                        a as int,
                    ) + if pickup_line_emitted(w0, player, a as int) {
                        seq![
                            spec_pickup_line(
                                w0.names@[w0.wants_to_pickup@[a as int]->0.item as int]->0.name@,
                            ),
                        ]
                    } else {
                        Seq::<Seq<char>>::empty()
                    });
                    if w0.wants_to_pickup@[a as int] is Some {
                        let ghost i = w0.wants_to_pickup@[a as int]->0;
                        assert(!picked_upto(w0, i.item as int, a as int));
                    }
                    assert forall|it: int|
                        0 <= it < n && !picked_upto(w0, it, a + 1) implies world.positions@[it]
                        == w0.positions@[it] && world.in_backpack@[it] == w0.in_backpack@[it] by {
                        assert(!picked_upto(w0, it, a as int));
                    }
                    assert(log.view_lines() =~= l0.view_lines() + pickup_lines_upto(
                        w0,
                        player,
                        a + 1,
                    ));
                }
                assert(l0.view_lines().is_prefix_of(log.view_lines()));
            }
            a = a + 1;
        }
    }
}

/// An entity holding a drop intent has a position to drop at, items are
/// pairwise distinct and are not themselves dropping actors, and a player
/// drop can be named.
pub open spec fn drops_sane(w: World, player: usize) -> bool {
    &&& forall|a: int| 0 <= a < w.n() && (#[trigger] w.wants_to_drop@[a]) is Some ==> {
        let d = w.wants_to_drop@[a]->0;
        &&& 0 <= d.item < w.n()
        &&& w.positions@[a] is Some
        &&& (a == player ==> w.names@[d.item as int] is Some)
    }
    &&& forall|a: int, b: int|
        0 <= a < w.n() && 0 <= b < w.n() && a != b && (#[trigger] w.wants_to_drop@[a]) is Some
            && (#[trigger] w.wants_to_drop@[b]) is Some ==> w.wants_to_drop@[a]->0.item
            != w.wants_to_drop@[b]->0.item
    &&& forall|a: int, b: int|
        0 <= a < w.n() && 0 <= b < w.n() && (#[trigger] w.wants_to_drop@[a]) is Some && (
        #[trigger] w.wants_to_drop@[b]) is Some ==> w.wants_to_drop@[a]->0.item != b
}

/// Some drop intent among the first `k` actors names item `it`.
pub open spec fn dropped_upto(w: World, it: int, k: int) -> bool {
    exists|a: int|
        0 <= a < k && (#[trigger] w.wants_to_drop@[a]) is Some && w.wants_to_drop@[a]->0.item == it
}

/// The drop line of actor `a` is emitted.
pub open spec fn drop_line_emitted(w: World, player: usize, a: int) -> bool {
    &&& w.wants_to_drop@[a] is Some
    &&& a == player
    &&& {
        let d = w.wants_to_drop@[a]->0;
        &&& 0 <= d.item < w.n()
        &&& w.positions@[a] is Some
        &&& w.names@[d.item as int] is Some
    }
}

/// The log lines the drop system appends for the first `k` actors.
pub open spec fn drop_lines_upto(w: World, player: usize, k: int) -> Seq<Seq<char>>
    decreases k,
{
    if k <= 0 {
        Seq::empty()
    } else {
        drop_lines_upto(w, player, k - 1) + if drop_line_emitted(w, player, k - 1) {
            seq![spec_drop_line(w.names@[w.wants_to_drop@[k - 1]->0.item as int]->0.name@)]
        } else {
            Seq::<Seq<char>>::empty()
        }
    }
}

/// Resolves every pending drop intent: the item takes the dropper's current
/// position and leaves the backpack; a player drop is logged. All drop
/// intents are cleared; one whose dropper has no position is skipped.
pub struct ItemDropSystem {}

impl ItemDropSystem {
    pub fn run(world: &mut World, log: &mut GameLog, player: usize)
        requires
            old(world).wf(),
        ensures
            final(world).wf(),
            final(world).n() == old(world).n(),
            *final(world) == (World {
                positions: final(world).positions,
                in_backpack: final(world).in_backpack,
                wants_to_drop: final(world).wants_to_drop,
                ..*old(world)
            }),
            forall|a: int| 0 <= a < final(world).n()
                ==> (#[trigger] final(world).wants_to_drop@[a]) is None,
            old(world).items_placed() ==> final(world).items_placed(),
            old(log).view_lines().is_prefix_of(final(log).view_lines()),
            // entities no pending intent names keep their placement, well
            // formed or not
            forall|it: int| 0 <= it < old(world).n() && !dropped_upto(
                *old(world),
                it,
                old(world).n(),
            ) ==> final(world).positions@[it] == old(world).positions@[it]
                && final(world).in_backpack@[it] == old(world).in_backpack@[it],
            (forall|b: int| 0 <= b < old(world).n()
                ==> (#[trigger] old(world).wants_to_drop@[b]) is None) ==> final(world).positions@ == old(world).positions@ && final(world).in_backpack@ == old(world).in_backpack@ && *final(log) == *old(log),
            drops_sane(*old(world), player) ==> {
                &&& forall|a: int|
                    0 <= a < old(world).n() && (#[trigger] old(world).wants_to_drop@[a]) is Some
                        ==> {
                        let d = old(world).wants_to_drop@[a]->0;
                        &&& final(world).positions@[d.item as int] == old(world).positions@[a]
                        &&& final(world).in_backpack@[d.item as int] is None
                    }
                &&& forall|it: int| 0 <= it < old(world).n() && !dropped_upto(
                    *old(world),
                    it,
                    old(world).n(),
                ) ==> final(world).positions@[it] == old(world).positions@[it]
                    && final(world).in_backpack@[it] == old(world).in_backpack@[it]
                &&& final(log).view_lines() == old(log).view_lines() + drop_lines_upto(
                    *old(world),
                    player,
                    old(world).n(),
                )
            },
    {
        let ghost w0 = *old(world);
        let ghost l0 = *old(log);
        let n = world.alive.len();
        let mut a: usize = 0;
        while a < n
            invariant
                world.wf(),
                world.n() == w0.n(),
                n == w0.n(),
                0 <= a <= n,
                *world == (World {
                    positions: world.positions,
                    in_backpack: world.in_backpack,
                    wants_to_drop: world.wants_to_drop,
                    ..w0
                }),
                forall|b: int| 0 <= b < a ==> (#[trigger] world.wants_to_drop@[b]) is None,
                forall|b: int| a <= b < n
                    ==> (#[trigger] world.wants_to_drop@[b]) == w0.wants_to_drop@[b],
                w0.items_placed() ==> world.items_placed(),
                l0.view_lines().is_prefix_of(log.view_lines()),
                forall|it: int| 0 <= it < n && !dropped_upto(w0, it, a as int)
                    ==> world.positions@[it] == w0.positions@[it] && world.in_backpack@[it]
                        == w0.in_backpack@[it],
                (forall|b: int| 0 <= b < n ==> (#[trigger] w0.wants_to_drop@[b]) is None)
                    ==> world.positions@ == w0.positions@ && world.in_backpack@
                        == w0.in_backpack@ && *log == l0,
                drops_sane(w0, player) ==> {
                    &&& forall|b: int|
                        0 <= b < a && (#[trigger] w0.wants_to_drop@[b]) is Some ==> {
                            let d = w0.wants_to_drop@[b]->0;
                            &&& world.positions@[d.item as int] == w0.positions@[b]
                            &&& world.in_backpack@[d.item as int] is None
                        }
                    &&& forall|it: int| 0 <= it < n && !dropped_upto(w0, it, a as int)
                        ==> world.positions@[it] == w0.positions@[it] && world.in_backpack@[it]
                            == w0.in_backpack@[it]
                    &&& forall|b: int| 0 <= b < n && (#[trigger] w0.wants_to_drop@[b]) is Some
                        ==> world.positions@[b] == w0.positions@[b]
                    &&& log.view_lines() == l0.view_lines() + drop_lines_upto(
                        w0,
                        player,
                        a as int,
                    )
                },
            decreases n - a,
        {
            let intent = world.wants_to_drop[a];
            world.wants_to_drop[a] = None;
            if let Some(d) = intent {
                let mut handled = false;
                if d.item < n {
                    if let Some(dropper_pos) = world.positions[a] {
                        world.positions[d.item] = Some(dropper_pos);
                        world.in_backpack[d.item] = None;
                        if a == player {
                            let mut named: Option<String> = None;
                            if let Some(nm) = &world.names[d.item] {
                                named = Some(drop_line(nm.name.as_str()));
                            }
                            if let Some(line) = named {
                                log.push(line);
                            }
                        }
                        handled = true;
                    }
                }
                if !handled {
                    // internal-consistency error: note it and skip the intent
                    log.push(crate::gamelog::invalid_intent_line());
                }
            }
            proof {
                assert forall|it: int|
                    0 <= it < n && !dropped_upto(w0, it, a + 1) implies world.positions@[it]
                    == w0.positions@[it] && world.in_backpack@[it] == w0.in_backpack@[it] by {
                    assert(!dropped_upto(w0, it, a as int));
                    if w0.wants_to_drop@[a as int] is Some {
                        assert(w0.wants_to_drop@[a as int]->0.item != it);
                    }
                }
                if drops_sane(w0, player) {
                    assert(drop_lines_upto(w0, player, a + 1) == drop_lines_upto(
                        w0,
                        player,
                        a as int,
                    ) + if drop_line_emitted(w0, player, a as int) {
                        seq![
                            spec_drop_line(
                                w0.names@[w0.wants_to_drop@[a as int]->0.item as int]->0.name@,
                            ),
                        ]
                    } else {
                        Seq::<Seq<char>>::empty()
                    });
                    if w0.wants_to_drop@[a as int] is Some {
                        let ghost d = w0.wants_to_drop@[a as int]->0;
                        assert(!dropped_upto(w0, d.item as int, a as int));
                    }
                    assert forall|it: int|
                        0 <= it < n && !dropped_upto(w0, it, a + 1) implies world.positions@[it]
                        == w0.positions@[it] && world.in_backpack@[it] == w0.in_backpack@[it] by {
                        assert(!dropped_upto(w0, it, a as int));
                    }
                    assert(log.view_lines() =~= l0.view_lines() + drop_lines_upto(
                        w0,
                        player,
                        a + 1,
                    ));
                }
                assert(l0.view_lines().is_prefix_of(log.view_lines()));
            }
            a = a + 1;
        }
    }
}

} // verus!

use crate::components::SufferDamage;
use crate::gamelog::{damage_line, heal_line, spec_damage_line, spec_heal_line};
use crate::world::spec_damage_queue;

verus! {

/// Push membership: an element is in `s.push(v)` exactly when it is in `s`
/// or equals `v`.
proof fn lemma_push_contains<T>(s: Seq<T>, v: T, x: T)
    ensures
        s.push(v).contains(x) <==> (s.contains(x) || x == v),
{
    if s.push(v).contains(x) {
        let i = choose|i: int| 0 <= i < s.push(v).len() && s.push(v)[i] == x;
        if i < s.len() {
            assert(s[i] == x);
        }
    }
    if s.contains(x) {
        let i = choose|i: int| 0 <= i < s.len() && s[i] == x;
        assert(s.push(v)[i] == x);
    }
    if x == v {
        assert(s.push(v)[s.len() as int] == x);
    }
}

/// A prefix one longer is the prefix plus the next element.
proof fn lemma_subrange_succ<T>(s: Seq<T>, k: int)
    requires
        0 <= k < s.len(),
    ensures
        s.subrange(0, k + 1) == s.subrange(0, k).push(s[k]),
{
    assert(s.subrange(0, k + 1) =~= s.subrange(0, k).push(s[k]));
}

/// The healing descriptor of `item`, none for an out-of-range slot.
pub open spec fn item_heal(w: World, item: int) -> Option<crate::components::ProvidesHealing> {
    if 0 <= item < w.n() {
        w.provides_healing@[item]
    } else {
        None
    }
}

/// The damage descriptor of `item`, none for an out-of-range slot.
pub open spec fn item_damage(w: World, item: int) -> Option<crate::components::InflictDamage> {
    if 0 <= item < w.n() {
        w.inflict_damage@[item]
    } else {
        None
    }
}

/// Combat stats after a heal: hit points raised by `amount`, clamped to the
/// maximum.
pub open spec fn healed_stats(s: CombatStats, amount: int) -> CombatStats {
    CombatStats {
        hp: if s.hp + amount > s.max_hp {
            s.max_hp
        } else {
            (s.hp + amount) as i32
        },
        ..s
    }
}

/// Every resolved target is an entity slot of the world.
pub proof fn lemma_targets_bounded(w: World, m: GameMap, user: usize, intent: WantsToUse)
    requires
        m.wf(),
        tile_lists_wf(m, w.n()),
        user < w.n(),
    ensures
        forall|k: int| 0 <= k < spec_targets(w, m, user, intent).len()
            ==> (#[trigger] spec_targets(w, m, user, intent)[k]) < w.n(),
{
    let targets = spec_targets(w, m, user, intent);
    assert forall|k: int| 0 <= k < targets.len() implies (#[trigger] targets[k]) < w.n() by {
        let e = targets[k];
        assert(targets.contains(e));
        match intent.target {
            None => {},
            Some(pt) => {
                let aoe = if 0 <= intent.item < w.n() {
                    w.area_of_effect@[intent.item as int]
                } else {
                    None
                };
                if m.spec_in_bounds(pt.x as int, pt.y as int) {
                    match aoe {
                        None => {
                            m.lemma_idx_of_bounds(pt.x as int, pt.y as int);
                        },
                        Some(ar) => {
                            lemma_aoe_targets_set(
                                m,
                                w.n(),
                                pt.x as int,
                                pt.y as int,
                                ar.radius as int,
                                m.total(),
                            );
                        },
                    }
                }
            },
        }
    }
}

/// Raises the hit points of every listed target that has combat stats by
/// `amount`, clamped to its maximum.
pub fn apply_healing(world: &mut World, targets: &Vec<usize>, amount: i32)
    requires
        old(world).wf(),
        0 <= amount <= crate::components::AMOUNT_BOUND,
        targets@.no_duplicates(),
        forall|k: int| 0 <= k < targets@.len() ==> (#[trigger] targets@[k]) < old(world).n(),
    ensures
        final(world).wf(),
        final(world).n() == old(world).n(),
        *final(world) == (World { combat_stats: final(world).combat_stats, ..*old(world) }),
        forall|e: int| 0 <= e < old(world).n() ==> final(world).combat_stats@[e] == (if targets@.contains(
            e as usize,
        ) && old(world).combat_stats@[e] is Some {
            Some(healed_stats(old(world).combat_stats@[e]->0, amount as int))
        } else {
            old(world).combat_stats@[e]
        }),
{
    let ghost w0 = *old(world);
    let len = targets.len();
    let mut k: usize = 0;
    while k < len
        invariant
            world.wf(),
            world.n() == w0.n(),
            len == targets@.len(),
            0 <= k <= len,
            0 <= amount <= crate::components::AMOUNT_BOUND,
            targets@.no_duplicates(),
            forall|j: int| 0 <= j < targets@.len() ==> (#[trigger] targets@[j]) < w0.n(),
            *world == (World { combat_stats: world.combat_stats, ..w0 }),
            forall|e: int| 0 <= e < w0.n() ==> world.combat_stats@[e] == (if targets@.subrange(
                0,
                k as int,
            ).contains(e as usize) && w0.combat_stats@[e] is Some {
                Some(healed_stats(w0.combat_stats@[e]->0, amount as int))
            } else {
                w0.combat_stats@[e]
            }),
        decreases len - k,
    {
        let t = targets[k];
        let ghost wk = *world;
        proof {
            assert(!targets@.subrange(0, k as int).contains(t));
            assert(wk.combat_stats@[t as int] == w0.combat_stats@[t as int]);
        }
        if let Some(s) = world.combat_stats[t] {
            let new_hp = if s.hp + amount > s.max_hp {
                s.max_hp
            } else {
                s.hp + amount
            };
            let updated = CombatStats {
                max_hp: s.max_hp,
                hp: new_hp,
                defense: s.defense,
                power: s.power,
            };
            proof {
                assert(updated == healed_stats(s, amount as int));
            }
            world.combat_stats[t] = Some(updated);
        }
        proof {
            lemma_subrange_succ(targets@, k as int);
            assert(vstd::std_specs::vec::spec_vec_len(&world.alive) == w0.n());
            assert forall|e: int| 0 <= e < w0.n() implies world.combat_stats@[e] == (if targets@.subrange(
                0,
                k + 1,
            ).contains(e as usize) && w0.combat_stats@[e] is Some {
                Some(healed_stats(w0.combat_stats@[e]->0, amount as int))
            } else {
                w0.combat_stats@[e]
            }) by {
                lemma_push_contains(targets@.subrange(0, k as int), t, e as usize);
                assert(targets@.subrange(0, k + 1) == targets@.subrange(0, k as int).push(t));
                assert(targets@.subrange(0, k + 1).contains(e as usize) <==> (targets@.subrange(
                    0,
                    k as int,
                ).contains(e as usize) || (e as usize) == t));
                if e != t as int {
                    assert((e as usize) != t);
                    assert(world.combat_stats@[e] == wk.combat_stats@[e]);
                }
            }
        }
        k = k + 1;
    }
    proof {
        assert(targets@.subrange(0, len as int) =~= targets@);
    }
}

/// The item-use log line of actor `user` against target `t` is emitted: the
/// actor is the player and both the item and the target can be named.
pub open spec fn damage_line_emitted(
    names: Seq<Option<crate::components::Name>>,
    item: int,
    t: usize,
    user: usize,
    player: usize,
) -> bool {
    &&& user == player
    &&& 0 <= item < names.len()
    &&& names[item] is Some
    &&& 0 <= t < names.len()
    &&& names[t as int] is Some
}

/// The damage log lines for the first `k` resolved targets, in target order.
pub open spec fn damage_lines_upto(
    names: Seq<Option<crate::components::Name>>,
    item: int,
    amount: int,
    targets: Seq<usize>,
    k: int,
    user: usize,
    player: usize,
) -> Seq<Seq<char>>
    decreases k,
{
    if k <= 0 {
        Seq::empty()
    } else {
        damage_lines_upto(names, item, amount, targets, k - 1, user, player)
            + if damage_line_emitted(names, item, targets[k - 1], user, player) {
            seq![
                spec_damage_line(
                    names[item]->0.name@,
                    names[targets[k - 1] as int]->0.name@,
                    amount,
                ),
            ]
        } else {
            Seq::<Seq<char>>::empty()
        }
    }
}

/// The heal log line of a use is emitted: the actor is the player and the
/// item can be named. It is logged once per use, not once per target.
pub open spec fn heal_line_emitted(w: World, item: int, user: usize, player: usize) -> bool {
    &&& user == player
    &&& item_heal(w, item) is Some
    &&& 0 <= item < w.n()
    &&& w.names@[item] is Some
}

/// The item was consumed by this use: it is consumable and had some effect
/// to apply.
pub open spec fn use_consumed(w: World, u: WantsToUse) -> bool {
    &&& 0 <= u.item < w.n()
    &&& w.consumables@[u.item as int]
    &&& (item_heal(w, u.item as int) is Some || item_damage(w, u.item as int) is Some)
}

/// All log lines of one use intent: the heal line, then one damage line per
/// resolved target.
pub open spec fn use_lines(w: World, m: GameMap, a: usize, u: WantsToUse, player: usize) -> Seq<
    Seq<char>,
> {
    if !(0 <= u.item < w.n()) {
        seq![crate::gamelog::spec_invalid_intent_line()]
    } else {
        use_effect_lines(w, m, a, u, player)
    }
}

/// The effect lines of a well-formed use: the heal line, then one damage
/// line per resolved target.
pub open spec fn use_effect_lines(w: World, m: GameMap, a: usize, u: WantsToUse, player: usize)
    -> Seq<Seq<char>> {
    let targets = spec_targets(w, m, a, u);
    let heal_part: Seq<Seq<char>> = if heal_line_emitted(w, u.item as int, a, player) {
        seq![
            spec_heal_line(
                w.names@[u.item as int]->0.name@,
                item_heal(w, u.item as int)->0.heal_amount as int,
            ),
        ]
    } else {
        Seq::empty()
    };
    let damage_part: Seq<Seq<char>> = match item_damage(w, u.item as int) {
        Some(d) => damage_lines_upto(
            w.names@,
            u.item as int,
            d.damage as int,
            targets,
            targets.len() as int,
            a,
            player,
        ),
        None => Seq::empty(),
    };
    heal_part + damage_part
}

/// Everything one use intent does: heals clamped to the maximum on every
/// target with stats, damage queued on every target, the consumable doomed
/// once, and the exact log lines appended.
#[verifier::opaque]
pub open spec fn use_outcome(
    pre: World,
    post_stats: Seq<Option<CombatStats>>,
    post_suffer: Seq<Option<SufferDamage>>,
    post_doomed: Seq<bool>,
    pre_lines: Seq<Seq<char>>,
    post_lines: Seq<Seq<char>>,
    m: GameMap,
    a: usize,
    u: WantsToUse,
    player: usize,
) -> bool {
    let targets = spec_targets(pre, m, a, u);
    let heal = item_heal(pre, u.item as int);
    let dmg = item_damage(pre, u.item as int);
    &&& forall|e: int| 0 <= e < pre.n() ==> post_stats[e] == (if heal is Some
        && targets.contains(e as usize) && pre.combat_stats@[e] is Some {
        Some(healed_stats(pre.combat_stats@[e]->0, heal->0.heal_amount as int))
    } else {
        pre.combat_stats@[e]
    })
    &&& forall|e: int| 0 <= e < pre.n() ==> if dmg is Some && targets.contains(e as usize) {
        &&& (#[trigger] post_suffer[e]) is Some
        &&& post_suffer[e]->0.amounts@ == spec_damage_queue(
            pre.suffer_damage@[e],
            dmg->0.damage,
        )
    } else {
        post_suffer[e] == pre.suffer_damage@[e]
    }
    &&& forall|e: int| 0 <= e < pre.n() ==> post_doomed[e] == (pre.doomed@[e] || (e == u.item
        && use_consumed(pre, u)))
    &&& post_lines == pre_lines + use_lines(pre, m, a, u, player)
}


/// A use outcome only reads the listed component storages of the pre-state:
/// it carries over to a pre-state that agrees on them.
pub proof fn lemma_use_outcome_same_pre(
    pre1: World,
    pre2: World,
    post_stats: Seq<Option<CombatStats>>,
    post_suffer: Seq<Option<SufferDamage>>,
    post_doomed: Seq<bool>,
    lines0: Seq<Seq<char>>,
    lines1: Seq<Seq<char>>,
    m: GameMap,
    a: usize,
    u: WantsToUse,
    player: usize,
)
    requires
        use_outcome(pre1, post_stats, post_suffer, post_doomed, lines0, lines1, m, a, u, player),
        pre2.alive@.len() == pre1.alive@.len(),
        pre2.combat_stats@ == pre1.combat_stats@,
        pre2.suffer_damage@ == pre1.suffer_damage@,
        pre2.doomed@ == pre1.doomed@,
        pre2.names@ == pre1.names@,
        pre2.provides_healing@ == pre1.provides_healing@,
        pre2.inflict_damage@ == pre1.inflict_damage@,
        pre2.consumables@ == pre1.consumables@,
        pre2.area_of_effect@ == pre1.area_of_effect@,
    ensures
        use_outcome(pre2, post_stats, post_suffer, post_doomed, lines0, lines1, m, a, u, player),
{
    reveal(use_outcome);
    assert(pre2.n() == pre1.n());
    assert(spec_targets(pre2, m, a, u) == spec_targets(pre1, m, a, u));
    assert(item_heal(pre2, u.item as int) == item_heal(pre1, u.item as int));
    assert(item_damage(pre2, u.item as int) == item_damage(pre1, u.item as int));
    assert(use_consumed(pre2, u) == use_consumed(pre1, u));
    assert(use_lines(pre2, m, a, u, player) == use_lines(pre1, m, a, u, player));
    let targets = spec_targets(pre1, m, a, u);
    let heal = item_heal(pre1, u.item as int);
    let dmg = item_damage(pre1, u.item as int);
    assert forall|e: int| 0 <= e < pre2.n() implies post_stats[e] == (if heal is Some
        && targets.contains(e as usize) && pre2.combat_stats@[e] is Some {
        Some(healed_stats(pre2.combat_stats@[e]->0, heal->0.heal_amount as int))
    } else {
        pre2.combat_stats@[e]
    }) by {
        assert(post_stats[e] == (if heal is Some && targets.contains(e as usize)
            && pre1.combat_stats@[e] is Some {
            Some(healed_stats(pre1.combat_stats@[e]->0, heal->0.heal_amount as int))
        } else {
            pre1.combat_stats@[e]
        }));
    }
    assert forall|e: int| 0 <= e < pre2.n() implies (if dmg is Some && targets.contains(
        e as usize,
    ) {
        &&& (#[trigger] post_suffer[e]) is Some
        &&& post_suffer[e]->0.amounts@ == spec_damage_queue(
            pre2.suffer_damage@[e],
            dmg->0.damage,
        )
    } else {
        post_suffer[e] == pre2.suffer_damage@[e]
    }) by {
        assert(if dmg is Some && targets.contains(e as usize) {
            &&& post_suffer[e] is Some
            &&& post_suffer[e]->0.amounts@ == spec_damage_queue(
                pre1.suffer_damage@[e],
                dmg->0.damage,
            )
        } else {
            post_suffer[e] == pre1.suffer_damage@[e]
        });
    }
    assert forall|e: int| 0 <= e < pre2.n() implies post_doomed[e] == (pre2.doomed@[e] || (e
        == u.item && use_consumed(pre2, u))) by {
        assert(post_doomed[e] == (pre1.doomed@[e] || (e == u.item && use_consumed(pre1, u))));
    }
}

/// Performs one use intent of actor `a`: resolves targets, applies healing
/// and damage, dooms a consumed item and writes the player's log lines.
pub fn use_item_for(
    world: &mut World,
    map: &GameMap,
    log: &mut GameLog,
    player: usize,
    a: usize,
    u: WantsToUse,
)
    requires
        old(world).wf(),
        map.wf(),
        tile_lists_wf(*map, old(world).n()),
        a < old(world).n(),
    ensures
        final(world).wf(),
        final(world).n() == old(world).n(),
        *final(world) == (World {
            combat_stats: final(world).combat_stats,
            suffer_damage: final(world).suffer_damage,
            doomed: final(world).doomed,
            ..*old(world)
        }),
        old(log).view_lines().is_prefix_of(final(log).view_lines()),
        use_outcome(
            *old(world),
            final(world).combat_stats@,
            final(world).suffer_damage@,
            final(world).doomed@,
            old(log).view_lines(),
            final(log).view_lines(),
            *map,
            a,
            u,
            player,
        ),
{
    proof {
        reveal(use_outcome);
    }
    let ghost w0 = *old(world);
    let ghost l0 = *old(log);
    let n = world.alive.len();
    if u.item >= n {
        // internal-consistency error: note it and skip the intent
        log.push(crate::gamelog::invalid_intent_line());
        proof {
            assert(log.view_lines() =~= l0.view_lines() + use_lines(w0, *map, a, u, player));
        }
        return ;
    }
    let targets = resolve_targets(world, map, a, u);
    proof {
        lemma_targets_bounded(w0, *map, a, u);
    }

    // healing effect
    let mut heal_amt: Option<i32> = None;
    if u.item < n {
        if let Some(h) = world.provides_healing[u.item] {
            heal_amt = Some(h.heal_amount);
        }
    }
    if let Some(amt) = heal_amt {
        apply_healing(world, &targets, amt);
        if a == player && u.item < n {
            let mut named: Option<String> = None;
            if let Some(nm) = &world.names[u.item] {
                named = Some(heal_line(nm.name.as_str(), amt));
            }
            if let Some(line) = named {
                log.push(line);
            }
        }
    }
    proof {
        let heal_part: Seq<Seq<char>> = if heal_line_emitted(w0, u.item as int, a, player) {
            seq![
                spec_heal_line(
                    w0.names@[u.item as int]->0.name@,
                    item_heal(w0, u.item as int)->0.heal_amount as int,
                ),
            ]
        } else {
            Seq::empty()
        };
        assert(log.view_lines() =~= l0.view_lines() + heal_part);
    }
    let ghost l1 = *log;

    // damage effect
    let mut dmg_amt: Option<i32> = None;
    if u.item < n {
        if let Some(d) = world.inflict_damage[u.item] {
            dmg_amt = Some(d.damage);
        }
    }
    if let Some(amt) = dmg_amt {
        let ghost wpre = *world;
        let len = targets.len();
        let mut k: usize = 0;
        while k < len
            invariant
                world.wf(),
                world.n() == w0.n(),
                len == targets@.len(),
                0 <= k <= len,
                0 <= amt <= crate::components::AMOUNT_BOUND,
                targets@.no_duplicates(),
                forall|j: int| 0 <= j < targets@.len() ==> (#[trigger] targets@[j]) < w0.n(),
                u.item < w0.n(),
                w0.names@ == world.names@,
                *world == (World { suffer_damage: world.suffer_damage, ..wpre }),
                forall|e: int| 0 <= e < w0.n() ==> if targets@.subrange(0, k as int).contains(
                    e as usize,
                ) {
                    &&& (#[trigger] world.suffer_damage@[e]) is Some
                    &&& world.suffer_damage@[e]->0.amounts@ == spec_damage_queue(
                        wpre.suffer_damage@[e],
                        amt,
                    )
                } else {
                    world.suffer_damage@[e] == wpre.suffer_damage@[e]
                },
                log.view_lines() == l1.view_lines() + damage_lines_upto(
                    w0.names@,
                    u.item as int,
                    amt as int,
                    targets@,
                    k as int,
                    a,
                    player,
                ),
            decreases len - k,
        {
            let t = targets[k];
            let ghost wk = *world;
            proof {
                assert(!targets@.subrange(0, k as int).contains(t));
                assert(wk.suffer_damage@[t as int] == wpre.suffer_damage@[t as int]);
            }
            world.new_damage(t, amt);
            if a == player {
                let mut named: Option<String> = None;
                if let Some(inm) = &world.names[u.item] {
                    if let Some(tnm) = &world.names[t] {
                        named = Some(damage_line(inm.name.as_str(), tnm.name.as_str(), amt));
                    }
                }
                if let Some(line) = named {
                    log.push(line);
                }
            }
            proof {
                lemma_subrange_succ(targets@, k as int);
                assert(vstd::std_specs::vec::spec_vec_len(&world.alive) == w0.n());
                assert forall|e: int| 0 <= e < w0.n() implies (if targets@.subrange(
                    0,
                    k + 1,
                ).contains(e as usize) {
                    &&& (#[trigger] world.suffer_damage@[e]) is Some
                    &&& world.suffer_damage@[e]->0.amounts@ == spec_damage_queue(
                        wpre.suffer_damage@[e],
                        amt,
                    )
                } else {
                    world.suffer_damage@[e] == wpre.suffer_damage@[e]
                }) by {
                    lemma_push_contains(targets@.subrange(0, k as int), t, e as usize);
                    assert(targets@.subrange(0, k + 1) == targets@.subrange(0, k as int).push(t));
                    assert(targets@.subrange(0, k + 1).contains(e as usize) <==> (targets@.subrange(
                        0,
                        k as int,
                    ).contains(e as usize) || (e as usize) == t));
                    if e != t as int {
                        assert((e as usize) != t);
                        assert(world.suffer_damage@[e] == wk.suffer_damage@[e]);
                    }
                }
                assert(log.view_lines() =~= l1.view_lines() + damage_lines_upto(
                    w0.names@,
                    u.item as int,
                    amt as int,
                    targets@,
                    k + 1,
                    a,
                    player,
                ));
            }
            k = k + 1;
        }
        proof {
            assert(targets@.subrange(0, len as int) =~= targets@);
        }
    }

    // consumable bookkeeping: a consumable that had an effect is destroyed
    // at the next maintenance point, exactly once per use
    if u.item < n {
        if world.consumables[u.item] {
            if heal_amt.is_some() || dmg_amt.is_some() {
                world.doomed[u.item] = true;
            }
        }
    }

    proof {
        assert(log.view_lines() =~= l0.view_lines() + use_lines(w0, *map, a, u, player));
        assert(log.view_lines().subrange(0, l0.view_lines().len() as int) =~= l0.view_lines());
    }
}

/// Entity `e` is in no pending use intent's resolved target set among the
/// first `k` actors.
pub open spec fn untargeted_upto(w: World, m: GameMap, e: usize, k: int) -> bool {
    forall|b: int| 0 <= b < k && (#[trigger] w.wants_to_use@[b]) is Some ==> !spec_targets(
        w,
        m,
        b as usize,
        w.wants_to_use@[b]->0,
    ).contains(e)
}

/// Some pending use intent among the first `k` actors consumes item `e`:
/// it names it, the item is consumable and has an effect to apply.
pub open spec fn consumed_by_some_intent(w: World, e: int, k: int) -> bool {
    exists|b: int|
        0 <= b < k && (#[trigger] w.wants_to_use@[b]) is Some && w.wants_to_use@[b]->0.item == e
            && use_consumed(w, w.wants_to_use@[b]->0)
}

/// No use intent is pending at all.
pub open spec fn no_use_intents(w: World) -> bool {
    forall|b: int| 0 <= b < w.n() ==> (#[trigger] w.wants_to_use@[b]) is None
}

/// Actor `c` holds the only pending use intent.
#[verifier::opaque]
pub open spec fn single_intent_at(w: World, c: int) -> bool {
    &&& 0 <= c < w.n()
    &&& w.wants_to_use@[c] is Some
    &&& forall|b: int| 0 <= b < w.n() && b != c ==> (#[trigger] w.wants_to_use@[b]) is None
}

/// Resolves every pending use intent, as `use_outcome` describes, and
/// clears the use-intent storage.
pub struct ItemUseSystem {}

impl ItemUseSystem {
    pub fn run(world: &mut World, map: &GameMap, log: &mut GameLog, player: usize)
        requires
            old(world).wf(),
            map.wf(),
            tile_lists_wf(*map, old(world).n()),
        ensures
            final(world).wf(),
            final(world).n() == old(world).n(),
            *final(world) == (World {
                combat_stats: final(world).combat_stats,
                suffer_damage: final(world).suffer_damage,
                doomed: final(world).doomed,
                wants_to_use: final(world).wants_to_use,
                ..*old(world)
            }),
            forall|a: int| 0 <= a < final(world).n()
                ==> (#[trigger] final(world).wants_to_use@[a]) is None,
            old(log).view_lines().is_prefix_of(final(log).view_lines()),
            // the frame, however many intents are pending: an entity in no
            // resolved target set keeps its stats and damage queue, and an
            // item no intent names keeps its doom flag
            forall|e: usize| (e as int) < old(world).n() && untargeted_upto(
                *old(world),
                *map,
                e,
                old(world).n(),
            ) ==> final(world).combat_stats@[e as int] == old(world).combat_stats@[e as int]
                && final(world).suffer_damage@[e as int] == old(world).suffer_damage@[e as int],
            forall|e: int|
                #![trigger final(world).doomed@[e]]
                0 <= e < old(world).n() ==> final(world).doomed@[e] == (old(world).doomed@[e]
                    || consumed_by_some_intent(*old(world), e, old(world).n())),
            no_use_intents(*old(world)) ==> final(world).combat_stats@ == old(world).combat_stats@
                && final(world).suffer_damage@ == old(world).suffer_damage@
                && final(world).doomed@ == old(world).doomed@
                && final(log).view_lines() == old(log).view_lines(),
            // with a single pending intent the whole pass is that one use
            forall|a: int| single_intent_at(*old(world), a) ==> use_outcome(
                *old(world),
                final(world).combat_stats@,
                final(world).suffer_damage@,
                final(world).doomed@,
                old(log).view_lines(),
                final(log).view_lines(),
                *map,
                a as usize,
                old(world).wants_to_use@[a]->0,
                player,
            ),
    {
        let ghost w0 = *old(world);
        let ghost l0 = *old(log);
        let n = world.alive.len();
        let mut a: usize = 0;
        while a < n
            invariant
                world.wf(),
                world.n() == w0.n(),
                n == w0.n(),
                map.wf(),
                tile_lists_wf(*map, w0.n()),
                0 <= a <= n,
                *world == (World {
                    combat_stats: world.combat_stats,
                    suffer_damage: world.suffer_damage,
                    doomed: world.doomed,
                    wants_to_use: world.wants_to_use,
                    ..w0
                }),
                forall|b: int| 0 <= b < a ==> (#[trigger] world.wants_to_use@[b]) is None,
                forall|b: int| a <= b < n
                    ==> (#[trigger] world.wants_to_use@[b]) == w0.wants_to_use@[b],
                l0.view_lines().is_prefix_of(log.view_lines()),
                forall|e: usize| (e as int) < n && untargeted_upto(w0, *map, e, a as int)
                    ==> world.combat_stats@[e as int] == w0.combat_stats@[e as int]
                        && world.suffer_damage@[e as int] == w0.suffer_damage@[e as int],
                forall|e: int|
                    #![trigger world.doomed@[e]]
                    0 <= e < n ==> world.doomed@[e] == (w0.doomed@[e] || consumed_by_some_intent(
                        w0,
                        e,
                        a as int,
                    )),
                no_use_intents(w0) ==> world.combat_stats@ == w0.combat_stats@
                    && world.suffer_damage@ == w0.suffer_damage@ && world.doomed@ == w0.doomed@
                    && log.view_lines() == l0.view_lines(),
                forall|c: int| 0 <= c < n && #[trigger] single_intent_at(w0, c) && c < a
                    ==> use_outcome(
                    w0,
                    world.combat_stats@,
                    world.suffer_damage@,
                    world.doomed@,
                    l0.view_lines(),
                    log.view_lines(),
                    *map,
                    c as usize,
                    w0.wants_to_use@[c]->0,
                    player,
                ),
                forall|c: int| 0 <= c < n && #[trigger] single_intent_at(w0, c) && c >= a
                    ==> world.combat_stats@ == w0.combat_stats@ && world.suffer_damage@
                        == w0.suffer_damage@ && world.doomed@ == w0.doomed@ && log.view_lines()
                        == l0.view_lines(),
            decreases n - a,
        {
            let intent = world.wants_to_use[a];
            world.wants_to_use[a] = None;
            if let Some(u) = intent {
                let ghost wpre = *world;
                let ghost lpre = *log;
                use_item_for(world, map, log, player, a, u);
                proof {
                    assert(wpre.area_of_effect@ == w0.area_of_effect@);
                    assert(wpre.n() == w0.n());
                    assert(spec_targets(wpre, *map, a, u) == spec_targets(w0, *map, a, u));
                    assert(u == w0.wants_to_use@[a as int]->0);
                    if no_use_intents(w0) {
                        assert(w0.wants_to_use@[a as int] is Some);
                        assert(false);
                    }
                    assert forall|e: usize|
                        (e as int) < n && untargeted_upto(w0, *map, e, a + 1)
                            implies world.combat_stats@[e as int] == w0.combat_stats@[e as int]
                        && world.suffer_damage@[e as int] == w0.suffer_damage@[e as int] by {
                        reveal(use_outcome);
                        assert(untargeted_upto(w0, *map, e, a as int));
                        assert(!spec_targets(w0, *map, a, u).contains(e));
                        assert(wpre.combat_stats@[e as int] == w0.combat_stats@[e as int]);
                        assert(wpre.suffer_damage@[e as int] == w0.suffer_damage@[e as int]);
                    }
                    assert(wpre.consumables@ == w0.consumables@);
                    assert(wpre.provides_healing@ == w0.provides_healing@);
                    assert(wpre.inflict_damage@ == w0.inflict_damage@);
                    assert(use_consumed(wpre, u) == use_consumed(w0, u));
                    assert forall|e: int|
                        #![trigger world.doomed@[e]]
                        0 <= e < n implies world.doomed@[e] == (w0.doomed@[e]
                        || consumed_by_some_intent(w0, e, a + 1)) by {
                        reveal(use_outcome);
                        assert(wpre.doomed@[e] == (w0.doomed@[e] || consumed_by_some_intent(
                            w0,
                            e,
                            a as int,
                        )));
                        assert(world.doomed@[e] == (wpre.doomed@[e] || (e == u.item
                            && use_consumed(wpre, u))));
                        if consumed_by_some_intent(w0, e, a + 1) && !consumed_by_some_intent(
                            w0,
                            e,
                            a as int,
                        ) {
                            let b = choose|b: int|
                                0 <= b < a + 1 && (#[trigger] w0.wants_to_use@[b]) is Some
                                    && w0.wants_to_use@[b]->0.item == e && use_consumed(
                                    w0,
                                    w0.wants_to_use@[b]->0,
                                );
                            assert(b == a);
                        }
                        if consumed_by_some_intent(w0, e, a as int) {
                            assert(consumed_by_some_intent(w0, e, a + 1));
                        }
                        if e == u.item && use_consumed(w0, u) {
                            assert(w0.wants_to_use@[a as int] is Some);
                            assert(consumed_by_some_intent(w0, e, a + 1));
                        }
                    }
                    assert forall|c: int| 0 <= c < n && #[trigger] single_intent_at(w0, c) && c
                        < a + 1 implies use_outcome(
                        w0,
                        world.combat_stats@,
                        world.suffer_damage@,
                        world.doomed@,
                        l0.view_lines(),
                        log.view_lines(),
                        *map,
                        c as usize,
                        w0.wants_to_use@[c]->0,
                        player,
                    ) by {
                        reveal(single_intent_at);
                        assert(w0.wants_to_use@[a as int] is Some);
                        assert(c == a);
                        assert(u == w0.wants_to_use@[a as int]->0);
                        assert(wpre.combat_stats@ == w0.combat_stats@);
                        assert(wpre.suffer_damage@ == w0.suffer_damage@);
                        assert(wpre.doomed@ == w0.doomed@);
                        assert(wpre.names@ == w0.names@);
                        assert(wpre.provides_healing@ == w0.provides_healing@);
                        assert(wpre.inflict_damage@ == w0.inflict_damage@);
                        assert(wpre.consumables@ == w0.consumables@);
                        assert(wpre.area_of_effect@ == w0.area_of_effect@);
                        assert(lpre.view_lines() == l0.view_lines());
                        lemma_use_outcome_same_pre(
                            wpre,
                            w0,
                            world.combat_stats@,
                            world.suffer_damage@,
                            world.doomed@,
                            lpre.view_lines(),
                            log.view_lines(),
                            *map,
                            a,
                            u,
                            player,
                        );
                    }
                    assert forall|c: int| 0 <= c < n && #[trigger] single_intent_at(w0, c) && c
                        >= a + 1 implies world.combat_stats@ == w0.combat_stats@ && world.suffer_damage@
                        == w0.suffer_damage@ && world.doomed@ == w0.doomed@ && log.view_lines()
                        == l0.view_lines() by {
                        reveal(single_intent_at);
                        assert(w0.wants_to_use@[a as int] is Some);
                        assert(c == a);
                        assert(false);
                    }
                }
            } else {
                proof {
                    assert(w0.wants_to_use@[a as int] is None);
                    assert forall|e: int|
                        #![trigger world.doomed@[e]]
                        0 <= e < n implies world.doomed@[e] == (w0.doomed@[e]
                        || consumed_by_some_intent(w0, e, a + 1)) by {
                        assert(world.doomed@[e] == (w0.doomed@[e] || consumed_by_some_intent(
                            w0,
                            e,
                            a as int,
                        )));
                        if consumed_by_some_intent(w0, e, a + 1) && !consumed_by_some_intent(
                            w0,
                            e,
                            a as int,
                        ) {
                            let b = choose|b: int|
                                0 <= b < a + 1 && (#[trigger] w0.wants_to_use@[b]) is Some
                                    && w0.wants_to_use@[b]->0.item == e && use_consumed(
                                    w0,
                                    w0.wants_to_use@[b]->0,
                                );
                            assert(false);
                        }
                        if consumed_by_some_intent(w0, e, a as int) {
                            assert(consumed_by_some_intent(w0, e, a + 1));
                        }
                    }
                    assert forall|c: int| 0 <= c < n && #[trigger] single_intent_at(w0, c) && c
                        < a + 1 implies use_outcome(
                        w0,
                        world.combat_stats@,
                        world.suffer_damage@,
                        world.doomed@,
                        l0.view_lines(),
                        log.view_lines(),
                        *map,
                        c as usize,
                        w0.wants_to_use@[c]->0,
                        player,
                    ) by {
                        reveal(single_intent_at);
                        if c == a {
                            assert(w0.wants_to_use@[a as int] is Some);
                            assert(false);
                        }
                    }
                }
            }
            a = a + 1;
        }
        proof {
            assert forall|c: int| #[trigger] single_intent_at(w0, c) implies use_outcome(
                w0,
                world.combat_stats@,
                world.suffer_damage@,
                world.doomed@,
                l0.view_lines(),
                log.view_lines(),
                *map,
                c as usize,
                w0.wants_to_use@[c]->0,
                player,
            ) by {
                reveal(single_intent_at);
            }
        }
    }
}

} // verus!
