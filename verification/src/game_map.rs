//! The spatial map: a grid of tile kinds plus two derived indexes rebuilt
//! each turn — a per-tile "blocked" flag and a per-tile list of the entities
//! standing there ("tile content").

use vstd::prelude::*;
use vstd::arithmetic::div_mod::{
    lemma_fundamental_div_mod, lemma_fundamental_div_mod_converse, lemma_mod_bound,
};
use crate::components::{Position, DIM_BOUND};
use crate::world::World;

verus! {

#[derive(Clone, Copy, PartialEq, Eq, Structural, Debug)]
pub enum TileType {
    Wall,
    Floor,
}

/// An axis-aligned room, as the outside map generator hands them over.
#[derive(Clone, Copy, PartialEq, Eq, Structural, Debug)]
pub struct Rect {
    pub x1: i32,
    pub y1: i32,
    pub x2: i32,
    pub y2: i32,
}

impl Rect {
    pub fn new(x: i32, y: i32, w: i32, h: i32) -> (r: Rect)
        requires
            -0x3000_0000 <= x + w <= 0x3000_0000,
            -0x3000_0000 <= y + h <= 0x3000_0000,
        ensures
            r.x1 == x && r.y1 == y && r.x2 == x + w && r.y2 == y + h,
    {
        Rect { x1: x, y1: y, x2: x + w, y2: y + h }
    }

    /// True when the two rooms overlap.
    pub fn intersect(&self, other: &Rect) -> (r: bool)
        ensures
            r == (self.x1 <= other.x2 && self.x2 >= other.x1 && self.y1 <= other.y2
                && self.y2 >= other.y1),
    {
        self.x1 <= other.x2 && self.x2 >= other.x1 && self.y1 <= other.y2 && self.y2 >= other.y1
    }

    pub fn center(&self) -> (c: (i32, i32))
        requires
            0 <= self.x1 + self.x2 <= 0x3000_0000,
            0 <= self.y1 + self.y2 <= 0x3000_0000,
        ensures
            c.0 == (self.x1 + self.x2) / 2,
            c.1 == (self.y1 + self.y2) / 2,
    {
        ((self.x1 + self.x2) / 2, (self.y1 + self.y2) / 2)
    }
}

pub struct GameMap {
    pub width: i32,
    pub height: i32,
    pub tiles: Vec<TileType>,
    pub rooms: Vec<Rect>,
    /// Derived: tile is a wall or holds a blocking entity.
    pub blocked: Vec<bool>,
    /// Derived: every entity positioned on the tile.
    pub tile_content: Vec<Vec<usize>>,
}

impl GameMap {
    pub open spec fn total(self) -> int {
        self.width * self.height
    }

    pub open spec fn wf(self) -> bool {
        &&& 1 <= self.width <= DIM_BOUND
        &&& 1 <= self.height <= DIM_BOUND
        &&& self.tiles@.len() == self.total()
        &&& self.blocked@.len() == self.total()
        &&& self.tile_content@.len() == self.total()
    }

    pub open spec fn spec_in_bounds(self, x: int, y: int) -> bool {
        0 <= x < self.width && 0 <= y < self.height
    }

    /// Row-major tile index of a coordinate pair.
    pub open spec fn idx_of(self, x: int, y: int) -> int {
        y * self.width + x
    }

    pub fn in_bounds(&self, x: i32, y: i32) -> (r: bool)
        ensures
            r == self.spec_in_bounds(x as int, y as int),
    {
        0 <= x && x < self.width && 0 <= y && y < self.height
    }

    pub fn xy_idx(&self, x: i32, y: i32) -> (idx: usize)
        requires
            self.wf(),
            self.spec_in_bounds(x as int, y as int),
        ensures
            idx == self.idx_of(x as int, y as int),
            idx < self.total(),
    {
        proof {
            self.lemma_idx_of_bounds(x as int, y as int);
        }
        (y * self.width + x) as usize
    }

    /// A coordinate pair in bounds has its row-major index in range, and the
    /// index decodes back to the pair.
    pub proof fn lemma_idx_of_bounds(self, x: int, y: int)
        requires
            self.wf(),
            self.spec_in_bounds(x, y),
        ensures
            0 <= self.idx_of(x, y) < self.total(),
            self.idx_of(x, y) % (self.width as int) == x,
            self.idx_of(x, y) / (self.width as int) == y,
            0 <= y * (self.width as int),
            self.total() <= 0x100_0000,
    {
        let w = self.width as int;
        let h = self.height as int;
        assert(0 <= y * w && 0 <= y * w + x && y * w + x < w * h && w * h <= 0x100_0000)
            by (nonlinear_arith)
            requires
                0 <= x < w,
                0 <= y < h,
                w <= DIM_BOUND,
                h <= DIM_BOUND,
        ;
        lemma_fundamental_div_mod_converse(y * w + x, w, y, x);
    }

    /// Distinct in-bounds coordinate pairs have distinct indexes.
    pub proof fn lemma_idx_of_injective(self, x1: int, y1: int, x2: int, y2: int)
        requires
            self.wf(),
            self.spec_in_bounds(x1, y1),
            self.spec_in_bounds(x2, y2),
            self.idx_of(x1, y1) == self.idx_of(x2, y2),
        ensures
            x1 == x2 && y1 == y2,
    {
        self.lemma_idx_of_bounds(x1, y1);
        self.lemma_idx_of_bounds(x2, y2);
    }

    /// A well-formed map has at most `DIM_BOUND * DIM_BOUND` tiles.
    pub proof fn lemma_total_bound(self)
        requires
            self.wf(),
        ensures
            0 < self.total() <= 0x100_0000,
    {
        assert(0 < (self.width as int) * (self.height as int) <= 0x100_0000)
            by (nonlinear_arith)
            requires
                1 <= self.width as int <= DIM_BOUND,
                1 <= self.height as int <= DIM_BOUND,
        ;
    }

    /// A valid tile index decodes to in-bounds coordinates and re-encodes to
    /// itself.
    pub proof fn lemma_tile_coords(self, idx: int)
        requires
            self.wf(),
            0 <= idx < self.total(),
        ensures
            self.spec_in_bounds(idx % (self.width as int), idx / (self.width as int)),
            idx == self.idx_of(idx % (self.width as int), idx / (self.width as int)),
    {
        let w = self.width as int;
        let h = self.height as int;
        lemma_mod_bound(idx, w);
        lemma_fundamental_div_mod(idx, w);
        let q = idx / w;
        let r = idx % w;
        assert(0 <= q < h) by (nonlinear_arith)
            requires
                idx == w * q + r,
                0 <= r < w,
                0 <= idx < w * h,
                1 <= w,
        ;
        assert(w * q == q * w) by (nonlinear_arith);
    }

    /// A blank map of the given size: floor everywhere except a wall ring on
    /// the border, no rooms, indexes empty. Stands in for the outside dungeon
    /// generator, which is not part of the core.
    pub fn new(width: i32, height: i32) -> (m: GameMap)
        requires
            3 <= width <= DIM_BOUND,
            3 <= height <= DIM_BOUND,
        ensures
            m.wf(),
            m.width == width,
            m.height == height,
            m.rooms@.len() == 0,
            forall|x: int, y: int| m.spec_in_bounds(x, y)
                ==> ((#[trigger] m.tiles@[m.idx_of(x, y)]) is Wall <==> (x == 0 || x == width - 1
                    || y == 0 || y == height - 1)),
            forall|idx: int| 0 <= idx < m.total()
                ==> ((#[trigger] m.blocked@[idx]) <==> m.tiles@[idx] is Wall),
            forall|idx: int| 0 <= idx < m.total()
                ==> (#[trigger] m.tile_content@[idx])@.len() == 0,
    {
        proof {
            assert(0 < width * height <= 0x100_0000) by (nonlinear_arith)
                requires
                    1 <= width <= DIM_BOUND,
                    1 <= height <= DIM_BOUND,
            ;
        }
        let total: usize = (width * height) as usize;
        let mut tiles: Vec<TileType> = Vec::new();
        let mut blocked: Vec<bool> = Vec::new();
        let mut tile_content: Vec<Vec<usize>> = Vec::new();
        let mut idx: usize = 0;
        while idx < total
            invariant
                0 <= idx <= total,
                3 <= width <= DIM_BOUND,
                3 <= height <= DIM_BOUND,
                total == width * height,
                total <= 0x100_0000,
                tiles@.len() == idx,
                blocked@.len() == idx,
                tile_content@.len() == idx,
                forall|j: int| 0 <= j < idx
                    ==> ((#[trigger] tiles@[j]) is Wall <==> (j % (width as int) == 0 || j % (
                    width as int) == width - 1 || j / (width as int) == 0 || j / (width as int)
                        == height - 1)),
                forall|j: int| 0 <= j < idx ==> ((#[trigger] blocked@[j]) <==> tiles@[j] is Wall),
                forall|j: int| 0 <= j < idx ==> (#[trigger] tile_content@[j])@.len() == 0,
            decreases total - idx,
        {
            let x = (idx as i32) % width;
            let y = (idx as i32) / width;
            let wall = x == 0 || x == width - 1 || y == 0 || y == height - 1;
            if wall {
                tiles.push(TileType::Wall);
            } else {
                tiles.push(TileType::Floor);
            }
            blocked.push(wall);
            tile_content.push(Vec::new());
            idx = idx + 1;
        }
        let m = GameMap { width, height, tiles, rooms: Vec::new(), blocked, tile_content };
        proof {
            assert forall|x: int, y: int| m.spec_in_bounds(x, y)
                implies ((#[trigger] m.tiles@[m.idx_of(x, y)]) is Wall <==> (x == 0 || x == width
                    - 1 || y == 0 || y == height - 1)) by {
                m.lemma_idx_of_bounds(x, y);
            }
        }
        m
    }
}

/// Entity `e` is live and stands at `(x, y)`.
pub open spec fn pos_at(w: World, e: int, x: int, y: int) -> bool {
    &&& 0 <= e < w.n()
    &&& w.alive@[e]
    &&& w.positions@[e] is Some
    &&& w.positions@[e]->0.x == x
    &&& w.positions@[e]->0.y == y
}

/// The derived indexes agree with the current positions: each tile's content
/// list holds exactly the live entities standing there (each once), and a
/// tile is blocked exactly when its kind blocks or a blocking entity stands
/// there.
pub open spec fn map_indexed(m: GameMap, w: World) -> bool {
    &&& forall|idx: int| 0 <= idx < m.total()
        ==> (#[trigger] m.tile_content@[idx])@.no_duplicates()
    &&& forall|idx: int, e: usize| 0 <= idx < m.total()
        ==> ((#[trigger] m.tile_content@[idx]@.contains(e)) <==> pos_at(
            w,
            e as int,
            idx % (m.width as int),
            idx / (m.width as int),
        ))
    &&& forall|idx: int| 0 <= idx < m.total()
        ==> ((#[trigger] m.blocked@[idx]) <==> (m.tiles@[idx] is Wall || exists|b: int|
            0 <= b < w.n() && w.blocks_tile@[b] && pos_at(
                w,
                b,
                idx % (m.width as int),
                idx / (m.width as int),
            )))
}

/// Rebuilds the blocked flags and tile-content lists from the current
/// positions. Runs before any system of the same pass that queries them.
pub struct MapIndexingSystem {}

impl MapIndexingSystem {
    pub fn run(map: &mut GameMap, world: &World)
        requires
            old(map).wf(),
            world.lens_ok(),
        ensures
            final(map).wf(),
            final(map).width == old(map).width,
            final(map).height == old(map).height,
            final(map).tiles == old(map).tiles,
            final(map).rooms == old(map).rooms,
            map_indexed(*final(map), *world),
    {
        let total = map.tiles.len();
        let ghost m0 = *map;
        let mut idx: usize = 0;
        while idx < total
            invariant
                map.wf(),
                map.width == m0.width,
                map.height == m0.height,
                map.tiles == m0.tiles,
                map.rooms == m0.rooms,
                total == map.total(),
                0 <= idx <= total,
                forall|j: int| 0 <= j < idx
                    ==> ((#[trigger] map.blocked@[j]) <==> map.tiles@[j] is Wall),
                forall|j: int| 0 <= j < idx ==> (#[trigger] map.tile_content@[j])@.len() == 0,
            decreases total - idx,
        {
            let is_wall = match map.tiles[idx] {
                TileType::Wall => true,
                TileType::Floor => false,
            };
            map.blocked[idx] = is_wall;
            map.tile_content[idx] = Vec::new();
            idx = idx + 1;
        }
        let n = world.alive.len();
        let mut e: usize = 0;
        while e < n
            invariant
                map.wf(),
                map.width == m0.width,
                map.height == m0.height,
                map.tiles == m0.tiles,
                map.rooms == m0.rooms,
                total == map.total(),
                world.lens_ok(),
                n == world.n(),
                0 <= e <= n,
                forall|idx: int| 0 <= idx < map.total()
                    ==> (#[trigger] map.tile_content@[idx])@.no_duplicates(),
                forall|idx: int, ent: usize| 0 <= idx < map.total()
                    ==> ((#[trigger] map.tile_content@[idx]@.contains(ent)) <==> (ent < e && pos_at(
                        *world,
                        ent as int,
                        idx % (map.width as int),
                        idx / (map.width as int),
                    ))),
                forall|idx: int| 0 <= idx < map.total()
                    ==> ((#[trigger] map.blocked@[idx]) <==> (map.tiles@[idx] is Wall || exists|
                        b: int,
                    |
                        0 <= b < e && world.blocks_tile@[b] && pos_at(
                            *world,
                            b,
                            idx % (map.width as int),
                            idx / (map.width as int),
                        ))),
            decreases n - e,
        {
            let ghost pre = *map;
            let ghost wd = map.width as int;
            let mut placement: Option<(usize, Position)> = None;
            if world.alive[e] {
                if let Some(p) = world.positions[e] {
                    if map.in_bounds(p.x, p.y) {
                        placement = Some((map.xy_idx(p.x, p.y), p));
                    }
                }
            }
            match placement {
                None => {
                    proof {
                        assert forall|idx: int| 0 <= idx < map.total() implies !pos_at(
                            *world,
                            e as int,
                            #[trigger] (idx % wd),
                            idx / wd,
                        ) by {
                            map.lemma_tile_coords(idx);
                        }
                    }
                },
                Some((target, p)) => {
                    proof {
                        map.lemma_idx_of_bounds(p.x as int, p.y as int);
                    }
                    if world.blocks_tile[e] {
                        map.blocked[target] = true;
                    }
                    proof {
                        assert(!map.tile_content@[target as int]@.contains(e));
                    }
                    map.tile_content[target].push(e);
                    proof {
                            assert forall|idx: int, ent: usize| 0 <= idx < map.total()
                                implies ((#[trigger] map.tile_content@[idx]@.contains(ent)) <==> (
                                ent < e + 1 && pos_at(
                                    *world,
                                    ent as int,
                                    idx % (map.width as int),
                                    idx / (map.width as int),
                                ))) by {
                                if idx == target {
                                    assert(map.tile_content@[idx]@ == pre.tile_content@[idx]@.push(
                                        e,
                                    ));
                                    if map.tile_content@[idx]@.contains(ent) {
                                        let k = choose|k: int|
                                            0 <= k < map.tile_content@[idx]@.len()
                                                && map.tile_content@[idx]@[k] == ent;
                                        if k < pre.tile_content@[idx]@.len() {
                                            assert(pre.tile_content@[idx]@.contains(ent));
                                        } else {
                                            assert(ent == e);
                                        }
                                    }
                                    if ent < e + 1 && pos_at(
                                        *world,
                                        ent as int,
                                        idx % (map.width as int),
                                        idx / (map.width as int),
                                    ) {
                                        if ent == e {
                                            assert(map.tile_content@[idx]@.last() == e);
                                        } else {
                                            assert(pre.tile_content@[idx]@.contains(ent));
                                            let k = choose|k: int|
                                                0 <= k < pre.tile_content@[idx]@.len()
                                                    && pre.tile_content@[idx]@[k] == ent;
                                            assert(map.tile_content@[idx]@[k] == ent);
                                        }
                                    }
                                } else {
                                    assert(map.tile_content@[idx]@ == pre.tile_content@[idx]@);
                                    if ent == e && pos_at(
                                        *world,
                                        ent as int,
                                        idx % (map.width as int),
                                        idx / (map.width as int),
                                    ) {
                                        // entity e would stand on two distinct tiles
                                        lemma_fundamental_div_mod(idx, map.width as int);
                                        assert(idx == map.idx_of(p.x as int, p.y as int));
                                        assert(false);
                                    }
                                }
                            }
                            assert forall|idx: int| 0 <= idx < map.total()
                                implies (#[trigger] map.tile_content@[idx])@.no_duplicates() by {
                                if idx == target {
                                    let prev = pre.tile_content@[idx]@;
                                    assert(!prev.contains(e));
                                    assert(map.tile_content@[idx]@ == prev.push(e));
                                    assert forall|a: int, b: int|
                                        0 <= a < prev.push(e).len() && 0 <= b < prev.push(e).len()
                                            && a != b implies prev.push(e)[a] != prev.push(e)[b] by {
                                        if a < prev.len() && b < prev.len() {
                                            assert(prev[a] != prev[b]);
                                        } else if a < prev.len() {
                                            assert(prev.push(e)[b] == e);
                                            assert(prev.contains(prev[a]) && prev[a] == prev.push(
                                                e,
                                            )[a]);
                                        } else {
                                            assert(prev.push(e)[a] == e);
                                            assert(prev.contains(prev[b]) && prev[b] == prev.push(
                                                e,
                                            )[b]);
                                        }
                                    }
                                }
                            }
                            assert forall|idx: int| 0 <= idx < map.total()
                                implies ((#[trigger] map.blocked@[idx]) <==> (pre.blocked@[idx] || (
                                world.blocks_tile@[e as int] && pos_at(
                                    *world,
                                    e as int,
                                    idx % wd,
                                    idx / wd,
                                )))) by {
                                map.lemma_tile_coords(idx);
                                if idx != target {
                                    if pos_at(*world, e as int, idx % wd, idx / wd) {
                                        assert(idx == map.idx_of(p.x as int, p.y as int));
                                        assert(false);
                                    }
                                }
                            }
                    }
                },
            }
            proof {
                lemma_index_step(pre, *map, *world, e as int);
            }
            e = e + 1;
        }
    }
}

/// Helper for the blocked-flag invariant: extending the scanned range by one
/// entity keeps the "blocked iff wall or blocker present" characterisation.
proof fn lemma_index_step(pre: GameMap, cur: GameMap, w: World, e: int)
    requires
        pre.wf(),
        cur.wf(),
        cur.width == pre.width,
        cur.tiles == pre.tiles,
        cur.total() == pre.total(),
        0 <= e < w.n(),
        forall|idx: int| 0 <= idx < pre.total()
            ==> ((#[trigger] pre.blocked@[idx]) <==> (pre.tiles@[idx] is Wall || exists|b: int|
                0 <= b < e && w.blocks_tile@[b] && pos_at(
                    w,
                    b,
                    idx % (pre.width as int),
                    idx / (pre.width as int),
                ))),
        // the step either left `blocked` alone or set the entity's own tile
        forall|idx: int| 0 <= idx < cur.total() ==> ((#[trigger] cur.blocked@[idx])
            <==> (pre.blocked@[idx] || (w.blocks_tile@[e] && pos_at(
                w,
                e,
                idx % (cur.width as int),
                idx / (cur.width as int),
            )))),
    ensures
        forall|idx: int| 0 <= idx < cur.total()
            ==> ((#[trigger] cur.blocked@[idx]) <==> (cur.tiles@[idx] is Wall || exists|b: int|
                0 <= b < e + 1 && w.blocks_tile@[b] && pos_at(
                    w,
                    b,
                    idx % (cur.width as int),
                    idx / (cur.width as int),
                ))),
{
    assert forall|idx: int| 0 <= idx < cur.total()
        implies ((#[trigger] cur.blocked@[idx]) <==> (cur.tiles@[idx] is Wall || exists|b: int|
            0 <= b < e + 1 && w.blocks_tile@[b] && pos_at(
                w,
                b,
                idx % (cur.width as int),
                idx / (cur.width as int),
            ))) by {
        let wd = cur.width as int;
        if cur.blocked@[idx] {
            if !(cur.tiles@[idx] is Wall) {
                if pre.blocked@[idx] {
                    let b = choose|b: int|
                        0 <= b < e && w.blocks_tile@[b] && pos_at(w, b, idx % wd, idx / wd);
                    assert(0 <= b < e + 1 && w.blocks_tile@[b] && pos_at(w, b, idx % wd, idx / wd));
                } else {
                    assert(w.blocks_tile@[e] && pos_at(w, e, idx % wd, idx / wd));
                }
            }
        } else {
            assert(!(cur.tiles@[idx] is Wall));
            if exists|b: int| 0 <= b < e + 1 && w.blocks_tile@[b] && pos_at(w, b, idx % wd, idx / wd) {
                let b = choose|b: int|
                    0 <= b < e + 1 && w.blocks_tile@[b] && pos_at(w, b, idx % wd, idx / wd);
                if b < e {
                    assert(pre.blocked@[idx]);
                } else {
                    assert(cur.blocked@[idx]);
                }
                assert(false);
            }
        }
    }
}

} // verus!
