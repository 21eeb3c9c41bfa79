//! Spawning: the player, monsters and items, and filling a room with a
//! random handful of each. Dice come from the outside generator behind
//! `crate::rng`; everything proved here holds for every roll.

use vstd::prelude::*;
use vstd::string::StringExecFns;
use crate::components::{
    AreaOfEffect, CombatStats, InflictDamage, Name, Point, Position, ProvidesHealing, Ranged,
    Renderable, Rgb, Viewshed,
};
use crate::game_map::Rect;
use crate::monster_ai_system::point_in_list;
use crate::rng::roll_dice;
use crate::world::World;

verus! {

pub const MAX_MONSTERS: i32 = 4;

pub const MAX_ITEMS: i32 = 2;

/// Entity `e` was just spawned at `(x, y)`: live, placed there, and not in
/// anyone's backpack.
pub open spec fn spawned_at(w: World, e: int, x: i32, y: i32) -> bool {
    &&& 0 <= e < w.n()
    &&& w.alive@[e]
    &&& w.positions@[e] == Some(Position { x, y })
    &&& w.in_backpack@[e] is None
}

/// Storages the spawners never write grew by one empty slot and the rest
/// kept their old entries.
pub open spec fn spawn_extends(w0: World, w1: World) -> bool {
    &&& w1.n() == w0.n() + 1
    &&& forall|j: int| 0 <= j < w0.n() ==> (#[trigger] w1.alive@[j]) == w0.alive@[j]
    &&& forall|j: int| 0 <= j < w0.n() ==> (#[trigger] w1.positions@[j]) == w0.positions@[j]
    &&& forall|j: int| 0 <= j < w0.n() ==> (#[trigger] w1.names@[j]) == w0.names@[j]
    &&& forall|j: int| 0 <= j < w0.n() ==> (#[trigger] w1.combat_stats@[j]) == w0.combat_stats@[j]
    &&& forall|j: int| 0 <= j < w0.n() ==> (#[trigger] w1.items@[j]) == w0.items@[j]
    &&& forall|j: int| 0 <= j < w0.n() ==> (#[trigger] w1.players@[j]) == w0.players@[j]
    &&& forall|j: int| 0 <= j < w0.n() ==> (#[trigger] w1.monsters@[j]) == w0.monsters@[j]
    &&& forall|j: int| 0 <= j < w0.n() ==> (#[trigger] w1.in_backpack@[j]) == w0.in_backpack@[j]
    &&& forall|j: int| 0 <= j < w0.n() ==> (#[trigger] w1.consumables@[j]) == w0.consumables@[j]
    &&& forall|j: int| 0 <= j < w0.n()
        ==> (#[trigger] w1.provides_healing@[j]) == w0.provides_healing@[j]
    &&& forall|j: int| 0 <= j < w0.n()
        ==> (#[trigger] w1.inflict_damage@[j]) == w0.inflict_damage@[j]
    &&& forall|j: int| 0 <= j < w0.n() ==> (#[trigger] w1.ranged@[j]) == w0.ranged@[j]
    &&& forall|j: int| 0 <= j < w0.n()
        ==> (#[trigger] w1.area_of_effect@[j]) == w0.area_of_effect@[j]
    &&& forall|j: int| 0 <= j < w0.n()
        ==> (#[trigger] w1.wants_to_pickup@[j]) == w0.wants_to_pickup@[j]
    &&& forall|j: int| 0 <= j < w0.n() ==> (#[trigger] w1.wants_to_use@[j]) == w0.wants_to_use@[j]
    &&& forall|j: int| 0 <= j < w0.n()
        ==> (#[trigger] w1.wants_to_drop@[j]) == w0.wants_to_drop@[j]
    &&& forall|j: int| 0 <= j < w0.n()
        ==> (#[trigger] w1.wants_to_melee@[j]) == w0.wants_to_melee@[j]
    &&& forall|j: int| 0 <= j < w0.n()
        ==> (#[trigger] w1.suffer_damage@[j]) == w0.suffer_damage@[j]
    &&& forall|j: int| 0 <= j < w0.n() ==> (#[trigger] w1.blocks_tile@[j]) == w0.blocks_tile@[j]
    &&& forall|j: int| 0 <= j < w0.n() ==> (#[trigger] w1.doomed@[j]) == w0.doomed@[j]
    &&& forall|j: int| 0 <= j < w0.n() ==> (#[trigger] w1.renderables@[j]) == w0.renderables@[j]
    &&& forall|j: int| 0 <= j < w0.n() ==> (#[trigger] w1.viewsheds@[j]) == w0.viewsheds@[j]
    &&& w1.wants_to_pickup@[w0.n()] is None
    &&& w1.wants_to_use@[w0.n()] is None
    &&& w1.wants_to_drop@[w0.n()] is None
    &&& w1.wants_to_melee@[w0.n()] is None
    &&& w1.suffer_damage@[w0.n()] is None
    &&& !w1.doomed@[w0.n()]
}

/// A fresh viewshed as the spawners hand it out: empty, sight range
/// `range`, marked dirty for the outside visibility pass.
pub open spec fn fresh_viewshed(v: Option<Viewshed>, range: i32) -> bool {
    &&& v is Some
    &&& v->0.visible_tiles@ == Seq::<Point>::empty()
    &&& v->0.range == range
    &&& v->0.dirty
}

/// Spawns the player: placed, seeing, named "Player", thirty hit points.
pub fn player(world: &mut World, player_x: i32, player_y: i32) -> (e: usize)
    requires
        old(world).wf(),
        old(world).n() < usize::MAX,
    ensures
        final(world).wf(),
        e == old(world).n(),
        spawn_extends(*old(world), *final(world)),
        spawned_at(*final(world), e as int, player_x, player_y),
        final(world).players@[e as int],
        !final(world).monsters@[e as int],
        !final(world).items@[e as int],
        fresh_viewshed(final(world).viewsheds@[e as int], 8),
        final(world).renderables@[e as int] == Some(
            Renderable {
                glyph: '@',
                fg: Rgb { r: 255, g: 255, b: 0 },
                bg: Rgb { r: 0, g: 0, b: 0 },
                render_order: 0,
            },
        ),
        final(world).names@[e as int] is Some && final(world).names@[e as int]->0.name@
            == "Player"@,
        final(world).combat_stats@[e as int] == Some(
            CombatStats { max_hp: 30, hp: 30, defense: 2, power: 17 },
        ),
        old(world).settled() ==> final(world).settled(),
        old(world).items_placed() ==> final(world).items_placed(),
        crate::player::single_player(*old(world)) && (forall|j: int|
            0 <= j < old(world).n() ==> !(#[trigger] old(world).players@[j]))
            ==> crate::player::single_player(*final(world)),
{
    let e = world.create_entity();
    world.positions[e] = Some(Position { x: player_x, y: player_y });
    world.renderables[e] = Some(
        Renderable {
            glyph: '@',
            fg: Rgb { r: 255, g: 255, b: 0 },
            bg: Rgb { r: 0, g: 0, b: 0 },
            render_order: 0,
        },
    );
    world.players[e] = true;
    world.viewsheds[e] = Some(Viewshed { visible_tiles: Vec::new(), range: 8, dirty: true });
    world.names[e] = Some(Name { name: String::from_str("Player") });
    world.combat_stats[e] = Some(CombatStats { max_hp: 30, hp: 30, defense: 2, power: 17 });
    e
}

/// Spawns one monster: blocking, seeing, named, sixteen hit points.
pub fn monster(world: &mut World, x: i32, y: i32, glyph: char, name: &str) -> (e: usize)
    requires
        old(world).wf(),
        old(world).n() < usize::MAX,
    ensures
        final(world).wf(),
        e == old(world).n(),
        spawn_extends(*old(world), *final(world)),
        spawned_at(*final(world), e as int, x, y),
        final(world).monsters@[e as int],
        !final(world).players@[e as int],
        !final(world).items@[e as int],
        final(world).blocks_tile@[e as int],
        fresh_viewshed(final(world).viewsheds@[e as int], 8),
        final(world).renderables@[e as int] == Some(
            Renderable {
                glyph,
                fg: Rgb { r: 255, g: 0, b: 0 },
                bg: Rgb { r: 0, g: 0, b: 0 },
                render_order: 1,
            },
        ),
        final(world).names@[e as int] is Some && final(world).names@[e as int]->0.name@ == name@,
        final(world).combat_stats@[e as int] == Some(
            CombatStats { max_hp: 16, hp: 16, defense: 1, power: 2 },
        ),
        old(world).settled() ==> final(world).settled(),
        old(world).items_placed() ==> final(world).items_placed(),
        crate::player::single_player(*old(world)) ==> crate::player::single_player(*final(world)),
{
    let e = world.create_entity();
    world.positions[e] = Some(Position { x, y });
    world.renderables[e] = Some(
        Renderable {
            glyph,
            fg: Rgb { r: 255, g: 0, b: 0 },
            bg: Rgb { r: 0, g: 0, b: 0 },
            render_order: 1,
        },
    );
    world.viewsheds[e] = Some(Viewshed { visible_tiles: Vec::new(), range: 8, dirty: true });
    world.monsters[e] = true;
    world.names[e] = Some(Name { name: String::from_str(name) });
    world.blocks_tile[e] = true;
    world.combat_stats[e] = Some(CombatStats { max_hp: 16, hp: 16, defense: 1, power: 2 });
    e
}

pub fn orc(world: &mut World, x: i32, y: i32)
    requires
        old(world).wf(),
        old(world).n() < usize::MAX,
    ensures
        final(world).wf(),
        spawn_extends(*old(world), *final(world)),
        spawned_at(*final(world), old(world).n(), x, y),
        final(world).monsters@[old(world).n()],
        !final(world).players@[old(world).n()],
        !final(world).items@[old(world).n()],
        final(world).blocks_tile@[old(world).n()],
        fresh_viewshed(final(world).viewsheds@[old(world).n()], 8),
        final(world).combat_stats@[old(world).n()] == Some(
            CombatStats { max_hp: 16, hp: 16, defense: 1, power: 2 },
        ),
        final(world).names@[old(world).n()] is Some && final(world).names@[old(world).n()]->0.name@ == "Orc"@,
        old(world).settled() ==> final(world).settled(),
        old(world).items_placed() ==> final(world).items_placed(),
        crate::player::single_player(*old(world)) ==> crate::player::single_player(*final(world)),
{
    monster(world, x, y, 'o', "Orc");
}

pub fn goblin(world: &mut World, x: i32, y: i32)
    requires
        old(world).wf(),
        old(world).n() < usize::MAX,
    ensures
        final(world).wf(),
        spawn_extends(*old(world), *final(world)),
        spawned_at(*final(world), old(world).n(), x, y),
        final(world).monsters@[old(world).n()],
        !final(world).players@[old(world).n()],
        !final(world).items@[old(world).n()],
        final(world).blocks_tile@[old(world).n()],
        fresh_viewshed(final(world).viewsheds@[old(world).n()], 8),
        final(world).combat_stats@[old(world).n()] == Some(
            CombatStats { max_hp: 16, hp: 16, defense: 1, power: 2 },
        ),
        final(world).names@[old(world).n()] is Some && final(world).names@[old(world).n()]->0.name@ == "Goblin"@,
        old(world).settled() ==> final(world).settled(),
        old(world).items_placed() ==> final(world).items_placed(),
        crate::player::single_player(*old(world)) ==> crate::player::single_player(*final(world)),
{
    monster(world, x, y, 'g', "Goblin");
}

/// Spawns an orc or a goblin at the given spot, on a coin flip from the
/// outside generator: whatever came up, a monster now stands there.
pub fn random_monster(world: &mut World, rng: &mut rltk::RandomNumberGenerator, x: i32, y: i32)
    requires
        old(world).wf(),
        old(world).n() < usize::MAX,
    ensures
        final(world).wf(),
        spawn_extends(*old(world), *final(world)),
        spawned_at(*final(world), old(world).n(), x, y),
        final(world).monsters@[old(world).n()],
        final(world).blocks_tile@[old(world).n()],
        final(world).combat_stats@[old(world).n()] == Some(
            CombatStats { max_hp: 16, hp: 16, defense: 1, power: 2 },
        ),
        final(world).names@[old(world).n()] is Some && (final(world).names@[old(world).n()]->0.name@ == "Orc"@ || final(world).names@[old(world).n()]->0.name@ == "Goblin"@),
        old(world).settled() ==> final(world).settled(),
        old(world).items_placed() ==> final(world).items_placed(),
        crate::player::single_player(*old(world)) ==> crate::player::single_player(*final(world)),
{
    let roll = roll_dice(rng, 1, 2);
    if roll == 1 {
        orc(world, x, y);
    } else {
        goblin(world, x, y);
    }
}

/// An item entity: pickable, consumable, placed on the map.
pub open spec fn item_shaped(w: World, e: int) -> bool {
    &&& w.items@[e]
    &&& w.consumables@[e]
    &&& !w.players@[e]
    &&& !w.monsters@[e]
    &&& w.combat_stats@[e] is None
}

pub fn health_potion(world: &mut World, x: i32, y: i32)
    requires
        old(world).wf(),
        old(world).n() < usize::MAX,
    ensures
        final(world).wf(),
        spawn_extends(*old(world), *final(world)),
        spawned_at(*final(world), old(world).n(), x, y),
        item_shaped(*final(world), old(world).n()),
        final(world).names@[old(world).n()] is Some && final(world).names@[old(world).n()]->0.name@ == "Health Potion"@,
        final(world).provides_healing@[old(world).n()] == Some(ProvidesHealing { heal_amount: 8 }),
        final(world).inflict_damage@[old(world).n()] is None,
        final(world).area_of_effect@[old(world).n()] is None,
        final(world).ranged@[old(world).n()] is None,
        old(world).settled() ==> final(world).settled(),
        old(world).items_placed() ==> final(world).items_placed(),
        crate::player::single_player(*old(world)) ==> crate::player::single_player(*final(world)),
{
    let e = world.create_entity();
    world.positions[e] = Some(Position { x, y });
    world.renderables[e] = Some(
        Renderable {
            glyph: 'i',
            fg: Rgb { r: 255, g: 0, b: 255 },
            bg: Rgb { r: 0, g: 0, b: 0 },
            render_order: 2,
        },
    );
    world.names[e] = Some(Name { name: String::from_str("Health Potion") });
    world.items[e] = true;
    world.consumables[e] = true;
    world.provides_healing[e] = Some(ProvidesHealing { heal_amount: 8 });
}

pub fn magic_missile(world: &mut World, x: i32, y: i32)
    requires
        old(world).wf(),
        old(world).n() < usize::MAX,
    ensures
        final(world).wf(),
        spawn_extends(*old(world), *final(world)),
        spawned_at(*final(world), old(world).n(), x, y),
        item_shaped(*final(world), old(world).n()),
        final(world).names@[old(world).n()] is Some && final(world).names@[old(world).n()]->0.name@ == "Scroll of Magic Missile"@,
        final(world).provides_healing@[old(world).n()] is None,
        final(world).inflict_damage@[old(world).n()] == Some(InflictDamage { damage: 17 }),
        final(world).area_of_effect@[old(world).n()] is None,
        final(world).ranged@[old(world).n()] == Some(Ranged { range: 6 }),
        old(world).settled() ==> final(world).settled(),
        old(world).items_placed() ==> final(world).items_placed(),
        crate::player::single_player(*old(world)) ==> crate::player::single_player(*final(world)),
{
    let e = world.create_entity();
    world.positions[e] = Some(Position { x, y });
    world.renderables[e] = Some(
        Renderable {
            glyph: ')',
            fg: Rgb { r: 0, g: 255, b: 255 },
            bg: Rgb { r: 0, g: 0, b: 0 },
            render_order: 2,
        },
    );
    world.names[e] = Some(Name { name: String::from_str("Scroll of Magic Missile") });
    world.items[e] = true;
    world.consumables[e] = true;
    world.ranged[e] = Some(Ranged { range: 6 });
    world.inflict_damage[e] = Some(InflictDamage { damage: 17 });
}

pub fn fireball(world: &mut World, x: i32, y: i32)
    requires
        old(world).wf(),
        old(world).n() < usize::MAX,
    ensures
        final(world).wf(),
        spawn_extends(*old(world), *final(world)),
        spawned_at(*final(world), old(world).n(), x, y),
        item_shaped(*final(world), old(world).n()),
        final(world).names@[old(world).n()] is Some && final(world).names@[old(world).n()]->0.name@ == "Scroll of Fireball"@,
        final(world).provides_healing@[old(world).n()] is None,
        final(world).inflict_damage@[old(world).n()] == Some(InflictDamage { damage: 20 }),
        final(world).area_of_effect@[old(world).n()] == Some(AreaOfEffect { radius: 3 }),
        final(world).ranged@[old(world).n()] == Some(Ranged { range: 6 }),
        old(world).settled() ==> final(world).settled(),
        old(world).items_placed() ==> final(world).items_placed(),
        crate::player::single_player(*old(world)) ==> crate::player::single_player(*final(world)),
{
    let e = world.create_entity();
    world.positions[e] = Some(Position { x, y });
    world.renderables[e] = Some(
        Renderable {
            glyph: ')',
            fg: Rgb { r: 255, g: 165, b: 0 },
            bg: Rgb { r: 0, g: 0, b: 0 },
            render_order: 2,
        },
    );
    world.names[e] = Some(Name { name: String::from_str("Scroll of Fireball") });
    world.items[e] = true;
    world.consumables[e] = true;
    world.ranged[e] = Some(Ranged { range: 6 });
    world.inflict_damage[e] = Some(InflictDamage { damage: 20 });
    world.area_of_effect[e] = Some(AreaOfEffect { radius: 3 });
}

/// Spawns one of the three items at the given spot, on a die from the
/// outside generator: whatever came up, an item now lies there.
pub fn random_item(world: &mut World, rng: &mut rltk::RandomNumberGenerator, x: i32, y: i32)
    requires
        old(world).wf(),
        old(world).n() < usize::MAX,
    ensures
        final(world).wf(),
        spawn_extends(*old(world), *final(world)),
        spawned_at(*final(world), old(world).n(), x, y),
        item_shaped(*final(world), old(world).n()),
        old(world).settled() ==> final(world).settled(),
        old(world).items_placed() ==> final(world).items_placed(),
        crate::player::single_player(*old(world)) ==> crate::player::single_player(*final(world)),
{
    let roll = roll_dice(rng, 1, 3);
    if roll == 1 {
        health_potion(world, x, y);
    } else if roll == 2 {
        magic_missile(world, x, y);
    } else {
        fireball(world, x, y);
    }
}

/// Fills a room with a random handful of monsters and items, each on its
/// own tile strictly inside the room's span: monsters and items draw from
/// one shared tile list, so no two spawns of this call share a tile.
/// Whatever the dice said, every entity spawned here is a placed monster
/// or item inside the room. Each placement gets a bounded number of
/// attempts at a free tile and is skipped when they run out, so a crowded
/// room spawns fewer entities rather than rolling forever.
pub fn spawn_room(world: &mut World, rng: &mut rltk::RandomNumberGenerator, room: &Rect)
    requires
        old(world).wf(),
        0 <= room.x1,
        room.x1 < room.x2 <= 4000,
        0 <= room.y1,
        room.y1 < room.y2 <= 4000,
        old(world).n() + 8 < usize::MAX,
    ensures
        final(world).wf(),
        final(world).n() >= old(world).n(),
        forall|e: int| old(world).n() <= e < final(world).n() ==> {
            &&& #[trigger] final(world).alive@[e]
            &&& final(world).positions@[e] is Some
            &&& room.x1 < final(world).positions@[e]->0.x <= room.x2
            &&& room.y1 < final(world).positions@[e]->0.y <= room.y2
            &&& (final(world).monsters@[e] || final(world).items@[e])
        },
        forall|e1: int, e2: int|
            old(world).n() <= e1 < final(world).n() && old(world).n() <= e2 < final(world).n()
                && e1 != e2 ==> (#[trigger] final(world).positions@[e1]) != (
            #[trigger] final(world).positions@[e2]),
        forall|j: int| 0 <= j < old(world).n()
            ==> (#[trigger] final(world).alive@[j]) == old(world).alive@[j],
        forall|j: int| 0 <= j < old(world).n()
            ==> (#[trigger] final(world).positions@[j]) == old(world).positions@[j],
        forall|j: int| 0 <= j < old(world).n()
            ==> (#[trigger] final(world).names@[j]) == old(world).names@[j],
        forall|j: int| 0 <= j < old(world).n()
            ==> (#[trigger] final(world).combat_stats@[j]) == old(world).combat_stats@[j],
        forall|j: int| 0 <= j < old(world).n()
            ==> (#[trigger] final(world).items@[j]) == old(world).items@[j],
        forall|j: int| 0 <= j < old(world).n()
            ==> (#[trigger] final(world).in_backpack@[j]) == old(world).in_backpack@[j],
        old(world).settled() ==> final(world).settled(),
        old(world).items_placed() ==> final(world).items_placed(),
        crate::player::single_player(*old(world)) ==> crate::player::single_player(*final(world)),
{
    let ghost w0 = *old(world);
    let num_monsters = roll_dice(rng, 1, MAX_MONSTERS + 2) - 3;
    let num_items = roll_dice(rng, 1, MAX_ITEMS + 2) - 3;

    let mut spawn_points: Vec<Point> = Vec::new();
    let mut i: i32 = 0;
    while i < num_monsters
        invariant
            0 <= i,
            num_monsters <= 3,
            room.x1 < room.x2 <= 4000,
            room.y1 < room.y2 <= 4000,
            0 <= room.x1,
            0 <= room.y1,
            spawn_points@.len() <= i,
            spawn_points@.len() <= 3,
            spawn_points@.no_duplicates(),
            forall|k: int| 0 <= k < spawn_points@.len()
                ==> room.x1 < (#[trigger] spawn_points@[k]).x <= room.x2 && room.y1
                    < spawn_points@[k].y <= room.y2,
        decreases num_monsters - i,
    {
        let mut attempt: i32 = 0;
        let mut added = false;
        let ghost base = spawn_points@.len();
        while attempt < 16 && !added
            invariant
                0 <= attempt <= 16,
                room.x1 < room.x2 <= 4000,
                room.y1 < room.y2 <= 4000,
                0 <= room.x1,
                0 <= room.y1,
                base <= i,
                spawn_points@.len() == base + (if added { 1int } else { 0int }),
                spawn_points@.no_duplicates(),
                i < num_monsters <= 3,
                forall|k: int| 0 <= k < spawn_points@.len()
                    ==> room.x1 < (#[trigger] spawn_points@[k]).x <= room.x2 && room.y1
                        < spawn_points@[k].y <= room.y2,
            decreases 16 - attempt + (if added { 0int } else { 1int }),
    {
            let x = room.x1 + roll_dice(rng, 1, room.x2 - room.x1);
            let y = room.y1 + roll_dice(rng, 1, room.y2 - room.y1);
            let p = Point { x, y };
            if !point_in_list(&spawn_points, p) {
                let ghost before = spawn_points@;
                spawn_points.push(p);
                proof {
                    assert forall|u: int, v: int|
                        0 <= u < spawn_points@.len() && 0 <= v < spawn_points@.len() && u != v
                            implies spawn_points@[u] != spawn_points@[v] by {
                        if u < before.len() && v < before.len() {
                            assert(before[u] != before[v]);
                        } else if u < before.len() {
                            assert(before.contains(before[u]) && spawn_points@[v] == p);
                        } else if v < before.len() {
                            assert(before.contains(before[v]) && spawn_points@[u] == p);
                        }
                    }
                }
                added = true;
            }
            attempt = attempt + 1;
        }
        i = i + 1;
    }
    let monster_count = spawn_points.len();

    let mut j: i32 = 0;
    while j < num_items
        invariant
            0 <= j,
            num_items <= 1,
            room.x1 < room.x2 <= 4000,
            room.y1 < room.y2 <= 4000,
            0 <= room.x1,
            0 <= room.y1,
            monster_count <= spawn_points@.len(),
            monster_count <= 3,
            spawn_points@.len() <= monster_count + j,
            spawn_points@.len() <= 4,
            spawn_points@.no_duplicates(),
            forall|k: int| 0 <= k < spawn_points@.len()
                ==> room.x1 < (#[trigger] spawn_points@[k]).x <= room.x2 && room.y1
                    < spawn_points@[k].y <= room.y2,
        decreases num_items - j,
    {
        let mut attempt: i32 = 0;
        let mut added = false;
        let ghost base = spawn_points@.len();
        while attempt < 16 && !added
            invariant
                0 <= attempt <= 16,
                room.x1 < room.x2 <= 4000,
                room.y1 < room.y2 <= 4000,
                0 <= room.x1,
                0 <= room.y1,
                monster_count <= base,
                base <= monster_count + j,
                spawn_points@.len() == base + (if added { 1int } else { 0int }),
                spawn_points@.no_duplicates(),
                j < num_items <= 1,
                forall|k: int| 0 <= k < spawn_points@.len()
                    ==> room.x1 < (#[trigger] spawn_points@[k]).x <= room.x2 && room.y1
                        < spawn_points@[k].y <= room.y2,
            decreases 16 - attempt + (if added { 0int } else { 1int }),
        {
            let x = room.x1 + roll_dice(rng, 1, room.x2 - room.x1);
            let y = room.y1 + roll_dice(rng, 1, room.y2 - room.y1);
            let p = Point { x, y };
            if !point_in_list(&spawn_points, p) {
                let ghost before = spawn_points@;
                spawn_points.push(p);
                proof {
                    assert forall|u: int, v: int|
                        0 <= u < spawn_points@.len() && 0 <= v < spawn_points@.len() && u != v
                            implies spawn_points@[u] != spawn_points@[v] by {
                        if u < before.len() && v < before.len() {
                            assert(before[u] != before[v]);
                        } else if u < before.len() {
                            assert(before.contains(before[u]) && spawn_points@[v] == p);
                        } else if v < before.len() {
                            assert(before.contains(before[v]) && spawn_points@[u] == p);
                        }
                    }
                }
                added = true;
            }
            attempt = attempt + 1;
        }
        j = j + 1;
    }

    let total = spawn_points.len();
    let mut k: usize = 0;
    while k < total
        invariant
            world.wf(),
            0 <= k <= total,
            total == spawn_points@.len(),
            total <= 4,
            monster_count <= total,
            world.n() == w0.n() + k,
            w0.n() + 8 < usize::MAX,
            forall|idx: int| 0 <= idx < total
                ==> room.x1 < (#[trigger] spawn_points@[idx]).x <= room.x2 && room.y1
                    < spawn_points@[idx].y <= room.y2,
            spawn_points@.no_duplicates(),
            forall|e: int| w0.n() <= e < world.n() ==> {
                &&& #[trigger] world.alive@[e]
                &&& world.positions@[e] is Some
                &&& room.x1 < world.positions@[e]->0.x <= room.x2
                &&& room.y1 < world.positions@[e]->0.y <= room.y2
                &&& (world.monsters@[e] || world.items@[e])
            },
            forall|k2: int| 0 <= k2 < k ==> (#[trigger] world.positions@[w0.n() + k2]) == Some(
                Position { x: spawn_points@[k2].x, y: spawn_points@[k2].y },
            ),
            forall|j2: int| 0 <= j2 < w0.n()
                ==> (#[trigger] world.alive@[j2]) == w0.alive@[j2],
            forall|j2: int| 0 <= j2 < w0.n()
                ==> (#[trigger] world.positions@[j2]) == w0.positions@[j2],
            forall|j2: int| 0 <= j2 < w0.n() ==> (#[trigger] world.names@[j2]) == w0.names@[j2],
            forall|j2: int| 0 <= j2 < w0.n()
                ==> (#[trigger] world.combat_stats@[j2]) == w0.combat_stats@[j2],
            forall|j2: int| 0 <= j2 < w0.n() ==> (#[trigger] world.items@[j2]) == w0.items@[j2],
            forall|j2: int| 0 <= j2 < w0.n()
                ==> (#[trigger] world.in_backpack@[j2]) == w0.in_backpack@[j2],
            w0.settled() ==> world.settled(),
            w0.items_placed() ==> world.items_placed(),
            crate::player::single_player(w0) ==> crate::player::single_player(*world),
        decreases total - k,
    {
        let p = spawn_points[k];
        let ghost wprev = *world;
        proof {
            assert(spawn_points@[k as int] == p);
        }
        if k < monster_count {
            random_monster(world, rng, p.x, p.y);
        } else {
            random_item(world, rng, p.x, p.y);
        }
        proof {
            assert(world.positions@[w0.n() + k] == Some(Position { x: p.x, y: p.y }));
        }
        proof {
            assert forall|e: int| w0.n() <= e < world.n() implies {
                &&& #[trigger] world.alive@[e]
                &&& world.positions@[e] is Some
                &&& room.x1 < world.positions@[e]->0.x <= room.x2
                &&& room.y1 < world.positions@[e]->0.y <= room.y2
                &&& (world.monsters@[e] || world.items@[e])
            } by {
                if e < wprev.n() {
                    assert(world.alive@[e] == wprev.alive@[e]);
                    assert(world.positions@[e] == wprev.positions@[e]);
                    assert(world.monsters@[e] == wprev.monsters@[e]);
                    assert(world.items@[e] == wprev.items@[e]);
                } else {
                    assert(e == wprev.n());
                }
            }
            assert forall|k2: int|
                0 <= k2 < k + 1 implies (#[trigger] world.positions@[w0.n() + k2]) == Some(
                Position { x: spawn_points@[k2].x, y: spawn_points@[k2].y },
            ) by {
                if k2 < k {
                    assert(world.positions@[w0.n() + k2] == wprev.positions@[w0.n() + k2]);
                }
            }
            assert forall|j2: int| 0 <= j2 < w0.n() implies (#[trigger] world.alive@[j2])
                == w0.alive@[j2] by {
                assert(world.alive@[j2] == wprev.alive@[j2]);
            }
            assert forall|j2: int| 0 <= j2 < w0.n() implies (#[trigger] world.positions@[j2])
                == w0.positions@[j2] by {
                assert(world.positions@[j2] == wprev.positions@[j2]);
            }
            assert forall|j2: int| 0 <= j2 < w0.n() implies (#[trigger] world.names@[j2])
                == w0.names@[j2] by {
                assert(world.names@[j2] == wprev.names@[j2]);
            }
            assert forall|j2: int| 0 <= j2 < w0.n() implies (#[trigger] world.combat_stats@[j2])
                == w0.combat_stats@[j2] by {
                assert(world.combat_stats@[j2] == wprev.combat_stats@[j2]);
            }
            assert forall|j2: int| 0 <= j2 < w0.n() implies (#[trigger] world.items@[j2])
                == w0.items@[j2] by {
                assert(world.items@[j2] == wprev.items@[j2]);
            }
            assert forall|j2: int| 0 <= j2 < w0.n() implies (#[trigger] world.in_backpack@[j2])
                == w0.in_backpack@[j2] by {
                assert(world.in_backpack@[j2] == wprev.in_backpack@[j2]);
            }
        }
        k = k + 1;
    }
    proof {
        assert forall|e1: int, e2: int|
            w0.n() <= e1 < world.n() && w0.n() <= e2 < world.n() && e1 != e2 implies (
        #[trigger] world.positions@[e1]) != (#[trigger] world.positions@[e2]) by {
            let k1 = e1 - w0.n();
            let k2 = e2 - w0.n();
            assert(world.positions@[w0.n() + k1] == Some(
                Position { x: spawn_points@[k1].x, y: spawn_points@[k1].y },
            ));
            assert(world.positions@[w0.n() + k2] == Some(
                Position { x: spawn_points@[k2].x, y: spawn_points@[k2].y },
            ));
            assert(spawn_points@[k1] != spawn_points@[k2]);
        }
    }
}

} // verus!
