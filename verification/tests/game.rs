use dungeon_core::components::{CombatStats, Point, Position, WantsToDrop, WantsToMelee, WantsToUse};
use dungeon_core::game_map::{GameMap, MapIndexingSystem, TileType};
use dungeon_core::gamelog::{damage_line, drop_line, heal_line, nothing_here_line, pickup_line, u32_string, GameLog};
use dungeon_core::inventory_system::resolve_targets;
use dungeon_core::player::PlayerCommand;
use dungeon_core::spawner;
use dungeon_core::state::{RunState, State, TickInput};
use dungeon_core::world::World;

fn no_paths(n: usize) -> Vec<Option<Point>> {
    let mut v = Vec::new();
    for _ in 0..n {
        v.push(None);
    }
    v
}

/// A fresh 20x20 floor with a wall ring, the player at (5, 5).
fn fresh_state() -> State {
    let mut world = World::new();
    let player = spawner::player(&mut world, 5, 5);
    let map = GameMap::new(20, 20);
    State::new(world, map, GameLog::new(), player, Point { x: 5, y: 5 })
}

#[test]
fn decimal_rendering_is_exact() {
    assert_eq!(u32_string(0), "0");
    assert_eq!(u32_string(8), "8");
    assert_eq!(u32_string(17), "17");
    assert_eq!(u32_string(120345), "120345");
}

#[test]
fn log_lines_match_the_wording() {
    assert_eq!(pickup_line("Health Potion"), "You pick up the Health Potion");
    assert_eq!(drop_line("Health Potion"), "You drop the Health Potion");
    assert_eq!(
        heal_line("Health Potion", 8),
        "You use the Health Potion, healing 8 hp"
    );
    assert_eq!(
        damage_line("Scroll of Magic Missile", "Orc", 17),
        "You use Scroll of Magic Missile on Orc, inflicting 17 hp."
    );
    assert_eq!(nothing_here_line(), "There is nothing here to pick up.");
}

#[test]
fn blank_map_has_border_walls_and_open_interior() {
    let map = GameMap::new(5, 4);
    assert_eq!(map.tiles[map.xy_idx(0, 0)], TileType::Wall);
    assert_eq!(map.tiles[map.xy_idx(4, 3)], TileType::Wall);
    assert_eq!(map.tiles[map.xy_idx(2, 0)], TileType::Wall);
    assert_eq!(map.tiles[map.xy_idx(2, 2)], TileType::Floor);
    assert!(map.blocked[map.xy_idx(0, 1)]);
    assert!(!map.blocked[map.xy_idx(1, 1)]);
}

#[test]
fn map_indexing_tracks_positions_and_blockers() {
    let mut gs = fresh_state();
    spawner::orc(&mut gs.world, 7, 7);
    let orc = gs.world.alive.len() - 1;
    MapIndexingSystem::run(&mut gs.map, &gs.world);
    let idx = gs.map.xy_idx(7, 7);
    assert_eq!(gs.map.tile_content[idx], vec![orc]);
    assert!(gs.map.blocked[idx]);
    let pidx = gs.map.xy_idx(5, 5);
    assert_eq!(gs.map.tile_content[pidx], vec![gs.player]);
    assert!(!gs.map.blocked[pidx]);
}

#[test]
fn healing_is_clamped_to_max_hp() {
    // player at 20/30 heals 8 -> 28; at 28/30 heals 8 -> clamped to 30
    let mut gs = fresh_state();
    spawner::health_potion(&mut gs.world, 1, 1);
    let potion = gs.world.alive.len() - 1;
    gs.world.positions[potion] = None;
    gs.world.in_backpack[potion] =
        Some(dungeon_core::components::InBackpack { owner: gs.player });
    gs.world.combat_stats[gs.player] = Some(CombatStats {
        max_hp: 30,
        hp: 20,
        defense: 2,
        power: 17,
    });
    gs.world.wants_to_use[gs.player] = Some(WantsToUse { item: potion, target: None });
    gs.run_state = RunState::PlayerTurn;
    let paths = no_paths(gs.world.alive.len());
    gs.tick(TickInput::Nothing, &paths);
    assert_eq!(gs.world.combat_stats[gs.player].unwrap().hp, 28);
    assert!(gs
        .log
        .entries
        .iter()
        .any(|l| l == "You use the Health Potion, healing 8 hp"));
}

#[test]
fn healing_never_exceeds_max_hp() {
    let mut gs = fresh_state();
    spawner::health_potion(&mut gs.world, 1, 1);
    let potion = gs.world.alive.len() - 1;
    gs.world.positions[potion] = None;
    gs.world.in_backpack[potion] =
        Some(dungeon_core::components::InBackpack { owner: gs.player });
    gs.world.combat_stats[gs.player] = Some(CombatStats {
        max_hp: 30,
        hp: 28,
        defense: 2,
        power: 17,
    });
    gs.world.wants_to_use[gs.player] = Some(WantsToUse { item: potion, target: None });
    gs.run_state = RunState::PlayerTurn;
    let paths = no_paths(gs.world.alive.len());
    gs.tick(TickInput::Nothing, &paths);
    assert_eq!(gs.world.combat_stats[gs.player].unwrap().hp, 30);
}

#[test]
fn magic_missile_kills_the_orc() {
    let mut gs = fresh_state();
    spawner::orc(&mut gs.world, 8, 5);
    let orc = gs.world.alive.len() - 1;
    spawner::magic_missile(&mut gs.world, 1, 1);
    let scroll = gs.world.alive.len() - 1;
    gs.world.positions[scroll] = None;
    gs.world.in_backpack[scroll] =
        Some(dungeon_core::components::InBackpack { owner: gs.player });
    gs.world.wants_to_use[gs.player] = Some(WantsToUse {
        item: scroll,
        target: Some(Point { x: 8, y: 5 }),
    });
    gs.run_state = RunState::PlayerTurn;
    let paths = no_paths(gs.world.alive.len());
    gs.tick(TickInput::Nothing, &paths);
    // the damage is queued, not yet applied
    assert_eq!(gs.world.suffer_damage[orc].as_ref().unwrap().amounts, vec![17]);
    assert!(gs
        .log
        .entries
        .iter()
        .any(|l| l == "You use Scroll of Magic Missile on Orc, inflicting 17 hp."));
    // the next pass applies the damage and sweeps the orc
    assert_eq!(gs.run_state, RunState::MonsterTurn);
    let paths = no_paths(gs.world.alive.len());
    gs.tick(TickInput::Nothing, &paths);
    assert!(!gs.world.alive[orc]);
    assert!(gs.world.combat_stats[orc].is_none());
}

#[test]
fn fireball_blast_is_clipped_to_the_interior() {
    let mut gs = fresh_state();
    // three goblins inside the radius-3 blast around (3, 3)
    spawner::goblin(&mut gs.world, 3, 3);
    let g1 = gs.world.alive.len() - 1;
    spawner::goblin(&mut gs.world, 4, 4);
    let g2 = gs.world.alive.len() - 1;
    spawner::goblin(&mut gs.world, 3, 6);
    let g3 = gs.world.alive.len() - 1;
    // within distance 3 of the centre but on the border ring: clipped out
    spawner::goblin(&mut gs.world, 0, 3);
    let outside = gs.world.alive.len() - 1;
    spawner::fireball(&mut gs.world, 1, 1);
    let scroll = gs.world.alive.len() - 1;
    gs.world.positions[scroll] = None;
    gs.world.in_backpack[scroll] =
        Some(dungeon_core::components::InBackpack { owner: gs.player });
    gs.world.wants_to_use[gs.player] = Some(WantsToUse {
        item: scroll,
        target: Some(Point { x: 3, y: 3 }),
    });
    gs.run_state = RunState::PlayerTurn;
    let paths = no_paths(gs.world.alive.len());
    gs.tick(TickInput::Nothing, &paths);
    assert_eq!(gs.world.suffer_damage[g1].as_ref().unwrap().amounts, vec![20]);
    assert_eq!(gs.world.suffer_damage[g2].as_ref().unwrap().amounts, vec![20]);
    assert_eq!(gs.world.suffer_damage[g3].as_ref().unwrap().amounts, vec![20]);
    assert!(gs.world.suffer_damage[outside].is_none());
}

#[test]
fn pickup_moves_the_potion_into_the_backpack() {
    let mut gs = fresh_state();
    spawner::health_potion(&mut gs.world, 5, 5);
    let potion = gs.world.alive.len() - 1;
    gs.run_state = RunState::AwaitingInput;
    let paths = no_paths(gs.world.alive.len());
    gs.tick(TickInput::Command(PlayerCommand::Grab), &paths);
    assert_eq!(gs.run_state, RunState::PlayerTurn);
    let paths = no_paths(gs.world.alive.len());
    gs.tick(TickInput::Nothing, &paths);
    assert!(gs.world.positions[potion].is_none());
    assert_eq!(gs.world.in_backpack[potion].unwrap().owner, gs.player);
    assert!(gs
        .log
        .entries
        .iter()
        .any(|l| l == "You pick up the Health Potion"));
}

#[test]
fn grabbing_on_an_empty_tile_logs_nothing_here() {
    let mut gs = fresh_state();
    gs.run_state = RunState::AwaitingInput;
    let paths = no_paths(gs.world.alive.len());
    gs.tick(TickInput::Command(PlayerCommand::Grab), &paths);
    assert!(gs
        .log
        .entries
        .iter()
        .any(|l| l == "There is nothing here to pick up."));
}

#[test]
fn dropping_places_the_item_at_the_dropper() {
    let mut gs = fresh_state();
    spawner::health_potion(&mut gs.world, 1, 1);
    let potion = gs.world.alive.len() - 1;
    gs.world.positions[potion] = None;
    gs.world.in_backpack[potion] =
        Some(dungeon_core::components::InBackpack { owner: gs.player });
    gs.world.wants_to_drop[gs.player] = Some(WantsToDrop { item: potion });
    gs.run_state = RunState::PlayerTurn;
    let paths = no_paths(gs.world.alive.len());
    gs.tick(TickInput::Nothing, &paths);
    assert_eq!(gs.world.positions[potion], Some(Position { x: 5, y: 5 }));
    assert!(gs.world.in_backpack[potion].is_none());
    assert!(gs.log.entries.iter().any(|l| l == "You drop the Health Potion"));
}

#[test]
fn a_pipeline_pass_clears_every_intent_storage() {
    let mut gs = fresh_state();
    spawner::orc(&mut gs.world, 8, 5);
    let orc = gs.world.alive.len() - 1;
    spawner::health_potion(&mut gs.world, 5, 5);
    let potion = gs.world.alive.len() - 1;
    spawner::health_potion(&mut gs.world, 1, 1);
    let held = gs.world.alive.len() - 1;
    gs.world.positions[held] = None;
    gs.world.in_backpack[held] = Some(dungeon_core::components::InBackpack { owner: gs.player });
    gs.world.wants_to_pickup[gs.player] = Some(dungeon_core::components::WantsToPickupItem {
        collected_by: gs.player,
        item: potion,
    });
    gs.world.wants_to_use[gs.player] = Some(WantsToUse { item: held, target: None });
    gs.world.wants_to_melee[gs.player] = Some(WantsToMelee { target: orc });
    gs.run_state = RunState::PlayerTurn;
    let paths = no_paths(gs.world.alive.len());
    gs.tick(TickInput::Nothing, &paths);
    for e in 0..gs.world.alive.len() {
        assert!(gs.world.wants_to_pickup[e].is_none());
        assert!(gs.world.wants_to_use[e].is_none());
        assert!(gs.world.wants_to_drop[e].is_none());
        assert!(gs.world.wants_to_melee[e].is_none());
    }
}

#[test]
fn items_are_on_the_map_or_in_a_backpack_never_both() {
    let mut gs = fresh_state();
    spawner::health_potion(&mut gs.world, 5, 5);
    spawner::magic_missile(&mut gs.world, 6, 6);
    let picked = gs.world.alive.len() - 2;
    gs.world.wants_to_pickup[gs.player] = Some(dungeon_core::components::WantsToPickupItem {
        collected_by: gs.player,
        item: picked,
    });
    gs.run_state = RunState::PlayerTurn;
    let paths = no_paths(gs.world.alive.len());
    gs.tick(TickInput::Nothing, &paths);
    for e in 0..gs.world.alive.len() {
        if gs.world.alive[e] && gs.world.items[e] {
            assert!(gs.world.positions[e].is_some() != gs.world.in_backpack[e].is_some());
        }
    }
}

#[test]
fn self_targeted_use_resolves_to_the_actor() {
    let mut gs = fresh_state();
    spawner::health_potion(&mut gs.world, 1, 1);
    let potion = gs.world.alive.len() - 1;
    MapIndexingSystem::run(&mut gs.map, &gs.world);
    let targets = resolve_targets(
        &gs.world,
        &gs.map,
        gs.player,
        WantsToUse { item: potion, target: None },
    );
    assert_eq!(targets, vec![gs.player]);
}

#[test]
fn tile_targeted_use_resolves_to_the_occupants() {
    let mut gs = fresh_state();
    spawner::orc(&mut gs.world, 8, 5);
    let orc = gs.world.alive.len() - 1;
    spawner::magic_missile(&mut gs.world, 1, 1);
    let scroll = gs.world.alive.len() - 1;
    MapIndexingSystem::run(&mut gs.map, &gs.world);
    let targets = resolve_targets(
        &gs.world,
        &gs.map,
        gs.player,
        WantsToUse { item: scroll, target: Some(Point { x: 8, y: 5 }) },
    );
    assert_eq!(targets, vec![orc]);
    let empty = resolve_targets(
        &gs.world,
        &gs.map,
        gs.player,
        WantsToUse { item: scroll, target: Some(Point { x: 2, y: 2 }) },
    );
    assert!(empty.is_empty());
}

#[test]
fn melee_intent_queues_and_the_sweep_buries() {
    let mut gs = fresh_state();
    spawner::orc(&mut gs.world, 6, 5);
    let orc = gs.world.alive.len() - 1;
    gs.world.wants_to_melee[gs.player] = Some(WantsToMelee { target: orc });
    gs.run_state = RunState::PlayerTurn;
    let paths = no_paths(gs.world.alive.len());
    gs.tick(TickInput::Nothing, &paths);
    // player power 17 less orc defense 1
    assert_eq!(gs.world.suffer_damage[orc].as_ref().unwrap().amounts, vec![16]);
    let paths = no_paths(gs.world.alive.len());
    gs.tick(TickInput::Nothing, &paths);
    assert!(!gs.world.alive[orc]);
}

#[test]
fn consumables_are_destroyed_after_a_successful_use() {
    // the use system consults the consumable tag and destroys the item
    // exactly once per use, so a potion cannot be drunk twice
    let mut gs = fresh_state();
    spawner::health_potion(&mut gs.world, 1, 1);
    let potion = gs.world.alive.len() - 1;
    gs.world.positions[potion] = None;
    gs.world.in_backpack[potion] =
        Some(dungeon_core::components::InBackpack { owner: gs.player });
    gs.world.wants_to_use[gs.player] = Some(WantsToUse { item: potion, target: None });
    gs.run_state = RunState::PlayerTurn;
    let paths = no_paths(gs.world.alive.len());
    gs.tick(TickInput::Nothing, &paths);
    assert!(!gs.world.alive[potion]);
    assert!(gs.world.in_backpack[potion].is_none());
}

#[test]
fn monster_adjacent_to_the_player_queues_melee() {
    let mut gs = fresh_state();
    spawner::orc(&mut gs.world, 6, 5);
    let orc = gs.world.alive.len() - 1;
    gs.run_state = RunState::MonsterTurn;
    let paths = no_paths(gs.world.alive.len());
    gs.tick(TickInput::Nothing, &paths);
    // the melee system already consumed the intent and queued the blow:
    // orc power 2 less player defense 2 absorbs it entirely
    assert!(gs.world.suffer_damage[gs.player].is_none());
    // an orc with more power than the player's defense lands it
    spawner::monster(&mut gs.world, 4, 5, 'o', "Brute");
    let brute = gs.world.alive.len() - 1;
    gs.world.combat_stats[brute] = Some(CombatStats {
        max_hp: 16,
        hp: 16,
        defense: 1,
        power: 5,
    });
    gs.run_state = RunState::MonsterTurn;
    let paths = no_paths(gs.world.alive.len());
    gs.tick(TickInput::Nothing, &paths);
    assert_eq!(
        gs.world.suffer_damage[gs.player].as_ref().unwrap().amounts,
        vec![3]
    );
    let _ = orc;
}

#[test]
fn movement_updates_the_player_and_bump_attacks() {
    let mut gs = fresh_state();
    gs.run_state = RunState::AwaitingInput;
    let paths = no_paths(gs.world.alive.len());
    gs.tick(
        TickInput::Command(PlayerCommand::Move { delta_x: 1, delta_y: 0 }),
        &paths,
    );
    assert_eq!(gs.run_state, RunState::PlayerTurn);
    assert_eq!(gs.world.positions[gs.player], Some(Position { x: 6, y: 5 }));
    assert_eq!(gs.player_pos, Point { x: 6, y: 5 });

    // bumping into a fighter queues a melee intent instead of moving
    let mut gs = fresh_state();
    spawner::orc(&mut gs.world, 6, 5);
    let orc = gs.world.alive.len() - 1;
    MapIndexingSystem::run(&mut gs.map, &gs.world);
    gs.run_state = RunState::AwaitingInput;
    let paths = no_paths(gs.world.alive.len());
    gs.tick(
        TickInput::Command(PlayerCommand::Move { delta_x: 1, delta_y: 0 }),
        &paths,
    );
    assert_eq!(gs.world.wants_to_melee[gs.player], Some(WantsToMelee { target: orc }));
    assert_eq!(gs.world.positions[gs.player], Some(Position { x: 5, y: 5 }));
}

#[test]
fn menu_states_follow_the_transition_table() {
    let mut gs = fresh_state();
    spawner::magic_missile(&mut gs.world, 1, 1);
    let scroll = gs.world.alive.len() - 1;
    let paths = no_paths(gs.world.alive.len());

    gs.run_state = RunState::ShowInventory;
    gs.tick(TickInput::MenuCancel, &paths);
    assert_eq!(gs.run_state, RunState::AwaitingInput);

    gs.run_state = RunState::ShowInventory;
    gs.tick(TickInput::MenuSelect { item: scroll }, &paths);
    assert_eq!(gs.run_state, RunState::ShowTargeting { range: 6, item: scroll });

    gs.tick(TickInput::TargetSelect { point: Point { x: 8, y: 5 } }, &paths);
    assert_eq!(gs.run_state, RunState::PlayerTurn);
    assert_eq!(
        gs.world.wants_to_use[gs.player],
        Some(WantsToUse { item: scroll, target: Some(Point { x: 8, y: 5 }) })
    );

    gs.world.wants_to_use[gs.player] = None;
    spawner::health_potion(&mut gs.world, 1, 1);
    let potion = gs.world.alive.len() - 1;
    let paths = no_paths(gs.world.alive.len());
    gs.run_state = RunState::ShowInventory;
    gs.tick(TickInput::MenuSelect { item: potion }, &paths);
    assert_eq!(gs.run_state, RunState::PlayerTurn);
    assert_eq!(
        gs.world.wants_to_use[gs.player],
        Some(WantsToUse { item: potion, target: None })
    );

    gs.world.wants_to_use[gs.player] = None;
    gs.run_state = RunState::ShowDropItem;
    gs.tick(TickInput::MenuSelect { item: potion }, &paths);
    assert_eq!(gs.run_state, RunState::PlayerTurn);
    assert_eq!(gs.world.wants_to_drop[gs.player], Some(WantsToDrop { item: potion }));
}

#[test]
fn prerun_advances_to_awaiting_input() {
    let mut gs = fresh_state();
    assert_eq!(gs.run_state, RunState::PreRun);
    let paths = no_paths(gs.world.alive.len());
    gs.tick(TickInput::Nothing, &paths);
    assert_eq!(gs.run_state, RunState::AwaitingInput);
}

#[test]
fn dice_rolls_stay_in_range() {
    let mut rng = dungeon_core::rng::rng_seeded(42);
    for _ in 0..100 {
        let r = dungeon_core::rng::roll_dice(&mut rng, 3, 6);
        assert!((3..=18).contains(&r));
    }
}

#[test]
fn random_monster_spawns_a_named_monster() {
    let mut world = World::new();
    let mut rng = dungeon_core::rng::rng_seeded(7);
    spawner::random_monster(&mut world, &mut rng, 4, 4);
    let m = world.alive.len() - 1;
    assert!(world.monsters[m]);
    let name = &world.names[m].as_ref().unwrap().name;
    assert!(name == "Orc" || name == "Goblin");
    assert_eq!(world.positions[m], Some(Position { x: 4, y: 4 }));
}

#[test]
fn spawn_room_fills_only_the_room() {
    let mut world = World::new();
    let mut rng = dungeon_core::rng::rng_seeded(99);
    let room = dungeon_core::game_map::Rect::new(2, 2, 6, 6);
    let before = world.alive.len();
    spawner::spawn_room(&mut world, &mut rng, &room);
    for e in before..world.alive.len() {
        assert!(world.alive[e]);
        let pos = world.positions[e].unwrap();
        assert!(pos.x > 2 && pos.x <= 8);
        assert!(pos.y > 2 && pos.y <= 8);
        assert!(world.monsters[e] || world.items[e]);
    }
}

#[test]
fn an_unseeded_generator_also_rolls_in_range() {
    let mut rng = dungeon_core::rng::rng_new();
    for _ in 0..20 {
        let r = dungeon_core::rng::roll_dice(&mut rng, 2, 8);
        assert!((2..=16).contains(&r));
    }
}

#[test]
fn waiting_states_ignore_empty_frames() {
    let mut gs = fresh_state();
    let paths = no_paths(gs.world.alive.len());
    gs.run_state = RunState::AwaitingInput;
    gs.tick(TickInput::Nothing, &paths);
    assert_eq!(gs.run_state, RunState::AwaitingInput);
    gs.run_state = RunState::ShowInventory;
    gs.tick(TickInput::Nothing, &paths);
    assert_eq!(gs.run_state, RunState::ShowInventory);
    gs.run_state = RunState::ShowTargeting { range: 6, item: 0 };
    gs.tick(TickInput::Nothing, &paths);
    assert_eq!(gs.run_state, RunState::ShowTargeting { range: 6, item: 0 });
}

#[test]
fn blocked_movement_keeps_waiting() {
    let mut gs = fresh_state();
    // walk the player straight into the west wall
    gs.world.positions[gs.player] = Some(Position { x: 1, y: 5 });
    gs.player_pos = Point { x: 1, y: 5 };
    gs.run_state = RunState::AwaitingInput;
    let paths = no_paths(gs.world.alive.len());
    gs.tick(
        TickInput::Command(PlayerCommand::Move { delta_x: -1, delta_y: 0 }),
        &paths,
    );
    assert_eq!(gs.run_state, RunState::AwaitingInput);
    assert_eq!(gs.world.positions[gs.player], Some(Position { x: 1, y: 5 }));
}

#[test]
fn malformed_intents_are_logged_and_skipped() {
    let mut gs = fresh_state();
    // a drop intent whose dropper stands nowhere is an internal error:
    // it is noted in the log, skipped, and the turn still completes
    spawner::health_potion(&mut gs.world, 1, 1);
    let potion = gs.world.alive.len() - 1;
    spawner::orc(&mut gs.world, 8, 8);
    let orc = gs.world.alive.len() - 1;
    gs.world.positions[orc] = None;
    gs.world.wants_to_drop[orc] = Some(WantsToDrop { item: potion });
    gs.run_state = RunState::PlayerTurn;
    let paths = no_paths(gs.world.alive.len());
    gs.tick(TickInput::Nothing, &paths);
    assert!(gs
        .log
        .entries
        .iter()
        .any(|l| l == "An invalid intent was ignored."));
    assert!(gs.world.wants_to_drop[orc].is_none());
    assert_eq!(gs.run_state, RunState::MonsterTurn);
}

#[test]
fn selecting_a_ranged_item_queues_nothing_yet() {
    let mut gs = fresh_state();
    spawner::magic_missile(&mut gs.world, 1, 1);
    let scroll = gs.world.alive.len() - 1;
    gs.run_state = RunState::ShowInventory;
    let paths = no_paths(gs.world.alive.len());
    gs.tick(TickInput::MenuSelect { item: scroll }, &paths);
    assert_eq!(gs.run_state, RunState::ShowTargeting { range: 6, item: scroll });
    for e in 0..gs.world.alive.len() {
        assert!(gs.world.wants_to_use[e].is_none());
    }
}

#[test]
fn room_spawns_never_share_a_tile() {
    let mut world = World::new();
    let mut rng = dungeon_core::rng::rng_seeded(3);
    let room = dungeon_core::game_map::Rect::new(2, 2, 6, 6);
    let before = world.alive.len();
    spawner::spawn_room(&mut world, &mut rng, &room);
    for e1 in before..world.alive.len() {
        for e2 in before..world.alive.len() {
            if e1 != e2 {
                assert_ne!(world.positions[e1], world.positions[e2]);
            }
        }
    }
}
