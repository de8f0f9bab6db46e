use belsin::components::{CombatStats, InBackpack, Position, Potion, WantsToDrinkPotion,
    WantsToDropItem, WantsToPickupItem};
use belsin::damage_system::{corpse_removal, DamageSystem};
use belsin::fov::{compute_fov, FovSystem};
use belsin::gamelog::hits_message;
use belsin::inventory_system::{ItemCollectionSystem, ItemDropSystem};
use belsin::map::{GameMap, Rect, TileType};
use belsin::map_indexing::MapIndexSystem;
use belsin::melee_combat_system::{melee_damage, MeleeCombatSystem};
use belsin::player::{climb_down, keyboard, player_move, skip_turn, Command};
use belsin::potion_system::PotionUseSystem;
use belsin::spawn_table::SpawnTable;
use belsin::spawner;
use belsin::state::{RunState, State};
use belsin::text::i32_text;
use belsin::world::World;

fn flat_map(width: i32, height: i32) -> GameMap {
    let tiles = vec![TileType::Floor; (width * height) as usize];
    GameMap::new(width, height, tiles, Vec::new(), 1)
}

fn world_with_player(px: i32, py: i32) -> State {
    let map = flat_map(10, 10);
    let rng = rltk::RandomNumberGenerator::seeded(7);
    let mut ecs = World::new(map, rng, RunState::AwaitingInput);
    spawner::player(&mut ecs, px, py);
    State { ecs }
}

fn last_log(gs: &State) -> String {
    gs.ecs.log.entries.last().cloned().unwrap_or_default()
}

#[test]
fn damage_formula_exact() {
    assert_eq!(melee_damage(5, 2), 3);
    assert_eq!(melee_damage(2, 5), 0);
    assert_eq!(melee_damage(4, 4), 0);
}

#[test]
fn number_rendering() {
    assert_eq!(i32_text(0), "0");
    assert_eq!(i32_text(7), "7");
    assert_eq!(i32_text(123), "123");
}

#[test]
fn hit_message_text() {
    let a = String::from("Player");
    let t = String::from("Orc");
    assert_eq!(hits_message(&a, &t, 4), "Player hits Orc, for 4 hp");
}

#[test]
fn bump_attack_deals_four_damage() {
    // player (power 5) attacks orc (defense 1): damage 4, hp 16 -> 12
    let mut gs = world_with_player(1, 1);
    spawner::orc(&mut gs.ecs, 1, 2);
    let mapidx = MapIndexSystem {};
    mapidx.run(&mut gs.ecs);
    player_move(0, 1, &mut gs.ecs);
    assert!(gs.ecs.attack_intents[0].is_some());
    let melee = MeleeCombatSystem {};
    melee.run(&mut gs.ecs);
    assert_eq!(last_log(&gs), "Player hits Orc, for 4 hp");
    let damage = DamageSystem {};
    damage.run(&mut gs.ecs);
    let orc_stats = gs.ecs.combat_stats[1].unwrap();
    assert_eq!(orc_stats.hp, 12);
    // the player did not move onto the orc
    assert_eq!(gs.ecs.player_pos, Position { x: 1, y: 1 });
}

#[test]
fn weak_attack_is_logged_without_damage() {
    let mut gs = world_with_player(1, 1);
    spawner::orc(&mut gs.ecs, 1, 2);
    // sap the player's power below the orc's defense
    gs.ecs.combat_stats[0] = Some(CombatStats { max_hp: 30, hp: 30, defense: 2, power: 1 });
    let mapidx = MapIndexSystem {};
    mapidx.run(&mut gs.ecs);
    player_move(0, 1, &mut gs.ecs);
    let melee = MeleeCombatSystem {};
    melee.run(&mut gs.ecs);
    assert_eq!(last_log(&gs), "Player Unable to hurt Orc");
    let damage = DamageSystem {};
    damage.run(&mut gs.ecs);
    let orc_stats = gs.ecs.combat_stats[1].unwrap();
    assert_eq!(orc_stats.hp, 16);
}

#[test]
fn corpse_removal_deletes_the_dead() {
    let mut gs = world_with_player(1, 1);
    spawner::orc(&mut gs.ecs, 1, 2);
    gs.ecs.combat_stats[1] = Some(CombatStats { max_hp: 16, hp: 0, defense: 1, power: 4 });
    let dead = corpse_removal(&mut gs.ecs);
    assert!(!dead);
    assert!(!gs.ecs.alive[1]);
    assert!(gs.ecs.alive[0]);
}

#[test]
fn skip_turn_heals_when_nothing_is_watching() {
    let mut gs = world_with_player(1, 1);
    gs.ecs.combat_stats[0] = Some(CombatStats { max_hp: 30, hp: 28, defense: 2, power: 5 });
    let r = skip_turn(&mut gs.ecs);
    assert_eq!(r, RunState::PlayerTurn);
    assert_eq!(gs.ecs.combat_stats[0].unwrap().hp, 29);
}

#[test]
fn skip_turn_heal_caps_at_max_hp() {
    let mut gs = world_with_player(1, 1);
    let r = skip_turn(&mut gs.ecs);
    assert_eq!(r, RunState::PlayerTurn);
    assert_eq!(gs.ecs.combat_stats[0].unwrap().hp, 30);
}

#[test]
fn skip_turn_does_not_heal_with_monster_in_sight() {
    let mut gs = world_with_player(1, 1);
    spawner::orc(&mut gs.ecs, 1, 2);
    gs.ecs.combat_stats[0] = Some(CombatStats { max_hp: 30, hp: 28, defense: 2, power: 5 });
    // rebuild the occupant lists, then recompute the player's view
    let mapidx = MapIndexSystem {};
    mapidx.run(&mut gs.ecs);
    let fov = FovSystem {};
    fov.run(&mut gs.ecs);
    let r = skip_turn(&mut gs.ecs);
    assert_eq!(r, RunState::PlayerTurn);
    assert_eq!(gs.ecs.combat_stats[0].unwrap().hp, 28);
}

#[test]
fn descend_without_stairs_only_logs() {
    let mut gs = world_with_player(1, 1);
    let before = gs.ecs.log.entries.len();
    let r = climb_down(&mut gs.ecs);
    assert!(!r);
    assert_eq!(gs.ecs.log.entries.len(), before + 1);
    assert_eq!(last_log(&gs), "There is no stairs to go down from here.");
    // and through the state machine: the state does not change
    let quit = State::tick(&mut gs, Command::Descend, None);
    assert!(!quit);
    assert_eq!(gs.ecs.run_state, RunState::AwaitingInput);
}

#[test]
fn descend_on_stairs_switches_to_next_level() {
    let mut gs = world_with_player(1, 1);
    let idx = gs.ecs.map.xy_idx(1, 1);
    gs.ecs.map.tiles[idx] = TileType::DownStairs;
    let r = keyboard(&mut gs, Command::Descend);
    assert_eq!(r, RunState::NextLevel);
}

#[test]
fn drop_then_pickup_restores_the_backpack() {
    let mut gs = world_with_player(3, 3);
    // a potion carried by the player
    spawner::health_potion(&mut gs.ecs, 5, 5);
    let player = gs.ecs.player_entity;
    let item = belsin::Entity { id: 1, gen: 0 };
    gs.ecs.positions[1] = None;
    gs.ecs.backpacks[1] = Some(InBackpack { owner: player });
    // drop it at the player's feet
    gs.ecs.drop_intents[0] = Some(WantsToDropItem { item });
    let dropper = ItemDropSystem {};
    dropper.run(&mut gs.ecs);
    assert_eq!(gs.ecs.positions[1], Some(Position { x: 3, y: 3 }));
    assert!(gs.ecs.backpacks[1].is_none());
    assert_eq!(last_log(&gs), "You dropped the Health Potion");
    // and take it back up
    gs.ecs.pickup_intents[0] = Some(WantsToPickupItem { collected_by: player, item });
    let collector = ItemCollectionSystem {};
    collector.run(&mut gs.ecs);
    assert!(gs.ecs.positions[1].is_none());
    assert_eq!(gs.ecs.backpacks[1], Some(InBackpack { owner: player }));
    assert_eq!(last_log(&gs), "Health Potion has been picked up");
}

#[test]
fn drinking_heals_capped_and_destroys_the_potion() {
    let mut gs = world_with_player(3, 3);
    spawner::health_potion(&mut gs.ecs, 5, 5);
    let player = gs.ecs.player_entity;
    let item = belsin::Entity { id: 1, gen: 0 };
    gs.ecs.positions[1] = None;
    gs.ecs.backpacks[1] = Some(InBackpack { owner: player });
    gs.ecs.combat_stats[0] = Some(CombatStats { max_hp: 30, hp: 25, defense: 2, power: 5 });
    gs.ecs.drink_intents[0] = Some(WantsToDrinkPotion { potion: item });
    let potions = PotionUseSystem {};
    potions.run(&mut gs.ecs);
    // 25 + 8 capped at 30
    assert_eq!(gs.ecs.combat_stats[0].unwrap().hp, 30);
    assert_eq!(last_log(&gs), "You drink the Health Potion, healing 8 hp");
    // destruction is deferred to the commit point
    gs.ecs.maintain();
    assert!(!gs.ecs.alive[1]);
}

#[test]
fn equipping_displaces_the_worn_item() {
    let mut gs = world_with_player(3, 3);
    spawner::dagger(&mut gs.ecs, 5, 5);
    spawner::dagger(&mut gs.ecs, 6, 6);
    let player = gs.ecs.player_entity;
    for id in 1..3usize {
        gs.ecs.positions[id] = None;
        gs.ecs.backpacks[id] = Some(InBackpack { owner: player });
    }
    // wear the first dagger
    gs.ecs.drink_intents[0] = Some(WantsToDrinkPotion {
        potion: belsin::Entity { id: 1, gen: 0 },
    });
    let potions = PotionUseSystem {};
    potions.run(&mut gs.ecs);
    assert!(gs.ecs.equipped[1].is_some());
    assert!(gs.ecs.backpacks[1].is_none());
    // wearing the second sends the first back into the backpack
    gs.ecs.drink_intents[0] = Some(WantsToDrinkPotion {
        potion: belsin::Entity { id: 2, gen: 0 },
    });
    potions.run(&mut gs.ecs);
    assert!(gs.ecs.equipped[2].is_some());
    assert!(gs.ecs.equipped[1].is_none());
    assert_eq!(gs.ecs.backpacks[1], Some(InBackpack { owner: player }));
}

#[test]
fn revealed_tiles_grow_and_visibility_rebuilds() {
    let mut gs = world_with_player(5, 5);
    let fov = FovSystem {};
    fov.run(&mut gs.ecs);
    let idx = gs.ecs.map.xy_idx(5, 5);
    assert!(gs.ecs.map.revealed_tiles[idx]);
    assert!(gs.ecs.map.visible_tiles[idx]);
    let revealed_before: Vec<bool> = gs.ecs.map.revealed_tiles.clone();
    // a second pass with clean flags changes nothing
    let tiles_before = gs.ecs.fovs[0].as_ref().unwrap().visible_tiles.clone();
    fov.run(&mut gs.ecs);
    let tiles_after = gs.ecs.fovs[0].as_ref().unwrap().visible_tiles.clone();
    assert_eq!(tiles_before, tiles_after);
    for (i, r) in revealed_before.iter().enumerate() {
        if *r {
            assert!(gs.ecs.map.revealed_tiles[i]);
        }
    }
}

#[test]
fn field_of_view_clips_to_walls_and_range() {
    let mut map = flat_map(9, 9);
    // a wall directly east of the eye blocks the cell behind it
    let wall = map.xy_idx(5, 4);
    map.tiles[wall] = TileType::Wall;
    let vis = compute_fov(&map, 4, 4, 3);
    let has = |x: i32, y: i32| vis.iter().any(|p| p.x == x && p.y == y);
    assert!(has(4, 4));
    assert!(has(5, 4));
    assert!(!has(6, 4));
    assert!(has(4, 7));
    assert!(!has(4, 8));
}

#[test]
fn spawn_table_walks_the_weights() {
    let t = SpawnTable::new()
        .add(String::from("Goblin"), 11)
        .add(String::from("Orc"), 2);
    // a weight-11 entry takes exactly the first 11 of the 13 draws
    assert_eq!(t.roll_with(1), "Goblin");
    assert_eq!(t.roll_with(11), "Goblin");
    assert_eq!(t.roll_with(12), "Orc");
    assert_eq!(t.roll_with(13), "Orc");
}

#[test]
fn next_level_keeps_player_and_backpack_only() {
    let mut gs = world_with_player(3, 3);
    spawner::orc(&mut gs.ecs, 1, 2);
    spawner::health_potion(&mut gs.ecs, 5, 5);
    let player = gs.ecs.player_entity;
    // carry the potion, leave the orc behind
    gs.ecs.positions[2] = None;
    gs.ecs.backpacks[2] = Some(InBackpack { owner: player });
    let tiles = vec![TileType::Floor; 100];
    let rooms = vec![Rect { x1: 1, y1: 1, x2: 4, y2: 4 }];
    let deeper = GameMap::new(10, 10, tiles, rooms, 2);
    gs.next_level(deeper);
    assert!(gs.ecs.alive[0]);
    assert!(!gs.ecs.alive[1]);
    assert!(gs.ecs.alive[2]);
    assert_eq!(gs.ecs.backpacks[2], Some(InBackpack { owner: player }));
    assert_eq!(gs.ecs.map.depth, 2);
    assert_eq!(last_log(&gs), "You descend.");
    // the player stands at the first room's center
    assert_eq!(gs.ecs.player_pos, Position { x: 2, y: 2 });
}

#[test]
fn monster_chases_and_attacks_when_adjacent() {
    let mut gs = world_with_player(2, 2);
    spawner::orc(&mut gs.ecs, 3, 2);
    gs.ecs.run_state = RunState::MonsterTurn;
    let fov = FovSystem {};
    fov.run(&mut gs.ecs);
    let ai = belsin::monster_ai_system::MonsterAI {};
    ai.run(&mut gs.ecs);
    // adjacent: the orc files an attack instead of moving
    assert_eq!(
        gs.ecs.attack_intents[1],
        Some(belsin::components::AttackIntent { target: gs.ecs.player_entity })
    );
    assert_eq!(gs.ecs.positions[1], Some(Position { x: 3, y: 2 }));
}

#[test]
fn pipeline_clears_every_intent() {
    let mut gs = world_with_player(2, 2);
    spawner::orc(&mut gs.ecs, 3, 2);
    let mapidx = MapIndexSystem {};
    mapidx.run(&mut gs.ecs);
    player_move(1, 0, &mut gs.ecs);
    assert!(gs.ecs.attack_intents[0].is_some());
    gs.run_systems();
    for i in 0..gs.ecs.gens.len() {
        assert!(gs.ecs.attack_intents[i].is_none());
        assert!(gs.ecs.pickup_intents[i].is_none());
        assert!(gs.ecs.drink_intents[i].is_none());
        assert!(gs.ecs.drop_intents[i].is_none());
    }
}

#[test]
fn pickup_key_files_an_intent_for_the_item_underfoot() {
    let mut gs = world_with_player(4, 4);
    spawner::health_potion(&mut gs.ecs, 4, 4);
    let r = keyboard(&mut gs, Command::Pickup);
    assert_eq!(r, RunState::AwaitingInput);
    let intent = gs.ecs.pickup_intents[0].unwrap();
    assert_eq!(intent.item.id, 1);
    assert_eq!(intent.collected_by, gs.ecs.player_entity);
}

#[test]
fn pickup_key_logs_when_nothing_is_there() {
    let mut gs = world_with_player(4, 4);
    let r = keyboard(&mut gs, Command::Pickup);
    assert_eq!(r, RunState::AwaitingInput);
    assert!(gs.ecs.pickup_intents[0].is_none());
    assert_eq!(last_log(&gs), "There is nothing here to pick up.");
}

#[test]
fn blocked_tiles_swallow_the_move() {
    let mut gs = world_with_player(2, 2);
    let idx = gs.ecs.map.xy_idx(3, 2);
    gs.ecs.map.blocked[idx] = true;
    player_move(1, 0, &mut gs.ecs);
    assert_eq!(gs.ecs.player_pos, Position { x: 2, y: 2 });
    player_move(0, 1, &mut gs.ecs);
    assert_eq!(gs.ecs.player_pos, Position { x: 2, y: 3 });
}

#[test]
fn menu_toggles_and_confirms() {
    let mut gs = world_with_player(2, 2);
    gs.ecs.run_state = RunState::Menu { selection: belsin::gui::MenuSelection::NewGame };
    let quit = State::tick(&mut gs, Command::MenuDown, None);
    assert!(!quit);
    assert_eq!(
        gs.ecs.run_state,
        RunState::Menu { selection: belsin::gui::MenuSelection::Quit }
    );
    let quit = State::tick(&mut gs, Command::Confirm, None);
    assert!(quit);
}

#[test]
fn spawn_room_places_distinct_in_room_things() {
    let tiles = vec![TileType::Floor; 400];
    let map = GameMap::new(20, 20, tiles, Vec::new(), 4);
    let rng = rltk::RandomNumberGenerator::seeded(11);
    let mut ecs = World::new(map, rng, RunState::AwaitingInput);
    spawner::player(&mut ecs, 1, 1);
    let before = ecs.gens.len();
    let room = Rect { x1: 4, y1: 4, x2: 12, y2: 12 };
    spawner::spawn_room(&mut ecs, &room);
    // from depth four on something always appears
    assert!(ecs.gens.len() > before);
    let known = ["Goblin", "Orc", "Health Potion", "Dagger", "Shield"];
    let mut seen: Vec<(i32, i32)> = Vec::new();
    for i in before..ecs.gens.len() {
        let pos = ecs.positions[i].unwrap();
        assert!(room.x1 < pos.x && pos.x <= room.x2);
        assert!(room.y1 < pos.y && pos.y <= room.y2);
        // every spawn sits on its own tile
        assert!(!seen.contains(&(pos.x, pos.y)));
        seen.push((pos.x, pos.y));
        let name = ecs.names[i].as_ref().unwrap().name.clone();
        assert!(known.contains(&name.as_str()));
    }
}

#[test]
fn empty_table_rolls_nothing() {
    let t = SpawnTable::new();
    let mut rng = rltk::RandomNumberGenerator::seeded(3);
    assert_eq!(t.roll(&mut rng), "None");
}
