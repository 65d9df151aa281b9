//! Geometry, facing, channels, maps and spawning.

use rts_core::connection::{ConnectionMessage, PlayerId, Players};
use rts_core::geom::{ceil_div, clamp_coord, dist2, isqrt, Vec2};
use rts_core::map::{server_handle_connect, GameMap};
use rts_core::network::{network_setup, ChannelMode, NetworkEntity, NetworkEntityRegistry, NetworkSettings};
use rts_core::spawnable::{network_spawn_system, SpawnMessage, SpawnResource, Spawnable, UnitSpawnable};
use rts_core::unit_animation::UnitDirection;
use rts_core::world::{find_by_name, UnitAssets, World};

#[test]
fn squared_distance_and_square_root_agree() {
    let a = Vec2 { x: 3_000, y: 4_000 };
    let b = Vec2 { x: 0, y: 0 };
    let d2 = dist2(a, b);
    assert_eq!(d2, 25_000_000);
    assert_eq!(isqrt(d2), 5_000);
    assert_eq!(isqrt(24_999_999), 4_999);
    assert_eq!(isqrt(0), 0);
    assert_eq!(isqrt(1), 1);
}

#[test]
fn ceiling_division_rounds_up() {
    assert_eq!(ceil_div(0, 7), 0);
    assert_eq!(ceil_div(1, 7), 1);
    assert_eq!(ceil_div(7, 7), 1);
    assert_eq!(ceil_div(8, 7), 2);
}

#[test]
fn coordinates_clamp_to_the_world_edge() {
    assert_eq!(clamp_coord(5), 5);
    assert_eq!(clamp_coord(99_000_000), 10_000_000);
    assert_eq!(clamp_coord(-99_000_000), -10_000_000);
}

#[test]
fn facing_sectors_carry_the_isometric_twist() {
    // a step straight east faces the screen's lower right
    assert_eq!(UnitDirection::from_vec2(1000, 0), UnitDirection::DownRight);
    assert_eq!(UnitDirection::from_vec2(0, 1000), UnitDirection::UpRight);
    assert_eq!(UnitDirection::from_vec2(-1000, 0), UnitDirection::UpLeft);
    assert_eq!(UnitDirection::from_vec2(0, -1000), UnitDirection::DownLeft);
    assert_eq!(UnitDirection::from_vec2(1000, 1000), UnitDirection::Right);
    assert_eq!(UnitDirection::from_vec2(-1000, 1000), UnitDirection::Up);
    assert_eq!(UnitDirection::from_vec2(-1000, -1000), UnitDirection::Left);
    assert_eq!(UnitDirection::from_vec2(1000, -1000), UnitDirection::Down);
}

#[test]
fn channel_table_matches_the_wire_contract() {
    let channels = network_setup();
    assert_eq!(channels.len(), 5);
    for (i, c) in channels.iter().enumerate() {
        assert_eq!(c.channel as usize, i);
    }
    assert_eq!(channels[0].mode, ChannelMode::Reliable);
    assert_eq!(channels[1].mode, ChannelMode::Unreliable);
    assert_eq!(channels[2].mode, ChannelMode::Reliable);
    assert_eq!(channels[3].mode, ChannelMode::Reliable);
    assert_eq!(channels[4].mode, ChannelMode::Unreliable);
    assert!(NetworkSettings::server().is_server);
    assert!(!NetworkSettings::client().is_server);
}

fn two_player_map() -> GameMap {
    GameMap {
        players: vec![PlayerId(1), PlayerId(2)],
        spawns: Vec::new(),
        player_spawns: vec![
            (
                PlayerId(1),
                vec![Spawnable::Unit(UnitSpawnable {
                    position: Vec2 { x: 0, y: 0 },
                    owner: PlayerId(1),
                    unit: "soldier".to_owned(),
                })],
            ),
            (
                PlayerId(2),
                vec![Spawnable::Unit(UnitSpawnable {
                    position: Vec2 { x: 9, y: 9 },
                    owner: PlayerId(2),
                    unit: "soldier".to_owned(),
                })],
            ),
        ],
    }
}

#[test]
fn connections_claim_player_slots_in_order() {
    let map = two_player_map();
    let mut players = Players::new();
    let mut spawns = SpawnResource::new();
    assert!(!map.all_connected(&players));
    let reply = server_handle_connect(&map, &mut players, 70, &mut spawns);
    assert_eq!(reply, Some(ConnectionMessage::Server(PlayerId(1))));
    // one slot claimed: nothing spawns yet
    assert!(spawns.spawnables.is_empty());
    let reply = server_handle_connect(&map, &mut players, 71, &mut spawns);
    assert_eq!(reply, Some(ConnectionMessage::Server(PlayerId(2))));
    // all slots claimed: the whole map is queued
    assert!(map.all_connected(&players));
    assert_eq!(spawns.spawnables.len(), 2);
    // a third connection finds no free slot, harmlessly
    let reply = server_handle_connect(&map, &mut players, 72, &mut spawns);
    assert_eq!(reply, None);
}

#[test]
fn unknown_assets_are_retried_not_dropped() {
    let unit_assets = UnitAssets { entries: vec![("soldier".to_owned(), None)] };
    let animation_assets = rts_core::world::AnimationAssets { entries: Vec::new() };
    let unit_animation_assets = rts_core::world::UnitAnimationAssets { entries: Vec::new() };
    let mut world = World::new();
    let mut registry = NetworkEntityRegistry::new();
    let mut spawns = SpawnResource::new();
    spawns.spawn(Spawnable::Unit(UnitSpawnable {
        position: Vec2 { x: 0, y: 0 },
        owner: PlayerId(1),
        unit: "soldier".to_owned(),
    }));
    let messages = rts_core::spawnable::spawn_system(
        &mut world,
        &mut registry,
        &unit_assets,
        &animation_assets,
        &unit_animation_assets,
        &mut spawns,
        true,
    );
    // the definition has not loaded: nothing spawns, nothing broadcasts,
    // and the descriptor waits for the next tick
    assert!(messages.is_empty());
    assert_eq!(world.alive.len(), 0);
    assert_eq!(spawns.spawnables.len(), 1);
}

#[test]
fn observers_replay_spawns_under_the_carried_id() {
    // minimal loadable assets
    let unit = rts_core::unit::Unit {
        animation_set: "a".to_owned(),
        unit_animation_set: "u".to_owned(),
        size: 1000,
        movement_priority: 0,
        attack: None,
        movement_speed: rts_core::unit::MovementSpeed::Constant(0),
        max_health: 5_000,
    };
    let unit_assets = UnitAssets { entries: vec![("soldier".to_owned(), Some(unit))] };
    let animation_assets = rts_core::world::AnimationAssets {
        entries: vec![(
            "a".to_owned(),
            Some(rts_core::animation::AnimationSet {
                animation_textures: Vec::new(),
                animations: Vec::new(),
            }),
        )],
    };
    let unit_animation_assets = rts_core::world::UnitAnimationAssets {
        entries: vec![(
            "u".to_owned(),
            Some(rts_core::unit_animation::UnitAnimationSet { animations: Vec::new() }),
        )],
    };
    let mut world = World::new();
    let mut registry = NetworkEntityRegistry::new();
    let message = SpawnMessage {
        spawnable: Spawnable::Unit(UnitSpawnable {
            position: Vec2 { x: 7, y: 7 },
            owner: PlayerId(2),
            unit: "soldier".to_owned(),
        }),
        entity: NetworkEntity(41),
    };
    let retained = network_spawn_system(
        &mut world,
        &mut registry,
        &unit_assets,
        &animation_assets,
        &unit_animation_assets,
        vec![message],
    );
    assert!(retained.is_empty());
    assert_eq!(world.alive.len(), 1);
    assert_eq!(registry.get(&NetworkEntity(41)), Some(0));
    assert_eq!(world.instances[0].health, 5_000);
    assert_eq!(world.owners[0].0, PlayerId(2));
}

#[test]
fn spawn_pass_assigns_sequential_ids_and_keeps_queue_order() {
    // one resolvable unit, one rendering-only map, one unresolvable unit
    let unit = rts_core::unit::Unit {
        animation_set: "a".to_owned(),
        unit_animation_set: "u".to_owned(),
        size: 1000,
        movement_priority: 0,
        attack: None,
        movement_speed: rts_core::unit::MovementSpeed::Constant(0),
        max_health: 5_000,
    };
    let unit_assets = UnitAssets { entries: vec![("soldier".to_owned(), Some(unit))] };
    let animation_assets = rts_core::world::AnimationAssets {
        entries: vec![(
            "a".to_owned(),
            Some(rts_core::animation::AnimationSet {
                animation_textures: Vec::new(),
                animations: Vec::new(),
            }),
        )],
    };
    let unit_animation_assets = rts_core::world::UnitAnimationAssets {
        entries: vec![(
            "u".to_owned(),
            Some(rts_core::unit_animation::UnitAnimationSet { animations: Vec::new() }),
        )],
    };
    let mut world = World::new();
    let mut registry = NetworkEntityRegistry::new();
    let mut spawns = SpawnResource::new();
    spawns.spawn(Spawnable::Unit(UnitSpawnable {
        position: Vec2 { x: 1, y: 1 },
        owner: PlayerId(1),
        unit: "soldier".to_owned(),
    }));
    spawns.spawn(Spawnable::TileMap(rts_core::spawnable::TileMapSpawnable {
        tile_map: "m".to_owned(),
        tile_set: "s".to_owned(),
        texture: "t".to_owned(),
    }));
    spawns.spawn(Spawnable::Unit(UnitSpawnable {
        position: Vec2 { x: 2, y: 2 },
        owner: PlayerId(2),
        unit: "unknown".to_owned(),
    }));
    let messages = rts_core::spawnable::spawn_system(
        &mut world,
        &mut registry,
        &unit_assets,
        &animation_assets,
        &unit_animation_assets,
        &mut spawns,
        true,
    );
    // one id per queued descriptor, in order; the unresolvable unit is not
    // broadcast but waits for the next tick
    assert_eq!(messages.len(), 2);
    assert_eq!(messages[0].entity, NetworkEntity(0));
    assert!(matches!(messages[0].spawnable, Spawnable::Unit(_)));
    assert_eq!(messages[1].entity, NetworkEntity(1));
    assert!(matches!(messages[1].spawnable, Spawnable::TileMap(_)));
    assert_eq!(registry.next_entity, NetworkEntity(3));
    assert_eq!(world.alive.len(), 1);
    assert_eq!(spawns.spawnables.len(), 1);
    assert!(matches!(&spawns.spawnables[0], Spawnable::Unit(u) if u.unit == "unknown"));
}

#[test]
fn asset_handles_resolve_by_name() {
    let entries = vec![("alpha".to_owned(), 1u32), ("beta".to_owned(), 2u32)];
    assert_eq!(find_by_name(&entries, &"beta".to_owned()), Some(1));
    assert_eq!(find_by_name(&entries, &"gamma".to_owned()), None);
}
