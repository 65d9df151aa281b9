//! Replication: authorization, operation logs, snapshots, and the
//! handshake.

use rts_core::animation::{
    client_network_animator_system, server_network_animator_system, Animator, AnimatorMessage,
};
use rts_core::command::Command;
use rts_core::connection::{
    client_connection_step, server_connection_step, ConnectionMessage, Owner, PlayerId, Players,
    RepeatTimer,
};
use rts_core::geom::Vec2;
use rts_core::network::{NetworkEntity, NetworkEntityRegistry};
use rts_core::position::{
    client_network_position_system, server_network_position_system, Position, PositionMessage,
};
use rts_core::unit::{
    apply_command_message, apply_unit_instance_message, server_unit_instance_system,
    unit_health_system, CommandApplyOutcome, CommandMessage, CommandQueue, CommandQueueOperation,
    CommandTarget, UnitInstance, UnitInstanceMessage, UnitInstanceOperation,
};

fn move_cmd() -> Command {
    Command::Move { target: CommandTarget::Position(Vec2 { x: 5, y: 5 }), precise: true }
}

#[test]
fn command_message_requires_matching_owner() {
    let mut registry = NetworkEntityRegistry::new();
    let net = registry.add(0);
    let mut players = Players::new();
    players.insert(PlayerId(1), 7);
    players.insert(PlayerId(2), 8);
    let alive = vec![true];
    let owners = vec![Owner(PlayerId(1))];
    let mut queues = vec![CommandQueue::new()];
    let message = CommandMessage {
        operation: CommandQueueOperation::AddCommand(move_cmd()),
        network_entity: net,
    };
    // the wrong owner is rejected and the queue untouched
    let r = apply_command_message(&registry, &players, 8, &message, &alive, &owners, &mut queues);
    assert_eq!(r, CommandApplyOutcome::Unauthorized);
    assert!(queues[0].is_empty());
    // an unknown connection is rejected
    let r = apply_command_message(&registry, &players, 99, &message, &alive, &owners, &mut queues);
    assert_eq!(r, CommandApplyOutcome::UnknownPlayer);
    // a stale entity id is dropped without error
    let stale = CommandMessage {
        operation: CommandQueueOperation::AddCommand(move_cmd()),
        network_entity: NetworkEntity(99),
    };
    let r = apply_command_message(&registry, &players, 7, &stale, &alive, &owners, &mut queues);
    assert_eq!(r, CommandApplyOutcome::UnknownEntity);
    // the rightful owner gets through
    let r = apply_command_message(&registry, &players, 7, &message, &alive, &owners, &mut queues);
    assert_eq!(r, CommandApplyOutcome::Applied);
    assert_eq!(queues[0].commands, vec![move_cmd()]);
}

#[test]
fn operation_log_is_replayed_first_in_first_out() {
    let mut instance = UnitInstance { health: 100_000, operations: Vec::new() };
    instance.set_health(50_000);
    instance.subtract_health(20_000);
    // the log itself does not touch health until the flush
    assert_eq!(instance.health, 100_000);
    instance.apply_operations();
    // first-in first-out: set to 50, then subtract 20
    assert_eq!(instance.health, 30_000);
    assert!(instance.operations.is_empty());
}

#[test]
fn server_flush_applies_and_broadcasts_each_operation() {
    let alive = vec![true, false];
    let nets = vec![NetworkEntity(4), NetworkEntity(5)];
    let mut instances = vec![
        UnitInstance {
            health: 100_000,
            operations: vec![
                UnitInstanceOperation::SubtractHealth(1_000),
                UnitInstanceOperation::SubtractHealth(2_000),
            ],
        },
        UnitInstance {
            health: 7,
            operations: vec![UnitInstanceOperation::SetHealth(9)],
        },
    ];
    let messages = server_unit_instance_system(&alive, &nets, &mut instances);
    assert_eq!(instances[0].health, 97_000);
    assert!(instances[0].operations.is_empty());
    // the dead slot is left alone
    assert_eq!(instances[1].health, 7);
    assert_eq!(instances[1].operations.len(), 1);
    assert_eq!(
        messages,
        vec![
            UnitInstanceMessage {
                operation: UnitInstanceOperation::SubtractHealth(1_000),
                target: NetworkEntity(4),
            },
            UnitInstanceMessage {
                operation: UnitInstanceOperation::SubtractHealth(2_000),
                target: NetworkEntity(4),
            },
        ]
    );
}

#[test]
fn client_applies_replicated_health_operation() {
    let mut registry = NetworkEntityRegistry::new();
    let net = registry.add(0);
    let alive = vec![true];
    let mut instances = vec![UnitInstance { health: 50_000, operations: Vec::new() }];
    let applied = apply_unit_instance_message(
        &registry,
        &alive,
        &mut instances,
        &UnitInstanceMessage {
            operation: UnitInstanceOperation::SubtractHealth(10_000),
            target: net,
        },
    );
    assert!(applied);
    assert_eq!(instances[0].health, 40_000);
    // a stale id drops the message
    let applied = apply_unit_instance_message(
        &registry,
        &alive,
        &mut instances,
        &UnitInstanceMessage {
            operation: UnitInstanceOperation::SetHealth(1),
            target: NetworkEntity(9),
        },
    );
    assert!(!applied);
    assert_eq!(instances[0].health, 40_000);
}

#[test]
fn units_out_of_health_are_destroyed_and_forgotten() {
    let mut registry = NetworkEntityRegistry::new();
    let a = registry.add(0);
    let b = registry.add(1);
    let mut alive = vec![true, true];
    let instances = vec![
        UnitInstance { health: 0, operations: Vec::new() },
        UnitInstance { health: 1, operations: Vec::new() },
    ];
    let nets = vec![a, b];
    unit_health_system(&mut alive, &instances, &nets, &mut registry);
    assert_eq!(alive, vec![false, true]);
    assert_eq!(registry.get(&a), None);
    assert_eq!(registry.get(&b), Some(1));
}

#[test]
fn position_snapshots_round_trip_to_an_observer() {
    let alive = vec![true, false, true];
    let positions = vec![
        Position { position: Vec2 { x: 1, y: 2 } },
        Position { position: Vec2 { x: 3, y: 4 } },
        Position { position: Vec2 { x: 5, y: 6 } },
    ];
    let nets = vec![NetworkEntity(10), NetworkEntity(11), NetworkEntity(12)];
    let messages = server_network_position_system(&alive, &positions, &nets);
    // only live units are broadcast
    assert_eq!(messages.len(), 2);
    assert_eq!(messages[0].network_entity, NetworkEntity(10));
    assert_eq!(messages[1].network_entity, NetworkEntity(12));

    // an observer with the same registry converges on the same positions
    let mut registry = NetworkEntityRegistry::new();
    registry.insert(NetworkEntity(10), 0);
    registry.insert(NetworkEntity(12), 2);
    let observer_alive = vec![true, true, true];
    let mut observer_positions = vec![
        Position { position: Vec2 { x: 0, y: 0 } },
        Position { position: Vec2 { x: 0, y: 0 } },
        Position { position: Vec2 { x: 0, y: 0 } },
    ];
    client_network_position_system(&registry, &observer_alive, &mut observer_positions, &messages);
    assert_eq!(observer_positions[0].position, Vec2 { x: 1, y: 2 });
    assert_eq!(observer_positions[1].position, Vec2 { x: 0, y: 0 });
    assert_eq!(observer_positions[2].position, Vec2 { x: 5, y: 6 });
}

#[test]
fn late_position_snapshot_wins() {
    let mut registry = NetworkEntityRegistry::new();
    registry.insert(NetworkEntity(1), 0);
    let alive = vec![true];
    let mut positions = vec![Position { position: Vec2 { x: 0, y: 0 } }];
    let messages = vec![
        PositionMessage { position: Position { position: Vec2 { x: 5, y: 5 } }, network_entity: NetworkEntity(1) },
        PositionMessage { position: Position { position: Vec2 { x: 9, y: 9 } }, network_entity: NetworkEntity(1) },
    ];
    client_network_position_system(&registry, &alive, &mut positions, &messages);
    assert_eq!(positions[0].position, Vec2 { x: 9, y: 9 });
}

#[test]
fn hello_repeats_until_welcome_assigns_the_player() {
    let mut timer = RepeatTimer::new(1_000_000);
    let mut player_id: Option<PlayerId> = None;
    // half a second in: no retransmit yet, nothing assigned
    let send = client_connection_step(&mut timer, 500_000, &Vec::new(), &mut player_id);
    assert!(!send);
    assert_eq!(player_id, None);
    // the timer fires on the one-second boundary
    let send = client_connection_step(&mut timer, 500_000, &Vec::new(), &mut player_id);
    assert!(send);
    // the welcome assigns the id; the latest assignment wins
    let inbox = vec![
        ConnectionMessage::Server(PlayerId(3)),
        ConnectionMessage::Client,
        ConnectionMessage::Server(PlayerId(4)),
    ];
    let _ = client_connection_step(&mut timer, 10, &inbox, &mut player_id);
    assert_eq!(player_id, Some(PlayerId(4)));
}

#[test]
fn server_counts_anomalous_handshake_messages() {
    let inbox = vec![
        ConnectionMessage::Client,
        ConnectionMessage::Server(PlayerId(1)),
        ConnectionMessage::Client,
    ];
    // before assignment only the stray welcome is anomalous
    let players = Players::new();
    assert_eq!(server_connection_step(&players, 7, &inbox), 1);
    // once the connection has its player, repeated hellos are logged too
    let mut players = Players::new();
    players.insert(PlayerId(1), 7);
    assert_eq!(server_connection_step(&players, 7, &inbox), 3);
}

#[test]
fn animator_changes_replicate_to_an_observer() {
    let alive = vec![true];
    let nets = vec![NetworkEntity(0)];
    let mut animators = vec![Animator::new(0, "idle_anim".to_owned())];
    animators[0].play("attack_anim".to_owned());
    let operations = server_network_animator_system(&alive, &nets, &mut animators);
    assert_eq!(operations.len(), 1);
    assert!(animators[0].operators.is_empty());

    let mut registry = NetworkEntityRegistry::new();
    registry.insert(NetworkEntity(0), 0);
    let mut observer = vec![Animator::new(0, "idle_anim".to_owned())];
    observer[0].play_time_micros = 12345;
    observer[0].current_frame = 3;
    client_network_animator_system(
        &registry,
        &alive,
        &mut observer,
        &AnimatorMessage { operations },
    );
    assert_eq!(observer[0].playing_animation, "attack_anim");
    // a replicated play restarts playback from the beginning
    assert_eq!(observer[0].play_time_micros, 0);
    assert_eq!(observer[0].current_frame, 0);
}
