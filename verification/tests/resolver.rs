//! The per-tick command resolver: arrival thresholds, the animation lock
//! window, and cancellation while locked.

use rts_core::behaviour::Behaviour;
use rts_core::command::{resolve_attack, resolve_move, AnimationLock, Attack, Command};
use rts_core::connection::PlayerId;
use rts_core::geom::Vec2;
use rts_core::network::{NetworkEntity, NetworkEntityRegistry};
use rts_core::position::Position;
use rts_core::unit::{CommandQueue, CommandTarget};
use rts_core::world::UnitSnapshot;

fn queue_with(c: Command) -> CommandQueue {
    let mut q = CommandQueue::new();
    q.add_command(c);
    q
}

fn attack_block() -> Attack {
    Attack {
        range: 50_000,
        engage_range: 60_000,
        animation_lock: AnimationLock { start: 2, end: 6 },
        events: vec![(4, rts_core::command::AttackEvent::Damage(10_000))],
    }
}

fn one_enemy_world(enemy_pos: Vec2) -> (NetworkEntityRegistry, Vec<bool>, Vec<Position>, Vec<UnitSnapshot>) {
    // entity 0: the unit under test (owner 1); entity 1: the enemy (owner 2)
    let mut registry = NetworkEntityRegistry::new();
    let a = registry.add(0);
    let b = registry.add(1);
    assert_eq!(a, NetworkEntity(0));
    assert_eq!(b, NetworkEntity(1));
    let alive = vec![true, true];
    let positions = vec![
        Position { position: Vec2 { x: 0, y: 0 } },
        Position { position: enemy_pos },
    ];
    let snap = vec![
        UnitSnapshot { entity: 0, network_entity: a, owner: PlayerId(1), position: Vec2 { x: 0, y: 0 } },
        UnitSnapshot { entity: 1, network_entity: b, owner: PlayerId(2), position: enemy_pos },
    ];
    (registry, alive, positions, snap)
}

#[test]
fn precise_move_completes_only_inside_tenth_unit() {
    let (registry, alive, positions, _snap) = one_enemy_world(Vec2 { x: 900_000, y: 0 });
    // 0.099 world units away: completes
    let mut q = queue_with(Command::Move {
        target: CommandTarget::Position(Vec2 { x: 99, y: 0 }),
        precise: true,
    });
    let r = resolve_move(&mut q, Vec2 { x: 0, y: 0 }, 1000, &registry, &alive, &positions);
    assert!(r.is_none());
    assert!(q.is_empty());
    // exactly 0.1 world units away: not yet
    let mut q = queue_with(Command::Move {
        target: CommandTarget::Position(Vec2 { x: 100, y: 0 }),
        precise: true,
    });
    let r = resolve_move(&mut q, Vec2 { x: 0, y: 0 }, 1000, &registry, &alive, &positions);
    assert_eq!(r, Some(Behaviour::Move { target: Vec2 { x: 100, y: 0 } }));
    assert_eq!(q.commands.len(), 1);
}

#[test]
fn coarse_move_completes_only_inside_footprint_times_one_point_one() {
    let (registry, alive, positions, _snap) = one_enemy_world(Vec2 { x: 900_000, y: 0 });
    // size 1.0: the threshold is 1.1 world units
    let mut q = queue_with(Command::Move {
        target: CommandTarget::Position(Vec2 { x: 1099, y: 0 }),
        precise: false,
    });
    let r = resolve_move(&mut q, Vec2 { x: 0, y: 0 }, 1000, &registry, &alive, &positions);
    assert!(r.is_none());
    assert!(q.is_empty());
    let mut q = queue_with(Command::Move {
        target: CommandTarget::Position(Vec2 { x: 1100, y: 0 }),
        precise: false,
    });
    let r = resolve_move(&mut q, Vec2 { x: 0, y: 0 }, 1000, &registry, &alive, &positions);
    assert!(r.is_some());
    assert_eq!(q.commands.len(), 1);
}

#[test]
fn pending_replacement_cancels_move_immediately() {
    let (registry, alive, positions, _snap) = one_enemy_world(Vec2 { x: 900_000, y: 0 });
    let mut q = queue_with(Command::Move {
        target: CommandTarget::Position(Vec2 { x: 500_000, y: 0 }),
        precise: true,
    });
    q.lock();
    q.set_command(Command::Move {
        target: CommandTarget::Position(Vec2 { x: 1, y: 1 }),
        precise: true,
    });
    let r = resolve_move(&mut q, Vec2 { x: 0, y: 0 }, 1000, &registry, &alive, &positions);
    // the move is canceled and the buffered replacement takes over
    assert!(r.is_none());
    assert_eq!(
        q.commands,
        vec![Command::Move { target: CommandTarget::Position(Vec2 { x: 1, y: 1 }), precise: true }]
    );
    assert!(!q.locked);
}

#[test]
fn stale_move_target_skips_the_tick() {
    let (registry, alive, positions, _snap) = one_enemy_world(Vec2 { x: 900_000, y: 0 });
    let mut q = queue_with(Command::Move {
        target: CommandTarget::Enemy(NetworkEntity(99)),
        precise: true,
    });
    let r = resolve_move(&mut q, Vec2 { x: 0, y: 0 }, 1000, &registry, &alive, &positions);
    assert!(r.is_none());
    assert_eq!(q.commands.len(), 1);
}

fn resolve_attack_at_frame(
    frame: u32,
    enemy_pos: Vec2,
    persue: bool,
) -> (CommandQueue, Option<Behaviour>) {
    let (registry, alive, positions, snap) = one_enemy_world(enemy_pos);
    let mut q = queue_with(Command::Attack {
        target_position: None,
        target_unit: Some(NetworkEntity(1)),
        persue,
    });
    let r = resolve_attack(
        &mut q,
        0,
        Vec2 { x: 0, y: 0 },
        PlayerId(1),
        &attack_block(),
        frame,
        &registry,
        &alive,
        &positions,
        &snap,
    );
    (q, r)
}

#[test]
fn lock_window_is_closed_on_both_ends() {
    let in_range = Vec2 { x: 10_000, y: 0 };
    // frames equal to start and end of the window are locked
    let (q, r) = resolve_attack_at_frame(2, in_range, false);
    assert!(matches!(r, Some(Behaviour::Attack { .. })));
    assert!(q.locked);
    let (q, r) = resolve_attack_at_frame(6, in_range, false);
    assert!(matches!(r, Some(Behaviour::Attack { .. })));
    assert!(q.locked);
    // one frame outside either end is not
    let (q, _) = resolve_attack_at_frame(1, in_range, false);
    assert!(!q.locked);
    let (q, _) = resolve_attack_at_frame(7, in_range, false);
    assert!(!q.locked);
}

#[test]
fn pursuit_produces_move_without_consuming_the_command() {
    let far = Vec2 { x: 500_000, y: 0 };
    let (q, r) = resolve_attack_at_frame(0, far, true);
    assert_eq!(r, Some(Behaviour::Move { target: far }));
    assert_eq!(q.commands.len(), 1);
    assert!(!q.locked);
}

#[test]
fn attack_without_target_or_position_completes() {
    let (registry, alive, positions, snap) = one_enemy_world(Vec2 { x: 900_000, y: 0 });
    let mut q = queue_with(Command::Attack {
        target_position: None,
        target_unit: None,
        persue: false,
    });
    let r = resolve_attack(
        &mut q,
        0,
        Vec2 { x: 0, y: 0 },
        PlayerId(1),
        &attack_block(),
        0,
        &registry,
        &alive,
        &positions,
        &snap,
    );
    assert!(r.is_none());
    assert!(q.is_empty());
}

#[test]
fn attack_move_walks_to_the_ground_target_and_completes_there() {
    // nobody to fight anywhere near: the attack-move is a guarded walk
    let mut registry = NetworkEntityRegistry::new();
    let a = registry.add(0);
    let alive = vec![true];
    let positions = vec![Position { position: Vec2 { x: 0, y: 0 } }];
    let snap = vec![UnitSnapshot {
        entity: 0,
        network_entity: a,
        owner: PlayerId(1),
        position: Vec2 { x: 0, y: 0 },
    }];
    let ground = Vec2 { x: 30_000, y: 0 };
    let mut q = queue_with(Command::Attack {
        target_position: Some(ground),
        target_unit: None,
        persue: true,
    });
    let r = resolve_attack(
        &mut q,
        0,
        Vec2 { x: 0, y: 0 },
        PlayerId(1),
        &attack_block(),
        0,
        &registry,
        &alive,
        &positions,
        &snap,
    );
    assert_eq!(r, Some(Behaviour::Move { target: ground }));
    assert_eq!(q.commands.len(), 1);
    // standing within the arrival threshold of the ground target: done
    let mut q = queue_with(Command::Attack {
        target_position: Some(Vec2 { x: 50, y: 0 }),
        target_unit: None,
        persue: true,
    });
    let r = resolve_attack(
        &mut q,
        0,
        Vec2 { x: 0, y: 0 },
        PlayerId(1),
        &attack_block(),
        0,
        &registry,
        &alive,
        &positions,
        &snap,
    );
    assert!(r.is_none());
    assert!(q.is_empty());
}

#[test]
fn attack_auto_acquires_the_nearest_enemy_in_range() {
    // an attack-move with an enemy inside attack range locks onto it
    let (registry, alive, positions, snap) = one_enemy_world(Vec2 { x: 20_000, y: 0 });
    let mut q = queue_with(Command::Attack {
        target_position: Some(Vec2 { x: 200_000, y: 0 }),
        target_unit: None,
        persue: true,
    });
    let r = resolve_attack(
        &mut q,
        0,
        Vec2 { x: 0, y: 0 },
        PlayerId(1),
        &attack_block(),
        0,
        &registry,
        &alive,
        &positions,
        &snap,
    );
    match r {
        Some(Behaviour::Attack { target_position, target, .. }) => {
            assert_eq!(target, 1);
            assert_eq!(target_position, Vec2 { x: 20_000, y: 0 });
        }
        other => panic!("expected an attack behaviour, got {other:?}"),
    }
    match q.current() {
        Some(Command::Attack { target_unit, .. }) => {
            assert_eq!(*target_unit, Some(NetworkEntity(1)));
        }
        other => panic!("expected the acquired target to stick, got {other:?}"),
    }
}

#[test]
fn set_command_during_swing_defers_until_window_closes() {
    // the unit is mid swing on a target in range, with the frame inside the
    // lock window
    let in_range = Vec2 { x: 10_000, y: 0 };
    let (registry, alive, positions, snap) = one_enemy_world(in_range);
    let mut q = queue_with(Command::Attack {
        target_position: None,
        target_unit: Some(NetworkEntity(1)),
        persue: true,
    });
    let me = Vec2 { x: 0, y: 0 };
    let attack = attack_block();
    // first swing tick: the queue locks
    let r = resolve_attack(&mut q, 0, me, PlayerId(1), &attack, 3, &registry, &alive, &positions, &snap);
    assert!(matches!(r, Some(Behaviour::Attack { .. })));
    assert!(q.locked);
    // a replacement arrives mid swing: buffered, not applied
    q.apply(rts_core::unit::CommandQueueOperation::SetCommand(Command::Move {
        target: CommandTarget::Position(Vec2 { x: 5_000, y: 5_000 }),
        precise: true,
    }));
    assert!(matches!(q.current(), Some(Command::Attack { .. })));
    // while the window is open the behaviour stays Attack
    let r = resolve_attack(&mut q, 0, me, PlayerId(1), &attack, 5, &registry, &alive, &positions, &snap);
    assert!(matches!(r, Some(Behaviour::Attack { .. })));
    assert!(q.locked);
    assert!(q.awaiting.is_some());
    // the frame leaves the window: the behaviour is still Attack this tick,
    // but the unlock flushes the buffered move into the queue
    let r = resolve_attack(&mut q, 0, me, PlayerId(1), &attack, 7, &registry, &alive, &positions, &snap);
    assert!(matches!(r, Some(Behaviour::Attack { .. })));
    assert!(!q.locked);
    assert!(matches!(q.current(), Some(Command::Move { .. })));
    // and only now does the resolver produce the move
    let r = resolve_move(&mut q, me, 1000, &registry, &alive, &positions);
    assert_eq!(r, Some(Behaviour::Move { target: Vec2 { x: 5_000, y: 5_000 } }));
}
