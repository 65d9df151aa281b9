//! The queue state machine against an independent model, over a long
//! pseudo-random operation sequence, and the idle auto-engage path.

use rts_core::behaviour::Behaviour;
use rts_core::command::{AnimationLock, Attack, AttackEvent, Command};
use rts_core::connection::{Owner, PlayerId};
use rts_core::geom::Vec2;
use rts_core::position::Position;
use rts_core::unit::{CommandQueue, CommandQueueOperation, CommandTarget};
use rts_core::world::UnitSnapshot;

/// An independent model of the documented queue rules.
#[derive(Clone, PartialEq, Debug)]
struct Model {
    commands: Vec<Command>,
    locked: bool,
    awaiting: Option<Command>,
}

impl Model {
    fn apply(&mut self, op: &CommandQueueOperation) {
        match op {
            CommandQueueOperation::AddCommand(c) => self.commands.push(*c),
            CommandQueueOperation::SetCommand(c) => {
                if self.locked {
                    self.awaiting = Some(*c);
                } else {
                    self.commands = vec![*c];
                }
            }
            CommandQueueOperation::ClearCommands => {
                self.commands.clear();
                self.locked = false;
                self.awaiting = None;
            }
        }
    }

    fn unlock(&mut self) {
        self.locked = false;
        if let Some(a) = self.awaiting.take() {
            self.commands = vec![a];
        }
    }

    fn complete(&mut self) {
        self.commands.pop();
        self.unlock();
    }
}

fn cmd(n: i64) -> Command {
    Command::Move { target: CommandTarget::Position(Vec2 { x: n, y: -n }), precise: n % 2 == 0 }
}

#[test]
fn random_operation_sequences_match_the_model() {
    let mut q = CommandQueue::new();
    let mut m = Model { commands: Vec::new(), locked: false, awaiting: None };
    // a small linear congruential generator keeps the sequence reproducible
    let mut state: u64 = 0x2545_f491_4f6c_dd1d;
    for step in 0..500 {
        state = state.wrapping_mul(6364136223846793005).wrapping_add(1442695040888963407);
        let roll = (state >> 33) % 6;
        let value = (step % 97) as i64;
        match roll {
            0 | 1 => {
                let op = CommandQueueOperation::AddCommand(cmd(value));
                q.apply(op);
                m.apply(&op);
            }
            2 => {
                let op = CommandQueueOperation::SetCommand(cmd(value));
                q.apply(op);
                m.apply(&op);
            }
            3 => {
                let op = CommandQueueOperation::ClearCommands;
                q.apply(op);
                m.apply(&op);
            }
            4 => {
                q.lock();
                m.locked = true;
            }
            _ => {
                if step % 2 == 0 {
                    q.unlock();
                    m.unlock();
                } else {
                    q.complete();
                    m.complete();
                }
            }
        }
        assert_eq!(q.commands, m.commands, "diverged at step {step}");
        assert_eq!(q.locked, m.locked, "diverged at step {step}");
        assert_eq!(q.awaiting, m.awaiting, "diverged at step {step}");
    }
}

#[test]
fn idle_units_engage_the_nearest_enemy_in_range() {
    let attack = Attack {
        range: 50_000,
        engage_range: 60_000,
        animation_lock: AnimationLock { start: 2, end: 6 },
        events: vec![(4, AttackEvent::Damage(10_000))],
    };
    let unit = rts_core::unit::Unit {
        animation_set: "a".to_owned(),
        unit_animation_set: "u".to_owned(),
        size: 1000,
        movement_priority: 0,
        attack: Some(attack),
        movement_speed: rts_core::unit::MovementSpeed::Constant(0),
        max_health: 10_000,
    };
    let assets = rts_core::world::UnitAssets {
        entries: vec![("soldier".to_owned(), Some(unit))],
    };
    let alive = vec![true, true, true];
    let owners = vec![Owner(PlayerId(1)), Owner(PlayerId(2)), Owner(PlayerId(2))];
    let positions = vec![
        Position { position: Vec2 { x: 0, y: 0 } },
        // nearest enemy, inside the engage range
        Position { position: Vec2 { x: 30_000, y: 0 } },
        // a farther enemy, outside the engage range
        Position { position: Vec2 { x: 70_000, y: 0 } },
    ];
    let handles = vec![0usize, 0, 0];
    let snap: Vec<UnitSnapshot> = (0..3)
        .map(|i| UnitSnapshot {
            entity: i,
            network_entity: rts_core::network::NetworkEntity(i as u64),
            owner: owners[i].0,
            position: positions[i].position,
        })
        .collect();
    let mut queues = vec![CommandQueue::new(), CommandQueue::new(), CommandQueue::new()];
    let mut unit_animators = vec![
        rts_core::unit_animation::UnitAnimator::new("idle".to_owned()),
        rts_core::unit_animation::UnitAnimator::new("idle".to_owned()),
        rts_core::unit_animation::UnitAnimator::new("idle".to_owned()),
    ];
    let mut behaviours: Vec<Option<Behaviour>> = vec![None, None, None];
    rts_core::command::idle_command_system(
        &alive,
        &owners,
        &positions,
        &handles,
        &assets,
        &snap,
        &mut queues,
        &mut unit_animators,
        &mut behaviours,
    );
    // the idle unit self-engages the nearest opposing unit within range
    match queues[0].current() {
        Some(Command::Attack { target_unit, target_position, persue }) => {
            assert_eq!(*target_unit, Some(rts_core::network::NetworkEntity(1)));
            assert_eq!(*target_position, None);
            assert!(!persue);
        }
        other => panic!("expected a self-engage attack command, got {other:?}"),
    }
    assert_eq!(behaviours[0], None);
    // the nearby enemy engages back
    assert!(matches!(
        queues[1].current(),
        Some(Command::Attack { target_unit: Some(rts_core::network::NetworkEntity(0)), .. })
    ));
    // the far unit sees no opposing unit within its engage range: it stays
    // idle
    assert!(queues[2].is_empty());
    assert_eq!(behaviours[2], Some(Behaviour::Idle));
    assert_eq!(unit_animators[2].current_animation, "idle");
}
