//! The command queue state machine and the entity registry.

use rts_core::command::Command;
use rts_core::geom::Vec2;
use rts_core::network::{NetworkEntity, NetworkEntityRegistry};
use rts_core::unit::{CommandQueue, CommandQueueOperation, CommandTarget};

fn move_to(x: i64, y: i64) -> Command {
    Command::Move { target: CommandTarget::Position(Vec2 { x, y }), precise: true }
}

#[test]
fn add_pushes_new_active_command() {
    let mut q = CommandQueue::new();
    q.add_command(move_to(1, 0));
    q.add_command(move_to(2, 0));
    assert_eq!(q.commands.len(), 2);
    assert_eq!(q.current(), Some(&move_to(2, 0)));
}

#[test]
fn set_replaces_queue_when_unlocked() {
    let mut q = CommandQueue::new();
    q.add_command(move_to(1, 0));
    q.add_command(move_to(2, 0));
    q.set_command(move_to(9, 9));
    assert_eq!(q.commands, vec![move_to(9, 9)]);
    assert!(!q.locked);
    assert!(q.awaiting.is_none());
}

#[test]
fn set_while_locked_buffers_and_unlock_flushes() {
    let mut q = CommandQueue::new();
    q.add_command(move_to(1, 0));
    q.lock();
    q.set_command(move_to(9, 9));
    // the queue itself is untouched while locked
    assert_eq!(q.commands, vec![move_to(1, 0)]);
    assert!(q.locked);
    assert_eq!(q.awaiting, Some(move_to(9, 9)));
    // a second buffered replacement wins over the first
    q.set_command(move_to(8, 8));
    assert_eq!(q.awaiting, Some(move_to(8, 8)));
    // exactly one unlock makes the buffered command the sole active one
    q.unlock();
    assert_eq!(q.commands, vec![move_to(8, 8)]);
    assert!(!q.locked);
    assert!(q.awaiting.is_none());
}

#[test]
fn clear_empties_and_unlocks() {
    let mut q = CommandQueue::new();
    q.add_command(move_to(1, 0));
    q.lock();
    q.set_command(move_to(9, 9));
    q.apply(CommandQueueOperation::ClearCommands);
    assert!(q.is_empty());
    assert!(!q.locked);
    assert!(q.awaiting.is_none());
}

#[test]
fn complete_pops_active_and_unlocks() {
    let mut q = CommandQueue::new();
    q.add_command(move_to(1, 0));
    q.add_command(move_to(2, 0));
    q.complete();
    assert_eq!(q.commands, vec![move_to(1, 0)]);
    q.lock();
    q.set_command(move_to(7, 7));
    q.complete();
    // completing pops the active command and the unlock flushes the buffer
    assert_eq!(q.commands, vec![move_to(7, 7)]);
    assert!(!q.locked);
}

#[test]
fn operation_sequence_matches_reference_machine() {
    // a mixed operation sequence, followed against the reference rules
    let mut q = CommandQueue::new();
    q.apply(CommandQueueOperation::AddCommand(move_to(1, 0)));
    q.apply(CommandQueueOperation::AddCommand(move_to(2, 0)));
    q.apply(CommandQueueOperation::SetCommand(move_to(3, 0)));
    assert_eq!(q.commands, vec![move_to(3, 0)]);
    q.lock();
    q.apply(CommandQueueOperation::AddCommand(move_to(4, 0)));
    q.apply(CommandQueueOperation::SetCommand(move_to(5, 0)));
    assert_eq!(q.commands, vec![move_to(3, 0), move_to(4, 0)]);
    assert_eq!(q.awaiting, Some(move_to(5, 0)));
    q.unlock();
    assert_eq!(q.commands, vec![move_to(5, 0)]);
    q.apply(CommandQueueOperation::ClearCommands);
    assert!(q.is_empty());
}

#[test]
fn registry_ids_strictly_increase_and_are_never_reused() {
    let mut r = NetworkEntityRegistry::new();
    let a = r.generate_entity();
    let b = r.generate_entity();
    let c = r.add(7);
    assert_eq!(a, NetworkEntity(0));
    assert_eq!(b, NetworkEntity(1));
    assert_eq!(c, NetworkEntity(2));
    // removal never frees an id for reuse
    r.remove(&c);
    let d = r.generate_entity();
    assert_eq!(d, NetworkEntity(3));
}

#[test]
fn registry_get_on_never_inserted_id_is_none() {
    let mut r = NetworkEntityRegistry::new();
    let _ = r.add(1);
    assert_eq!(r.get(&NetworkEntity(55)), None);
}

#[test]
fn registry_insert_then_get_round_trips() {
    let mut r = NetworkEntityRegistry::new();
    r.insert(NetworkEntity(10), 42);
    assert_eq!(r.get(&NetworkEntity(10)), Some(42));
    // an overwrite installs the new mapping
    r.insert(NetworkEntity(10), 43);
    assert_eq!(r.get(&NetworkEntity(10)), Some(43));
    r.remove(&NetworkEntity(10));
    assert_eq!(r.get(&NetworkEntity(10)), None);
}
