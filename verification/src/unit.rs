//! Unit definitions, per-unit runtime state, and the command queue state
//! machine.
//!
//! A [`CommandQueue`] holds a unit's pending orders.  The active command sits
//! at the back of the queue.  While the queue is *locked* (mid attack swing)
//! a replacement request is buffered in *awaiting* and takes effect only on
//! `unlock`.

use crate::command::{Attack, Command};
use crate::geom::Vec2;
use crate::network::NetworkEntity;
use vstd::pervasive::VecAdditionalExecFns;
use vstd::prelude::*;

verus! {

/// What a command is aimed at: a ground position or a live unit.
#[derive(Clone, Copy, Debug, PartialEq)]
pub enum CommandTarget {
    Position(Vec2),
    Ally(NetworkEntity),
    Enemy(NetworkEntity),
}

impl CommandTarget {
    /// A literal target position must lie inside the world.
    pub open spec fn wf(self) -> bool {
        match self {
            CommandTarget::Position(p) => p.in_bounds(),
            CommandTarget::Ally(_) => true,
            CommandTarget::Enemy(_) => true,
        }
    }
}

/// Inbound mutation of a unit's command queue.
#[derive(Clone, Copy, Debug, PartialEq)]
pub enum CommandQueueOperation {
    AddCommand(Command),
    SetCommand(Command),
    ClearCommands,
}

/// A queue operation addressed to one replicated unit.
#[derive(Clone, Copy, Debug, PartialEq)]
pub struct CommandMessage {
    pub operation: CommandQueueOperation,
    pub network_entity: NetworkEntity,
}

/// Mathematical state of a command queue: the pending commands (the active
/// one last), the lock flag, and the buffered replacement.
pub struct QueueModel {
    pub commands: Seq<Command>,
    pub locked: bool,
    pub awaiting: Option<Command>,
}

/// Reference transition for `AddCommand`: push the new active command,
/// keeping the rest of the queue.
pub open spec fn queue_add(m: QueueModel, command: Command) -> QueueModel {
    QueueModel { commands: m.commands.push(command), ..m }
}

/// Reference transition for `SetCommand`: replace the whole queue, unless
/// locked, in which case the command is buffered (replacing any previously
/// buffered one) and the queue stays untouched.
pub open spec fn queue_set(m: QueueModel, command: Command) -> QueueModel {
    if m.locked {
        QueueModel { awaiting: Some(command), ..m }
    } else {
        QueueModel { commands: seq![command], ..m }
    }
}

/// Reference transition for `ClearCommands`: empty the queue; the queue is
/// implicitly unlocked and any buffered replacement is abandoned.
pub open spec fn queue_clear(m: QueueModel) -> QueueModel {
    QueueModel { commands: Seq::empty(), locked: false, awaiting: None }
}

/// Reference transition for `unlock`: a buffered replacement becomes the
/// sole command, clearing prior history.
pub open spec fn queue_unlock(m: QueueModel) -> QueueModel {
    match m.awaiting {
        Some(a) => QueueModel { commands: seq![a], locked: false, awaiting: None },
        None => QueueModel { locked: false, ..m },
    }
}

/// Reference transition for `complete`: pop the active command, then unlock.
pub open spec fn queue_complete(m: QueueModel) -> QueueModel {
    let popped = if m.commands.len() == 0 {
        m
    } else {
        QueueModel { commands: m.commands.drop_last(), ..m }
    };
    queue_unlock(popped)
}

/// Reference state machine over inbound operations.
pub open spec fn queue_apply(m: QueueModel, operation: CommandQueueOperation) -> QueueModel {
    match operation {
        CommandQueueOperation::AddCommand(c) => queue_add(m, c),
        CommandQueueOperation::SetCommand(c) => queue_set(m, c),
        CommandQueueOperation::ClearCommands => queue_clear(m),
    }
}

/// A list of [`Command`]s, one per unit.  The unit works through the queue
/// until it is empty.  While *locked*, a `SetCommand` is buffered in
/// *awaiting* and only takes effect when the queue is unlocked again.
pub struct CommandQueue {
    pub commands: Vec<Command>,
    pub locked: bool,
    pub awaiting: Option<Command>,
}

impl CommandQueue {
    /// The state this queue is in, as the reference machine sees it.
    pub open spec fn model(self) -> QueueModel {
        QueueModel { commands: self.commands@, locked: self.locked, awaiting: self.awaiting }
    }

    /// A replacement is only ever buffered while the queue is locked.
    pub open spec fn wf(self) -> bool {
        self.awaiting is Some ==> self.locked
    }

    pub fn new() -> (r: Self)
        ensures
            r.commands@ == Seq::<Command>::empty(),
            !r.locked,
            r.awaiting is None,
            r.wf(),
    {
        Self { commands: Vec::new(), locked: false, awaiting: None }
    }

    pub fn is_empty(&self) -> (r: bool)
        ensures
            r == (self.commands@.len() == 0),
    {
        self.commands.len() == 0
    }

    /// The active command: the one at the back of the queue.
    pub fn current(&self) -> (r: Option<&Command>)
        ensures
            match r {
                Some(c) => self.commands@.len() > 0 && *c == self.commands@.last(),
                None => self.commands@.len() == 0,
            },
    {
        if self.commands.len() == 0 {
            None
        } else {
            Some(&self.commands[self.commands.len() - 1])
        }
    }

    /// Overwrite the active command in place.
    pub fn replace_current(&mut self, command: Command)
        requires
            old(self).commands@.len() > 0,
        ensures
            final(self).commands@ == old(self).commands@.update(
                old(self).commands@.len() - 1,
                command,
            ),
            final(self).locked == old(self).locked,
            final(self).awaiting == old(self).awaiting,
            old(self).wf() ==> final(self).wf(),
    {
        let last: usize = self.commands.len() - 1;
        self.commands.set(last, command);
    }

    /// Push `command` as the new active command, keeping the queued ones.
    pub fn add_command(&mut self, command: Command)
        ensures
            final(self).model() == queue_add(old(self).model(), command),
            old(self).wf() ==> final(self).wf(),
    {
        self.commands.push(command);
    }

    /// Replace the queue with `[command]`, or buffer it while locked.
    pub fn set_command(&mut self, command: Command)
        ensures
            final(self).model() == queue_set(old(self).model(), command),
            old(self).wf() ==> final(self).wf(),
    {
        if self.locked {
            self.awaiting = Some(command);
        } else {
            let mut commands: Vec<Command> = Vec::new();
            commands.push(command);
            self.commands = commands;
            proof {
                assert(self.commands@ =~= seq![command]);
            }
        }
    }

    /// Apply one inbound operation; the result is exactly the reference
    /// machine's transition.
    pub fn apply(&mut self, operation: CommandQueueOperation)
        ensures
            final(self).model() == queue_apply(old(self).model(), operation),
            old(self).wf() ==> final(self).wf(),
    {
        match operation {
            CommandQueueOperation::AddCommand(command) => {
                self.add_command(command);
            },
            CommandQueueOperation::SetCommand(command) => {
                self.set_command(command);
            },
            CommandQueueOperation::ClearCommands => {
                self.commands.clear();
                self.locked = false;
                self.awaiting = None;
                proof {
                    assert(self.commands@ =~= Seq::<Command>::empty());
                }
            },
        }
    }

    /// Forbid replacement of the active command until `unlock`.
    pub fn lock(&mut self)
        ensures
            final(self).model() == (QueueModel { locked: true, ..old(self).model() }),
    {
        self.locked = true;
    }

    /// Allow replacement again; a buffered replacement becomes the sole
    /// command, clearing prior history.
    pub fn unlock(&mut self)
        ensures
            final(self).model() == queue_unlock(old(self).model()),
            final(self).wf(),
    {
        self.locked = false;
        let awaiting = self.awaiting;
        self.awaiting = None;
        if let Some(awaiting) = awaiting {
            let mut commands: Vec<Command> = Vec::new();
            commands.push(awaiting);
            self.commands = commands;
            proof {
                assert(self.commands@ =~= seq![awaiting]);
            }
        }
    }

    /// Complete the active command and unlock.
    pub fn complete(&mut self)
        ensures
            final(self).model() == queue_complete(old(self).model()),
            final(self).wf(),
    {
        if self.commands.len() > 0 {
            let last: usize = self.commands.len() - 1;
            let _ = self.commands.remove(last);
            proof {
                assert(self.commands@ =~= old(self).commands@.drop_last());
            }
        }
        self.unlock();
    }
}

/// Every command a queue holds, buffered replacement included, names only
/// in-bounds target positions.
pub open spec fn queue_commands_wf(q: CommandQueue) -> bool {
    &&& forall|i: int| 0 <= i < q.commands@.len() ==> (#[trigger] q.commands@[i]).wf()
    &&& match q.awaiting {
        Some(c) => c.wf(),
        None => true,
    }
}

/// Movement speed in fixed-point coordinate steps per second: either one
/// constant, or a base speed modulated per animation frame (the modifier is
/// in thousandths).
#[derive(Clone, Debug, PartialEq)]
pub enum MovementSpeed {
    Constant(u64),
    FrameWise { speed: u64, frame_mods: Vec<u64> },
}

/// Largest movement speed, in coordinate steps per second.
pub const SPEED_LIMIT: u64 = 1_000_000;

/// Largest per-frame speed modifier, in thousandths.
pub const FRAME_MOD_LIMIT: u64 = 10_000;

impl MovementSpeed {
    pub open spec fn wf(self) -> bool {
        match self {
            MovementSpeed::Constant(s) => s <= SPEED_LIMIT,
            MovementSpeed::FrameWise { speed, frame_mods } => {
                &&& speed <= SPEED_LIMIT
                &&& forall|i: int|
                    0 <= i < frame_mods@.len() ==> #[trigger] frame_mods@[i] <= FRAME_MOD_LIMIT
            },
        }
    }
}

/// Largest health magnitude, in thousandths of a health point.
pub const HEALTH_LIMIT: i64 = 1_000_000_000_000;

/// Largest movement priority weight.
pub const PRIORITY_LIMIT: u64 = 1_000;

/// Immutable, shared static stats of a kind of unit.  Loaded once and
/// referenced by every instance of that kind.
#[derive(Clone, Debug, PartialEq)]
pub struct Unit {
    /// Name of the frame-animation set this unit renders with.
    pub animation_set: String,
    /// Name of the directional animation table this unit selects from.
    pub unit_animation_set: String,
    /// Footprint radius, in fixed-point world coordinates.
    pub size: u64,
    /// Weight deciding who yields when moving units collide.
    pub movement_priority: u64,
    /// Attacks are optional.
    pub attack: Option<Attack>,
    pub movement_speed: MovementSpeed,
    /// Health an instance starts with, in thousandths.
    pub max_health: i64,
}

impl Unit {
    pub open spec fn wf(self) -> bool {
        &&& self.size <= crate::geom::SIZE_LIMIT
        &&& self.movement_priority <= PRIORITY_LIMIT
        &&& match self.attack {
            Some(a) => a.wf(),
            None => true,
        }
        &&& self.movement_speed.wf()
        &&& 0 <= self.max_health <= HEALTH_LIMIT
    }

    /// Fresh runtime state for one spawned unit of this kind.
    pub fn instance(&self) -> (r: UnitInstance)
        ensures
            r.health == self.max_health,
            r.operations@ == Seq::<UnitInstanceOperation>::empty(),
    {
        UnitInstance { health: self.max_health, operations: Vec::new() }
    }
}

/// Replicated mutation of a unit instance; health only ever changes through
/// one of these, so every observer replays the same changes.
#[derive(Clone, Copy, Debug, PartialEq)]
pub enum UnitInstanceOperation {
    SetHealth(i64),
    SubtractHealth(i64),
}

/// A unit-instance operation addressed to one replicated unit.
#[derive(Clone, Copy, Debug, PartialEq)]
pub struct UnitInstanceMessage {
    pub operation: UnitInstanceOperation,
    pub target: NetworkEntity,
}

/// Subtraction that sticks to the representable range instead of wrapping.
pub open spec fn saturating_sub_spec(a: int, b: int) -> int {
    if a - b > i64::MAX {
        i64::MAX as int
    } else if a - b < i64::MIN {
        i64::MIN as int
    } else {
        a - b
    }
}

/// The health an instance ends up with after one operation.
pub open spec fn apply_operation_spec(health: int, operation: UnitInstanceOperation) -> int {
    match operation {
        UnitInstanceOperation::SetHealth(h) => h as int,
        UnitInstanceOperation::SubtractHealth(d) => saturating_sub_spec(health, d as int),
    }
}

/// The health after replaying a whole log in first-in, first-out order.
pub open spec fn apply_operations_spec(health: int, operations: Seq<UnitInstanceOperation>) -> int
    decreases operations.len(),
{
    if operations.len() == 0 {
        health
    } else {
        apply_operation_spec(
            apply_operations_spec(health, operations.drop_last()),
            operations.last(),
        )
    }
}

/// Per-unit mutable runtime state: current health and the pending outgoing
/// operation log.
#[derive(Clone, Debug, PartialEq)]
pub struct UnitInstance {
    /// Current health, in thousandths of a health point.
    pub health: i64,
    /// Operations applied this tick, pending broadcast.
    pub operations: Vec<UnitInstanceOperation>,
}

impl UnitInstance {
    /// Apply one replicated operation to the health.
    pub fn apply_operation(&mut self, operation: UnitInstanceOperation)
        ensures
            final(self).health == apply_operation_spec(old(self).health as int, operation),
            final(self).operations@ == old(self).operations@,
    {
        match operation {
            UnitInstanceOperation::SetHealth(new_health) => {
                self.health = new_health;
            },
            UnitInstanceOperation::SubtractHealth(damage) => {
                self.health = match self.health.checked_sub(damage) {
                    Some(h) => h,
                    None => if damage >= 0 {
                        i64::MIN
                    } else {
                        i64::MAX
                    },
                };
            },
        }
    }

    /// Drain the pending log and replay it in the order it was pushed.
    pub fn apply_operations(&mut self)
        ensures
            final(self).health == apply_operations_spec(
                old(self).health as int,
                old(self).operations@,
            ),
            final(self).operations@ == Seq::<UnitInstanceOperation>::empty(),
    {
        let mut i: usize = 0;
        let n: usize = self.operations.len();
        while i < n
            invariant
                i <= n,
                n == self.operations@.len(),
                self.operations@ == old(self).operations@,
                self.health == apply_operations_spec(
                    old(self).health as int,
                    old(self).operations@.subrange(0, i as int),
                ),
            decreases n - i,
        {
            let operation = self.operations[i];
            proof {
                assert(old(self).operations@.subrange(0, i + 1 as int).drop_last()
                    =~= old(self).operations@.subrange(0, i as int));
            }
            let health = self.health;
            let new_health = match operation {
                UnitInstanceOperation::SetHealth(new_health) => new_health,
                UnitInstanceOperation::SubtractHealth(damage) => match health.checked_sub(damage) {
                    Some(h) => h,
                    None => if damage >= 0 {
                        i64::MIN
                    } else {
                        i64::MAX
                    },
                },
            };
            self.health = new_health;
            i = i + 1;
        }
        proof {
            assert(old(self).operations@.subrange(0, n as int) =~= old(self).operations@);
        }
        self.operations.clear();
    }

    /// Record an operation on the pending log.
    pub fn operation(&mut self, operation: UnitInstanceOperation)
        ensures
            final(self).operations@ == old(self).operations@.push(operation),
            final(self).health == old(self).health,
    {
        self.operations.push(operation);
    }

    /// Log a `SetHealth` operation.
    pub fn set_health(&mut self, health: i64)
        ensures
            final(self).operations@ == old(self).operations@.push(
                UnitInstanceOperation::SetHealth(health),
            ),
            final(self).health == old(self).health,
    {
        self.operation(UnitInstanceOperation::SetHealth(health));
    }

    /// Log a `SubtractHealth` operation.
    pub fn subtract_health(&mut self, damage: i64)
        ensures
            final(self).operations@ == old(self).operations@.push(
                UnitInstanceOperation::SubtractHealth(damage),
            ),
            final(self).health == old(self).health,
    {
        self.operation(UnitInstanceOperation::SubtractHealth(damage));
    }
}

impl CommandQueueOperation {
    /// The carried command, if any, is well formed.
    pub open spec fn wf(self) -> bool {
        match self {
            CommandQueueOperation::AddCommand(c) => c.wf(),
            CommandQueueOperation::SetCommand(c) => c.wf(),
            CommandQueueOperation::ClearCommands => true,
        }
    }
}

/// How an inbound command message was disposed of.  Every failure is
/// non-fatal: the message is dropped (and logged by the caller) and the
/// world is untouched.
#[derive(Clone, Copy, Debug, PartialEq, Eq, Structural)]
pub enum CommandApplyOutcome {
    /// The operation reached its queue.
    Applied,
    /// Stale or not-yet-known entity: expected under network delay.
    UnknownEntity,
    /// The connection never completed its handshake.
    UnknownPlayer,
    /// The sender does not own the unit it tried to order around.
    Unauthorized,
}

/// Apply one inbound command message on the server, after the ownership
/// check: the operation is dropped unless the issuing connection's player
/// is the owner of the target unit.
pub fn apply_command_message(
    registry: &crate::network::NetworkEntityRegistry,
    players: &crate::connection::Players,
    connection_handle: u32,
    message: &CommandMessage,
    alive: &Vec<bool>,
    owners: &Vec<crate::connection::Owner>,
    queues: &mut Vec<CommandQueue>,
) -> (r: CommandApplyOutcome)
    requires
        owners@.len() == alive@.len(),
        old(queues)@.len() == alive@.len(),
        message.operation.wf(),
        forall|j: int| 0 <= j < alive@.len() ==> (#[trigger] old(queues)@[j]).wf(),
        forall|j: int| 0 <= j < alive@.len() ==> queue_commands_wf(#[trigger] old(queues)@[j]),
    ensures
        final(queues)@.len() == alive@.len(),
        forall|j: int| 0 <= j < alive@.len() ==> (#[trigger] final(queues)@[j]).wf(),
        forall|j: int| 0 <= j < alive@.len() ==> queue_commands_wf(#[trigger] final(queues)@[j]),
        ({
            let looked_up = registry.entities@.contains_key(message.network_entity.0)
                && (registry.entities@[message.network_entity.0] as int) < alive@.len()
                && alive@[registry.entities@[message.network_entity.0] as int];
            if !looked_up {
                r == CommandApplyOutcome::UnknownEntity && final(queues)@ == old(queues)@
            } else {
                let e = registry.entities@[message.network_entity.0] as int;
                if !players.player_ids@.contains_key(connection_handle) {
                    r == CommandApplyOutcome::UnknownPlayer && final(queues)@ == old(queues)@
                } else if players.player_ids@[connection_handle] != owners@[e].0 {
                    r == CommandApplyOutcome::Unauthorized && final(queues)@ == old(queues)@
                } else {
                    &&& r == CommandApplyOutcome::Applied
                    &&& final(queues)@[e].model() == queue_apply(
                        old(queues)@[e].model(),
                        message.operation,
                    )
                    &&& forall|j: int|
                        0 <= j < alive@.len() && j != e ==> (#[trigger] final(queues)@[j]) == old(
                            queues,
                        )@[j]
                }
            }
        }),
{
    let e: usize = match registry.get(&message.network_entity) {
        Some(e) => e,
        None => {
            return CommandApplyOutcome::UnknownEntity;
        },
    };
    if !(e < alive.len() && alive[e]) {
        return CommandApplyOutcome::UnknownEntity;
    }
    let player = match players.player_of(connection_handle) {
        Some(p) => p,
        None => {
            return CommandApplyOutcome::UnknownPlayer;
        },
    };
    if player.0 != owners[e].0.0 {
        return CommandApplyOutcome::Unauthorized;
    }
    let mut q = CommandQueue::new();
    queues.set_and_swap(e, &mut q);
    q.apply(message.operation);
    queues.set_and_swap(e, &mut q);
    CommandApplyOutcome::Applied
}

/// Drain one unit's pending operation log: replay it in first-in, first-out
/// order against the health, and tag each operation with the unit's network
/// id for broadcast.
pub fn flush_instance(instance: &mut UnitInstance, net: NetworkEntity) -> (messages: Vec<
    UnitInstanceMessage,
>)
    ensures
        final(instance).health == apply_operations_spec(
            old(instance).health as int,
            old(instance).operations@,
        ),
        final(instance).operations@ == Seq::<UnitInstanceOperation>::empty(),
        messages@.len() == old(instance).operations@.len(),
        forall|k: int|
            0 <= k < messages@.len() ==> (#[trigger] messages@[k]) == (UnitInstanceMessage {
                operation: old(instance).operations@[k],
                target: net,
            }),
{
    let mut messages: Vec<UnitInstanceMessage> = Vec::new();
    let n: usize = instance.operations.len();
    let mut k: usize = 0;
    while k < n
        invariant
            k <= n,
            n == instance.operations@.len(),
            instance.operations@ == old(instance).operations@,
            instance.health == apply_operations_spec(
                old(instance).health as int,
                old(instance).operations@.subrange(0, k as int),
            ),
            messages@.len() == k,
            forall|m: int|
                0 <= m < k ==> (#[trigger] messages@[m]) == (UnitInstanceMessage {
                    operation: old(instance).operations@[m],
                    target: net,
                }),
        decreases n - k,
    {
        let operation = self_operations_at(instance, k);
        proof {
            assert(old(instance).operations@.subrange(0, k + 1 as int).drop_last() == old(
                instance,
            ).operations@.subrange(0, k as int)) by {
                assert(old(instance).operations@.subrange(0, k + 1 as int).drop_last() =~= old(
                    instance,
                ).operations@.subrange(0, k as int));
            }
        }
        let health = instance.health;
        instance.health = match operation {
            UnitInstanceOperation::SetHealth(h) => h,
            UnitInstanceOperation::SubtractHealth(damage) => match health.checked_sub(damage) {
                Some(h) => h,
                None => if damage >= 0 {
                    i64::MIN
                } else {
                    i64::MAX
                },
            },
        };
        messages.push(UnitInstanceMessage { operation, target: net });
        k = k + 1;
    }
    proof {
        assert(old(instance).operations@.subrange(0, n as int) =~= old(instance).operations@);
    }
    instance.operations.clear();
    messages
}

/// Read one pending operation.
fn self_operations_at(instance: &UnitInstance, k: usize) -> (r: UnitInstanceOperation)
    requires
        k < instance.operations@.len(),
    ensures
        r == instance.operations@[k as int],
{
    instance.operations[k]
}

/// One broadcast message per pending operation, in log order.
pub open spec fn tag_operations_spec(ops: Seq<UnitInstanceOperation>, net: NetworkEntity) -> Seq<
    UnitInstanceMessage,
> {
    Seq::new(ops.len(), |k: int| UnitInstanceMessage { operation: ops[k], target: net })
}

/// All messages the flush of the first `n` entities broadcasts, in entity
/// order, live units only.
pub open spec fn flushed_messages_spec(
    alive: Seq<bool>,
    nets: Seq<NetworkEntity>,
    instances: Seq<UnitInstance>,
    n: int,
) -> Seq<UnitInstanceMessage>
    decreases n,
{
    if n <= 0 {
        Seq::empty()
    } else {
        flushed_messages_spec(alive, nets, instances, n - 1) + (if alive[n - 1] {
            tag_operations_spec(instances[n - 1].operations@, nets[n - 1])
        } else {
            Seq::empty()
        })
    }
}

/// Server side of health replication: drain every live unit's operation
/// log, apply it locally, and collect one broadcast message per applied
/// operation, in application order.
pub fn server_unit_instance_system(
    alive: &Vec<bool>,
    net_entities: &Vec<NetworkEntity>,
    instances: &mut Vec<UnitInstance>,
) -> (messages: Vec<UnitInstanceMessage>)
    requires
        net_entities@.len() == alive@.len(),
        old(instances)@.len() == alive@.len(),
    ensures
        final(instances)@.len() == alive@.len(),
        messages@ == flushed_messages_spec(
            alive@,
            net_entities@,
            old(instances)@,
            alive@.len() as int,
        ),
        forall|i: int|
            0 <= i < alive@.len() && alive@[i] ==> {
                &&& (#[trigger] final(instances)@[i]).health == apply_operations_spec(
                    old(instances)@[i].health as int,
                    old(instances)@[i].operations@,
                )
                &&& final(instances)@[i].operations@.len() == 0
            },
        forall|i: int|
            0 <= i < alive@.len() && !alive@[i] ==> (#[trigger] final(instances)@[i]) == old(
                instances,
            )@[i],
{
    let n: usize = alive.len();
    let mut messages: Vec<UnitInstanceMessage> = Vec::new();
    let mut i: usize = 0;
    while i < n
        invariant
            i <= n,
            n == alive@.len(),
            net_entities@.len() == n,
            instances@.len() == n,
            messages@ == flushed_messages_spec(alive@, net_entities@, old(instances)@, i as int),
            forall|j: int| i <= j < n ==> (#[trigger] instances@[j]) == old(instances)@[j],
            forall|j: int|
                0 <= j < i && alive@[j] ==> {
                    &&& (#[trigger] instances@[j]).health == apply_operations_spec(
                        old(instances)@[j].health as int,
                        old(instances)@[j].operations@,
                    )
                    &&& instances@[j].operations@.len() == 0
                },
            forall|j: int|
                0 <= j < i && !alive@[j] ==> (#[trigger] instances@[j]) == old(instances)@[j],
        decreases n - i,
    {
        let ghost is_entry = instances@;
        let ghost msgs_entry = messages@;
        if alive[i] {
            let mut instance = UnitInstance { health: 0, operations: Vec::new() };
            instances.set_and_swap(i, &mut instance);
            let mut chunk = flush_instance(&mut instance, net_entities[i]);
            instances.set_and_swap(i, &mut instance);
            proof {
                assert(chunk@ =~= tag_operations_spec(
                    old(instances)@[i as int].operations@,
                    net_entities@[i as int],
                ));
            }
            messages.append(&mut chunk);
            proof {
                assert forall|j: int| 0 <= j < i implies (#[trigger] instances@[j]) == is_entry[j]
                by {}
                assert(messages@ =~= flushed_messages_spec(
                    alive@,
                    net_entities@,
                    old(instances)@,
                    i + 1 as int,
                ));
            }
        } else {
            proof {
                assert(messages@ =~= flushed_messages_spec(
                    alive@,
                    net_entities@,
                    old(instances)@,
                    i + 1 as int,
                ));
            }
        }
        i = i + 1;
    }
    messages
}

/// Client side of health replication: apply one replicated operation to the
/// unit it targets.  A registry miss is a stale reference: the message is
/// dropped.
pub fn apply_unit_instance_message(
    registry: &crate::network::NetworkEntityRegistry,
    alive: &Vec<bool>,
    instances: &mut Vec<UnitInstance>,
    message: &UnitInstanceMessage,
) -> (applied: bool)
    requires
        old(instances)@.len() == alive@.len(),
    ensures
        final(instances)@.len() == alive@.len(),
        ({
            let looked_up = registry.entities@.contains_key(message.target.0)
                && (registry.entities@[message.target.0] as int) < alive@.len()
                && alive@[registry.entities@[message.target.0] as int];
            if !looked_up {
                !applied && final(instances)@ == old(instances)@
            } else {
                let e = registry.entities@[message.target.0] as int;
                &&& applied
                &&& final(instances)@[e].health == apply_operation_spec(
                    old(instances)@[e].health as int,
                    message.operation,
                )
                &&& final(instances)@[e].operations@ == old(instances)@[e].operations@
                &&& forall|j: int|
                    0 <= j < alive@.len() && j != e ==> (#[trigger] final(instances)@[j]) == old(
                        instances,
                    )@[j]
            }
        }),
{
    let e: usize = match registry.get(&message.target) {
        Some(e) => e,
        None => {
            return false;
        },
    };
    if !(e < alive.len() && alive[e]) {
        return false;
    }
    let mut instance = UnitInstance { health: 0, operations: Vec::new() };
    instances.set_and_swap(e, &mut instance);
    instance.apply_operation(message.operation);
    instances.set_and_swap(e, &mut instance);
    true
}

/// Destroy every unit whose health has run out: its slot goes dead and its
/// network id leaves the registry, never to be handed out again.
pub fn unit_health_system(
    alive: &mut Vec<bool>,
    instances: &Vec<UnitInstance>,
    net_entities: &Vec<NetworkEntity>,
    registry: &mut crate::network::NetworkEntityRegistry,
)
    requires
        instances@.len() == old(alive)@.len(),
        net_entities@.len() == old(alive)@.len(),
    ensures
        final(alive)@.len() == old(alive)@.len(),
        forall|i: int|
            0 <= i < old(alive)@.len() ==> (#[trigger] final(alive)@[i]) == (old(alive)@[i]
                && instances@[i].health > 0),
        final(registry).next_entity == old(registry).next_entity,
        old(registry).wf() ==> final(registry).wf(),
        // removal only: nothing is added to the registry
        forall|k: u64|
            #[trigger] final(registry).entities@.contains_key(k) ==> old(
                registry,
            ).entities@.contains_key(k) && final(registry).entities@[k] == old(
                registry,
            ).entities@[k],
        // every dead unit's id is gone
        forall|i: int|
            0 <= i < old(alive)@.len() && old(alive)@[i] && instances@[i].health <= 0
                ==> !final(registry).entities@.contains_key((#[trigger] net_entities@[i]).0),
{
    let n: usize = alive.len();
    let mut i: usize = 0;
    while i < n
        invariant
            i <= n,
            n == old(alive)@.len(),
            alive@.len() == n,
            instances@.len() == n,
            net_entities@.len() == n,
            registry.next_entity == old(registry).next_entity,
            old(registry).wf() ==> registry.wf(),
            forall|j: int| i <= j < n ==> (#[trigger] alive@[j]) == old(alive)@[j],
            forall|j: int|
                0 <= j < i ==> (#[trigger] alive@[j]) == (old(alive)@[j] && instances@[j].health
                    > 0),
            forall|k: u64|
                #[trigger] registry.entities@.contains_key(k) ==> old(
                    registry,
                ).entities@.contains_key(k) && registry.entities@[k] == old(
                    registry,
                ).entities@[k],
            forall|j: int|
                0 <= j < i && old(alive)@[j] && instances@[j].health <= 0 ==> !registry.entities@
                    .contains_key((#[trigger] net_entities@[j]).0),
        decreases n - i,
    {
        if alive[i] && instances[i].health <= 0 {
            let ghost reg_entry = registry.entities@;
            let ghost removed = net_entities@[i as int].0;
            registry.remove(&net_entities[i]);
            alive.set(i, false);
            proof {
                assert(registry.entities@ == reg_entry.remove(removed));
                assert forall|k: u64| #[trigger] registry.entities@.contains_key(k) implies old(
                    registry,
                ).entities@.contains_key(k) && registry.entities@[k] == old(
                    registry,
                ).entities@[k] by {
                    vstd::map::axiom_map_remove_domain::<u64, usize>(reg_entry, removed);
                    vstd::map::axiom_map_remove_different::<u64, usize>(reg_entry, removed, k);
                    assert(k != removed);
                    assert(reg_entry.contains_key(k));
                    assert(registry.entities@[k] == reg_entry[k]);
                }
            }
        }
        i = i + 1;
    }
}

/// A `SetCommand` issued while the queue is locked never mutates the queue
/// itself, and after exactly one `unlock` the buffered command has become
/// the sole active command.
pub proof fn lemma_set_while_locked_buffers_until_unlock(m: QueueModel, command: Command)
    requires
        m.locked,
    ensures
        queue_set(m, command).commands == m.commands,
        queue_set(m, command).locked,
        queue_set(m, command).awaiting == Some(command),
        queue_unlock(queue_set(m, command)).commands =~= seq![command],
        !queue_unlock(queue_set(m, command)).locked,
        queue_unlock(queue_set(m, command)).awaiting is None,
{
}

} // verus!
