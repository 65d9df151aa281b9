//! High-level orders, their attack parameters, and the per-tick command
//! resolver.
//!
//! A [`Command`] is what a player (or the idle auto-engage scan) puts into a
//! unit's command queue.  Each tick the resolver reads the active command
//! and the world snapshot and derives a [`Behaviour`], completing, locking
//! or unlocking the queue as the queue state machine prescribes.

use crate::behaviour::Behaviour;
use crate::connection::PlayerId;
use crate::geom::{dist2, dist2_spec, Vec2, PRECISE_THRESHOLD2, SIZE_LIMIT};
use crate::network::{NetworkEntity, NetworkEntityRegistry};
use crate::position::Position;
use crate::unit::{queue_commands_wf, queue_complete, CommandQueue, CommandTarget, QueueModel};
use crate::world::{nearest_enemy, UnitSnapshot};
use vstd::prelude::*;

verus! {

/// A pending high-level order.
#[derive(Clone, Copy, Debug, PartialEq)]
pub enum Command {
    Attack {
        /// Ground position to attack-move toward, if any.
        target_position: Option<Vec2>,
        /// Unit to attack, if any.
        target_unit: Option<NetworkEntity>,
        /// Keep chasing a target that moves out of range instead of giving
        /// up.
        persue: bool,
    },
    Move {
        target: CommandTarget,
        /// Arrive within `0.1` world units instead of within the unit's own
        /// footprint.
        precise: bool,
    },
}

impl Command {
    /// Every target position a command names lies inside the world.
    pub open spec fn wf(self) -> bool {
        match self {
            Command::Move { target, .. } => target.wf(),
            Command::Attack { target_position, .. } => match target_position {
                Some(p) => p.in_bounds(),
                None => true,
            },
        }
    }
}

/// Something an attack does on a given animation frame.
#[derive(Clone, Copy, Debug, PartialEq)]
pub enum AttackEvent {
    /// Deals flat damage (in thousandths of a health point) to the target.
    Damage(i64),
}

/// Closed frame interval during which an attack command cannot be canceled.
#[derive(Clone, Copy, Debug, PartialEq, Eq, Structural)]
pub struct AnimationLock {
    pub start: u32,
    pub end: u32,
}

impl AnimationLock {
    /// The window is closed on both ends: its boundary frames are locked.
    pub open spec fn contains(self, frame: u32) -> bool {
        self.start <= frame <= self.end
    }
}

/// The lock window contains both of its boundary frames.
pub proof fn lemma_lock_window_closed(lock: AnimationLock)
    requires
        lock.start <= lock.end,
    ensures
        lock.contains(lock.start),
        lock.contains(lock.end),
{
}

/// Static attack block of a unit definition.
#[derive(Clone, Debug, PartialEq)]
pub struct Attack {
    /// Attack range, in fixed-point world coordinates.
    pub range: u64,
    /// An idle unit engages a target on its own within this range.
    pub engage_range: u64,
    /// Cancellation is deferred while the attack animation is inside this
    /// window.
    pub animation_lock: AnimationLock,
    /// Frame-indexed events, keyed uniquely by frame number.
    pub events: Vec<(u32, AttackEvent)>,
}

/// The first event listed for `frame`, if any.
pub open spec fn event_for_frame_spec(events: Seq<(u32, AttackEvent)>, frame: u32) -> Option<
    AttackEvent,
>
    decreases events.len(),
{
    if events.len() == 0 {
        None
    } else if events[0].0 == frame {
        Some(events[0].1)
    } else {
        event_for_frame_spec(events.drop_first(), frame)
    }
}

impl Attack {
    /// Ranges small enough that their squares fit the distance arithmetic,
    /// and the frame-event table keyed uniquely, so the first match is the
    /// only match.
    pub open spec fn wf(self) -> bool {
        &&& self.range <= crate::geom::RANGE_LIMIT
        &&& self.engage_range <= crate::geom::RANGE_LIMIT
        &&& forall|i: int, j: int|
            0 <= i < j < self.events@.len() ==> (#[trigger] self.events@[i]).0 != (
            #[trigger] self.events@[j]).0
    }

    /// Look up the event configured for an animation frame.
    pub fn event_for_frame(&self, frame: u32) -> (r: Option<AttackEvent>)
        ensures
            r == event_for_frame_spec(self.events@, frame),
    {
        lookup_event(&self.events, frame)
    }
}

/// What a replicated unit reference resolves to right now: the live entity
/// and its position, or nothing if the reference is stale.
pub open spec fn resolve_target_spec(
    registry: Map<u64, usize>,
    alive: Seq<bool>,
    positions: Seq<Position>,
    ne: NetworkEntity,
) -> Option<(usize, Vec2)> {
    if registry.contains_key(ne.0) {
        let e = registry[ne.0];
        if (e as int) < alive.len() && alive[e as int] {
            Some((e, positions[e as int].position))
        } else {
            None
        }
    } else {
        None
    }
}

/// Resolve a replicated unit reference to a live entity and its position.
/// A miss is expected under network delay and makes the caller skip the
/// current step, never fail.
pub fn lookup_target(
    registry: &NetworkEntityRegistry,
    alive: &Vec<bool>,
    positions: &Vec<Position>,
    ne: &NetworkEntity,
) -> (r: Option<(usize, Vec2)>)
    requires
        alive@.len() == positions@.len(),
    ensures
        r == resolve_target_spec(registry.entities@, alive@, positions@, *ne),
{
    match registry.get(ne) {
        Some(e) => {
            if e < alive.len() && alive[e] {
                Some((e, positions[e].position))
            } else {
                None
            }
        },
        None => None,
    }
}

/// Whether an imprecise move has arrived: within `1.1` times the unit's own
/// footprint radius, compared on squared fixed-point distances.
pub open spec fn coarse_arrival_spec(d2: int, size: int) -> bool {
    100 * d2 < 121 * (size * size)
}

/// The ground position a `Move` command's target resolves to this tick:
/// a literal position as is, a unit reference through the registry (the
/// live position, re-read every tick, which is what makes chasing work),
/// or nothing when the reference is stale.
pub open spec fn resolve_move_target_spec(
    cmd: Command,
    registry: Map<u64, usize>,
    alive: Seq<bool>,
    positions: Seq<Position>,
) -> Option<Vec2> {
    match cmd->Move_target {
        CommandTarget::Position(p) => Some(p),
        CommandTarget::Ally(ne) => match resolve_target_spec(registry, alive, positions, ne) {
            Some((_e, p)) => Some(p),
            None => None,
        },
        CommandTarget::Enemy(ne) => match resolve_target_spec(registry, alive, positions, ne) {
            Some((_e, p)) => Some(p),
            None => None,
        },
    }
}

/// Whether a `Move` command completes this tick: within the arrival
/// threshold, or canceled by a buffered replacement.
pub open spec fn move_completes_spec(
    cmd: Command,
    m: QueueModel,
    pos: Vec2,
    tp: Vec2,
    size: u64,
) -> bool {
    m.awaiting is Some || (if cmd->Move_precise {
        dist2_spec(pos, tp) < PRECISE_THRESHOLD2
    } else {
        coarse_arrival_spec(dist2_spec(pos, tp), size as int)
    })
}

/// The queue after resolving a `Move` command: untouched on a stale
/// target, completed on arrival or cancellation, kept otherwise.
pub open spec fn resolve_move_queue_spec(
    m: QueueModel,
    pos: Vec2,
    size: u64,
    registry: Map<u64, usize>,
    alive: Seq<bool>,
    positions: Seq<Position>,
) -> QueueModel {
    let cmd = m.commands.last();
    match resolve_move_target_spec(cmd, registry, alive, positions) {
        None => m,
        Some(tp) => if move_completes_spec(cmd, m, pos, tp, size) {
            queue_complete(m)
        } else {
            m
        },
    }
}

/// The behaviour a `Move` command yields: a step toward the resolved
/// target while the command stays active, nothing otherwise.
pub open spec fn resolve_move_behaviour_spec(
    m: QueueModel,
    pos: Vec2,
    size: u64,
    registry: Map<u64, usize>,
    alive: Seq<bool>,
    positions: Seq<Position>,
) -> Option<Behaviour> {
    let cmd = m.commands.last();
    match resolve_move_target_spec(cmd, registry, alive, positions) {
        None => None,
        Some(tp) => if move_completes_spec(cmd, m, pos, tp, size) {
            None
        } else {
            Some(Behaviour::Move { target: tp })
        },
    }
}

/// Resolve a `Move` command for one unit.
///
/// The arrival threshold is `0.1` world units when `precise`, else `1.1`
/// times the unit's footprint radius; the command completes exactly when
/// the unit is inside that threshold.  A pending replacement (the
/// `request_cancel` signal) completes the command immediately: movement has
/// no lock window, so cancelling is always safe.  A stale unit target skips
/// the tick and leaves the queue untouched.
pub fn resolve_move(
    queue: &mut CommandQueue,
    pos: Vec2,
    size: u64,
    registry: &NetworkEntityRegistry,
    alive: &Vec<bool>,
    positions: &Vec<Position>,
) -> (r: Option<Behaviour>)
    requires
        old(queue).commands@.len() > 0,
        old(queue).commands@.last() matches Command::Move { .. },
        old(queue).wf(),
        queue_commands_wf(*old(queue)),
        pos.in_bounds(),
        size <= SIZE_LIMIT,
        alive@.len() == positions@.len(),
        forall|j: int| 0 <= j < positions@.len() ==> (#[trigger] positions@[j]).position.in_bounds(),
    ensures
        final(queue).wf(),
        queue_commands_wf(*final(queue)),
        final(queue).model() == resolve_move_queue_spec(
            old(queue).model(),
            pos,
            size,
            registry.entities@,
            alive@,
            positions@,
        ),
        r == resolve_move_behaviour_spec(
            old(queue).model(),
            pos,
            size,
            registry.entities@,
            alive@,
            positions@,
        ),
        ({
            let cmd = old(queue).commands@.last();
            let target = cmd->Move_target;
            let precise = cmd->Move_precise;
            let resolved = match target {
                CommandTarget::Position(p) => Some(p),
                CommandTarget::Ally(ne) => match resolve_target_spec(
                    registry.entities@,
                    alive@,
                    positions@,
                    ne,
                ) {
                    Some((_e, p)) => Some(p),
                    None => None,
                },
                CommandTarget::Enemy(ne) => match resolve_target_spec(
                    registry.entities@,
                    alive@,
                    positions@,
                    ne,
                ) {
                    Some((_e, p)) => Some(p),
                    None => None,
                },
            };
            match resolved {
                None => r is None && *final(queue) == *old(queue),
                Some(tp) => {
                    if old(queue).awaiting is Some {
                        // a replacement is waiting: complete right away
                        &&& r is None
                        &&& final(queue).model() == queue_complete(old(queue).model())
                    } else {
                        let done = if precise {
                            dist2_spec(pos, tp) < PRECISE_THRESHOLD2
                        } else {
                            coarse_arrival_spec(dist2_spec(pos, tp), size as int)
                        };
                        &&& (done ==> r is None && final(queue).model() == queue_complete(
                            old(queue).model(),
                        ))
                        &&& (!done ==> r == Some(Behaviour::Move { target: tp }) && *final(queue)
                            == *old(queue))
                    }
                },
            }
        }),
{
    let (target, precise): (CommandTarget, bool) = match queue.current() {
        Some(Command::Move { target, precise }) => (*target, *precise),
        _ => (CommandTarget::Position(Vec2 { x: 0, y: 0 }), false),
    };
    let target_pos: Vec2 = match target {
        CommandTarget::Position(p) => p,
        CommandTarget::Ally(ne) => {
            match lookup_target(registry, alive, positions, &ne) {
                Some((_e, p)) => p,
                None => {
                    return None;
                },
            }
        },
        CommandTarget::Enemy(ne) => {
            match lookup_target(registry, alive, positions, &ne) {
                Some((_e, p)) => p,
                None => {
                    return None;
                },
            }
        },
    };
    if queue.awaiting.is_some() {
        queue.complete();
        return None;
    }
    let d2: u64 = dist2(pos, target_pos);
    let done: bool = if precise {
        d2 < PRECISE_THRESHOLD2
    } else {
        proof {
            assert(size * size <= 1_000_000_000_000u64) by (nonlinear_arith)
                requires
                    0 <= size <= SIZE_LIMIT,
            ;
        }
        100 * d2 < 121 * (size * size)
    };
    if done {
        queue.complete();
        None
    } else {
        Some(Behaviour::Move { target: target_pos })
    }
}

/// A resolved attack step: the queue's next state and the behaviour model
/// the unit acts on this tick.
pub struct AttackStepSpec {
    pub queue: QueueModel,
    pub behaviour: Option<crate::behaviour::BehaviourModel>,
}

/// The tail of an attack resolution, after the existing target was checked:
/// auto-acquire the nearest opposing unit within range when there is no
/// target but a ground position (or the unit was already engaging), clear
/// an arrived ground position, then dispatch — strike a resolved target in
/// range, chase one out of range, walk to the remaining ground position, or
/// complete.  The queue locks exactly when the dispatched behaviour is an
/// attack whose frame lies in the closed lock window, and unlocks
/// otherwise.
pub open spec fn attack_dispatch_spec(
    m: QueueModel,
    self_entity: usize,
    pos: Vec2,
    owner: PlayerId,
    attack: Attack,
    frame: u32,
    tp0: Option<Vec2>,
    tu: Option<NetworkEntity>,
    resolved: Option<(usize, Vec2)>,
    engaging: bool,
    persue: bool,
    snap: Seq<UnitSnapshot>,
) -> AttackStepSpec {
    let range2 = (attack.range as int) * (attack.range as int);
    let acquired = if (tu is None && tp0 is Some) || engaging {
        match crate::world::nearest_enemy_spec(snap, self_entity, owner, pos, snap.len() as int) {
            Some(k) => if dist2_spec(pos, snap[k].position) < range2 {
                Some(k)
            } else {
                None
            },
            None => None,
        }
    } else {
        None
    };
    let tu2 = match acquired {
        Some(k) => Some(snap[k].network_entity),
        None => tu,
    };
    let resolved2 = match acquired {
        Some(k) => Some((snap[k].entity, snap[k].position)),
        None => resolved,
    };
    let tp2 = cleared_target_position_spec(tp0, pos);
    match tu2 {
        Some(ne2) => match resolved2 {
            Some((e, tpos)) => {
                let cmd2 = Command::Attack {
                    target_position: tp2,
                    target_unit: Some(ne2),
                    persue,
                };
                let replaced = QueueModel {
                    commands: m.commands.update(m.commands.len() - 1, cmd2),
                    locked: m.locked,
                    awaiting: m.awaiting,
                };
                if dist2_spec(pos, tpos) > range2 {
                    AttackStepSpec {
                        queue: crate::unit::queue_unlock(replaced),
                        behaviour: Some(
                            crate::behaviour::BehaviourModel::Move { target: tpos },
                        ),
                    }
                } else {
                    let queue = if attack.animation_lock.contains(frame) {
                        QueueModel { locked: true, ..replaced }
                    } else {
                        crate::unit::queue_unlock(replaced)
                    };
                    AttackStepSpec {
                        queue,
                        behaviour: Some(
                            crate::behaviour::BehaviourModel::Attack {
                                target_position: tpos,
                                target: e,
                                damage: attack.events@,
                            },
                        ),
                    }
                }
            },
            None => {
                let cmd2 = Command::Attack { target_position: tp2, target_unit: None, persue };
                let replaced = QueueModel {
                    commands: m.commands.update(m.commands.len() - 1, cmd2),
                    locked: m.locked,
                    awaiting: m.awaiting,
                };
                AttackStepSpec { queue: crate::unit::queue_unlock(replaced), behaviour: None }
            },
        },
        None => match tp2 {
            Some(t) => {
                let cmd2 = Command::Attack { target_position: Some(t), target_unit: None, persue };
                let replaced = QueueModel {
                    commands: m.commands.update(m.commands.len() - 1, cmd2),
                    locked: m.locked,
                    awaiting: m.awaiting,
                };
                AttackStepSpec {
                    queue: crate::unit::queue_unlock(replaced),
                    behaviour: Some(crate::behaviour::BehaviourModel::Move { target: t }),
                }
            },
            None => AttackStepSpec { queue: queue_complete(m), behaviour: None },
        },
    }
}

/// One whole attack resolution: check the existing target first — chase it
/// while pursuing, honor a pending cancellation once out of range, keep it
/// while engaging inside the engage range, drop it when stale or beyond
/// the engage range — then dispatch.
pub open spec fn attack_step_spec(
    m: QueueModel,
    self_entity: usize,
    pos: Vec2,
    owner: PlayerId,
    attack: Attack,
    frame: u32,
    registry: Map<u64, usize>,
    alive: Seq<bool>,
    positions: Seq<Position>,
    snap: Seq<UnitSnapshot>,
) -> AttackStepSpec {
    let cmd = m.commands.last();
    let tp0 = cmd->Attack_target_position;
    let tu0 = cmd->Attack_target_unit;
    let persue = cmd->Attack_persue;
    let rc = m.awaiting is Some;
    let range2 = (attack.range as int) * (attack.range as int);
    let engage2 = (attack.engage_range as int) * (attack.engage_range as int);
    match tu0 {
        Some(ne) => match resolve_target_spec(registry, alive, positions, ne) {
            Some((e, tpos)) => {
                let d2 = dist2_spec(pos, tpos);
                if d2 >= range2 {
                    if persue {
                        // pursuit does not consume the command
                        AttackStepSpec {
                            queue: crate::unit::queue_unlock(m),
                            behaviour: Some(
                                crate::behaviour::BehaviourModel::Move { target: tpos },
                            ),
                        }
                    } else if rc {
                        AttackStepSpec { queue: queue_complete(m), behaviour: None }
                    } else if d2 <= engage2 {
                        attack_dispatch_spec(
                            m,
                            self_entity,
                            pos,
                            owner,
                            attack,
                            frame,
                            tp0,
                            Some(ne),
                            Some((e, tpos)),
                            true,
                            persue,
                            snap,
                        )
                    } else {
                        attack_dispatch_spec(
                            m,
                            self_entity,
                            pos,
                            owner,
                            attack,
                            frame,
                            tp0,
                            None,
                            None,
                            false,
                            persue,
                            snap,
                        )
                    }
                } else {
                    attack_dispatch_spec(
                        m,
                        self_entity,
                        pos,
                        owner,
                        attack,
                        frame,
                        tp0,
                        Some(ne),
                        Some((e, tpos)),
                        false,
                        persue,
                        snap,
                    )
                }
            },
            None => attack_dispatch_spec(
                m,
                self_entity,
                pos,
                owner,
                attack,
                frame,
                tp0,
                None,
                None,
                false,
                persue,
                snap,
            ),
        },
        None => attack_dispatch_spec(
            m,
            self_entity,
            pos,
            owner,
            attack,
            frame,
            tp0,
            None,
            None,
            false,
            persue,
            snap,
        ),
    }
}

/// Copy a frame-event table for handing to a behaviour.
fn copy_events(events: &Vec<(u32, AttackEvent)>) -> (r: Vec<(u32, AttackEvent)>)
    ensures
        r@ == events@,
{
    let mut r: Vec<(u32, AttackEvent)> = Vec::new();
    let mut i: usize = 0;
    while i < events.len()
        invariant
            i <= events@.len(),
            r@ == events@.subrange(0, i as int),
        decreases events@.len() - i,
    {
        r.push(events[i]);
        proof {
            assert(r@ =~= events@.subrange(0, i + 1 as int));
        }
        i = i + 1;
    }
    proof {
        assert(r@ =~= events@);
    }
    r
}

/// The target position an `Attack` command ends up with after the arrival
/// check: cleared once the unit stands within the arrival threshold.
pub open spec fn cleared_target_position_spec(tp: Option<Vec2>, pos: Vec2) -> Option<Vec2> {
    match tp {
        Some(t) => if dist2_spec(pos, t) < PRECISE_THRESHOLD2 {
            None
        } else {
            Some(t)
        },
        None => None,
    }
}

/// Resolve an `Attack` command for one unit.
///
/// A live target within range yields an `Attack` behaviour; one out of
/// range is chased while `persue` holds; without pursuit the command is
/// canceled on request, or the target is kept while inside the engage
/// range and dropped beyond it.  Without a target, the nearest opposing
/// unit within range is auto-acquired.  The queue is locked exactly while
/// the produced behaviour is `Attack` and the animation frame lies inside
/// the closed lock window, and unlocked otherwise; completing unlocks too,
/// so a buffered replacement takes over the moment the swing ends.
pub fn resolve_attack(
    queue: &mut CommandQueue,
    self_entity: usize,
    pos: Vec2,
    owner: PlayerId,
    attack: &Attack,
    frame: u32,
    registry: &NetworkEntityRegistry,
    alive: &Vec<bool>,
    positions: &Vec<Position>,
    snap: &Vec<UnitSnapshot>,
) -> (r: Option<Behaviour>)
    requires
        old(queue).commands@.len() > 0,
        old(queue).commands@.last() matches Command::Attack { .. },
        old(queue).wf(),
        queue_commands_wf(*old(queue)),
        pos.in_bounds(),
        attack.wf(),
        alive@.len() == positions@.len(),
        forall|j: int| 0 <= j < positions@.len() ==> (#[trigger] positions@[j]).position.in_bounds(),
        forall|k: int|
            0 <= k < snap@.len() ==> (#[trigger] snap@[k]).position.in_bounds() && snap@[k].entity
                < alive@.len(),
    ensures
        final(queue).wf(),
        queue_commands_wf(*final(queue)),
        // the animation-lock law: locked exactly while the behaviour is an
        // attack and the frame lies inside the closed lock window
        final(queue).locked <==> (r matches Some(Behaviour::Attack { .. })
            && attack.animation_lock.contains(frame)),
        // behaviours handed out are well formed
        (r matches Some(b) ==> b.wf(alive@.len() as int)),
        // the step is exactly the resolution the mirror prescribes
        final(queue).model() == attack_step_spec(
            old(queue).model(),
            self_entity,
            pos,
            owner,
            *attack,
            frame,
            registry.entities@,
            alive@,
            positions@,
            snap@,
        ).queue,
        crate::behaviour::behaviour_model_opt(r) == attack_step_spec(
            old(queue).model(),
            self_entity,
            pos,
            owner,
            *attack,
            frame,
            registry.entities@,
            alive@,
            positions@,
            snap@,
        ).behaviour,
{
    let (tp0, tu0, persue): (Option<Vec2>, Option<NetworkEntity>, bool) = match queue.current() {
        Some(Command::Attack { target_position, target_unit, persue }) => (
            *target_position,
            *target_unit,
            *persue,
        ),
        _ => (None, None, false),
    };
    let request_cancel: bool = queue.awaiting.is_some();
    let mut target_position: Option<Vec2> = tp0;
    let mut target_unit: Option<NetworkEntity> = tu0;
    let mut resolved: Option<(usize, Vec2)> = None;
    let mut engaging: bool = false;
    proof {
        assert(attack.range * attack.range <= 900_000_000_000_000u64) by (nonlinear_arith)
            requires
                attack.range <= crate::geom::RANGE_LIMIT,
        ;
        assert(attack.engage_range * attack.engage_range <= 900_000_000_000_000u64)
            by (nonlinear_arith)
            requires
                attack.engage_range <= crate::geom::RANGE_LIMIT,
        ;
    }
    let range2: u64 = attack.range * attack.range;
    let engage2: u64 = attack.engage_range * attack.engage_range;
    if let Some(ne) = target_unit {
        match lookup_target(registry, alive, positions, &ne) {
            Some((e, tpos)) => {
                let d2 = dist2(pos, tpos);
                if d2 >= range2 {
                    if persue {
                        // pursuit does not consume the command
                        queue.unlock();
                        return Some(Behaviour::Move { target: tpos });
                    } else if request_cancel {
                        queue.complete();
                        return None;
                    } else if d2 <= engage2 {
                        engaging = true;
                        resolved = Some((e, tpos));
                    } else {
                        target_unit = None;
                    }
                } else {
                    resolved = Some((e, tpos));
                }
            },
            None => {
                // stale reference: drop the target and carry on
                target_unit = None;
            },
        }
    }
    if (target_unit.is_none() && target_position.is_some()) || engaging {
        // auto-acquire the nearest opposing unit within range
        match nearest_enemy(snap, self_entity, owner, pos) {
            Some(j) => {
                let s = snap[j];
                let d2 = dist2(pos, s.position);
                if d2 < range2 {
                    target_unit = Some(s.network_entity);
                    resolved = Some((s.entity, s.position));
                }
            },
            None => {
            },
        }
    }
    if let Some(t) = target_position {
        if dist2(pos, t) < PRECISE_THRESHOLD2 {
            target_position = None;
        }
    }
    match target_unit {
        Some(_) => {
            match resolved {
                Some((e, tpos)) => {
                    let d2 = dist2(pos, tpos);
                    queue.replace_current(
                        Command::Attack { target_position, target_unit, persue },
                    );
                    if d2 > range2 {
                        queue.unlock();
                        Some(Behaviour::Move { target: tpos })
                    } else {
                        if attack.animation_lock.start <= frame && frame
                            <= attack.animation_lock.end {
                            queue.lock();
                        } else {
                            queue.unlock();
                        }
                        Some(
                            Behaviour::Attack {
                                target_position: tpos,
                                target: e,
                                damage: copy_events(&attack.events),
                            },
                        )
                    }
                },
                None => {
                    // the target was set but never resolved this tick: treat
                    // it as stale and wait
                    queue.replace_current(
                        Command::Attack { target_position, target_unit: None, persue },
                    );
                    queue.unlock();
                    None
                },
            }
        },
        None => {
            match target_position {
                Some(t) => {
                    queue.replace_current(
                        Command::Attack { target_position, target_unit, persue },
                    );
                    queue.unlock();
                    Some(Behaviour::Move { target: t })
                },
                None => {
                    queue.complete();
                    None
                },
            }
        },
    }
}

/// What the idle pass did to entity `j`: a live unit with an empty queue
/// and a loaded definition asks for the idle animation and, when it can
/// fight and the nearest opposing unit stands within its engage range,
/// pushes exactly one self-engage attack command on that unit — the only
/// path by which a unit starts combat without player input.  With nobody
/// to engage (or nothing to fight with) the queue stays empty and the
/// unit's behaviour is `Idle`.  Every other entity is untouched.
pub open spec fn idle_pass_ok(
    alive: Seq<bool>,
    owners: Seq<crate::connection::Owner>,
    positions: Seq<Position>,
    unit_handles: Seq<usize>,
    assets: crate::world::UnitAssets,
    snap: Seq<UnitSnapshot>,
    queues0: Seq<CommandQueue>,
    unit_animators0: Seq<crate::unit_animation::UnitAnimator>,
    behaviours0: Seq<Option<Behaviour>>,
    queues1: Seq<CommandQueue>,
    unit_animators1: Seq<crate::unit_animation::UnitAnimator>,
    behaviours1: Seq<Option<Behaviour>>,
    j: int,
) -> bool {
    let untouched = queues1[j] == queues0[j] && unit_animators1[j] == unit_animators0[j]
        && behaviours1[j] == behaviours0[j];
    if alive[j] && queues0[j].commands@.len() == 0 {
        match crate::world::loaded_unit(assets, unit_handles[j]) {
            Some(unit) => {
                &&& unit_animators1[j].current_animation@ == "idle"@
                &&& unit_animators1[j].reset_animation == unit_animators0[j].reset_animation
                &&& match unit.attack {
                    Some(att) => match crate::world::nearest_enemy_spec(
                        snap,
                        j as usize,
                        owners[j].0,
                        positions[j].position,
                        snap.len() as int,
                    ) {
                        Some(k) => if dist2_spec(positions[j].position, snap[k].position) <= (
                        att.engage_range as int) * (att.engage_range as int) {
                            // self-engage the nearest opposing unit
                            &&& queues1[j].model() == crate::unit::queue_add(
                                queues0[j].model(),
                                Command::Attack {
                                    target_position: None,
                                    target_unit: Some(snap[k].network_entity),
                                    persue: false,
                                },
                            )
                            &&& behaviours1[j] == behaviours0[j]
                        } else {
                            queues1[j] == queues0[j] && behaviours1[j] == Some(Behaviour::Idle)
                        },
                        None => queues1[j] == queues0[j] && behaviours1[j] == Some(
                            Behaviour::Idle,
                        ),
                    },
                    None => queues1[j] == queues0[j] && behaviours1[j] == Some(Behaviour::Idle),
                }
            },
            None => untouched,
        }
    } else {
        untouched
    }
}

/// Idle handling, for units with an empty command queue: request the
/// idle animation and — for units that can fight — scan for the nearest
/// opposing unit and self-engage when it stands within the engage range.
/// This is the only path by which a unit starts combat without player
/// input.  A unit whose queue stays empty gets the `Idle` behaviour.
pub fn idle_command_system(
    alive: &Vec<bool>,
    owners: &Vec<crate::connection::Owner>,
    positions: &Vec<Position>,
    unit_handles: &Vec<usize>,
    assets: &crate::world::UnitAssets,
    snap: &Vec<UnitSnapshot>,
    queues: &mut Vec<CommandQueue>,
    unit_animators: &mut Vec<crate::unit_animation::UnitAnimator>,
    behaviours: &mut Vec<Option<Behaviour>>,
)
    requires
        owners@.len() == alive@.len(),
        positions@.len() == alive@.len(),
        unit_handles@.len() == alive@.len(),
        old(queues)@.len() == alive@.len(),
        old(unit_animators)@.len() == alive@.len(),
        old(behaviours)@.len() == alive@.len(),
        assets.wf(),
        forall|j: int| 0 <= j < alive@.len() ==> (#[trigger] positions@[j]).position.in_bounds(),
        forall|j: int| 0 <= j < alive@.len() ==> (#[trigger] old(queues)@[j]).wf(),
        forall|j: int| 0 <= j < alive@.len() ==> queue_commands_wf(#[trigger] old(queues)@[j]),
        forall|k: int| 0 <= k < snap@.len() ==> (#[trigger] snap@[k]).position.in_bounds(),
    ensures
        final(queues)@.len() == alive@.len(),
        final(unit_animators)@.len() == alive@.len(),
        final(behaviours)@.len() == alive@.len(),
        forall|j: int| 0 <= j < alive@.len() ==> (#[trigger] final(queues)@[j]).wf(),
        forall|j: int| 0 <= j < alive@.len() ==> queue_commands_wf(#[trigger] final(queues)@[j]),
        // the only behaviour this pass ever writes is Idle
        forall|j: int|
            0 <= j < alive@.len() ==> ((#[trigger] final(behaviours)@[j]) matches Some(b) ==> (old(
                behaviours,
            )@[j] == Some(b) || b == Behaviour::Idle)),
        forall|j: int|
            0 <= j < alive@.len() ==> idle_pass_ok(
                alive@,
                owners@,
                positions@,
                unit_handles@,
                *assets,
                snap@,
                old(queues)@,
                old(unit_animators)@,
                old(behaviours)@,
                final(queues)@,
                final(unit_animators)@,
                final(behaviours)@,
                j,
            ),
{
    let n: usize = alive.len();
    let mut i: usize = 0;
    while i < n
        invariant
            n == alive@.len(),
            owners@.len() == n,
            positions@.len() == n,
            unit_handles@.len() == n,
            queues@.len() == n,
            unit_animators@.len() == n,
            behaviours@.len() == n,
            assets.wf(),
            forall|j: int| 0 <= j < n ==> (#[trigger] positions@[j]).position.in_bounds(),
            forall|k: int| 0 <= k < snap@.len() ==> (#[trigger] snap@[k]).position.in_bounds(),
            forall|j: int| 0 <= j < n ==> (#[trigger] queues@[j]).wf(),
            forall|j: int| 0 <= j < n ==> queue_commands_wf(#[trigger] queues@[j]),
            forall|j: int| i <= j < n ==> (#[trigger] queues@[j]) == old(queues)@[j],
            forall|j: int|
                i <= j < n ==> (#[trigger] unit_animators@[j]) == old(unit_animators)@[j],
            forall|j: int| i <= j < n ==> (#[trigger] behaviours@[j]) == old(behaviours)@[j],
            forall|j: int|
                0 <= j < n ==> ((#[trigger] behaviours@[j]) matches Some(b) ==> (old(
                    behaviours,
                )@[j] == Some(b) || b == Behaviour::Idle)),
            forall|j: int|
                0 <= j < i ==> idle_pass_ok(
                    alive@,
                    owners@,
                    positions@,
                    unit_handles@,
                    *assets,
                    snap@,
                    old(queues)@,
                    old(unit_animators)@,
                    old(behaviours)@,
                    queues@,
                    unit_animators@,
                    behaviours@,
                    j,
                ),
        decreases n - i,
    {
        let ghost qs_entry = queues@;
        let ghost ua_entry = unit_animators@;
        let ghost bh_entry = behaviours@;
        if alive[i] && queues[i].is_empty() {
            match assets.get(unit_handles[i]) {
                Some(unit) => {
                    proof {
                        assert(assets.entries@[unit_handles@[i as int] as int].1 matches Some(u)
                            ==> u.wf());
                    }
                    let mut ua = crate::unit_animation::UnitAnimator {
                        current_animation: String::new(),
                        reset_animation: false,
                    };
                    unit_animators.set_and_swap(i, &mut ua);
                    ua.set_playing("idle".to_owned());
                    unit_animators.set_and_swap(i, &mut ua);
                    let mut engaged = false;
                    match &unit.attack {
                        Some(attack) => {
                            proof {
                                assert(attack.engage_range * attack.engage_range
                                    <= 900_000_000_000_000u64) by (nonlinear_arith)
                                    requires
                                        attack.engage_range <= crate::geom::RANGE_LIMIT,
                                ;
                            }
                            match nearest_enemy(snap, i, owners[i].0, positions[i].position) {
                                Some(j) => {
                                    let s = snap[j];
                                    let d2 = dist2(positions[i].position, s.position);
                                    if d2 <= attack.engage_range * attack.engage_range {
                                        let mut q = CommandQueue::new();
                                        queues.set_and_swap(i, &mut q);
                                        q.add_command(
                                            Command::Attack {
                                                target_position: None,
                                                target_unit: Some(s.network_entity),
                                                persue: false,
                                            },
                                        );
                                        queues.set_and_swap(i, &mut q);
                                        engaged = true;
                                    }
                                },
                                None => {
                                },
                            }
                        },
                        None => {
                        },
                    }
                    if !engaged {
                        behaviours.set(i, Some(Behaviour::Idle));
                    }
                },
                None => {
                },
            }
        }
        proof {
            assert forall|j: int| 0 <= j < i implies idle_pass_ok(
                alive@,
                owners@,
                positions@,
                unit_handles@,
                *assets,
                snap@,
                old(queues)@,
                old(unit_animators)@,
                old(behaviours)@,
                queues@,
                unit_animators@,
                behaviours@,
                j,
            ) by {
                assert(queues@[j] == qs_entry[j]);
                assert(unit_animators@[j] == ua_entry[j]);
                assert(behaviours@[j] == bh_entry[j]);
                assert(idle_pass_ok(
                    alive@,
                    owners@,
                    positions@,
                    unit_handles@,
                    *assets,
                    snap@,
                    old(queues)@,
                    old(unit_animators)@,
                    old(behaviours)@,
                    qs_entry,
                    ua_entry,
                    bh_entry,
                    j,
                ));
            }
            assert(idle_pass_ok(
                alive@,
                owners@,
                positions@,
                unit_handles@,
                *assets,
                snap@,
                old(queues)@,
                old(unit_animators)@,
                old(behaviours)@,
                queues@,
                unit_animators@,
                behaviours@,
                i as int,
            ));
            assert forall|j: int| 0 <= j < n implies ((#[trigger] behaviours@[j]) matches Some(b)
                ==> (old(behaviours)@[j] == Some(b) || b == Behaviour::Idle)) by {
                assert(j != i ==> behaviours@[j] == bh_entry[j]);
            }
        }
        i = i + 1;
    }
}

/// What the movement-resolution pass did to entity `j`: a live unit whose
/// active command is `Move` and whose definition has loaded is resolved
/// exactly as [`resolve_move`] prescribes; every other entity is untouched.
pub open spec fn move_pass_ok(
    alive: Seq<bool>,
    positions: Seq<Position>,
    unit_handles: Seq<usize>,
    assets: crate::world::UnitAssets,
    registry: Map<u64, usize>,
    queues0: Seq<CommandQueue>,
    behaviours0: Seq<Option<Behaviour>>,
    queues1: Seq<CommandQueue>,
    behaviours1: Seq<Option<Behaviour>>,
    j: int,
) -> bool {
    let untouched = queues1[j] == queues0[j] && behaviours1[j] == behaviours0[j];
    if alive[j] && queues0[j].commands@.len() > 0 && queues0[j].commands@.last() is Move {
        match crate::world::loaded_unit(assets, unit_handles[j]) {
            Some(unit) => {
                &&& queues1[j].model() == resolve_move_queue_spec(
                    queues0[j].model(),
                    positions[j].position,
                    unit.size,
                    registry,
                    alive,
                    positions,
                )
                &&& behaviours1[j] == resolve_move_behaviour_spec(
                    queues0[j].model(),
                    positions[j].position,
                    unit.size,
                    registry,
                    alive,
                    positions,
                )
            },
            None => untouched,
        }
    } else {
        untouched
    }
}

/// The movement resolution pass: resolve every live unit whose active
/// command is `Move`, producing its behaviour and completing arrived
/// commands.  Other units are untouched.
pub fn move_command_system(
    alive: &Vec<bool>,
    positions: &Vec<Position>,
    unit_handles: &Vec<usize>,
    assets: &crate::world::UnitAssets,
    registry: &NetworkEntityRegistry,
    queues: &mut Vec<CommandQueue>,
    behaviours: &mut Vec<Option<Behaviour>>,
)
    requires
        positions@.len() == alive@.len(),
        unit_handles@.len() == alive@.len(),
        old(queues)@.len() == alive@.len(),
        old(behaviours)@.len() == alive@.len(),
        assets.wf(),
        forall|j: int| 0 <= j < alive@.len() ==> (#[trigger] positions@[j]).position.in_bounds(),
        forall|j: int| 0 <= j < alive@.len() ==> (#[trigger] old(queues)@[j]).wf(),
        forall|j: int| 0 <= j < alive@.len() ==> queue_commands_wf(#[trigger] old(queues)@[j]),
        forall|j: int|
            0 <= j < alive@.len() ==> ((#[trigger] old(behaviours)@[j]) matches Some(b) ==> b.wf(
                alive@.len() as int,
            )),
    ensures
        final(queues)@.len() == alive@.len(),
        final(behaviours)@.len() == alive@.len(),
        forall|j: int| 0 <= j < alive@.len() ==> (#[trigger] final(queues)@[j]).wf(),
        forall|j: int| 0 <= j < alive@.len() ==> queue_commands_wf(#[trigger] final(queues)@[j]),
        forall|j: int|
            0 <= j < alive@.len() ==> ((#[trigger] final(behaviours)@[j]) matches Some(b) ==> b.wf(
                alive@.len() as int,
            )),
        forall|j: int|
            0 <= j < alive@.len() ==> move_pass_ok(
                alive@,
                positions@,
                unit_handles@,
                *assets,
                registry.entities@,
                old(queues)@,
                old(behaviours)@,
                final(queues)@,
                final(behaviours)@,
                j,
            ),
{
    let n: usize = alive.len();
    let mut i: usize = 0;
    while i < n
        invariant
            n == alive@.len(),
            positions@.len() == n,
            unit_handles@.len() == n,
            queues@.len() == n,
            behaviours@.len() == n,
            assets.wf(),
            forall|j: int| 0 <= j < n ==> (#[trigger] positions@[j]).position.in_bounds(),
            forall|j: int| 0 <= j < n ==> (#[trigger] queues@[j]).wf(),
            forall|j: int| 0 <= j < n ==> queue_commands_wf(#[trigger] queues@[j]),
            forall|j: int|
                0 <= j < n ==> ((#[trigger] behaviours@[j]) matches Some(b) ==> b.wf(n as int)),
            forall|j: int| i <= j < n ==> (#[trigger] queues@[j]) == old(queues)@[j],
            forall|j: int| i <= j < n ==> (#[trigger] behaviours@[j]) == old(behaviours)@[j],
            forall|j: int|
                0 <= j < i ==> move_pass_ok(
                    alive@,
                    positions@,
                    unit_handles@,
                    *assets,
                    registry.entities@,
                    old(queues)@,
                    old(behaviours)@,
                    queues@,
                    behaviours@,
                    j,
                ),
        decreases n - i,
    {
        let ghost qs_entry = queues@;
        let ghost bh_entry = behaviours@;
        if alive[i] {
            let is_move = match queues[i].current() {
                Some(Command::Move { .. }) => true,
                _ => false,
            };
            if is_move {
                match assets.get(unit_handles[i]) {
                    Some(unit) => {
                        proof {
                            assert(assets.entries@[unit_handles@[i as int] as int].1 matches Some(
                                u,
                            ) ==> u.wf());
                        }
                        let mut q = CommandQueue::new();
                        queues.set_and_swap(i, &mut q);
                        let b = resolve_move(
                            &mut q,
                            positions[i].position,
                            unit.size,
                            registry,
                            alive,
                            positions,
                        );
                        queues.set_and_swap(i, &mut q);
                        behaviours.set(i, b);
                        proof {
                            assert(alive@[i as int] && old(queues)@[i as int].commands@.len() > 0
                                && old(queues)@[i as int].commands@.last() is Move
                                && crate::world::loaded_unit(
                                *assets,
                                unit_handles@[i as int],
                            ) is Some);
                        }
                    },
                    None => {
                    },
                }
            }
        }
        proof {
            assert forall|j: int| 0 <= j < i implies move_pass_ok(
                alive@,
                positions@,
                unit_handles@,
                *assets,
                registry.entities@,
                old(queues)@,
                old(behaviours)@,
                queues@,
                behaviours@,
                j,
            ) by {
                assert(queues@[j] == qs_entry[j]);
                assert(behaviours@[j] == bh_entry[j]);
                assert(move_pass_ok(
                    alive@,
                    positions@,
                    unit_handles@,
                    *assets,
                    registry.entities@,
                    old(queues)@,
                    old(behaviours)@,
                    qs_entry,
                    bh_entry,
                    j,
                ));
            }
            assert(move_pass_ok(
                alive@,
                positions@,
                unit_handles@,
                *assets,
                registry.entities@,
                old(queues)@,
                old(behaviours)@,
                queues@,
                behaviours@,
                i as int,
            ));
        }
        i = i + 1;
    }
}

/// What the combat-resolution pass did to entity `j`: a live unit whose
/// active command is `Attack` and whose definition has loaded is resolved
/// exactly as [`resolve_attack`] prescribes; a unit whose definition has no
/// attack block cannot meaningfully attack, so its command is completed and
/// it gets no behaviour.  Every other entity is untouched.
pub open spec fn attack_pass_ok(
    alive: Seq<bool>,
    owners: Seq<crate::connection::Owner>,
    positions: Seq<Position>,
    unit_handles: Seq<usize>,
    animators: Seq<crate::animation::Animator>,
    assets: crate::world::UnitAssets,
    registry: Map<u64, usize>,
    snap: Seq<UnitSnapshot>,
    queues0: Seq<CommandQueue>,
    behaviours0: Seq<Option<Behaviour>>,
    queues1: Seq<CommandQueue>,
    behaviours1: Seq<Option<Behaviour>>,
    j: int,
) -> bool {
    let untouched = queues1[j] == queues0[j] && behaviours1[j] == behaviours0[j];
    if alive[j] && queues0[j].commands@.len() > 0 && queues0[j].commands@.last() is Attack {
        match crate::world::loaded_unit(assets, unit_handles[j]) {
            Some(unit) => match unit.attack {
                Some(att) => {
                    let step = attack_step_spec(
                        queues0[j].model(),
                        j as usize,
                        positions[j].position,
                        owners[j].0,
                        att,
                        animators[j].current_frame,
                        registry,
                        alive,
                        positions,
                        snap,
                    );
                    &&& queues1[j].model() == step.queue
                    &&& crate::behaviour::behaviour_model_opt(behaviours1[j]) == step.behaviour
                },
                None => queues1[j].model() == queue_complete(queues0[j].model())
                    && behaviours1[j] is None,
            },
            None => untouched,
        }
    } else {
        untouched
    }
}

/// The combat resolution pass: resolve every live unit whose active
/// command is `Attack`.  A unit whose definition carries no attack block
/// cannot meaningfully attack: the command is completed so the unit does
/// not stand around forever.
pub fn attack_command_system(
    alive: &Vec<bool>,
    owners: &Vec<crate::connection::Owner>,
    positions: &Vec<Position>,
    unit_handles: &Vec<usize>,
    animators: &Vec<crate::animation::Animator>,
    assets: &crate::world::UnitAssets,
    registry: &NetworkEntityRegistry,
    snap: &Vec<UnitSnapshot>,
    queues: &mut Vec<CommandQueue>,
    behaviours: &mut Vec<Option<Behaviour>>,
)
    requires
        owners@.len() == alive@.len(),
        positions@.len() == alive@.len(),
        unit_handles@.len() == alive@.len(),
        animators@.len() == alive@.len(),
        old(queues)@.len() == alive@.len(),
        old(behaviours)@.len() == alive@.len(),
        assets.wf(),
        forall|j: int| 0 <= j < alive@.len() ==> (#[trigger] positions@[j]).position.in_bounds(),
        forall|j: int| 0 <= j < alive@.len() ==> (#[trigger] old(queues)@[j]).wf(),
        forall|j: int| 0 <= j < alive@.len() ==> queue_commands_wf(#[trigger] old(queues)@[j]),
        forall|j: int|
            0 <= j < alive@.len() ==> ((#[trigger] old(behaviours)@[j]) matches Some(b) ==> b.wf(
                alive@.len() as int,
            )),
        forall|k: int|
            0 <= k < snap@.len() ==> (#[trigger] snap@[k]).position.in_bounds() && snap@[k].entity
                < alive@.len(),
    ensures
        final(queues)@.len() == alive@.len(),
        final(behaviours)@.len() == alive@.len(),
        forall|j: int| 0 <= j < alive@.len() ==> (#[trigger] final(queues)@[j]).wf(),
        forall|j: int| 0 <= j < alive@.len() ==> queue_commands_wf(#[trigger] final(queues)@[j]),
        forall|j: int|
            0 <= j < alive@.len() ==> ((#[trigger] final(behaviours)@[j]) matches Some(b) ==> b.wf(
                alive@.len() as int,
            )),
        forall|j: int|
            0 <= j < alive@.len() ==> attack_pass_ok(
                alive@,
                owners@,
                positions@,
                unit_handles@,
                animators@,
                *assets,
                registry.entities@,
                snap@,
                old(queues)@,
                old(behaviours)@,
                final(queues)@,
                final(behaviours)@,
                j,
            ),
{
    let n: usize = alive.len();
    let mut i: usize = 0;
    while i < n
        invariant
            n == alive@.len(),
            owners@.len() == n,
            positions@.len() == n,
            unit_handles@.len() == n,
            animators@.len() == n,
            queues@.len() == n,
            behaviours@.len() == n,
            assets.wf(),
            forall|j: int| 0 <= j < n ==> (#[trigger] positions@[j]).position.in_bounds(),
            forall|k: int|
                0 <= k < snap@.len() ==> (#[trigger] snap@[k]).position.in_bounds()
                    && snap@[k].entity < n,
            forall|j: int| 0 <= j < n ==> (#[trigger] queues@[j]).wf(),
            forall|j: int| 0 <= j < n ==> queue_commands_wf(#[trigger] queues@[j]),
            forall|j: int|
                0 <= j < n ==> ((#[trigger] behaviours@[j]) matches Some(b) ==> b.wf(n as int)),
            forall|j: int| i <= j < n ==> (#[trigger] queues@[j]) == old(queues)@[j],
            forall|j: int| i <= j < n ==> (#[trigger] behaviours@[j]) == old(behaviours)@[j],
            forall|j: int|
                0 <= j < i ==> attack_pass_ok(
                    alive@,
                    owners@,
                    positions@,
                    unit_handles@,
                    animators@,
                    *assets,
                    registry.entities@,
                    snap@,
                    old(queues)@,
                    old(behaviours)@,
                    queues@,
                    behaviours@,
                    j,
                ),
        decreases n - i,
    {
        let ghost qs_entry = queues@;
        let ghost bh_entry = behaviours@;
        if alive[i] {
            let is_attack = match queues[i].current() {
                Some(Command::Attack { .. }) => true,
                _ => false,
            };
            if is_attack {
                match assets.get(unit_handles[i]) {
                    Some(unit) => {
                        proof {
                            assert(assets.entries@[unit_handles@[i as int] as int].1 matches Some(
                                u,
                            ) ==> u.wf());
                        }
                        let mut q = CommandQueue::new();
                        queues.set_and_swap(i, &mut q);
                        match &unit.attack {
                            Some(attack) => {
                                let frame: u32 = animators[i].current_frame;
                                let b = resolve_attack(
                                    &mut q,
                                    i,
                                    positions[i].position,
                                    owners[i].0,
                                    attack,
                                    frame,
                                    registry,
                                    alive,
                                    positions,
                                    snap,
                                );
                                queues.set_and_swap(i, &mut q);
                                behaviours.set(i, b);
                            },
                            None => {
                                // a unit without an attack block cannot hold
                                // an attack command; complete it
                                q.complete();
                                queues.set_and_swap(i, &mut q);
                                behaviours.set(i, None);
                            },
                        }
                    },
                    None => {
                    },
                }
            }
        }
        proof {
            assert forall|j: int| 0 <= j < i implies attack_pass_ok(
                alive@,
                owners@,
                positions@,
                unit_handles@,
                animators@,
                *assets,
                registry.entities@,
                snap@,
                old(queues)@,
                old(behaviours)@,
                queues@,
                behaviours@,
                j,
            ) by {
                assert(queues@[j] == qs_entry[j]);
                assert(behaviours@[j] == bh_entry[j]);
                assert(attack_pass_ok(
                    alive@,
                    owners@,
                    positions@,
                    unit_handles@,
                    animators@,
                    *assets,
                    registry.entities@,
                    snap@,
                    old(queues)@,
                    old(behaviours)@,
                    qs_entry,
                    bh_entry,
                    j,
                ));
            }
            assert(attack_pass_ok(
                alive@,
                owners@,
                positions@,
                unit_handles@,
                animators@,
                *assets,
                registry.entities@,
                snap@,
                old(queues)@,
                old(behaviours)@,
                queues@,
                behaviours@,
                i as int,
            ));
        }
        i = i + 1;
    }
}

/// The first event listed for `frame` in a frame-event table.
pub fn lookup_event(events: &Vec<(u32, AttackEvent)>, frame: u32) -> (r: Option<AttackEvent>)
    ensures
        r == event_for_frame_spec(events@, frame),
{
    let mut i: usize = 0;
    proof {
        assert(events@.subrange(0, events@.len() as int) =~= events@);
    }
    while i < events.len()
        invariant
            i <= events@.len(),
            event_for_frame_spec(events@, frame) == event_for_frame_spec(
                events@.subrange(i as int, events@.len() as int),
                frame,
            ),
        decreases events@.len() - i,
    {
        let (f, e) = events[i];
        proof {
            assert(events@.subrange(i as int, events@.len() as int).drop_first()
                =~= events@.subrange(i + 1 as int, events@.len() as int));
        }
        if f == frame {
            return Some(e);
        }
        i = i + 1;
    }
    None
}

} // verus!
