//! The entity arena and its typed component tables.
//!
//! World state is explicit: every per-tick function receives the tables it
//! reads and writes.  Entities are stable arena indices; a despawned slot
//! stays dead and is never reused within a run.  Cross-entity reads during a
//! tick go through a read-only [`UnitSnapshot`] taken before the pass, never
//! through the tables being mutated.

use crate::animation::{AnimationSet, Animator};
use crate::connection::{Owner, PlayerId};
use crate::geom::{dist2, dist2_spec, Vec2};
use crate::network::NetworkEntity;
use crate::position::Position;
use crate::unit::{CommandQueue, Unit, UnitInstance};
use crate::unit_animation::{UnitAnimationSet, UnitAnimator, UnitDirection};
use vstd::pervasive::VecAdditionalExecFns;
use vstd::prelude::*;

verus! {

/// The first index carrying `name`, searched from the front.
pub open spec fn name_index_spec<T>(entries: Seq<(String, T)>, name: Seq<char>, offset: int) -> Option<
    int,
>
    decreases entries.len(),
{
    if entries.len() == 0 {
        None
    } else if entries[0].0@ == name {
        Some(offset)
    } else {
        name_index_spec(entries.drop_first(), name, offset + 1)
    }
}

/// Find the handle registered under `name`.
pub fn find_by_name<T>(entries: &Vec<(String, T)>, name: &String) -> (r: Option<usize>)
    ensures
        match r {
            Some(h) => name_index_spec(entries@, name@, 0) == Some(h as int) && h
                < entries@.len() && entries@[h as int].0@ == name@,
            None => name_index_spec(entries@, name@, 0) is None,
        },
{
    let mut i: usize = 0;
    proof {
        assert(entries@.subrange(0, entries@.len() as int) =~= entries@);
    }
    while i < entries.len()
        invariant
            i <= entries@.len(),
            name_index_spec(entries@, name@, 0) == name_index_spec(
                entries@.subrange(i as int, entries@.len() as int),
                name@,
                i as int,
            ),
        decreases entries@.len() - i,
    {
        proof {
            assert(entries@.subrange(i as int, entries@.len() as int).drop_first()
                =~= entries@.subrange(i + 1 as int, entries@.len() as int));
        }
        if entries[i].0 == *name {
            return Some(i);
        }
        i = i + 1;
    }
    None
}

/// Unit definitions by handle; a `None` slot is an asset that has not
/// resolved yet, and consumers skip the unit this tick and retry the next.
pub struct UnitAssets {
    pub entries: Vec<(String, Option<Unit>)>,
}

/// The definition a handle resolves to, if it has loaded.
pub open spec fn loaded_unit(assets: UnitAssets, handle: usize) -> Option<Unit> {
    if handle < assets.entries@.len() {
        assets.entries@[handle as int].1
    } else {
        None
    }
}

impl UnitAssets {
    /// Every loaded definition is well formed.
    pub open spec fn wf(self) -> bool {
        forall|i: int|
            0 <= i < self.entries@.len() ==> match (#[trigger] self.entries@[i]).1 {
                Some(u) => u.wf(),
                None => true,
            }
    }

    /// The definition behind a handle, if it has loaded.
    pub fn get(&self, handle: usize) -> (r: Option<&Unit>)
        ensures
            match r {
                Some(u) => handle < self.entries@.len() && self.entries@[handle as int].1
                    == Some(*u),
                None => handle >= self.entries@.len() || self.entries@[handle as int].1 is None,
            },
    {
        if handle < self.entries.len() {
            match &self.entries[handle].1 {
                Some(u) => Some(u),
                None => None,
            }
        } else {
            None
        }
    }
}

/// Frame-animation sets by handle.
pub struct AnimationAssets {
    pub entries: Vec<(String, Option<AnimationSet>)>,
}

impl AnimationAssets {
    pub open spec fn wf(self) -> bool {
        forall|i: int|
            0 <= i < self.entries@.len() ==> match (#[trigger] self.entries@[i]).1 {
                Some(s) => s.wf(),
                None => true,
            }
    }

    pub fn get(&self, handle: usize) -> (r: Option<&AnimationSet>)
        ensures
            match r {
                Some(s) => handle < self.entries@.len() && self.entries@[handle as int].1
                    == Some(*s),
                None => handle >= self.entries@.len() || self.entries@[handle as int].1 is None,
            },
    {
        if handle < self.entries.len() {
            match &self.entries[handle].1 {
                Some(s) => Some(s),
                None => None,
            }
        } else {
            None
        }
    }
}

/// Directional animation tables by handle.
pub struct UnitAnimationAssets {
    pub entries: Vec<(String, Option<UnitAnimationSet>)>,
}

impl UnitAnimationAssets {
    pub fn get(&self, handle: usize) -> (r: Option<&UnitAnimationSet>)
        ensures
            match r {
                Some(s) => handle < self.entries@.len() && self.entries@[handle as int].1
                    == Some(*s),
                None => handle >= self.entries@.len() || self.entries@[handle as int].1 is None,
            },
    {
        if handle < self.entries.len() {
            match &self.entries[handle].1 {
                Some(s) => Some(s),
                None => None,
            }
        } else {
            None
        }
    }
}

/// The world: one entry per entity in every table.
pub struct World {
    /// False once the unit was destroyed; dead slots are never reused.
    pub alive: Vec<bool>,
    pub positions: Vec<Position>,
    pub owners: Vec<Owner>,
    /// Handle into [`UnitAssets`].
    pub unit_handles: Vec<usize>,
    /// Handle into [`UnitAnimationAssets`].
    pub unit_animation_handles: Vec<usize>,
    pub queues: Vec<CommandQueue>,
    pub animators: Vec<Animator>,
    pub unit_animators: Vec<UnitAnimator>,
    pub directions: Vec<UnitDirection>,
    pub instances: Vec<UnitInstance>,
    pub net_entities: Vec<NetworkEntity>,
}

impl World {
    /// Number of entity slots, dead ones included.
    pub open spec fn len(self) -> int {
        self.alive@.len() as int
    }

    /// All tables cover the same entities, and every live unit's state is
    /// well formed: its position in bounds, its queue and its commands well
    /// formed, its animator's play time in range.
    pub open spec fn wf(self) -> bool {
        &&& self.positions@.len() == self.len()
        &&& self.owners@.len() == self.len()
        &&& self.unit_handles@.len() == self.len()
        &&& self.unit_animation_handles@.len() == self.len()
        &&& self.queues@.len() == self.len()
        &&& self.animators@.len() == self.len()
        &&& self.unit_animators@.len() == self.len()
        &&& self.directions@.len() == self.len()
        &&& self.instances@.len() == self.len()
        &&& self.net_entities@.len() == self.len()
        &&& forall|i: int|
            0 <= i < self.len() ==> (#[trigger] self.positions@[i]).position.in_bounds()
        &&& forall|i: int| 0 <= i < self.len() ==> (#[trigger] self.queues@[i]).wf()
        &&& forall|i: int|
            0 <= i < self.len() ==> crate::unit::queue_commands_wf(#[trigger] self.queues@[i])
        &&& forall|i: int| 0 <= i < self.len() ==> (#[trigger] self.animators@[i]).wf()
    }

    pub fn new() -> (r: World)
        ensures
            r.len() == 0,
            r.wf(),
    {
        World {
            alive: Vec::new(),
            positions: Vec::new(),
            owners: Vec::new(),
            unit_handles: Vec::new(),
            unit_animation_handles: Vec::new(),
            queues: Vec::new(),
            animators: Vec::new(),
            unit_animators: Vec::new(),
            directions: Vec::new(),
            instances: Vec::new(),
            net_entities: Vec::new(),
        }
    }

    pub fn num_entities(&self) -> (r: usize)
        ensures
            r == self.len(),
    {
        self.alive.len()
    }

    /// Spawn one unit: a fresh arena slot carrying every per-unit
    /// component, with an empty command queue, idle animation requests,
    /// and a south-facing start, exactly as the unit spawn descriptor
    /// instantiates them.
    pub fn spawn_unit(
        &mut self,
        position: Vec2,
        owner: PlayerId,
        unit_handle: usize,
        unit_animation_handle: usize,
        animation_set_handle: usize,
        instance: UnitInstance,
        net: NetworkEntity,
    ) -> (e: usize)
        requires
            old(self).wf(),
            position.in_bounds(),
        ensures
            final(self).wf(),
            e == old(self).len(),
            final(self).len() == old(self).len() + 1,
            final(self).alive@ == old(self).alive@.push(true),
            final(self).positions@ == old(self).positions@.push(Position { position }),
            final(self).owners@ == old(self).owners@.push(Owner(owner)),
            final(self).unit_handles@ == old(self).unit_handles@.push(unit_handle),
            final(self).unit_animation_handles@ == old(self).unit_animation_handles@.push(
                unit_animation_handle,
            ),
            final(self).instances@ == old(self).instances@.push(instance),
            final(self).net_entities@ == old(self).net_entities@.push(net),
            final(self).directions@ == old(self).directions@.push(UnitDirection::Down),
            final(self).queues@.len() == old(self).queues@.len() + 1,
            final(self).queues@.last().commands@.len() == 0,
            !final(self).queues@.last().locked,
            final(self).queues@.last().awaiting is None,
            final(self).animators@.len() == old(self).animators@.len() + 1,
            final(self).animators@.last().animation_set == animation_set_handle,
            final(self).animators@.last().playing_animation@ == "idle_up"@,
            final(self).unit_animators@.len() == old(self).unit_animators@.len() + 1,
            final(self).unit_animators@.last().current_animation@ == "idle"@,
            forall|j: int|
                0 <= j < old(self).len() ==> (#[trigger] final(self).queues@[j]) == old(
                    self,
                ).queues@[j] && final(self).animators@[j] == old(self).animators@[j] && final(self).unit_animators@[j] == old(self).unit_animators@[j],
    {
        let e: usize = self.alive.len();
        self.alive.push(true);
        self.positions.push(Position { position });
        self.owners.push(Owner(owner));
        self.unit_handles.push(unit_handle);
        self.unit_animation_handles.push(unit_animation_handle);
        self.queues.push(CommandQueue::new());
        self.animators.push(Animator::new(animation_set_handle, "idle_up".to_owned()));
        self.unit_animators.push(UnitAnimator::new("idle".to_owned()));
        self.directions.push(UnitDirection::Down);
        self.instances.push(instance);
        self.net_entities.push(net);
        e
    }

    /// Mark a unit as destroyed; its slot stays, dead.
    pub fn despawn(&mut self, entity: usize)
        requires
            0 <= entity < old(self).len(),
        ensures
            final(self).alive@ == old(self).alive@.update(entity as int, false),
            final(self).positions@ == old(self).positions@,
            final(self).owners@ == old(self).owners@,
            final(self).unit_handles@ == old(self).unit_handles@,
            final(self).unit_animation_handles@ == old(self).unit_animation_handles@,
            final(self).queues@ == old(self).queues@,
            final(self).animators@ == old(self).animators@,
            final(self).unit_animators@ == old(self).unit_animators@,
            final(self).directions@ == old(self).directions@,
            final(self).instances@ == old(self).instances@,
            final(self).net_entities@ == old(self).net_entities@,
            old(self).wf() ==> final(self).wf(),
    {
        self.alive.set(entity, false);
    }
}

/// Read-only view of one live unit, taken before a pass that mutates the
/// tables it was read from.
#[derive(Clone, Copy, Debug, PartialEq, Eq, Structural)]
pub struct UnitSnapshot {
    pub entity: usize,
    pub network_entity: NetworkEntity,
    pub owner: PlayerId,
    pub position: Vec2,
}

/// The snapshot rows for the first `n` entities, live ones only, in entity
/// order, straight from the component tables.
pub open spec fn snapshot_rows_spec(
    alive: Seq<bool>,
    net_entities: Seq<NetworkEntity>,
    owners: Seq<Owner>,
    positions: Seq<Position>,
    n: int,
) -> Seq<UnitSnapshot>
    decreases n,
{
    if n <= 0 {
        Seq::empty()
    } else {
        let rest = snapshot_rows_spec(alive, net_entities, owners, positions, n - 1);
        if alive[n - 1] {
            rest.push(
                UnitSnapshot {
                    entity: (n - 1) as usize,
                    network_entity: net_entities[n - 1],
                    owner: owners[n - 1].0,
                    position: positions[n - 1].position,
                },
            )
        } else {
            rest
        }
    }
}

/// The snapshot rows of a world.
pub open spec fn snapshot_spec(w: World, n: int) -> Seq<UnitSnapshot> {
    snapshot_rows_spec(w.alive@, w.net_entities@, w.owners@, w.positions@, n)
}

/// Positions in a snapshot of a well-formed world are in bounds.
pub proof fn lemma_snapshot_positions_in_bounds(w: World, n: int)
    requires
        w.wf(),
        n <= w.len(),
    ensures
        forall|j: int|
            0 <= j < snapshot_spec(w, n).len() ==> (#[trigger] snapshot_spec(w, n)[j])
                .position.in_bounds() && snapshot_spec(w, n)[j].entity < w.len(),
    decreases n,
{
    if n > 0 {
        lemma_snapshot_positions_in_bounds(w, n - 1);
        let rest = snapshot_spec(w, n - 1);
        let cur = snapshot_spec(w, n);
        assert forall|j: int| 0 <= j < cur.len() implies (#[trigger] cur[j]).position.in_bounds()
            && cur[j].entity < w.len() by {
            if w.alive@[n - 1] {
                if j < rest.len() {
                    assert(cur[j] == rest[j]);
                } else {
                    assert(cur[j].position == w.positions@[n - 1].position);
                    assert(w.positions@[n - 1].position.in_bounds());
                }
            } else {
                assert(cur[j] == rest[j]);
            }
        }
    }
}

/// Take the read-only snapshot of every live unit.
pub fn snapshot(world: &World) -> (snap: Vec<UnitSnapshot>)
    requires
        world.wf(),
    ensures
        snap@ == snapshot_spec(*world, world.len()),
{
    let mut snap: Vec<UnitSnapshot> = Vec::new();
    let n: usize = world.alive.len();
    let mut i: usize = 0;
    while i < n
        invariant
            i <= n,
            n == world.len(),
            world.wf(),
            snap@ == snapshot_spec(*world, i as int),
        decreases n - i,
    {
        if world.alive[i] {
            snap.push(
                UnitSnapshot {
                    entity: i,
                    network_entity: world.net_entities[i],
                    owner: world.owners[i].0,
                    position: world.positions[i].position,
                },
            );
        }
        i = i + 1;
    }
    snap
}

/// The first nearest opposing-owner row among the first `n` rows of the
/// snapshot, skipping `self_entity`: scanning forward, a row only replaces
/// the best so far when strictly nearer, so ties go to the earliest row.
pub open spec fn nearest_enemy_spec(
    snap: Seq<UnitSnapshot>,
    self_entity: usize,
    self_owner: PlayerId,
    from: Vec2,
    n: int,
) -> Option<int>
    decreases n,
{
    if n <= 0 {
        None
    } else {
        let prev = nearest_enemy_spec(snap, self_entity, self_owner, from, n - 1);
        if snap[n - 1].owner != self_owner && snap[n - 1].entity != self_entity {
            match prev {
                None => Some(n - 1),
                Some(b) => if dist2_spec(from, snap[n - 1].position) < dist2_spec(
                    from,
                    snap[b].position,
                ) {
                    Some(n - 1)
                } else {
                    Some(b)
                },
            }
        } else {
            prev
        }
    }
}

/// The first nearest opposing-owner unit in the snapshot, skipping
/// `self_entity`.  Ties go to the earliest row.
pub fn nearest_enemy(
    snap: &Vec<UnitSnapshot>,
    self_entity: usize,
    self_owner: PlayerId,
    from: Vec2,
) -> (r: Option<usize>)
    requires
        from.in_bounds(),
        forall|k: int| 0 <= k < snap@.len() ==> (#[trigger] snap@[k]).position.in_bounds(),
    ensures
        match r {
            Some(j) => nearest_enemy_spec(snap@, self_entity, self_owner, from, snap@.len() as int)
                == Some(j as int),
            None => nearest_enemy_spec(snap@, self_entity, self_owner, from, snap@.len() as int)
                is None,
        },
        match r {
            Some(j) => {
                &&& 0 <= j < snap@.len()
                &&& snap@[j as int].owner != self_owner
                &&& snap@[j as int].entity != self_entity
                &&& forall|k: int|
                    0 <= k < snap@.len() && (#[trigger] snap@[k]).owner != self_owner
                        && snap@[k].entity != self_entity ==> dist2_spec(from, snap@[k].position)
                        >= dist2_spec(from, snap@[j as int].position)
                &&& forall|k: int|
                    0 <= k < j && (#[trigger] snap@[k]).owner != self_owner && snap@[k].entity
                        != self_entity ==> dist2_spec(from, snap@[k].position) > dist2_spec(
                        from,
                        snap@[j as int].position,
                    )
            },
            None => forall|k: int|
                0 <= k < snap@.len() ==> !((#[trigger] snap@[k]).owner != self_owner
                    && snap@[k].entity != self_entity),
        },
{
    let mut best: Option<usize> = None;
    let mut best_d2: u64 = 0;
    let mut i: usize = 0;
    while i < snap.len()
        invariant
            i <= snap@.len(),
            from.in_bounds(),
            forall|k: int| 0 <= k < snap@.len() ==> (#[trigger] snap@[k]).position.in_bounds(),
            match best {
                Some(j) => nearest_enemy_spec(snap@, self_entity, self_owner, from, i as int)
                    == Some(j as int),
                None => nearest_enemy_spec(snap@, self_entity, self_owner, from, i as int)
                    is None,
            },
            match best {
                Some(j) => {
                    &&& 0 <= j < i
                    &&& snap@[j as int].owner != self_owner
                    &&& snap@[j as int].entity != self_entity
                    &&& best_d2 == dist2_spec(from, snap@[j as int].position)
                    &&& forall|k: int|
                        0 <= k < i && (#[trigger] snap@[k]).owner != self_owner && snap@[k].entity
                            != self_entity ==> dist2_spec(from, snap@[k].position) >= best_d2
                    &&& forall|k: int|
                        0 <= k < j && (#[trigger] snap@[k]).owner != self_owner && snap@[k].entity
                            != self_entity ==> dist2_spec(from, snap@[k].position) > best_d2
                },
                None => forall|k: int|
                    0 <= k < i ==> !((#[trigger] snap@[k]).owner != self_owner && snap@[k].entity
                        != self_entity),
            },
        decreases snap@.len() - i,
    {
        let s = snap[i];
        if s.owner.0 != self_owner.0 && s.entity != self_entity {
            let d2 = dist2(from, s.position);
            match best {
                None => {
                    best = Some(i);
                    best_d2 = d2;
                },
                Some(_) => {
                    if d2 < best_d2 {
                        best = Some(i);
                        best_d2 = d2;
                    }
                },
            }
        }
        i = i + 1;
    }
    best
}

} // verus!

verus! {

/// Everything one authoritative tick sends out: position snapshots and
/// animator deltas on the unreliable channels, one message per applied
/// health operation on the reliable one.
pub struct TickOutput {
    pub position_messages: Vec<crate::position::PositionMessage>,
    pub instance_messages: Vec<crate::unit::UnitInstanceMessage>,
    pub animator_operations: Vec<crate::animation::AnimatorOperation>,
}

/// The intermediate tables one authoritative tick passes through: the
/// witness that every pass of [`server_tick`] happened, in order.
pub struct TickTrace {
    pub animators_advanced: Seq<Animator>,
    pub queues_idle: Seq<CommandQueue>,
    pub unit_animators_idle: Seq<UnitAnimator>,
    pub behaviours_idle: Seq<Option<crate::behaviour::Behaviour>>,
    pub queues_attack: Seq<CommandQueue>,
    pub behaviours_attack: Seq<Option<crate::behaviour::Behaviour>>,
    pub behaviours_move: Seq<Option<crate::behaviour::Behaviour>>,
    pub positions_move: Seq<Position>,
    pub directions_move: Seq<UnitDirection>,
    pub unit_animators_move: Seq<UnitAnimator>,
    pub unit_animators_combat: Seq<UnitAnimator>,
    pub instances_combat: Seq<UnitInstance>,
    pub animators_selected: Seq<Animator>,
    pub collision_draws: Seq<Vec2>,
}

/// One authoritative tick, pass by pass: `t` holds the intermediate tables,
/// and each conjunct is the corresponding pass's exact per-entity relation.
pub open spec fn server_tick_rel(
    w0: World,
    w1: World,
    reg0: crate::network::NetworkEntityRegistry,
    reg1: crate::network::NetworkEntityRegistry,
    unit_assets: UnitAssets,
    animation_assets: AnimationAssets,
    unit_animation_assets: UnitAnimationAssets,
    dt_micros: u64,
    out: TickOutput,
    t: TickTrace,
) -> bool {
    let n = w0.len();
    let snap = snapshot_rows_spec(w0.alive@, w0.net_entities@, w0.owners@, w0.positions@, n);
    let none_behaviours = Seq::new(n as nat, |i: int| None::<crate::behaviour::Behaviour>);
    // animation playback advances first
    &&& forall|i: int|
        0 <= i < n ==> crate::animation::advanced_animator_ok(
            w0.alive@,
            animation_assets.entries@,
            w0.animators@,
            t.animators_advanced,
            dt_micros as int,
            i,
        )
    // the idle pass reads the pre-tick snapshot
    &&& forall|j: int|
        0 <= j < n ==> crate::command::idle_pass_ok(
            w0.alive@,
            w0.owners@,
            w0.positions@,
            w0.unit_handles@,
            unit_assets,
            snap,
            w0.queues@,
            w0.unit_animators@,
            none_behaviours,
            t.queues_idle,
            t.unit_animators_idle,
            t.behaviours_idle,
            j,
        )
    // then combat resolution
    &&& forall|j: int|
        0 <= j < n ==> crate::command::attack_pass_ok(
            w0.alive@,
            w0.owners@,
            w0.positions@,
            w0.unit_handles@,
            t.animators_advanced,
            unit_assets,
            reg0.entities@,
            snap,
            t.queues_idle,
            t.behaviours_idle,
            t.queues_attack,
            t.behaviours_attack,
            j,
        )
    // then movement resolution; nothing after it touches the queues
    &&& forall|j: int|
        0 <= j < n ==> crate::command::move_pass_ok(
            w0.alive@,
            w0.positions@,
            w0.unit_handles@,
            unit_assets,
            reg0.entities@,
            t.queues_attack,
            t.behaviours_attack,
            w1.queues@,
            t.behaviours_move,
            j,
        )
    // the movement executor steps the walkers
    &&& forall|i: int|
        0 <= i < n ==> crate::movement::moved_unit_ok(
            w0.alive@,
            t.behaviours_move,
            w0.unit_handles@,
            unit_assets,
            t.animators_advanced,
            w0.positions@,
            w0.directions@,
            t.unit_animators_idle,
            t.positions_move,
            t.directions_move,
            t.unit_animators_move,
            dt_micros as int,
            i,
        )
    // the combat executor faces attackers and lands frame-edge damage;
    // nothing after it touches the facings
    &&& forall|i: int|
        0 <= i < n && w0.alive@[i] ==> ((#[trigger] t.behaviours_move[i]) matches Some(
            crate::behaviour::Behaviour::Attack { target_position, .. },
        ) ==> {
            &&& w1.directions@[i] == crate::unit_animation::direction_spec(
                target_position.x - t.positions_move[i].position.x,
                target_position.y - t.positions_move[i].position.y,
            )
            &&& t.unit_animators_combat[i].current_animation@ == "attack"@
        })
    &&& forall|i: int|
        0 <= i < n && !(w0.alive@[i] && (#[trigger] t.behaviours_move[i]) matches Some(
            crate::behaviour::Behaviour::Attack { .. },
        )) ==> w1.directions@[i] == t.directions_move[i] && t.unit_animators_combat[i]
            == t.unit_animators_move[i]
    &&& crate::movement::instances_model(t.instances_combat)
        == crate::movement::combat_instances_spec(
        crate::movement::instances_model(w0.instances@),
        w0.alive@,
        t.behaviours_move,
        t.animators_advanced,
        n,
    )
    // directional animation selection
    &&& forall|i: int|
        0 <= i < n ==> crate::unit_animation::selected_animation_ok(
            w0.alive@,
            w1.directions@,
            w0.unit_animation_handles@,
            unit_animation_assets.entries@,
            t.unit_animators_combat,
            t.animators_advanced,
            w1.unit_animators@,
            t.animators_selected,
            i,
        )
    // collision correction is the pair-by-pair fold over the drawn
    // directions
    &&& t.collision_draws.len() == n * n
    &&& forall|k: int|
        0 <= k < t.collision_draws.len() ==> -1000 <= (#[trigger] t.collision_draws[k]).x <= 1000
            && -1000 <= t.collision_draws[k].y <= 1000 && !(t.collision_draws[k].x == 0
            && t.collision_draws[k].y == 0)
    &&& w1.positions@ == crate::movement::collide_all_spec(
        t.positions_move,
        w0.alive@,
        t.behaviours_move,
        w0.unit_handles@,
        unit_assets,
        n,
        t.collision_draws,
        n,
    )
    // the operation logs are flushed and broadcast
    &&& out.instance_messages@ == crate::unit::flushed_messages_spec(
        w0.alive@,
        w0.net_entities@,
        t.instances_combat,
        n,
    )
    &&& forall|i: int|
        0 <= i < n && w0.alive@[i] ==> (#[trigger] w1.instances@[i]).health
            == crate::unit::apply_operations_spec(
            t.instances_combat[i].health as int,
            t.instances_combat[i].operations@,
        ) && w1.instances@[i].operations@.len() == 0
    &&& forall|i: int|
        0 <= i < n && !w0.alive@[i] ==> (#[trigger] w1.instances@[i]) == t.instances_combat[i]
    // units out of health are destroyed and their ids forgotten
    &&& forall|i: int|
        0 <= i < n ==> (#[trigger] w1.alive@[i]) == (w0.alive@[i] && w1.instances@[i].health > 0)
    &&& forall|i: int|
        0 <= i < n && w0.alive@[i] && w1.instances@[i].health <= 0 ==> !reg1.entities@
            .contains_key((#[trigger] w0.net_entities@[i]).0)
    &&& forall|k: u64|
        #[trigger] reg1.entities@.contains_key(k) ==> reg0.entities@.contains_key(k)
            && reg1.entities@[k] == reg0.entities@[k]
    // the outbound snapshots describe the final state
    &&& out.position_messages@ == crate::position::position_messages_spec(
        w1.alive@,
        w1.positions@,
        w0.net_entities@,
        n,
    )
    &&& out.animator_operations@ == crate::animation::animator_operations_spec(
        w1.alive@,
        w0.net_entities@,
        t.animators_selected,
        n,
    )
    &&& forall|i: int|
        0 <= i < n && w1.alive@[i] ==> (#[trigger] w1.animators@[i]).operators@.len() == 0
    &&& forall|i: int|
        0 <= i < n && !w1.alive@[i] ==> (#[trigger] w1.animators@[i]) == t.animators_selected[i]
    // nothing in a tick changes who exists, who owns what, or the handles
    &&& w1.owners@ == w0.owners@
    &&& w1.unit_handles@ == w0.unit_handles@
    &&& w1.unit_animation_handles@ == w0.unit_animation_handles@
    &&& w1.net_entities@ == w0.net_entities@
}

/// One fixed-timestep authoritative tick: advance animation
/// playback, drive the idle/attack/move command resolution over a read-only
/// snapshot, execute the derived behaviours, select directional animations,
/// correct collisions, flush the combat operation logs (destroying units
/// whose health ran out), and collect the outbound replication traffic.
/// Inbound messages are applied before the tick by their own entry points.
pub fn server_tick(
    world: &mut World,
    registry: &mut crate::network::NetworkEntityRegistry,
    unit_assets: &UnitAssets,
    animation_assets: &AnimationAssets,
    unit_animation_assets: &UnitAnimationAssets,
    dt_micros: u64,
) -> (out: TickOutput)
    requires
        old(world).wf(),
        unit_assets.wf(),
        animation_assets.wf(),
        dt_micros <= crate::movement::TICK_DT_LIMIT,
        // the collision pass draws one direction per ordered pair
        old(world).len() * old(world).len() <= usize::MAX,
    ensures
        final(world).wf(),
        final(world).len() == old(world).len(),
        final(registry).next_entity == old(registry).next_entity,
        old(registry).wf() ==> final(registry).wf(),
        // every pass happened, in order, over some chain of intermediate
        // tables
        exists|t: TickTrace|
            server_tick_rel(
                *old(world),
                *final(world),
                *old(registry),
                *final(registry),
                *unit_assets,
                *animation_assets,
                *unit_animation_assets,
                dt_micros,
                out,
                t,
            ),
{
    let n: usize = world.alive.len();
    crate::animation::animator_system(
        &world.alive,
        &mut world.animators,
        &animation_assets.entries,
        dt_micros,
    );
    let ghost tr_animators_advanced = world.animators@;
    let snap = snapshot(world);
    proof {
        lemma_snapshot_positions_in_bounds(*world, world.len());
    }
    let mut behaviours: Vec<Option<crate::behaviour::Behaviour>> = Vec::new();
    let mut k: usize = 0;
    while k < n
        invariant
            k <= n,
            behaviours@.len() == k,
            forall|j: int| 0 <= j < k ==> (#[trigger] behaviours@[j]) is None,
        decreases n - k,
    {
        behaviours.push(None);
        k = k + 1;
    }
    let ghost tr_behaviours_none = behaviours@;
    crate::command::idle_command_system(
        &world.alive,
        &world.owners,
        &world.positions,
        &world.unit_handles,
        unit_assets,
        &snap,
        &mut world.queues,
        &mut world.unit_animators,
        &mut behaviours,
    );
    let ghost tr_queues_idle = world.queues@;
    let ghost tr_unit_animators_idle = world.unit_animators@;
    let ghost tr_behaviours_idle = behaviours@;
    proof {
        assert forall|j: int| 0 <= j < world.alive@.len() implies ((
        #[trigger] behaviours@[j]) matches Some(b) ==> b.wf(world.alive@.len() as int)) by {
            assert(world.queues@[j] == world.queues@[j]);
        }
    }
    crate::command::attack_command_system(
        &world.alive,
        &world.owners,
        &world.positions,
        &world.unit_handles,
        &world.animators,
        unit_assets,
        registry,
        &snap,
        &mut world.queues,
        &mut behaviours,
    );
    let ghost tr_queues_attack = world.queues@;
    let ghost tr_behaviours_attack = behaviours@;
    crate::command::move_command_system(
        &world.alive,
        &world.positions,
        &world.unit_handles,
        unit_assets,
        registry,
        &mut world.queues,
        &mut behaviours,
    );
    let ghost tr_behaviours_move = behaviours@;
    crate::movement::unit_movement_system(
        &world.alive,
        &behaviours,
        &world.unit_handles,
        unit_assets,
        &world.animators,
        &mut world.positions,
        &mut world.directions,
        &mut world.unit_animators,
        dt_micros,
    );
    let ghost tr_positions_move = world.positions@;
    let ghost tr_directions_move = world.directions@;
    let ghost tr_unit_animators_move = world.unit_animators@;
    crate::movement::combat_system(
        &world.alive,
        &behaviours,
        &world.positions,
        &world.animators,
        &mut world.directions,
        &mut world.unit_animators,
        &mut world.instances,
    );
    let ghost tr_unit_animators_combat = world.unit_animators@;
    let ghost tr_instances_combat = world.instances@;
    crate::unit_animation::unit_animation_system(
        &world.alive,
        &world.directions,
        &world.unit_animation_handles,
        &unit_animation_assets.entries,
        &mut world.unit_animators,
        &mut world.animators,
    );
    let ghost tr_animators_selected = world.animators@;
    let collision_draws = crate::movement::unit_collision_system(
        &world.alive,
        &behaviours,
        &world.unit_handles,
        unit_assets,
        &mut world.positions,
    );
    let instance_messages = crate::unit::server_unit_instance_system(
        &world.alive,
        &world.net_entities,
        &mut world.instances,
    );
    crate::unit::unit_health_system(
        &mut world.alive,
        &world.instances,
        &world.net_entities,
        registry,
    );
    let position_messages = crate::position::server_network_position_system(
        &world.alive,
        &world.positions,
        &world.net_entities,
    );
    let animator_operations = crate::animation::server_network_animator_system(
        &world.alive,
        &world.net_entities,
        &mut world.animators,
    );
    let out = TickOutput { position_messages, instance_messages, animator_operations };
    proof {
        let t = TickTrace {
            animators_advanced: tr_animators_advanced,
            queues_idle: tr_queues_idle,
            unit_animators_idle: tr_unit_animators_idle,
            behaviours_idle: tr_behaviours_idle,
            queues_attack: tr_queues_attack,
            behaviours_attack: tr_behaviours_attack,
            behaviours_move: tr_behaviours_move,
            positions_move: tr_positions_move,
            directions_move: tr_directions_move,
            unit_animators_move: tr_unit_animators_move,
            unit_animators_combat: tr_unit_animators_combat,
            instances_combat: tr_instances_combat,
            animators_selected: tr_animators_selected,
            collision_draws: collision_draws@,
        };
        assert(tr_behaviours_none =~= Seq::new(
            old(world).len() as nat,
            |i: int| None::<crate::behaviour::Behaviour>,
        ));
        assert(server_tick_rel(
            *old(world),
            *world,
            *old(registry),
            *registry,
            *unit_assets,
            *animation_assets,
            *unit_animation_assets,
            dt_micros,
            out,
            t,
        ));
    }
    out
}

} // verus!
