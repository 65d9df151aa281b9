//! Spawn descriptors and the spawn pass.
//!
//! Descriptors are a closed tagged union over the known kinds of content:
//! the variant set is small and stable, exhaustiveness is checked, and
//! serialization stays trivially deterministic.  The server assigns each
//! spawned descriptor a fresh network id and broadcasts it; clients replay
//! the same descriptor under the carried id, so both sides build the same
//! world.

use crate::connection::PlayerId;
use crate::geom::{clamp_coord, Vec2};
use crate::network::{NetworkEntity, NetworkEntityRegistry};
use crate::unit::UnitInstance;
use crate::world::{find_by_name, UnitAssets, World};
use vstd::prelude::*;

verus! {

/// A unit to spawn: where, for whom, and which definition by name.  The
/// position is the plane coordinate; depth is the renderer's to derive.
#[derive(Clone, Debug, PartialEq)]
pub struct UnitSpawnable {
    pub position: Vec2,
    pub owner: PlayerId,
    pub unit: String,
}

/// A tile map to spawn; rendering-only content with no simulation state.
#[derive(Clone, Debug, PartialEq)]
pub struct TileMapSpawnable {
    pub tile_map: String,
    pub tile_set: String,
    pub texture: String,
}

/// A scripted showcase unit; rendering-only content with no simulation
/// state.
#[derive(Clone, Debug, PartialEq)]
pub struct RK550Spawnable {
    pub unit: String,
    pub texture: String,
    pub animation_set: String,
}

/// Everything that can be spawned, as one closed sum.
#[derive(Clone, Debug, PartialEq)]
pub enum Spawnable {
    Unit(UnitSpawnable),
    TileMap(TileMapSpawnable),
    RK550(RK550Spawnable),
}

/// A spawn descriptor together with its assigned network id, sent reliably.
#[derive(Clone, Debug, PartialEq)]
pub struct SpawnMessage {
    pub spawnable: Spawnable,
    pub entity: NetworkEntity,
}

/// Descriptors waiting to be spawned at the end of the tick.
pub struct SpawnResource {
    pub spawnables: Vec<Spawnable>,
}

impl SpawnResource {
    pub fn new() -> (r: SpawnResource)
        ensures
            r.spawnables@ == Seq::<Spawnable>::empty(),
    {
        SpawnResource { spawnables: Vec::new() }
    }

    /// Queue a descriptor for the next spawn pass.
    pub fn spawn(&mut self, spawnable: Spawnable)
        ensures
            final(self).spawnables@ == old(self).spawnables@.push(spawnable),
    {
        self.spawnables.push(spawnable);
    }

    /// Take every queued descriptor out.
    pub fn clear(&mut self) -> (r: Vec<Spawnable>)
        ensures
            final(self).spawnables@ == Seq::<Spawnable>::empty(),
            r@ == old(self).spawnables@,
    {
        let mut r: Vec<Spawnable> = Vec::new();
        core::mem::swap(&mut r, &mut self.spawnables);
        r
    }
}

/// Whether a unit descriptor's assets all resolve right now: the named
/// definition is loaded and both animation tables it names are known.
pub open spec fn unit_descriptor_resolves_spec(
    unit_assets: UnitAssets,
    animation_assets: crate::world::AnimationAssets,
    unit_animation_assets: crate::world::UnitAnimationAssets,
    descriptor: UnitSpawnable,
) -> bool {
    match crate::world::name_index_spec(unit_assets.entries@, descriptor.unit@, 0) {
        Some(h) => match unit_assets.entries@[h].1 {
            Some(def) => {
                &&& crate::world::name_index_spec(
                    animation_assets.entries@,
                    def.animation_set@,
                    0,
                ) is Some
                &&& crate::world::name_index_spec(
                    unit_animation_assets.entries@,
                    def.unit_animation_set@,
                    0,
                ) is Some
            },
            None => false,
        },
        None => false,
    }
}

/// Whether a queued descriptor is instantiated by the spawn pass: only a
/// unit whose assets resolve adds simulation state.
pub open spec fn descriptor_spawns_spec(
    unit_assets: UnitAssets,
    animation_assets: crate::world::AnimationAssets,
    unit_animation_assets: crate::world::UnitAnimationAssets,
    s: Spawnable,
) -> bool {
    match s {
        Spawnable::Unit(u) => unit_descriptor_resolves_spec(
            unit_assets,
            animation_assets,
            unit_animation_assets,
            u,
        ),
        Spawnable::TileMap(_) => false,
        Spawnable::RK550(_) => false,
    }
}

/// Whether a queued descriptor is broadcast by the server's spawn pass:
/// everything but a unit whose assets have not resolved yet (which waits).
pub open spec fn descriptor_broadcasts_spec(
    unit_assets: UnitAssets,
    animation_assets: crate::world::AnimationAssets,
    unit_animation_assets: crate::world::UnitAnimationAssets,
    s: Spawnable,
) -> bool {
    match s {
        Spawnable::Unit(u) => unit_descriptor_resolves_spec(
            unit_assets,
            animation_assets,
            unit_animation_assets,
            u,
        ),
        Spawnable::TileMap(_) => true,
        Spawnable::RK550(_) => true,
    }
}

/// How many of the queued descriptors the spawn pass instantiates.
pub open spec fn spawned_count_spec(
    pending: Seq<Spawnable>,
    unit_assets: UnitAssets,
    animation_assets: crate::world::AnimationAssets,
    unit_animation_assets: crate::world::UnitAnimationAssets,
) -> int
    decreases pending.len(),
{
    if pending.len() == 0 {
        0
    } else {
        (if descriptor_spawns_spec(
            unit_assets,
            animation_assets,
            unit_animation_assets,
            pending[0],
        ) {
            1int
        } else {
            0int
        }) + spawned_count_spec(
            pending.drop_first(),
            unit_assets,
            animation_assets,
            unit_animation_assets,
        )
    }
}

/// The messages the server's spawn pass broadcasts for a queue of
/// descriptors, in order, each under the sequentially assigned fresh id.
pub open spec fn spawn_messages_spec(
    pending: Seq<Spawnable>,
    unit_assets: UnitAssets,
    animation_assets: crate::world::AnimationAssets,
    unit_animation_assets: crate::world::UnitAnimationAssets,
    next: int,
) -> Seq<SpawnMessage>
    decreases pending.len(),
{
    if pending.len() == 0 {
        Seq::empty()
    } else {
        (if descriptor_broadcasts_spec(
            unit_assets,
            animation_assets,
            unit_animation_assets,
            pending[0],
        ) {
            seq![
                SpawnMessage {
                    spawnable: pending[0],
                    entity: crate::network::NetworkEntity(next as u64),
                },
            ]
        } else {
            Seq::empty()
        }) + spawn_messages_spec(
            pending.drop_first(),
            unit_assets,
            animation_assets,
            unit_animation_assets,
            next + 1,
        )
    }
}

/// Exactly the descriptors whose assets have not resolved yet, in order:
/// the spawn pass keeps them for the next tick.
pub open spec fn spawn_retained_spec(
    pending: Seq<Spawnable>,
    unit_assets: UnitAssets,
    animation_assets: crate::world::AnimationAssets,
    unit_animation_assets: crate::world::UnitAnimationAssets,
) -> Seq<Spawnable>
    decreases pending.len(),
{
    if pending.len() == 0 {
        Seq::empty()
    } else {
        (if !descriptor_broadcasts_spec(
            unit_assets,
            animation_assets,
            unit_animation_assets,
            pending[0],
        ) {
            seq![pending[0]]
        } else {
            Seq::empty()
        }) + spawn_retained_spec(
            pending.drop_first(),
            unit_assets,
            animation_assets,
            unit_animation_assets,
        )
    }
}

/// Resolve the asset handles a unit descriptor needs.  `None` means some
/// asset has not loaded yet; the descriptor is retried next tick.
fn resolve_unit_handles(
    unit_assets: &UnitAssets,
    animation_assets: &crate::world::AnimationAssets,
    unit_animation_assets: &crate::world::UnitAnimationAssets,
    descriptor: &UnitSpawnable,
) -> (r: Option<(usize, usize, usize, i64)>)
    requires
        unit_assets.wf(),
    ensures
        (r is Some) == unit_descriptor_resolves_spec(
            *unit_assets,
            *animation_assets,
            *unit_animation_assets,
            *descriptor,
        ),
        r matches Some((unit_h, anim_h, unit_anim_h, max_health)) ==> {
            &&& crate::world::name_index_spec(unit_assets.entries@, descriptor.unit@, 0) == Some(
                unit_h as int,
            )
            &&& crate::world::loaded_unit(*unit_assets, unit_h) matches Some(u) && u.wf()
                && max_health == u.max_health && crate::world::name_index_spec(
                animation_assets.entries@,
                u.animation_set@,
                0,
            ) == Some(anim_h as int) && crate::world::name_index_spec(
                unit_animation_assets.entries@,
                u.unit_animation_set@,
                0,
            ) == Some(unit_anim_h as int)
            &&& anim_h < animation_assets.entries@.len()
            &&& unit_anim_h < unit_animation_assets.entries@.len()
        },
{
    let unit_h = match find_by_name(&unit_assets.entries, &descriptor.unit) {
        Some(h) => h,
        None => {
            return None;
        },
    };
    let unit = match unit_assets.get(unit_h) {
        Some(u) => u,
        None => {
            return None;
        },
    };
    proof {
        assert(unit_assets.entries@[unit_h as int].1 matches Some(u) ==> u.wf());
    }
    let anim_h = match find_by_name(&animation_assets.entries, &unit.animation_set) {
        Some(h) => h,
        None => {
            return None;
        },
    };
    let unit_anim_h = match find_by_name(&unit_animation_assets.entries, &unit.unit_animation_set) {
        Some(h) => h,
        None => {
            return None;
        },
    };
    Some((unit_h, anim_h, unit_anim_h, unit.max_health))
}

/// Spawn one queued descriptor into the world under the given network id.
/// Returns the arena index for a unit, or `None` for rendering-only content
/// (which adds no simulation state) and for a unit whose assets have not
/// loaded yet.
pub fn spawn_one(
    world: &mut World,
    registry: &mut NetworkEntityRegistry,
    unit_assets: &UnitAssets,
    animation_assets: &crate::world::AnimationAssets,
    unit_animation_assets: &crate::world::UnitAnimationAssets,
    spawnable: &Spawnable,
    net: NetworkEntity,
) -> (r: Option<usize>)
    requires
        old(world).wf(),
        unit_assets.wf(),
    ensures
        final(world).wf(),
        // a descriptor is instantiated exactly when it is a unit whose
        // assets all resolve
        (r is Some) == descriptor_spawns_spec(
            *unit_assets,
            *animation_assets,
            *unit_animation_assets,
            *spawnable,
        ),
        r matches Some(e) ==> {
            &&& final(world).len() == old(world).len() + 1
            &&& e == old(world).len()
            &&& final(registry).entities@ == old(registry).entities@.insert(net.0, e)
            &&& final(registry).next_entity == old(registry).next_entity
        },
        // the spawned unit carries exactly what the descriptor says: the
        // clamped position, the owner, the named definition's handles, a
        // fresh instance at full health, an empty unlocked queue, and a
        // south-facing start
        r is Some ==> (spawnable matches Spawnable::Unit(u) && {
            &&& final(world).alive@ == old(world).alive@.push(true)
            &&& final(world).positions@ == old(world).positions@.push(
                crate::position::Position {
                    position: Vec2 {
                        x: crate::geom::clamp_coord_spec(u.position.x as int) as i64,
                        y: crate::geom::clamp_coord_spec(u.position.y as int) as i64,
                    },
                },
            )
            &&& final(world).owners@ == old(world).owners@.push(crate::connection::Owner(u.owner))
            &&& final(world).net_entities@ == old(world).net_entities@.push(net)
            &&& crate::world::name_index_spec(unit_assets.entries@, u.unit@, 0) == Some(
                final(world).unit_handles@.last() as int,
            )
            &&& crate::world::loaded_unit(*unit_assets, final(world).unit_handles@.last())
                matches Some(def) && {
                &&& final(world).instances@.last().health == def.max_health
                &&& final(world).instances@.last().operations@.len() == 0
                &&& crate::world::name_index_spec(
                    animation_assets.entries@,
                    def.animation_set@,
                    0,
                ) == Some(final(world).animators@.last().animation_set as int)
                &&& crate::world::name_index_spec(
                    unit_animation_assets.entries@,
                    def.unit_animation_set@,
                    0,
                ) == Some(final(world).unit_animation_handles@.last() as int)
            }
            &&& final(world).queues@.last().commands@.len() == 0
            &&& !final(world).queues@.last().locked
            &&& final(world).directions@.last() == crate::unit_animation::UnitDirection::Down
        }),
        r is None ==> *final(world) == *old(world) && *final(registry) == *old(registry),
{
    match spawnable {
        Spawnable::Unit(u) => {
            match resolve_unit_handles(unit_assets, animation_assets, unit_animation_assets, u) {
                Some((unit_h, anim_h, unit_anim_h, max_health)) => {
                    let position = Vec2 {
                        x: clamp_coord(u.position.x),
                        y: clamp_coord(u.position.y),
                    };
                    let instance = UnitInstance { health: max_health, operations: Vec::new() };
                    let e = world.spawn_unit(
                        position,
                        u.owner,
                        unit_h,
                        unit_anim_h,
                        anim_h,
                        instance,
                        net,
                    );
                    registry.insert(net, e);
                    Some(e)
                },
                None => None,
            }
        },
        Spawnable::TileMap(_) => None,
        Spawnable::RK550(_) => None,
    }
}

/// The end-of-tick spawn pass: drain the queue, assign each descriptor a
/// fresh network id, instantiate it, and collect the broadcast messages.  A
/// unit whose assets have not loaded yet goes back into the queue and is
/// retried next tick.
pub fn spawn_system(
    world: &mut World,
    registry: &mut NetworkEntityRegistry,
    unit_assets: &UnitAssets,
    animation_assets: &crate::world::AnimationAssets,
    unit_animation_assets: &crate::world::UnitAnimationAssets,
    spawn_resource: &mut SpawnResource,
    is_server: bool,
) -> (messages: Vec<SpawnMessage>)
    requires
        old(world).wf(),
        old(registry).wf(),
        unit_assets.wf(),
        // enough id space for one fresh id per queued descriptor
        old(registry).next_entity.0 + old(spawn_resource).spawnables@.len() <= u64::MAX,
    ensures
        final(world).wf(),
        final(registry).wf(),
        // one fresh id is consumed per queued descriptor
        final(registry).next_entity.0 == old(registry).next_entity.0 + old(
            spawn_resource,
        ).spawnables@.len(),
        // every resolvable unit descriptor is instantiated
        final(world).len() == old(world).len() + spawned_count_spec(
            old(spawn_resource).spawnables@,
            *unit_assets,
            *animation_assets,
            *unit_animation_assets,
        ),
        // exactly the unresolved unit descriptors wait for the next tick
        final(spawn_resource).spawnables@ == spawn_retained_spec(
            old(spawn_resource).spawnables@,
            *unit_assets,
            *animation_assets,
            *unit_animation_assets,
        ),
        // the server broadcasts each instantiated or rendering-only
        // descriptor under its assigned id, in order; observers send nothing
        is_server ==> messages@ == spawn_messages_spec(
            old(spawn_resource).spawnables@,
            *unit_assets,
            *animation_assets,
            *unit_animation_assets,
            old(registry).next_entity.0 as int,
        ),
        !is_server ==> messages@.len() == 0,
{
    let mut messages: Vec<SpawnMessage> = Vec::new();
    let mut retained: Vec<Spawnable> = Vec::new();
    let mut pending = spawn_resource.clear();
    let ghost all = pending@;
    let ghost next0 = registry.next_entity.0 as int;
    while pending.len() > 0
        invariant
            world.wf(),
            registry.wf(),
            unit_assets.wf(),
            registry.next_entity.0 + pending@.len() <= u64::MAX,
            registry.next_entity.0 == next0 + (all.len() - pending@.len()),
            old(world).len() + spawned_count_spec(
                all,
                *unit_assets,
                *animation_assets,
                *unit_animation_assets,
            ) == world.len() + spawned_count_spec(
                pending@,
                *unit_assets,
                *animation_assets,
                *unit_animation_assets,
            ),
            spawn_retained_spec(all, *unit_assets, *animation_assets, *unit_animation_assets)
                == retained@ + spawn_retained_spec(
                pending@,
                *unit_assets,
                *animation_assets,
                *unit_animation_assets,
            ),
            is_server ==> spawn_messages_spec(
                all,
                *unit_assets,
                *animation_assets,
                *unit_animation_assets,
                next0,
            ) == messages@ + spawn_messages_spec(
                pending@,
                *unit_assets,
                *animation_assets,
                *unit_animation_assets,
                registry.next_entity.0 as int,
            ),
            !is_server ==> messages@.len() == 0,
        decreases pending@.len(),
    {
        let ghost pending_entry = pending@;
        let ghost msgs_entry = messages@;
        let ghost retained_entry = retained@;
        let spawnable = pending.remove(0);
        let net = registry.generate_entity();
        let spawned = spawn_one(
            world,
            registry,
            unit_assets,
            animation_assets,
            unit_animation_assets,
            &spawnable,
            net,
        );
        match spawned {
            Some(_e) => {
                if is_server {
                    messages.push(SpawnMessage { spawnable, entity: net });
                }
            },
            None => {
                match &spawnable {
                    Spawnable::Unit(_) => {
                        // assets not resolved yet: retry next tick
                        retained.push(spawnable);
                    },
                    _ => {
                        // rendering-only content: replicate it, but it adds
                        // no simulation state here
                        if is_server {
                            messages.push(SpawnMessage { spawnable, entity: net });
                        }
                    },
                }
            },
        }
        proof {
            assert(pending@ =~= pending_entry.drop_first());
            if is_server {
                assert(messages@ =~= msgs_entry + (
                if descriptor_broadcasts_spec(
                    *unit_assets,
                    *animation_assets,
                    *unit_animation_assets,
                    pending_entry[0],
                ) {
                    seq![SpawnMessage { spawnable: pending_entry[0], entity: net }]
                } else {
                    Seq::<SpawnMessage>::empty()
                }));
                assert(spawn_messages_spec(
                    all,
                    *unit_assets,
                    *animation_assets,
                    *unit_animation_assets,
                    next0,
                ) =~= messages@ + spawn_messages_spec(
                    pending@,
                    *unit_assets,
                    *animation_assets,
                    *unit_animation_assets,
                    registry.next_entity.0 as int,
                ));
            }
            assert(retained@ =~= retained_entry + (
            if !descriptor_broadcasts_spec(
                *unit_assets,
                *animation_assets,
                *unit_animation_assets,
                pending_entry[0],
            ) {
                seq![pending_entry[0]]
            } else {
                Seq::<Spawnable>::empty()
            }));
            assert(spawn_retained_spec(
                all,
                *unit_assets,
                *animation_assets,
                *unit_animation_assets,
            ) =~= retained@ + spawn_retained_spec(
                pending@,
                *unit_assets,
                *animation_assets,
                *unit_animation_assets,
            ));
        }
    }
    spawn_resource.spawnables = retained;
    proof {
        assert(spawn_retained_spec(all, *unit_assets, *animation_assets, *unit_animation_assets)
            =~= spawn_resource.spawnables@);
        if is_server {
            assert(spawn_messages_spec(
                all,
                *unit_assets,
                *animation_assets,
                *unit_animation_assets,
                next0,
            ) =~= messages@);
        }
    }
    messages
}

/// How many of a batch of replicated spawns an observer instantiates.
pub open spec fn client_spawned_count_spec(
    messages: Seq<SpawnMessage>,
    unit_assets: UnitAssets,
    animation_assets: crate::world::AnimationAssets,
    unit_animation_assets: crate::world::UnitAnimationAssets,
) -> int
    decreases messages.len(),
{
    if messages.len() == 0 {
        0
    } else {
        (if descriptor_spawns_spec(
            unit_assets,
            animation_assets,
            unit_animation_assets,
            messages[0].spawnable,
        ) {
            1int
        } else {
            0int
        }) + client_spawned_count_spec(
            messages.drop_first(),
            unit_assets,
            animation_assets,
            unit_animation_assets,
        )
    }
}

/// Exactly the replicated spawns whose assets have not resolved yet, in
/// order, kept for a retry.  Rendering-only content is dropped here: it
/// adds no simulation state.
pub open spec fn client_retained_spec(
    messages: Seq<SpawnMessage>,
    unit_assets: UnitAssets,
    animation_assets: crate::world::AnimationAssets,
    unit_animation_assets: crate::world::UnitAnimationAssets,
) -> Seq<SpawnMessage>
    decreases messages.len(),
{
    if messages.len() == 0 {
        Seq::empty()
    } else {
        (if messages[0].spawnable is Unit && !descriptor_spawns_spec(
            unit_assets,
            animation_assets,
            unit_animation_assets,
            messages[0].spawnable,
        ) {
            seq![messages[0]]
        } else {
            Seq::empty()
        }) + client_retained_spec(
            messages.drop_first(),
            unit_assets,
            animation_assets,
            unit_animation_assets,
        )
    }
}

/// Replay a batch of replicated spawns on an observer, each under its
/// server-assigned id: every resolvable unit descriptor is instantiated and
/// its carried id installed in the registry; exactly the unresolved unit
/// descriptors come back for the caller to retry next tick.
pub fn network_spawn_system(
    world: &mut World,
    registry: &mut NetworkEntityRegistry,
    unit_assets: &UnitAssets,
    animation_assets: &crate::world::AnimationAssets,
    unit_animation_assets: &crate::world::UnitAnimationAssets,
    messages: Vec<SpawnMessage>,
) -> (retained: Vec<SpawnMessage>)
    requires
        old(world).wf(),
        unit_assets.wf(),
    ensures
        final(world).wf(),
        final(world).len() == old(world).len() + client_spawned_count_spec(
            messages@,
            *unit_assets,
            *animation_assets,
            *unit_animation_assets,
        ),
        retained@ == client_retained_spec(
            messages@,
            *unit_assets,
            *animation_assets,
            *unit_animation_assets,
        ),
        forall|k: int|
            0 <= k < messages@.len() && descriptor_spawns_spec(
                *unit_assets,
                *animation_assets,
                *unit_animation_assets,
                (#[trigger] messages@[k]).spawnable,
            ) ==> final(registry).entities@.contains_key(messages@[k].entity.0),
{
    let ghost all = messages@;
    let mut messages = messages;
    let mut retained: Vec<SpawnMessage> = Vec::new();
    let ghost mut done: int = 0;
    while messages.len() > 0
        invariant
            world.wf(),
            unit_assets.wf(),
            0 <= done <= all.len(),
            messages@ =~= all.subrange(done, all.len() as int),
            old(world).len() + client_spawned_count_spec(
                all,
                *unit_assets,
                *animation_assets,
                *unit_animation_assets,
            ) == world.len() + client_spawned_count_spec(
                messages@,
                *unit_assets,
                *animation_assets,
                *unit_animation_assets,
            ),
            client_retained_spec(all, *unit_assets, *animation_assets, *unit_animation_assets)
                == retained@ + client_retained_spec(
                messages@,
                *unit_assets,
                *animation_assets,
                *unit_animation_assets,
            ),
            forall|k: int|
                0 <= k < done && descriptor_spawns_spec(
                    *unit_assets,
                    *animation_assets,
                    *unit_animation_assets,
                    (#[trigger] all[k]).spawnable,
                ) ==> registry.entities@.contains_key(all[k].entity.0),
        decreases messages@.len(),
    {
        let ghost msgs_entry = messages@;
        let ghost retained_entry = retained@;
        let ghost reg_entry = registry.entities@;
        let message = messages.remove(0);
        let spawned = spawn_one(
            world,
            registry,
            unit_assets,
            animation_assets,
            unit_animation_assets,
            &message.spawnable,
            message.entity,
        );
        match spawned {
            Some(_e) => {
            },
            None => {
                match &message.spawnable {
                    Spawnable::Unit(_) => {
                        retained.push(message);
                    },
                    _ => {
                    },
                }
            },
        }
        proof {
            assert(messages@ =~= msgs_entry.drop_first());
            assert(msgs_entry[0] == all[done]);
            assert(retained@ =~= retained_entry + (
            if all[done].spawnable is Unit && !descriptor_spawns_spec(
                *unit_assets,
                *animation_assets,
                *unit_animation_assets,
                all[done].spawnable,
            ) {
                seq![all[done]]
            } else {
                Seq::<SpawnMessage>::empty()
            }));
            assert(client_retained_spec(
                all,
                *unit_assets,
                *animation_assets,
                *unit_animation_assets,
            ) =~= retained@ + client_retained_spec(
                messages@,
                *unit_assets,
                *animation_assets,
                *unit_animation_assets,
            ));
            done = done + 1;
            assert(messages@ =~= all.subrange(done, all.len() as int));
            assert forall|k: int|
                0 <= k < done && descriptor_spawns_spec(
                    *unit_assets,
                    *animation_assets,
                    *unit_animation_assets,
                    (#[trigger] all[k]).spawnable,
                ) implies registry.entities@.contains_key(all[k].entity.0) by {
                if k < done - 1 {
                    assert(reg_entry.contains_key(all[k].entity.0));
                }
            }
        }
    }
    proof {
        assert(client_retained_spec(
            all,
            *unit_assets,
            *animation_assets,
            *unit_animation_assets,
        ) =~= retained@);
    }
    retained
}

} // verus!
