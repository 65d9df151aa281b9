//! Authoritative positions and their unreliable replication.
//!
//! The server broadcasts every unit's position each tick; clients overwrite
//! their copy with whatever arrives.  The channel may drop or reorder, so a
//! snapshot is always "latest value wins", never a diff.

use crate::geom::Vec2;
use crate::network::NetworkEntity;
use vstd::prelude::*;

verus! {

/// Authoritative world coordinate of a unit.  The world plane is two
/// dimensional; the renderer derives its depth axis from the plane, so no
/// third coordinate is stored or replicated.
#[derive(Clone, Copy, Debug, PartialEq, Eq, Structural)]
pub struct Position {
    pub position: Vec2,
}

/// A position snapshot addressed to one replicated unit.
#[derive(Clone, Copy, Debug, PartialEq, Eq, Structural)]
pub struct PositionMessage {
    pub position: Position,
    pub network_entity: NetworkEntity,
}

impl PositionMessage {
    /// Snapshots from the wire are only accepted with in-bounds coordinates.
    pub open spec fn wf(self) -> bool {
        self.position.position.in_bounds()
    }
}

/// The snapshots the server broadcasts for the first `n` entities, live
/// ones only, in entity order.
pub open spec fn position_messages_spec(
    alive: Seq<bool>,
    positions: Seq<Position>,
    nets: Seq<NetworkEntity>,
    n: int,
) -> Seq<PositionMessage>
    decreases n,
{
    if n <= 0 {
        Seq::empty()
    } else {
        let rest = position_messages_spec(alive, positions, nets, n - 1);
        if alive[n - 1] {
            rest.push(PositionMessage { position: positions[n - 1], network_entity: nets[n - 1] })
        } else {
            rest
        }
    }
}

/// Broadcast every live unit's position, unreliably: receivers treat each
/// snapshot as "latest value wins".
pub fn server_network_position_system(
    alive: &Vec<bool>,
    positions: &Vec<Position>,
    net_entities: &Vec<NetworkEntity>,
) -> (messages: Vec<PositionMessage>)
    requires
        positions@.len() == alive@.len(),
        net_entities@.len() == alive@.len(),
    ensures
        messages@ == position_messages_spec(alive@, positions@, net_entities@, alive@.len() as int),
{
    let n: usize = alive.len();
    let mut messages: Vec<PositionMessage> = Vec::new();
    let mut i: usize = 0;
    while i < n
        invariant
            i <= n,
            n == alive@.len(),
            positions@.len() == n,
            net_entities@.len() == n,
            messages@ == position_messages_spec(alive@, positions@, net_entities@, i as int),
        decreases n - i,
    {
        if alive[i] {
            messages.push(
                PositionMessage { position: positions[i], network_entity: net_entities[i] },
            );
        }
        i = i + 1;
    }
    messages
}

/// The positions after applying a batch of snapshots in arrival order: a
/// well-formed snapshot overwrites the live unit it names, and everything
/// else (a stale id, a dead slot, an out-of-bounds payload) is dropped.
pub open spec fn apply_position_messages_spec(
    registry: Map<u64, usize>,
    alive: Seq<bool>,
    positions: Seq<Position>,
    messages: Seq<PositionMessage>,
) -> Seq<Position>
    decreases messages.len(),
{
    if messages.len() == 0 {
        positions
    } else {
        let m = messages[0];
        let updated = if registry.contains_key(m.network_entity.0) && (registry[m.network_entity.0]
            as int) < alive.len() && alive[registry[m.network_entity.0] as int] && m.wf() {
            positions.update(registry[m.network_entity.0] as int, m.position)
        } else {
            positions
        };
        apply_position_messages_spec(registry, alive, updated, messages.drop_first())
    }
}

/// Apply a batch of replicated position snapshots on an observer.
pub fn client_network_position_system(
    registry: &crate::network::NetworkEntityRegistry,
    alive: &Vec<bool>,
    positions: &mut Vec<Position>,
    messages: &Vec<PositionMessage>,
)
    requires
        old(positions)@.len() == alive@.len(),
        forall|j: int|
            0 <= j < alive@.len() ==> (#[trigger] old(positions)@[j]).position.in_bounds(),
    ensures
        final(positions)@.len() == alive@.len(),
        final(positions)@ == apply_position_messages_spec(
            registry.entities@,
            alive@,
            old(positions)@,
            messages@,
        ),
        forall|j: int|
            0 <= j < alive@.len() ==> (#[trigger] final(positions)@[j]).position.in_bounds(),
{
    let n_msgs: usize = messages.len();
    let mut k: usize = 0;
    proof {
        assert(messages@.subrange(0, n_msgs as int) =~= messages@);
    }
    while k < n_msgs
        invariant
            k <= n_msgs,
            n_msgs == messages@.len(),
            positions@.len() == alive@.len(),
            forall|j: int|
                0 <= j < alive@.len() ==> (#[trigger] positions@[j]).position.in_bounds(),
            apply_position_messages_spec(registry.entities@, alive@, old(positions)@, messages@)
                == apply_position_messages_spec(
                registry.entities@,
                alive@,
                positions@,
                messages@.subrange(k as int, n_msgs as int),
            ),
        decreases n_msgs - k,
    {
        proof {
            assert(messages@.subrange(k as int, n_msgs as int).drop_first() =~= messages@.subrange(
                k + 1 as int,
                n_msgs as int,
            ));
            assert(messages@.subrange(k as int, n_msgs as int)[0] == messages@[k as int]);
        }
        let m: PositionMessage = messages[k];
        match registry.get(&m.network_entity) {
            Some(e) => {
                if e < alive.len() && alive[e] {
                    let p = m.position.position;
                    if -crate::geom::COORD_LIMIT <= p.x && p.x <= crate::geom::COORD_LIMIT
                        && -crate::geom::COORD_LIMIT <= p.y && p.y <= crate::geom::COORD_LIMIT {
                        positions.set(e, m.position);
                    }
                }
            },
            None => {
            },
        }
        k = k + 1;
    }
}

} // verus!
