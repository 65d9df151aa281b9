//! Replication-stable entity identifiers and the channel table.
//!
//! A [`NetworkEntity`] names a unit across the network, independently of any
//! local arena index.  The [`NetworkEntityRegistry`] hands out fresh ids on
//! the server and maps ids to local entities on every peer.  A lookup miss is
//! an expected, non-fatal event under network delay: callers skip the current
//! message and carry on.

use std::collections::HashMap;
use vstd::prelude::*;

verus! {

broadcast use vstd::std_specs::hash::group_hash_axioms;

/// Monotonically increasing 64-bit identifier, stable across the network.
#[derive(Clone, Copy, Hash, PartialEq, Eq, Structural, Debug)]
pub struct NetworkEntity(pub u64);

/// Bidirectional bridge between network ids and local entity indices.
pub struct NetworkEntityRegistry {
    pub entities: HashMap<u64, usize>,
    pub next_entity: NetworkEntity,
}

impl NetworkEntityRegistry {
    /// Every id ever handed out by `generate_entity` lies below
    /// `next_entity`, so no generated id is ever reused.
    pub open spec fn wf(self) -> bool {
        forall|k: u64| self.entities@.contains_key(k) ==> k < self.next_entity.0
    }

    pub fn new() -> (r: Self)
        ensures
            r.entities@ == Map::<u64, usize>::empty(),
            r.next_entity.0 == 0,
            r.wf(),
    {
        Self { entities: HashMap::new(), next_entity: NetworkEntity(0) }
    }

    /// Look an id up; `None` means "stale or not yet known", never an error.
    pub fn get(&self, network_entity: &NetworkEntity) -> (r: Option<usize>)
        ensures
            match r {
                Some(e) => self.entities@.contains_key(network_entity.0)
                    && e == self.entities@[network_entity.0],
                None => !self.entities@.contains_key(network_entity.0),
            },
    {
        match self.entities.get(&network_entity.0) {
            Some(e) => Some(*e),
            None => None,
        }
    }

    /// Hand out a fresh id: the ids grow strictly and are never reused.
    pub fn generate_entity(&mut self) -> (r: NetworkEntity)
        requires
            old(self).wf(),
            old(self).next_entity.0 < u64::MAX,
        ensures
            r == old(self).next_entity,
            final(self).next_entity.0 == old(self).next_entity.0 + 1,
            final(self).entities@ == old(self).entities@,
            !old(self).entities@.contains_key(r.0),
            final(self).wf(),
    {
        let network_entity = self.next_entity;
        self.next_entity.0 = self.next_entity.0 + 1;
        network_entity
    }

    /// Install or overwrite a mapping (a client storing a server-assigned id).
    pub fn insert(&mut self, network_entity: NetworkEntity, entity: usize)
        ensures
            final(self).entities@ == old(self).entities@.insert(network_entity.0, entity),
            final(self).next_entity == old(self).next_entity,
            old(self).wf() && network_entity.0 < old(self).next_entity.0 ==> final(self).wf(),
    {
        self.entities.insert(network_entity.0, entity);
    }

    /// Generate a fresh id and map it to `entity` in one step.
    pub fn add(&mut self, entity: usize) -> (r: NetworkEntity)
        requires
            old(self).wf(),
            old(self).next_entity.0 < u64::MAX,
        ensures
            r == old(self).next_entity,
            final(self).entities@ == old(self).entities@.insert(r.0, entity),
            final(self).next_entity.0 == old(self).next_entity.0 + 1,
            !old(self).entities@.contains_key(r.0),
            final(self).wf(),
    {
        let network_entity = self.generate_entity();
        self.entities.insert(network_entity.0, entity);
        network_entity
    }

    /// Drop a mapping (the unit was destroyed); its id is never handed out
    /// again.
    pub fn remove(&mut self, network_entity: &NetworkEntity)
        ensures
            final(self).entities@ == old(self).entities@.remove(network_entity.0),
            final(self).next_entity == old(self).next_entity,
            old(self).wf() ==> final(self).wf(),
    {
        self.entities.remove(&network_entity.0);
    }
}

/// The id that `generate_entity` would hand out next is never already mapped:
/// generated ids are fresh, so ids are never reused while the registry lives.
pub proof fn lemma_generated_id_is_fresh(r: NetworkEntityRegistry)
    requires
        r.wf(),
    ensures
        !r.entities@.contains_key(r.next_entity.0),
{
}

/// Whether this process runs the authoritative simulation.
pub struct NetworkSettings {
    pub is_server: bool,
}

impl NetworkSettings {
    pub fn server() -> (r: Self)
        ensures
            r.is_server,
    {
        Self { is_server: true }
    }

    pub fn client() -> (r: Self)
        ensures
            !r.is_server,
    {
        Self { is_server: false }
    }
}

/// Delivery mode of a logical channel.
#[derive(Clone, Copy, PartialEq, Eq, Structural, Debug)]
pub enum ChannelMode {
    /// Ordered, retried delivery.
    Reliable,
    /// May drop or reorder; consumers treat payloads as "latest value wins".
    Unreliable,
}

/// Registration data for one logical channel.
#[derive(Clone, Copy, PartialEq, Eq, Structural, Debug)]
pub struct ChannelSettings {
    pub channel: u8,
    pub mode: ChannelMode,
    pub message_buffer_size: usize,
    pub packet_buffer_size: usize,
}

/// Channel id for the connection handshake (reliable).
pub const CONNECTION_CHANNEL: u8 = 0;

/// Channel id for animation-state deltas (unreliable).
pub const ANIMATOR_CHANNEL: u8 = 1;

/// Channel id for spawn descriptors (reliable).
pub const SPAWN_CHANNEL: u8 = 2;

/// Channel id for command operations (reliable).
pub const COMMAND_CHANNEL: u8 = 3;

/// Channel id for position snapshots (unreliable).
pub const POSITION_CHANNEL: u8 = 4;

/// The channel table the transport registers: handshake, spawn and command
/// traffic ride reliable channels; position and animation deltas are sent
/// unreliably and the latest value wins.
pub fn network_setup() -> (channels: Vec<ChannelSettings>)
    ensures
        channels@.len() == 5,
        forall|i: int| 0 <= i < 5 ==> (#[trigger] channels@[i]).channel == i,
        channels@[CONNECTION_CHANNEL as int].mode == ChannelMode::Reliable,
        channels@[ANIMATOR_CHANNEL as int].mode == ChannelMode::Unreliable,
        channels@[SPAWN_CHANNEL as int].mode == ChannelMode::Reliable,
        channels@[COMMAND_CHANNEL as int].mode == ChannelMode::Reliable,
        channels@[POSITION_CHANNEL as int].mode == ChannelMode::Unreliable,
{
    let mut channels: Vec<ChannelSettings> = Vec::new();
    channels.push(ChannelSettings {
        channel: CONNECTION_CHANNEL,
        mode: ChannelMode::Reliable,
        message_buffer_size: 64,
        packet_buffer_size: 64,
    });
    channels.push(ChannelSettings {
        channel: ANIMATOR_CHANNEL,
        mode: ChannelMode::Unreliable,
        message_buffer_size: 64,
        packet_buffer_size: 64,
    });
    channels.push(ChannelSettings {
        channel: SPAWN_CHANNEL,
        mode: ChannelMode::Reliable,
        message_buffer_size: 64,
        packet_buffer_size: 64,
    });
    channels.push(ChannelSettings {
        channel: COMMAND_CHANNEL,
        mode: ChannelMode::Reliable,
        message_buffer_size: 64,
        packet_buffer_size: 64,
    });
    channels.push(ChannelSettings {
        channel: POSITION_CHANNEL,
        mode: ChannelMode::Unreliable,
        message_buffer_size: 64,
        packet_buffer_size: 64,
    });
    channels
}

} // verus!
