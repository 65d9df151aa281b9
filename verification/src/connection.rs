//! Player identities and the connection handshake.
//!
//! A client repeats a `Hello` on a one-second timer until the server answers
//! with its assigned [`PlayerId`]; the server keeps the two-way map between
//! transport connections and players that the command authorization check
//! consults.

use std::collections::HashMap;
use vstd::prelude::*;

verus! {

broadcast use vstd::std_specs::hash::group_hash_axioms;

/// Identifier of a connected participant.
#[derive(Clone, Copy, Debug, PartialEq, Eq, Structural, Hash)]
pub struct PlayerId(pub u64);

/// Component attaching a [`PlayerId`] to a unit.
#[derive(Clone, Copy, Debug, PartialEq, Eq, Structural)]
pub struct Owner(pub PlayerId);

/// Two-way map between transport connection handles and player identities.
pub struct Players {
    pub player_ids: HashMap<u32, PlayerId>,
    pub connection_handles: HashMap<u64, u32>,
}

impl Players {
    pub fn new() -> (r: Self)
        ensures
            r.player_ids@ == Map::<u32, PlayerId>::empty(),
            r.connection_handles@ == Map::<u64, u32>::empty(),
    {
        Self { player_ids: HashMap::new(), connection_handles: HashMap::new() }
    }

    /// Record that `connection_handle` speaks for `player_id`.
    pub fn insert(&mut self, player_id: PlayerId, connection_handle: u32)
        ensures
            final(self).player_ids@ == old(self).player_ids@.insert(connection_handle, player_id),
            final(self).connection_handles@ == old(self).connection_handles@.insert(
                player_id.0,
                connection_handle,
            ),
    {
        self.player_ids.insert(connection_handle, player_id);
        self.connection_handles.insert(player_id.0, connection_handle);
    }

    /// The player a connection speaks for, if the handshake completed.
    pub fn player_of(&self, connection_handle: u32) -> (r: Option<PlayerId>)
        ensures
            match r {
                Some(p) => self.player_ids@.contains_key(connection_handle)
                    && p == self.player_ids@[connection_handle],
                None => !self.player_ids@.contains_key(connection_handle),
            },
    {
        match self.player_ids.get(&connection_handle) {
            Some(p) => Some(*p),
            None => None,
        }
    }

    /// Whether some connection already speaks for `player_id`.
    pub fn has_player(&self, player_id: &PlayerId) -> (r: bool)
        ensures
            r == self.connection_handles@.contains_key(player_id.0),
    {
        self.connection_handles.contains_key(&player_id.0)
    }
}

/// Handshake payload on the connection channel.
#[derive(Clone, Copy, Debug, PartialEq, Eq, Structural)]
pub enum ConnectionMessage {
    /// `Hello` from a client, repeated until answered.
    Client,
    /// `Welcome` from the server, carrying the assigned player id.
    Server(PlayerId),
}

/// A repeating countdown, measured in microseconds.
pub struct RepeatTimer {
    pub duration_micros: u64,
    pub elapsed_micros: u64,
}

impl RepeatTimer {
    /// The accumulated time never reaches a full period.
    pub open spec fn wf(self) -> bool {
        &&& self.duration_micros >= 1
        &&& self.elapsed_micros < self.duration_micros
    }

    pub fn new(duration_micros: u64) -> (r: Self)
        requires
            duration_micros >= 1,
        ensures
            r.duration_micros == duration_micros,
            r.elapsed_micros == 0,
            r.wf(),
    {
        Self { duration_micros, elapsed_micros: 0 }
    }

    /// Advance the timer; true exactly when a period boundary was crossed.
    pub fn tick(&mut self, delta_micros: u64) -> (just_finished: bool)
        requires
            old(self).wf(),
            old(self).elapsed_micros + delta_micros <= u64::MAX,
        ensures
            final(self).duration_micros == old(self).duration_micros,
            just_finished == (old(self).elapsed_micros + delta_micros
                >= old(self).duration_micros),
            final(self).elapsed_micros == (old(self).elapsed_micros + delta_micros) as int
                % old(self).duration_micros as int,
            final(self).wf(),
    {
        let total: u64 = self.elapsed_micros + delta_micros;
        let finished: bool = total >= self.duration_micros;
        self.elapsed_micros = total % self.duration_micros;
        finished
    }
}

/// The player id the client ends up with after draining `messages`: the last
/// `Welcome` wins, and without one the prior assignment stands.
pub open spec fn assigned_after(messages: Seq<ConnectionMessage>, prior: Option<PlayerId>) -> Option<
    PlayerId,
>
    decreases messages.len(),
{
    if messages.len() == 0 {
        prior
    } else {
        let rest = assigned_after(messages.drop_last(), prior);
        match messages.last() {
            ConnectionMessage::Server(id) => Some(id),
            ConnectionMessage::Client => rest,
        }
    }
}

/// One client-side handshake step: advance the retransmit timer and drain the
/// inbound handshake messages.  Returns whether a `Hello` is due this tick.
/// A `Client` message arriving at a client is an anomaly and is ignored.
pub fn client_connection_step(
    timer: &mut RepeatTimer,
    delta_micros: u64,
    messages: &Vec<ConnectionMessage>,
    player_id: &mut Option<PlayerId>,
) -> (send_hello: bool)
    requires
        old(timer).wf(),
        old(timer).elapsed_micros + delta_micros <= u64::MAX,
    ensures
        final(timer).wf(),
        send_hello == (old(timer).elapsed_micros + delta_micros >= old(timer).duration_micros),
        *final(player_id) == assigned_after(messages@, *old(player_id)),
{
    let send_hello = timer.tick(delta_micros);
    let mut i: usize = 0;
    while i < messages.len()
        invariant
            i <= messages.len(),
            *player_id == assigned_after(messages@.subrange(0, i as int), *old(player_id)),
        decreases messages.len() - i,
    {
        match messages[i] {
            ConnectionMessage::Client => {
            },
            ConnectionMessage::Server(id) => {
                *player_id = Some(id);
            },
        }
        proof {
            assert(messages@.subrange(0, i + 1 as int).drop_last() =~= messages@.subrange(
                0,
                i as int,
            ));
        }
        i = i + 1;
    }
    proof {
        assert(messages@.subrange(0, messages@.len() as int) =~= messages@);
    }
    send_hello
}

/// How many handshake messages from one connection the server logs as
/// anomalous: every `Welcome` (clients never send one), and — once the
/// connection already has its player — every repeated `Hello`.  Repeats are
/// idempotent: logged, never rejected.
pub open spec fn count_anomalous_messages(messages: Seq<ConnectionMessage>, assigned: bool) -> int
    decreases messages.len(),
{
    if messages.len() == 0 {
        0
    } else {
        count_anomalous_messages(messages.drop_last(), assigned) + match messages.last() {
            ConnectionMessage::Server(_) => 1int,
            ConnectionMessage::Client => if assigned {
                1int
            } else {
                0int
            },
        }
    }
}

/// How many messages are anomalous never exceeds how many there are.
proof fn lemma_count_anomalous_le_len(messages: Seq<ConnectionMessage>, assigned: bool)
    ensures
        0 <= count_anomalous_messages(messages, assigned) <= messages.len(),
    decreases messages.len(),
{
    if messages.len() > 0 {
        lemma_count_anomalous_le_len(messages.drop_last(), assigned);
    }
}

/// One server-side handshake-channel step for one connection: `Hello`s need
/// no reply here (assignment happens when the transport reports the new
/// connection) and repeats after assignment are idempotent anomalies, as is
/// a `Welcome` arriving at the server.  Returns how many anomalous messages
/// were seen, for the caller's log; none changes any state.
pub fn server_connection_step(
    players: &Players,
    connection_handle: u32,
    messages: &Vec<ConnectionMessage>,
) -> (anomalies: usize)
    ensures
        anomalies == count_anomalous_messages(
            messages@,
            players.player_ids@.contains_key(connection_handle),
        ),
{
    let assigned: bool = match players.player_of(connection_handle) {
        Some(_) => true,
        None => false,
    };
    let mut anomalies: usize = 0;
    let mut i: usize = 0;
    while i < messages.len()
        invariant
            i <= messages.len(),
            assigned == players.player_ids@.contains_key(connection_handle),
            anomalies == count_anomalous_messages(messages@.subrange(0, i as int), assigned),
            anomalies <= i,
        decreases messages.len() - i,
    {
        proof {
            assert(messages@.subrange(0, i + 1 as int).drop_last() =~= messages@.subrange(
                0,
                i as int,
            ));
            lemma_count_anomalous_le_len(messages@.subrange(0, i + 1 as int), assigned);
        }
        match messages[i] {
            ConnectionMessage::Client => {
                if assigned {
                    anomalies = anomalies + 1;
                }
            },
            ConnectionMessage::Server(_) => {
                anomalies = anomalies + 1;
            },
        }
        i = i + 1;
    }
    proof {
        assert(messages@.subrange(0, messages@.len() as int) =~= messages@);
    }
    anomalies
}

} // verus!
