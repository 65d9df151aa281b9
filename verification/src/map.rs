//! Map content and the connection-driven match start.
//!
//! A map names the player slots it supports and the content to spawn: a
//! shared list plus one list per player.  When a connection arrives the
//! server hands it the first unclaimed slot; once every slot is claimed the
//! whole map is queued for spawning.

use crate::connection::{ConnectionMessage, PlayerId, Players};
use crate::spawnable::{SpawnResource, Spawnable};
use vstd::prelude::*;

verus! {

/// Static map content.
pub struct GameMap {
    /// The player slots this map supports; kept free of duplicates.
    pub players: Vec<PlayerId>,
    /// Content spawned once for everyone.
    pub spawns: Vec<Spawnable>,
    /// Content spawned once per claimed player slot, in `players` order.
    pub player_spawns: Vec<(PlayerId, Vec<Spawnable>)>,
}

/// The first listed player slot that no connection has claimed yet.
pub open spec fn first_unused_spec(players: Seq<PlayerId>, claimed: Map<u64, u32>, n: int) -> Option<
    PlayerId,
>
    decreases n,
{
    if n <= 0 {
        None
    } else {
        match first_unused_spec(players, claimed, n - 1) {
            Some(p) => Some(p),
            None => if !claimed.contains_key(players[n - 1].0) {
                Some(players[n - 1])
            } else {
                None
            },
        }
    }
}

impl GameMap {
    /// The first player slot no connection has claimed, if any.
    pub fn get_unused(&self, players: &Players) -> (r: Option<PlayerId>)
        ensures
            r == first_unused_spec(
                self.players@,
                players.connection_handles@,
                self.players@.len() as int,
            ),
    {
        let n: usize = self.players.len();
        let mut i: usize = 0;
        while i < n
            invariant
                i <= n,
                n == self.players@.len(),
                first_unused_spec(self.players@, players.connection_handles@, i as int) is None,
            decreases n - i,
        {
            let candidate: PlayerId = self.players[i];
            if !players.has_player(&candidate) {
                proof {
                    assert(first_unused_spec(
                        self.players@,
                        players.connection_handles@,
                        i + 1 as int,
                    ) == Some(candidate));
                    lemma_first_unused_stable(
                        self.players@,
                        players.connection_handles@,
                        i + 1 as int,
                        n as int,
                    );
                }
                return Some(candidate);
            }
            i = i + 1;
        }
        None
    }

    /// Whether every player slot has been claimed.
    pub fn all_connected(&self, players: &Players) -> (r: bool)
        ensures
            r == (first_unused_spec(
                self.players@,
                players.connection_handles@,
                self.players@.len() as int,
            ) is None),
    {
        match self.get_unused(players) {
            Some(_) => false,
            None => true,
        }
    }

    /// Queue the map's content: the shared spawns, then each claimed
    /// player's spawns, in listed order.
    pub fn spawn(&self, players: &Players, spawn_resource: &mut SpawnResource)
        ensures
            final(spawn_resource).spawnables@.len() == old(spawn_resource).spawnables@.len()
                + self.spawns@.len() + claimed_spawn_count(
                self.player_spawns@,
                players.connection_handles@,
                self.player_spawns@.len() as int,
            ),
            // what was already queued stays put
            forall|k: int|
                0 <= k < old(spawn_resource).spawnables@.len() ==> (#[trigger] final(spawn_resource).spawnables@[k]) == old(spawn_resource).spawnables@[k],
            // the appended suffix is the shared content followed by each
            // claimed player's content, descriptor for descriptor
            ({
                let sources = self.spawns@ + claimed_sources_spec(
                    self.player_spawns@,
                    players.connection_handles@,
                    self.player_spawns@.len() as int,
                );
                forall|k: int|
                    0 <= k < sources.len() ==> spawnable_matches(
                        #[trigger] final(spawn_resource).spawnables@[old(
                            spawn_resource,
                        ).spawnables@.len() + k],
                        sources[k],
                    )
            }),
    {
        let base: usize = spawn_resource.spawnables.len();
        let mut k: usize = 0;
        let n_shared: usize = self.spawns.len();
        while k < n_shared
            invariant
                k <= n_shared,
                n_shared == self.spawns@.len(),
                base == old(spawn_resource).spawnables@.len(),
                spawn_resource.spawnables@.len() == base + k,
                forall|q: int|
                    0 <= q < base ==> (#[trigger] spawn_resource.spawnables@[q]) == old(
                        spawn_resource,
                    ).spawnables@[q],
                forall|q: int|
                    0 <= q < k ==> spawnable_matches(
                        #[trigger] spawn_resource.spawnables@[base + q],
                        self.spawns@[q],
                    ),
            decreases n_shared - k,
        {
            let s = clone_spawnable(&self.spawns[k]);
            spawn_resource.spawn(s);
            k = k + 1;
        }
        let mut m: usize = 0;
        let n_per: usize = self.player_spawns.len();
        while m < n_per
            invariant
                m <= n_per,
                n_per == self.player_spawns@.len(),
                n_shared == self.spawns@.len(),
                base == old(spawn_resource).spawnables@.len(),
                spawn_resource.spawnables@.len() == base + self.spawns@.len()
                    + claimed_sources_spec(
                    self.player_spawns@,
                    players.connection_handles@,
                    m as int,
                ).len(),
                forall|q: int|
                    0 <= q < base ==> (#[trigger] spawn_resource.spawnables@[q]) == old(
                        spawn_resource,
                    ).spawnables@[q],
                forall|q: int|
                    0 <= q < n_shared ==> spawnable_matches(
                        #[trigger] spawn_resource.spawnables@[base + q],
                        self.spawns@[q],
                    ),
                forall|q: int|
                    0 <= q < claimed_sources_spec(
                        self.player_spawns@,
                        players.connection_handles@,
                        m as int,
                    ).len() ==> spawnable_matches(
                        #[trigger] spawn_resource.spawnables@[base + n_shared + q],
                        claimed_sources_spec(
                            self.player_spawns@,
                            players.connection_handles@,
                            m as int,
                        )[q],
                    ),
            decreases n_per - m,
        {
            let ghost claimed_before = claimed_sources_spec(
                self.player_spawns@,
                players.connection_handles@,
                m as int,
            );
            let ghost at_entry = spawn_resource.spawnables@.len();
            if players.has_player(&self.player_spawns[m].0) {
                let mut j: usize = 0;
                let n_list: usize = self.player_spawns[m].1.len();
                while j < n_list
                    invariant
                        j <= n_list,
                        m < self.player_spawns@.len(),
                        n_list == self.player_spawns@[m as int].1@.len(),
                        at_entry == base + n_shared + claimed_before.len(),
                        n_shared == self.spawns@.len(),
                        base == old(spawn_resource).spawnables@.len(),
                        spawn_resource.spawnables@.len() == at_entry + j,
                        forall|q: int|
                            0 <= q < base ==> (#[trigger] spawn_resource.spawnables@[q]) == old(
                                spawn_resource,
                            ).spawnables@[q],
                        forall|q: int|
                            0 <= q < n_shared ==> spawnable_matches(
                                #[trigger] spawn_resource.spawnables@[base + q],
                                self.spawns@[q],
                            ),
                        forall|q: int|
                            0 <= q < claimed_before.len() ==> spawnable_matches(
                                #[trigger] spawn_resource.spawnables@[base + n_shared + q],
                                claimed_before[q],
                            ),
                        forall|q: int|
                            0 <= q < j ==> spawnable_matches(
                                #[trigger] spawn_resource.spawnables@[at_entry + q],
                                self.player_spawns@[m as int].1@[q],
                            ),
                    decreases n_list - j,
                {
                    let s = clone_spawnable(&self.player_spawns[m].1[j]);
                    spawn_resource.spawn(s);
                    j = j + 1;
                }
            }
            m = m + 1;
            proof {
                let claimed_now = claimed_sources_spec(
                    self.player_spawns@,
                    players.connection_handles@,
                    m as int,
                );
                assert(claimed_now =~= claimed_before + (
                if players.connection_handles@.contains_key(
                    self.player_spawns@[m - 1].0.0,
                ) {
                    self.player_spawns@[m - 1].1@
                } else {
                    Seq::<Spawnable>::empty()
                }));
                assert forall|q: int| 0 <= q < claimed_now.len() implies spawnable_matches(
                    #[trigger] spawn_resource.spawnables@[base + n_shared + q],
                    claimed_now[q],
                ) by {
                    if q < claimed_before.len() {
                        assert(claimed_now[q] == claimed_before[q]);
                    } else {
                        let q2 = q - claimed_before.len();
                        assert(claimed_now[q] == self.player_spawns@[m - 1].1@[q2]);
                        assert(spawnable_matches(
                            spawn_resource.spawnables@[at_entry + q2],
                            self.player_spawns@[m - 1].1@[q2],
                        ));
                        assert(base + n_shared + q == at_entry + q2);
                    }
                }
            }
        }
        proof {
            lemma_claimed_sources_len(
                self.player_spawns@,
                players.connection_handles@,
                self.player_spawns@.len() as int,
            );
            let sources = self.spawns@ + claimed_sources_spec(
                self.player_spawns@,
                players.connection_handles@,
                self.player_spawns@.len() as int,
            );
            assert forall|k2: int| 0 <= k2 < sources.len() implies spawnable_matches(
                #[trigger] spawn_resource.spawnables@[old(spawn_resource).spawnables@.len() + k2],
                sources[k2],
            ) by {
                if k2 < self.spawns@.len() {
                    assert(sources[k2] == self.spawns@[k2]);
                    assert(spawnable_matches(
                        spawn_resource.spawnables@[base + k2],
                        self.spawns@[k2],
                    ));
                } else {
                    let q = k2 - self.spawns@.len();
                    assert(sources[k2] == claimed_sources_spec(
                        self.player_spawns@,
                        players.connection_handles@,
                        self.player_spawns@.len() as int,
                    )[q]);
                    assert(spawnable_matches(
                        spawn_resource.spawnables@[base + n_shared + q],
                        claimed_sources_spec(
                            self.player_spawns@,
                            players.connection_handles@,
                            self.player_spawns@.len() as int,
                        )[q],
                    ));
                }
            }
        }
    }
}

/// Whether two descriptors say the same thing, field view by field view.
pub open spec fn spawnable_matches(a: Spawnable, b: Spawnable) -> bool {
    match (a, b) {
        (Spawnable::Unit(x), Spawnable::Unit(y)) => x.position == y.position && x.owner == y.owner
            && x.unit@ == y.unit@,
        (Spawnable::TileMap(x), Spawnable::TileMap(y)) => x.tile_map@ == y.tile_map@ && x.tile_set@
            == y.tile_set@ && x.texture@ == y.texture@,
        (Spawnable::RK550(x), Spawnable::RK550(y)) => x.unit@ == y.unit@ && x.texture@
            == y.texture@ && x.animation_set@ == y.animation_set@,
        _ => false,
    }
}

/// The per-player content of the first `n` per-player lists, claimed
/// players only, in listed order.
pub open spec fn claimed_sources_spec(
    player_spawns: Seq<(PlayerId, Vec<Spawnable>)>,
    claimed: Map<u64, u32>,
    n: int,
) -> Seq<Spawnable>
    decreases n,
{
    if n <= 0 {
        Seq::empty()
    } else {
        claimed_sources_spec(player_spawns, claimed, n - 1) + (if claimed.contains_key(
            player_spawns[n - 1].0.0,
        ) {
            player_spawns[n - 1].1@
        } else {
            Seq::empty()
        })
    }
}

/// How many descriptors the per-player lists of the first `n` entries
/// contribute, counting only claimed players.
pub open spec fn claimed_spawn_count(
    player_spawns: Seq<(PlayerId, Vec<Spawnable>)>,
    claimed: Map<u64, u32>,
    n: int,
) -> int
    decreases n,
{
    if n <= 0 {
        0
    } else {
        claimed_spawn_count(player_spawns, claimed, n - 1) + (if claimed.contains_key(
            player_spawns[n - 1].0.0,
        ) {
            player_spawns[n - 1].1@.len() as int
        } else {
            0
        })
    }
}

/// The claimed per-player content has exactly the counted length.
proof fn lemma_claimed_sources_len(
    player_spawns: Seq<(PlayerId, Vec<Spawnable>)>,
    claimed: Map<u64, u32>,
    n: int,
)
    ensures
        claimed_sources_spec(player_spawns, claimed, n).len() == claimed_spawn_count(
            player_spawns,
            claimed,
            n,
        ),
    decreases n,
{
    if n > 0 {
        lemma_claimed_sources_len(player_spawns, claimed, n - 1);
    }
}

/// Once a prefix yields an unused slot, every longer prefix yields it too.
proof fn lemma_first_unused_stable(players: Seq<PlayerId>, claimed: Map<u64, u32>, k: int, n: int)
    requires
        0 <= k <= n <= players.len(),
        first_unused_spec(players, claimed, k) is Some,
    ensures
        first_unused_spec(players, claimed, n) == first_unused_spec(players, claimed, k),
    decreases n - k,
{
    if k < n {
        lemma_first_unused_stable(players, claimed, k, n - 1);
    }
}

/// Copy a spawn descriptor for queuing; the copy matches the original in
/// every field view.
fn clone_spawnable(s: &Spawnable) -> (r: Spawnable)
    ensures
        spawnable_matches(r, *s),
{
    match s {
        Spawnable::Unit(u) => Spawnable::Unit(
            crate::spawnable::UnitSpawnable {
                position: u.position,
                owner: u.owner,
                unit: clone_string(&u.unit),
            },
        ),
        Spawnable::TileMap(t) => Spawnable::TileMap(
            crate::spawnable::TileMapSpawnable {
                tile_map: clone_string(&t.tile_map),
                tile_set: clone_string(&t.tile_set),
                texture: clone_string(&t.texture),
            },
        ),
        Spawnable::RK550(r) => Spawnable::RK550(
            crate::spawnable::RK550Spawnable {
                unit: clone_string(&r.unit),
                texture: clone_string(&r.texture),
                animation_set: clone_string(&r.animation_set),
            },
        ),
    }
}

/// Copy a string; the view carries over exactly.
fn clone_string(s: &String) -> (r: String)
    ensures
        r@ == s@,
{
    s.clone()
}

/// Handle a newly connected transport endpoint on the server: claim the
/// first unclaimed player slot for it and answer with `Welcome`; the
/// connection that claims the last slot triggers the match start, queuing
/// the whole map's content.  With no free slot the connection is left
/// unanswered, which is logged by the caller and otherwise harmless.
pub fn server_handle_connect(
    map: &GameMap,
    players: &mut Players,
    connection_handle: u32,
    spawn_resource: &mut SpawnResource,
) -> (reply: Option<ConnectionMessage>)
    ensures
        ({
            let unused = first_unused_spec(
                map.players@,
                old(players).connection_handles@,
                map.players@.len() as int,
            );
            match unused {
                Some(p) => {
                    let claimed2 = old(players).connection_handles@.insert(
                        p.0,
                        connection_handle,
                    );
                    &&& reply == Some(ConnectionMessage::Server(p))
                    &&& final(players).player_ids@ == old(players).player_ids@.insert(
                        connection_handle,
                        p,
                    )
                    &&& final(players).connection_handles@ == claimed2
                    // the last claim queues the whole map's content
                    &&& (first_unused_spec(map.players@, claimed2, map.players@.len() as int)
                        is None ==> {
                        let sources = map.spawns@ + claimed_sources_spec(
                            map.player_spawns@,
                            claimed2,
                            map.player_spawns@.len() as int,
                        );
                        &&& final(spawn_resource).spawnables@.len() == old(
                            spawn_resource,
                        ).spawnables@.len() + sources.len()
                        &&& forall|k: int|
                            0 <= k < sources.len() ==> spawnable_matches(
                                #[trigger] final(spawn_resource).spawnables@[old(
                                    spawn_resource,
                                ).spawnables@.len() + k],
                                sources[k],
                            )
                    })
                    // an earlier claim queues nothing yet
                    &&& (first_unused_spec(map.players@, claimed2, map.players@.len() as int)
                        is Some ==> final(spawn_resource).spawnables@ == old(
                        spawn_resource,
                    ).spawnables@)
                },
                None => {
                    &&& reply is None
                    &&& final(players).player_ids@ == old(players).player_ids@
                    &&& final(players).connection_handles@ == old(players).connection_handles@
                    &&& final(spawn_resource).spawnables@ == old(spawn_resource).spawnables@
                },
            }
        }),
{
    match map.get_unused(players) {
        Some(player_id) => {
            players.insert(player_id, connection_handle);
            if map.all_connected(players) {
                map.spawn(players, spawn_resource);
                proof {
                    lemma_claimed_sources_len(
                        map.player_spawns@,
                        players.connection_handles@,
                        map.player_spawns@.len() as int,
                    );
                }
            }
            Some(ConnectionMessage::Server(player_id))
        },
        None => None,
    }
}

} // verus!
