//! Authoritative simulation core of a networked real-time-strategy game.
//!
//! The crate turns player-issued orders into deterministic unit behaviour
//! and keeps an authoritative server and its observing clients convergent on
//! the same world state despite unreliable transport.  The pieces:
//!
//! * [`network`] — replication-stable entity ids, their registry, and the
//!   channel table;
//! * [`connection`] — player identities and the connection handshake;
//! * [`unit`] — unit definitions, per-unit runtime state, the command queue
//!   state machine with its lock/await rules, and health replication;
//! * [`command`] — the per-tick resolver turning the active command into a
//!   [`behaviour::Behaviour`];
//! * [`movement`] — the behaviour executor and the pairwise collision
//!   resolver;
//! * [`animation`] / [`unit_animation`] — frame playback (driving the
//!   edge-triggered combat damage) and directional animation selection;
//! * [`position`], [`spawnable`], [`map`], [`audio`] — the remaining
//!   replicated state and content;
//! * [`world`] — the entity arena with its typed component tables and the
//!   fixed-timestep tick.
//!
//! All world geometry is fixed point ([`geom`]): 1000 steps per world unit,
//! so `100` is the `0.1`-unit arrival threshold.  Health and damage are in
//! thousandths of a health point; times are in microseconds.

pub mod animation;
pub mod audio;
pub mod behaviour;
pub mod command;
pub mod map;
pub mod movement;
pub mod position;
pub mod spawnable;
pub mod world;
pub mod connection;
pub mod geom;
pub mod network;
pub mod unit;
pub mod unit_animation;
