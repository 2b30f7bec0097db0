//! Client-side TURN relay core.
//!
//! The library holds the deterministic heart of a TURN client: the STUN
//! message codec, ChannelData framing, the permission cache, the channel
//! binding manager, the transaction bookkeeping, and the per-connection
//! state machine that multiplexes application datagrams over a single
//! allocation.  All I/O, timers and task scheduling stay outside; the
//! functions here map plain values (bytes, addresses, clock readings) to
//! plain values, so every decision is verified.

pub mod addr;
pub mod attrs;
pub mod auth;
pub mod binding;
pub mod chandata;
pub mod engine;
pub mod errors;
pub mod ice;
pub mod keying;
pub mod perm;
pub mod relay;
pub mod session;
pub mod requests;
pub mod stun;
pub mod transaction;
pub mod wire;
