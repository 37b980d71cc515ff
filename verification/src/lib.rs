//! A realtime signaling hub for multi-party collaboration rooms: one host and
//! several participants exchange WebRTC negotiation payloads, remote-input
//! events, chat text and room-membership events over persistent connections,
//! while durable room state (code, host, participant list) is kept consistent
//! with an in-memory connection registry.
//!
//! The crate holds the hub's decisions — frame decoding and encoding, the
//! per-kind routing catalog, presence bookkeeping and host migration — each
//! behind a contract. The embedding binary owns the transports and the
//! durable store and only carries out the plans produced here.

pub mod auth;
pub mod codec;
pub mod codes;
pub mod models;
pub mod msg;
pub mod registry;
pub mod room;
pub mod router;
