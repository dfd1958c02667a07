//! Core of a media-session manager for a host that exposes playback
//! endpoints as asynchronously updating session handles.
//!
//! The crate holds the logic that is worth stating exactly: the arbitration
//! that picks the "active" session out of a changing population
//! ([`playermanager`]), the per-session model with its event outbox
//! ([`player`]), and the position reconciliation that turns a stale
//! playback-offset snapshot into a current one ([`util`]).
//!
//! Platform reads and writes (session enumeration, transport commands,
//! change-notification subscriptions) are not performed here; callers hand
//! the results of those reads to this crate as plain values and carry its
//! decisions back to the platform.

pub mod player;
pub mod playermanager;
pub mod types;
pub mod util;
