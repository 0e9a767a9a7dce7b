//! Core logic of a realtime chat hub: connection lifecycle, authentication
//! and anti-replay checks, presence and voice-room state, rate limiting,
//! input validation, and the assembly of history and reaction payloads.
//!
//! Network and database work lives outside this crate's verified surface;
//! every function here is a pure decision or state transition with a
//! machine-checked contract.

pub mod admin;
pub mod auth;
pub mod bus;
pub mod clock;
pub mod collections;
pub mod engine;
pub mod history;
pub mod limiter;
pub mod numparse;
pub mod reactions;
pub mod registry;
pub mod roles;
pub mod strutil;
pub mod timestamp;
pub mod upload;
pub mod validate;
pub mod voice;

use vstd::prelude::*;

verus! {

/// Default quality label assigned to new voice channels.
pub open spec fn default_voice_quality() -> Seq<char> {
    "standard"@
}

/// Default bitrate (in bits per second) assigned to new voice channels.
pub const DEFAULT_VOICE_BITRATE: i32 = 64_000;

} // verus!
