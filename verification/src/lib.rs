//! Core of a channel-based voice and chat relay: the wire packet model and
//! its binary codec, the authoritative server's session registry and packet
//! dispatch, durable account/message storage with history replay, chunked
//! file reassembly, and the bounded sample queues of the audio pipeline.
use vstd::prelude::*;

pub mod audio;
pub mod codec;
pub mod color;
pub mod crypto;
pub mod history;
pub mod packet;
pub mod registry;
pub mod seq_facts;
pub mod server;
pub mod session;
pub mod reassembly;
pub mod store;
pub mod updater;

verus! {

/// Number of audio samples in one network frame (10 ms at 48 kHz).
pub const FRAME_SAMPLES: usize = 480;

/// Sessions idle longer than this many milliseconds are purged.
pub const LIVENESS_WINDOW_MS: u64 = 30_000;

/// At most this many records of each kind are replayed per history request.
pub const HISTORY_WINDOW: usize = 50;

} // verus!
