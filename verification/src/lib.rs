//! Host-side logic of the Synadia Agent Protocol for NATS: subject layout,
//! prompt envelope handling, stream chunk framing, heartbeat payloads,
//! per-session bookkeeping and the prompt stream state machine.

pub mod envelope;
pub mod heartbeat;
pub mod host;
pub mod json;
pub mod prompt;
pub mod sessions;
pub mod stream;
pub mod subject;
