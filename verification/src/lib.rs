//! Agent-facing response primitives: TOON lists, key-value blocks,
//! char-safe truncation, structured errors and hints, status blocks,
//! retry arithmetic and idempotency keys.
use vstd::prelude::*;

pub mod text;
pub mod truncate;
pub mod escape;
pub mod toon;
pub mod resilience;
pub mod retry_after;
pub mod audience;
pub mod telemetry;
pub mod hints;
pub mod empty;
pub mod kv;
pub mod recovery;
pub mod mcp;
pub mod error;
pub mod status;
pub mod pipeline;
pub mod idempotency;
pub mod response;
pub mod execution;

verus! {

} // verus!
