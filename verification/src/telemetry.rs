//! No-op telemetry provider.
use vstd::prelude::*;

verus! {

/// No-op telemetry provider (zero-cost, always compiled).
#[derive(Debug, Clone, Copy, Default)]
pub struct NoopProvider;

impl NoopProvider {
    /// Record a named span (no-op).
    pub fn span(&self, _name: &str) {
    }

    /// Increment a named counter (no-op).
    pub fn count(&self, _name: &str, _value: u64) {
    }
}

} // verus!
