//! Audience routing: which surface a piece of content is meant for.
use vstd::prelude::*;

verus! {

/// Which surface a piece of content is meant for.
#[derive(Debug, Clone, Copy, PartialEq, Eq, Structural)]
#[non_exhaustive]
pub enum Audience {
    /// The compact, token-efficient surface.
    Assistant,
    /// A human-readable surface.
    User,
}

} // verus!
