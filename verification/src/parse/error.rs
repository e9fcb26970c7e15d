//! Errors that can occur during parsing.

use vstd::prelude::*;

verus! {

/// Errors converting a schema tree to strongly-typed data structures.
#[derive(Debug, Clone, Copy, PartialEq, Eq, Structural)]
pub enum ParseKind {
    /// The type description is currently unsupported: fatal, it aborts the
    /// whole enclosing resolution.
    Unimplemented,
    /// The calling resolver is not responsible for the current shape: it
    /// drives the fallback chain and is never user-visible.
    ///
    /// This happens when, for example, the boolean probe is asked to parse
    /// something that turns out to be an integer.
    OtherType,
}

} // verus!
