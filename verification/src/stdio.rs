//! How a child's standard stream is connected.

use vstd::prelude::*;

verus! {

/// What one of a child's three standard streams is connected to.
///
/// A value is a description only. `Handle` stands for a stream that a runtime
/// has kept open, under the number by which that runtime knows it; a stream
/// is held once, which is why this type can neither be copied nor compared.
#[derive(Debug)]
pub enum Stdio {
    /// The stream of the parent process.
    Inherit,
    /// Nothing: reads end at once, writes are discarded.
    Null,
    /// A new pipe between parent and child.
    Piped,
    /// A stream that a runtime retained from an earlier child.
    Handle(u64),
}

} // verus!
