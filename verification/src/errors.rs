//! The error taxonomy of the interop layer.
//!
//! Load and resolution errors are recoverable at the host's discretion; a
//! trap is fatal to the interaction with the instance that raised it.

use vstd::prelude::*;

verus! {

/// A guest-fatal abort of a single call.
///
/// After a trap the host must treat the instance as possibly corrupted and
/// should re-instantiate before issuing further calls.
#[derive(Copy, Clone, Debug, PartialEq, Eq, Structural)]
pub enum Trap {
    /// The allocator was handed an invalid layout: an alignment that is not a
    /// power of two.
    BadLayout,
    /// The allocator would have to grow the linear memory past its ceiling.
    OutOfMemory,
    /// A memory access reached past the end of the linear memory.
    OutOfBounds,
    /// A release of a region that is not live with exactly the offset, size
    /// and alignment given; this flags a double free or a mismatched free
    /// instead of silently corrupting the heap.
    InvalidFree,
    /// A dynamic call whose argument count disagrees with the signature of
    /// the entry point it names.
    BadCall,
}

/// A failure to turn a module image into an instance.
#[derive(Copy, Clone, Debug, PartialEq, Eq, Structural)]
pub enum LoadError {
    /// The image is shorter than its mandatory header.
    Truncated,
    /// The image does not begin with the expected magic and version header.
    BadMagic,
}

/// A failure to look up an exported entry point.
#[derive(Debug, PartialEq, Eq)]
pub enum ResolveError {
    /// No export of the given name exists in the instance.
    MissingExport { name: String },
    /// The export exists, but its signature disagrees with the one the
    /// caller declared: a version mismatch between host and guest.
    SignatureMismatch { name: String },
}

} // verus!
