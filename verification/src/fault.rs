//! The error taxonomy of the guest runtime.
//!
//! A guest trap is any fault originating inside WASM execution: an
//! out-of-bounds access through the memory bridge, an unimplemented ABI stub,
//! an invalid argument a stub refuses, or fuel exhaustion. A trap is isolated
//! to the current tick; the guest stays alive and is stepped again next tick.
//!
//! A host fault is a bug in the host itself: an ABI stub reached while no
//! step context is installed, or bytes that must be UTF-8 and are not. The
//! host harness aborts the kernel on such a fault.

use vstd::prelude::*;

verus! {

/// A fault originating inside WASM execution; recoverable per tick.
#[derive(Clone, Copy, PartialEq, Eq, Structural, Debug)]
pub enum TrapKind {
    /// A guest-supplied (offset, length) range left the linear memory.
    OutOfBounds,
    /// An ABI stub that the runtime deliberately does not implement.
    Unimplemented,
    /// The fuel budget for this step ran out.
    FuelExhausted,
    /// A stub argument outside its documented range, such as a TCP port
    /// that does not fit in 16 bits.
    InvalidArgument,
}

/// A host bug; the kernel aborts with a diagnostic.
#[derive(Clone, Copy, PartialEq, Eq, Structural, Debug)]
pub enum FaultKind {
    /// An ABI stub ran while no step context was installed.
    NoContext,
    /// Bytes that must be UTF-8 were not.
    InvalidUtf8,
}

/// What an ABI stub reports when it cannot complete.
#[derive(Clone, Copy, PartialEq, Eq, Structural, Debug)]
pub enum StubError {
    Trap(TrapKind),
    Fault(FaultKind),
}

} // verus!
