//! Error taxonomy of the protocol core.
//!
//! Decode errors and capacity errors are local and recoverable by the caller;
//! state-transition errors are fatal for the current rebalance and force the
//! cluster into its error state.

use vstd::prelude::*;

verus! {

/// A failure while decoding wire bytes. Decoding never silently coerces
/// malformed input to a default value.
#[derive(Clone, Copy, PartialEq, Eq, Structural, Debug)]
pub enum DecodeError {
    /// The integer tag is in neither declared opcode range.
    UnrecognizedOpcode { code: u32 },
    /// The integer tag is not a declared status or type code.
    UnrecognizedCode { code: u32 },
    /// A fixed-layout buffer had the wrong total length.
    LengthMismatch { expected: usize, actual: usize },
    /// A length prefix would read past the end of the buffer.
    Truncated { needed: usize, remaining: usize },
    /// A name field did not hold valid UTF-8.
    InvalidUtf8,
    /// A numeric field does not fit the receiving machine's word size.
    ValueOutOfRange,
}

/// A failure reported by the volume capacity ledger.
#[derive(Clone, Copy, PartialEq, Eq, Structural, Debug)]
pub enum VolumeError {
    /// A volume with the requested name already exists.
    DuplicateName,
    /// No volume with the requested name exists.
    NotFound,
    /// The requested size is zero.
    ZeroSize,
    /// The requested used size would exceed the volume's total size.
    OverCapacity,
    /// The volume still accounts used space and may not be deleted.
    InUse,
}

/// A failure reported by the cluster orchestration logic.
#[derive(Clone, Copy, PartialEq, Eq, Structural, Debug)]
pub enum ClusterError {
    /// A membership-change request arrived while the cluster was not idle:
    /// at most one rebalance runs at a time.
    NotIdle,
    /// The named server is not a member of the cluster.
    UnknownServer,
    /// A requested server-status update is not the permitted next state.
    InvalidTransition,
    /// The operation is only meaningful while a rebalance is in progress.
    NotRebalancing,
    /// The operation is only meaningful in the error state.
    NotInErrorState,
}

} // verus!
