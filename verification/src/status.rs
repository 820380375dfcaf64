//! Per-server and cluster-wide status values, their wire codes, and the
//! forward-only per-server transition rule.
//!
//! Server statuses occupy wire codes 201 through 206 and cluster statuses
//! 300 through 308. A server moves strictly forward along
//! Initializing, PreTransfer, Transferring, PreFinish, Finishing, Finished;
//! any other requested move is rejected.

use vstd::prelude::*;

use crate::errors::{ClusterError, DecodeError};

verus! {

/// The migration phase of one cluster member during a membership change.
#[derive(Clone, Copy, PartialEq, Eq, Structural, Debug)]
pub enum ServerStatus {
    Initializing,
    PreTransfer,
    Transferring,
    PreFinish,
    Finishing,
    Finished,
}

impl ServerStatus {
    /// The wire integer of this status.
    pub open spec fn spec_encode(self) -> u32 {
        match self {
            ServerStatus::Initializing => 201,
            ServerStatus::PreTransfer => 202,
            ServerStatus::Transferring => 203,
            ServerStatus::PreFinish => 204,
            ServerStatus::Finishing => 205,
            ServerStatus::Finished => 206,
        }
    }

    /// Encode this status as its wire integer.
    pub fn encode(self) -> (code: u32)
        ensures
            code == self.spec_encode(),
            201 <= code <= 206,
    {
        match self {
            ServerStatus::Initializing => 201,
            ServerStatus::PreTransfer => 202,
            ServerStatus::Transferring => 203,
            ServerStatus::PreFinish => 204,
            ServerStatus::Finishing => 205,
            ServerStatus::Finished => 206,
        }
    }

    /// Decode a wire integer into a server status. Succeeds exactly on the
    /// declared range 201 through 206, and the result encodes back to the
    /// input.
    pub fn decode(code: u32) -> (r: Result<ServerStatus, DecodeError>)
        ensures
            201 <= code <= 206 ==> (r matches Ok(s) && s.spec_encode() == code),
            !(201 <= code <= 206) ==> r == Err::<ServerStatus, DecodeError>(
                DecodeError::UnrecognizedCode { code },
            ),
    {
        match code {
            201 => Ok(ServerStatus::Initializing),
            202 => Ok(ServerStatus::PreTransfer),
            203 => Ok(ServerStatus::Transferring),
            204 => Ok(ServerStatus::PreFinish),
            205 => Ok(ServerStatus::Finishing),
            206 => Ok(ServerStatus::Finished),
            _ => Err(DecodeError::UnrecognizedCode { code }),
        }
    }

    /// The position of this status along the migration chain, from 0 for
    /// Initializing up to 5 for Finished.
    pub open spec fn spec_rank(self) -> int {
        match self {
            ServerStatus::Initializing => 0,
            ServerStatus::PreTransfer => 1,
            ServerStatus::Transferring => 2,
            ServerStatus::PreFinish => 3,
            ServerStatus::Finishing => 4,
            ServerStatus::Finished => 5,
        }
    }

    /// The position of this status along the migration chain.
    pub fn rank(self) -> (r: usize)
        ensures
            r == self.spec_rank(),
    {
        match self {
            ServerStatus::Initializing => 0,
            ServerStatus::PreTransfer => 1,
            ServerStatus::Transferring => 2,
            ServerStatus::PreFinish => 3,
            ServerStatus::Finishing => 4,
            ServerStatus::Finished => 5,
        }
    }

    /// The single permitted successor of this status, or None for the final
    /// status Finished.
    pub open spec fn spec_next(self) -> Option<ServerStatus> {
        match self {
            ServerStatus::Initializing => Some(ServerStatus::PreTransfer),
            ServerStatus::PreTransfer => Some(ServerStatus::Transferring),
            ServerStatus::Transferring => Some(ServerStatus::PreFinish),
            ServerStatus::PreFinish => Some(ServerStatus::Finishing),
            ServerStatus::Finishing => Some(ServerStatus::Finished),
            ServerStatus::Finished => None,
        }
    }

    /// The single permitted successor of this status.
    pub fn next(self) -> (r: Option<ServerStatus>)
        ensures
            r == self.spec_next(),
    {
        match self {
            ServerStatus::Initializing => Some(ServerStatus::PreTransfer),
            ServerStatus::PreTransfer => Some(ServerStatus::Transferring),
            ServerStatus::Transferring => Some(ServerStatus::PreFinish),
            ServerStatus::PreFinish => Some(ServerStatus::Finishing),
            ServerStatus::Finishing => Some(ServerStatus::Finished),
            ServerStatus::Finished => None,
        }
    }

    /// Whether moving from this status to `to` follows the migration chain
    /// one step forward.
    pub open spec fn spec_step_allowed(self, to: ServerStatus) -> bool {
        self.spec_next() == Some(to)
    }

    /// Apply a requested status update. Exactly the single forward step along
    /// Initializing, PreTransfer, Transferring, PreFinish, Finishing,
    /// Finished is accepted; every other request is rejected unchanged.
    pub fn apply_update(self, requested: ServerStatus) -> (r: Result<
        ServerStatus,
        ClusterError,
    >)
        ensures
            self.spec_step_allowed(requested) ==> r == Ok::<ServerStatus, ClusterError>(
                requested,
            ),
            !self.spec_step_allowed(requested) ==> r == Err::<ServerStatus, ClusterError>(
                ClusterError::InvalidTransition,
            ),
    {
        match self.next() {
            Some(n) => {
                if n == requested {
                    Ok(requested)
                } else {
                    Err(ClusterError::InvalidTransition)
                }
            },
            None => Err(ClusterError::InvalidTransition),
        }
    }

    /// The display name of this status.
    pub fn name(&self) -> (r: String)
        ensures
            self is Initializing ==> r@ == "Init"@,
            self is PreTransfer ==> r@ == "PreTransfer"@,
            self is Transferring ==> r@ == "Transferring"@,
            self is PreFinish ==> r@ == "PreFinish"@,
            self is Finishing ==> r@ == "Finish"@,
            self is Finished ==> r@ == "CloseNodes"@,
    {
        match self {
            ServerStatus::Initializing => "Init".to_owned(),
            ServerStatus::PreTransfer => "PreTransfer".to_owned(),
            ServerStatus::Transferring => "Transferring".to_owned(),
            ServerStatus::PreFinish => "PreFinish".to_owned(),
            ServerStatus::Finishing => "Finish".to_owned(),
            ServerStatus::Finished => "CloseNodes".to_owned(),
        }
    }
}

/// Law: a server status never regresses and never skips: an accepted update
/// is exactly the one whose rank is one above the current rank, and both
/// decode and the rank are injective, so `decode(encode(s)) == s`.
pub proof fn lemma_server_status_forward_only(from: ServerStatus, to: ServerStatus)
    ensures
        from.spec_step_allowed(to) <==> to.spec_rank() == from.spec_rank() + 1,
        201 <= from.spec_encode() <= 206,
        forall|j: ServerStatus| from.spec_encode() == j.spec_encode() ==> from == j,
{
}

/// The cluster-wide orchestration state. Idle is the only state that accepts
/// a new membership-change request; StatusError is the absorbing terminal
/// state on unrecoverable failure.
#[derive(Clone, Copy, PartialEq, Eq, Structural, Debug)]
pub enum ClusterStatus {
    Initializing,
    Idle,
    NodesStarting,
    SyncNewHashRing,
    PreTransfer,
    Transferring,
    PreFinish,
    Finishing,
    StatusError,
}

impl ClusterStatus {
    /// The wire integer of this status.
    pub open spec fn spec_encode(self) -> u32 {
        match self {
            ClusterStatus::Initializing => 300,
            ClusterStatus::Idle => 301,
            ClusterStatus::NodesStarting => 302,
            ClusterStatus::SyncNewHashRing => 303,
            ClusterStatus::PreTransfer => 304,
            ClusterStatus::Transferring => 305,
            ClusterStatus::PreFinish => 306,
            ClusterStatus::Finishing => 307,
            ClusterStatus::StatusError => 308,
        }
    }

    /// Encode this status as its wire integer.
    pub fn encode(self) -> (code: u32)
        ensures
            code == self.spec_encode(),
            300 <= code <= 308,
    {
        match self {
            ClusterStatus::Initializing => 300,
            ClusterStatus::Idle => 301,
            ClusterStatus::NodesStarting => 302,
            ClusterStatus::SyncNewHashRing => 303,
            ClusterStatus::PreTransfer => 304,
            ClusterStatus::Transferring => 305,
            ClusterStatus::PreFinish => 306,
            ClusterStatus::Finishing => 307,
            ClusterStatus::StatusError => 308,
        }
    }

    /// Decode a wire integer into a cluster status. Succeeds exactly on the
    /// declared range 300 through 308, and the result encodes back to the
    /// input.
    pub fn decode(code: u32) -> (r: Result<ClusterStatus, DecodeError>)
        ensures
            300 <= code <= 308 ==> (r matches Ok(s) && s.spec_encode() == code),
            !(300 <= code <= 308) ==> r == Err::<ClusterStatus, DecodeError>(
                DecodeError::UnrecognizedCode { code },
            ),
    {
        match code {
            300 => Ok(ClusterStatus::Initializing),
            301 => Ok(ClusterStatus::Idle),
            302 => Ok(ClusterStatus::NodesStarting),
            303 => Ok(ClusterStatus::SyncNewHashRing),
            304 => Ok(ClusterStatus::PreTransfer),
            305 => Ok(ClusterStatus::Transferring),
            306 => Ok(ClusterStatus::PreFinish),
            307 => Ok(ClusterStatus::Finishing),
            308 => Ok(ClusterStatus::StatusError),
            _ => Err(DecodeError::UnrecognizedCode { code }),
        }
    }

    /// Decode a signed wire integer into a cluster status, as some peers
    /// carry the code in a signed field.
    pub fn decode_i32(code: i32) -> (r: Result<ClusterStatus, DecodeError>)
        ensures
            300 <= code <= 308 ==> (r matches Ok(s) && s.spec_encode() == code),
            !(300 <= code <= 308) ==> (r matches Err(e) && e matches DecodeError::UnrecognizedCode {
                code: _,
            }),
    {
        if 0 <= code {
            ClusterStatus::decode(code as u32)
        } else {
            Err(DecodeError::UnrecognizedCode { code: 0 })
        }
    }

    /// Whether this status marks a rebalance in progress: every state other
    /// than Initializing, Idle and StatusError.
    pub open spec fn spec_rebalancing(self) -> bool {
        match self {
            ClusterStatus::NodesStarting
            | ClusterStatus::SyncNewHashRing
            | ClusterStatus::PreTransfer
            | ClusterStatus::Transferring
            | ClusterStatus::PreFinish
            | ClusterStatus::Finishing => true,
            _ => false,
        }
    }

    /// Whether this status marks a rebalance in progress.
    pub fn rebalancing(self) -> (r: bool)
        ensures
            r == self.spec_rebalancing(),
    {
        match self {
            ClusterStatus::NodesStarting
            | ClusterStatus::SyncNewHashRing
            | ClusterStatus::PreTransfer
            | ClusterStatus::Transferring
            | ClusterStatus::PreFinish
            | ClusterStatus::Finishing => true,
            _ => false,
        }
    }

    /// The display name of this status.
    pub fn name(&self) -> (r: String)
        ensures
            self is Initializing ==> r@ == "Init"@,
            self is Idle ==> r@ == "Idle"@,
            self is NodesStarting ==> r@ == "AddNodes"@,
            self is SyncNewHashRing ==> r@ == "SyncNewHashRing"@,
            self is PreTransfer ==> r@ == "PreTransfer"@,
            self is Transferring ==> r@ == "Transferring"@,
            self is PreFinish ==> r@ == "PreFinish"@,
            self is Finishing ==> r@ == "DeleteNodes"@,
            self is StatusError ==> r@ == "StatusError"@,
    {
        match self {
            ClusterStatus::Initializing => "Init".to_owned(),
            ClusterStatus::Idle => "Idle".to_owned(),
            ClusterStatus::NodesStarting => "AddNodes".to_owned(),
            ClusterStatus::SyncNewHashRing => "SyncNewHashRing".to_owned(),
            ClusterStatus::PreTransfer => "PreTransfer".to_owned(),
            ClusterStatus::Transferring => "Transferring".to_owned(),
            ClusterStatus::PreFinish => "PreFinish".to_owned(),
            ClusterStatus::Finishing => "DeleteNodes".to_owned(),
            ClusterStatus::StatusError => "StatusError".to_owned(),
        }
    }
}

/// Law: the cluster-status wire codes are injective, so
/// `decode(encode(s)) == s` for every declared cluster status.
pub proof fn lemma_cluster_status_round_trip(s: ClusterStatus)
    ensures
        300 <= s.spec_encode() <= 308,
        forall|j: ClusterStatus| s.spec_encode() == j.spec_encode() ==> s == j,
{
}

} // verus!
