//! Control-plane protocol and on-wire metadata encoding for a hash-ring
//! sharded, POSIX-like distributed filesystem.
//!
//! The crate covers the wire-level operation taxonomy (filesystem and manager
//! opcodes), the fixed-layout binary codec for inode attribute records and
//! operation payloads, the directory-entry model, the per-server and
//! cluster-wide migration state machines that drive safe node addition and
//! removal, and the volume capacity ledger.

pub mod attr;
pub mod cluster;
pub mod codec;
pub mod dir;
pub mod errors;
pub mod ops;
pub mod payload;
pub mod status;
pub mod volume;
