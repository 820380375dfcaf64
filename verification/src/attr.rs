//! The fixed-layout inode attribute record and its wire codec, together with
//! the write-only projections onto the POSIX stat and statx layouts.
//!
//! The record travels as exactly 78 bytes: size, block count and the four
//! timestamps as 64-bit little-endian integers (timestamps in seconds since
//! the epoch), then kind (32-bit), permission bits (16-bit), and link count,
//! uid, gid, device id, flags and preferred block size (32-bit each).
//! Decoding a buffer of any other length fails with a length-mismatch error
//! carrying the expected and actual sizes; it never truncates or pads.

use vstd::bytes::{
    spec_u16_from_le_bytes, spec_u16_to_le_bytes, spec_u32_from_le_bytes, spec_u32_to_le_bytes,
    spec_u64_from_le_bytes, spec_u64_to_le_bytes,
};
use vstd::prelude::*;

use crate::codec::{get_u16, get_u32, get_u64, put_u16, put_u32, put_u64};
use crate::errors::DecodeError;
use crate::ops::FileTypeSimple;

verus! {

/// The exact wire size of an attribute record.
pub const ATTR_WIRE_SIZE: usize = 78;

/// The file-kind bits of a POSIX mode word, for each of the seven kinds.
pub const MODE_KIND_FIFO: u32 = 0o010000;

pub const MODE_KIND_CHAR_DEVICE: u32 = 0o020000;

pub const MODE_KIND_DIRECTORY: u32 = 0o040000;

pub const MODE_KIND_BLOCK_DEVICE: u32 = 0o060000;

pub const MODE_KIND_REGULAR: u32 = 0o100000;

pub const MODE_KIND_SYMLINK: u32 = 0o120000;

pub const MODE_KIND_SOCKET: u32 = 0o140000;

/// One inode's metadata as carried on the wire. Timestamps are seconds since
/// the epoch; `kind` holds the attribute-record kind number of one of the
/// seven closed inode kinds.
#[derive(Clone, Copy, PartialEq, Eq, Structural, Debug)]
pub struct FileAttrSimple {
    pub size: u64,
    pub blocks: u64,
    pub atime: u64,
    pub mtime: u64,
    pub ctime: u64,
    pub crtime: u64,
    pub kind: u32,
    pub perm: u16,
    pub nlink: u32,
    pub uid: u32,
    pub gid: u32,
    pub rdev: u32,
    pub flags: u32,
    pub blksize: u32,
}

impl FileAttrSimple {
    /// Whether the record is well formed: its kind is one of the seven
    /// closed variants.
    pub open spec fn wf(self) -> bool {
        self.kind <= 6
    }

    /// The exact 78-byte wire encoding of this record.
    pub open spec fn spec_encode(self) -> Seq<u8> {
        spec_u64_to_le_bytes(self.size) + spec_u64_to_le_bytes(self.blocks)
            + spec_u64_to_le_bytes(self.atime) + spec_u64_to_le_bytes(self.mtime)
            + spec_u64_to_le_bytes(self.ctime) + spec_u64_to_le_bytes(self.crtime)
            + spec_u32_to_le_bytes(self.kind) + spec_u16_to_le_bytes(self.perm)
            + spec_u32_to_le_bytes(self.nlink) + spec_u32_to_le_bytes(self.uid)
            + spec_u32_to_le_bytes(self.gid) + spec_u32_to_le_bytes(self.rdev)
            + spec_u32_to_le_bytes(self.flags) + spec_u32_to_le_bytes(self.blksize)
    }

    /// The record read back from a 78-byte buffer, field by field.
    pub open spec fn spec_decode(b: Seq<u8>) -> FileAttrSimple {
        FileAttrSimple {
            size: spec_u64_from_le_bytes(b.subrange(0, 8)),
            blocks: spec_u64_from_le_bytes(b.subrange(8, 16)),
            atime: spec_u64_from_le_bytes(b.subrange(16, 24)),
            mtime: spec_u64_from_le_bytes(b.subrange(24, 32)),
            ctime: spec_u64_from_le_bytes(b.subrange(32, 40)),
            crtime: spec_u64_from_le_bytes(b.subrange(40, 48)),
            kind: spec_u32_from_le_bytes(b.subrange(48, 52)),
            perm: spec_u16_from_le_bytes(b.subrange(52, 54)),
            nlink: spec_u32_from_le_bytes(b.subrange(54, 58)),
            uid: spec_u32_from_le_bytes(b.subrange(58, 62)),
            gid: spec_u32_from_le_bytes(b.subrange(62, 66)),
            rdev: spec_u32_from_le_bytes(b.subrange(66, 70)),
            flags: spec_u32_from_le_bytes(b.subrange(70, 74)),
            blksize: spec_u32_from_le_bytes(b.subrange(74, 78)),
        }
    }

    /// A freshly created record of the given kind: size 4096 for a
    /// directory, zero for every other kind, and zero in every other field.
    pub fn new(kind: FileTypeSimple) -> (r: FileAttrSimple)
        ensures
            r.kind == kind.spec_attr_kind(),
            r.size == if kind is Directory { 4096int } else { 0int },
            r.blocks == 0 && r.atime == 0 && r.mtime == 0 && r.ctime == 0 && r.crtime == 0,
            r.perm == 0 && r.nlink == 0 && r.uid == 0 && r.gid == 0,
            r.rdev == 0 && r.flags == 0 && r.blksize == 0,
            r.wf(),
    {
        let size: u64 = match kind {
            FileTypeSimple::Directory => 4096,
            _ => 0,
        };
        FileAttrSimple {
            size,
            blocks: 0,
            atime: 0,
            mtime: 0,
            ctime: 0,
            crtime: 0,
            kind: kind.attr_kind(),
            perm: 0,
            nlink: 0,
            uid: 0,
            gid: 0,
            rdev: 0,
            flags: 0,
            blksize: 0,
        }
    }

    /// Encode this record as its exact fixed-size wire bytes.
    pub fn encode(&self) -> (r: Vec<u8>)
        ensures
            r@ == self.spec_encode(),
            r@.len() == ATTR_WIRE_SIZE,
    {
        proof {
            vstd::bytes::lemma_auto_spec_u16_to_from_le_bytes();
            vstd::bytes::lemma_auto_spec_u32_to_from_le_bytes();
            vstd::bytes::lemma_auto_spec_u64_to_from_le_bytes();
        }
        let mut out: Vec<u8> = Vec::new();
        put_u64(&mut out, self.size);
        put_u64(&mut out, self.blocks);
        put_u64(&mut out, self.atime);
        put_u64(&mut out, self.mtime);
        put_u64(&mut out, self.ctime);
        put_u64(&mut out, self.crtime);
        put_u32(&mut out, self.kind);
        put_u16(&mut out, self.perm);
        put_u32(&mut out, self.nlink);
        put_u32(&mut out, self.uid);
        put_u32(&mut out, self.gid);
        put_u32(&mut out, self.rdev);
        put_u32(&mut out, self.flags);
        put_u32(&mut out, self.blksize);
        out
    }

    /// Decode a record from its exact fixed-size wire bytes. A buffer of any
    /// other length fails with a length mismatch carrying the expected and
    /// actual sizes.
    pub fn decode(b: &[u8]) -> (r: Result<FileAttrSimple, DecodeError>)
        ensures
            b@.len() == ATTR_WIRE_SIZE ==> r == Ok::<FileAttrSimple, DecodeError>(
                FileAttrSimple::spec_decode(b@),
            ),
            b@.len() != ATTR_WIRE_SIZE ==> (r matches Err(e) && e == (DecodeError::LengthMismatch {
                expected: ATTR_WIRE_SIZE,
                actual: b@.len() as usize,
            })),
    {
        if b.len() != ATTR_WIRE_SIZE {
            return Err(DecodeError::LengthMismatch { expected: ATTR_WIRE_SIZE, actual: b.len() });
        }
        Ok(
            FileAttrSimple {
                size: get_u64(b, 0),
                blocks: get_u64(b, 8),
                atime: get_u64(b, 16),
                mtime: get_u64(b, 24),
                ctime: get_u64(b, 32),
                crtime: get_u64(b, 40),
                kind: get_u32(b, 48),
                perm: get_u16(b, 52),
                nlink: get_u32(b, 54),
                uid: get_u32(b, 58),
                gid: get_u32(b, 62),
                rdev: get_u32(b, 66),
                flags: get_u32(b, 70),
                blksize: get_u32(b, 74),
            },
        )
    }
}

impl Default for FileAttrSimple {
    /// A freshly created regular-file record: zero in every field except the
    /// kind number of a regular file.
    fn default() -> (r: FileAttrSimple)
        ensures
            r == FileAttrSimple::new_spec_default(),
    {
        FileAttrSimple::new(FileTypeSimple::RegularFile)
    }
}

impl FileAttrSimple {
    /// The freshly created regular-file record that `default` returns.
    pub open spec fn new_spec_default() -> FileAttrSimple {
        FileAttrSimple {
            size: 0,
            blocks: 0,
            atime: 0,
            mtime: 0,
            ctime: 0,
            crtime: 0,
            kind: 4,
            perm: 0,
            nlink: 0,
            uid: 0,
            gid: 0,
            rdev: 0,
            flags: 0,
            blksize: 0,
        }
    }
}

/// Law: the attribute-record codec round-trips: decoding the encoding of any
/// record gives back the record, field for field.
pub proof fn lemma_attr_round_trip(a: FileAttrSimple)
    ensures
        a.spec_encode().len() == ATTR_WIRE_SIZE,
        FileAttrSimple::spec_decode(a.spec_encode()) == a,
{
    vstd::bytes::lemma_auto_spec_u16_to_from_le_bytes();
    vstd::bytes::lemma_auto_spec_u32_to_from_le_bytes();
    vstd::bytes::lemma_auto_spec_u64_to_from_le_bytes();
    let b = a.spec_encode();
    assert(b.subrange(0, 8) =~= spec_u64_to_le_bytes(a.size));
    assert(b.subrange(8, 16) =~= spec_u64_to_le_bytes(a.blocks));
    assert(b.subrange(16, 24) =~= spec_u64_to_le_bytes(a.atime));
    assert(b.subrange(24, 32) =~= spec_u64_to_le_bytes(a.mtime));
    assert(b.subrange(32, 40) =~= spec_u64_to_le_bytes(a.ctime));
    assert(b.subrange(40, 48) =~= spec_u64_to_le_bytes(a.crtime));
    assert(b.subrange(48, 52) =~= spec_u32_to_le_bytes(a.kind));
    assert(b.subrange(52, 54) =~= spec_u16_to_le_bytes(a.perm));
    assert(b.subrange(54, 58) =~= spec_u32_to_le_bytes(a.nlink));
    assert(b.subrange(58, 62) =~= spec_u32_to_le_bytes(a.uid));
    assert(b.subrange(62, 66) =~= spec_u32_to_le_bytes(a.gid));
    assert(b.subrange(66, 70) =~= spec_u32_to_le_bytes(a.rdev));
    assert(b.subrange(70, 74) =~= spec_u32_to_le_bytes(a.flags));
    assert(b.subrange(74, 78) =~= spec_u32_to_le_bytes(a.blksize));
}

/// The POSIX stat layout that answers kernel metadata queries. Device id and
/// inode number are always zero: they are assigned by the receiving layer,
/// not carried on the wire. This projection is write-only.
#[derive(Clone, Copy, PartialEq, Eq, Structural, Debug)]
pub struct StatProjection {
    pub st_dev: u64,
    pub st_ino: u64,
    pub st_mode: u32,
    pub st_nlink: u64,
    pub st_uid: u32,
    pub st_gid: u32,
    pub st_rdev: u64,
    pub st_size: i64,
    pub st_blksize: i64,
    pub st_blocks: i64,
    pub st_atime: i64,
    pub st_atime_nsec: i64,
    pub st_mtime: i64,
    pub st_mtime_nsec: i64,
    pub st_ctime: i64,
    pub st_ctime_nsec: i64,
}

/// The POSIX statx layout that answers extended kernel metadata queries.
/// The mask and inode number are always zero; the birth timestamp is not
/// carried. This projection is write-only.
#[derive(Clone, Copy, PartialEq, Eq, Structural, Debug)]
pub struct StatxProjection {
    pub stx_mask: u32,
    pub stx_ino: u64,
    pub stx_mode: u16,
    pub stx_nlink: u32,
    pub stx_uid: u32,
    pub stx_gid: u32,
    pub stx_size: u64,
    pub stx_blksize: u32,
    pub stx_blocks: u64,
    pub stx_atime_sec: i64,
    pub stx_btime_sec: i64,
    pub stx_mtime_sec: i64,
    pub stx_ctime_sec: i64,
}

/// The file-kind bits of the POSIX mode word for one inode kind.
pub open spec fn spec_mode_kind_bits(k: FileTypeSimple) -> u32 {
    match k {
        FileTypeSimple::NamedPipe => MODE_KIND_FIFO,
        FileTypeSimple::CharDevice => MODE_KIND_CHAR_DEVICE,
        FileTypeSimple::BlockDevice => MODE_KIND_BLOCK_DEVICE,
        FileTypeSimple::Directory => MODE_KIND_DIRECTORY,
        FileTypeSimple::RegularFile => MODE_KIND_REGULAR,
        FileTypeSimple::Symlink => MODE_KIND_SYMLINK,
        FileTypeSimple::Socket => MODE_KIND_SOCKET,
    }
}

/// The file-kind bits of the POSIX mode word for one inode kind.
pub fn mode_kind_bits(k: FileTypeSimple) -> (r: u32)
    ensures
        r == spec_mode_kind_bits(k),
{
    match k {
        FileTypeSimple::NamedPipe => MODE_KIND_FIFO,
        FileTypeSimple::CharDevice => MODE_KIND_CHAR_DEVICE,
        FileTypeSimple::BlockDevice => MODE_KIND_BLOCK_DEVICE,
        FileTypeSimple::Directory => MODE_KIND_DIRECTORY,
        FileTypeSimple::RegularFile => MODE_KIND_REGULAR,
        FileTypeSimple::Symlink => MODE_KIND_SYMLINK,
        FileTypeSimple::Socket => MODE_KIND_SOCKET,
    }
}

impl FileAttrSimple {
    /// Project this record onto the POSIX stat layout: device id and inode
    /// number zero, mode the bitwise-or of the kind bits and the permission
    /// bits, and every timestamp split into whole seconds with a zero
    /// nanosecond part. Fails when the record's kind number is not one of
    /// the seven closed variants.
    pub fn to_stat(&self) -> (r: Result<StatProjection, DecodeError>)
        ensures
            self.wf() ==> (r matches Ok(s) && {
                &&& s.st_dev == 0 && s.st_ino == 0
                &&& exists|k: FileTypeSimple|
                    k.spec_attr_kind() == self.kind && s.st_mode == (spec_mode_kind_bits(k) | (
                    self.perm as u32))
                &&& s.st_nlink == self.nlink as u64
                &&& s.st_uid == self.uid && s.st_gid == self.gid
                &&& s.st_rdev == self.rdev as u64
                &&& s.st_size == self.size as i64
                &&& s.st_blksize == self.blksize as i64
                &&& s.st_blocks == self.blocks as i64
                &&& s.st_atime == self.atime as i64 && s.st_atime_nsec == 0
                &&& s.st_mtime == self.mtime as i64 && s.st_mtime_nsec == 0
                &&& s.st_ctime == self.ctime as i64 && s.st_ctime_nsec == 0
            }),
            !self.wf() ==> r == Err::<StatProjection, DecodeError>(
                DecodeError::UnrecognizedCode { code: self.kind },
            ),
    {
        let kind = match FileTypeSimple::from_attr_kind(self.kind) {
            Ok(k) => k,
            Err(e) => {
                return Err(e);
            },
        };
        Ok(
            StatProjection {
                st_dev: 0,
                st_ino: 0,
                st_mode: mode_kind_bits(kind) | (self.perm as u32),
                st_nlink: self.nlink as u64,
                st_uid: self.uid,
                st_gid: self.gid,
                st_rdev: self.rdev as u64,
                st_size: self.size as i64,
                st_blksize: self.blksize as i64,
                st_blocks: self.blocks as i64,
                st_atime: self.atime as i64,
                st_atime_nsec: 0,
                st_mtime: self.mtime as i64,
                st_mtime_nsec: 0,
                st_ctime: self.ctime as i64,
                st_ctime_nsec: 0,
            },
        )
    }

    /// Project this record onto the POSIX statx layout: mask and inode
    /// number zero, mode the bitwise-or of the kind bits and the permission
    /// bits in a 16-bit field, timestamps as whole seconds, and a zero birth
    /// timestamp. Fails when the record's kind number is not one of the
    /// seven closed variants.
    pub fn to_statx(&self) -> (r: Result<StatxProjection, DecodeError>)
        ensures
            self.wf() ==> (r matches Ok(s) && {
                &&& s.stx_mask == 0 && s.stx_ino == 0
                &&& exists|k: FileTypeSimple|
                    k.spec_attr_kind() == self.kind && s.stx_mode == ((spec_mode_kind_bits(k)
                        as u16) | self.perm)
                &&& s.stx_nlink == self.nlink
                &&& s.stx_uid == self.uid && s.stx_gid == self.gid
                &&& s.stx_size == self.size
                &&& s.stx_blksize == self.blksize
                &&& s.stx_blocks == self.blocks as u64
                &&& s.stx_atime_sec == self.atime as i64
                &&& s.stx_btime_sec == 0
                &&& s.stx_mtime_sec == self.mtime as i64
                &&& s.stx_ctime_sec == self.ctime as i64
            }),
            !self.wf() ==> r == Err::<StatxProjection, DecodeError>(
                DecodeError::UnrecognizedCode { code: self.kind },
            ),
    {
        let kind = match FileTypeSimple::from_attr_kind(self.kind) {
            Ok(k) => k,
            Err(e) => {
                return Err(e);
            },
        };
        Ok(
            StatxProjection {
                stx_mask: 0,
                stx_ino: 0,
                stx_mode: (mode_kind_bits(kind) as u16) | self.perm,
                stx_nlink: self.nlink,
                stx_uid: self.uid,
                stx_gid: self.gid,
                stx_size: self.size,
                stx_blksize: self.blksize,
                stx_blocks: self.blocks as u64,
                stx_atime_sec: self.atime as i64,
                stx_btime_sec: 0,
                stx_mtime_sec: self.mtime as i64,
                stx_ctime_sec: self.ctime as i64,
            },
        )
    }
}

} // verus!
