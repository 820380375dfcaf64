//! Operation payloads: the typed request and response bodies that follow the
//! opcode on the wire, each with its fixed little-endian layout and, where a
//! name travels along, a length-prefixed string.
//!
//! Every decode rejects a buffer whose length does not match the layout
//! exactly: fixed layouts fail with a length mismatch carrying the expected
//! and actual sizes, and a length prefix that would run past the buffer end
//! fails with a truncation error.

use vstd::bytes::{spec_u32_from_le_bytes, spec_u32_to_le_bytes, spec_u64_from_le_bytes,
    spec_u64_to_le_bytes};
use vstd::prelude::*;
use vstd::utf8::{encode_utf8, encode_utf8_decode_utf8, encode_utf8_valid_utf8};

use crate::attr::{FileAttrSimple, ATTR_WIRE_SIZE};
use crate::codec::{
    get_i32, get_i64, get_string, get_u32, get_u64, get_u8, lemma_i32_le_round_trip,
    lemma_i64_le_round_trip, put_i32, put_i64, put_string, put_u32, put_u64, put_u8,
    spec_i32_from_le_bytes, spec_i32_to_le_bytes, spec_i64_from_le_bytes, spec_i64_to_le_bytes,
    spec_string_field_chars, spec_string_field_err, spec_string_field_ok, spec_string_field_size,
    spec_string_to_bytes,
};
use crate::errors::DecodeError;
use crate::status::{ClusterStatus, ServerStatus};

verus! {

/// The request body of a file read or a directory read: a starting offset
/// and a byte count.
#[derive(Clone, Copy, PartialEq, Eq, Structural, Debug)]
pub struct ReadFileSendMetaData {
    pub offset: i64,
    pub size: u32,
}

impl ReadFileSendMetaData {
    /// The exact 12-byte wire encoding of this body.
    pub open spec fn spec_encode(self) -> Seq<u8> {
        spec_i64_to_le_bytes(self.offset) + spec_u32_to_le_bytes(self.size)
    }

    /// The body read back from a 12-byte buffer.
    pub open spec fn spec_decode(b: Seq<u8>) -> ReadFileSendMetaData {
        ReadFileSendMetaData {
            offset: spec_i64_from_le_bytes(b.subrange(0, 8)),
            size: spec_u32_from_le_bytes(b.subrange(8, 12)),
        }
    }

    /// Encode this body as its exact fixed-size wire bytes.
    pub fn encode(&self) -> (r: Vec<u8>)
        ensures
            r@ == self.spec_encode(),
            r@.len() == 12,
    {
        proof {
            vstd::bytes::lemma_auto_spec_u32_to_from_le_bytes();
            lemma_i64_le_round_trip(self.offset);
        }
        let mut out: Vec<u8> = Vec::new();
        put_i64(&mut out, self.offset);
        put_u32(&mut out, self.size);
        out
    }

    /// Decode a body from its exact fixed-size wire bytes; a buffer of any
    /// other length fails with a length mismatch.
    pub fn decode(b: &[u8]) -> (r: Result<ReadFileSendMetaData, DecodeError>)
        ensures
            b@.len() == 12 ==> r == Ok::<ReadFileSendMetaData, DecodeError>(
                ReadFileSendMetaData::spec_decode(b@),
            ),
            b@.len() != 12 ==> r == Err::<ReadFileSendMetaData, DecodeError>(
                DecodeError::LengthMismatch { expected: 12, actual: b@.len() as usize },
            ),
    {
        if b.len() != 12 {
            return Err(DecodeError::LengthMismatch { expected: 12, actual: b.len() });
        }
        Ok(ReadFileSendMetaData { offset: get_i64(b, 0), size: get_u32(b, 8) })
    }
}

/// Law: the read-request codec round-trips.
pub proof fn lemma_read_file_round_trip(m: ReadFileSendMetaData)
    ensures
        m.spec_encode().len() == 12,
        ReadFileSendMetaData::spec_decode(m.spec_encode()) == m,
{
    vstd::bytes::lemma_auto_spec_u32_to_from_le_bytes();
    lemma_i64_le_round_trip(m.offset);
    let b = m.spec_encode();
    assert(b.subrange(0, 8) =~= spec_i64_to_le_bytes(m.offset));
    assert(b.subrange(8, 12) =~= spec_u32_to_le_bytes(m.size));
}

/// The request body of a directory read: a starting offset and a byte count.
#[derive(Clone, Copy, PartialEq, Eq, Structural, Debug)]
pub struct ReadDirSendMetaData {
    pub offset: i64,
    pub size: u32,
}

impl ReadDirSendMetaData {
    /// The exact 12-byte wire encoding of this body.
    pub open spec fn spec_encode(self) -> Seq<u8> {
        spec_i64_to_le_bytes(self.offset) + spec_u32_to_le_bytes(self.size)
    }

    /// The body read back from a 12-byte buffer.
    pub open spec fn spec_decode(b: Seq<u8>) -> ReadDirSendMetaData {
        ReadDirSendMetaData {
            offset: spec_i64_from_le_bytes(b.subrange(0, 8)),
            size: spec_u32_from_le_bytes(b.subrange(8, 12)),
        }
    }

    /// Encode this body as its exact fixed-size wire bytes.
    pub fn encode(&self) -> (r: Vec<u8>)
        ensures
            r@ == self.spec_encode(),
            r@.len() == 12,
    {
        proof {
            vstd::bytes::lemma_auto_spec_u32_to_from_le_bytes();
            lemma_i64_le_round_trip(self.offset);
        }
        let mut out: Vec<u8> = Vec::new();
        put_i64(&mut out, self.offset);
        put_u32(&mut out, self.size);
        out
    }

    /// Decode a body from its exact fixed-size wire bytes; a buffer of any
    /// other length fails with a length mismatch.
    pub fn decode(b: &[u8]) -> (r: Result<ReadDirSendMetaData, DecodeError>)
        ensures
            b@.len() == 12 ==> r == Ok::<ReadDirSendMetaData, DecodeError>(
                ReadDirSendMetaData::spec_decode(b@),
            ),
            b@.len() != 12 ==> r == Err::<ReadDirSendMetaData, DecodeError>(
                DecodeError::LengthMismatch { expected: 12, actual: b@.len() as usize },
            ),
    {
        if b.len() != 12 {
            return Err(DecodeError::LengthMismatch { expected: 12, actual: b.len() });
        }
        Ok(ReadDirSendMetaData { offset: get_i64(b, 0), size: get_u32(b, 8) })
    }
}

/// Law: the directory-read request codec round-trips.
pub proof fn lemma_read_dir_round_trip(m: ReadDirSendMetaData)
    ensures
        m.spec_encode().len() == 12,
        ReadDirSendMetaData::spec_decode(m.spec_encode()) == m,
{
    vstd::bytes::lemma_auto_spec_u32_to_from_le_bytes();
    lemma_i64_le_round_trip(m.offset);
    let b = m.spec_encode();
    assert(b.subrange(0, 8) =~= spec_i64_to_le_bytes(m.offset));
    assert(b.subrange(8, 12) =~= spec_u32_to_le_bytes(m.size));
}

/// The fixed head of a file write: the offset at which the raw bytes that
/// follow it on the wire are written.
#[derive(Clone, Copy, PartialEq, Eq, Structural, Debug)]
pub struct WriteFileSendMetaData {
    pub offset: i64,
}

impl WriteFileSendMetaData {
    /// The exact 8-byte wire encoding of this head.
    pub open spec fn spec_encode(self) -> Seq<u8> {
        spec_i64_to_le_bytes(self.offset)
    }

    /// The head read back from an 8-byte buffer.
    pub open spec fn spec_decode(b: Seq<u8>) -> WriteFileSendMetaData {
        WriteFileSendMetaData { offset: spec_i64_from_le_bytes(b.subrange(0, 8)) }
    }

    /// Encode this head as its exact fixed-size wire bytes.
    pub fn encode(&self) -> (r: Vec<u8>)
        ensures
            r@ == self.spec_encode(),
            r@.len() == 8,
    {
        proof {
            lemma_i64_le_round_trip(self.offset);
        }
        let mut out: Vec<u8> = Vec::new();
        put_i64(&mut out, self.offset);
        out
    }

    /// Decode a head from its exact fixed-size wire bytes; a buffer of any
    /// other length fails with a length mismatch.
    pub fn decode(b: &[u8]) -> (r: Result<WriteFileSendMetaData, DecodeError>)
        ensures
            b@.len() == 8 ==> r == Ok::<WriteFileSendMetaData, DecodeError>(
                WriteFileSendMetaData::spec_decode(b@),
            ),
            b@.len() != 8 ==> r == Err::<WriteFileSendMetaData, DecodeError>(
                DecodeError::LengthMismatch { expected: 8, actual: b@.len() as usize },
            ),
    {
        if b.len() != 8 {
            return Err(DecodeError::LengthMismatch { expected: 8, actual: b.len() });
        }
        Ok(WriteFileSendMetaData { offset: get_i64(b, 0) })
    }
}

/// Law: the write-head codec round-trips.
pub proof fn lemma_write_file_round_trip(m: WriteFileSendMetaData)
    ensures
        m.spec_encode().len() == 8,
        WriteFileSendMetaData::spec_decode(m.spec_encode()) == m,
{
    lemma_i64_le_round_trip(m.offset);
    let b = m.spec_encode();
    assert(b.subrange(0, 8) =~= spec_i64_to_le_bytes(m.offset));
}

/// The request body of a truncate: the new file length.
#[derive(Clone, Copy, PartialEq, Eq, Structural, Debug)]
pub struct TruncateFileSendMetaData {
    pub length: i64,
}

impl TruncateFileSendMetaData {
    /// The exact 8-byte wire encoding of this body.
    pub open spec fn spec_encode(self) -> Seq<u8> {
        spec_i64_to_le_bytes(self.length)
    }

    /// The body read back from an 8-byte buffer.
    pub open spec fn spec_decode(b: Seq<u8>) -> TruncateFileSendMetaData {
        TruncateFileSendMetaData { length: spec_i64_from_le_bytes(b.subrange(0, 8)) }
    }

    /// Encode this body as its exact fixed-size wire bytes.
    pub fn encode(&self) -> (r: Vec<u8>)
        ensures
            r@ == self.spec_encode(),
            r@.len() == 8,
    {
        proof {
            lemma_i64_le_round_trip(self.length);
        }
        let mut out: Vec<u8> = Vec::new();
        put_i64(&mut out, self.length);
        out
    }

    /// Decode a body from its exact fixed-size wire bytes; a buffer of any
    /// other length fails with a length mismatch.
    pub fn decode(b: &[u8]) -> (r: Result<TruncateFileSendMetaData, DecodeError>)
        ensures
            b@.len() == 8 ==> r == Ok::<TruncateFileSendMetaData, DecodeError>(
                TruncateFileSendMetaData::spec_decode(b@),
            ),
            b@.len() != 8 ==> r == Err::<TruncateFileSendMetaData, DecodeError>(
                DecodeError::LengthMismatch { expected: 8, actual: b@.len() as usize },
            ),
    {
        if b.len() != 8 {
            return Err(DecodeError::LengthMismatch { expected: 8, actual: b.len() });
        }
        Ok(TruncateFileSendMetaData { length: get_i64(b, 0) })
    }
}

/// Law: the truncate codec round-trips.
pub proof fn lemma_truncate_file_round_trip(m: TruncateFileSendMetaData)
    ensures
        m.spec_encode().len() == 8,
        TruncateFileSendMetaData::spec_decode(m.spec_encode()) == m,
{
    lemma_i64_le_round_trip(m.length);
    let b = m.spec_encode();
    assert(b.subrange(0, 8) =~= spec_i64_to_le_bytes(m.length));
}

/// The request body of an open: the open flags and the mode.
#[derive(Clone, Copy, PartialEq, Eq, Structural, Debug)]
pub struct OpenFileSendMetaData {
    pub flags: i32,
    pub mode: u32,
}

impl OpenFileSendMetaData {
    /// The exact 8-byte wire encoding of this body.
    pub open spec fn spec_encode(self) -> Seq<u8> {
        spec_i32_to_le_bytes(self.flags) + spec_u32_to_le_bytes(self.mode)
    }

    /// The body read back from an 8-byte buffer.
    pub open spec fn spec_decode(b: Seq<u8>) -> OpenFileSendMetaData {
        OpenFileSendMetaData {
            flags: spec_i32_from_le_bytes(b.subrange(0, 4)),
            mode: spec_u32_from_le_bytes(b.subrange(4, 8)),
        }
    }

    /// Encode this body as its exact fixed-size wire bytes.
    pub fn encode(&self) -> (r: Vec<u8>)
        ensures
            r@ == self.spec_encode(),
            r@.len() == 8,
    {
        proof {
            vstd::bytes::lemma_auto_spec_u32_to_from_le_bytes();
            lemma_i32_le_round_trip(self.flags);
        }
        let mut out: Vec<u8> = Vec::new();
        put_i32(&mut out, self.flags);
        put_u32(&mut out, self.mode);
        out
    }

    /// Decode a body from its exact fixed-size wire bytes; a buffer of any
    /// other length fails with a length mismatch.
    pub fn decode(b: &[u8]) -> (r: Result<OpenFileSendMetaData, DecodeError>)
        ensures
            b@.len() == 8 ==> r == Ok::<OpenFileSendMetaData, DecodeError>(
                OpenFileSendMetaData::spec_decode(b@),
            ),
            b@.len() != 8 ==> r == Err::<OpenFileSendMetaData, DecodeError>(
                DecodeError::LengthMismatch { expected: 8, actual: b@.len() as usize },
            ),
    {
        if b.len() != 8 {
            return Err(DecodeError::LengthMismatch { expected: 8, actual: b.len() });
        }
        Ok(OpenFileSendMetaData { flags: get_i32(b, 0), mode: get_u32(b, 4) })
    }
}

/// Law: the open-request codec round-trips.
pub proof fn lemma_open_file_round_trip(m: OpenFileSendMetaData)
    ensures
        m.spec_encode().len() == 8,
        OpenFileSendMetaData::spec_decode(m.spec_encode()) == m,
{
    vstd::bytes::lemma_auto_spec_u32_to_from_le_bytes();
    lemma_i32_le_round_trip(m.flags);
    let b = m.spec_encode();
    assert(b.subrange(0, 4) =~= spec_i32_to_le_bytes(m.flags));
    assert(b.subrange(4, 8) =~= spec_u32_to_le_bytes(m.mode));
}

/// The request body of a volume creation: the volume size in bytes.
#[derive(Clone, Copy, PartialEq, Eq, Structural, Debug)]
pub struct CreateVolumeSendMetaData {
    pub size: u64,
}

impl CreateVolumeSendMetaData {
    /// The exact 8-byte wire encoding of this body.
    pub open spec fn spec_encode(self) -> Seq<u8> {
        spec_u64_to_le_bytes(self.size)
    }

    /// The body read back from an 8-byte buffer.
    pub open spec fn spec_decode(b: Seq<u8>) -> CreateVolumeSendMetaData {
        CreateVolumeSendMetaData { size: spec_u64_from_le_bytes(b.subrange(0, 8)) }
    }

    /// Encode this body as its exact fixed-size wire bytes.
    pub fn encode(&self) -> (r: Vec<u8>)
        ensures
            r@ == self.spec_encode(),
            r@.len() == 8,
    {
        proof {
            vstd::bytes::lemma_auto_spec_u64_to_from_le_bytes();
        }
        let mut out: Vec<u8> = Vec::new();
        put_u64(&mut out, self.size);
        out
    }

    /// Decode a body from its exact fixed-size wire bytes; a buffer of any
    /// other length fails with a length mismatch.
    pub fn decode(b: &[u8]) -> (r: Result<CreateVolumeSendMetaData, DecodeError>)
        ensures
            b@.len() == 8 ==> r == Ok::<CreateVolumeSendMetaData, DecodeError>(
                CreateVolumeSendMetaData::spec_decode(b@),
            ),
            b@.len() != 8 ==> r == Err::<CreateVolumeSendMetaData, DecodeError>(
                DecodeError::LengthMismatch { expected: 8, actual: b@.len() as usize },
            ),
    {
        if b.len() != 8 {
            return Err(DecodeError::LengthMismatch { expected: 8, actual: b.len() });
        }
        Ok(CreateVolumeSendMetaData { size: get_u64(b, 0) })
    }
}

/// Law: the volume-creation codec round-trips.
pub proof fn lemma_create_volume_round_trip(m: CreateVolumeSendMetaData)
    ensures
        m.spec_encode().len() == 8,
        CreateVolumeSendMetaData::spec_decode(m.spec_encode()) == m,
{
    vstd::bytes::lemma_auto_spec_u64_to_from_le_bytes();
    let b = m.spec_encode();
    assert(b.subrange(0, 8) =~= spec_u64_to_le_bytes(m.size));
}

/// A heartbeat's self-reported server status.
#[derive(Clone, Copy, PartialEq, Eq, Structural, Debug)]
pub struct UpdateServerStatusSendMetaData {
    pub status: ServerStatus,
}

impl UpdateServerStatusSendMetaData {
    /// The exact 4-byte wire encoding of this body.
    pub open spec fn spec_encode(self) -> Seq<u8> {
        spec_u32_to_le_bytes(self.status.spec_encode())
    }

    /// Encode this body as its exact fixed-size wire bytes.
    pub fn encode(&self) -> (r: Vec<u8>)
        ensures
            r@ == self.spec_encode(),
            r@.len() == 4,
    {
        proof {
            vstd::bytes::lemma_auto_spec_u32_to_from_le_bytes();
        }
        let mut out: Vec<u8> = Vec::new();
        put_u32(&mut out, self.status.encode());
        out
    }

    /// Decode a body from its exact fixed-size wire bytes. Fails with a
    /// length mismatch on any other buffer length, and with an
    /// unrecognized-code failure when the carried integer is not a declared
    /// server status.
    pub fn decode(b: &[u8]) -> (r: Result<UpdateServerStatusSendMetaData, DecodeError>)
        ensures
            b@.len() != 4 ==> r == Err::<UpdateServerStatusSendMetaData, DecodeError>(
                DecodeError::LengthMismatch { expected: 4, actual: b@.len() as usize },
            ),
            b@.len() == 4 ==> {
                let code = spec_u32_from_le_bytes(b@.subrange(0, 4));
                &&& (201 <= code <= 206 ==> (r matches Ok(m) && m.status.spec_encode() == code))
                &&& (!(201 <= code <= 206) ==> r == Err::<
                    UpdateServerStatusSendMetaData,
                    DecodeError,
                >(DecodeError::UnrecognizedCode { code }))
            },
    {
        if b.len() != 4 {
            return Err(DecodeError::LengthMismatch { expected: 4, actual: b.len() });
        }
        let code = get_u32(b, 0);
        match ServerStatus::decode(code) {
            Ok(status) => Ok(UpdateServerStatusSendMetaData { status }),
            Err(e) => Err(e),
        }
    }
}

/// Law: the heartbeat-status codec round-trips: the encoding is 4 bytes and
/// carries exactly the status's wire code.
pub proof fn lemma_update_server_status_round_trip(m: UpdateServerStatusSendMetaData)
    ensures
        m.spec_encode().len() == 4,
        spec_u32_from_le_bytes(m.spec_encode().subrange(0, 4)) == m.status.spec_encode(),
{
    vstd::bytes::lemma_auto_spec_u32_to_from_le_bytes();
    let b = m.spec_encode();
    assert(b.subrange(0, 4) =~= spec_u32_to_le_bytes(m.status.spec_encode()));
}

/// The response body of a cluster-status query.
#[derive(Clone, Copy, PartialEq, Eq, Structural, Debug)]
pub struct GetClusterStatusRecvMetaData {
    pub status: ClusterStatus,
}

impl GetClusterStatusRecvMetaData {
    /// The exact 4-byte wire encoding of this body.
    pub open spec fn spec_encode(self) -> Seq<u8> {
        spec_u32_to_le_bytes(self.status.spec_encode())
    }

    /// Encode this body as its exact fixed-size wire bytes.
    pub fn encode(&self) -> (r: Vec<u8>)
        ensures
            r@ == self.spec_encode(),
            r@.len() == 4,
    {
        proof {
            vstd::bytes::lemma_auto_spec_u32_to_from_le_bytes();
        }
        let mut out: Vec<u8> = Vec::new();
        put_u32(&mut out, self.status.encode());
        out
    }

    /// Decode a body from its exact fixed-size wire bytes. Fails with a
    /// length mismatch on any other buffer length, and with an
    /// unrecognized-code failure when the carried integer is not a declared
    /// cluster status.
    pub fn decode(b: &[u8]) -> (r: Result<GetClusterStatusRecvMetaData, DecodeError>)
        ensures
            b@.len() != 4 ==> r == Err::<GetClusterStatusRecvMetaData, DecodeError>(
                DecodeError::LengthMismatch { expected: 4, actual: b@.len() as usize },
            ),
            b@.len() == 4 ==> {
                let code = spec_u32_from_le_bytes(b@.subrange(0, 4));
                &&& (300 <= code <= 308 ==> (r matches Ok(m) && m.status.spec_encode() == code))
                &&& (!(300 <= code <= 308) ==> r == Err::<
                    GetClusterStatusRecvMetaData,
                    DecodeError,
                >(DecodeError::UnrecognizedCode { code }))
            },
    {
        if b.len() != 4 {
            return Err(DecodeError::LengthMismatch { expected: 4, actual: b.len() });
        }
        let code = get_u32(b, 0);
        match ClusterStatus::decode(code) {
            Ok(status) => Ok(GetClusterStatusRecvMetaData { status }),
            Err(e) => Err(e),
        }
    }
}

/// Law: the cluster-status codec round-trips: the encoding is 4 bytes and
/// carries exactly the status's wire code.
pub proof fn lemma_get_cluster_status_round_trip(m: GetClusterStatusRecvMetaData)
    ensures
        m.spec_encode().len() == 4,
        spec_u32_from_le_bytes(m.spec_encode().subrange(0, 4)) == m.status.spec_encode(),
{
    vstd::bytes::lemma_auto_spec_u32_to_from_le_bytes();
    let b = m.spec_encode();
    assert(b.subrange(0, 4) =~= spec_u32_to_le_bytes(m.status.spec_encode()));
}

/// The request body of a file check: the full attribute record to compare.
#[derive(Clone, Copy, PartialEq, Eq, Structural, Debug)]
pub struct CheckFileSendMetaData {
    pub file_attr: FileAttrSimple,
}

impl CheckFileSendMetaData {
    /// The exact 78-byte wire encoding of this body: the record's own
    /// encoding.
    pub open spec fn spec_encode(self) -> Seq<u8> {
        self.file_attr.spec_encode()
    }

    /// Encode this body as its exact fixed-size wire bytes.
    pub fn encode(&self) -> (r: Vec<u8>)
        ensures
            r@ == self.spec_encode(),
            r@.len() == ATTR_WIRE_SIZE,
    {
        self.file_attr.encode()
    }

    /// Decode a body from its exact fixed-size wire bytes; a buffer of any
    /// other length fails with a length mismatch.
    pub fn decode(b: &[u8]) -> (r: Result<CheckFileSendMetaData, DecodeError>)
        ensures
            b@.len() == ATTR_WIRE_SIZE ==> r == Ok::<CheckFileSendMetaData, DecodeError>(
                CheckFileSendMetaData { file_attr: FileAttrSimple::spec_decode(b@) },
            ),
            b@.len() != ATTR_WIRE_SIZE ==> r == Err::<CheckFileSendMetaData, DecodeError>(
                DecodeError::LengthMismatch {
                    expected: ATTR_WIRE_SIZE,
                    actual: b@.len() as usize,
                },
            ),
    {
        match FileAttrSimple::decode(b) {
            Ok(file_attr) => Ok(CheckFileSendMetaData { file_attr }),
            Err(e) => Err(e),
        }
    }
}

/// The request body of a directory check: the full attribute record to
/// compare.
#[derive(Clone, Copy, PartialEq, Eq, Structural, Debug)]
pub struct CheckDirSendMetaData {
    pub file_attr: FileAttrSimple,
}

impl CheckDirSendMetaData {
    /// The exact 78-byte wire encoding of this body: the record's own
    /// encoding.
    pub open spec fn spec_encode(self) -> Seq<u8> {
        self.file_attr.spec_encode()
    }

    /// Encode this body as its exact fixed-size wire bytes.
    pub fn encode(&self) -> (r: Vec<u8>)
        ensures
            r@ == self.spec_encode(),
            r@.len() == ATTR_WIRE_SIZE,
    {
        self.file_attr.encode()
    }

    /// Decode a body from its exact fixed-size wire bytes; a buffer of any
    /// other length fails with a length mismatch.
    pub fn decode(b: &[u8]) -> (r: Result<CheckDirSendMetaData, DecodeError>)
        ensures
            b@.len() == ATTR_WIRE_SIZE ==> r == Ok::<CheckDirSendMetaData, DecodeError>(
                CheckDirSendMetaData { file_attr: FileAttrSimple::spec_decode(b@) },
            ),
            b@.len() != ATTR_WIRE_SIZE ==> r == Err::<CheckDirSendMetaData, DecodeError>(
                DecodeError::LengthMismatch {
                    expected: ATTR_WIRE_SIZE,
                    actual: b@.len() as usize,
                },
            ),
    {
        match FileAttrSimple::decode(b) {
            Ok(file_attr) => Ok(CheckDirSendMetaData { file_attr }),
            Err(e) => Err(e),
        }
    }
}

/// One directory entry as handed to the kernel listing interface: an inode
/// number, the offset of the next entry, the record length, and the entry
/// name as fixed-width bytes. It mirrors the kernel's own layout and is
/// filled by the serving layer, never decoded back.
#[derive(Clone, Copy)]
pub struct LinuxDirent {
    pub d_ino: u64,
    pub d_off: i64,
    pub d_reclen: u16,
    pub d_name: [i8; 256],
}

/// The request body of a directory-entry mutation: the entry's kind tag and
/// its name.
#[derive(Clone, PartialEq, Eq, Debug)]
pub struct DirectoryEntrySendMetaData {
    pub file_type: u8,
    pub file_name: String,
}

impl DirectoryEntrySendMetaData {
    /// The wire encoding of this body: the one-byte kind tag, then the name
    /// as a length-prefixed string.
    pub open spec fn spec_encode(self) -> Seq<u8> {
        seq![self.file_type] + spec_string_to_bytes(self.file_name@)
    }

    /// Whether a buffer is exactly one encoded directory-entry body.
    pub open spec fn spec_decode_ok(b: Seq<u8>) -> bool {
        &&& b.len() >= 1
        &&& spec_string_field_ok(b, 1)
        &&& 1 + spec_string_field_size(b, 1) == b.len()
    }

    /// Encode this body as its wire bytes.
    pub fn encode(&self) -> (r: Vec<u8>)
        requires
            encode_utf8(self.file_name@).len() <= u32::MAX,
        ensures
            r@ == self.spec_encode(),
    {
        let mut out: Vec<u8> = Vec::new();
        put_u8(&mut out, self.file_type);
        put_string(&mut out, self.file_name.as_str());
        proof {
            assert(out@ =~= self.spec_encode());
        }
        out
    }

    /// Decode a body from its wire bytes. Succeeds exactly on a buffer that
    /// is one whole encoded body; a short or overlong buffer, a name that
    /// runs past the end, and invalid UTF-8 each fail with their own error.
    pub fn decode(b: &[u8]) -> (r: Result<DirectoryEntrySendMetaData, DecodeError>)
        ensures
            Self::spec_decode_ok(b@) <==> r is Ok,
            r matches Ok(m) ==> m.file_type == b@[0] && m.file_name@ == spec_string_field_chars(
                b@,
                1,
            ),
            b@.len() < 1 ==> r == Err::<DirectoryEntrySendMetaData, DecodeError>(
                DecodeError::Truncated { needed: 1, remaining: 0 },
            ),
            b@.len() >= 1 && !spec_string_field_ok(b@, 1) ==> r == Err::<
                DirectoryEntrySendMetaData,
                DecodeError,
            >(spec_string_field_err(b@, 1)),
            b@.len() >= 1 && spec_string_field_ok(b@, 1) && 1 + spec_string_field_size(b@, 1)
                != b@.len() ==> r == Err::<DirectoryEntrySendMetaData, DecodeError>(
                DecodeError::LengthMismatch {
                    expected: (1 + spec_string_field_size(b@, 1)) as usize,
                    actual: b@.len() as usize,
                },
            ),
    {
        if b.len() < 1 {
            return Err(DecodeError::Truncated { needed: 1, remaining: 0 });
        }
        let file_type = get_u8(b, 0);
        let (file_name, consumed) = match get_string(b, 1) {
            Ok(x) => x,
            Err(e) => {
                return Err(e);
            },
        };
        if 1 + consumed != b.len() {
            return Err(
                DecodeError::LengthMismatch { expected: 1 + consumed, actual: b.len() },
            );
        }
        Ok(DirectoryEntrySendMetaData { file_type, file_name })
    }
}

/// Law: the directory-entry codec round-trips: the encoding of any body
/// whose name fits the length prefix decodes back to the same kind tag and
/// the same name.
pub proof fn lemma_directory_entry_round_trip(m: DirectoryEntrySendMetaData)
    requires
        encode_utf8(m.file_name@).len() <= u32::MAX,
    ensures
        DirectoryEntrySendMetaData::spec_decode_ok(m.spec_encode()),
        m.spec_encode()[0] == m.file_type,
        spec_string_field_chars(m.spec_encode(), 1) == m.file_name@,
{
    vstd::bytes::lemma_auto_spec_u32_to_from_le_bytes();
    encode_utf8_valid_utf8(m.file_name@);
    encode_utf8_decode_utf8(m.file_name@);
    let b = m.spec_encode();
    let nb = encode_utf8(m.file_name@);
    let n = nb.len() as u32;
    assert(b.subrange(1, 5) =~= spec_u32_to_le_bytes(n));
    assert(spec_string_field_size(b, 1) == 4 + n);
    assert(b.subrange(5, 5 + n) =~= nb);
}

/// The request body of a file creation: mode, umask, open flags, and the new
/// file's name.
#[derive(Clone, PartialEq, Eq, Debug)]
pub struct CreateFileSendMetaData {
    pub mode: u32,
    pub umask: u32,
    pub flags: i32,
    pub name: String,
}

impl CreateFileSendMetaData {
    /// The wire encoding of this body: mode, umask and flags as 32-bit
    /// little-endian fields, then the name as a length-prefixed string.
    pub open spec fn spec_encode(self) -> Seq<u8> {
        spec_u32_to_le_bytes(self.mode) + spec_u32_to_le_bytes(self.umask)
            + spec_i32_to_le_bytes(self.flags) + spec_string_to_bytes(self.name@)
    }

    /// Whether a buffer is exactly one encoded file-creation body.
    pub open spec fn spec_decode_ok(b: Seq<u8>) -> bool {
        &&& b.len() >= 12
        &&& spec_string_field_ok(b, 12)
        &&& 12 + spec_string_field_size(b, 12) == b.len()
    }

    /// Encode this body as its wire bytes.
    pub fn encode(&self) -> (r: Vec<u8>)
        requires
            encode_utf8(self.name@).len() <= u32::MAX,
        ensures
            r@ == self.spec_encode(),
    {
        let mut out: Vec<u8> = Vec::new();
        put_u32(&mut out, self.mode);
        put_u32(&mut out, self.umask);
        put_i32(&mut out, self.flags);
        put_string(&mut out, self.name.as_str());
        proof {
            assert(out@ =~= self.spec_encode());
        }
        out
    }

    /// Decode a body from its wire bytes. Succeeds exactly on a buffer that
    /// is one whole encoded body; a short or overlong buffer, a name that
    /// runs past the end, and invalid UTF-8 each fail with their own error.
    pub fn decode(b: &[u8]) -> (r: Result<CreateFileSendMetaData, DecodeError>)
        ensures
            Self::spec_decode_ok(b@) <==> r is Ok,
            r matches Ok(m) ==> {
                &&& m.mode == spec_u32_from_le_bytes(b@.subrange(0, 4))
                &&& m.umask == spec_u32_from_le_bytes(b@.subrange(4, 8))
                &&& m.flags == spec_i32_from_le_bytes(b@.subrange(8, 12))
                &&& m.name@ == spec_string_field_chars(b@, 12)
            },
            b@.len() < 12 ==> r == Err::<CreateFileSendMetaData, DecodeError>(
                DecodeError::Truncated { needed: 12, remaining: b@.len() as usize },
            ),
            b@.len() >= 12 && !spec_string_field_ok(b@, 12) ==> r == Err::<
                CreateFileSendMetaData,
                DecodeError,
            >(spec_string_field_err(b@, 12)),
            b@.len() >= 12 && spec_string_field_ok(b@, 12) && 12 + spec_string_field_size(b@, 12)
                != b@.len() ==> r == Err::<CreateFileSendMetaData, DecodeError>(
                DecodeError::LengthMismatch {
                    expected: (12 + spec_string_field_size(b@, 12)) as usize,
                    actual: b@.len() as usize,
                },
            ),
    {
        if b.len() < 12 {
            return Err(DecodeError::Truncated { needed: 12, remaining: b.len() });
        }
        let mode = get_u32(b, 0);
        let umask = get_u32(b, 4);
        let flags = get_i32(b, 8);
        let (name, consumed) = match get_string(b, 12) {
            Ok(x) => x,
            Err(e) => {
                return Err(e);
            },
        };
        if 12 + consumed != b.len() {
            return Err(
                DecodeError::LengthMismatch { expected: 12 + consumed, actual: b.len() },
            );
        }
        Ok(CreateFileSendMetaData { mode, umask, flags, name })
    }
}

/// Law: the file-creation codec round-trips: the encoding of any body whose
/// name fits the length prefix decodes back to the same mode, umask, flags
/// and name, field for field.
pub proof fn lemma_create_file_round_trip(m: CreateFileSendMetaData)
    requires
        encode_utf8(m.name@).len() <= u32::MAX,
    ensures
        CreateFileSendMetaData::spec_decode_ok(m.spec_encode()),
        spec_u32_from_le_bytes(m.spec_encode().subrange(0, 4)) == m.mode,
        spec_u32_from_le_bytes(m.spec_encode().subrange(4, 8)) == m.umask,
        spec_i32_from_le_bytes(m.spec_encode().subrange(8, 12)) == m.flags,
        spec_string_field_chars(m.spec_encode(), 12) == m.name@,
{
    vstd::bytes::lemma_auto_spec_u32_to_from_le_bytes();
    lemma_i32_le_round_trip(m.flags);
    encode_utf8_valid_utf8(m.name@);
    encode_utf8_decode_utf8(m.name@);
    let b = m.spec_encode();
    let nb = encode_utf8(m.name@);
    let n = nb.len() as u32;
    assert(b.subrange(0, 4) =~= spec_u32_to_le_bytes(m.mode));
    assert(b.subrange(4, 8) =~= spec_u32_to_le_bytes(m.umask));
    assert(b.subrange(8, 12) =~= spec_i32_to_le_bytes(m.flags));
    assert(b.subrange(12, 16) =~= spec_u32_to_le_bytes(n));
    assert(spec_string_field_size(b, 12) == 4 + n);
    assert(b.subrange(16, 16 + n) =~= nb);
}

/// The request body of a file deletion: the name to delete.
#[derive(Clone, PartialEq, Eq, Debug)]
pub struct DeleteFileSendMetaData {
    pub name: String,
}

impl DeleteFileSendMetaData {
    /// The wire encoding of this body: the name as a length-prefixed string.
    pub open spec fn spec_encode(self) -> Seq<u8> {
        spec_string_to_bytes(self.name@)
    }

    /// Whether a buffer is exactly one encoded file-deletion body.
    pub open spec fn spec_decode_ok(b: Seq<u8>) -> bool {
        &&& spec_string_field_ok(b, 0)
        &&& spec_string_field_size(b, 0) == b.len()
    }

    /// Encode this body as its wire bytes.
    pub fn encode(&self) -> (r: Vec<u8>)
        requires
            encode_utf8(self.name@).len() <= u32::MAX,
        ensures
            r@ == self.spec_encode(),
    {
        let mut out: Vec<u8> = Vec::new();
        put_string(&mut out, self.name.as_str());
        proof {
            assert(out@ =~= self.spec_encode());
        }
        out
    }

    /// Decode a body from its wire bytes. Succeeds exactly on a buffer that
    /// is one whole encoded body.
    pub fn decode(b: &[u8]) -> (r: Result<DeleteFileSendMetaData, DecodeError>)
        ensures
            Self::spec_decode_ok(b@) <==> r is Ok,
            r matches Ok(m) ==> m.name@ == spec_string_field_chars(b@, 0),
            !spec_string_field_ok(b@, 0) ==> r == Err::<DeleteFileSendMetaData, DecodeError>(
                spec_string_field_err(b@, 0),
            ),
            spec_string_field_ok(b@, 0) && spec_string_field_size(b@, 0) != b@.len() ==> r
                == Err::<DeleteFileSendMetaData, DecodeError>(
                DecodeError::LengthMismatch {
                    expected: spec_string_field_size(b@, 0) as usize,
                    actual: b@.len() as usize,
                },
            ),
    {
        let (name, consumed) = match get_string(b, 0) {
            Ok(x) => x,
            Err(e) => {
                return Err(e);
            },
        };
        if consumed != b.len() {
            return Err(DecodeError::LengthMismatch { expected: consumed, actual: b.len() });
        }
        Ok(DeleteFileSendMetaData { name })
    }
}

/// Law: the file-deletion codec round-trips.
pub proof fn lemma_delete_file_round_trip(m: DeleteFileSendMetaData)
    requires
        encode_utf8(m.name@).len() <= u32::MAX,
    ensures
        DeleteFileSendMetaData::spec_decode_ok(m.spec_encode()),
        spec_string_field_chars(m.spec_encode(), 0) == m.name@,
{
    vstd::bytes::lemma_auto_spec_u32_to_from_le_bytes();
    encode_utf8_valid_utf8(m.name@);
    encode_utf8_decode_utf8(m.name@);
    let b = m.spec_encode();
    let nb = encode_utf8(m.name@);
    let n = nb.len() as u32;
    assert(b.subrange(0, 4) =~= spec_u32_to_le_bytes(n));
    assert(spec_string_field_size(b, 0) == 4 + n);
    assert(b.subrange(4, 4 + n) =~= nb);
}

/// The request body of a directory creation: the mode and the new
/// directory's name.
#[derive(Clone, PartialEq, Eq, Debug)]
pub struct CreateDirSendMetaData {
    pub mode: u32,
    pub name: String,
}

impl CreateDirSendMetaData {
    /// The wire encoding of this body: the mode as a 32-bit little-endian
    /// field, then the name as a length-prefixed string.
    pub open spec fn spec_encode(self) -> Seq<u8> {
        spec_u32_to_le_bytes(self.mode) + spec_string_to_bytes(self.name@)
    }

    /// Whether a buffer is exactly one encoded directory-creation body.
    pub open spec fn spec_decode_ok(b: Seq<u8>) -> bool {
        &&& b.len() >= 4
        &&& spec_string_field_ok(b, 4)
        &&& 4 + spec_string_field_size(b, 4) == b.len()
    }

    /// Encode this body as its wire bytes.
    pub fn encode(&self) -> (r: Vec<u8>)
        requires
            encode_utf8(self.name@).len() <= u32::MAX,
        ensures
            r@ == self.spec_encode(),
    {
        let mut out: Vec<u8> = Vec::new();
        put_u32(&mut out, self.mode);
        put_string(&mut out, self.name.as_str());
        proof {
            assert(out@ =~= self.spec_encode());
        }
        out
    }

    /// Decode a body from its wire bytes. Succeeds exactly on a buffer that
    /// is one whole encoded body.
    pub fn decode(b: &[u8]) -> (r: Result<CreateDirSendMetaData, DecodeError>)
        ensures
            Self::spec_decode_ok(b@) <==> r is Ok,
            r matches Ok(m) ==> {
                &&& m.mode == spec_u32_from_le_bytes(b@.subrange(0, 4))
                &&& m.name@ == spec_string_field_chars(b@, 4)
            },
            b@.len() < 4 ==> r == Err::<CreateDirSendMetaData, DecodeError>(
                DecodeError::Truncated { needed: 4, remaining: b@.len() as usize },
            ),
            b@.len() >= 4 && !spec_string_field_ok(b@, 4) ==> r == Err::<
                CreateDirSendMetaData,
                DecodeError,
            >(spec_string_field_err(b@, 4)),
            b@.len() >= 4 && spec_string_field_ok(b@, 4) && 4 + spec_string_field_size(b@, 4)
                != b@.len() ==> r == Err::<CreateDirSendMetaData, DecodeError>(
                DecodeError::LengthMismatch {
                    expected: (4 + spec_string_field_size(b@, 4)) as usize,
                    actual: b@.len() as usize,
                },
            ),
    {
        if b.len() < 4 {
            return Err(DecodeError::Truncated { needed: 4, remaining: b.len() });
        }
        let mode = get_u32(b, 0);
        let (name, consumed) = match get_string(b, 4) {
            Ok(x) => x,
            Err(e) => {
                return Err(e);
            },
        };
        if 4 + consumed != b.len() {
            return Err(
                DecodeError::LengthMismatch { expected: 4 + consumed, actual: b.len() },
            );
        }
        Ok(CreateDirSendMetaData { mode, name })
    }
}

/// Law: the directory-creation codec round-trips.
pub proof fn lemma_create_dir_round_trip(m: CreateDirSendMetaData)
    requires
        encode_utf8(m.name@).len() <= u32::MAX,
    ensures
        CreateDirSendMetaData::spec_decode_ok(m.spec_encode()),
        spec_u32_from_le_bytes(m.spec_encode().subrange(0, 4)) == m.mode,
        spec_string_field_chars(m.spec_encode(), 4) == m.name@,
{
    vstd::bytes::lemma_auto_spec_u32_to_from_le_bytes();
    encode_utf8_valid_utf8(m.name@);
    encode_utf8_decode_utf8(m.name@);
    let b = m.spec_encode();
    let nb = encode_utf8(m.name@);
    let n = nb.len() as u32;
    assert(b.subrange(0, 4) =~= spec_u32_to_le_bytes(m.mode));
    assert(b.subrange(4, 8) =~= spec_u32_to_le_bytes(n));
    assert(spec_string_field_size(b, 4) == 4 + n);
    assert(b.subrange(8, 8 + n) =~= nb);
}

/// The request body of a directory deletion: the name to delete.
#[derive(Clone, PartialEq, Eq, Debug)]
pub struct DeleteDirSendMetaData {
    pub name: String,
}

impl DeleteDirSendMetaData {
    /// The wire encoding of this body: the name as a length-prefixed string.
    pub open spec fn spec_encode(self) -> Seq<u8> {
        spec_string_to_bytes(self.name@)
    }

    /// Whether a buffer is exactly one encoded directory-deletion body.
    pub open spec fn spec_decode_ok(b: Seq<u8>) -> bool {
        &&& spec_string_field_ok(b, 0)
        &&& spec_string_field_size(b, 0) == b.len()
    }

    /// Encode this body as its wire bytes.
    pub fn encode(&self) -> (r: Vec<u8>)
        requires
            encode_utf8(self.name@).len() <= u32::MAX,
        ensures
            r@ == self.spec_encode(),
    {
        let mut out: Vec<u8> = Vec::new();
        put_string(&mut out, self.name.as_str());
        proof {
            assert(out@ =~= self.spec_encode());
        }
        out
    }

    /// Decode a body from its wire bytes. Succeeds exactly on a buffer that
    /// is one whole encoded body.
    pub fn decode(b: &[u8]) -> (r: Result<DeleteDirSendMetaData, DecodeError>)
        ensures
            Self::spec_decode_ok(b@) <==> r is Ok,
            r matches Ok(m) ==> m.name@ == spec_string_field_chars(b@, 0),
            !spec_string_field_ok(b@, 0) ==> r == Err::<DeleteDirSendMetaData, DecodeError>(
                spec_string_field_err(b@, 0),
            ),
            spec_string_field_ok(b@, 0) && spec_string_field_size(b@, 0) != b@.len() ==> r
                == Err::<DeleteDirSendMetaData, DecodeError>(
                DecodeError::LengthMismatch {
                    expected: spec_string_field_size(b@, 0) as usize,
                    actual: b@.len() as usize,
                },
            ),
    {
        let (name, consumed) = match get_string(b, 0) {
            Ok(x) => x,
            Err(e) => {
                return Err(e);
            },
        };
        if consumed != b.len() {
            return Err(DecodeError::LengthMismatch { expected: consumed, actual: b.len() });
        }
        Ok(DeleteDirSendMetaData { name })
    }
}

/// Law: the directory-deletion codec round-trips.
pub proof fn lemma_delete_dir_round_trip(m: DeleteDirSendMetaData)
    requires
        encode_utf8(m.name@).len() <= u32::MAX,
    ensures
        DeleteDirSendMetaData::spec_decode_ok(m.spec_encode()),
        spec_string_field_chars(m.spec_encode(), 0) == m.name@,
{
    vstd::bytes::lemma_auto_spec_u32_to_from_le_bytes();
    encode_utf8_valid_utf8(m.name@);
    encode_utf8_decode_utf8(m.name@);
    let b = m.spec_encode();
    let nb = encode_utf8(m.name@);
    let n = nb.len() as u32;
    assert(b.subrange(0, 4) =~= spec_u32_to_le_bytes(n));
    assert(spec_string_field_size(b, 0) == 4 + n);
    assert(b.subrange(4, 4 + n) =~= nb);
}

/// The request body of a volume mount: the volume name, the mount point, and
/// the read-only flag.
#[derive(Clone, PartialEq, Eq, Debug)]
pub struct MountVolumeSendMetaData {
    pub volume_name: String,
    pub mount_point: String,
    pub read_only: bool,
}

impl MountVolumeSendMetaData {
    /// The wire encoding of this body: the two names as length-prefixed
    /// strings, then the flag as one byte.
    pub open spec fn spec_encode(self) -> Seq<u8> {
        spec_string_to_bytes(self.volume_name@) + spec_string_to_bytes(self.mount_point@) + seq![
            if self.read_only {
                1u8
            } else {
                0u8
            },
        ]
    }

    /// Whether a buffer is exactly one encoded mount body.
    pub open spec fn spec_decode_ok(b: Seq<u8>) -> bool {
        &&& spec_string_field_ok(b, 0)
        &&& spec_string_field_ok(b, spec_string_field_size(b, 0))
        &&& spec_string_field_size(b, 0) + spec_string_field_size(
            b,
            spec_string_field_size(b, 0),
        ) + 1 == b.len()
        &&& b[b.len() - 1] <= 1
    }

    /// Encode this body as its wire bytes.
    pub fn encode(&self) -> (r: Vec<u8>)
        requires
            encode_utf8(self.volume_name@).len() <= u32::MAX,
            encode_utf8(self.mount_point@).len() <= u32::MAX,
        ensures
            r@ == self.spec_encode(),
    {
        let mut out: Vec<u8> = Vec::new();
        put_string(&mut out, self.volume_name.as_str());
        put_string(&mut out, self.mount_point.as_str());
        put_u8(&mut out, if self.read_only { 1 } else { 0 });
        proof {
            assert(out@ =~= self.spec_encode());
        }
        out
    }

    /// Decode a body from its wire bytes. Succeeds exactly on a buffer that
    /// is one whole encoded body whose flag byte is 0 or 1.
    pub fn decode(b: &[u8]) -> (r: Result<MountVolumeSendMetaData, DecodeError>)
        ensures
            Self::spec_decode_ok(b@) <==> r is Ok,
            r matches Ok(m) ==> {
                &&& m.volume_name@ == spec_string_field_chars(b@, 0)
                &&& m.mount_point@ == spec_string_field_chars(b@, spec_string_field_size(b@, 0))
                &&& m.read_only == (b@[b@.len() - 1] == 1)
            },
    {
        let (volume_name, c1) = match get_string(b, 0) {
            Ok(x) => x,
            Err(e) => {
                return Err(e);
            },
        };
        let (mount_point, c2) = match get_string(b, c1) {
            Ok(x) => x,
            Err(e) => {
                return Err(e);
            },
        };
        let blen: usize = b.len();
        let rest: usize = blen - c1 - c2;
        if rest == 0 {
            return Err(DecodeError::Truncated { needed: 1, remaining: 0 });
        }
        if rest != 1 {
            return Err(
                DecodeError::LengthMismatch { expected: c1 + c2 + 1, actual: blen },
            );
        }
        let read_only = match crate::codec::get_bool(b, c1 + c2) {
            Ok(x) => x,
            Err(e) => {
                return Err(e);
            },
        };
        Ok(MountVolumeSendMetaData { volume_name, mount_point, read_only })
    }
}

/// Law: the mount codec round-trips: the encoding of any body whose names
/// fit their length prefixes decodes back to the same names and flag.
pub proof fn lemma_mount_volume_round_trip(m: MountVolumeSendMetaData)
    requires
        encode_utf8(m.volume_name@).len() <= u32::MAX,
        encode_utf8(m.mount_point@).len() <= u32::MAX,
    ensures
        MountVolumeSendMetaData::spec_decode_ok(m.spec_encode()),
        spec_string_field_chars(m.spec_encode(), 0) == m.volume_name@,
        spec_string_field_chars(m.spec_encode(), spec_string_field_size(m.spec_encode(), 0))
            == m.mount_point@,
        (m.spec_encode()[m.spec_encode().len() - 1] == 1) == m.read_only,
{
    vstd::bytes::lemma_auto_spec_u32_to_from_le_bytes();
    encode_utf8_valid_utf8(m.volume_name@);
    encode_utf8_decode_utf8(m.volume_name@);
    encode_utf8_valid_utf8(m.mount_point@);
    encode_utf8_decode_utf8(m.mount_point@);
    let b = m.spec_encode();
    let vb = encode_utf8(m.volume_name@);
    let pb = encode_utf8(m.mount_point@);
    let vn = vb.len() as u32;
    let pn = pb.len() as u32;
    assert(b.subrange(0, 4) =~= spec_u32_to_le_bytes(vn));
    assert(spec_string_field_size(b, 0) == 4 + vn);
    assert(b.subrange(4, 4 + vn) =~= vb);
    let o = 4 + vn as int;
    assert(b.subrange(o, o + 4) =~= spec_u32_to_le_bytes(pn));
    assert(spec_string_field_size(b, o) == 4 + pn);
    assert(b.subrange(o + 4, o + 4 + pn) =~= pb);
    assert(b[b.len() - 1] == (if m.read_only { 1u8 } else { 0u8 }));
}

/// The wire bytes of a weighted server list, entry after entry: each entry
/// is a length-prefixed address followed by the weight as a 64-bit
/// little-endian integer.
pub open spec fn spec_ring_info_bytes(s: Seq<(String, usize)>) -> Seq<u8>
    decreases s.len(),
{
    if s.len() == 0 {
        Seq::empty()
    } else {
        spec_ring_info_bytes(s.drop_last()) + spec_string_to_bytes(s.last().0@)
            + spec_u64_to_le_bytes(s.last().1 as u64)
    }
}

/// Where `count` weighted entries starting at `off` end, or None when one
/// of them runs past the buffer, holds invalid UTF-8, or carries a weight
/// that does not fit the machine's word.
pub open spec fn spec_ring_entries_end(b: Seq<u8>, off: int, count: int) -> Option<int>
    decreases count,
{
    if count <= 0 {
        Some(off)
    } else {
        if spec_string_field_ok(b, off) && off + spec_string_field_size(b, off) + 8 <= b.len()
            && spec_u64_from_le_bytes(
            b.subrange(
                off + spec_string_field_size(b, off),
                off + spec_string_field_size(b, off) + 8,
            ),
        ) <= usize::MAX {
            spec_ring_entries_end(b, off + spec_string_field_size(b, off) + 8, count - 1)
        } else {
            Option::None
        }
    }
}

/// A nonempty entry list's bytes are its first entry's bytes followed by
/// the remaining entries' bytes.
proof fn lemma_ring_info_bytes_split_first(s: Seq<(String, usize)>)
    requires
        s.len() > 0,
    ensures
        spec_ring_info_bytes(s) == spec_string_to_bytes(s[0].0@) + spec_u64_to_le_bytes(
            s[0].1 as u64,
        ) + spec_ring_info_bytes(s.drop_first()),
    decreases s.len(),
{
    let e0 = spec_string_to_bytes(s[0].0@) + spec_u64_to_le_bytes(s[0].1 as u64);
    if s.len() == 1 {
        assert(s.drop_last() =~= Seq::<(String, usize)>::empty());
        assert(s.drop_first() =~= Seq::<(String, usize)>::empty());
        assert(s.last() == s[0]);
        assert(spec_ring_info_bytes(s) =~= e0 + spec_ring_info_bytes(s.drop_first()));
    } else {
        lemma_ring_info_bytes_split_first(s.drop_last());
        assert(s.drop_last()[0] == s[0]);
        assert(s.drop_last().drop_first() =~= s.drop_first().drop_last());
        assert(s.drop_first().last() == s.last());
        assert(s.drop_first().len() > 0);
        let e_last = spec_string_to_bytes(s.last().0@) + spec_u64_to_le_bytes(s.last().1 as u64);
        assert(spec_ring_info_bytes(s.drop_first()) == spec_ring_info_bytes(
            s.drop_first().drop_last(),
        ) + spec_string_to_bytes(s.drop_first().last().0@) + spec_u64_to_le_bytes(
            s.drop_first().last().1 as u64,
        ));
        assert(spec_ring_info_bytes(s) =~= e0 + spec_ring_info_bytes(s.drop_first()));
    }
}

/// Every well-formed entry list parses back from its own bytes: starting at
/// `off`, exactly the listed entries are read and the buffer end is
/// reached.
proof fn lemma_ring_info_bytes_parse(b: Seq<u8>, off: int, s: Seq<(String, usize)>)
    requires
        0 <= off <= b.len(),
        b.subrange(off, b.len() as int) == spec_ring_info_bytes(s),
        forall|i: int| 0 <= i < s.len() ==> encode_utf8(#[trigger] s[i].0@).len() <= u32::MAX,
    ensures
        spec_ring_entries_end(b, off, s.len() as int) == Some(b.len() as int),
    decreases s.len(),
{
    vstd::bytes::lemma_auto_spec_u32_to_from_le_bytes();
    vstd::bytes::lemma_auto_spec_u64_to_from_le_bytes();
    if s.len() == 0 {
        assert(spec_ring_info_bytes(s).len() == 0);
        assert(off == b.len());
    } else {
        lemma_ring_info_bytes_split_first(s);
        encode_utf8_valid_utf8(s[0].0@);
        let nb = encode_utf8(s[0].0@);
        let n = nb.len() as u32;
        let size = 4 + n as int;
        let w = s[0].1 as u64;
        let tail = b.subrange(off, b.len() as int);
        assert(tail == spec_string_to_bytes(s[0].0@) + spec_u64_to_le_bytes(w)
            + spec_ring_info_bytes(s.drop_first()));
        assert(spec_string_to_bytes(s[0].0@) =~= spec_u32_to_le_bytes(n) + nb);
        assert(tail.len() == size + 8 + spec_ring_info_bytes(s.drop_first()).len());
        assert(off + size + 8 <= b.len());
        assert(b.subrange(off, off + 4) =~= tail.subrange(0, 4));
        assert(tail.subrange(0, 4) =~= spec_u32_to_le_bytes(n));
        assert(spec_string_field_size(b, off) == size);
        assert(b.subrange(off + 4, off + size) =~= tail.subrange(4, size));
        assert(tail.subrange(4, size) =~= nb);
        assert(spec_string_field_ok(b, off));
        assert(b.subrange(off + size, off + size + 8) =~= tail.subrange(size, size + 8));
        assert(tail.subrange(size, size + 8) =~= spec_u64_to_le_bytes(w));
        assert(spec_u64_from_le_bytes(b.subrange(off + size, off + size + 8)) == w);
        assert(w <= usize::MAX);
        let off2 = off + size + 8;
        assert(b.subrange(off2, b.len() as int) =~= tail.subrange(size + 8, tail.len() as int));
        assert(tail.subrange(size + 8, tail.len() as int) =~= spec_ring_info_bytes(
            s.drop_first(),
        ));
        assert(forall|i: int|
            0 <= i < s.drop_first().len() ==> encode_utf8(
                #[trigger] s.drop_first()[i].0@,
            ).len() <= u32::MAX);
        lemma_ring_info_bytes_parse(b, off2, s.drop_first());
        assert(spec_ring_entries_end(b, off, s.len() as int) == spec_ring_entries_end(
            b,
            off2,
            s.len() - 1,
        ));
    }
}

/// Law: the weighted-list codec is complete: the encoding of any list whose
/// entries fit their prefixes is exactly one well-formed encoded list, so
/// decoding it succeeds.
pub proof fn lemma_ring_info_round_trip(list: Seq<(String, usize)>)
    requires
        list.len() <= u32::MAX,
        forall|i: int| 0 <= i < list.len() ==> encode_utf8(#[trigger] list[i].0@).len() <= u32::MAX,
    ensures
        spec_ring_info_decode_ok(
            spec_u32_to_le_bytes(list.len() as u32) + spec_ring_info_bytes(list),
        ),
{
    vstd::bytes::lemma_auto_spec_u32_to_from_le_bytes();
    let b = spec_u32_to_le_bytes(list.len() as u32) + spec_ring_info_bytes(list);
    assert(b.subrange(0, 4) =~= spec_u32_to_le_bytes(list.len() as u32));
    assert(spec_u32_from_le_bytes(b.subrange(0, 4)) == list.len());
    assert(b.subrange(4, b.len() as int) =~= spec_ring_info_bytes(list));
    lemma_ring_info_bytes_parse(b, 4, list);
}

/// Whether a buffer is exactly one encoded weighted server list.
pub open spec fn spec_ring_info_decode_ok(b: Seq<u8>) -> bool {
    &&& b.len() >= 4
    &&& spec_ring_entries_end(b, 4, spec_u32_from_le_bytes(b.subrange(0, 4)) as int) == Some(
        b.len() as int,
    )
}

/// Encode a weighted server list: a 32-bit entry count, then the entries.
fn encode_ring_info(list: &Vec<(String, usize)>) -> (r: Vec<u8>)
    requires
        list@.len() <= u32::MAX,
        forall|i: int|
            0 <= i < list@.len() ==> encode_utf8(#[trigger] list@[i].0@).len() <= u32::MAX,
    ensures
        r@ == spec_u32_to_le_bytes(list@.len() as u32) + spec_ring_info_bytes(list@),
{
    let n = list.len();
    let mut out: Vec<u8> = Vec::new();
    put_u32(&mut out, n as u32);
    let mut i: usize = 0;
    while i < n
        invariant
            i <= n,
            n == list@.len(),
            n <= u32::MAX,
            forall|j: int|
                0 <= j < list@.len() ==> encode_utf8(#[trigger] list@[j].0@).len() <= u32::MAX,
            out@ =~= spec_u32_to_le_bytes(n as u32) + spec_ring_info_bytes(
                list@.subrange(0, i as int),
            ),
        decreases n - i,
    {
        put_string(&mut out, list[i].0.as_str());
        put_u64(&mut out, list[i].1 as u64);
        proof {
            assert(list@.subrange(0, i + 1).drop_last() =~= list@.subrange(0, i as int));
            assert(list@.subrange(0, i + 1).last() == list@[i as int]);
            assert(out@ =~= spec_u32_to_le_bytes(n as u32) + spec_ring_info_bytes(
                list@.subrange(0, i + 1),
            ));
        }
        i += 1;
    }
    proof {
        assert(list@.subrange(0, n as int) =~= list@);
    }
    out
}

/// Decode a weighted server list. Succeeds exactly on a buffer that is one
/// whole encoded list, and the result encodes back to the input bytes.
fn decode_ring_info(b: &[u8]) -> (r: Result<Vec<(String, usize)>, DecodeError>)
    ensures
        spec_ring_info_decode_ok(b@) <==> r is Ok,
        r matches Ok(list) ==> spec_u32_to_le_bytes(list@.len() as u32) + spec_ring_info_bytes(
            list@,
        ) == b@,
{
    proof {
        vstd::bytes::lemma_auto_spec_u32_to_from_le_bytes();
        vstd::bytes::lemma_auto_spec_u64_to_from_le_bytes();
    }
    let blen: usize = b.len();
    if blen < 4 {
        return Err(DecodeError::Truncated { needed: 4, remaining: blen });
    }
    let count = get_u32(b, 0);
    let mut out: Vec<(String, usize)> = Vec::new();
    let mut off: usize = 4;
    let mut i: u32 = 0;
    while i < count
        invariant
            i <= count,
            4 <= off <= b@.len(),
            blen == b@.len(),
            count == spec_u32_from_le_bytes(b@.subrange(0, 4)),
            out@.len() == i,
            spec_ring_entries_end(b@, 4, count as int) == spec_ring_entries_end(
                b@,
                off as int,
                count - i,
            ),
            spec_u32_to_le_bytes(count) + spec_ring_info_bytes(out@) =~= b@.subrange(
                0,
                off as int,
            ),
        decreases count - i,
    {
        let (address, consumed) = match get_string(b, off) {
            Ok(x) => x,
            Err(e) => {
                return Err(e);
            },
        };
        let off2 = off + consumed;
        if blen - off2 < 8 {
            return Err(DecodeError::Truncated { needed: 8, remaining: blen - off2 });
        }
        let w = get_u64(b, off2);
        if w > usize::MAX as u64 {
            return Err(DecodeError::ValueOutOfRange);
        }
        let ghost out0 = out@;
        out.push((address, w as usize));
        proof {
            vstd::bytes::lemma_auto_spec_u32_to_from_le_bytes();
            vstd::bytes::lemma_auto_spec_u64_to_from_le_bytes();
            assert(out@.drop_last() =~= out0);
            assert(spec_string_field_size(b@, off as int) == consumed);
            assert(spec_u64_to_le_bytes(w) =~= b@.subrange(off2 as int, off2 + 8));
            assert((w as usize) as u64 == w);
            let n32 = spec_u32_from_le_bytes(b@.subrange(off as int, off + 4));
            assert(encode_utf8(out@.last().0@) == b@.subrange(off + 4, off2 as int));
            assert(encode_utf8(out@.last().0@).len() == n32);
            assert(encode_utf8(out@.last().0@).len() as u32 == n32);
            assert(spec_u32_to_le_bytes(n32) =~= b@.subrange(off as int, off + 4));
            assert(spec_string_to_bytes(out@.last().0@) =~= b@.subrange(
                off as int,
                off2 as int,
            ));
            assert(out@.len() > 0);
            assert(spec_ring_info_bytes(out@) == spec_ring_info_bytes(out@.drop_last())
                + spec_string_to_bytes(out@.last().0@) + spec_u64_to_le_bytes(
                out@.last().1 as u64,
            ));
            let head = spec_u32_to_le_bytes(count) + spec_ring_info_bytes(out0);
            assert(head == b@.subrange(0, off as int));
            assert(spec_u32_to_le_bytes(count) + spec_ring_info_bytes(out@) =~= head
                + spec_string_to_bytes(out@.last().0@) + spec_u64_to_le_bytes(w));
            assert(head + spec_string_to_bytes(out@.last().0@) + spec_u64_to_le_bytes(w)
                =~= b@.subrange(0, off2 + 8));
            assert(spec_u32_to_le_bytes(count) + spec_ring_info_bytes(out@) =~= b@.subrange(
                0,
                off2 + 8,
            ));
        }
        off = off2 + 8;
        i += 1;
    }
    if off != blen {
        proof {
            assert(spec_ring_entries_end(b@, off as int, 0) == Some(off as int));
        }
        return Err(DecodeError::LengthMismatch { expected: off, actual: blen });
    }
    proof {
        assert(b@.subrange(0, blen as int) =~= b@);
    }
    Ok(out)
}

/// The hash-ring description returned by a ring query: the ordered sequence
/// of server addresses with their weights.
#[derive(Clone, PartialEq, Eq, Debug)]
pub struct GetHashRingInfoRecvMetaData {
    pub hash_ring_info: Vec<(String, usize)>,
}

impl GetHashRingInfoRecvMetaData {
    /// The wire encoding of this body: a 32-bit entry count, then each
    /// entry as a length-prefixed address and a 64-bit weight.
    pub open spec fn spec_encode(self) -> Seq<u8> {
        spec_u32_to_le_bytes(self.hash_ring_info@.len() as u32) + spec_ring_info_bytes(
            self.hash_ring_info@,
        )
    }

    /// Encode this body as its wire bytes.
    pub fn encode(&self) -> (r: Vec<u8>)
        requires
            self.hash_ring_info@.len() <= u32::MAX,
            forall|i: int|
                0 <= i < self.hash_ring_info@.len() ==> encode_utf8(
                    #[trigger] self.hash_ring_info@[i].0@,
                ).len() <= u32::MAX,
        ensures
            r@ == self.spec_encode(),
    {
        encode_ring_info(&self.hash_ring_info)
    }

    /// Decode a body from its wire bytes. Succeeds exactly on a buffer that
    /// is one whole encoded list, and the result encodes back to the input.
    pub fn decode(b: &[u8]) -> (r: Result<GetHashRingInfoRecvMetaData, DecodeError>)
        ensures
            spec_ring_info_decode_ok(b@) <==> r is Ok,
            r matches Ok(m) ==> m.spec_encode() == b@,
    {
        match decode_ring_info(b) {
            Ok(hash_ring_info) => Ok(GetHashRingInfoRecvMetaData { hash_ring_info }),
            Err(e) => Err(e),
        }
    }
}

/// The request body of a node addition: the servers to add, each an address
/// with a weight.
#[derive(Clone, PartialEq, Eq, Debug)]
pub struct AddNodesSendMetaData {
    pub new_servers_info: Vec<(String, usize)>,
}

impl AddNodesSendMetaData {
    /// The wire encoding of this body: a 32-bit entry count, then each
    /// entry as a length-prefixed address and a 64-bit weight.
    pub open spec fn spec_encode(self) -> Seq<u8> {
        spec_u32_to_le_bytes(self.new_servers_info@.len() as u32) + spec_ring_info_bytes(
            self.new_servers_info@,
        )
    }

    /// Encode this body as its wire bytes.
    pub fn encode(&self) -> (r: Vec<u8>)
        requires
            self.new_servers_info@.len() <= u32::MAX,
            forall|i: int|
                0 <= i < self.new_servers_info@.len() ==> encode_utf8(
                    #[trigger] self.new_servers_info@[i].0@,
                ).len() <= u32::MAX,
        ensures
            r@ == self.spec_encode(),
    {
        encode_ring_info(&self.new_servers_info)
    }

    /// Decode a body from its wire bytes. Succeeds exactly on a buffer that
    /// is one whole encoded list, and the result encodes back to the input.
    pub fn decode(b: &[u8]) -> (r: Result<AddNodesSendMetaData, DecodeError>)
        ensures
            spec_ring_info_decode_ok(b@) <==> r is Ok,
            r matches Ok(m) ==> m.spec_encode() == b@,
    {
        match decode_ring_info(b) {
            Ok(new_servers_info) => Ok(AddNodesSendMetaData { new_servers_info }),
            Err(e) => Err(e),
        }
    }
}

/// The wire bytes of an address list, each address a length-prefixed
/// string.
pub open spec fn spec_name_list_bytes(s: Seq<String>) -> Seq<u8>
    decreases s.len(),
{
    if s.len() == 0 {
        Seq::empty()
    } else {
        spec_name_list_bytes(s.drop_last()) + spec_string_to_bytes(s.last()@)
    }
}

/// Where `count` address entries starting at `off` end, or None when one of
/// them runs past the buffer or holds invalid UTF-8.
pub open spec fn spec_name_entries_end(b: Seq<u8>, off: int, count: int) -> Option<int>
    decreases count,
{
    if count <= 0 {
        Some(off)
    } else {
        if spec_string_field_ok(b, off) {
            spec_name_entries_end(b, off + spec_string_field_size(b, off), count - 1)
        } else {
            Option::None
        }
    }
}

/// A nonempty address list's bytes are its first address's bytes followed
/// by the remaining addresses' bytes.
proof fn lemma_name_list_bytes_split_first(s: Seq<String>)
    requires
        s.len() > 0,
    ensures
        spec_name_list_bytes(s) == spec_string_to_bytes(s[0]@) + spec_name_list_bytes(
            s.drop_first(),
        ),
    decreases s.len(),
{
    let e0 = spec_string_to_bytes(s[0]@);
    if s.len() == 1 {
        assert(s.drop_last() =~= Seq::<String>::empty());
        assert(s.drop_first() =~= Seq::<String>::empty());
        assert(s.last() == s[0]);
        assert(spec_name_list_bytes(s) =~= e0 + spec_name_list_bytes(s.drop_first()));
    } else {
        lemma_name_list_bytes_split_first(s.drop_last());
        assert(s.drop_last()[0] == s[0]);
        assert(s.drop_last().drop_first() =~= s.drop_first().drop_last());
        assert(s.drop_first().last() == s.last());
        assert(s.drop_first().len() > 0);
        assert(spec_name_list_bytes(s.drop_first()) == spec_name_list_bytes(
            s.drop_first().drop_last(),
        ) + spec_string_to_bytes(s.drop_first().last()@));
        assert(spec_name_list_bytes(s) =~= e0 + spec_name_list_bytes(s.drop_first()));
    }
}

/// Every well-formed address list parses back from its own bytes.
proof fn lemma_name_list_bytes_parse(b: Seq<u8>, off: int, s: Seq<String>)
    requires
        0 <= off <= b.len(),
        b.subrange(off, b.len() as int) == spec_name_list_bytes(s),
        forall|i: int| 0 <= i < s.len() ==> encode_utf8(#[trigger] s[i]@).len() <= u32::MAX,
    ensures
        spec_name_entries_end(b, off, s.len() as int) == Some(b.len() as int),
    decreases s.len(),
{
    vstd::bytes::lemma_auto_spec_u32_to_from_le_bytes();
    if s.len() == 0 {
        assert(spec_name_list_bytes(s).len() == 0);
        assert(off == b.len());
    } else {
        lemma_name_list_bytes_split_first(s);
        encode_utf8_valid_utf8(s[0]@);
        let nb = encode_utf8(s[0]@);
        let n = nb.len() as u32;
        let size = 4 + n as int;
        let tail = b.subrange(off, b.len() as int);
        assert(tail == spec_string_to_bytes(s[0]@) + spec_name_list_bytes(s.drop_first()));
        assert(spec_string_to_bytes(s[0]@) =~= spec_u32_to_le_bytes(n) + nb);
        assert(tail.len() == size + spec_name_list_bytes(s.drop_first()).len());
        assert(off + size <= b.len());
        assert(b.subrange(off, off + 4) =~= tail.subrange(0, 4));
        assert(tail.subrange(0, 4) =~= spec_u32_to_le_bytes(n));
        assert(spec_string_field_size(b, off) == size);
        assert(b.subrange(off + 4, off + size) =~= tail.subrange(4, size));
        assert(tail.subrange(4, size) =~= nb);
        assert(spec_string_field_ok(b, off));
        let off2 = off + size;
        assert(b.subrange(off2, b.len() as int) =~= tail.subrange(size, tail.len() as int));
        assert(tail.subrange(size, tail.len() as int) =~= spec_name_list_bytes(s.drop_first()));
        assert(forall|i: int|
            0 <= i < s.drop_first().len() ==> encode_utf8(#[trigger] s.drop_first()[i]@).len()
                <= u32::MAX);
        lemma_name_list_bytes_parse(b, off2, s.drop_first());
        assert(spec_name_entries_end(b, off, s.len() as int) == spec_name_entries_end(
            b,
            off2,
            s.len() - 1,
        ));
    }
}

/// Law: the address-list codec is complete: the encoding of any list whose
/// addresses fit their prefixes is exactly one well-formed encoded list, so
/// decoding it succeeds.
pub proof fn lemma_name_list_round_trip(list: Seq<String>)
    requires
        list.len() <= u32::MAX,
        forall|i: int| 0 <= i < list.len() ==> encode_utf8(#[trigger] list[i]@).len() <= u32::MAX,
    ensures
        spec_name_list_decode_ok(
            spec_u32_to_le_bytes(list.len() as u32) + spec_name_list_bytes(list),
        ),
{
    vstd::bytes::lemma_auto_spec_u32_to_from_le_bytes();
    let b = spec_u32_to_le_bytes(list.len() as u32) + spec_name_list_bytes(list);
    assert(b.subrange(0, 4) =~= spec_u32_to_le_bytes(list.len() as u32));
    assert(spec_u32_from_le_bytes(b.subrange(0, 4)) == list.len());
    assert(b.subrange(4, b.len() as int) =~= spec_name_list_bytes(list));
    lemma_name_list_bytes_parse(b, 4, list);
}

/// Whether a buffer is exactly one encoded address list.
pub open spec fn spec_name_list_decode_ok(b: Seq<u8>) -> bool {
    &&& b.len() >= 4
    &&& spec_name_entries_end(b, 4, spec_u32_from_le_bytes(b.subrange(0, 4)) as int) == Some(
        b.len() as int,
    )
}

/// The request body of a node removal: the addresses of the servers to
/// remove.
#[derive(Clone, PartialEq, Eq, Debug)]
pub struct DeleteNodesSendMetaData {
    pub deleted_servers_info: Vec<String>,
}

impl DeleteNodesSendMetaData {
    /// The wire encoding of this body: a 32-bit entry count, then each
    /// address as a length-prefixed string.
    pub open spec fn spec_encode(self) -> Seq<u8> {
        spec_u32_to_le_bytes(self.deleted_servers_info@.len() as u32) + spec_name_list_bytes(
            self.deleted_servers_info@,
        )
    }

    /// Encode this body as its wire bytes.
    pub fn encode(&self) -> (r: Vec<u8>)
        requires
            self.deleted_servers_info@.len() <= u32::MAX,
            forall|i: int|
                0 <= i < self.deleted_servers_info@.len() ==> encode_utf8(
                    #[trigger] self.deleted_servers_info@[i]@,
                ).len() <= u32::MAX,
        ensures
            r@ == self.spec_encode(),
    {
        let list = &self.deleted_servers_info;
        let n = list.len();
        let mut out: Vec<u8> = Vec::new();
        put_u32(&mut out, n as u32);
        let mut i: usize = 0;
        while i < n
            invariant
                i <= n,
                n == list@.len(),
                n <= u32::MAX,
                list == &self.deleted_servers_info,
                forall|j: int|
                    0 <= j < list@.len() ==> encode_utf8(#[trigger] list@[j]@).len() <= u32::MAX,
                out@ =~= spec_u32_to_le_bytes(n as u32) + spec_name_list_bytes(
                    list@.subrange(0, i as int),
                ),
            decreases n - i,
        {
            put_string(&mut out, list[i].as_str());
            proof {
                assert(list@.subrange(0, i + 1).drop_last() =~= list@.subrange(0, i as int));
                assert(list@.subrange(0, i + 1).last() == list@[i as int]);
                assert(out@ =~= spec_u32_to_le_bytes(n as u32) + spec_name_list_bytes(
                    list@.subrange(0, i + 1),
                ));
            }
            i += 1;
        }
        proof {
            assert(list@.subrange(0, n as int) =~= list@);
        }
        out
    }

    /// Decode a body from its wire bytes. Succeeds exactly on a buffer that
    /// is one whole encoded list, and the result encodes back to the input.
    pub fn decode(b: &[u8]) -> (r: Result<DeleteNodesSendMetaData, DecodeError>)
        ensures
            spec_name_list_decode_ok(b@) <==> r is Ok,
            r matches Ok(m) ==> m.spec_encode() == b@,
    {
        proof {
            vstd::bytes::lemma_auto_spec_u32_to_from_le_bytes();
        }
        let blen: usize = b.len();
        if blen < 4 {
            return Err(DecodeError::Truncated { needed: 4, remaining: blen });
        }
        let count = get_u32(b, 0);
        let mut out: Vec<String> = Vec::new();
        let mut off: usize = 4;
        let mut i: u32 = 0;
        while i < count
            invariant
                i <= count,
                4 <= off <= b@.len(),
                blen == b@.len(),
                count == spec_u32_from_le_bytes(b@.subrange(0, 4)),
                out@.len() == i,
                spec_name_entries_end(b@, 4, count as int) == spec_name_entries_end(
                    b@,
                    off as int,
                    count - i,
                ),
                spec_u32_to_le_bytes(count) + spec_name_list_bytes(out@) =~= b@.subrange(
                    0,
                    off as int,
                ),
            decreases count - i,
        {
            let (address, consumed) = match get_string(b, off) {
                Ok(x) => x,
                Err(e) => {
                    return Err(e);
                },
            };
            let ghost out0 = out@;
            out.push(address);
            proof {
                vstd::bytes::lemma_auto_spec_u32_to_from_le_bytes();
                assert(out@.drop_last() =~= out0);
                assert(spec_string_field_size(b@, off as int) == consumed);
                let n32 = spec_u32_from_le_bytes(b@.subrange(off as int, off + 4));
                assert(encode_utf8(out@.last()@) == b@.subrange(off + 4, off + consumed));
                assert(encode_utf8(out@.last()@).len() == n32);
                assert(encode_utf8(out@.last()@).len() as u32 == n32);
                assert(spec_u32_to_le_bytes(n32) =~= b@.subrange(off as int, off + 4));
                assert(spec_string_to_bytes(out@.last()@) =~= b@.subrange(
                    off as int,
                    off + consumed,
                ));
                assert(out@.len() > 0);
                assert(spec_name_list_bytes(out@) == spec_name_list_bytes(out@.drop_last())
                    + spec_string_to_bytes(out@.last()@));
                let head = spec_u32_to_le_bytes(count) + spec_name_list_bytes(out0);
                assert(head == b@.subrange(0, off as int));
                assert(spec_u32_to_le_bytes(count) + spec_name_list_bytes(out@) =~= head
                    + spec_string_to_bytes(out@.last()@));
                assert(head + spec_string_to_bytes(out@.last()@) =~= b@.subrange(
                    0,
                    off + consumed,
                ));
                assert(spec_u32_to_le_bytes(count) + spec_name_list_bytes(out@) =~= b@.subrange(
                    0,
                    off + consumed,
                ));
            }
            off = off + consumed;
            i += 1;
        }
        if off != blen {
            proof {
                assert(spec_name_entries_end(b@, off as int, 0) == Some(off as int));
            }
            return Err(DecodeError::LengthMismatch { expected: off, actual: blen });
        }
        proof {
            assert(b@.subrange(0, blen as int) =~= b@);
        }
        Ok(DeleteNodesSendMetaData { deleted_servers_info: out })
    }
}

} // verus!

