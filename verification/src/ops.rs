//! Operation registry: the closed sets of wire opcodes for filesystem
//! operations and manager operations, the server role tag, and the inode kind
//! tag, each with a total encode and a fallible decode.
//!
//! Filesystem opcodes occupy 0 through 24 and manager opcodes 101 through 109;
//! the two ranges are disjoint. Decoding an integer outside a declared range
//! is a hard decode failure, never a silent default.

use vstd::prelude::*;

use crate::errors::DecodeError;

verus! {

/// A filesystem operation opcode (range 0 through 24). Opcode 0 is the
/// explicit "unknown" sentinel accepted at the boundary for filesystem
/// operations only.
#[derive(Clone, Copy, PartialEq, Eq, Structural, Debug)]
pub enum OperationType {
    Unkown,
    Lookup,
    CreateFile,
    CreateDir,
    GetFileAttr,
    ReadDir,
    OpenFile,
    ReadFile,
    WriteFile,
    DeleteFile,
    DeleteDir,
    DirectoryAddEntry,
    DirectoryDeleteEntry,
    TruncateFile,
    CheckFile,
    CheckDir,
    CreateDirNoParent,
    CreateFileNoParent,
    DeleteDirNoParent,
    DeleteFileNoParent,
    CreateVolume,
    InitVolume,
    ListVolumes,
    DeleteVolume,
    CleanVolume,
}

impl OperationType {
    /// The wire integer of this opcode.
    pub open spec fn spec_encode(self) -> u32 {
        match self {
            OperationType::Unkown => 0,
            OperationType::Lookup => 1,
            OperationType::CreateFile => 2,
            OperationType::CreateDir => 3,
            OperationType::GetFileAttr => 4,
            OperationType::ReadDir => 5,
            OperationType::OpenFile => 6,
            OperationType::ReadFile => 7,
            OperationType::WriteFile => 8,
            OperationType::DeleteFile => 9,
            OperationType::DeleteDir => 10,
            OperationType::DirectoryAddEntry => 11,
            OperationType::DirectoryDeleteEntry => 12,
            OperationType::TruncateFile => 13,
            OperationType::CheckFile => 14,
            OperationType::CheckDir => 15,
            OperationType::CreateDirNoParent => 16,
            OperationType::CreateFileNoParent => 17,
            OperationType::DeleteDirNoParent => 18,
            OperationType::DeleteFileNoParent => 19,
            OperationType::CreateVolume => 20,
            OperationType::InitVolume => 21,
            OperationType::ListVolumes => 22,
            OperationType::DeleteVolume => 23,
            OperationType::CleanVolume => 24,
        }
    }

    /// Encode this opcode as its wire integer. Total: the kind set is closed.
    pub fn encode(self) -> (code: u32)
        ensures
            code == self.spec_encode(),
            code <= 24,
    {
        match self {
            OperationType::Unkown => 0,
            OperationType::Lookup => 1,
            OperationType::CreateFile => 2,
            OperationType::CreateDir => 3,
            OperationType::GetFileAttr => 4,
            OperationType::ReadDir => 5,
            OperationType::OpenFile => 6,
            OperationType::ReadFile => 7,
            OperationType::WriteFile => 8,
            OperationType::DeleteFile => 9,
            OperationType::DeleteDir => 10,
            OperationType::DirectoryAddEntry => 11,
            OperationType::DirectoryDeleteEntry => 12,
            OperationType::TruncateFile => 13,
            OperationType::CheckFile => 14,
            OperationType::CheckDir => 15,
            OperationType::CreateDirNoParent => 16,
            OperationType::CreateFileNoParent => 17,
            OperationType::DeleteDirNoParent => 18,
            OperationType::DeleteFileNoParent => 19,
            OperationType::CreateVolume => 20,
            OperationType::InitVolume => 21,
            OperationType::ListVolumes => 22,
            OperationType::DeleteVolume => 23,
            OperationType::CleanVolume => 24,
        }
    }

    /// Decode a wire integer into a filesystem opcode. Succeeds exactly on
    /// the declared range 0 through 24, and the result encodes back to the
    /// input; any other integer is an unrecognized-opcode failure.
    pub fn decode(code: u32) -> (r: Result<OperationType, DecodeError>)
        ensures
            code <= 24 ==> (r matches Ok(k) && k.spec_encode() == code),
            code > 24 ==> r == Err::<OperationType, DecodeError>(
                DecodeError::UnrecognizedOpcode { code },
            ),
    {
        match code {
            0 => Ok(OperationType::Unkown),
            1 => Ok(OperationType::Lookup),
            2 => Ok(OperationType::CreateFile),
            3 => Ok(OperationType::CreateDir),
            4 => Ok(OperationType::GetFileAttr),
            5 => Ok(OperationType::ReadDir),
            6 => Ok(OperationType::OpenFile),
            7 => Ok(OperationType::ReadFile),
            8 => Ok(OperationType::WriteFile),
            9 => Ok(OperationType::DeleteFile),
            10 => Ok(OperationType::DeleteDir),
            11 => Ok(OperationType::DirectoryAddEntry),
            12 => Ok(OperationType::DirectoryDeleteEntry),
            13 => Ok(OperationType::TruncateFile),
            14 => Ok(OperationType::CheckFile),
            15 => Ok(OperationType::CheckDir),
            16 => Ok(OperationType::CreateDirNoParent),
            17 => Ok(OperationType::CreateFileNoParent),
            18 => Ok(OperationType::DeleteDirNoParent),
            19 => Ok(OperationType::DeleteFileNoParent),
            20 => Ok(OperationType::CreateVolume),
            21 => Ok(OperationType::InitVolume),
            22 => Ok(OperationType::ListVolumes),
            23 => Ok(OperationType::DeleteVolume),
            24 => Ok(OperationType::CleanVolume),
            _ => Err(DecodeError::UnrecognizedOpcode { code }),
        }
    }
}

/// Law: `decode` inverts `encode` for every filesystem opcode.
pub proof fn lemma_operation_type_round_trip(k: OperationType)
    ensures
        k.spec_encode() <= 24,
        forall|j: OperationType| k.spec_encode() == j.spec_encode() ==> k == j,
{
}

/// A manager operation opcode (range 101 through 109).
#[derive(Clone, Copy, PartialEq, Eq, Structural, Debug)]
pub enum ManagerOperationType {
    SendHeart,
    GetMetadata,
    GetClusterStatus,
    GetHashRing,
    GetNewHashRing,
    AddNodes,
    RemoveNodes,
    UpdateServerStatus,
    FinishServer,
}

impl ManagerOperationType {
    /// The wire integer of this opcode.
    pub open spec fn spec_encode(self) -> u32 {
        match self {
            ManagerOperationType::SendHeart => 101,
            ManagerOperationType::GetMetadata => 102,
            ManagerOperationType::GetClusterStatus => 103,
            ManagerOperationType::GetHashRing => 104,
            ManagerOperationType::GetNewHashRing => 105,
            ManagerOperationType::AddNodes => 106,
            ManagerOperationType::RemoveNodes => 107,
            ManagerOperationType::UpdateServerStatus => 108,
            ManagerOperationType::FinishServer => 109,
        }
    }

    /// Encode this opcode as its wire integer. Total: the kind set is closed.
    pub fn encode(self) -> (code: u32)
        ensures
            code == self.spec_encode(),
            101 <= code <= 109,
    {
        match self {
            ManagerOperationType::SendHeart => 101,
            ManagerOperationType::GetMetadata => 102,
            ManagerOperationType::GetClusterStatus => 103,
            ManagerOperationType::GetHashRing => 104,
            ManagerOperationType::GetNewHashRing => 105,
            ManagerOperationType::AddNodes => 106,
            ManagerOperationType::RemoveNodes => 107,
            ManagerOperationType::UpdateServerStatus => 108,
            ManagerOperationType::FinishServer => 109,
        }
    }

    /// Decode a wire integer into a manager opcode. Succeeds exactly on the
    /// declared range 101 through 109, and the result encodes back to the
    /// input; any other integer is an unrecognized-opcode failure.
    pub fn decode(code: u32) -> (r: Result<ManagerOperationType, DecodeError>)
        ensures
            101 <= code <= 109 ==> (r matches Ok(k) && k.spec_encode() == code),
            !(101 <= code <= 109) ==> r == Err::<ManagerOperationType, DecodeError>(
                DecodeError::UnrecognizedOpcode { code },
            ),
    {
        match code {
            101 => Ok(ManagerOperationType::SendHeart),
            102 => Ok(ManagerOperationType::GetMetadata),
            103 => Ok(ManagerOperationType::GetClusterStatus),
            104 => Ok(ManagerOperationType::GetHashRing),
            105 => Ok(ManagerOperationType::GetNewHashRing),
            106 => Ok(ManagerOperationType::AddNodes),
            107 => Ok(ManagerOperationType::RemoveNodes),
            108 => Ok(ManagerOperationType::UpdateServerStatus),
            109 => Ok(ManagerOperationType::FinishServer),
            _ => Err(DecodeError::UnrecognizedOpcode { code }),
        }
    }

    /// The little-endian wire encoding of this opcode, as it is laid down at
    /// the head of every manager request.
    pub fn to_le_bytes(&self) -> (r: [u8; 4])
        ensures
            r@ == vstd::bytes::spec_u32_to_le_bytes(self.spec_encode()),
    {
        let code = self.encode();
        let v = vstd::bytes::u32_to_le_bytes(code);
        let r = [v[0], v[1], v[2], v[3]];
        proof {
            assert(r@ =~= vstd::bytes::spec_u32_to_le_bytes(code));
        }
        r
    }
}

/// Law: `decode` inverts `encode` for every manager opcode.
pub proof fn lemma_manager_operation_type_round_trip(k: ManagerOperationType)
    ensures
        101 <= k.spec_encode() <= 109,
        forall|j: ManagerOperationType| k.spec_encode() == j.spec_encode() ==> k == j,
{
}

/// A decoded opcode: either a filesystem operation or a manager operation.
#[derive(Clone, Copy, PartialEq, Eq, Structural, Debug)]
pub enum Opcode {
    Fs(OperationType),
    Manager(ManagerOperationType),
}

impl Opcode {
    /// The wire integer of this opcode, whichever range it belongs to.
    pub open spec fn spec_encode(self) -> u32 {
        match self {
            Opcode::Fs(k) => k.spec_encode(),
            Opcode::Manager(k) => k.spec_encode(),
        }
    }

    /// Encode this opcode as its wire integer.
    pub fn encode(self) -> (code: u32)
        ensures
            code == self.spec_encode(),
    {
        match self {
            Opcode::Fs(k) => k.encode(),
            Opcode::Manager(k) => k.encode(),
        }
    }

    /// Decode a wire integer from either declared opcode range. Succeeds
    /// exactly on 0 through 24 and 101 through 109, returning a value that
    /// encodes back to the input; every other integer is rejected.
    pub fn decode(code: u32) -> (r: Result<Opcode, DecodeError>)
        ensures
            code <= 24 || 101 <= code <= 109 ==> (r matches Ok(k) && k.spec_encode() == code),
            code <= 24 ==> (r matches Ok(k) && k matches Opcode::Fs(_)),
            101 <= code <= 109 ==> (r matches Ok(k) && k matches Opcode::Manager(_)),
            !(code <= 24 || 101 <= code <= 109) ==> r == Err::<Opcode, DecodeError>(
                DecodeError::UnrecognizedOpcode { code },
            ),
    {
        if code <= 24 {
            match OperationType::decode(code) {
                Ok(k) => Ok(Opcode::Fs(k)),
                Err(e) => Err(e),
            }
        } else if 101 <= code && code <= 109 {
            match ManagerOperationType::decode(code) {
                Ok(k) => Ok(Opcode::Manager(k)),
                Err(e) => Err(e),
            }
        } else {
            Err(DecodeError::UnrecognizedOpcode { code })
        }
    }
}

/// Law: over the combined registry, `decode(encode(k)) == k` for every
/// declared opcode, and `decode` fails for every integer outside the two
/// declared ranges (the failure case is stated by `Opcode::decode` itself).
pub proof fn lemma_opcode_round_trip(k: Opcode)
    ensures
        k.spec_encode() <= 24 || 101 <= k.spec_encode() <= 109,
        forall|j: Opcode| k.spec_encode() == j.spec_encode() ==> k == j,
{
}

/// The role a server plays in the ring: a steady member, a node being added,
/// or a node being removed.
#[derive(Clone, Copy, PartialEq, Eq, Structural, Debug)]
pub enum ServerType {
    Running,
    Add,
    Remove,
}

impl ServerType {
    /// The wire integer of this role tag.
    pub open spec fn spec_encode(self) -> u32 {
        match self {
            ServerType::Running => 1,
            ServerType::Add => 2,
            ServerType::Remove => 3,
        }
    }

    /// Encode this role tag as its wire integer.
    pub fn encode(self) -> (code: u32)
        ensures
            code == self.spec_encode(),
    {
        match self {
            ServerType::Running => 1,
            ServerType::Add => 2,
            ServerType::Remove => 3,
        }
    }

    /// Decode a wire integer into a role tag. Succeeds exactly on 1 through
    /// 3, and the result encodes back to the input.
    pub fn decode(code: u32) -> (r: Result<ServerType, DecodeError>)
        ensures
            1 <= code <= 3 ==> (r matches Ok(k) && k.spec_encode() == code),
            !(1 <= code <= 3) ==> r == Err::<ServerType, DecodeError>(
                DecodeError::UnrecognizedCode { code },
            ),
    {
        match code {
            1 => Ok(ServerType::Running),
            2 => Ok(ServerType::Add),
            3 => Ok(ServerType::Remove),
            _ => Err(DecodeError::UnrecognizedCode { code }),
        }
    }

    /// The display name of this role tag.
    pub fn name(&self) -> (r: String)
        ensures
            self is Running ==> r@ == "Running"@,
            self is Add ==> r@ == "Add"@,
            self is Remove ==> r@ == "Remove"@,
    {
        match self {
            ServerType::Running => "Running".to_owned(),
            ServerType::Add => "Add".to_owned(),
            ServerType::Remove => "Remove".to_owned(),
        }
    }
}

/// The kind of an inode: one of the seven closed variants.
#[derive(Clone, Copy, PartialEq, Eq, Structural, Debug)]
pub enum FileTypeSimple {
    RegularFile,
    NamedPipe,
    CharDevice,
    BlockDevice,
    Directory,
    Symlink,
    Socket,
}

impl FileTypeSimple {
    /// The wire tag of this kind, as carried in directory-entry payloads.
    pub open spec fn spec_encode(self) -> u8 {
        match self {
            FileTypeSimple::RegularFile => 0,
            FileTypeSimple::NamedPipe => 1,
            FileTypeSimple::CharDevice => 2,
            FileTypeSimple::BlockDevice => 3,
            FileTypeSimple::Directory => 4,
            FileTypeSimple::Symlink => 5,
            FileTypeSimple::Socket => 6,
        }
    }

    /// Encode this kind as its one-byte wire tag.
    pub fn encode(self) -> (code: u8)
        ensures
            code == self.spec_encode(),
            code <= 6,
    {
        match self {
            FileTypeSimple::RegularFile => 0,
            FileTypeSimple::NamedPipe => 1,
            FileTypeSimple::CharDevice => 2,
            FileTypeSimple::BlockDevice => 3,
            FileTypeSimple::Directory => 4,
            FileTypeSimple::Symlink => 5,
            FileTypeSimple::Socket => 6,
        }
    }

    /// Decode a one-byte wire tag into a kind. Succeeds exactly on 0 through
    /// 6, and the result encodes back to the input.
    pub fn decode(code: u8) -> (r: Result<FileTypeSimple, DecodeError>)
        ensures
            code <= 6 ==> (r matches Ok(k) && k.spec_encode() == code),
            code > 6 ==> r == Err::<FileTypeSimple, DecodeError>(
                DecodeError::UnrecognizedCode { code: code as u32 },
            ),
    {
        match code {
            0 => Ok(FileTypeSimple::RegularFile),
            1 => Ok(FileTypeSimple::NamedPipe),
            2 => Ok(FileTypeSimple::CharDevice),
            3 => Ok(FileTypeSimple::BlockDevice),
            4 => Ok(FileTypeSimple::Directory),
            5 => Ok(FileTypeSimple::Symlink),
            6 => Ok(FileTypeSimple::Socket),
            _ => Err(DecodeError::UnrecognizedCode { code: code as u32 }),
        }
    }

    /// The kind number used inside an attribute record, which orders the
    /// kinds as the kernel metadata interface does (named pipe first).
    pub open spec fn spec_attr_kind(self) -> u32 {
        match self {
            FileTypeSimple::NamedPipe => 0,
            FileTypeSimple::CharDevice => 1,
            FileTypeSimple::BlockDevice => 2,
            FileTypeSimple::Directory => 3,
            FileTypeSimple::RegularFile => 4,
            FileTypeSimple::Symlink => 5,
            FileTypeSimple::Socket => 6,
        }
    }

    /// The kind number used inside an attribute record.
    pub fn attr_kind(self) -> (code: u32)
        ensures
            code == self.spec_attr_kind(),
            code <= 6,
    {
        match self {
            FileTypeSimple::NamedPipe => 0,
            FileTypeSimple::CharDevice => 1,
            FileTypeSimple::BlockDevice => 2,
            FileTypeSimple::Directory => 3,
            FileTypeSimple::RegularFile => 4,
            FileTypeSimple::Symlink => 5,
            FileTypeSimple::Socket => 6,
        }
    }

    /// Decode an attribute-record kind number. Succeeds exactly on 0 through
    /// 6, inverting `attr_kind`.
    pub fn from_attr_kind(code: u32) -> (r: Result<FileTypeSimple, DecodeError>)
        ensures
            code <= 6 ==> (r matches Ok(k) && k.spec_attr_kind() == code),
            code > 6 ==> r == Err::<FileTypeSimple, DecodeError>(
                DecodeError::UnrecognizedCode { code },
            ),
    {
        match code {
            0 => Ok(FileTypeSimple::NamedPipe),
            1 => Ok(FileTypeSimple::CharDevice),
            2 => Ok(FileTypeSimple::BlockDevice),
            3 => Ok(FileTypeSimple::Directory),
            4 => Ok(FileTypeSimple::RegularFile),
            5 => Ok(FileTypeSimple::Symlink),
            6 => Ok(FileTypeSimple::Socket),
            _ => Err(DecodeError::UnrecognizedCode { code }),
        }
    }
}

/// Law: both kind numberings of `FileTypeSimple` are injective, so decoding
/// an encoded kind gives back the same kind.
pub proof fn lemma_file_type_round_trip(k: FileTypeSimple)
    ensures
        k.spec_encode() <= 6,
        k.spec_attr_kind() <= 6,
        forall|j: FileTypeSimple| k.spec_encode() == j.spec_encode() ==> k == j,
        forall|j: FileTypeSimple| k.spec_attr_kind() == j.spec_attr_kind() ==> k == j,
{
}

} // verus!
