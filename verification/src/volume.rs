//! The volume model: named capacity units tracked by the manager, the unit
//! of allocation handed to mount requests.
//!
//! A volume is a name (unique within the ledger), a total size and a used
//! size. The ledger enforces unique names on creation, refuses deleting an
//! absent or still-used volume, and refuses a usage update that would exceed
//! the volume's size: accounting never shows more used than available.

use vstd::bytes::{spec_u64_from_le_bytes, spec_u64_to_le_bytes};
use vstd::prelude::*;
use vstd::utf8::{encode_utf8, encode_utf8_decode_utf8, encode_utf8_valid_utf8};

use crate::codec::{
    get_string, get_u64, put_string, put_u64, spec_string_field_chars, spec_string_field_err,
    spec_string_field_ok, spec_string_field_size, spec_string_to_bytes,
};
use crate::errors::{DecodeError, VolumeError};

verus! {

/// One named capacity unit: its unique name, total size, and used size.
#[derive(Clone, PartialEq, Eq, Debug)]
pub struct Volume {
    pub name: String,
    pub size: u64,
    pub used_size: u64,
}

impl Volume {
    /// The wire encoding of a volume: the name as a length-prefixed string,
    /// then the total and used sizes as 64-bit little-endian integers.
    pub open spec fn spec_encode(self) -> Seq<u8> {
        spec_string_to_bytes(self.name@) + spec_u64_to_le_bytes(self.size) + spec_u64_to_le_bytes(
            self.used_size,
        )
    }

    /// Whether a buffer is exactly one encoded volume.
    pub open spec fn spec_decode_ok(b: Seq<u8>) -> bool {
        &&& spec_string_field_ok(b, 0)
        &&& spec_string_field_size(b, 0) + 16 == b.len()
    }

    /// Encode this volume as its wire bytes.
    pub fn encode(&self) -> (r: Vec<u8>)
        requires
            encode_utf8(self.name@).len() <= u32::MAX,
        ensures
            r@ == self.spec_encode(),
    {
        let mut out: Vec<u8> = Vec::new();
        put_string(&mut out, self.name.as_str());
        put_u64(&mut out, self.size);
        put_u64(&mut out, self.used_size);
        proof {
            assert(out@ =~= self.spec_encode());
        }
        out
    }

    /// Decode a volume from its wire bytes. Succeeds exactly on a buffer
    /// that is one whole encoded volume.
    pub fn decode(b: &[u8]) -> (r: Result<Volume, DecodeError>)
        ensures
            Self::spec_decode_ok(b@) <==> r is Ok,
            r matches Ok(v) ==> {
                &&& v.name@ == spec_string_field_chars(b@, 0)
                &&& v.size == spec_u64_from_le_bytes(
                    b@.subrange(
                        spec_string_field_size(b@, 0),
                        spec_string_field_size(b@, 0) + 8,
                    ),
                )
                &&& v.used_size == spec_u64_from_le_bytes(
                    b@.subrange(
                        spec_string_field_size(b@, 0) + 8,
                        spec_string_field_size(b@, 0) + 16,
                    ),
                )
            },
            !spec_string_field_ok(b@, 0) ==> r == Err::<Volume, DecodeError>(
                spec_string_field_err(b@, 0),
            ),
    {
        let (name, consumed) = match get_string(b, 0) {
            Ok(x) => x,
            Err(e) => {
                return Err(e);
            },
        };
        let blen: usize = b.len();
        let rest: usize = blen - consumed;
        if rest < 16 {
            return Err(DecodeError::Truncated { needed: 16, remaining: rest });
        }
        if rest != 16 {
            return Err(
                DecodeError::LengthMismatch { expected: consumed + 16, actual: blen },
            );
        }
        let size = get_u64(b, consumed);
        let used_size = get_u64(b, consumed + 8);
        Ok(Volume { name, size, used_size })
    }
}

/// Law: the volume codec round-trips: the encoding of any volume whose name
/// fits the length prefix decodes back to the same name and sizes.
pub proof fn lemma_volume_round_trip(v: Volume)
    requires
        encode_utf8(v.name@).len() <= u32::MAX,
    ensures
        Volume::spec_decode_ok(v.spec_encode()),
        spec_string_field_chars(v.spec_encode(), 0) == v.name@,
        spec_u64_from_le_bytes(
            v.spec_encode().subrange(
                spec_string_field_size(v.spec_encode(), 0),
                spec_string_field_size(v.spec_encode(), 0) + 8,
            ),
        ) == v.size,
        spec_u64_from_le_bytes(
            v.spec_encode().subrange(
                spec_string_field_size(v.spec_encode(), 0) + 8,
                spec_string_field_size(v.spec_encode(), 0) + 16,
            ),
        ) == v.used_size,
{
    vstd::bytes::lemma_auto_spec_u32_to_from_le_bytes();
    vstd::bytes::lemma_auto_spec_u64_to_from_le_bytes();
    encode_utf8_valid_utf8(v.name@);
    encode_utf8_decode_utf8(v.name@);
    let b = v.spec_encode();
    let nb = encode_utf8(v.name@);
    let n = nb.len() as u32;
    assert(b.subrange(0, 4) =~= vstd::bytes::spec_u32_to_le_bytes(n));
    assert(spec_string_field_size(b, 0) == 4 + n);
    assert(b.subrange(4, 4 + n) =~= nb);
    assert(b.subrange(4 + n, 12 + n) =~= spec_u64_to_le_bytes(v.size));
    assert(b.subrange(12 + n, 20 + n) =~= spec_u64_to_le_bytes(v.used_size));
}

/// Whether some volume in the sequence bears the given name.
pub open spec fn spec_has_volume(s: Seq<Volume>, name: Seq<char>) -> bool {
    exists|i: int| 0 <= i < s.len() && s[i].name@ == name
}

/// The position of the volume bearing the given name.
pub open spec fn spec_volume_index(s: Seq<Volume>, name: Seq<char>) -> int {
    choose|i: int| 0 <= i < s.len() && s[i].name@ == name
}

/// The volume bearing the given name.
pub open spec fn spec_volume_at(s: Seq<Volume>, name: Seq<char>) -> Volume {
    s[spec_volume_index(s, name)]
}

/// The capacity ledger: the manager's set of volumes, names unique.
#[derive(Clone, Debug)]
pub struct VolumeRegistry {
    pub volumes: Vec<Volume>,
}

impl VolumeRegistry {
    /// Well-formedness: volume names are unique and accounting is sound,
    /// never showing more used than available.
    pub open spec fn wf(self) -> bool {
        &&& forall|i: int, j: int|
            0 <= i < j < self.volumes@.len() ==> self.volumes@[i].name@ != self.volumes@[j].name@
        &&& forall|i: int|
            0 <= i < self.volumes@.len() ==> #[trigger] self.volumes@[i].used_size
                <= self.volumes@[i].size
    }

    /// An empty ledger.
    pub fn new() -> (r: VolumeRegistry)
        ensures
            r.wf(),
            r.volumes@.len() == 0,
    {
        VolumeRegistry { volumes: Vec::new() }
    }

    /// Find the position of the volume bearing `name`, if any.
    fn find(&self, name: &String) -> (r: Option<usize>)
        ensures
            r matches Some(i) ==> i < self.volumes@.len() && self.volumes@[i as int].name@
                == name@,
            r is None ==> !spec_has_volume(self.volumes@, name@),
    {
        let n = self.volumes.len();
        let mut i: usize = 0;
        loop
            invariant
                i <= n,
                n == self.volumes@.len(),
                forall|j: int| 0 <= j < i ==> self.volumes@[j].name@ != name@,
            ensures
                i <= n,
                forall|j: int| 0 <= j < i ==> self.volumes@[j].name@ != name@,
                i < n ==> self.volumes@[i as int].name@ == name@,
            decreases n - i,
        {
            if i == n {
                break ;
            }
            if self.volumes[i].name == *name {
                break ;
            }
            i += 1;
        }
        if i < n {
            Some(i)
        } else {
            None
        }
    }

    /// Create a volume. Fails with a duplicate-name error when the name is
    /// taken and with a zero-size error when the requested size is zero;
    /// otherwise the new volume is appended with nothing used.
    pub fn create_volume(&mut self, name: String, size: u64) -> (r: Result<(), VolumeError>)
        requires
            old(self).wf(),
        ensures
            final(self).wf(),
            spec_has_volume(old(self).volumes@, name@) ==> r == Err::<(), VolumeError>(
                VolumeError::DuplicateName,
            ) && *final(self) == *old(self),
            !spec_has_volume(old(self).volumes@, name@) && size == 0 ==> r == Err::<
                (),
                VolumeError,
            >(VolumeError::ZeroSize) && *final(self) == *old(self),
            !spec_has_volume(old(self).volumes@, name@) && size > 0 ==> r == Ok::<
                (),
                VolumeError,
            >(()) && final(self).volumes@ == old(self).volumes@.push(
                Volume { name, size, used_size: 0 },
            ),
    {
        if let Some(_i) = self.find(&name) {
            proof {
                assert(spec_has_volume(self.volumes@, name@));
            }
            return Err(VolumeError::DuplicateName);
        }
        if size == 0 {
            return Err(VolumeError::ZeroSize);
        }
        self.volumes.push(Volume { name, size, used_size: 0 });
        Ok(())
    }

    /// Delete the volume bearing `name`. Fails with a not-found error when
    /// no volume bears the name and with an in-use error when it still
    /// accounts used space; otherwise exactly that volume is removed.
    pub fn delete_volume(&mut self, name: &String) -> (r: Result<(), VolumeError>)
        requires
            old(self).wf(),
        ensures
            final(self).wf(),
            !spec_has_volume(old(self).volumes@, name@) ==> r == Err::<(), VolumeError>(
                VolumeError::NotFound,
            ) && *final(self) == *old(self),
            spec_has_volume(old(self).volumes@, name@) && spec_volume_at(
                old(self).volumes@,
                name@,
            ).used_size > 0 ==> r == Err::<(), VolumeError>(VolumeError::InUse) && *final(self)
                == *old(self),
            spec_has_volume(old(self).volumes@, name@) && spec_volume_at(
                old(self).volumes@,
                name@,
            ).used_size == 0 ==> r == Ok::<(), VolumeError>(()) && final(self).volumes@ == old(
                self,
            ).volumes@.remove(spec_volume_index(old(self).volumes@, name@)),
    {
        let i = match self.find(name) {
            Some(i) => i,
            None => {
                return Err(VolumeError::NotFound);
            },
        };
        proof {
            self.lemma_find_is_spec_index(i as int, name@);
        }
        if self.volumes[i].used_size > 0 {
            return Err(VolumeError::InUse);
        }
        self.volumes.remove(i);
        Ok(())
    }

    /// Set the used size of the volume bearing `name`. Fails with a
    /// not-found error when no volume bears the name and with an
    /// over-capacity error when the new used size would exceed the volume's
    /// size; otherwise exactly that volume's used size is replaced.
    pub fn update_usage(&mut self, name: &String, used_size: u64) -> (r: Result<(), VolumeError>)
        requires
            old(self).wf(),
        ensures
            final(self).wf(),
            !spec_has_volume(old(self).volumes@, name@) ==> r == Err::<(), VolumeError>(
                VolumeError::NotFound,
            ) && *final(self) == *old(self),
            spec_has_volume(old(self).volumes@, name@) && used_size > spec_volume_at(
                old(self).volumes@,
                name@,
            ).size ==> r == Err::<(), VolumeError>(VolumeError::OverCapacity) && *final(self)
                == *old(self),
            spec_has_volume(old(self).volumes@, name@) && used_size <= spec_volume_at(
                old(self).volumes@,
                name@,
            ).size ==> r == Ok::<(), VolumeError>(()) && {
                let i = spec_volume_index(old(self).volumes@, name@);
                final(self).volumes@ == old(self).volumes@.update(
                    i,
                    Volume {
                        name: old(self).volumes@[i].name,
                        size: old(self).volumes@[i].size,
                        used_size,
                    },
                )
            },
    {
        let i = match self.find(name) {
            Some(i) => i,
            None => {
                return Err(VolumeError::NotFound);
            },
        };
        proof {
            self.lemma_find_is_spec_index(i as int, name@);
        }
        if used_size > self.volumes[i].size {
            return Err(VolumeError::OverCapacity);
        }
        let v = self.volumes.remove(i);
        self.volumes.insert(i, Volume { name: v.name, size: v.size, used_size });
        proof {
            assert(self.volumes@ =~= old(self).volumes@.update(
                i as int,
                self.volumes@[i as int],
            ));
        }
        Ok(())
    }

    /// The number of volumes in the ledger.
    pub fn len(&self) -> (r: usize)
        ensures
            r == self.volumes@.len(),
    {
        self.volumes.len()
    }

    /// The volume at position `i` of the ledger.
    pub fn volume_at(&self, i: usize) -> (r: &Volume)
        requires
            i < self.volumes@.len(),
        ensures
            r == self.volumes@[i as int],
    {
        &self.volumes[i]
    }

    /// With unique names, any index whose volume bears `name` is the index
    /// the specification names.
    proof fn lemma_find_is_spec_index(self, i: int, name: Seq<char>)
        requires
            self.wf(),
            0 <= i < self.volumes@.len(),
            self.volumes@[i].name@ == name,
        ensures
            spec_volume_index(self.volumes@, name) == i,
            spec_volume_at(self.volumes@, name) == self.volumes@[i],
    {
        let j = spec_volume_index(self.volumes@, name);
        assert(0 <= j < self.volumes@.len() && self.volumes@[j].name@ == name);
        if i < j {
            assert(self.volumes@[i].name@ != self.volumes@[j].name@);
        } else if j < i {
            assert(self.volumes@[j].name@ != self.volumes@[i].name@);
        }
    }
}

/// Law: usage accounting never shows more used than available: every volume
/// of a well-formed ledger has its used size within its size.
pub proof fn lemma_registry_accounting_sound(reg: VolumeRegistry, i: int)
    requires
        reg.wf(),
        0 <= i < reg.volumes@.len(),
    ensures
        reg.volumes@[i].used_size <= reg.volumes@[i].size,
{
}

} // verus!
