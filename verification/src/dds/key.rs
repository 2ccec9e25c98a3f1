//! Keys of data instances and the trait that exchanged data implements.
use vstd::prelude::*;
use crate::message::cdr::zeros;

verus! {

/// The 16-octet hash that identifies an instance (RTPS 9.6.3.8).
#[derive(Clone, Copy, Debug)]
pub struct KeyHash {
    pub _hash: [u8; 16],
}

/// The MD5 digest of `data`, as the `md5` crate computes it.
pub uninterp spec fn md5_digest(data: Seq<u8>) -> Seq<u8>;

/// Computes the MD5 digest of `data` with `md5::compute`; the contract names
/// the result and claims nothing else of it.
#[verifier::external_body]
fn md5_compute(data: &[u8]) -> (d: [u8; 16])
    ensures
        d@ == md5_digest(data@),
{
    md5::compute(data).0
}

/// The key hash of a key serialized in big-endian CDR: the octets padded with
/// zeros to sixteen when they fit, their MD5 digest when they do not.
pub open spec fn spec_key_hash_of(serialized: Seq<u8>) -> Seq<u8> {
    if serialized.len() <= 16 {
        serialized + zeros(16 - serialized.len())
    } else {
        md5_digest(serialized)
    }
}

impl KeyHash {
    /// The key hash made of the sixteen octets of `bytes`.
    pub fn new(bytes: &[u8]) -> (k: KeyHash)
        requires
            bytes@.len() == 16,
        ensures
            k._hash@ == bytes@,
    {
        let mut hash_in = [0u8; 16];
        let mut i: usize = 0;
        while i < 16
            invariant
                0 <= i <= 16,
                bytes@.len() == 16,
                forall|j: int| 0 <= j < i ==> hash_in@[j] == bytes@[j],
            decreases 16 - i,
        {
            hash_in.set(i, bytes[i]);
            i = i + 1;
        }
        assert(hash_in@ =~= bytes@);
        KeyHash { _hash: hash_in }
    }

    /// The all-zero key hash of data without a key.
    pub fn zero() -> (k: KeyHash)
        ensures
            k._hash@ == zeros(16),
    {
        let k = KeyHash { _hash: [0u8; 16] };
        assert(k._hash@ =~= zeros(16));
        k
    }

    /// The key hash of a key serialized in big-endian CDR: short keys padded
    /// with zeros, longer ones hashed with MD5.
    pub fn from_serialized_key(serialized: &[u8]) -> (k: KeyHash)
        ensures
            k._hash@ == spec_key_hash_of(serialized@),
    {
        if serialized.len() <= 16 {
            let mut hash_in = [0u8; 16];
            let mut i: usize = 0;
            while i < serialized.len()
                invariant
                    0 <= i <= serialized@.len() <= 16,
                    forall|j: int| 0 <= j < i ==> hash_in@[j] == serialized@[j],
                    forall|j: int| serialized@.len() <= j < 16 ==> hash_in@[j] == 0,
                decreases serialized@.len() - i,
            {
                hash_in.set(i, serialized[i]);
                i = i + 1;
            }
            assert(hash_in@ =~= spec_key_hash_of(serialized@));
            KeyHash { _hash: hash_in }
        } else {
            KeyHash { _hash: md5_compute(serialized) }
        }
    }

    /// Whether both hashes hold the same octets.
    pub fn same(&self, other: &KeyHash) -> (r: bool)
        ensures
            r == (self._hash@ == other._hash@),
    {
        let mut i: usize = 0;
        while i < 16
            invariant
                0 <= i <= 16,
                forall|j: int| 0 <= j < i ==> self._hash@[j] == other._hash@[j],
            decreases 16 - i,
        {
            if self._hash[i] != other._hash[i] {
                return false;
            }
            i = i + 1;
        }
        assert(self._hash@ =~= other._hash@);
        true
    }
}

/// Data exchanged through DDS. Each type names its topic type, says whether
/// it has a key, and computes the key hash of a value.
pub trait DdsData {
    type KeyHolder;

    fn gen_key(&self) -> Option<KeyHash>;

    fn gen_key_holder(&self) -> Option<Self::KeyHolder>;

    /// The type name of the topic.
    fn data_type_name() -> String;

    /// Whether the type has a key.
    fn is_with_key() -> bool;
}

/// Marks the types a key field may have: the IDL integer, boolean and
/// character types, strings, and sequences of keys. (The floating-point types
/// that IDL also allows have no place in this library.)
pub trait Key {}

impl Key for bool {}

impl Key for char {}

impl Key for u8 {}

impl Key for i16 {}

impl Key for u16 {}

impl Key for i32 {}

impl Key for u32 {}

impl Key for i64 {}

impl Key for u64 {}

impl Key for String {}

impl<K: Key> Key for Vec<K> {}

} // verus!
