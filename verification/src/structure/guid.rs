use vstd::prelude::*;
use crate::structure::entity_id::EntityId;

verus! {

/// The twelve octets that every GUID of one participant starts with.
#[derive(Clone, Copy, Debug)]
pub struct GuidPrefix {
    pub guid_prefix: [u8; 12],
}

impl PartialEq for GuidPrefix {
    fn eq(&self, other: &GuidPrefix) -> (r: bool) {
        let mut i: usize = 0;
        while i < 12
            invariant
                0 <= i <= 12,
                forall|j: int| 0 <= j < i ==> self.guid_prefix@[j] == other.guid_prefix@[j],
            decreases 12 - i,
        {
            if self.guid_prefix[i] != other.guid_prefix[i] {
                return false;
            }
            i = i + 1;
        }
        assert(self.guid_prefix@ =~= other.guid_prefix@);
        true
    }
}

impl vstd::std_specs::cmp::PartialEqSpecImpl for GuidPrefix {
    open spec fn obeys_eq_spec() -> bool {
        true
    }

    open spec fn eq_spec(&self, other: &GuidPrefix) -> bool {
        self.guid_prefix@ == other.guid_prefix@
    }
}

impl GuidPrefix {
    pub fn new(bytes: [u8; 12]) -> (p: GuidPrefix)
        ensures
            p.guid_prefix == bytes,
    {
        GuidPrefix { guid_prefix: bytes }
    }

    /// The prefix of no known participant: all octets zero.
    pub fn unknow() -> (p: GuidPrefix)
        ensures
            p.guid_prefix@ == Seq::new(12, |i: int| 0u8),
    {
        let p = GuidPrefix { guid_prefix: [0u8; 12] };
        assert(p.guid_prefix@ =~= Seq::new(12, |i: int| 0u8));
        p
    }

    /// Whether this is the all-zero prefix of no known participant.
    pub fn is_unknow(&self) -> (r: bool)
        ensures
            r == (self.guid_prefix@ == Seq::new(12, |i: int| 0u8)),
    {
        let mut i: usize = 0;
        while i < 12
            invariant
                0 <= i <= 12,
                forall|j: int| 0 <= j < i ==> self.guid_prefix@[j] == 0,
            decreases 12 - i,
        {
            if self.guid_prefix[i] != 0 {
                assert(self.guid_prefix@[i as int] != Seq::new(12, |i: int| 0u8)[i as int]);
                return false;
            }
            i = i + 1;
        }
        assert(self.guid_prefix@ =~= Seq::new(12, |i: int| 0u8));
        true
    }
}

/// A globally unique identifier of an RTPS entity: the participant's prefix
/// and the entity's identifier within it.
#[derive(Clone, Copy, Debug)]
pub struct GUID {
    pub guid_prefix: GuidPrefix,
    pub entity_id: EntityId,
}

impl PartialEq for GUID {
    fn eq(&self, other: &GUID) -> (r: bool) {
        self.entity_id == other.entity_id && self.guid_prefix == other.guid_prefix
    }
}

impl vstd::std_specs::cmp::PartialEqSpecImpl for GUID {
    open spec fn obeys_eq_spec() -> bool {
        true
    }

    open spec fn eq_spec(&self, other: &GUID) -> bool {
        self.guid_prefix.guid_prefix@ == other.guid_prefix.guid_prefix@ && self.entity_id
            == other.entity_id
    }
}

impl GUID {
    pub fn new(guid_prefix: GuidPrefix, entity_id: EntityId) -> (g: GUID)
        ensures
            g.guid_prefix == guid_prefix,
            g.entity_id == entity_id,
    {
        GUID { guid_prefix, entity_id }
    }
}

/// The number whose big-endian octets are `s`.
pub open spec fn be_value(s: Seq<u8>) -> int
    decreases s.len(),
{
    if s.len() == 0 {
        0
    } else {
        be_value(s.drop_last()) * 256 + s.last()
    }
}

/// 256 to the power `n`.
pub open spec fn pow256(n: nat) -> int
    decreases n,
{
    if n == 0 {
        1
    } else {
        256 * pow256((n - 1) as nat)
    }
}

proof fn lemma_be_value_bound(s: Seq<u8>)
    ensures
        0 <= be_value(s) < pow256(s.len()),
    decreases s.len(),
{
    if s.len() > 0 {
        lemma_be_value_bound(s.drop_last());
        let x = be_value(s.drop_last());
        let p = pow256(s.drop_last().len());
        let l = s.last() as int;
        assert(0 <= x * 256 + l < 256 * p) by (nonlinear_arith)
            requires
                0 <= x < p,
                0 <= l < 256,
        ;
    }
}

/// Octet sequences of one length with the same value are equal.
proof fn lemma_be_value_injective(a: Seq<u8>, b: Seq<u8>)
    requires
        a.len() == b.len(),
        be_value(a) == be_value(b),
    ensures
        a == b,
    decreases a.len(),
{
    if a.len() > 0 {
        lemma_be_value_bound(a.drop_last());
        lemma_be_value_bound(b.drop_last());
        let xa = be_value(a.drop_last());
        let xb = be_value(b.drop_last());
        let la = a.last() as int;
        let lb = b.last() as int;
        assert(xa == xb && la == lb) by (nonlinear_arith)
            requires
                xa * 256 + la == xb * 256 + lb,
                0 <= la < 256,
                0 <= lb < 256,
                xa >= 0,
                xb >= 0,
        ;
        lemma_be_value_injective(a.drop_last(), b.drop_last());
        assert(a =~= a.drop_last().push(a.last()));
        assert(b =~= b.drop_last().push(b.last()));
    } else {
        assert(a =~= b);
    }
}

impl GUID {
    /// The GUID as one number: its sixteen octets, most significant first.
    /// GUIDs are ordered by it.
    pub open spec fn rank(self) -> int {
        be_value(self.guid_prefix.guid_prefix@) * 0x1_0000_0000 + self.entity_id.spec_as_usize()
    }

    /// The GUID as one number: its sixteen octets, most significant first.
    pub fn rank_value(&self) -> (r: u128)
        ensures
            r == self.rank(),
    {
        let mut r: u128 = 0;
        let mut i: usize = 0;
        let bytes = self.guid_prefix.guid_prefix;
        proof {
            assert(bytes@.take(0) =~= Seq::<u8>::empty());
        }
        while i < 12
            invariant
                0 <= i <= 12,
                bytes == self.guid_prefix.guid_prefix,
                r == be_value(bytes@.take(i as int)),
            decreases 12 - i,
        {
            proof {
                lemma_be_value_bound(bytes@.take(i as int));
                lemma_pow256_le(i as nat, 11);
                assert(pow256(11) == 0x100_0000_0000_0000_0000_0000) by {
                    reveal_with_fuel(pow256, 12);
                }
                assert(bytes@.take(i + 1).drop_last() =~= bytes@.take(i as int));
            }
            r = r * 256 + bytes[i] as u128;
            i = i + 1;
        }
        proof {
            assert(bytes@.take(12) =~= bytes@);
            lemma_be_value_bound(bytes@);
            assert(pow256(12) == 0x1_0000_0000_0000_0000_0000_0000) by {
                reveal_with_fuel(pow256, 13);
            }
        }
        r * 0x1_0000_0000 + self.entity_id.as_usize() as u128
    }

    /// GUIDs with the same rank are the same GUID.
    pub proof fn lemma_rank_injective(a: GUID, b: GUID)
        requires
            a.rank() == b.rank(),
        ensures
            a == b,
    {
        lemma_be_value_bound(a.guid_prefix.guid_prefix@);
        lemma_be_value_bound(b.guid_prefix.guid_prefix@);
        let pa = be_value(a.guid_prefix.guid_prefix@);
        let pb = be_value(b.guid_prefix.guid_prefix@);
        let ea = a.entity_id.spec_as_usize();
        let eb = b.entity_id.spec_as_usize();
        assert(0 <= ea < 0x1_0000_0000 && 0 <= eb < 0x1_0000_0000);
        assert(pa == pb && ea == eb) by (nonlinear_arith)
            requires
                pa * 0x1_0000_0000 + ea == pb * 0x1_0000_0000 + eb,
                0 <= ea < 0x1_0000_0000,
                0 <= eb < 0x1_0000_0000,
                pa >= 0,
                pb >= 0,
        ;
        lemma_be_value_injective(a.guid_prefix.guid_prefix@, b.guid_prefix.guid_prefix@);
        EntityId::lemma_usize_roundtrip(a.entity_id);
        EntityId::lemma_usize_roundtrip(b.entity_id);
        assert(a.guid_prefix.guid_prefix =~= b.guid_prefix.guid_prefix);
    }
}

proof fn lemma_pow256_le(i: nat, j: nat)
    requires
        i <= j,
    ensures
        pow256(i) <= pow256(j),
    decreases j,
{
    if i < j {
        lemma_pow256_le(i, (j - 1) as nat);
        assert(pow256((j - 1) as nat) >= 1) by {
            lemma_pow256_pos((j - 1) as nat);
        }
    }
}

proof fn lemma_pow256_pos(n: nat)
    ensures
        pow256(n) >= 1,
    decreases n,
{
    if n > 0 {
        lemma_pow256_pos((n - 1) as nat);
    }
}

} // verus!
