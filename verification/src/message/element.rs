//! Submessage elements (RTPS 9.4.2): sequence numbers and their sets,
//! parameters, timestamps, locators and serialized payloads.
use vstd::prelude::*;
use crate::message::cdr::{
    Endianness, get_i16, get_u16, i16_bytes, lemma_u16_at_bytes, pad_of, put_bytes, put_u16,
    put_u32, put_zeros, u16_at, u16_bytes, u32_bytes, zeros,
};
use crate::structure::parameter_id::{ParameterId, PID_SENTINEL};
use crate::structure::duration::CoreDuration;

verus! {

pub type Count = i32;

pub type FragmentNumber = u32;

/// An RTPS sequence number. On the wire it is a signed high word and an
/// unsigned low word; here it is kept as one 64-bit number.
#[derive(Clone, Copy, Debug, PartialEq, Eq, Structural, PartialOrd, Ord, Hash)]
pub struct SequenceNumber(pub i64);

impl SequenceNumber {
    /// The number RTPS reserves for "unknown": high word all ones, low word
    /// zero.
    pub fn unknown() -> (s: SequenceNumber)
        ensures
            s.0 == -0x1_0000_0000,
    {
        SequenceNumber(-0x1_0000_0000)
    }

    pub fn max_value() -> (s: SequenceNumber)
        ensures
            s.0 == i64::MAX,
    {
        SequenceNumber(i64::MAX)
    }

    pub fn min_value() -> (s: SequenceNumber)
        ensures
            s.0 == i64::MIN,
    {
        SequenceNumber(i64::MIN)
    }

    pub fn add(self, other: SequenceNumber) -> (s: SequenceNumber)
        requires
            i64::MIN <= self.0 + other.0 <= i64::MAX,
        ensures
            s.0 == self.0 + other.0,
    {
        SequenceNumber(self.0 + other.0)
    }

    pub fn sub(self, other: SequenceNumber) -> (s: SequenceNumber)
        requires
            i64::MIN <= self.0 - other.0 <= i64::MAX,
        ensures
            s.0 == self.0 - other.0,
    {
        SequenceNumber(self.0 - other.0)
    }

    pub fn add_assign(&mut self, other: SequenceNumber)
        requires
            i64::MIN <= old(self).0 + other.0 <= i64::MAX,
        ensures
            final(self).0 == old(self).0 + other.0,
    {
        *self = SequenceNumber(self.0 + other.0);
    }

    pub fn sub_assign(&mut self, other: SequenceNumber)
        requires
            i64::MIN <= old(self).0 - other.0 <= i64::MAX,
        ensures
            final(self).0 == old(self).0 - other.0,
    {
        *self = SequenceNumber(self.0 - other.0);
    }
}

/// The numbers of a sequence of sequence numbers.
pub open spec fn sn_values(v: Seq<SequenceNumber>) -> Seq<int> {
    v.map_values(|s: SequenceNumber| s.0 as int)
}

/// A base and a bitmap of up to 256 bits; bit `i` (counted from the most
/// significant bit of the first word) stands for `base + i`.
#[derive(Clone, Debug)]
pub struct NumberSet<T> {
    pub bitmap_base: T,
    pub num_bits: u32,
    pub bitmap: Vec<u32>,
}

pub type SequenceNumberSet = NumberSet<SequenceNumber>;

pub type FragmentNumberSet = NumberSet<FragmentNumber>;

/// Whether bit `k` of `word`, counted from the most significant, is set.
pub open spec fn bit_of(word: u32, k: int) -> bool {
    (word >> ((31 - k) as u32)) & 1u32 == 1u32
}

/// Whether offset `i` is marked in `bitmap`.
pub open spec fn has_offset(bitmap: Seq<u32>, i: int) -> bool {
    bit_of(bitmap[i / 32], i % 32)
}

/// The marked offsets below `n`, in increasing order.
pub open spec fn offsets_below(bitmap: Seq<u32>, n: int) -> Seq<int>
    decreases n,
{
    if n <= 0 {
        Seq::empty()
    } else {
        let p = offsets_below(bitmap, n - 1);
        if has_offset(bitmap, n - 1) {
            p.push(n - 1)
        } else {
            p
        }
    }
}

/// `bm` cut or zero-extended to `n` words, as `Vec::resize` does.
pub open spec fn resized(bm: Seq<u32>, n: int) -> Seq<u32> {
    if n <= bm.len() {
        bm.take(n)
    } else {
        bm + Seq::new((n - bm.len()) as nat, |i: int| 0u32)
    }
}

/// The word that marks bit `k`, counted from the most significant.
pub open spec fn bit_mask(k: int) -> u32 {
    1u32 << ((31 - k) as u32)
}

/// The number of bits and the bitmap that `from_vec` builds from `base` and
/// the numbers `v`, taken in order: each number raises the bit count to cover
/// it, cuts or extends the bitmap to end at its word, and marks its bit.
pub open spec fn from_vec_state(base: int, v: Seq<SequenceNumber>) -> (int, Seq<u32>)
    decreases v.len(),
{
    if v.len() == 0 {
        (0, Seq::empty())
    } else {
        let prev = from_vec_state(base, v.drop_last());
        let off = v.last().0 - base;
        let nb = if prev.0 >= off + 1 {
            prev.0
        } else {
            off + 1
        };
        let bm = resized(prev.1, off / 32 + 1);
        (nb, bm.update(off / 32, bm[off / 32] | bit_mask(off % 32)))
    }
}

impl NumberSet<SequenceNumber> {
    /// How many leading bits `set` looks at: the bit count, or fewer if the
    /// bitmap is shorter.
    pub open spec fn spec_limit(self) -> int {
        if self.num_bits as int <= 32 * self.bitmap@.len() {
            self.num_bits as int
        } else {
            32 * self.bitmap@.len() as int
        }
    }

    /// The numbers of the set, in increasing order.
    pub open spec fn spec_set(self) -> Seq<int> {
        offsets_below(self.bitmap@, self.spec_limit()).map_values(|o: int| self.bitmap_base.0 + o)
    }

    /// Whether `set` can list the set: no bitmap word lies wholly beyond the
    /// bit count, and every listed number fits in 64 bits.
    pub open spec fn spec_listable(self) -> bool {
        &&& (self.bitmap@.len() == 0 || 32 * (self.bitmap@.len() - 1) <= self.num_bits)
        &&& self.bitmap_base.0 + 32 * self.bitmap@.len() <= i64::MAX
    }

    /// The validity rule of RTPS 8.3.7.1.3 and 9.4.2.6: the base is at least
    /// one, fewer than 256 bits, and exactly as many words as the bits need.
    pub open spec fn spec_is_valid(self) -> bool {
        &&& self.bitmap_base.0 >= 1
        &&& self.num_bits < 256
        &&& self.bitmap@.len() == (self.num_bits + 31) / 32
    }

    pub fn base(&self) -> (b: SequenceNumber)
        ensures
            b == self.bitmap_base,
    {
        self.bitmap_base
    }

    /// The numbers the bitmap marks, in increasing order.
    pub fn set(&self) -> (r: Vec<SequenceNumber>)
        requires
            self.spec_listable(),
        ensures
            sn_values(r@) == self.spec_set(),
    {
        let len = self.bitmap.len() as u64;
        let limit: u64 = if (self.num_bits as u64) <= 32 * len {
            self.num_bits as u64
        } else {
            32 * len
        };
        let mut set: Vec<SequenceNumber> = Vec::new();
        let mut i: u64 = 0;
        while i < limit
            invariant
                self.spec_listable(),
                limit == self.spec_limit(),
                limit <= 32 * self.bitmap@.len(),
                0 <= i <= limit,
                sn_values(set@) == offsets_below(self.bitmap@, i as int).map_values(
                    |o: int| self.bitmap_base.0 + o,
                ),
            decreases limit - i,
        {
            let map = self.bitmap[(i / 32) as usize];
            let offset = (i % 32) as u32;
            let mask: u32 = 1u32 << (31 - offset);
            let marked = (map & mask) == mask;
            proof {
                lemma_mask_test(map, offset);
            }
            let ghost before = set@;
            if marked {
                set.push(SequenceNumber(self.bitmap_base.0 + i as i64));
                proof {
                    assert(sn_values(set@) =~= sn_values(before).push(self.bitmap_base.0 + i));
                }
            }
            i = i + 1;
            proof {
                assert(offsets_below(self.bitmap@, i as int).map_values(
                    |o: int| self.bitmap_base.0 + o,
                ) =~= sn_values(set@));
            }
        }
        set
    }

    /// The set with base `base` that marks the numbers of `set`, processed in
    /// order as [`from_vec_state`] describes. For numbers that never decrease
    /// this marks exactly those numbers (see `law_from_vec_sorted`).
    pub fn from_vec(base: SequenceNumber, set: Vec<SequenceNumber>) -> (r: NumberSet<
        SequenceNumber,
    >)
        requires
            forall|i: int|
                0 <= i < set@.len() ==> base.0 <= #[trigger] set@[i].0 && set@[i].0 - base.0
                    < u32::MAX,
        ensures
            r.bitmap_base == base,
            r.num_bits == from_vec_state(base.0 as int, set@).0,
            r.bitmap@ == from_vec_state(base.0 as int, set@).1,
            strictly_increasing(set@) ==> r.spec_set() == sn_values(set@),
            non_decreasing(set@) ==> r.spec_set() == distinct_values(set@),
            non_decreasing(set@) ==> r.num_bits == if set@.len() == 0 {
                0
            } else {
                set@.last().0 - base.0 + 1
            },
            non_decreasing(set@) ==> r.bitmap@.len() == (r.num_bits + 31) / 32,
            non_decreasing(set@) && (set@.len() == 0 || set@.last().0 + 32 <= i64::MAX)
                ==> r.spec_listable(),
            non_decreasing(set@) && base.0 >= 1 && (set@.len() == 0 || set@.last().0 - base.0 < 255)
                ==> r.spec_is_valid(),
    {
        let mut num_bits: u32 = 0;
        let mut bitmap: Vec<u32> = Vec::new();
        let mut i: usize = 0;
        proof {
            assert(set@.take(0) =~= Seq::<SequenceNumber>::empty());
        }
        while i < set.len()
            invariant
                0 <= i <= set@.len(),
                forall|j: int|
                    0 <= j < set@.len() ==> base.0 <= #[trigger] set@[j].0 && set@[j].0 - base.0
                        < u32::MAX,
                num_bits == from_vec_state(base.0 as int, set@.take(i as int)).0,
                bitmap@ == from_vec_state(base.0 as int, set@.take(i as int)).1,
            decreases set@.len() - i,
        {
            let seq_num = set[i];
            let offset_from_base = seq_num.0 - base.0;
            let bits = offset_from_base as u32 + 1;
            if bits > num_bits {
                num_bits = bits;
            }
            let line = offset_from_base / 32;
            let offset_in_line = offset_from_base % 32;
            let ghost before = bitmap@;
            bitmap.resize(line as usize + 1, 0u32);
            proof {
                let n = line + 1;
                if n <= before.len() {
                    assert(bitmap@ =~= resized(before, n as int));
                } else {
                    assert forall|k: int| 0 <= k < n implies #[trigger] bitmap@[k] == resized(
                        before,
                        n as int,
                    )[k] by {
                        if k < before.len() {
                            assert(bitmap@.subrange(0, before.len() as int)[k] == before[k]);
                        }
                    }
                    assert(bitmap@ =~= resized(before, n as int));
                }
            }
            let word = bitmap[line as usize] | (1u32 << ((31 - offset_in_line) as u32));
            bitmap.set(line as usize, word);
            i = i + 1;
            proof {
                let t = set@.take(i as int);
                assert(t.drop_last() =~= set@.take(i - 1));
                assert(t.last() == seq_num);
            }
        }
        proof {
            assert(set@.take(set@.len() as int) =~= set@);
        }
        let r = NumberSet { bitmap_base: base, num_bits, bitmap };
        proof {
            if strictly_increasing(set@) {
                law_from_vec_set_roundtrip(base, set@, r);
            }
            if non_decreasing(set@) {
                law_from_vec_sorted(base, set@, r);
            }
        }
        r
    }

    /// Octets the set takes on the wire: base, bit count, and four per word.
    pub fn size(&self) -> (n: u16)
        requires
            12 + 4 * self.bitmap@.len() <= u16::MAX,
        ensures
            n == 12 + 4 * self.bitmap@.len(),
    {
        12 + self.bitmap.len() as u16 * 4
    }

    /// Whether the set satisfies the RTPS validity rule.
    pub fn is_valid(&self) -> (r: bool)
        ensures
            r == self.spec_is_valid(),
    {
        self.bitmap_base.0 >= 1 && self.num_bits < 256 && self.bitmap.len() as u64 == ((
        self.num_bits as u64 + 31) / 32)
    }
}

/// Testing a bit with a mask agrees with shifting it down.
proof fn lemma_mask_test(map: u32, offset: u32)
    requires
        offset < 32,
    ensures
        ((map & (1u32 << ((31 - offset) as u32))) == (1u32 << ((31 - offset) as u32))) == bit_of(
            map,
            offset as int,
        ),
{
    let s: u32 = (31 - offset) as u32;
    assert(((map & (1u32 << s)) == (1u32 << s)) == ((map >> s) & 1u32 == 1u32)) by (bit_vector)
        requires
            s < 32,
    ;
}

/// One parameter of a parameter list: an identifier and its value octets.
#[derive(Clone, Debug)]
pub struct Parameter {
    pub parameter_id: ParameterId,
    pub value: Vec<u8>,
}

impl Parameter {
    pub fn new(id: ParameterId, value: Vec<u8>) -> (p: Parameter)
        ensures
            p.parameter_id == id,
            p.value == value,
    {
        Parameter { parameter_id: id, value }
    }
}

/// The identifier and octets of each parameter.
pub open spec fn params_view(v: Seq<Parameter>) -> Seq<(u16, Seq<u8>)> {
    v.map_values(|p: Parameter| (p.parameter_id.value, p.value@))
}

/// The octets of one parameter: identifier, length of the padded value,
/// value, zero padding to four octets. The length is written as 16 bits and
/// wraps for longer values.
pub open spec fn param_bytes(e: Endianness, p: (u16, Seq<u8>)) -> Seq<u8> {
    let len = p.1.len() as int;
    let padded = len + pad_of(len);
    u16_bytes(e, p.0) + u16_bytes(e, (padded % 0x1_0000) as u16) + p.1 + zeros(pad_of(len))
}

/// The octets of the parameters, one after the other.
pub open spec fn params_bytes(e: Endianness, ps: Seq<(u16, Seq<u8>)>) -> Seq<u8>
    decreases ps.len(),
{
    if ps.len() == 0 {
        Seq::empty()
    } else {
        params_bytes(e, ps.drop_last()) + param_bytes(e, ps.last())
    }
}

/// The octets of a parameter list: its parameters, then the 32-bit sentinel.
pub open spec fn param_list_bytes(e: Endianness, ps: Seq<(u16, Seq<u8>)>) -> Seq<u8> {
    params_bytes(e, ps) + u32_bytes(e, 1)
}

/// The signed number the two octets at `pos` encode.
pub open spec fn i16_at(e: Endianness, buf: Seq<u8>, pos: int) -> int {
    let u = u16_at(e, buf, pos) as int;
    if u < 0x8000 {
        u
    } else {
        u - 0x1_0000
    }
}

/// What reading a parameter list from `buf` at `pos` gives: the parameters
/// up to the first sentinel identifier, and the position just after that
/// identifier; `None` when the octets run out or a length is negative.
pub open spec fn parse_params(e: Endianness, buf: Seq<u8>, pos: int) -> Option<
    (Seq<(u16, Seq<u8>)>, int),
>
    decreases buf.len() - pos,
{
    if pos < 0 || pos + 2 > buf.len() {
        None
    } else if u16_at(e, buf, pos) == PID_SENTINEL {
        Some((Seq::empty(), pos + 2))
    } else if pos + 4 > buf.len() {
        None
    } else {
        let len = i16_at(e, buf, pos + 2);
        if len < 0 || pos + 4 + len > buf.len() {
            None
        } else {
            match parse_params(e, buf, pos + 4 + len) {
                None => None,
                Some(rest) => Some(
                    (
                        seq![(u16_at(e, buf, pos), buf.subrange(pos + 4, pos + 4 + len))]
                            + rest.0,
                        rest.1,
                    ),
                ),
            }
        }
    }
}

/// A list of parameters with their ordered identifiers and values.
#[derive(Clone, Debug)]
pub struct ParameterList {
    pub parameters: Vec<Parameter>,
}

impl ParameterList {
    pub fn new() -> (l: ParameterList)
        ensures
            l.parameters@ == Seq::<Parameter>::empty(),
    {
        ParameterList { parameters: Vec::new() }
    }

    pub fn add_parameter(&mut self, parameter: Parameter)
        ensures
            final(self).parameters@ == old(self).parameters@.push(parameter),
    {
        self.parameters.push(parameter)
    }

    pub fn _add_parameters(&mut self, parameters: Vec<Parameter>)
        ensures
            final(self).parameters@ == old(self).parameters@ + parameters@,
    {
        let mut parameters = parameters;
        self.parameters.append(&mut parameters)
    }

    /// Appends the list in byte order `e`: each parameter with its padded
    /// length and zero padding, then the sentinel.
    pub fn write_to(&self, buf: &mut Vec<u8>, e: Endianness)
        ensures
            final(buf)@ == old(buf)@ + param_list_bytes(e, params_view(self.parameters@)),
    {
        let mut i: usize = 0;
        while i < self.parameters.len()
            invariant
                0 <= i <= self.parameters@.len(),
                buf@ == old(buf)@ + params_bytes(e, params_view(self.parameters@.take(i as int))),
            decreases self.parameters@.len() - i,
        {
            let param = &self.parameters[i];
            put_u16(buf, e, param.parameter_id.value);
            let length = param.value.len();
            let pad = crate::dds::qos::policy::pad_len(length);
            let field: u16 = (((length % 0x1_0000) + pad) % 0x1_0000) as u16;
            proof {
                let l = length as int;
                let q = pad as int;
                assert(((l % 0x1_0000) + q) % 0x1_0000 == (l + q) % 0x1_0000) by (nonlinear_arith)
                    requires
                        l >= 0,
                        q >= 0,
                ;
            }
            put_u16(buf, e, field);
            put_bytes(buf, param.value.as_slice());
            put_zeros(buf, pad);
            proof {
                let ps = params_view(self.parameters@.take(i + 1));
                assert(ps.drop_last() =~= params_view(self.parameters@.take(i as int)));
                assert(ps.last() == (param.parameter_id.value, param.value@));
            }
            i = i + 1;
            assert(buf@ =~= old(buf)@ + params_bytes(
                e,
                params_view(self.parameters@.take(i as int)),
            ));
        }
        put_u32(buf, e, 1);
        assert(self.parameters@.take(self.parameters@.len() as int) =~= self.parameters@);
        assert(buf@ =~= old(buf)@ + param_list_bytes(e, params_view(self.parameters@)));
    }

    /// Reads a list at `pos` in byte order `e`: parameters up to the first
    /// sentinel identifier. Gives the list and the position after the
    /// sentinel identifier, or `None` as [`parse_params`] says.
    pub fn read_from(buf: &[u8], pos: usize, e: Endianness) -> (r: Option<(ParameterList, usize)>)
        ensures
            match parse_params(e, buf@, pos as int) {
                None => r is None,
                Some(p) => r matches Some(l) && params_view(l.0.parameters@) == p.0 && l.1 == p.1,
            },
    {
        let mut params: Vec<Parameter> = Vec::new();
        let mut cur: usize = pos;
        loop
            invariant
                pos <= cur,
                parse_params(e, buf@, pos as int) == match parse_params(e, buf@, cur as int) {
                    None => None,
                    Some(rest) => Some((params_view(params@) + rest.0, rest.1)),
                },
            decreases buf@.len() - cur,
        {
            let id = match get_u16(buf, cur, e) {
                None => {
                    return None;
                },
                Some(id) => id,
            };
            assert(cur + 2 <= buf@.len() && buf@.len() == buf.len());
            proof {
                lemma_u16_at_bytes(e, id, buf@, cur as int);
            }
            if id == PID_SENTINEL {
                proof {
                    assert(params_view(params@) + Seq::<(u16, Seq<u8>)>::empty() =~= params_view(
                        params@,
                    ));
                }
                return Some((ParameterList { parameters: params }, cur + 2));
            }
            let length = match get_i16(buf, cur + 2, e) {
                None => {
                    return None;
                },
                Some(l) => l,
            };
            proof {
                lemma_u16_at_bytes(e, crate::message::cdr::i16_as_u16(length), buf@, cur + 2);
            }
            if length < 0 || buf.len() - (cur + 4) < length as usize {
                return None;
            }
            let end = cur + 4 + length as usize;
            let mut value: Vec<u8> = Vec::new();
            let mut k: usize = cur + 4;
            while k < end
                invariant
                    cur + 4 <= k <= end <= buf@.len(),
                    value@ == buf@.subrange(cur + 4, k as int),
                decreases end - k,
            {
                value.push(buf[k]);
                k = k + 1;
                assert(value@ =~= buf@.subrange(cur + 4, k as int));
            }
            let ghost before = params@;
            params.push(Parameter { parameter_id: ParameterId { value: id }, value });
            proof {
                assert(params_view(params@) =~= params_view(before).push(
                    (id, buf@.subrange(cur + 4, end as int)),
                ));
                match parse_params(e, buf@, end as int) {
                    None => {},
                    Some(rest) => {
                        assert(params_view(before) + (seq![
                            (id, buf@.subrange(cur + 4, end as int)),
                        ] + rest.0) =~= params_view(params@) + rest.0);
                    },
                }
            }
            cur = end;
        }
    }
}

impl Default for ParameterList {
    fn default() -> (l: ParameterList)
        ensures
            l.parameters@ == Seq::<Parameter>::empty(),
    {
        ParameterList::new()
    }
}

/// Each parameter's value as a reader sees it: followed by its padding.
pub open spec fn padded_params(ps: Seq<(u16, Seq<u8>)>) -> Seq<(u16, Seq<u8>)> {
    ps.map_values(|p: (u16, Seq<u8>)| (p.0, p.1 + zeros(pad_of(p.1.len() as int))))
}

proof fn lemma_params_bytes_front(e: Endianness, ps: Seq<(u16, Seq<u8>)>)
    requires
        ps.len() > 0,
    ensures
        params_bytes(e, ps) == param_bytes(e, ps[0]) + params_bytes(e, ps.drop_first()),
    decreases ps.len(),
{
    if ps.len() == 1 {
        assert(ps.drop_last() =~= Seq::<(u16, Seq<u8>)>::empty());
        assert(ps.drop_first() =~= Seq::<(u16, Seq<u8>)>::empty());
        assert(params_bytes(e, ps.drop_last()) =~= Seq::<u8>::empty());
        assert(params_bytes(e, ps.drop_first()) =~= Seq::<u8>::empty());
        assert(ps.last() == ps[0]);
        assert(params_bytes(e, ps) =~= param_bytes(e, ps[0]));
    } else {
        lemma_params_bytes_front(e, ps.drop_last());
        assert(ps.drop_last().drop_first() =~= ps.drop_first().drop_last());
        assert(ps.drop_first().last() == ps.last());
        assert(ps.drop_last()[0] == ps[0]);
        assert(params_bytes(e, ps) =~= param_bytes(e, ps[0]) + params_bytes(e, ps.drop_first()));
    }
}

/// In little-endian order, reading back a written parameter list gives its
/// parameters, each value followed by its padding, and stops just after the
/// sentinel identifier. Identifiers must not be the sentinel and padded
/// values must be shorter than 32 KiB. (In big-endian order the written
/// sentinel does not read back as the sentinel identifier.)
pub proof fn law_param_list_roundtrip(ps: Seq<(u16, Seq<u8>)>, buf: Seq<u8>, pos: int)
    requires
        forall|i: int| 0 <= i < ps.len() ==> (#[trigger] ps[i]).0 != PID_SENTINEL,
        forall|i: int|
            0 <= i < ps.len() ==> (#[trigger] ps[i]).1.len() + pad_of(ps[i].1.len() as int)
                < 0x8000,
        0 <= pos,
        pos + param_list_bytes(Endianness::LittleEndian, ps).len() <= buf.len(),
        buf.subrange(pos, pos + param_list_bytes(Endianness::LittleEndian, ps).len())
            == param_list_bytes(Endianness::LittleEndian, ps),
    ensures
        parse_params(Endianness::LittleEndian, buf, pos) == Some(
            (padded_params(ps), pos + params_bytes(Endianness::LittleEndian, ps).len() + 2),
        ),
    decreases ps.len(),
{
    let e = Endianness::LittleEndian;
    let whole = param_list_bytes(e, ps);
    if ps.len() == 0 {
        assert(whole =~= u32_bytes(e, 1));
        assert(buf[pos] == whole[0]);
        assert(buf[pos + 1] == whole[1]);
        assert(padded_params(ps) =~= Seq::<(u16, Seq<u8>)>::empty());
    } else {
        lemma_params_bytes_front(e, ps);
        let p = ps[0];
        let rest = ps.drop_first();
        let pb = param_bytes(e, p);
        let len = p.1.len() as int;
        let padded = len + pad_of(len);
        assert(whole =~= pb + param_list_bytes(e, rest));
        assert(pb.len() == 4 + padded);
        let sub = buf.subrange(pos, pos + whole.len());
        assert(sub.subrange(0, 2) =~= u16_bytes(e, p.0));
        assert(buf.subrange(pos, pos + 2) =~= sub.subrange(0, 2));
        lemma_u16_at_bytes(e, p.0, buf, pos);
        assert(sub.subrange(2, 4) =~= u16_bytes(e, (padded % 0x1_0000) as u16));
        assert(buf.subrange(pos + 2, pos + 4) =~= sub.subrange(2, 4));
        lemma_u16_at_bytes(e, (padded % 0x1_0000) as u16, buf, pos + 2);
        assert(i16_at(e, buf, pos + 2) == padded);
        assert(sub =~= whole);
        assert(pb.subrange(4, 4 + padded) =~= p.1 + zeros(pad_of(len)));
        assert(whole.subrange(4, 4 + padded) =~= pb.subrange(4, 4 + padded));
        assert(buf.subrange(pos + 4, pos + 4 + padded) =~= sub.subrange(4, 4 + padded));
        assert(buf.subrange(pos + 4, pos + 4 + padded) =~= p.1 + zeros(pad_of(len)));
        let next = pos + 4 + padded;
        let rl = param_list_bytes(e, rest).len() as int;
        assert(whole.subrange(4 + padded, 4 + padded + rl) =~= param_list_bytes(e, rest));
        assert(buf.subrange(next, next + rl) =~= sub.subrange(4 + padded, 4 + padded + rl));
        assert(buf.subrange(next, next + param_list_bytes(e, rest).len()) =~= param_list_bytes(
            e,
            rest,
        ));
        assert forall|i: int| 0 <= i < rest.len() implies (#[trigger] rest[i]).0 != PID_SENTINEL by {
            assert(rest[i] == ps[i + 1]);
        }
        assert forall|i: int| 0 <= i < rest.len() implies (#[trigger] rest[i]).1.len() + pad_of(
            rest[i].1.len() as int,
        ) < 0x8000 by {
            assert(rest[i] == ps[i + 1]);
        }
        law_param_list_roundtrip(rest, buf, next);
        assert(padded_params(ps) =~= seq![(p.0, p.1 + zeros(pad_of(len)))] + padded_params(rest));
    }
}

/// A point in time: seconds and a fraction of a second in units of 2^-32 s.
#[derive(Clone, Copy, Debug, PartialEq, Eq, Structural)]
pub struct Timestamp {
    pub seconds: u32,
    pub fraction: u32,
}

/// Nanoseconds that a fraction of a second stands for, rounded down.
pub open spec fn fraction_to_nanos(fraction: int) -> int {
    1_000_000_000 * fraction / 0x1_0000_0000
}

impl Timestamp {
    pub fn time_invalid() -> (t: Timestamp)
        ensures
            t == (Timestamp { seconds: 0xffff_ffff, fraction: 0xffff_ffff }),
    {
        Timestamp { seconds: 0xffff_ffff, fraction: 0xffff_ffff }
    }

    pub fn time_zero() -> (t: Timestamp)
        ensures
            t == (Timestamp { seconds: 0, fraction: 0 }),
    {
        Timestamp { seconds: 0, fraction: 0 }
    }

    pub fn time_infinite() -> (t: Timestamp)
        ensures
            t == (Timestamp { seconds: 0xffff_ffff, fraction: 0xffff_fffe }),
    {
        Timestamp { seconds: 0xffff_ffff, fraction: 0xffff_fffe }
    }

    /// The time in nanoseconds, the fraction rounded down.
    pub open spec fn spec_nanos(self) -> int {
        self.seconds * 1_000_000_000 + fraction_to_nanos(self.fraction as int)
    }

    fn nanos(&self) -> (n: i64)
        ensures
            n == self.spec_nanos(),
    {
        let frac = (1_000_000_000u64 * self.fraction as u64 / 0x1_0000_0000u64) as i64;
        proof {
            let f = self.fraction as int;
            assert(0 <= 1_000_000_000 * f / 0x1_0000_0000 < 1_000_000_000) by (nonlinear_arith)
                requires
                    0 <= f < 0x1_0000_0000,
            ;
        }
        self.seconds as i64 * 1_000_000_000 + frac
    }

    /// The span from `rhs` to `self`; a negative span counts as zero.
    pub fn sub(self, rhs: Timestamp) -> (d: CoreDuration)
        ensures
            self.spec_nanos() >= rhs.spec_nanos() ==> d.total_nanos() == self.spec_nanos()
                - rhs.spec_nanos(),
            self.spec_nanos() < rhs.spec_nanos() ==> d.total_nanos() == 0,
    {
        let l = self.nanos();
        let r = rhs.nanos();
        if l >= r {
            let d = CoreDuration::from_nanos((l - r) as u64);
            proof {
                let n = (l - r) as int;
                assert(n == (n / 1_000_000_000) * 1_000_000_000 + n % 1_000_000_000) by (nonlinear_arith);
            }
            d
        } else {
            CoreDuration::from_secs(0)
        }
    }

    /// The time `rhs` later: the seconds add up (keeping the low 32 bits),
    /// the nanoseconds become a fraction, and a fraction that overflows
    /// carries one second.
    pub fn add(self, rhs: CoreDuration) -> (t: Timestamp)
        requires
            self.seconds + rhs.spec_secs() + 1 <= u64::MAX,
        ensures
            ({
                let added = (rhs.spec_subsec_nanos() * 0x1_0000_0000 / 1_000_000_000) as int;
                let carry = if self.fraction + added >= 0x1_0000_0000 { 1int } else { 0int };
                &&& t.fraction == (self.fraction + added) % 0x1_0000_0000
                &&& t.seconds == (self.seconds + rhs.spec_secs() + carry) % 0x1_0000_0000
            }),
    {
        let nanos = rhs.subsec_nanos();
        let mut secs: u64 = self.seconds as u64 + rhs.as_secs();
        proof {
            let n = nanos as int;
            assert(0 <= n * 0x1_0000_0000 / 1_000_000_000 < 0x1_0000_0000) by (nonlinear_arith)
                requires
                    0 <= n < 1_000_000_000,
            ;
        }
        let added_fraction = (nanos as u64 * 0x1_0000_0000u64) / 1_000_000_000u64;
        let sum: u64 = self.fraction as u64 + added_fraction;
        let new_fraction: u32 = (sum % 0x1_0000_0000) as u32;
        if sum >= 0x1_0000_0000 {
            secs = secs + 1;
        }
        Timestamp { seconds: (secs % 0x1_0000_0000) as u32, fraction: new_fraction }
    }
}

/// Where an endpoint can be reached (RTPS 9.3.2): a transport kind, a port,
/// and a 16-octet address whose last four octets hold an IPv4 address.
#[derive(Clone, Copy, Debug)]
pub struct Locator {
    pub kind: i32,
    pub port: u32,
    pub address: [u8; 16],
}

pub const LOCATOR_KIND_INVALID: i32 = -1;
pub const LOCATOR_KIND_RESERVED: i32 = 0;
pub const LOCATOR_KIND_UDPV4: i32 = 1;
pub const LOCATOR_KIND_UDPV6: i32 = 2;
pub const LOCATOR_PORT_INVALID: u32 = 0;

/// The 16-octet address that holds the IPv4 address `v4`: twelve zero octets,
/// then the four octets.
pub open spec fn ipv4_address(v4: Seq<u8>) -> Seq<u8> {
    zeros(12) + v4
}

impl Locator {
    pub const KIND_INVALID: i32 = -1;
    pub const KIND_RESERVED: i32 = 0;
    pub const KIND_UDPV4: i32 = 1;
    pub const KIND_UDPV6: i32 = 2;
    pub const PORT_INVALID: u32 = 0;

    /// The invalid locator: kind invalid, port invalid, all-zero address.
    pub fn invalid() -> (l: Locator)
        ensures
            l.kind == LOCATOR_KIND_INVALID,
            l.port == LOCATOR_PORT_INVALID,
            l.address@ == zeros(16),
    {
        let l = Locator { kind: -1, port: 0, address: [0u8; 16] };
        assert(l.address@ =~= zeros(16));
        l
    }

    /// A locator; a UDPv4 locator must have its first twelve address octets
    /// zero.
    pub fn new(kind: i32, port: u32, address: [u8; 16]) -> (l: Locator)
        requires
            kind == LOCATOR_KIND_UDPV4 ==> address@.take(12) == zeros(12),
        ensures
            l.kind == kind,
            l.port == port,
            l.address == address,
    {
        Locator { kind, port, address }
    }

    /// The UDPv4 locator of `address` and `port`.
    pub fn new_from_ipv4(port: u32, address: [u8; 4]) -> (l: Locator)
        ensures
            l.kind == LOCATOR_KIND_UDPV4,
            l.port == port,
            l.address@ == ipv4_address(address@),
    {
        let mut addr: [u8; 16] = [0u8; 16];
        addr.set(12, address[0]);
        addr.set(13, address[1]);
        addr.set(14, address[2]);
        addr.set(15, address[3]);
        assert(addr@ =~= ipv4_address(address@));
        Locator { kind: LOCATOR_KIND_UDPV4, port, address: addr }
    }

    /// One UDPv4 locator per address, all with the same port. No address may
    /// be 0.0.0.0.
    pub fn new_list_from_multi_ipv4(port: u32, addresses: Vec<[u8; 4]>) -> (ls: Vec<Locator>)
        requires
            forall|i: int| 0 <= i < addresses@.len() ==> #[trigger] addresses@[i]@ != zeros(4),
        ensures
            ls@.len() == addresses@.len(),
            forall|i: int|
                0 <= i < ls@.len() ==> (#[trigger] ls@[i]).kind == LOCATOR_KIND_UDPV4
                    && ls@[i].port == port && ls@[i].address@ == ipv4_address(addresses@[i]@),
    {
        let mut locators: Vec<Locator> = Vec::new();
        let mut i: usize = 0;
        while i < addresses.len()
            invariant
                0 <= i <= addresses@.len(),
                locators@.len() == i,
                forall|j: int|
                    0 <= j < i ==> (#[trigger] locators@[j]).kind == LOCATOR_KIND_UDPV4
                        && locators@[j].port == port && locators@[j].address@ == ipv4_address(
                        addresses@[j]@,
                    ),
            decreases addresses@.len() - i,
        {
            locators.push(Locator::new_from_ipv4(port, addresses[i]));
            i = i + 1;
        }
        locators
    }

    /// Whether the address is an IPv4 multicast address (224.0.0.0 to
    /// 239.255.255.255).
    pub fn is_ipv4_multicast(&self) -> (r: bool)
        ensures
            r == (224 <= self.address@[12] <= 239),
    {
        let b = self.address[12];
        let r = ((b >> 4u8) ^ 0b1110u8) == 0;
        assert(r == (224 <= b <= 239)) by (bit_vector)
            requires
                r == (((b >> 4u8) ^ 0b1110u8) == 0),
        ;
        r
    }
}

/// How a serialized payload is encoded (RTPS 10.5).
#[derive(Clone, Copy, Debug)]
pub struct RepresentationIdentifier {
    pub bytes: [u8; 2],
}

impl RepresentationIdentifier {
    pub fn new(bytes: [u8; 2]) -> (r: RepresentationIdentifier)
        ensures
            r.bytes == bytes,
    {
        RepresentationIdentifier { bytes }
    }

    pub fn bytes(&self) -> (b: [u8; 2])
        ensures
            b == self.bytes,
    {
        self.bytes
    }

    pub fn cdr_be() -> (r: RepresentationIdentifier)
        ensures
            r.bytes@ == seq![0u8, 0u8],
    {
        let r = RepresentationIdentifier { bytes: [0u8, 0u8] };
        assert(r.bytes@ =~= seq![0u8, 0u8]);
        r
    }

    pub fn cdr_le() -> (r: RepresentationIdentifier)
        ensures
            r.bytes@ == seq![0u8, 1u8],
    {
        let r = RepresentationIdentifier { bytes: [0u8, 1u8] };
        assert(r.bytes@ =~= seq![0u8, 1u8]);
        r
    }

    pub fn pl_cdr_be() -> (r: RepresentationIdentifier)
        ensures
            r.bytes@ == seq![0u8, 2u8],
    {
        let r = RepresentationIdentifier { bytes: [0u8, 2u8] };
        assert(r.bytes@ =~= seq![0u8, 2u8]);
        r
    }

    pub fn pl_cdr_le() -> (r: RepresentationIdentifier)
        ensures
            r.bytes@ == seq![0u8, 3u8],
    {
        let r = RepresentationIdentifier { bytes: [0u8, 3u8] };
        assert(r.bytes@ =~= seq![0u8, 3u8]);
        r
    }

    /// The byte order of the four plain and parameter-list CDR encodings;
    /// `None` for every other encoding.
    pub fn endianness(&self) -> (e: Option<Endianness>)
        ensures
            e == spec_endianness_of(self.bytes@),
    {
        if self.bytes[0] != 0 {
            None
        } else if self.bytes[1] == 1 || self.bytes[1] == 3 {
            Some(Endianness::LittleEndian)
        } else if self.bytes[1] == 0 || self.bytes[1] == 2 {
            Some(Endianness::BigEndian)
        } else {
            None
        }
    }
}

/// The byte order of a representation identifier: little-endian for CDR_LE
/// and PL_CDR_LE, big-endian for CDR_BE and PL_CDR_BE.
pub open spec fn spec_endianness_of(b: Seq<u8>) -> Option<Endianness> {
    if b[0] != 0 {
        None
    } else if b[1] == 1 || b[1] == 3 {
        Some(Endianness::LittleEndian)
    } else if b[1] == 0 || b[1] == 2 {
        Some(Endianness::BigEndian)
    } else {
        None
    }
}

/// A serialized payload: the encoding's identifier and options, then the
/// encoded data.
#[derive(Clone, Debug)]
pub struct SerializedPayload {
    pub representation_identifier: RepresentationIdentifier,
    pub representation_options: [u8; 2],
    pub value: Vec<u8>,
}

/// The payload's octets: identifier, options, data.
pub open spec fn payload_bytes(p: SerializedPayload) -> Seq<u8> {
    p.representation_identifier.bytes@ + p.representation_options@ + p.value@
}

/// Why octets do not form a serialized payload.
#[derive(Clone, Copy, Debug, PartialEq, Eq, Structural)]
pub enum PayloadError {
    /// The four header octets are there but no data follows.
    DataTooSmall,
}

impl SerializedPayload {
    /// Splits octets into the header and the data. The buffer must hold the
    /// four header octets; a buffer that holds nothing more is an error.
    pub fn from_bytes(buffer: &[u8]) -> (r: Result<SerializedPayload, PayloadError>)
        requires
            buffer@.len() >= 4,
        ensures
            buffer@.len() == 4 <==> r is Err,
            r matches Ok(p) ==> payload_bytes(p) == buffer@ && p.value@.len() > 0,
    {
        let rep = RepresentationIdentifier { bytes: [buffer[0], buffer[1]] };
        let opts: [u8; 2] = [buffer[2], buffer[3]];
        if buffer.len() > 4 {
            let mut value: Vec<u8> = Vec::new();
            let mut k: usize = 4;
            while k < buffer.len()
                invariant
                    4 <= k <= buffer@.len(),
                    value@ == buffer@.subrange(4, k as int),
                decreases buffer@.len() - k,
            {
                value.push(buffer[k]);
                k = k + 1;
                assert(value@ =~= buffer@.subrange(4, k as int));
            }
            let p = SerializedPayload {
                representation_identifier: rep,
                representation_options: opts,
                value,
            };
            assert(payload_bytes(p) =~= buffer@);
            Ok(p)
        } else {
            Err(PayloadError::DataTooSmall)
        }
    }

    /// The payload's octets: identifier, options, data.
    pub fn to_bytes(&self) -> (b: Vec<u8>)
        ensures
            b@ == payload_bytes(*self),
    {
        let mut buf: Vec<u8> = Vec::new();
        buf.push(self.representation_identifier.bytes[0]);
        buf.push(self.representation_identifier.bytes[1]);
        buf.push(self.representation_options[0]);
        buf.push(self.representation_options[1]);
        put_bytes(&mut buf, self.value.as_slice());
        assert(buf@ =~= payload_bytes(*self));
        buf
    }

    /// A payload of already encoded data with zero options. The encoding must
    /// be one of the four plain or parameter-list CDR encodings.
    pub fn new_from_cdr_data(serialized: Vec<u8>, rep_id: RepresentationIdentifier) -> (p: SerializedPayload)
        requires
            spec_endianness_of(rep_id.bytes@) is Some,
        ensures
            p.representation_identifier == rep_id,
            p.representation_options@ == seq![0u8, 0u8],
            p.value == serialized,
    {
        let p = SerializedPayload {
            representation_identifier: rep_id,
            representation_options: [0u8, 0u8],
            value: serialized,
        };
        assert(p.representation_options@ =~= seq![0u8, 0u8]);
        p
    }
}

/// Octets split into a payload and put back together are unchanged, and a
/// payload with data turned into octets and split again is the same payload.
pub proof fn law_payload_roundtrip(p: SerializedPayload, q: SerializedPayload)
    requires
        payload_bytes(p) == payload_bytes(q),
    ensures
        p.representation_identifier.bytes@ == q.representation_identifier.bytes@,
        p.representation_options@ == q.representation_options@,
        p.value@ == q.value@,
{
    let b = payload_bytes(p);
    assert(p.representation_identifier.bytes@ =~= b.subrange(0, 2));
    assert(q.representation_identifier.bytes@ =~= b.subrange(0, 2));
    assert(p.representation_options@ =~= b.subrange(2, 4));
    assert(q.representation_options@ =~= b.subrange(2, 4));
    assert(p.value@ =~= b.subrange(4, b.len() as int));
    assert(q.value@ =~= b.subrange(4, b.len() as int));
}

/// The offsets of `v` from `base`.
pub open spec fn offsets_of(base: int, v: Seq<SequenceNumber>) -> Seq<int> {
    v.map_values(|s: SequenceNumber| s.0 - base)
}

/// Whether the numbers of `v` strictly increase.
pub open spec fn strictly_increasing(v: Seq<SequenceNumber>) -> bool {
    forall|i: int, j: int| 0 <= i < j < v.len() ==> #[trigger] v[i].0 < #[trigger] v[j].0
}

/// Whether the numbers of `v` never decrease (a number may repeat).
pub open spec fn non_decreasing(v: Seq<SequenceNumber>) -> bool {
    forall|i: int, j: int| 0 <= i < j < v.len() ==> #[trigger] v[i].0 <= #[trigger] v[j].0
}

/// The numbers of `v`, which never decrease, each once, in increasing
/// order.
pub open spec fn distinct_values(v: Seq<SequenceNumber>) -> Seq<int>
    decreases v.len(),
{
    if v.len() == 0 {
        Seq::empty()
    } else {
        let d = distinct_values(v.drop_last());
        if d.len() > 0 && d.last() == v.last().0 {
            d
        } else {
            d.push(v.last().0 as int)
        }
    }
}

proof fn lemma_distinct_values(v: Seq<SequenceNumber>)
    requires
        non_decreasing(v),
    ensures
        forall|i: int, j: int|
            0 <= i < j < distinct_values(v).len() ==> #[trigger] distinct_values(v)[i]
                < #[trigger] distinct_values(v)[j],
        forall|x: int| #[trigger] distinct_values(v).contains(x) <==> sn_values(v).contains(x),
        v.len() > 0 ==> distinct_values(v).len() > 0 && distinct_values(v).last() == v.last().0,
    decreases v.len(),
{
    if v.len() > 0 {
        let w = v.drop_last();
        assert(non_decreasing(w)) by {
            assert forall|i: int, j: int| 0 <= i < j < w.len() implies #[trigger] w[i].0 <= #[trigger] w[j].0 by {
                assert(w[i] == v[i] && w[j] == v[j]);
            }
        }
        lemma_distinct_values(w);
        let d = distinct_values(w);
        let l = v.last().0 as int;
        if w.len() > 0 {
            assert(w.last().0 <= l) by {
                assert(v[w.len() - 1].0 <= v[v.len() - 1].0);
            }
        }
        assert forall|x: int| sn_values(v).contains(x) <==> (sn_values(w).contains(x) || x == l) by {
            if sn_values(v).contains(x) {
                let i = choose|i: int| 0 <= i < sn_values(v).len() && sn_values(v)[i] == x;
                if i < w.len() {
                    assert(sn_values(w)[i] == x);
                }
            }
            if sn_values(w).contains(x) {
                let i = choose|i: int| 0 <= i < sn_values(w).len() && sn_values(w)[i] == x;
                assert(sn_values(v)[i] == x);
            }
            if x == l {
                assert(sn_values(v)[v.len() - 1] == x);
            }
        }
        if !(d.len() > 0 && d.last() == l) {
            let e = d.push(l);
            assert forall|i: int, j: int| 0 <= i < j < e.len() implies #[trigger] e[i] < #[trigger] e[j] by {
                if j == d.len() {
                    assert(d.contains(d[i]));
                    assert(sn_values(w).contains(d[i]));
                    let k = choose|k: int| 0 <= k < sn_values(w).len() && sn_values(w)[k] == d[i];
                    assert(v[k].0 <= v[v.len() - 1].0);
                    if i < d.len() - 1 {
                        assert(d[i] < d[d.len() - 1]);
                    }
                    assert(d[d.len() - 1] <= l) by {
                        assert(d.contains(d[d.len() - 1]));
                        let m = choose|m: int| 0 <= m < sn_values(w).len() && sn_values(w)[m] == d[d.len() - 1];
                        assert(v[m].0 <= v[v.len() - 1].0);
                    }
                } else {
                    assert(e[i] == d[i] && e[j] == d[j]);
                }
            }
            assert forall|x: int| #[trigger] e.contains(x) <==> sn_values(v).contains(x) by {
                if e.contains(x) {
                    let i = choose|i: int| 0 <= i < e.len() && e[i] == x;
                    if i < d.len() {
                        assert(d.contains(x));
                    }
                }
                if d.contains(x) {
                    let i = choose|i: int| 0 <= i < d.len() && d[i] == x;
                    assert(e[i] == x);
                }
                if x == l {
                    assert(e[d.len() as int] == x);
                }
            }
        }
    }
}

/// Whether every number of `v` is at least `base` and less than
/// `base + u32::MAX`, as `from_vec` requires.
pub open spec fn within_reach(base: int, v: Seq<SequenceNumber>) -> bool {
    forall|i: int| 0 <= i < v.len() ==> base <= #[trigger] v[i].0 && v[i].0 - base < u32::MAX
}

proof fn lemma_bit_of_zero(k: int)
    requires
        0 <= k < 32,
    ensures
        !bit_of(0u32, k),
{
    let s: u32 = (31 - k) as u32;
    assert((0u32 >> s) & 1u32 == 0u32) by (bit_vector);
}

proof fn lemma_bit_of_or_mask(w: u32, j: int, k: int)
    requires
        0 <= j < 32,
        0 <= k < 32,
    ensures
        bit_of(w | bit_mask(k), j) == (bit_of(w, j) || j == k),
{
    let sj: u32 = (31 - j) as u32;
    let sk: u32 = (31 - k) as u32;
    assert((((w | (1u32 << sk)) >> sj) & 1u32 == 1u32) == (((w >> sj) & 1u32 == 1u32) || sj
        == sk)) by (bit_vector)
        requires
            sj < 32,
            sk < 32,
    ;
}

/// For strictly increasing offsets `s`, all below `n`, that are exactly the
/// marked offsets below `n`, the marked offsets listed in order are `s`.
proof fn lemma_offsets_below_exact(bm: Seq<u32>, s: Seq<int>, n: int)
    requires
        0 <= n,
        forall|i: int, j: int| 0 <= i < j < s.len() ==> #[trigger] s[i] < #[trigger] s[j],
        forall|i: int| 0 <= i < s.len() ==> 0 <= #[trigger] s[i] < n,
        forall|j: int| 0 <= j < n ==> (has_offset(bm, j) <==> s.contains(j)),
    ensures
        offsets_below(bm, n) == s,
    decreases n,
{
    if n == 0 {
        if s.len() > 0 {
            assert(0 <= s[0] < n);
        }
        assert(s =~= Seq::<int>::empty());
    } else if s.len() > 0 && s.last() == n - 1 {
        let t = s.drop_last();
        assert forall|i: int| 0 <= i < t.len() implies 0 <= #[trigger] t[i] < n - 1 by {
            assert(s[i] < s[s.len() - 1]);
        }
        assert forall|j: int| 0 <= j < n - 1 implies (has_offset(bm, j) <==> t.contains(j)) by {
            if s.contains(j) {
                let i = choose|i: int| 0 <= i < s.len() && s[i] == j;
                assert(i != s.len() - 1);
                assert(t[i] == j);
            }
            if t.contains(j) {
                let i = choose|i: int| 0 <= i < t.len() && t[i] == j;
                assert(s[i] == j);
            }
        }
        lemma_offsets_below_exact(bm, t, n - 1);
        assert(s.contains(n - 1));
        assert(s =~= t.push(n - 1));
    } else {
        assert(!s.contains(n - 1)) by {
            if s.contains(n - 1) {
                let i = choose|i: int| 0 <= i < s.len() && s[i] == n - 1;
                if i < s.len() - 1 {
                    assert(s[i] < s[s.len() - 1]);
                }
            }
        }
        assert forall|i: int| 0 <= i < s.len() implies 0 <= #[trigger] s[i] < n - 1 by {
            if s[i] == n - 1 {
                assert(s.contains(n - 1));
            }
        }
        lemma_offsets_below_exact(bm, s, n - 1);
    }
}

/// The shape of the state `from_vec` builds from strictly increasing numbers:
/// the bit count reaches just past the last offset, the bitmap ends at its
/// word, and exactly the offsets of the numbers are marked.
proof fn lemma_from_vec_state_shape(base: int, v: Seq<SequenceNumber>)
    requires
        non_decreasing(v),
        within_reach(base, v),
    ensures
        v.len() == 0 ==> from_vec_state(base, v) == (0int, Seq::<u32>::empty()),
        v.len() > 0 ==> from_vec_state(base, v).0 == v.last().0 - base + 1,
        v.len() > 0 ==> from_vec_state(base, v).1.len() == (v.last().0 - base) / 32 + 1,
        forall|j: int|
            0 <= j < 32 * from_vec_state(base, v).1.len() ==> (has_offset(
                from_vec_state(base, v).1,
                j,
            ) <==> offsets_of(base, v).contains(j)),
    decreases v.len(),
{
    if v.len() > 0 {
        let w = v.drop_last();
        assert(non_decreasing(w)) by {
            assert forall|i: int, j: int| 0 <= i < j < w.len() implies #[trigger] w[i].0 <= #[trigger] w[j].0 by {
                assert(w[i] == v[i] && w[j] == v[j]);
            }
        }
        assert(within_reach(base, w));
        lemma_from_vec_state_shape(base, w);
        let prev = from_vec_state(base, w);
        let off = v.last().0 - base;
        assert(0 <= off < u32::MAX);
        let line = off / 32;
        if w.len() > 0 {
            assert(w.last().0 <= v.last().0) by {
                assert(v[w.len() - 1].0 <= v[v.len() - 1].0);
            }
        }
        assert(prev.1.len() <= line + 1);
        let bm = resized(prev.1, line + 1);
        assert(bm.len() == line + 1);
        let st = from_vec_state(base, v);
        assert(st.1 == bm.update(line, bm[line] | bit_mask(off % 32)));
        assert forall|j: int| 0 <= j < 32 * st.1.len() implies (has_offset(st.1, j)
            <==> offsets_of(base, v).contains(j)) by {
            let q = j / 32;
            let r = j % 32;
            let in_v = offsets_of(base, w).contains(j);
            if in_v {
                let i = choose|i: int| 0 <= i < w.len() && offsets_of(base, w)[i] == j;
                assert(offsets_of(base, v)[i] == j);
            }
            if offsets_of(base, v).contains(j) {
                let i = choose|i: int| 0 <= i < v.len() && offsets_of(base, v)[i] == j;
                if i < w.len() {
                    assert(offsets_of(base, w)[i] == j);
                } else {
                    assert(j == off);
                }
            }
            assert(offsets_of(base, v)[v.len() - 1] == off);
            if q < prev.1.len() {
                assert(bm[q] == prev.1[q]);
            } else {
                assert(bm[q] == 0u32);
                lemma_bit_of_zero(r);
                if in_v {
                    let i = choose|i: int| 0 <= i < w.len() && offsets_of(base, w)[i] == j;
                    assert(w[i].0 <= w.last().0) by {
                        if i < w.len() - 1 {
                            assert(v[i].0 <= v[w.len() - 1].0);
                        }
                    }
                }
            }
            if q == line {
                lemma_bit_of_or_mask(bm[q], r, off % 32);
            }
        }
    }
}

/// Marking strictly increasing numbers with `from_vec` and listing them with
/// `set` gives the numbers back. The set can be listed when the last number
/// leaves room for the bitmap's last word, and it is valid when the base is
/// at least one and the numbers span fewer than 256.
pub proof fn law_from_vec_set_roundtrip(
    base: SequenceNumber,
    v: Seq<SequenceNumber>,
    ns: NumberSet<SequenceNumber>,
)
    requires
        strictly_increasing(v),
        within_reach(base.0 as int, v),
        ns.bitmap_base == base,
        ns.num_bits == from_vec_state(base.0 as int, v).0,
        ns.bitmap@ == from_vec_state(base.0 as int, v).1,
    ensures
        ns.spec_set() == sn_values(v),
        (v.len() == 0 || v.last().0 + 32 <= i64::MAX) ==> ns.spec_listable(),
        (base.0 >= 1 && (v.len() == 0 || v.last().0 - base.0 < 255)) ==> ns.spec_is_valid(),
{
    let b = base.0 as int;
    assert(non_decreasing(v)) by {
        assert forall|i: int, j: int| 0 <= i < j < v.len() implies #[trigger] v[i].0 <= #[trigger] v[j].0 by {
            assert(v[i].0 < v[j].0);
        }
    }
    lemma_from_vec_state_shape(b, v);
    let st = from_vec_state(b, v);
    let offs = offsets_of(b, v);
    if v.len() > 0 {
        let l = v.last().0 - b;
        assert(l + 1 <= 32 * (l / 32 + 1));
        assert(32 * (l / 32) <= l);
    }
    assert(ns.spec_limit() == st.0);
    assert forall|i: int, j: int| 0 <= i < j < offs.len() implies #[trigger] offs[i]
        < #[trigger] offs[j] by {
        assert(v[i].0 < v[j].0);
    }
    assert forall|i: int| 0 <= i < offs.len() implies 0 <= #[trigger] offs[i] < st.0 by {
        if i < v.len() - 1 {
            assert(v[i].0 < v[v.len() - 1].0);
        }
    }
    lemma_offsets_below_exact(st.1, offs, st.0);
    assert(ns.spec_set() =~= sn_values(v));
}

/// Marking numbers that never decrease (repeats allowed) with `from_vec`
/// and listing them with `set` gives each number once, in increasing order.
/// The bit count reaches just past the last number, and the bitmap has as
/// many words as the bit count needs. The set can be listed when the last
/// number leaves room for the bitmap's last word, and it is valid when the
/// base is at least one and the numbers span fewer than 256.
pub proof fn law_from_vec_sorted(base: SequenceNumber, v: Seq<SequenceNumber>, ns: NumberSet<SequenceNumber>)
    requires
        non_decreasing(v),
        within_reach(base.0 as int, v),
        ns.bitmap_base == base,
        ns.num_bits == from_vec_state(base.0 as int, v).0,
        ns.bitmap@ == from_vec_state(base.0 as int, v).1,
    ensures
        ns.spec_set() == distinct_values(v),
        v.len() == 0 ==> ns.num_bits == 0,
        v.len() > 0 ==> ns.num_bits == v.last().0 - base.0 + 1,
        ns.bitmap@.len() == (ns.num_bits + 31) / 32,
        (v.len() == 0 || v.last().0 + 32 <= i64::MAX) ==> ns.spec_listable(),
        (base.0 >= 1 && (v.len() == 0 || v.last().0 - base.0 < 255)) ==> ns.spec_is_valid(),
{
    let b = base.0 as int;
    lemma_from_vec_state_shape(b, v);
    lemma_distinct_values(v);
    let st = from_vec_state(b, v);
    let d = distinct_values(v);
    let offs = d.map_values(|x: int| x - b);
    if v.len() > 0 {
        let l = v.last().0 - b;
        assert(l + 1 <= 32 * (l / 32 + 1));
        assert(32 * (l / 32) <= l);
        assert((l + 1 + 31) / 32 == l / 32 + 1);
    }
    assert(ns.spec_limit() == st.0);
    assert forall|i: int, j: int| 0 <= i < j < offs.len() implies #[trigger] offs[i] < #[trigger] offs[j] by {
        assert(d[i] < d[j]);
    }
    assert forall|x: int| #[trigger] offsets_of(b, v).contains(x) <==> offs.contains(x) by {
        if offsets_of(b, v).contains(x) {
            let i = choose|i: int| 0 <= i < offsets_of(b, v).len() && offsets_of(b, v)[i] == x;
            assert(sn_values(v)[i] == x + b);
            assert(d.contains(x + b));
            let k = choose|k: int| 0 <= k < d.len() && d[k] == x + b;
            assert(offs[k] == x);
        }
        if offs.contains(x) {
            let k = choose|k: int| 0 <= k < offs.len() && offs[k] == x;
            assert(d.contains(d[k]));
            assert(sn_values(v).contains(x + b));
            let i = choose|i: int| 0 <= i < sn_values(v).len() && sn_values(v)[i] == x + b;
            assert(offsets_of(b, v)[i] == x);
        }
    }
    assert forall|i: int| 0 <= i < offs.len() implies 0 <= #[trigger] offs[i] < st.0 by {
        assert(d.contains(d[i]));
        let k = choose|k: int| 0 <= k < sn_values(v).len() && sn_values(v)[k] == d[i];
        assert(within_reach(b, v));
        assert(b <= v[k].0);
        assert(v[k].0 <= v[v.len() - 1].0) by {
            if k < v.len() - 1 {
                assert(v[k].0 <= v[v.len() - 1].0);
            }
        }
    }
    assert(st.0 <= 32 * st.1.len());
    assert forall|j: int| 0 <= j < st.0 implies (has_offset(st.1, j) <==> offs.contains(j)) by {
        assert(offsets_of(b, v).contains(j) <==> offs.contains(j));
    }
    lemma_offsets_below_exact(st.1, offs, st.0);
    assert(ns.spec_set() =~= d);
}

} // verus!
