//! How numbers are written out in the texts the library gives for logs:
//! decimal, hexadecimal octets and 32-bit binary words.
use vstd::prelude::*;
use vstd::string::StringExecFns;
use crate::message::cdr::zeros;
use crate::dds::qos::policy::{
    Deadline, DestinationOrder, Durability, LatencyBudget, Liveliness, LivelinessQosKind, Ownership,
    Reliability, ReliabilityQosKind,
};
use crate::structure::duration::Duration;
use crate::message::element::{Locator, NumberSet, SequenceNumber, SequenceNumberSet, Timestamp};
use crate::message::receiver::MessageError;
use crate::discovery::data::ReadError;
use crate::rtps::cache::HistoryCacheType;
use crate::structure::entity_id::{
    spec_entity_id, EntityId, EntityKind, KIND_PARTICIPANT_BUILT_IN, KIND_PUBLISHER,
    KIND_READER_GROUP_BUILT_IN, KIND_READER_GROUP_USER_DEFIND, KIND_READER_NO_KEY_BUILT_IN,
    KIND_READER_NO_KEY_USER_DEFIND, KIND_READER_WITH_KEY_BUILT_IN, KIND_READER_WITH_KEY_USER_DEFIND,
    KIND_SUBSCRIBER, KIND_UNKNOW_BUILT_IN, KIND_UNKNOW_USER_DEFIND, KIND_WRITER_GROUP_BUILT_IN,
    KIND_WRITER_GROUP_USER_DEFIND, KIND_WRITER_NO_KEY_BUILT_IN, KIND_WRITER_NO_KEY_USER_DEFIND,
    KIND_WRITER_WITH_KEY_BUILT_IN, KIND_WRITER_WITH_KEY_USER_DEFIND,
};

verus! {

/// The character of a digit below 16: `0`-`9`, then `a`-`f`, or `A`-`F`
/// when `upper` is set.
pub open spec fn digit_char(d: int, upper: bool) -> char {
    if d == 0 {
        '0'
    } else if d == 1 {
        '1'
    } else if d == 2 {
        '2'
    } else if d == 3 {
        '3'
    } else if d == 4 {
        '4'
    } else if d == 5 {
        '5'
    } else if d == 6 {
        '6'
    } else if d == 7 {
        '7'
    } else if d == 8 {
        '8'
    } else if d == 9 {
        '9'
    } else if d == 10 {
        if upper { 'A' } else { 'a' }
    } else if d == 11 {
        if upper { 'B' } else { 'b' }
    } else if d == 12 {
        if upper { 'C' } else { 'c' }
    } else if d == 13 {
        if upper { 'D' } else { 'd' }
    } else if d == 14 {
        if upper { 'E' } else { 'e' }
    } else {
        if upper { 'F' } else { 'f' }
    }
}

/// A natural number in decimal, without leading zeros.
pub open spec fn dec_text(n: nat) -> Seq<char>
    decreases n,
{
    if n < 10 {
        seq![digit_char(n as int, false)]
    } else {
        dec_text(n / 10).push(digit_char((n % 10) as int, false))
    }
}

/// An integer in decimal, with a minus sign when it is negative.
pub open spec fn signed_dec_text(n: int) -> Seq<char> {
    if n < 0 {
        seq!['-'] + dec_text((-n) as nat)
    } else {
        dec_text(n as nat)
    }
}

/// An octet as two hexadecimal digits.
pub open spec fn hex2_text(b: u8, upper: bool) -> Seq<char> {
    seq![digit_char((b / 16) as int, upper), digit_char((b % 16) as int, upper)]
}

/// The lowest `n` bits of `x` in binary, most significant first.
pub open spec fn bin_text(x: nat, n: nat) -> Seq<char>
    decreases n,
{
    if n == 0 {
        Seq::empty()
    } else {
        bin_text(x / 2, (n - 1) as nat).push(if x % 2 == 1 { '1' } else { '0' })
    }
}

/// Octets as a list of decimal numbers: `[a, b, c]`.
pub open spec fn octet_list_text(s: Seq<u8>) -> Seq<char> {
    seq!['['] + octet_items_text(s) + seq![']']
}

/// Octets in decimal, separated by a comma and a space.
pub open spec fn octet_items_text(s: Seq<u8>) -> Seq<char>
    decreases s.len(),
{
    if s.len() == 0 {
        Seq::empty()
    } else if s.len() == 1 {
        dec_text(s[0] as nat)
    } else {
        octet_items_text(s.drop_last()) + seq![',', ' '] + dec_text(s.last() as nat)
    }
}

/// A digit below 16 as a one-character text.
pub fn digit_str(d: u8, upper: bool) -> (s: &'static str)
    requires
        d < 16,
    ensures
        s@ == seq![digit_char(d as int, upper)],
{
    proof {
        reveal_strlit("0");
        reveal_strlit("1");
        reveal_strlit("2");
        reveal_strlit("3");
        reveal_strlit("4");
        reveal_strlit("5");
        reveal_strlit("6");
        reveal_strlit("7");
        reveal_strlit("8");
        reveal_strlit("9");
        reveal_strlit("a");
        reveal_strlit("b");
        reveal_strlit("c");
        reveal_strlit("d");
        reveal_strlit("e");
        reveal_strlit("f");
        reveal_strlit("A");
        reveal_strlit("B");
        reveal_strlit("C");
        reveal_strlit("D");
        reveal_strlit("E");
        reveal_strlit("F");
    }
    match d {
        0 => "0",
        1 => "1",
        2 => "2",
        3 => "3",
        4 => "4",
        5 => "5",
        6 => "6",
        7 => "7",
        8 => "8",
        9 => "9",
        10 => if upper { "A" } else { "a" },
        11 => if upper { "B" } else { "b" },
        12 => if upper { "C" } else { "c" },
        13 => if upper { "D" } else { "d" },
        14 => if upper { "E" } else { "e" },
        _ => if upper { "F" } else { "f" },
    }
}

/// A number in decimal.
pub fn dec(n: u64) -> (s: String)
    ensures
        s@ == dec_text(n as nat),
    decreases n,
{
    if n < 10 {
        String::from_str(digit_str(n as u8, false))
    } else {
        let mut s = dec(n / 10);
        s.append(digit_str((n % 10) as u8, false));
        s
    }
}

/// A signed number in decimal.
pub fn signed_dec(n: i64) -> (s: String)
    ensures
        s@ == signed_dec_text(n as int),
{
    if n < 0 {
        let m: u64 = (-(n as i128)) as u64;
        let mut s = String::from_str("-");
        proof {
            reveal_strlit("-");
        }
        let d = dec(m);
        s.append(d.as_str());
        s
    } else {
        dec(n as u64)
    }
}

/// An octet as two hexadecimal digits.
pub fn hex2(b: u8, upper: bool) -> (s: String)
    ensures
        s@ == hex2_text(b, upper),
{
    let mut s = String::from_str(digit_str(b / 16, upper));
    s.append(digit_str(b % 16, upper));
    s
}

/// A 32-bit word as its 32 binary digits, most significant first.
pub fn bin32(x: u32) -> (s: String)
    ensures
        s@ == bin_text(x as nat, 32),
{
    let mut s = String::from_str("");
    let mut i: u32 = 0;
    proof {
        reveal_strlit("");
        assert(s@ =~= Seq::<char>::empty());
        lemma_bin_none((x as nat) / pow2_of(32));
    }
    while i < 32
        invariant
            i <= 32,
            s@ == bin_text((x as nat) / pow2_of((32 - i) as nat), i as nat),
        decreases 32 - i,
    {
        let shift: u32 = 31 - i;
        let bit = (x >> shift) & 1;
        proof {
            lemma_shift_bit(x, shift);
            lemma_bin_step(x, i);
        }
        let ghost before = s@;
        proof {
            reveal_strlit("0");
            reveal_strlit("1");
        }
        if bit == 1 {
            s.append("1");
        } else {
            s.append("0");
        }
        proof {
            assert(s@ =~= before.push(if ((x as nat) / pow2_of((31 - i) as nat)) % 2 == 1 { '1' } else { '0' }));
        }
        i = i + 1;
    }
    proof {
        assert(pow2_of(0) == 1);
        assert((x as nat) / 1 == x as nat);
    }
    s
}

proof fn lemma_bin_none(y: nat)
    ensures
        bin_text(y, 0) == Seq::<char>::empty(),
{
}

/// Two to the `n`.
pub open spec fn pow2_of(n: nat) -> nat
    decreases n,
{
    if n == 0 {
        1
    } else {
        2 * pow2_of((n - 1) as nat)
    }
}

proof fn lemma_shift_bit(x: u32, shift: u32)
    requires
        shift < 32,
    ensures
        (x >> shift) & 1 == ((x as nat) / pow2_of(shift as nat)) % 2,
    decreases shift,
{
    if shift == 0 {
        assert((x >> 0u32) & 1 == x % 2) by (bit_vector);
        assert(pow2_of(0) == 1);
        assert((x as nat) / 1 == x as nat);
    } else {
        let h: u32 = x / 2;
        let t: u32 = (shift - 1) as u32;
        lemma_shift_bit(h, t);
        assert((x >> shift) & 1 == (h >> t) & 1) by (bit_vector)
            requires
                0 < shift < 32,
                h == x / 2,
                t == shift - 1,
        ;
        lemma_pow2_positive(t as nat);
        assert((x as nat) / pow2_of(shift as nat) == (h as nat) / pow2_of(t as nat)) by {
            vstd::arithmetic::div_mod::lemma_div_denominator(x as int, 2, pow2_of(t as nat) as int);
        }
    }
}

proof fn lemma_pow2_positive(n: nat)
    ensures
        pow2_of(n) >= 1,
    decreases n,
{
    if n > 0 {
        lemma_pow2_positive((n - 1) as nat);
    }
}

proof fn lemma_bin_step(x: u32, i: u32)
    requires
        i < 32,
    ensures
        bin_text((x as nat) / pow2_of((32 - (i + 1)) as nat), (i + 1) as nat) == bin_text(
            (x as nat) / pow2_of((32 - i) as nat),
            i as nat,
        ).push(if ((x as nat) / pow2_of((31 - i) as nat)) % 2 == 1 { '1' } else { '0' }),
{
    let p = pow2_of((31 - i) as nat);
    lemma_pow2_positive((31 - i) as nat);
    let y = (x as nat) / p;
    assert(pow2_of((32 - i) as nat) == 2 * p);
    assert((x as nat) / pow2_of((32 - i) as nat) == y / 2) by {
        vstd::arithmetic::div_mod::lemma_div_denominator(x as int, p as int, 2);
    }
}

/// Octets as a list of decimal numbers: `[a, b, c]`.
pub fn octet_list(s: &[u8]) -> (t: String)
    ensures
        t@ == octet_list_text(s@),
{
    let mut t = String::from_str("[");
    proof {
        reveal_strlit("[");
        reveal_strlit(", ");
        reveal_strlit("]");
    }
    let mut i: usize = 0;
    while i < s.len()
        invariant
            i <= s@.len(),
            t@ == seq!['['] + octet_items_text(s@.subrange(0, i as int)),
        decreases s@.len() - i,
    {
        proof {
            assert(s@.subrange(0, i + 1).drop_last() =~= s@.subrange(0, i as int));
        }
        let ghost before = t@;
        proof {
            reveal_strlit(", ");
        }
        if i > 0 {
            t.append(", ");
        }
        let d = dec(s[i] as u64);
        t.append(d.as_str());
        proof {
            let cur = s@.subrange(0, i + 1);
            assert(cur.last() == s@[i as int]);
            if i == 0 {
                assert(cur.len() == 1);
                assert(cur[0] == s@[0]);
                assert(s@.subrange(0, 0) =~= Seq::<u8>::empty());
                assert(t@ =~= before + dec_text(s@[0] as nat));
            } else {
                assert(t@ =~= before + seq![',', ' '] + dec_text(s@[i as int] as nat));
            }
            assert(t@ =~= seq!['['] + octet_items_text(cur));
        }
        i = i + 1;
    }
    t.append("]");
    proof {
        assert(s@.subrange(0, s@.len() as int) =~= s@);
        assert(t@ =~= octet_list_text(s@));
    }
    t
}

/// How a history cache's kind is shown.
pub open spec fn history_cache_type_text(t: HistoryCacheType) -> Seq<char> {
    match t {
        HistoryCacheType::Dummy => "Dummy"@,
        HistoryCacheType::Writer => "Writer"@,
        HistoryCacheType::Reader => "Reader"@,
    }
}

impl HistoryCacheType {
    /// The kind's name.
    pub fn text(&self) -> (s: String)
        ensures
            s@ == history_cache_type_text(*self),
    {
        match self {
            HistoryCacheType::Dummy => String::from_str("Dummy"),
            HistoryCacheType::Writer => String::from_str("Writer"),
            HistoryCacheType::Reader => String::from_str("Reader"),
        }
    }
}

/// How a message error is shown: its kind, then its message in quotes.
pub open spec fn message_error_text(e: MessageError) -> Seq<char> {
    match e {
        MessageError::Error(m) => "MessageError: ('"@ + m@ + "')"@,
        MessageError::Warn(m) => "MessageWarn: ('"@ + m@ + "')"@,
    }
}

impl MessageError {
    pub fn text(&self) -> (s: String)
        ensures
            s@ == message_error_text(*self),
    {
        let (mut s, m) = match self {
            MessageError::Error(m) => (String::from_str("MessageError: ('"), m),
            MessageError::Warn(m) => (String::from_str("MessageWarn: ('"), m),
        };
        s.append(m.as_str());
        s.append("')");
        s
    }
}

/// How a reading error is shown: the name of its kind.
pub open spec fn read_error_text(e: ReadError) -> Seq<char> {
    match e {
        ReadError::Malformed => "Malformed"@,
    }
}

impl ReadError {
    pub fn text(&self) -> (s: String)
        ensures
            s@ == read_error_text(*self),
    {
        match self {
            ReadError::Malformed => String::from_str("Malformed"),
        }
    }
}

/// How a timestamp is shown: its seconds, a dot and its fraction, both in
/// decimal.
pub open spec fn timestamp_text(t: Timestamp) -> Seq<char> {
    dec_text(t.seconds as nat) + seq!['.'] + dec_text(t.fraction as nat)
}

impl Timestamp {
    pub fn text(&self) -> (s: String)
        ensures
            s@ == timestamp_text(*self),
    {
        let mut s = dec(self.seconds as u64);
        s.append(".");
        let f = dec(self.fraction as u64);
        s.append(f.as_str());
        proof {
            reveal_strlit(".");
        }
        s
    }
}

/// Bitmap words, each as 32 binary digits followed by a comma and a space.
pub open spec fn words_text(ws: Seq<u32>) -> Seq<char>
    decreases ws.len(),
{
    if ws.len() == 0 {
        Seq::empty()
    } else {
        words_text(ws.drop_last()) + bin_text(ws.last() as nat, 32) + ", "@
    }
}

/// How a sequence number set is shown: its base, its bit count and each
/// bitmap word in binary.
pub open spec fn sequence_number_set_text(s: SequenceNumberSet) -> Seq<char> {
    "SequenceNumberSet { bitmap_base: "@ + signed_dec_text(s.bitmap_base.0 as int) + ", num_bits: "@
        + dec_text(s.num_bits as nat) + ",  bitmap: {"@ + words_text(s.bitmap@) + "} }"@
}

impl NumberSet<SequenceNumber> {
    pub fn text(&self) -> (t: String)
        ensures
            t@ == sequence_number_set_text(*self),
    {
        let mut t = String::from_str("SequenceNumberSet { bitmap_base: ");
        let b = signed_dec(self.bitmap_base.0);
        t.append(b.as_str());
        t.append(", num_bits: ");
        let n = dec(self.num_bits as u64);
        t.append(n.as_str());
        t.append(",  bitmap: {");
        let ghost head = t@;
        let mut i: usize = 0;
        while i < self.bitmap.len()
            invariant
                i <= self.bitmap@.len(),
                t@ == head + words_text(self.bitmap@.subrange(0, i as int)),
            decreases self.bitmap@.len() - i,
        {
            proof {
                assert(self.bitmap@.subrange(0, i + 1).drop_last() =~= self.bitmap@.subrange(0, i as int));
            }
            let w = bin32(self.bitmap[i]);
            t.append(w.as_str());
            t.append(", ");
            proof {
                assert(t@ =~= head + words_text(self.bitmap@.subrange(0, i + 1)));
            }
            i = i + 1;
        }
        t.append("} }");
        proof {
            assert(self.bitmap@.subrange(0, self.bitmap@.len() as int) =~= self.bitmap@);
            assert(t@ =~= sequence_number_set_text(*self));
        }
        t
    }
}

/// The name of a kind octet: the name RTPS gives it, or `OTHER`.
pub open spec fn kind_name(v: u8) -> Seq<char> {
    if v == KIND_UNKNOW_USER_DEFIND {
        "UNKNOW_USER_DEFIND"@
    } else if v == KIND_WRITER_WITH_KEY_USER_DEFIND {
        "WRITER_WITH_KEY_USER_DEFIND"@
    } else if v == KIND_WRITER_NO_KEY_USER_DEFIND {
        "WRITER_NO_KEY_USER_DEFIND"@
    } else if v == KIND_READER_NO_KEY_USER_DEFIND {
        "READER_NO_KEY_USER_DEFIND"@
    } else if v == KIND_READER_WITH_KEY_USER_DEFIND {
        "READER_WITH_KEY_USER_DEFIND"@
    } else if v == KIND_WRITER_GROUP_USER_DEFIND {
        "WRITER_GROUP_USER_DEFIND"@
    } else if v == KIND_READER_GROUP_USER_DEFIND {
        "READER_GROUP_USER_DEFIND"@
    } else if v == KIND_UNKNOW_BUILT_IN {
        "UNKNOW_BUILT_IN"@
    } else if v == KIND_PARTICIPANT_BUILT_IN {
        "PARTICIPANT_BUILT_IN"@
    } else if v == KIND_WRITER_WITH_KEY_BUILT_IN {
        "WRITER_WITH_KEY_BUILT_IN"@
    } else if v == KIND_WRITER_NO_KEY_BUILT_IN {
        "WRITER_NO_KEY_BUILT_IN"@
    } else if v == KIND_READER_NO_KEY_BUILT_IN {
        "READER_NO_KEY_BUILT_IN"@
    } else if v == KIND_READER_WITH_KEY_BUILT_IN {
        "READER_WITH_KEY_BUILT_IN"@
    } else if v == KIND_WRITER_GROUP_BUILT_IN {
        "WRITER_GROUP_BUILT_IN"@
    } else if v == KIND_READER_GROUP_BUILT_IN {
        "READER_GROUP_BUILT_IN"@
    } else if v == KIND_PUBLISHER {
        "PUBLISHER"@
    } else if v == KIND_SUBSCRIBER {
        "SUBSCRIBER"@
    } else {
        "OTHER"@
    }
}

/// The name of a kind octet; see `kind_name`.
pub fn kind_name_str(v: u8) -> (s: &'static str)
    ensures
        s@ == kind_name(v),
{
    if v == KIND_UNKNOW_USER_DEFIND {
        "UNKNOW_USER_DEFIND"
    } else if v == KIND_WRITER_WITH_KEY_USER_DEFIND {
        "WRITER_WITH_KEY_USER_DEFIND"
    } else if v == KIND_WRITER_NO_KEY_USER_DEFIND {
        "WRITER_NO_KEY_USER_DEFIND"
    } else if v == KIND_READER_NO_KEY_USER_DEFIND {
        "READER_NO_KEY_USER_DEFIND"
    } else if v == KIND_READER_WITH_KEY_USER_DEFIND {
        "READER_WITH_KEY_USER_DEFIND"
    } else if v == KIND_WRITER_GROUP_USER_DEFIND {
        "WRITER_GROUP_USER_DEFIND"
    } else if v == KIND_READER_GROUP_USER_DEFIND {
        "READER_GROUP_USER_DEFIND"
    } else if v == KIND_UNKNOW_BUILT_IN {
        "UNKNOW_BUILT_IN"
    } else if v == KIND_PARTICIPANT_BUILT_IN {
        "PARTICIPANT_BUILT_IN"
    } else if v == KIND_WRITER_WITH_KEY_BUILT_IN {
        "WRITER_WITH_KEY_BUILT_IN"
    } else if v == KIND_WRITER_NO_KEY_BUILT_IN {
        "WRITER_NO_KEY_BUILT_IN"
    } else if v == KIND_READER_NO_KEY_BUILT_IN {
        "READER_NO_KEY_BUILT_IN"
    } else if v == KIND_READER_WITH_KEY_BUILT_IN {
        "READER_WITH_KEY_BUILT_IN"
    } else if v == KIND_WRITER_GROUP_BUILT_IN {
        "WRITER_GROUP_BUILT_IN"
    } else if v == KIND_READER_GROUP_BUILT_IN {
        "READER_GROUP_BUILT_IN"
    } else if v == KIND_PUBLISHER {
        "PUBLISHER"
    } else if v == KIND_SUBSCRIBER {
        "SUBSCRIBER"
    } else {
        "OTHER"
    }
}

/// How an entity kind is shown: its name and its octet in hexadecimal.
pub open spec fn entity_kind_text(k: EntityKind) -> Seq<char> {
    "EntityKind: "@ + kind_name(k.value) + "(0x"@ + hex2_text(k.value, true) + ")"@
}

impl EntityKind {
    pub fn text(&self) -> (s: String)
        ensures
            s@ == entity_kind_text(*self),
    {
        let mut s = String::from_str("EntityKind: ");
        s.append(kind_name_str(self.value));
        s.append("(0x");
        let h = hex2(self.value, true);
        s.append(h.as_str());
        s.append(")");
        s
    }
}

/// The name RTPS gives a predefined entity identifier (RTPS 9.3.1.3), if
/// it is one.
pub open spec fn entity_id_name(e: EntityId) -> Option<Seq<char>> {
    if e == spec_entity_id(0, 0, 0, KIND_UNKNOW_USER_DEFIND) {
        Some("UNKNOW"@)
    } else if e == spec_entity_id(0, 0, 1, KIND_PARTICIPANT_BUILT_IN) {
        Some("PARTICIPANT"@)
    } else if e == spec_entity_id(0, 0, 2, KIND_WRITER_WITH_KEY_BUILT_IN) {
        Some("SED_PBUILTIN_TOPICS_ANNOUNCER"@)
    } else if e == spec_entity_id(0, 0, 2, KIND_READER_WITH_KEY_BUILT_IN) {
        Some("SED_PBUILTIN_TOPICS_DETECTOR"@)
    } else if e == spec_entity_id(0, 0, 3, KIND_WRITER_WITH_KEY_BUILT_IN) {
        Some("SEDP_BUILTIN_PUBLICATIONS_ANNOUNCER"@)
    } else if e == spec_entity_id(0, 0, 3, KIND_READER_WITH_KEY_BUILT_IN) {
        Some("SEDP_BUILTIN_PUBLICATIONS_DETECTOR"@)
    } else if e == spec_entity_id(0, 0, 4, KIND_WRITER_WITH_KEY_BUILT_IN) {
        Some("SEDP_BUILTIN_SUBSCRIPTIONS_ANNOUNCER"@)
    } else if e == spec_entity_id(0, 0, 4, KIND_READER_WITH_KEY_BUILT_IN) {
        Some("SEDP_BUILTIN_SUBSCRIPTIONS_DETECTOR"@)
    } else if e == spec_entity_id(0, 1, 0, KIND_WRITER_WITH_KEY_BUILT_IN) {
        Some("SPDP_BUILTIN_PARTICIPANT_ANNOUNCER"@)
    } else if e == spec_entity_id(0, 1, 0, KIND_READER_WITH_KEY_BUILT_IN) {
        Some("SPDP_BUILTIN_PARTICIPANT_DETECTOR"@)
    } else if e == spec_entity_id(0, 2, 0, KIND_WRITER_WITH_KEY_BUILT_IN) {
        Some("P2P_BUILTIN_PARTICIPANT_MESSAGE_WRITER"@)
    } else if e == spec_entity_id(0, 2, 0, KIND_READER_WITH_KEY_BUILT_IN) {
        Some("P2P_BUILTIN_PARTICIPANT_MESSAGE_READER"@)
    } else {
        None
    }
}

/// The name of a predefined entity identifier; see `entity_id_name`.
pub fn entity_id_name_str(e: &EntityId) -> (s: Option<&'static str>)
    ensures
        entity_id_name(*e) == match s {
            Some(t) => Some(t@),
            None => None::<Seq<char>>,
        },
{
    if *e == EntityId::unknow() {
        Some("UNKNOW")
    } else if *e == EntityId::participant() {
        Some("PARTICIPANT")
    } else if *e == EntityId::sedp_builtin_topics_announcer() {
        Some("SED_PBUILTIN_TOPICS_ANNOUNCER")
    } else if *e == EntityId::sedp_builtin_topics_detector() {
        Some("SED_PBUILTIN_TOPICS_DETECTOR")
    } else if *e == EntityId::sedp_builtin_publications_announcer() {
        Some("SEDP_BUILTIN_PUBLICATIONS_ANNOUNCER")
    } else if *e == EntityId::sedp_builtin_publications_detector() {
        Some("SEDP_BUILTIN_PUBLICATIONS_DETECTOR")
    } else if *e == EntityId::sedp_builtin_subscriptions_announcer() {
        Some("SEDP_BUILTIN_SUBSCRIPTIONS_ANNOUNCER")
    } else if *e == EntityId::sedp_builtin_subscriptions_detector() {
        Some("SEDP_BUILTIN_SUBSCRIPTIONS_DETECTOR")
    } else if *e == EntityId::spdp_builtin_participant_announcer() {
        Some("SPDP_BUILTIN_PARTICIPANT_ANNOUNCER")
    } else if *e == EntityId::spdp_builtin_participant_detector() {
        Some("SPDP_BUILTIN_PARTICIPANT_DETECTOR")
    } else if *e == EntityId::p2p_builtin_participant_message_writer() {
        Some("P2P_BUILTIN_PARTICIPANT_MESSAGE_WRITER")
    } else if *e == EntityId::p2p_builtin_participant_message_reader() {
        Some("P2P_BUILTIN_PARTICIPANT_MESSAGE_READER")
    } else {
        None
    }
}

/// How an entity identifier is shown: by its name when it is predefined,
/// else by its key octets and its kind.
pub open spec fn entity_id_text(e: EntityId) -> Seq<char> {
    match entity_id_name(e) {
        Some(n) => "EntityId { "@ + n + " }"@,
        None => "EntityId { entity_key: "@ + octet_list_text(seq![e.key0, e.key1, e.key2])
            + ", entity_kind: "@ + entity_kind_text(e.entity_kind) + " }"@,
    }
}

impl EntityId {
    pub fn text(&self) -> (s: String)
        ensures
            s@ == entity_id_text(*self),
    {
        match entity_id_name_str(self) {
            Some(n) => {
                let mut s = String::from_str("EntityId { ");
                s.append(n);
                s.append(" }");
                s
            },
            None => {
                let mut s = String::from_str("EntityId { entity_key: ");
                let key: [u8; 3] = [self.key0, self.key1, self.key2];
                proof {
                    assert(key@ =~= seq![self.key0, self.key1, self.key2]);
                }
                let l = octet_list(&key);
                s.append(l.as_str());
                s.append(", entity_kind: ");
                let k = self.entity_kind.text();
                s.append(k.as_str());
                s.append(" }");
                s
            },
        }
    }
}

/// Address octets in hexadecimal, two by two with a colon after each pair
/// but the last.
pub open spec fn v6_text(a: Seq<u8>) -> Seq<char>
    decreases a.len(),
{
    if a.len() == 0 {
        Seq::empty()
    } else {
        let i = a.len() - 1;
        v6_text(a.drop_last()) + hex2_text(a.last(), false) + if i % 2 == 1 && i != 15 {
            seq![':']
        } else {
            Seq::empty()
        }
    }
}

/// How a locator is shown: its kind, its port and its address (UDPv4 as
/// four decimal octets, UDPv6 as hexadecimal pairs, any other as its list
/// of octets).
pub open spec fn locator_text(l: Locator) -> Seq<char> {
    let port = dec_text(l.port as nat);
    let a = l.address@;
    "Locator: "@ + if l.kind == Locator::KIND_INVALID {
        "kidn: INVALID, port: "@ + port + ", address: "@ + octet_list_text(a)
    } else if l.kind == Locator::KIND_RESERVED {
        "kind: RESERVED, port: "@ + port + ", address: "@ + octet_list_text(a)
    } else if l.kind == Locator::KIND_UDPV4 {
        "kind: UDPv4, port: "@ + port + ", address: "@ + dec_text(a[12] as nat) + seq!['.'] + dec_text(
            a[13] as nat,
        ) + seq!['.'] + dec_text(a[14] as nat) + seq!['.'] + dec_text(a[15] as nat)
    } else if l.kind == Locator::KIND_UDPV6 {
        "kind: UDPv6, port: "@ + port + ", address: "@ + v6_text(a)
    } else {
        "kind: "@ + signed_dec_text(l.kind as int) + ", port: "@ + port + ", address: "@ + octet_list_text(a)
    }
}

impl Locator {
    /// The locator as `locator_text` shows it; a UDPv4 address must have
    /// its first twelve octets zero.
    pub fn text(&self) -> (s: String)
        requires
            self.kind == Locator::KIND_UDPV4 ==> self.address@.subrange(0, 12) == zeros(12),
        ensures
            s@ == locator_text(*self),
    {
        let mut s = String::from_str("Locator: ");
        let port = dec(self.port as u64);
        let ghost head = s@;
        if self.kind == Locator::KIND_INVALID {
            s.append("kidn: INVALID, port: ");
            s.append(port.as_str());
            s.append(", address: ");
            let l = octet_list(&self.address);
            s.append(l.as_str());
        } else if self.kind == Locator::KIND_RESERVED {
            s.append("kind: RESERVED, port: ");
            s.append(port.as_str());
            s.append(", address: ");
            let l = octet_list(&self.address);
            s.append(l.as_str());
        } else if self.kind == Locator::KIND_UDPV4 {
            s.append("kind: UDPv4, port: ");
            s.append(port.as_str());
            s.append(", address: ");
            proof {
                reveal_strlit(".");
            }
            let d0 = dec(self.address[12] as u64);
            s.append(d0.as_str());
            s.append(".");
            let d1 = dec(self.address[13] as u64);
            s.append(d1.as_str());
            s.append(".");
            let d2 = dec(self.address[14] as u64);
            s.append(d2.as_str());
            s.append(".");
            let d3 = dec(self.address[15] as u64);
            s.append(d3.as_str());
        } else if self.kind == Locator::KIND_UDPV6 {
            s.append("kind: UDPv6, port: ");
            s.append(port.as_str());
            s.append(", address: ");
            let ghost before = s@;
            let mut i: usize = 0;
            while i < 16
                invariant
                    i <= 16,
                    self.address@.len() == 16,
                    s@ == before + v6_text(self.address@.subrange(0, i as int)),
                decreases 16 - i,
            {
                proof {
                    assert(self.address@.subrange(0, i + 1).drop_last() =~= self.address@.subrange(0, i as int));
                    reveal_strlit(":");
                }
                let h = hex2(self.address[i], false);
                s.append(h.as_str());
                if i % 2 == 1 && i != 15 {
                    s.append(":");
                }
                proof {
                    assert(s@ =~= before + v6_text(self.address@.subrange(0, i + 1)));
                }
                i = i + 1;
            }
            proof {
                assert(self.address@.subrange(0, 16) =~= self.address@);
            }
        } else {
            s.append("kind: ");
            let k = signed_dec(self.kind as i64);
            s.append(k.as_str());
            s.append(", port: ");
            s.append(port.as_str());
            s.append(", address: ");
            let l = octet_list(&self.address);
            s.append(l.as_str());
        }
        proof {
            assert(s@ =~= locator_text(*self));
        }
        s
    }
}

/// How a flag is shown.
pub open spec fn bool_text(b: bool) -> Seq<char> {
    if b {
        "true"@
    } else {
        "false"@
    }
}

pub fn bool_str(b: bool) -> (s: &'static str)
    ensures
        s@ == bool_text(b),
{
    if b {
        "true"
    } else {
        "false"
    }
}

/// How a duration is shown: its seconds and its fraction, by field.
pub open spec fn duration_text(d: Duration) -> Seq<char> {
    "Duration { seconds: "@ + signed_dec_text(d.seconds as int) + ", fraction: "@ + dec_text(
        d.fraction as nat,
    ) + " }"@
}

impl Duration {
    pub fn text(&self) -> (s: String)
        ensures
            s@ == duration_text(*self),
    {
        let mut s = String::from_str("Duration { seconds: ");
        let a = signed_dec(self.seconds as i64);
        s.append(a.as_str());
        s.append(", fraction: ");
        let b = dec(self.fraction as u64);
        s.append(b.as_str());
        s.append(" }");
        s
    }
}

/// How a durability is shown: the name of its kind.
pub open spec fn durability_text(d: Durability) -> Seq<char> {
    match d {
        Durability::Volatile => "Volatile"@,
        Durability::TransientLocal => "TransientLocal"@,
    }
}

/// How an ownership is shown: the name of its kind.
pub open spec fn ownership_text(o: Ownership) -> Seq<char> {
    match o {
        Ownership::Shared => "Shared"@,
        Ownership::Exclusive => "Exclusive"@,
    }
}

/// How a destination order is shown: the name of its kind.
pub open spec fn destination_order_text(d: DestinationOrder) -> Seq<char> {
    match d {
        DestinationOrder::ByReceptionTimestamp => "ByReceptionTimestamp"@,
        DestinationOrder::BySourceTimestamp => "BySourceTimestamp"@,
    }
}

/// How a liveliness kind is shown: its name.
pub open spec fn liveliness_kind_text(k: LivelinessQosKind) -> Seq<char> {
    match k {
        LivelinessQosKind::Automatic => "Automatic"@,
        LivelinessQosKind::ManualByParticipant => "ManualByParticipant"@,
        LivelinessQosKind::ManualByTopic => "ManualByTopic"@,
    }
}

/// How a reliability kind is shown: its name.
pub open spec fn reliability_kind_text(k: ReliabilityQosKind) -> Seq<char> {
    match k {
        ReliabilityQosKind::Reliable => "Reliable"@,
        ReliabilityQosKind::BestEffort => "BestEffort"@,
    }
}

/// How a deadline is shown: its period, by field.
pub open spec fn deadline_text(d: Deadline) -> Seq<char> {
    "Deadline { period: "@ + duration_text(d.period) + " }"@
}

/// How a latency budget is shown: its duration.
pub open spec fn latency_budget_text(l: LatencyBudget) -> Seq<char> {
    "LatencyBudget("@ + duration_text(l.0) + ")"@
}

/// How a liveliness is shown: its kind and its lease, by field.
pub open spec fn liveliness_text(l: Liveliness) -> Seq<char> {
    "Liveliness { kind: "@ + liveliness_kind_text(l.kind) + ", lease_duration: "@ + duration_text(
        l.lease_duration,
    ) + " }"@
}

/// How a reliability is shown: its kind and its blocking time, by field.
pub open spec fn reliability_text(r: Reliability) -> Seq<char> {
    "Reliability { kind: "@ + reliability_kind_text(r.kind) + ", max_bloking_time: "@
        + duration_text(r.max_bloking_time) + " }"@
}

/// How a policy is shown with the flag that tells whether it was set
/// explicitly: the two in parentheses.
pub open spec fn flagged_text(value: Seq<char>, flag: bool) -> Seq<char> {
    "("@ + value + ", "@ + bool_text(flag) + ")"@
}

/// `value` with its flag, as `flagged_text` shows it.
pub fn flagged(value: String, flag: bool) -> (s: String)
    ensures
        s@ == flagged_text(value@, flag),
{
    let mut s = String::from_str("(");
    s.append(value.as_str());
    s.append(", ");
    s.append(bool_str(flag));
    s.append(")");
    s
}

impl Durability {
    pub fn text(&self) -> (s: String)
        ensures
            s@ == durability_text(*self),
    {
        match self {
            Durability::Volatile => String::from_str("Volatile"),
            Durability::TransientLocal => String::from_str("TransientLocal"),
        }
    }
}

impl Ownership {
    pub fn text(&self) -> (s: String)
        ensures
            s@ == ownership_text(*self),
    {
        match self {
            Ownership::Shared => String::from_str("Shared"),
            Ownership::Exclusive => String::from_str("Exclusive"),
        }
    }
}

impl DestinationOrder {
    pub fn text(&self) -> (s: String)
        ensures
            s@ == destination_order_text(*self),
    {
        match self {
            DestinationOrder::ByReceptionTimestamp => String::from_str("ByReceptionTimestamp"),
            DestinationOrder::BySourceTimestamp => String::from_str("BySourceTimestamp"),
        }
    }
}

impl Deadline {
    pub fn text(&self) -> (s: String)
        ensures
            s@ == deadline_text(*self),
    {
        let mut s = String::from_str("Deadline { period: ");
        let p = self.period.text();
        s.append(p.as_str());
        s.append(" }");
        s
    }
}

impl LatencyBudget {
    pub fn text(&self) -> (s: String)
        ensures
            s@ == latency_budget_text(*self),
    {
        let mut s = String::from_str("LatencyBudget(");
        let d = self.0.text();
        s.append(d.as_str());
        s.append(")");
        s
    }
}

impl Liveliness {
    pub fn text(&self) -> (s: String)
        ensures
            s@ == liveliness_text(*self),
    {
        let mut s = String::from_str("Liveliness { kind: ");
        s.append(
            match self.kind {
                LivelinessQosKind::Automatic => "Automatic",
                LivelinessQosKind::ManualByParticipant => "ManualByParticipant",
                LivelinessQosKind::ManualByTopic => "ManualByTopic",
            },
        );
        s.append(", lease_duration: ");
        let d = self.lease_duration.text();
        s.append(d.as_str());
        s.append(" }");
        s
    }
}

impl Reliability {
    pub fn text(&self) -> (s: String)
        ensures
            s@ == reliability_text(*self),
    {
        let mut s = String::from_str("Reliability { kind: ");
        s.append(
            match self.kind {
                ReliabilityQosKind::Reliable => "Reliable",
                ReliabilityQosKind::BestEffort => "BestEffort",
            },
        );
        s.append(", max_bloking_time: ");
        let d = self.max_bloking_time.text();
        s.append(d.as_str());
        s.append(" }");
        s
    }
}

} // verus!
