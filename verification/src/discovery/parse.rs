//! Reading discovery data from a parameter list: what each parameter
//! identifier carries, and the whole list read parameter by parameter until
//! the sentinel.
use vstd::prelude::*;
use crate::dds::qos::policy::{
    DestinationOrder, Durability, DurabilityService, History, Liveliness, Ownership,
    Presentation, Reliability, ResourceLimits,
};
use crate::dds::qos::policy::pad_len;
use crate::dds::qos::wire::{
    read_duration, read_octets, read_short_octets,
    access_scope_of_code, destination_order_of_code, durability_of_code, history_kind_of_code,
    liveliness_kind_of_code, ownership_of_code, read_coded_at, read_duration_at,
    read_durability_service_at, read_history_at, read_i32_at, read_liveliness_at,
    read_octets_at, read_presentation_at, read_reliability_at, read_resource_limits_at,
    read_short_octets_at,
};
use crate::message::cdr::{
    Endianness, get_bytes, get_i32, get_u16, get_u32, get_u8, i32_at, pad_of, string_from_utf8,
    u16_at, u32_at,
};
use crate::message::element::Locator;
use crate::structure::entity_id::{EntityId, EntityKind};
use crate::structure::guid::{GuidPrefix, GUID};
use crate::discovery::data::{guid_octets, locator_view, param_view, texts_view, SdpParam, VendorId};
use crate::structure::duration::Duration;
use crate::structure::parameter_id::{
    PID_BUILTIN_ENDPOINT_SET, PID_DEADLINE, PID_DEFAULT_MULTICAST_LOCATOR, PID_DEFAULT_UNICAST_LOCATOR, PID_DESTINATION_ORDER, PID_DOMAIN_ID, PID_DOMAIN_TAG, PID_DURABILITY, PID_DURABILITY_SERVICE, PID_ENDPOINT_GUID, PID_ENTITY_NAME, PID_EXPECTS_INLINE_QOS, PID_GROUP_DATA, PID_HISTORY, PID_LATENCY_BUDGET, PID_LIFESPAN, PID_LIVELINESS, PID_METATRAFFIC_MULTICAST_LOCATOR, PID_METATRAFFIC_UNICAST_LOCATOR, PID_MULTICAST_LOCATOR, PID_OWNERSHIP, PID_OWNERSHIP_STRENGTH, PID_PAD, PID_PARTICIPANT_GUID, PID_PARTICIPANT_LEASE_DURATION, PID_PARTICIPANT_MANUAL_LIVELINESS_COUNT, PID_PARTITION, PID_PRESENTATION, PID_PROPERTY_LIST, PID_PROTOCOL_VERSION, PID_RELIABILITY, PID_RESOURCE_LIMITS, PID_SENTINEL, PID_TIME_BASED_FILTER, PID_TOPIC_DATA, PID_TOPIC_NAME, PID_TRANSPORT_PRIORITY, PID_TYPE_MAX_SIZE_SERIALIZED, PID_TYPE_NAME, PID_UNICAST_LOCATOR, PID_USER_DATA, PID_VENDOR_ID,
};
use crate::discovery::data::ProtocolVersion;

verus! {

/// What reading a value gives: the value and where it ends; a malformed
/// input; or an input on which reading aborts.
pub enum Outcome<T> {
    Done(T, int),
    Malformed,
    Aborts,
}

/// One parameter of discovery data, as read.
pub enum SdpItem {
    DomainId(u16),
    DomainTag(Seq<char>),
    ProtocolVersion(ProtocolVersion),
    ParticipantGuid(Seq<u8>),
    VendorId(Seq<u8>),
    ExpectsInlineQos(bool),
    BuiltinEndpointSet(u32),
    MetatrafficUnicastLocator(LocatorView),
    MetatrafficMulticastLocator(LocatorView),
    DefaultUnicastLocator(LocatorView),
    DefaultMulticastLocator(LocatorView),
    ManualLivelinessCount(i32),
    LeaseDuration(Duration),
    EndpointGuid(Seq<u8>),
    UnicastLocator(LocatorView),
    MulticastLocator(LocatorView),
    TypeMaxSizeSerialized(i32),
    TypeName(Seq<char>),
    TopicName(Seq<char>),
    Durability(Durability),
    Deadline(Duration),
    LatencyBudget(Duration),
    Liveliness(Liveliness),
    Reliability(Reliability),
    UserData(Seq<u8>),
    Ownership(Ownership),
    DestinationOrder(DestinationOrder),
    History(History),
    ResourceLimits(ResourceLimits),
    TransportPriority(i32),
    TimeBasedFilter(Duration),
    Presentation(Presentation),
    Partition(Seq<Seq<char>>),
    TopicData(Seq<u8>),
    GroupData(Seq<u8>),
    DurabilityService(DurabilityService),
    Lifespan(Duration),
    OwnershipStrength(i32),
    /// Padding, an entity name, a property list, or an identifier that is not
    /// read: nothing is kept.
    Skipped,
}

/// The value `f` makes of an optional read, as an outcome.
pub open spec fn outcome_of<T, U>(r: Option<(T, int)>, f: spec_fn(T) -> U) -> Outcome<U> {
    match r {
        Some((v, p)) => Outcome::Done(f(v), p),
        None => Outcome::Malformed,
    }
}

/// A GUID, as its sixteen octets: twelve of the prefix, three of the key
/// and the kind.
pub open spec fn read_guid_at(b: Seq<u8>, pos: int) -> Option<(Seq<u8>, int)> {
    if pos + 16 > b.len() {
        None
    } else {
        Some((b.subrange(pos, pos + 16), pos + 16))
    }
}

/// A locator, as its kind, its port and its sixteen address octets.
pub open spec fn read_locator_at(e: Endianness, b: Seq<u8>, pos: int) -> Option<(LocatorView, int)> {
    if pos + 24 > b.len() {
        None
    } else {
        Some(((i32_at(e, b, pos), u32_at(e, b, pos + 4), b.subrange(pos + 8, pos + 24)), pos + 24))
    }
}

/// A locator as plain values: kind, port and address octets.
pub type LocatorView = (i32, u32, Seq<u8>);

/// A text after a 32-bit length that counts a terminating zero: the octets
/// before the zero, then the zero and the padding skipped. A zero length
/// aborts; the octets must be UTF-8 when `text` is set.
pub open spec fn read_cdr_text_at(e: Endianness, b: Seq<u8>, pos: int, text: bool) -> Outcome<Seq<char>> {
    if pos + 4 > b.len() {
        Outcome::Malformed
    } else {
        let len = u32_at(e, b, pos) as int;
        if len == 0 {
            Outcome::Aborts
        } else {
            let start = pos + 4;
            let stop = start + len - 1;
            let end = stop + 1 + pad_of(len);
            if stop > b.len() || end > b.len() {
                Outcome::Malformed
            } else if !text {
                Outcome::Done(Seq::empty(), end)
            } else if vstd::utf8::valid_utf8(b.subrange(start, stop)) {
                Outcome::Done(vstd::utf8::decode_utf8(b.subrange(start, stop)), end)
            } else {
                Outcome::Malformed
            }
        }
    }
}

/// A text after a 32-bit length that counts its octets, which must be UTF-8.
pub open spec fn read_plain_text_at(e: Endianness, b: Seq<u8>, pos: int) -> Outcome<Seq<char>> {
    if pos + 4 > b.len() {
        Outcome::Malformed
    } else {
        let len = u32_at(e, b, pos) as int;
        let end = pos + 4 + len;
        if end > b.len() || !vstd::utf8::valid_utf8(b.subrange(pos + 4, end)) {
            Outcome::Malformed
        } else {
            Outcome::Done(vstd::utf8::decode_utf8(b.subrange(pos + 4, end)), end)
        }
    }
}

/// A text after a signed 32-bit length that counts a terminating zero: the
/// octets before the zero (UTF-8), the zero, then padding. The smallest
/// length aborts; a length below one is malformed.
pub open spec fn read_sized_text_at(e: Endianness, b: Seq<u8>, pos: int) -> Outcome<Seq<char>> {
    if pos + 4 > b.len() {
        Outcome::Malformed
    } else {
        let len = i32_at(e, b, pos) as int;
        if len == i32::MIN {
            Outcome::Aborts
        } else if len < 1 {
            Outcome::Malformed
        } else {
            let start = pos + 4;
            let stop = start + len - 1;
            let end = stop + 1 + pad_of(len);
            if end > b.len() || !vstd::utf8::valid_utf8(b.subrange(start, stop)) {
                Outcome::Malformed
            } else {
                Outcome::Done(vstd::utf8::decode_utf8(b.subrange(start, stop)), end)
            }
        }
    }
}

/// `k` texts read one after another.
pub open spec fn read_texts_at(e: Endianness, b: Seq<u8>, pos: int, k: nat) -> Outcome<Seq<Seq<char>>>
    decreases k,
{
    if k == 0 {
        Outcome::Done(Seq::empty(), pos)
    } else {
        match read_sized_text_at(e, b, pos) {
            Outcome::Done(t, p) => match read_texts_at(e, b, p, (k - 1) as nat) {
                Outcome::Done(rest, q) => Outcome::Done(seq![t] + rest, q),
                Outcome::Malformed => Outcome::Malformed,
                Outcome::Aborts => Outcome::Aborts,
            },
            Outcome::Malformed => Outcome::Malformed,
            Outcome::Aborts => Outcome::Aborts,
        }
    }
}

/// A partition: a signed count, then that many texts. A negative count
/// aborts.
pub open spec fn read_partition_at(e: Endianness, b: Seq<u8>, pos: int) -> Outcome<Seq<Seq<char>>> {
    if pos + 4 > b.len() {
        Outcome::Malformed
    } else {
        let n = i32_at(e, b, pos) as int;
        if n < 0 {
            Outcome::Aborts
        } else {
            read_texts_at(e, b, pos + 4, n as nat)
        }
    }
}

/// A property list: a count, then that many name and value texts.
pub open spec fn read_properties_at(e: Endianness, b: Seq<u8>, pos: int) -> Outcome<()> {
    if pos + 4 > b.len() {
        Outcome::Malformed
    } else {
        match read_texts_at(e, b, pos + 4, (2 * u32_at(e, b, pos)) as nat) {
            Outcome::Done(_, q) => Outcome::Done((), q),
            Outcome::Malformed => Outcome::Malformed,
            Outcome::Aborts => Outcome::Aborts,
        }
    }
}

/// What the parameter with identifier `pid`, whose value starts at `v`,
/// carries; `len` is the length the parameter gives, which only an
/// identifier that is not read uses.
#[verifier::opaque]
pub open spec fn read_value_at(e: Endianness, b: Seq<u8>, pid: u16, len: int, v: int) -> Outcome<SdpItem> {
    if pid == PID_DOMAIN_ID {
        if v + 4 > b.len() {
            Outcome::Malformed
        } else {
            Outcome::Done(SdpItem::DomainId(u16_at(e, b, v)), v + 4)
        }
    } else if pid == PID_DOMAIN_TAG {
        match read_plain_text_at(e, b, v) {
            Outcome::Done(t, p) => Outcome::Done(SdpItem::DomainTag(t), p),
            Outcome::Malformed => Outcome::Malformed,
            Outcome::Aborts => Outcome::Aborts,
        }
    } else if pid == PID_ENTITY_NAME {
        match read_cdr_text_at(e, b, v, false) {
            Outcome::Done(_, p) => Outcome::Done(SdpItem::Skipped, p),
            Outcome::Malformed => Outcome::Malformed,
            Outcome::Aborts => Outcome::Aborts,
        }
    } else if pid == PID_PROTOCOL_VERSION {
        if v + 4 > b.len() {
            Outcome::Malformed
        } else {
            Outcome::Done(SdpItem::ProtocolVersion(ProtocolVersion { major: b[v], minor: b[v + 1] }), v + 4)
        }
    } else if pid == PID_PARTICIPANT_GUID {
        outcome_of(read_guid_at(b, v), |g: Seq<u8>| SdpItem::ParticipantGuid(g))
    } else if pid == PID_VENDOR_ID {
        if v + 4 > b.len() {
            Outcome::Malformed
        } else {
            Outcome::Done(SdpItem::VendorId(b.subrange(v, v + 2)), v + 4)
        }
    } else if pid == PID_EXPECTS_INLINE_QOS {
        if v + 1 > b.len() {
            Outcome::Malformed
        } else if b[v] != 0 && b[v] != 1 {
            Outcome::Aborts
        } else if v + 4 > b.len() {
            Outcome::Malformed
        } else {
            Outcome::Done(SdpItem::ExpectsInlineQos(b[v] == 1), v + 4)
        }
    } else if pid == PID_BUILTIN_ENDPOINT_SET {
        if v + 4 > b.len() {
            Outcome::Malformed
        } else {
            Outcome::Done(SdpItem::BuiltinEndpointSet(u32_at(e, b, v)), v + 4)
        }
    } else if pid == PID_METATRAFFIC_UNICAST_LOCATOR {
        outcome_of(read_locator_at(e, b, v), |l: LocatorView| SdpItem::MetatrafficUnicastLocator(l))
    } else if pid == PID_METATRAFFIC_MULTICAST_LOCATOR {
        outcome_of(read_locator_at(e, b, v), |l: LocatorView| SdpItem::MetatrafficMulticastLocator(l))
    } else if pid == PID_DEFAULT_UNICAST_LOCATOR {
        outcome_of(read_locator_at(e, b, v), |l: LocatorView| SdpItem::DefaultUnicastLocator(l))
    } else if pid == PID_DEFAULT_MULTICAST_LOCATOR {
        outcome_of(read_locator_at(e, b, v), |l: LocatorView| SdpItem::DefaultMulticastLocator(l))
    } else if pid == PID_PARTICIPANT_MANUAL_LIVELINESS_COUNT {
        outcome_of(read_i32_at(e, b, v), |c: i32| SdpItem::ManualLivelinessCount(c))
    } else if pid == PID_PARTICIPANT_LEASE_DURATION {
        outcome_of(read_duration_at(e, b, v), |d: Duration| SdpItem::LeaseDuration(d))
    } else if pid == PID_ENDPOINT_GUID {
        outcome_of(read_guid_at(b, v), |g: Seq<u8>| SdpItem::EndpointGuid(g))
    } else if pid == PID_UNICAST_LOCATOR {
        outcome_of(read_locator_at(e, b, v), |l: LocatorView| SdpItem::UnicastLocator(l))
    } else if pid == PID_MULTICAST_LOCATOR {
        outcome_of(read_locator_at(e, b, v), |l: LocatorView| SdpItem::MulticastLocator(l))
    } else if pid == PID_TYPE_MAX_SIZE_SERIALIZED {
        outcome_of(read_i32_at(e, b, v), |c: i32| SdpItem::TypeMaxSizeSerialized(c))
    } else if pid == PID_TYPE_NAME {
        match read_cdr_text_at(e, b, v, true) {
            Outcome::Done(t, p) => Outcome::Done(SdpItem::TypeName(t), p),
            Outcome::Malformed => Outcome::Malformed,
            Outcome::Aborts => Outcome::Aborts,
        }
    } else if pid == PID_TOPIC_NAME {
        match read_cdr_text_at(e, b, v, true) {
            Outcome::Done(t, p) => Outcome::Done(SdpItem::TopicName(t), p),
            Outcome::Malformed => Outcome::Malformed,
            Outcome::Aborts => Outcome::Aborts,
        }
    } else {
        read_qos_value_at(e, b, pid, len, v)
    }
}

/// The value of a QoS parameter, a property list, the sentinel's place, or
/// an identifier that is not read.
#[verifier::opaque]
pub open spec fn read_qos_value_at(e: Endianness, b: Seq<u8>, pid: u16, len: int, v: int) -> Outcome<SdpItem> {
    if pid == PID_DURABILITY {
        outcome_of(read_coded_at(e, b, v, |c: i32| durability_of_code(c)), |d: Durability| SdpItem::Durability(d))
    } else if pid == PID_DEADLINE {
        outcome_of(read_duration_at(e, b, v), |d: Duration| SdpItem::Deadline(d))
    } else if pid == PID_LATENCY_BUDGET {
        outcome_of(read_duration_at(e, b, v), |d: Duration| SdpItem::LatencyBudget(d))
    } else if pid == PID_LIVELINESS {
        outcome_of(read_liveliness_at(e, b, v), |l: Liveliness| SdpItem::Liveliness(l))
    } else if pid == PID_RELIABILITY {
        outcome_of(read_reliability_at(e, b, v), |r: Reliability| SdpItem::Reliability(r))
    } else if pid == PID_USER_DATA {
        outcome_of(read_octets_at(e, b, v), |o: Seq<u8>| SdpItem::UserData(o))
    } else if pid == PID_OWNERSHIP {
        outcome_of(read_coded_at(e, b, v, |c: i32| ownership_of_code(c)), |o: Ownership| SdpItem::Ownership(o))
    } else if pid == PID_DESTINATION_ORDER {
        outcome_of(
            read_coded_at(e, b, v, |c: i32| destination_order_of_code(c)),
            |d: DestinationOrder| SdpItem::DestinationOrder(d),
        )
    } else if pid == PID_HISTORY {
        outcome_of(read_history_at(e, b, v), |h: History| SdpItem::History(h))
    } else if pid == PID_RESOURCE_LIMITS {
        outcome_of(read_resource_limits_at(e, b, v), |r: ResourceLimits| SdpItem::ResourceLimits(r))
    } else if pid == PID_TRANSPORT_PRIORITY {
        outcome_of(read_i32_at(e, b, v), |c: i32| SdpItem::TransportPriority(c))
    } else if pid == PID_TIME_BASED_FILTER {
        outcome_of(read_duration_at(e, b, v), |d: Duration| SdpItem::TimeBasedFilter(d))
    } else if pid == PID_PRESENTATION {
        match read_presentation_at(e, b, v) {
            Some((p, q)) => if q + 2 > b.len() {
                Outcome::Malformed
            } else {
                Outcome::Done(SdpItem::Presentation(p), q + 2)
            },
            None => Outcome::Malformed,
        }
    } else if pid == PID_PARTITION {
        match read_partition_at(e, b, v) {
            Outcome::Done(t, p) => Outcome::Done(SdpItem::Partition(t), p),
            Outcome::Malformed => Outcome::Malformed,
            Outcome::Aborts => Outcome::Aborts,
        }
    } else if pid == PID_TOPIC_DATA {
        outcome_of(read_short_octets_at(e, b, v), |o: Seq<u8>| SdpItem::TopicData(o))
    } else if pid == PID_GROUP_DATA {
        outcome_of(read_short_octets_at(e, b, v), |o: Seq<u8>| SdpItem::GroupData(o))
    } else if pid == PID_DURABILITY_SERVICE {
        outcome_of(read_durability_service_at(e, b, v), |d: DurabilityService| SdpItem::DurabilityService(d))
    } else if pid == PID_LIFESPAN {
        outcome_of(read_duration_at(e, b, v), |d: Duration| SdpItem::Lifespan(d))
    } else if pid == PID_OWNERSHIP_STRENGTH {
        outcome_of(read_i32_at(e, b, v), |c: i32| SdpItem::OwnershipStrength(c))
    } else if pid == PID_PROPERTY_LIST {
        match read_properties_at(e, b, v) {
            Outcome::Done(_, p) => Outcome::Done(SdpItem::Skipped, p),
            Outcome::Malformed => Outcome::Malformed,
            Outcome::Aborts => Outcome::Aborts,
        }
    } else if v + len > b.len() {
        Outcome::Malformed
    } else {
        Outcome::Done(SdpItem::Skipped, v + len)
    }
}

/// One step of reading discovery data at `pos`: a padding identifier (read
/// without a length); the sentinel, which ends the data (`None`); or a
/// parameter.
pub open spec fn sdp_step(e: Endianness, b: Seq<u8>, pos: int) -> Outcome<Option<SdpItem>> {
    if pos + 2 > b.len() {
        Outcome::Malformed
    } else {
        let pid = u16_at(e, b, pos);
        if pid == PID_PAD {
            Outcome::Done(Some(SdpItem::Skipped), pos + 2)
        } else if pos + 4 > b.len() {
            Outcome::Malformed
        } else if pid == PID_SENTINEL {
            Outcome::Done(None, pos + 4)
        } else {
            match read_value_at(e, b, pid, u16_at(e, b, pos + 2) as int, pos + 4) {
                Outcome::Done(item, p) => Outcome::Done(Some(item), p),
                Outcome::Malformed => Outcome::Malformed,
                Outcome::Aborts => Outcome::Aborts,
            }
        }
    }
}

/// Texts read one after another end within the octets, not before where they
/// start.
pub proof fn lemma_texts_bounds(e: Endianness, b: Seq<u8>, pos: int, k: nat)
    requires
        0 <= pos,
    ensures
        read_texts_at(e, b, pos, k) matches Outcome::Done(_, q) ==> pos <= q && (k > 0 ==> q
            <= b.len()) && (k == 0 ==> q == pos),
    decreases k,
{
    if k > 0 {
        if let Outcome::Done(_, p) = read_sized_text_at(e, b, pos) {
            lemma_texts_bounds(e, b, p, (k - 1) as nat);
        }
    }
}

/// Each step of reading ends past where it starts and within the octets.
pub proof fn lemma_step_advances(e: Endianness, b: Seq<u8>, pos: int)
    requires
        0 <= pos,
    ensures
        sdp_step(e, b, pos) matches Outcome::Done(_, p) ==> pos < p <= b.len(),
{
    reveal(read_value_at);
    reveal(read_qos_value_at);
    if pos + 4 <= b.len() {
        let v = pos + 4;
        let pid = u16_at(e, b, pos);
        if pid == PID_PARTITION && v + 4 <= b.len() && i32_at(e, b, v) >= 0 {
            lemma_texts_bounds(e, b, v + 4, i32_at(e, b, v) as nat);
        }
        if pid == PID_PROPERTY_LIST && v + 4 <= b.len() {
            lemma_texts_bounds(e, b, v + 4, (2 * u32_at(e, b, v)) as nat);
        }
    }
}

/// The parameters of discovery data read from `pos` up to the sentinel, and
/// where the sentinel ends.
pub open spec fn sdp_items(e: Endianness, b: Seq<u8>, pos: int) -> Outcome<Seq<SdpItem>>
    decreases b.len() - pos,
{
    if pos < 0 {
        Outcome::Malformed
    } else {
        proof {
            lemma_step_advances(e, b, pos);
        }
        match sdp_step(e, b, pos) {
            Outcome::Done(None, p) => Outcome::Done(Seq::empty(), p),
            Outcome::Done(Some(item), p) => match sdp_items(e, b, p) {
                Outcome::Done(rest, q) => Outcome::Done(seq![item] + rest, q),
                Outcome::Malformed => Outcome::Malformed,
                Outcome::Aborts => Outcome::Aborts,
            },
            Outcome::Malformed => Outcome::Malformed,
            Outcome::Aborts => Outcome::Aborts,
        }
    }
}

/// What reading a value gave: the value and where it ends; a malformed
/// input; or an input on which reading aborts.
pub enum Read<T> {
    Done(T, usize),
    Malformed,
    Aborts,
}

/// A reading as plain values.
pub open spec fn read_view<T, U>(r: Read<T>, f: spec_fn(T) -> U) -> Outcome<U> {
    match r {
        Read::Done(v, p) => Outcome::Done(f(v), p as int),
        Read::Malformed => Outcome::Malformed,
        Read::Aborts => Outcome::Aborts,
    }
}

/// `x` put before what an outcome holds.
pub open spec fn prepend<T>(x: Seq<T>, o: Outcome<Seq<T>>) -> Outcome<Seq<T>> {
    match o {
        Outcome::Done(rest, q) => Outcome::Done(x + rest, q),
        Outcome::Malformed => Outcome::Malformed,
        Outcome::Aborts => Outcome::Aborts,
    }
}

/// Reads the sixteen octets of a GUID.
pub fn read_guid(buf: &[u8], pos: usize) -> (r: Option<(GUID, usize)>)
    ensures
        r is Some <==> read_guid_at(buf@, pos as int) is Some,
        r matches Some((g, p)) ==> read_guid_at(buf@, pos as int) == Some((guid_octets(g), p as int)),
{
    if pos > buf.len() || buf.len() - pos < 16 {
        return None;
    }
    let prefix: [u8; 12] = [
        buf[pos],
        buf[pos + 1],
        buf[pos + 2],
        buf[pos + 3],
        buf[pos + 4],
        buf[pos + 5],
        buf[pos + 6],
        buf[pos + 7],
        buf[pos + 8],
        buf[pos + 9],
        buf[pos + 10],
        buf[pos + 11],
    ];
    let g = GUID {
        guid_prefix: GuidPrefix { guid_prefix: prefix },
        entity_id: EntityId {
            key0: buf[pos + 12],
            key1: buf[pos + 13],
            key2: buf[pos + 14],
            entity_kind: EntityKind { value: buf[pos + 15] },
        },
    };
    assert(guid_octets(g) =~= buf@.subrange(pos as int, pos + 16));
    Some((g, pos + 16))
}

/// Reads a locator: kind, port, sixteen address octets.
pub fn read_locator(buf: &[u8], pos: usize, e: Endianness) -> (r: Option<(Locator, usize)>)
    ensures
        r is Some <==> read_locator_at(e, buf@, pos as int) is Some,
        r matches Some((l, p)) ==> read_locator_at(e, buf@, pos as int) == Some(
            (locator_view(l), p as int),
        ),
{
    if pos > buf.len() || buf.len() - pos < 24 {
        return None;
    }
    let kind = match get_i32(buf, pos, e) {
        Some(x) => x,
        None => return None,
    };
    let port = match get_u32(buf, pos + 4, e) {
        Some(x) => x,
        None => return None,
    };
    let a = pos + 8;
    let address: [u8; 16] = [
        buf[a],
        buf[a + 1],
        buf[a + 2],
        buf[a + 3],
        buf[a + 4],
        buf[a + 5],
        buf[a + 6],
        buf[a + 7],
        buf[a + 8],
        buf[a + 9],
        buf[a + 10],
        buf[a + 11],
        buf[a + 12],
        buf[a + 13],
        buf[a + 14],
        buf[a + 15],
    ];
    let l = Locator { kind, port, address };
    assert(l.address@ =~= buf@.subrange(pos + 8, pos + 24));
    Some((l, pos + 24))
}

/// Reads a text whose 32-bit length counts a terminating zero; see
/// `read_cdr_text_at`. When `text` is not set the octets are skipped and the
/// text is empty.
pub fn read_cdr_text(buf: &[u8], pos: usize, e: Endianness, text: bool) -> (r: Read<String>)
    ensures
        read_view(r, |s: String| s@) == read_cdr_text_at(e, buf@, pos as int, text),
{
    let len = match get_u32(buf, pos, e) {
        Some(x) => x,
        None => return Read::Malformed,
    };
    if len == 0 {
        return Read::Aborts;
    }
    let start = pos + 4;
    let l = len as usize;
    if buf.len() - start < l - 1 {
        return Read::Malformed;
    }
    let stop = start + (l - 1);
    let pad = pad_len(l);
    if buf.len() - stop < 1 + pad {
        return Read::Malformed;
    }
    let end = stop + 1 + pad;
    if !text {
        return Read::Done(String::new(), end);
    }
    let bytes = match get_bytes(buf, start, l - 1) {
        Some(b) => b,
        None => return Read::Malformed,
    };
    match string_from_utf8(bytes) {
        Some(t) => Read::Done(t, end),
        None => Read::Malformed,
    }
}

/// Reads a text after a 32-bit length that counts its octets.
pub fn read_plain_text(buf: &[u8], pos: usize, e: Endianness) -> (r: Read<String>)
    ensures
        read_view(r, |s: String| s@) == read_plain_text_at(e, buf@, pos as int),
{
    let len = match get_u32(buf, pos, e) {
        Some(x) => x,
        None => return Read::Malformed,
    };
    let start = pos + 4;
    let l = len as usize;
    if buf.len() - start < l {
        return Read::Malformed;
    }
    let bytes = match get_bytes(buf, start, l) {
        Some(b) => b,
        None => return Read::Malformed,
    };
    match string_from_utf8(bytes) {
        Some(t) => Read::Done(t, start + l),
        None => Read::Malformed,
    }
}

/// Reads a text after a signed 32-bit length that counts a terminating zero;
/// see `read_sized_text_at`.
pub fn read_sized_text(buf: &[u8], pos: usize, e: Endianness) -> (r: Read<String>)
    ensures
        read_view(r, |s: String| s@) == read_sized_text_at(e, buf@, pos as int),
        r matches Read::Done(_, p) ==> pos < p <= buf@.len(),
{
    let len = match get_i32(buf, pos, e) {
        Some(x) => x,
        None => return Read::Malformed,
    };
    if len == i32::MIN {
        return Read::Aborts;
    }
    if len < 1 {
        return Read::Malformed;
    }
    let start = pos + 4;
    let l = (len - 1) as usize;
    let pad = pad_len((l + 1) as usize);
    if buf.len() - start < l || buf.len() - (start + l) < 1 + pad {
        return Read::Malformed;
    }
    let end = start + l + 1 + pad;
    let bytes = match get_bytes(buf, start, l) {
        Some(b) => b,
        None => return Read::Malformed,
    };
    match string_from_utf8(bytes) {
        Some(t) => Read::Done(t, end),
        None => Read::Malformed,
    }
}

/// Reads `k` texts one after another.
pub fn read_texts(buf: &[u8], pos: usize, e: Endianness, k: u64) -> (r: Read<Vec<String>>)
    ensures
        read_view(r, |v: Vec<String>| texts_view(v@)) == read_texts_at(e, buf@, pos as int, k as nat),
{
    let mut acc: Vec<String> = Vec::new();
    let mut cur = pos;
    let mut i: u64 = 0;
    proof {
        assert(texts_view(acc@) =~= Seq::<Seq<char>>::empty());
        assert(prepend(Seq::<Seq<char>>::empty(), read_texts_at(e, buf@, pos as int, k as nat))
            == read_texts_at(e, buf@, pos as int, k as nat)) by {
            match read_texts_at(e, buf@, pos as int, k as nat) {
                Outcome::Done(rest, q) => {
                    assert(Seq::<Seq<char>>::empty() + rest =~= rest);
                },
                _ => {},
            }
        }
    }
    while i < k
        invariant
            i <= k,
            cur <= buf@.len() || i == 0,
            cur == pos || i > 0,
            read_texts_at(e, buf@, pos as int, k as nat) == prepend(
                texts_view(acc@),
                read_texts_at(e, buf@, cur as int, (k - i) as nat),
            ),
        decreases k - i,
    {
        let ghost before = acc@;
        match read_sized_text(buf, cur, e) {
            Read::Done(t, p) => {
                acc.push(t);
                proof {
                    assert(texts_view(acc@) =~= texts_view(before).push(t@));
                    let tail = read_texts_at(e, buf@, p as int, (k - i - 1) as nat);
                    assert(read_texts_at(e, buf@, cur as int, (k - i) as nat) == prepend(seq![t@], tail));
                    match tail {
                        Outcome::Done(rest, q) => {
                            assert(texts_view(before) + (seq![t@] + rest) =~= texts_view(acc@) + rest);
                        },
                        _ => {},
                    }
                }
                cur = p;
            },
            Read::Malformed => {
                return Read::Malformed;
            },
            Read::Aborts => {
                return Read::Aborts;
            },
        }
        i = i + 1;
    }
    proof {
        assert(texts_view(acc@) + Seq::<Seq<char>>::empty() =~= texts_view(acc@));
    }
    Read::Done(acc, cur)
}

/// Reads a partition: a signed count, then that many texts.
pub fn read_partition(buf: &[u8], pos: usize, e: Endianness) -> (r: Read<Vec<String>>)
    ensures
        read_view(r, |v: Vec<String>| texts_view(v@)) == read_partition_at(e, buf@, pos as int),
{
    let n = match get_i32(buf, pos, e) {
        Some(x) => x,
        None => return Read::Malformed,
    };
    if n < 0 {
        return Read::Aborts;
    }
    read_texts(buf, pos + 4, e, n as u64)
}

/// Reads a property list: a count, then a name and a value text for each.
pub fn read_properties(buf: &[u8], pos: usize, e: Endianness) -> (r: Read<()>)
    ensures
        read_view(r, |u: ()| u) == read_properties_at(e, buf@, pos as int),
{
    let n = match get_u32(buf, pos, e) {
        Some(x) => x,
        None => return Read::Malformed,
    };
    match read_texts(buf, pos + 4, e, 2 * (n as u64)) {
        Read::Done(_, q) => Read::Done((), q),
        Read::Malformed => Read::Malformed,
        Read::Aborts => Read::Aborts,
    }
}

/// Reads the value of the parameter `pid` at `v`; see `read_value_at`.
pub fn read_value(buf: &[u8], pid: u16, len: u16, v: usize, e: Endianness) -> (r: Read<SdpParam>)
    requires
        v <= buf@.len(),
    ensures
        read_view(r, |p: SdpParam| param_view(p)) == read_value_at(e, buf@, pid, len as int, v as int),
{
    proof {
        reveal(read_value_at);
    }
    if pid == PID_DOMAIN_ID {
        if buf.len() - v < 4 {
            return Read::Malformed;
        }
        match get_u16(buf, v, e) {
            Some(x) => Read::Done(SdpParam::DomainId(x), v + 4),
            None => Read::Malformed,
        }
    } else if pid == PID_DOMAIN_TAG {
        match read_plain_text(buf, v, e) {
            Read::Done(t, p) => Read::Done(SdpParam::DomainTag(t), p),
            Read::Malformed => Read::Malformed,
            Read::Aborts => Read::Aborts,
        }
    } else if pid == PID_ENTITY_NAME {
        match read_cdr_text(buf, v, e, false) {
            Read::Done(_, p) => Read::Done(SdpParam::Skipped, p),
            Read::Malformed => Read::Malformed,
            Read::Aborts => Read::Aborts,
        }
    } else if pid == PID_PROTOCOL_VERSION {
        if buf.len() - v < 4 {
            return Read::Malformed;
        }
        Read::Done(SdpParam::ProtocolVersion(ProtocolVersion { major: buf[v], minor: buf[v + 1] }), v + 4)
    } else if pid == PID_PARTICIPANT_GUID {
        match read_guid(buf, v) {
            Some((g, p)) => Read::Done(SdpParam::ParticipantGuid(g), p),
            None => Read::Malformed,
        }
    } else if pid == PID_VENDOR_ID {
        if buf.len() - v < 4 {
            return Read::Malformed;
        }
        let vendor = VendorId { vendor_id: [buf[v], buf[v + 1]] };
        assert(vendor.vendor_id@ =~= buf@.subrange(v as int, v + 2));
        Read::Done(SdpParam::VendorId(vendor), v + 4)
    } else if pid == PID_EXPECTS_INLINE_QOS {
        let flag = match get_u8(buf, v) {
            Some(x) => x,
            None => return Read::Malformed,
        };
        if flag != 0 && flag != 1 {
            return Read::Aborts;
        }
        if buf.len() - v < 4 {
            return Read::Malformed;
        }
        Read::Done(SdpParam::ExpectsInlineQos(flag == 1), v + 4)
    } else if pid == PID_BUILTIN_ENDPOINT_SET {
        match get_u32(buf, v, e) {
            Some(x) => Read::Done(SdpParam::BuiltinEndpointSet(x), v + 4),
            None => Read::Malformed,
        }
    } else if pid == PID_METATRAFFIC_UNICAST_LOCATOR {
        match read_locator(buf, v, e) {
            Some((l, p)) => Read::Done(SdpParam::MetatrafficUnicastLocator(l), p),
            None => Read::Malformed,
        }
    } else if pid == PID_METATRAFFIC_MULTICAST_LOCATOR {
        match read_locator(buf, v, e) {
            Some((l, p)) => Read::Done(SdpParam::MetatrafficMulticastLocator(l), p),
            None => Read::Malformed,
        }
    } else if pid == PID_DEFAULT_UNICAST_LOCATOR {
        match read_locator(buf, v, e) {
            Some((l, p)) => Read::Done(SdpParam::DefaultUnicastLocator(l), p),
            None => Read::Malformed,
        }
    } else if pid == PID_DEFAULT_MULTICAST_LOCATOR {
        match read_locator(buf, v, e) {
            Some((l, p)) => Read::Done(SdpParam::DefaultMulticastLocator(l), p),
            None => Read::Malformed,
        }
    } else if pid == PID_PARTICIPANT_MANUAL_LIVELINESS_COUNT {
        match get_i32(buf, v, e) {
            Some(x) => Read::Done(SdpParam::ManualLivelinessCount(x), v + 4),
            None => Read::Malformed,
        }
    } else if pid == PID_PARTICIPANT_LEASE_DURATION {
        match read_duration(buf, v, e) {
            Some((d, p)) => Read::Done(SdpParam::LeaseDuration(d), p),
            None => Read::Malformed,
        }
    } else if pid == PID_ENDPOINT_GUID {
        match read_guid(buf, v) {
            Some((g, p)) => Read::Done(SdpParam::EndpointGuid(g), p),
            None => Read::Malformed,
        }
    } else if pid == PID_UNICAST_LOCATOR {
        match read_locator(buf, v, e) {
            Some((l, p)) => Read::Done(SdpParam::UnicastLocator(l), p),
            None => Read::Malformed,
        }
    } else if pid == PID_MULTICAST_LOCATOR {
        match read_locator(buf, v, e) {
            Some((l, p)) => Read::Done(SdpParam::MulticastLocator(l), p),
            None => Read::Malformed,
        }
    } else if pid == PID_TYPE_MAX_SIZE_SERIALIZED {
        match get_i32(buf, v, e) {
            Some(x) => Read::Done(SdpParam::TypeMaxSizeSerialized(x), v + 4),
            None => Read::Malformed,
        }
    } else if pid == PID_TYPE_NAME {
        match read_cdr_text(buf, v, e, true) {
            Read::Done(t, p) => Read::Done(SdpParam::TypeName(t), p),
            Read::Malformed => Read::Malformed,
            Read::Aborts => Read::Aborts,
        }
    } else if pid == PID_TOPIC_NAME {
        match read_cdr_text(buf, v, e, true) {
            Read::Done(t, p) => Read::Done(SdpParam::TopicName(t), p),
            Read::Malformed => Read::Malformed,
            Read::Aborts => Read::Aborts,
        }
    } else {
        read_qos_value(buf, pid, len, v, e)
    }
}

/// Reads the value of a QoS parameter, a property list, or skips an
/// identifier that is not read; see `read_qos_value_at`.
pub fn read_qos_value(buf: &[u8], pid: u16, len: u16, v: usize, e: Endianness) -> (r: Read<SdpParam>)
    requires
        v <= buf@.len(),
    ensures
        read_view(r, |p: SdpParam| param_view(p)) == read_qos_value_at(e, buf@, pid, len as int, v as int),
{
    proof {
        reveal(read_qos_value_at);
    }
    if pid == PID_DURABILITY {
        match Durability::read_from(buf, v, e) {
            Some((x, p)) => Read::Done(SdpParam::Durability(x), p),
            None => Read::Malformed,
        }
    } else if pid == PID_DEADLINE {
        match read_duration(buf, v, e) {
            Some((x, p)) => Read::Done(SdpParam::Deadline(x), p),
            None => Read::Malformed,
        }
    } else if pid == PID_LATENCY_BUDGET {
        match read_duration(buf, v, e) {
            Some((x, p)) => Read::Done(SdpParam::LatencyBudget(x), p),
            None => Read::Malformed,
        }
    } else if pid == PID_LIVELINESS {
        match Liveliness::read_from(buf, v, e) {
            Some((x, p)) => Read::Done(SdpParam::Liveliness(x), p),
            None => Read::Malformed,
        }
    } else if pid == PID_RELIABILITY {
        match Reliability::read_from(buf, v, e) {
            Some((x, p)) => Read::Done(SdpParam::Reliability(x), p),
            None => Read::Malformed,
        }
    } else if pid == PID_USER_DATA {
        match read_octets(buf, v, e) {
            Some((x, p)) => Read::Done(SdpParam::UserData(x), p),
            None => Read::Malformed,
        }
    } else if pid == PID_OWNERSHIP {
        match Ownership::read_from(buf, v, e) {
            Some((x, p)) => Read::Done(SdpParam::Ownership(x), p),
            None => Read::Malformed,
        }
    } else if pid == PID_DESTINATION_ORDER {
        match DestinationOrder::read_from(buf, v, e) {
            Some((x, p)) => Read::Done(SdpParam::DestinationOrder(x), p),
            None => Read::Malformed,
        }
    } else if pid == PID_HISTORY {
        match History::read_from(buf, v, e) {
            Some((x, p)) => Read::Done(SdpParam::History(x), p),
            None => Read::Malformed,
        }
    } else if pid == PID_RESOURCE_LIMITS {
        match ResourceLimits::read_from(buf, v, e) {
            Some((x, p)) => Read::Done(SdpParam::ResourceLimits(x), p),
            None => Read::Malformed,
        }
    } else if pid == PID_TRANSPORT_PRIORITY {
        match get_i32(buf, v, e) {
            Some(x) => Read::Done(SdpParam::TransportPriority(x), v + 4),
            None => Read::Malformed,
        }
    } else if pid == PID_TIME_BASED_FILTER {
        match read_duration(buf, v, e) {
            Some((x, p)) => Read::Done(SdpParam::TimeBasedFilter(x), p),
            None => Read::Malformed,
        }
    } else if pid == PID_PRESENTATION {
        match Presentation::read_from(buf, v, e) {
            Some((x, p)) => {
                if buf.len() - p < 2 {
                    Read::Malformed
                } else {
                    Read::Done(SdpParam::Presentation(x), p + 2)
                }
            },
            None => Read::Malformed,
        }
    } else if pid == PID_PARTITION {
        match read_partition(buf, v, e) {
            Read::Done(x, p) => Read::Done(SdpParam::Partition(x), p),
            Read::Malformed => Read::Malformed,
            Read::Aborts => Read::Aborts,
        }
    } else if pid == PID_TOPIC_DATA {
        match read_short_octets(buf, v, e) {
            Some((x, p)) => Read::Done(SdpParam::TopicData(x), p),
            None => Read::Malformed,
        }
    } else if pid == PID_GROUP_DATA {
        match read_short_octets(buf, v, e) {
            Some((x, p)) => Read::Done(SdpParam::GroupData(x), p),
            None => Read::Malformed,
        }
    } else if pid == PID_DURABILITY_SERVICE {
        match DurabilityService::read_from(buf, v, e) {
            Some((x, p)) => Read::Done(SdpParam::DurabilityService(x), p),
            None => Read::Malformed,
        }
    } else if pid == PID_LIFESPAN {
        match read_duration(buf, v, e) {
            Some((x, p)) => Read::Done(SdpParam::Lifespan(x), p),
            None => Read::Malformed,
        }
    } else if pid == PID_OWNERSHIP_STRENGTH {
        match get_i32(buf, v, e) {
            Some(x) => Read::Done(SdpParam::OwnershipStrength(x), v + 4),
            None => Read::Malformed,
        }
    } else if pid == PID_PROPERTY_LIST {
        match read_properties(buf, v, e) {
            Read::Done(_, p) => Read::Done(SdpParam::Skipped, p),
            Read::Malformed => Read::Malformed,
            Read::Aborts => Read::Aborts,
        }
    } else if buf.len() - v < len as usize {
        Read::Malformed
    } else {
        Read::Done(SdpParam::Skipped, v + len as usize)
    }
}

/// Reads one step of discovery data at `pos`: a parameter, or the sentinel
/// (`None`); see `sdp_step`.
pub fn read_step(buf: &[u8], pos: usize, e: Endianness) -> (r: Read<Option<SdpParam>>)
    ensures
        read_view(
            r,
            |o: Option<SdpParam>|
                match o {
                    Some(p) => Some(param_view(p)),
                    None => None,
                },
        ) == sdp_step(e, buf@, pos as int),
        r matches Read::Done(_, p) ==> pos < p <= buf@.len(),
{
    proof {
        lemma_step_advances(e, buf@, pos as int);
    }
    let pid = match get_u16(buf, pos, e) {
        Some(x) => x,
        None => return Read::Malformed,
    };
    if pid == PID_PAD {
        return Read::Done(Some(SdpParam::Skipped), pos + 2);
    }
    let len = match get_u16(buf, pos + 2, e) {
        Some(x) => x,
        None => return Read::Malformed,
    };
    if pid == PID_SENTINEL {
        return Read::Done(None, pos + 4);
    }
    match read_value(buf, pid, len, pos + 4, e) {
        Read::Done(p, q) => Read::Done(Some(p), q),
        Read::Malformed => Read::Malformed,
        Read::Aborts => Read::Aborts,
    }
}

} // verus!
