//! How QoS policies travel in discovery data: each policy's CDR octets, and
//! reading them back. Enumerations travel as 32-bit numbers, booleans as one
//! octet, and octet sequences with a length and padding to four octets.
use vstd::prelude::*;
use crate::dds::qos::policy::{
    Deadline, DestinationOrder, Durability, DurabilityService, GroupData, History, HistoryQosKind,
    LatencyBudget, Lifespan, Liveliness, LivelinessQosKind, Ownership, OwnershipStrength,
    Presentation, PresentationQosAccessScopeKind, Reliability, ReliabilityQosKind,
    ResourceLimits, TimeBasedFilter, TopicData, TransportPriority, UserData, pad_len,
};
use crate::message::cdr::{
    Endianness, get_bytes, get_i32, get_u16, get_u32, get_u8, i32_at, i32_bytes, pad_of,
    put_bytes, put_i32, put_u16, put_u32, put_u8, put_zeros, u16_at, u16_bytes, u32_at,
    u32_bytes, zeros,
};
use crate::structure::duration::Duration;

verus! {

// ---------------------------------------------------------------- numbers

/// The number a durability travels as.
pub open spec fn durability_code(d: Durability) -> i32 {
    match d {
        Durability::Volatile => 0,
        Durability::TransientLocal => 1,
    }
}

/// The durability a number stands for.
pub open spec fn durability_of_code(c: i32) -> Option<Durability> {
    if c == 0 {
        Some(Durability::Volatile)
    } else if c == 1 {
        Some(Durability::TransientLocal)
    } else {
        None
    }
}

pub open spec fn history_kind_of_code(c: i32) -> Option<HistoryQosKind> {
    if c == 0 {
        Some(HistoryQosKind::KeepLast)
    } else if c == 1 {
        Some(HistoryQosKind::KeepAll)
    } else {
        None
    }
}

pub open spec fn ownership_code(o: Ownership) -> i32 {
    match o {
        Ownership::Shared => 0,
        Ownership::Exclusive => 1,
    }
}

pub open spec fn ownership_of_code(c: i32) -> Option<Ownership> {
    if c == 0 {
        Some(Ownership::Shared)
    } else if c == 1 {
        Some(Ownership::Exclusive)
    } else {
        None
    }
}

pub open spec fn destination_order_code(d: DestinationOrder) -> i32 {
    match d {
        DestinationOrder::ByReceptionTimestamp => 0,
        DestinationOrder::BySourceTimestamp => 1,
    }
}

pub open spec fn destination_order_of_code(c: i32) -> Option<DestinationOrder> {
    if c == 0 {
        Some(DestinationOrder::ByReceptionTimestamp)
    } else if c == 1 {
        Some(DestinationOrder::BySourceTimestamp)
    } else {
        None
    }
}

pub open spec fn reliability_kind_code(k: ReliabilityQosKind) -> i32 {
    match k {
        ReliabilityQosKind::Reliable => 2,
        ReliabilityQosKind::BestEffort => 1,
    }
}

pub open spec fn reliability_kind_of_code(c: i32) -> Option<ReliabilityQosKind> {
    if c == 2 {
        Some(ReliabilityQosKind::Reliable)
    } else if c == 1 {
        Some(ReliabilityQosKind::BestEffort)
    } else {
        None
    }
}

/// The number a liveliness kind is written as.
pub open spec fn liveliness_kind_code(k: LivelinessQosKind) -> i32 {
    match k {
        LivelinessQosKind::Automatic => 0,
        LivelinessQosKind::ManualByParticipant => 1,
        LivelinessQosKind::ManualByTopic => 2,
    }
}

/// The liveliness kind a number is read as; 1 is read as by-topic and 2 as
/// by-participant.
pub open spec fn liveliness_kind_of_code(c: i32) -> Option<LivelinessQosKind> {
    if c == 0 {
        Some(LivelinessQosKind::Automatic)
    } else if c == 1 {
        Some(LivelinessQosKind::ManualByTopic)
    } else if c == 2 {
        Some(LivelinessQosKind::ManualByParticipant)
    } else {
        None
    }
}

pub open spec fn access_scope_code(k: PresentationQosAccessScopeKind) -> i32 {
    match k {
        PresentationQosAccessScopeKind::Instance => 0,
        PresentationQosAccessScopeKind::Topic => 1,
        PresentationQosAccessScopeKind::Group => 2,
    }
}

pub open spec fn access_scope_of_code(c: i32) -> Option<PresentationQosAccessScopeKind> {
    if c == 0 {
        Some(PresentationQosAccessScopeKind::Instance)
    } else if c == 1 {
        Some(PresentationQosAccessScopeKind::Topic)
    } else if c == 2 {
        Some(PresentationQosAccessScopeKind::Group)
    } else {
        None
    }
}

// ---------------------------------------------------------------- octets written

pub open spec fn duration_bytes(e: Endianness, d: Duration) -> Seq<u8> {
    i32_bytes(e, d.seconds) + u32_bytes(e, d.fraction)
}

pub open spec fn history_bytes(e: Endianness, h: History) -> Seq<u8> {
    i32_bytes(e, h.kind.spec_code()) + i32_bytes(e, h.depth)
}

pub open spec fn reliability_bytes(e: Endianness, r: Reliability) -> Seq<u8> {
    i32_bytes(e, reliability_kind_code(r.kind)) + duration_bytes(e, r.max_bloking_time)
}

pub open spec fn liveliness_bytes(e: Endianness, l: Liveliness) -> Seq<u8> {
    i32_bytes(e, liveliness_kind_code(l.kind)) + duration_bytes(e, l.lease_duration)
}

pub open spec fn bool_octet(b: bool) -> u8 {
    if b {
        1
    } else {
        0
    }
}

pub open spec fn presentation_bytes(e: Endianness, p: Presentation) -> Seq<u8> {
    i32_bytes(e, access_scope_code(p.access_scope)) + seq![
        bool_octet(p.coherent_access),
        bool_octet(p.ordered_access),
    ] + u16_bytes(e, 0)
}

pub open spec fn resource_limits_bytes(e: Endianness, r: ResourceLimits) -> Seq<u8> {
    i32_bytes(e, r.max_samples) + i32_bytes(e, r.max_instance) + i32_bytes(
        e,
        r.max_samples_per_instanse,
    )
}

pub open spec fn durability_service_bytes(e: Endianness, d: DurabilityService) -> Seq<u8> {
    duration_bytes(e, d.service_cleanup_delay) + i32_bytes(e, d.history_kind.spec_code())
        + i32_bytes(e, d.history_depth) + i32_bytes(e, d.max_samples) + i32_bytes(
        e,
        d.max_instance,
    ) + i32_bytes(e, d.max_samples_per_instanse)
}

/// An octet sequence: its length as 32 bits, the octets, and padding.
pub open spec fn octets_bytes(e: Endianness, v: Seq<u8>) -> Seq<u8> {
    u32_bytes(e, v.len() as u32) + v + zeros(pad_of(v.len() as int))
}

// ---------------------------------------------------------------- reading

/// A duration read at `pos`, and where it ends.
pub open spec fn read_duration_at(e: Endianness, b: Seq<u8>, pos: int) -> Option<(Duration, int)> {
    if pos + 8 > b.len() {
        None
    } else {
        Some((Duration { seconds: i32_at(e, b, pos), fraction: u32_at(e, b, pos + 4) }, pos + 8))
    }
}

/// A 32-bit number read at `pos` and turned into a value by `f`.
pub open spec fn read_coded_at<T>(e: Endianness, b: Seq<u8>, pos: int, f: spec_fn(i32) -> Option<T>) -> Option<(T, int)> {
    if pos + 4 > b.len() {
        None
    } else {
        match f(i32_at(e, b, pos)) {
            Some(v) => Some((v, pos + 4)),
            None => None,
        }
    }
}

pub open spec fn read_i32_at(e: Endianness, b: Seq<u8>, pos: int) -> Option<(i32, int)> {
    if pos + 4 > b.len() {
        None
    } else {
        Some((i32_at(e, b, pos), pos + 4))
    }
}

pub open spec fn read_history_at(e: Endianness, b: Seq<u8>, pos: int) -> Option<(History, int)> {
    match read_coded_at(e, b, pos, |c: i32| history_kind_of_code(c)) {
        None => None,
        Some((kind, p)) => match read_i32_at(e, b, p) {
            None => None,
            Some((depth, q)) => Some((History { kind, depth }, q)),
        },
    }
}

pub open spec fn read_reliability_at(e: Endianness, b: Seq<u8>, pos: int) -> Option<(Reliability, int)> {
    match read_coded_at(e, b, pos, |c: i32| reliability_kind_of_code(c)) {
        None => None,
        Some((kind, p)) => match read_duration_at(e, b, p) {
            None => None,
            Some((d, q)) => Some((Reliability { kind, max_bloking_time: d }, q)),
        },
    }
}

pub open spec fn read_liveliness_at(e: Endianness, b: Seq<u8>, pos: int) -> Option<(Liveliness, int)> {
    match read_coded_at(e, b, pos, |c: i32| liveliness_kind_of_code(c)) {
        None => None,
        Some((kind, p)) => match read_duration_at(e, b, p) {
            None => None,
            Some((d, q)) => Some((Liveliness { kind, lease_duration: d }, q)),
        },
    }
}

/// A presentation read at `pos`: the access scope and two flags, each flag
/// set when its octet is 1; the padding after them is not read.
pub open spec fn read_presentation_at(e: Endianness, b: Seq<u8>, pos: int) -> Option<(Presentation, int)> {
    match read_coded_at(e, b, pos, |c: i32| access_scope_of_code(c)) {
        None => None,
        Some((access_scope, p)) => if p + 2 > b.len() {
            None
        } else {
            Some(
                (
                    Presentation {
                        access_scope,
                        coherent_access: b[p] == 1,
                        ordered_access: b[p + 1] == 1,
                    },
                    p + 2,
                ),
            )
        },
    }
}

pub open spec fn read_resource_limits_at(e: Endianness, b: Seq<u8>, pos: int) -> Option<(ResourceLimits, int)> {
    if pos + 12 > b.len() {
        None
    } else {
        Some(
            (
                ResourceLimits {
                    max_samples: i32_at(e, b, pos),
                    max_instance: i32_at(e, b, pos + 4),
                    max_samples_per_instanse: i32_at(e, b, pos + 8),
                },
                pos + 12,
            ),
        )
    }
}

pub open spec fn read_durability_service_at(e: Endianness, b: Seq<u8>, pos: int) -> Option<(DurabilityService, int)> {
    match read_duration_at(e, b, pos) {
        None => None,
        Some((d, p)) => match read_coded_at(e, b, p, |c: i32| history_kind_of_code(c)) {
            None => None,
            Some((k, q)) => if q + 16 > b.len() {
                None
            } else {
                Some(
                    (
                        DurabilityService {
                            service_cleanup_delay: d,
                            history_kind: k,
                            history_depth: i32_at(e, b, q),
                            max_samples: i32_at(e, b, q + 4),
                            max_instance: i32_at(e, b, q + 8),
                            max_samples_per_instanse: i32_at(e, b, q + 12),
                        },
                        q + 16,
                    ),
                )
            },
        },
    }
}

/// Octets read at `pos` after a 32-bit length, then their padding skipped.
pub open spec fn read_octets_at(e: Endianness, b: Seq<u8>, pos: int) -> Option<(Seq<u8>, int)> {
    if pos + 4 > b.len() {
        None
    } else {
        let len = u32_at(e, b, pos) as int;
        let end = pos + 4 + len;
        if end + pad_of(len) > b.len() {
            None
        } else {
            Some((b.subrange(pos + 4, end), end + pad_of(len)))
        }
    }
}

/// Octets read at `pos` after a 16-bit length, then their padding skipped.
pub open spec fn read_short_octets_at(e: Endianness, b: Seq<u8>, pos: int) -> Option<(Seq<u8>, int)> {
    if pos + 2 > b.len() {
        None
    } else {
        let len = u16_at(e, b, pos) as int;
        let end = pos + 2 + len;
        if end + pad_of(len) > b.len() {
            None
        } else {
            Some((b.subrange(pos + 2, end), end + pad_of(len)))
        }
    }
}

// ---------------------------------------------------------------- exec readers

/// Reads a duration: seconds, then the fraction of a second.
pub fn read_duration(buf: &[u8], pos: usize, e: Endianness) -> (r: Option<(Duration, usize)>)
    ensures
        r is Some <==> read_duration_at(e, buf@, pos as int) is Some,
        r matches Some((v, p)) ==> read_duration_at(e, buf@, pos as int) == Some((v, p as int)),
{
    let seconds = match get_i32(buf, pos, e) {
        Some(x) => x,
        None => return None,
    };
    let fraction = match get_u32(buf, pos + 4, e) {
        Some(x) => x,
        None => return None,
    };
    Some((Duration { seconds, fraction }, pos + 8))
}

fn read_i32(buf: &[u8], pos: usize, e: Endianness) -> (r: Option<(i32, usize)>)
    ensures
        r is Some <==> read_i32_at(e, buf@, pos as int) is Some,
        r matches Some((v, p)) ==> read_i32_at(e, buf@, pos as int) == Some((v, p as int)),
{
    match get_i32(buf, pos, e) {
        Some(x) => Some((x, pos + 4)),
        None => None,
    }
}

impl Durability {
    /// Reads a durability from its number.
    pub fn read_from(buf: &[u8], pos: usize, e: Endianness) -> (r: Option<(Durability, usize)>)
        ensures
            r is Some <==> read_coded_at(e, buf@, pos as int, |c: i32| durability_of_code(c)) is Some,
            r matches Some((v, p)) ==> read_coded_at(e, buf@, pos as int, |c: i32| durability_of_code(c))
                == Some((v, p as int)),
    {
        match get_i32(buf, pos, e) {
            Some(0) => Some((Durability::Volatile, pos + 4)),
            Some(1) => Some((Durability::TransientLocal, pos + 4)),
            _ => None,
        }
    }

    /// Writes the number of the durability.
    pub fn write_to(&self, buf: &mut Vec<u8>, e: Endianness)
        ensures
            final(buf)@ == old(buf)@ + i32_bytes(e, durability_code(*self)),
    {
        let c: i32 = match self {
            Durability::Volatile => 0,
            Durability::TransientLocal => 1,
        };
        put_i32(buf, e, c);
    }
}

impl Ownership {
    pub fn read_from(buf: &[u8], pos: usize, e: Endianness) -> (r: Option<(Ownership, usize)>)
        ensures
            r is Some <==> read_coded_at(e, buf@, pos as int, |c: i32| ownership_of_code(c)) is Some,
            r matches Some((v, p)) ==> read_coded_at(e, buf@, pos as int, |c: i32| ownership_of_code(c))
                == Some((v, p as int)),
    {
        match get_i32(buf, pos, e) {
            Some(0) => Some((Ownership::Shared, pos + 4)),
            Some(1) => Some((Ownership::Exclusive, pos + 4)),
            _ => None,
        }
    }

    pub fn write_to(&self, buf: &mut Vec<u8>, e: Endianness)
        ensures
            final(buf)@ == old(buf)@ + i32_bytes(e, ownership_code(*self)),
    {
        let c: i32 = match self {
            Ownership::Shared => 0,
            Ownership::Exclusive => 1,
        };
        put_i32(buf, e, c);
    }
}

impl DestinationOrder {
    pub fn read_from(buf: &[u8], pos: usize, e: Endianness) -> (r: Option<(DestinationOrder, usize)>)
        ensures
            r is Some <==> read_coded_at(e, buf@, pos as int, |c: i32| destination_order_of_code(c)) is Some,
            r matches Some((v, p)) ==> read_coded_at(
                e,
                buf@,
                pos as int,
                |c: i32| destination_order_of_code(c),
            ) == Some((v, p as int)),
    {
        match get_i32(buf, pos, e) {
            Some(0) => Some((DestinationOrder::ByReceptionTimestamp, pos + 4)),
            Some(1) => Some((DestinationOrder::BySourceTimestamp, pos + 4)),
            _ => None,
        }
    }

    pub fn write_to(&self, buf: &mut Vec<u8>, e: Endianness)
        ensures
            final(buf)@ == old(buf)@ + i32_bytes(e, destination_order_code(*self)),
    {
        let c: i32 = match self {
            DestinationOrder::ByReceptionTimestamp => 0,
            DestinationOrder::BySourceTimestamp => 1,
        };
        put_i32(buf, e, c);
    }
}

fn read_history_kind(buf: &[u8], pos: usize, e: Endianness) -> (r: Option<(HistoryQosKind, usize)>)
    ensures
        r is Some <==> read_coded_at(e, buf@, pos as int, |c: i32| history_kind_of_code(c)) is Some,
        r matches Some((v, p)) ==> read_coded_at(e, buf@, pos as int, |c: i32| history_kind_of_code(c))
            == Some((v, p as int)),
{
    match get_i32(buf, pos, e) {
        Some(0) => Some((HistoryQosKind::KeepLast, pos + 4)),
        Some(1) => Some((HistoryQosKind::KeepAll, pos + 4)),
        _ => None,
    }
}

fn history_kind_number(k: HistoryQosKind) -> (c: i32)
    ensures
        c == k.spec_code(),
{
    match k {
        HistoryQosKind::KeepLast => 0,
        HistoryQosKind::KeepAll => 1,
    }
}

impl History {
    /// Reads the kind, then the depth.
    pub fn read_from(buf: &[u8], pos: usize, e: Endianness) -> (r: Option<(History, usize)>)
        ensures
            r is Some <==> read_history_at(e, buf@, pos as int) is Some,
            r matches Some((v, p)) ==> read_history_at(e, buf@, pos as int) == Some((v, p as int)),
    {
        let (kind, p) = match read_history_kind(buf, pos, e) {
            Some(x) => x,
            None => return None,
        };
        let (depth, q) = match read_i32(buf, p, e) {
            Some(x) => x,
            None => return None,
        };
        Some((History { kind, depth }, q))
    }

    /// Writes the kind, then the depth.
    pub fn write_to(&self, buf: &mut Vec<u8>, e: Endianness)
        ensures
            final(buf)@ == old(buf)@ + history_bytes(e, *self),
    {
        put_i32(buf, e, history_kind_number(self.kind));
        put_i32(buf, e, self.depth);
        assert(buf@ =~= old(buf)@ + history_bytes(e, *self));
    }
}

fn write_duration(buf: &mut Vec<u8>, e: Endianness, d: Duration)
    ensures
        final(buf)@ == old(buf)@ + duration_bytes(e, d),
{
    put_i32(buf, e, d.seconds);
    put_u32(buf, e, d.fraction);
    assert(buf@ =~= old(buf)@ + duration_bytes(e, d));
}

impl Reliability {
    pub fn read_from(buf: &[u8], pos: usize, e: Endianness) -> (r: Option<(Reliability, usize)>)
        ensures
            r is Some <==> read_reliability_at(e, buf@, pos as int) is Some,
            r matches Some((v, p)) ==> read_reliability_at(e, buf@, pos as int) == Some((v, p as int)),
    {
        let kind = match get_i32(buf, pos, e) {
            Some(2) => ReliabilityQosKind::Reliable,
            Some(1) => ReliabilityQosKind::BestEffort,
            _ => return None,
        };
        let (d, q) = match read_duration(buf, pos + 4, e) {
            Some(x) => x,
            None => return None,
        };
        Some((Reliability { kind, max_bloking_time: d }, q))
    }

    pub fn write_to(&self, buf: &mut Vec<u8>, e: Endianness)
        ensures
            final(buf)@ == old(buf)@ + reliability_bytes(e, *self),
    {
        let c: i32 = match self.kind {
            ReliabilityQosKind::Reliable => 2,
            ReliabilityQosKind::BestEffort => 1,
        };
        put_i32(buf, e, c);
        write_duration(buf, e, self.max_bloking_time);
        assert(buf@ =~= old(buf)@ + reliability_bytes(e, *self));
    }
}

impl Liveliness {
    /// Reads the kind (1 as by-topic, 2 as by-participant), then the lease.
    pub fn read_from(buf: &[u8], pos: usize, e: Endianness) -> (r: Option<(Liveliness, usize)>)
        ensures
            r is Some <==> read_liveliness_at(e, buf@, pos as int) is Some,
            r matches Some((v, p)) ==> read_liveliness_at(e, buf@, pos as int) == Some((v, p as int)),
    {
        let kind = match get_i32(buf, pos, e) {
            Some(0) => LivelinessQosKind::Automatic,
            Some(1) => LivelinessQosKind::ManualByTopic,
            Some(2) => LivelinessQosKind::ManualByParticipant,
            _ => return None,
        };
        let (d, q) = match read_duration(buf, pos + 4, e) {
            Some(x) => x,
            None => return None,
        };
        Some((Liveliness { kind, lease_duration: d }, q))
    }

    /// Writes the kind (by-participant as 1, by-topic as 2), then the lease.
    pub fn write_to(&self, buf: &mut Vec<u8>, e: Endianness)
        ensures
            final(buf)@ == old(buf)@ + liveliness_bytes(e, *self),
    {
        let c: i32 = match self.kind {
            LivelinessQosKind::Automatic => 0,
            LivelinessQosKind::ManualByParticipant => 1,
            LivelinessQosKind::ManualByTopic => 2,
        };
        put_i32(buf, e, c);
        write_duration(buf, e, self.lease_duration);
        assert(buf@ =~= old(buf)@ + liveliness_bytes(e, *self));
    }
}

impl Presentation {
    /// Reads the access scope and the two flags; the padding is left unread.
    pub fn read_from(buf: &[u8], pos: usize, e: Endianness) -> (r: Option<(Presentation, usize)>)
        ensures
            r is Some <==> read_presentation_at(e, buf@, pos as int) is Some,
            r matches Some((v, p)) ==> read_presentation_at(e, buf@, pos as int) == Some((v, p as int)),
    {
        let access_scope = match get_i32(buf, pos, e) {
            Some(0) => PresentationQosAccessScopeKind::Instance,
            Some(1) => PresentationQosAccessScopeKind::Topic,
            Some(2) => PresentationQosAccessScopeKind::Group,
            _ => return None,
        };
        let c = match get_u8(buf, pos + 4) {
            Some(x) => x,
            None => return None,
        };
        let o = match get_u8(buf, pos + 5) {
            Some(x) => x,
            None => return None,
        };
        Some((Presentation { access_scope, coherent_access: c == 1, ordered_access: o == 1 }, pos + 6))
    }

    /// Writes the access scope, the two flags and two octets of padding.
    pub fn write_to(&self, buf: &mut Vec<u8>, e: Endianness)
        ensures
            final(buf)@ == old(buf)@ + presentation_bytes(e, *self),
    {
        let c: i32 = match self.access_scope {
            PresentationQosAccessScopeKind::Instance => 0,
            PresentationQosAccessScopeKind::Topic => 1,
            PresentationQosAccessScopeKind::Group => 2,
        };
        put_i32(buf, e, c);
        put_u8(buf, if self.coherent_access { 1 } else { 0 });
        put_u8(buf, if self.ordered_access { 1 } else { 0 });
        put_u16(buf, e, 0);
        assert(buf@ =~= old(buf)@ + presentation_bytes(e, *self));
    }
}

impl ResourceLimits {
    pub fn read_from(buf: &[u8], pos: usize, e: Endianness) -> (r: Option<(ResourceLimits, usize)>)
        ensures
            r is Some <==> read_resource_limits_at(e, buf@, pos as int) is Some,
            r matches Some((v, p)) ==> read_resource_limits_at(e, buf@, pos as int) == Some((v, p as int)),
    {
        let a = match get_i32(buf, pos, e) {
            Some(x) => x,
            None => return None,
        };
        let b = match get_i32(buf, pos + 4, e) {
            Some(x) => x,
            None => return None,
        };
        let c = match get_i32(buf, pos + 8, e) {
            Some(x) => x,
            None => return None,
        };
        Some((ResourceLimits { max_samples: a, max_instance: b, max_samples_per_instanse: c }, pos + 12))
    }

    pub fn write_to(&self, buf: &mut Vec<u8>, e: Endianness)
        ensures
            final(buf)@ == old(buf)@ + resource_limits_bytes(e, *self),
    {
        put_i32(buf, e, self.max_samples);
        put_i32(buf, e, self.max_instance);
        put_i32(buf, e, self.max_samples_per_instanse);
        assert(buf@ =~= old(buf)@ + resource_limits_bytes(e, *self));
    }
}

impl DurabilityService {
    pub fn read_from(buf: &[u8], pos: usize, e: Endianness) -> (r: Option<(DurabilityService, usize)>)
        ensures
            r is Some <==> read_durability_service_at(e, buf@, pos as int) is Some,
            r matches Some((v, p)) ==> read_durability_service_at(e, buf@, pos as int) == Some(
                (v, p as int),
            ),
    {
        let (d, p) = match read_duration(buf, pos, e) {
            Some(x) => x,
            None => return None,
        };
        let (k, q) = match read_history_kind(buf, p, e) {
            Some(x) => x,
            None => return None,
        };
        let a = match get_i32(buf, q, e) {
            Some(x) => x,
            None => return None,
        };
        let b = match get_i32(buf, q + 4, e) {
            Some(x) => x,
            None => return None,
        };
        let c = match get_i32(buf, q + 8, e) {
            Some(x) => x,
            None => return None,
        };
        let f = match get_i32(buf, q + 12, e) {
            Some(x) => x,
            None => return None,
        };
        Some(
            (
                DurabilityService {
                    service_cleanup_delay: d,
                    history_kind: k,
                    history_depth: a,
                    max_samples: b,
                    max_instance: c,
                    max_samples_per_instanse: f,
                },
                q + 16,
            ),
        )
    }

    pub fn write_to(&self, buf: &mut Vec<u8>, e: Endianness)
        ensures
            final(buf)@ == old(buf)@ + durability_service_bytes(e, *self),
    {
        write_duration(buf, e, self.service_cleanup_delay);
        put_i32(buf, e, history_kind_number(self.history_kind));
        put_i32(buf, e, self.history_depth);
        put_i32(buf, e, self.max_samples);
        put_i32(buf, e, self.max_instance);
        put_i32(buf, e, self.max_samples_per_instanse);
        assert(buf@ =~= old(buf)@ + durability_service_bytes(e, *self));
    }
}

/// Reads octets after a 32-bit length, then skips their padding.
pub fn read_octets(buf: &[u8], pos: usize, e: Endianness) -> (r: Option<(Vec<u8>, usize)>)
    ensures
        r is Some <==> read_octets_at(e, buf@, pos as int) is Some,
        r matches Some((v, p)) ==> read_octets_at(e, buf@, pos as int) == Some((v@, p as int)),
{
    let len = match get_u32(buf, pos, e) {
        Some(x) => x,
        None => return None,
    };
    let start = pos + 4;
    let l = len as usize;
    let pad = pad_len(l);
    if buf.len() - start < l || buf.len() - (start + l) < pad {
        return None;
    }
    match get_bytes(buf, start, l) {
        Some(v) => Some((v, start + l + pad)),
        None => None,
    }
}

/// Reads octets after a 16-bit length, then skips their padding.
pub fn read_short_octets(buf: &[u8], pos: usize, e: Endianness) -> (r: Option<(Vec<u8>, usize)>)
    ensures
        r is Some <==> read_short_octets_at(e, buf@, pos as int) is Some,
        r matches Some((v, p)) ==> read_short_octets_at(e, buf@, pos as int) == Some((v@, p as int)),
{
    let len = match get_u16(buf, pos, e) {
        Some(x) => x,
        None => return None,
    };
    let start = pos + 2;
    let l = len as usize;
    let pad = pad_len(l);
    if buf.len() - start < l || buf.len() - (start + l) < pad {
        return None;
    }
    match get_bytes(buf, start, l) {
        Some(v) => Some((v, start + l + pad)),
        None => None,
    }
}

impl Deadline {
    /// Writes the period.
    pub fn write_to(&self, buf: &mut Vec<u8>, e: Endianness)
        ensures
            final(buf)@ == old(buf)@ + duration_bytes(e, self.period),
    {
        write_duration(buf, e, self.period);
    }
}

impl LatencyBudget {
    /// Writes the duration.
    pub fn write_to(&self, buf: &mut Vec<u8>, e: Endianness)
        ensures
            final(buf)@ == old(buf)@ + duration_bytes(e, self.0),
    {
        write_duration(buf, e, self.0);
    }
}

impl TimeBasedFilter {
    /// Writes the minimum separation.
    pub fn write_to(&self, buf: &mut Vec<u8>, e: Endianness)
        ensures
            final(buf)@ == old(buf)@ + duration_bytes(e, self.minimun_separation),
    {
        write_duration(buf, e, self.minimun_separation);
    }
}

impl Lifespan {
    /// Writes the duration.
    pub fn write_to(&self, buf: &mut Vec<u8>, e: Endianness)
        ensures
            final(buf)@ == old(buf)@ + duration_bytes(e, self.0),
    {
        write_duration(buf, e, self.0);
    }
}

impl TransportPriority {
    /// Writes the priority as 32 bits.
    pub fn write_to(&self, buf: &mut Vec<u8>, e: Endianness)
        ensures
            final(buf)@ == old(buf)@ + i32_bytes(e, self.value),
    {
        put_i32(buf, e, self.value);
    }
}

impl OwnershipStrength {
    /// Writes the strength as 32 bits.
    pub fn write_to(&self, buf: &mut Vec<u8>, e: Endianness)
        ensures
            final(buf)@ == old(buf)@ + i32_bytes(e, self.0),
    {
        put_i32(buf, e, self.0);
    }
}

/// Writes octets after their 32-bit length, then padding to four.
pub fn write_octets(buf: &mut Vec<u8>, e: Endianness, v: &Vec<u8>)
    requires
        v@.len() <= u32::MAX,
    ensures
        final(buf)@ == old(buf)@ + octets_bytes(e, v@),
{
    put_u32(buf, e, v.len() as u32);
    put_bytes(buf, v.as_slice());
    put_zeros(buf, pad_len(v.len()));
    assert(buf@ =~= old(buf)@ + octets_bytes(e, v@));
}

impl UserData {
    /// Writes the octets after their length, padded to four.
    pub fn write_to(&self, buf: &mut Vec<u8>, e: Endianness)
        requires
            self.value@.len() <= u32::MAX,
        ensures
            final(buf)@ == old(buf)@ + octets_bytes(e, self.value@),
    {
        write_octets(buf, e, &self.value);
    }
}

} // verus!
