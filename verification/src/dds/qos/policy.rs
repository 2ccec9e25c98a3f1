//! DDS QoS policies (DDS v1.4, 2.2.3 Supported QoS) and the rules by which an
//! offered policy satisfies a requested one.
use vstd::prelude::*;
use crate::structure::duration::{CoreDuration, Duration, duration_of};
use crate::message::cdr::{i32_bytes, pad_of, put_bytes, put_i32, put_u8, put_zeros, zeros, Endianness};

verus! {

/// The value that marks a resource limit as unbounded.
pub const LENGTH_UNLIMITED: i32 = -1;

/// Number of padding octets that bring `len` up to a multiple of four.
pub open spec fn spec_pad_len(len: int) -> int {
    (4 - len % 4) % 4
}

/// Number of padding octets that bring `len` up to a multiple of four.
pub fn pad_len(len: usize) -> (p: usize)
    ensures
        p == spec_pad_len(len as int),
        p < 4,
{
    (4 - len % 4) % 4
}

#[derive(Clone, Copy, Debug, PartialEq, Eq, Structural)]
pub enum HistoryQosKind {
    KeepLast,
    KeepAll,
}

impl HistoryQosKind {
    /// The number this kind has on the wire.
    pub open spec fn spec_code(self) -> i32 {
        match self {
            HistoryQosKind::KeepLast => 0,
            HistoryQosKind::KeepAll => 1,
        }
    }
}

#[derive(Clone, Copy, Debug, PartialEq, Eq, Structural)]
pub struct DurabilityService {
    pub service_cleanup_delay: Duration,
    pub history_kind: HistoryQosKind,
    pub history_depth: i32,
    pub max_samples: i32,
    pub max_instance: i32,
    pub max_samples_per_instanse: i32,
}

impl DurabilityService {
    pub open spec fn spec_default() -> DurabilityService {
        DurabilityService {
            service_cleanup_delay: Duration { seconds: 0, fraction: 0 },
            history_kind: HistoryQosKind::KeepLast,
            history_depth: 1,
            max_samples: LENGTH_UNLIMITED,
            max_instance: LENGTH_UNLIMITED,
            max_samples_per_instanse: LENGTH_UNLIMITED,
        }
    }
}

impl Default for DurabilityService {
    fn default() -> (r: DurabilityService)
        ensures
            r == DurabilityService::spec_default(),
    {
        DurabilityService {
            service_cleanup_delay: Duration::zero(),
            history_kind: HistoryQosKind::KeepLast,
            history_depth: 1,
            max_samples: LENGTH_UNLIMITED,
            max_instance: LENGTH_UNLIMITED,
            max_samples_per_instanse: LENGTH_UNLIMITED,
        }
    }
}

/// Durability: whether late-joining readers receive data written before they
/// joined. Transient and persistent durability are not supported.
#[derive(Clone, Copy, Debug, PartialEq, Eq, Structural)]
pub enum Durability {
    /// Late-joining readers do not receive data sent before they joined.
    Volatile,
    /// Late-joining reliable readers receive the latest data sent before they
    /// joined.
    TransientLocal,
}

impl Durability {
    /// Strength of the guarantee; a stronger offer satisfies a weaker request.
    pub open spec fn rank(self) -> int {
        match self {
            Durability::Volatile => 0,
            Durability::TransientLocal => 1,
        }
    }

    /// Whether the offered (writer side) durability satisfies the requested
    /// (reader side) one.
    pub fn is_compatible(offered: Durability, requested: Durability) -> (r: bool)
        ensures
            r == (offered.rank() >= requested.rank()),
    {
        match (offered, requested) {
            (Durability::Volatile, Durability::TransientLocal) => false,
            _ => true,
        }
    }
}

impl Default for Durability {
    fn default() -> (r: Durability)
        ensures
            r == Durability::Volatile,
    {
        Durability::Volatile
    }
}

#[derive(Clone, Copy, Debug, PartialEq, Eq, Structural)]
pub enum PresentationQosAccessScopeKind {
    Instance,
    Topic,
    Group,
}

impl PresentationQosAccessScopeKind {
    pub open spec fn rank(self) -> int {
        match self {
            PresentationQosAccessScopeKind::Instance => 0,
            PresentationQosAccessScopeKind::Topic => 1,
            PresentationQosAccessScopeKind::Group => 2,
        }
    }

    /// The rank as the number it has on the wire.
    pub fn code(&self) -> (c: i32)
        ensures
            c == self.rank(),
    {
        match self {
            PresentationQosAccessScopeKind::Instance => 0,
            PresentationQosAccessScopeKind::Topic => 1,
            PresentationQosAccessScopeKind::Group => 2,
        }
    }
}

impl Default for PresentationQosAccessScopeKind {
    fn default() -> (r: PresentationQosAccessScopeKind)
        ensures
            r == PresentationQosAccessScopeKind::Instance,
    {
        PresentationQosAccessScopeKind::Instance
    }
}

#[derive(Clone, Copy, Debug, PartialEq, Eq, Structural)]
pub struct Presentation {
    pub access_scope: PresentationQosAccessScopeKind,
    pub coherent_access: bool,
    pub ordered_access: bool,
}

impl Presentation {
    pub fn _new(
        access_scope: PresentationQosAccessScopeKind,
        coherent_access: bool,
        ordered_access: bool,
    ) -> (p: Presentation)
        ensures
            p == (Presentation { access_scope, coherent_access, ordered_access }),
    {
        Presentation { access_scope, coherent_access, ordered_access }
    }

    /// Whether the offered access scope is at least as wide as the requested
    /// one.
    pub fn _is_compatible(offered: Presentation, requested: Presentation) -> (r: bool)
        ensures
            r == (offered.access_scope.rank() >= requested.access_scope.rank()),
    {
        offered.access_scope.code() >= requested.access_scope.code()
    }

    pub open spec fn spec_default() -> Presentation {
        Presentation {
            access_scope: PresentationQosAccessScopeKind::Instance,
            coherent_access: false,
            ordered_access: false,
        }
    }
}

impl Default for Presentation {
    fn default() -> (r: Presentation)
        ensures
            r == Presentation::spec_default(),
    {
        Presentation {
            access_scope: PresentationQosAccessScopeKind::Instance,
            coherent_access: false,
            ordered_access: false,
        }
    }
}

/// Deadline: the longest gap between two samples of an instance.
#[derive(Clone, Copy, Debug, PartialEq, Eq, Structural)]
pub struct Deadline {
    pub period: Duration,
}

impl Deadline {
    pub fn new(period: CoreDuration) -> (d: Deadline)
        ensures
            d.period == duration_of(period.spec_secs(), period.spec_subsec_nanos()),
    {
        Deadline { period: Duration::from_core(period) }
    }

    /// An infinite requested deadline accepts any offer; otherwise the
    /// offered period must be no longer than the requested one.
    pub fn is_compatible(offered: Deadline, requested: Deadline) -> (r: bool)
        ensures
            r == (requested.period == Duration::spec_infinite() || offered.period.ticks()
                <= requested.period.ticks()),
    {
        requested.period.is_infinite() || offered.period.le(&requested.period)
    }
}

impl Default for Deadline {
    fn default() -> (r: Deadline)
        ensures
            r.period == Duration::spec_infinite(),
    {
        Deadline { period: Duration::infinite() }
    }
}

/// Latency budget: the delay that the application accepts.
#[derive(Clone, Copy, Debug, PartialEq, Eq, Structural)]
pub struct LatencyBudget(pub Duration);

impl LatencyBudget {
    pub fn new(duration: CoreDuration) -> (l: LatencyBudget)
        ensures
            l.0 == duration_of(duration.spec_secs(), duration.spec_subsec_nanos()),
    {
        LatencyBudget(Duration::from_core(duration))
    }

    /// The offered budget must be no longer than the requested one.
    pub fn is_compatible(offered: LatencyBudget, requested: LatencyBudget) -> (r: bool)
        ensures
            r == (offered.0.ticks() <= requested.0.ticks()),
    {
        offered.0.le(&requested.0)
    }
}

impl Default for LatencyBudget {
    fn default() -> (r: LatencyBudget)
        ensures
            r.0 == (Duration { seconds: 0, fraction: 0 }),
    {
        LatencyBudget(Duration::zero())
    }
}

#[derive(Clone, Copy, Debug, PartialEq, Eq, Structural)]
pub enum Ownership {
    Shared,
    Exclusive,
}

impl Ownership {
    /// Offered and requested ownership must be the same kind.
    pub fn is_compatible(offered: Ownership, requested: Ownership) -> (r: bool)
        ensures
            r == (offered == requested),
    {
        offered == requested
    }
}

impl Default for Ownership {
    fn default() -> (r: Ownership)
        ensures
            r == Ownership::Shared,
    {
        Ownership::Shared
    }
}

#[derive(Clone, Copy, Debug, PartialEq, Eq, Structural)]
pub struct OwnershipStrength(pub i32);

impl Default for OwnershipStrength {
    fn default() -> (r: OwnershipStrength)
        ensures
            r.0 == 0,
    {
        OwnershipStrength(0)
    }
}

#[derive(Clone, Copy, Debug, PartialEq, Eq, Structural)]
pub enum LivelinessQosKind {
    Automatic,
    ManualByParticipant,
    ManualByTopic,
}

impl LivelinessQosKind {
    /// Strength of the liveliness guarantee; also the number written on the
    /// wire.
    pub open spec fn rank(self) -> int {
        match self {
            LivelinessQosKind::Automatic => 0,
            LivelinessQosKind::ManualByParticipant => 1,
            LivelinessQosKind::ManualByTopic => 2,
        }
    }

    pub fn code(&self) -> (c: i32)
        ensures
            c == self.rank(),
    {
        match self {
            LivelinessQosKind::Automatic => 0,
            LivelinessQosKind::ManualByParticipant => 1,
            LivelinessQosKind::ManualByTopic => 2,
        }
    }
}

/// Liveliness kinds are ordered Automatic < ManualByParticipant <
/// ManualByTopic: an offered kind is at least as strong as a requested one
/// exactly when the request is automatic, the offer is by topic, or both are
/// the same. So a by-participant offer never satisfies a by-topic request,
/// and an automatic offer satisfies only an automatic request. The numbers
/// written on the wire are 0, 1 and 2 in that order.
pub proof fn law_liveliness_kind_order(offered: LivelinessQosKind, requested: LivelinessQosKind)
    ensures
        (offered.rank() >= requested.rank()) <==> (requested == LivelinessQosKind::Automatic
            || offered == LivelinessQosKind::ManualByTopic || offered == requested),
        offered == LivelinessQosKind::ManualByParticipant && requested
            == LivelinessQosKind::ManualByTopic ==> offered.rank() < requested.rank(),
        LivelinessQosKind::Automatic.rank() == 0,
        LivelinessQosKind::ManualByParticipant.rank() == 1,
        LivelinessQosKind::ManualByTopic.rank() == 2,
{
}

/// Durability: a transient-local offer satisfies every request, a volatile
/// offer only a volatile request.
pub proof fn law_durability_order(offered: Durability, requested: Durability)
    ensures
        (offered.rank() >= requested.rank()) <==> (offered == Durability::TransientLocal
            || requested == Durability::Volatile),
{
}

/// Reliability: a reliable offer satisfies every request, a best-effort
/// offer only a best-effort request; on the wire best effort is 1 and
/// reliable 2.
pub proof fn law_reliability_order(offered: ReliabilityQosKind, requested: ReliabilityQosKind)
    ensures
        (offered.rank() >= requested.rank()) <==> (offered == ReliabilityQosKind::Reliable
            || requested == ReliabilityQosKind::BestEffort),
        ReliabilityQosKind::BestEffort.rank() == 1,
        ReliabilityQosKind::Reliable.rank() == 2,
{
}

/// Destination order: a by-source-timestamp offer satisfies every request,
/// a by-reception-timestamp offer only a by-reception request.
pub proof fn law_destination_order_order(offered: DestinationOrder, requested: DestinationOrder)
    ensures
        (offered.rank() >= requested.rank()) <==> (offered == DestinationOrder::BySourceTimestamp
            || requested == DestinationOrder::ByReceptionTimestamp),
{
}

/// Presentation access scopes are ordered Instance < Topic < Group, written
/// on the wire as 0, 1 and 2.
pub proof fn law_access_scope_order(
    offered: PresentationQosAccessScopeKind,
    requested: PresentationQosAccessScopeKind,
)
    ensures
        (offered.rank() >= requested.rank()) <==> (requested == PresentationQosAccessScopeKind::Instance
            || offered == PresentationQosAccessScopeKind::Group || offered == requested),
        PresentationQosAccessScopeKind::Instance.rank() == 0,
        PresentationQosAccessScopeKind::Topic.rank() == 1,
        PresentationQosAccessScopeKind::Group.rank() == 2,
{
}

#[derive(Clone, Copy, Debug, PartialEq, Eq, Structural)]
pub struct Liveliness {
    pub kind: LivelinessQosKind,
    pub lease_duration: Duration,
}

impl Liveliness {
    pub fn new(kind: LivelinessQosKind, lease_duration: CoreDuration) -> (l: Liveliness)
        ensures
            l.kind == kind,
            l.lease_duration == duration_of(
                lease_duration.spec_secs(),
                lease_duration.spec_subsec_nanos(),
            ),
    {
        Liveliness { kind, lease_duration: Duration::from_core(lease_duration) }
    }

    /// The offered kind must be at least as strong and the offered lease no
    /// longer than requested.
    pub fn is_compatible(offered: Liveliness, requested: Liveliness) -> (r: bool)
        ensures
            r == (offered.kind.rank() >= requested.kind.rank()
                && offered.lease_duration.ticks() <= requested.lease_duration.ticks()),
    {
        offered.kind.code() >= requested.kind.code() && offered.lease_duration.le(
            &requested.lease_duration,
        )
    }

    pub open spec fn spec_default() -> Liveliness {
        Liveliness { kind: LivelinessQosKind::Automatic, lease_duration: Duration::spec_infinite() }
    }
}

impl Default for Liveliness {
    fn default() -> (r: Liveliness)
        ensures
            r == Liveliness::spec_default(),
    {
        Liveliness { kind: LivelinessQosKind::Automatic, lease_duration: Duration::infinite() }
    }
}

#[derive(Clone, Copy, Debug, PartialEq, Eq, Structural)]
pub struct TimeBasedFilter {
    pub minimun_separation: Duration,
}

impl TimeBasedFilter {
    pub fn new(minimun_separation: CoreDuration) -> (t: TimeBasedFilter)
        ensures
            t.minimun_separation == duration_of(
                minimun_separation.spec_secs(),
                minimun_separation.spec_subsec_nanos(),
            ),
    {
        TimeBasedFilter { minimun_separation: Duration::from_core(minimun_separation) }
    }
}

impl Default for TimeBasedFilter {
    fn default() -> (r: TimeBasedFilter)
        ensures
            r.minimun_separation == (Duration { seconds: 0, fraction: 0 }),
    {
        TimeBasedFilter { minimun_separation: Duration::zero() }
    }
}

#[derive(Clone, Copy, Debug, PartialEq, Eq, Structural)]
pub enum ReliabilityQosKind {
    Reliable,
    BestEffort,
}

impl ReliabilityQosKind {
    /// The number this kind has on the wire; reliable ranks above best effort.
    pub open spec fn rank(self) -> int {
        match self {
            ReliabilityQosKind::Reliable => 2,
            ReliabilityQosKind::BestEffort => 1,
        }
    }

    pub fn code(&self) -> (c: i32)
        ensures
            c == self.rank(),
    {
        match self {
            ReliabilityQosKind::Reliable => 2,
            ReliabilityQosKind::BestEffort => 1,
        }
    }
}

/// The blocking time that both default reliability settings use: 100 ms.
pub open spec fn default_max_blocking_time() -> Duration {
    duration_of(0, 100_000_000)
}

#[derive(Clone, Copy, Debug, PartialEq, Eq, Structural)]
pub struct Reliability {
    pub kind: ReliabilityQosKind,
    pub max_bloking_time: Duration,
}

impl Reliability {
    pub fn new(kind: ReliabilityQosKind, max_bloking_time: CoreDuration) -> (r: Reliability)
        ensures
            r.kind == kind,
            r.max_bloking_time == duration_of(
                max_bloking_time.spec_secs(),
                max_bloking_time.spec_subsec_nanos(),
            ),
    {
        Reliability { kind, max_bloking_time: Duration::from_core(max_bloking_time) }
    }

    pub open spec fn spec_default_besteffort() -> Reliability {
        Reliability { kind: ReliabilityQosKind::BestEffort, max_bloking_time: default_max_blocking_time() }
    }

    pub open spec fn spec_default_reliable() -> Reliability {
        Reliability { kind: ReliabilityQosKind::Reliable, max_bloking_time: default_max_blocking_time() }
    }

    /// Best effort with a blocking time of 100 ms.
    pub fn default_besteffort() -> (r: Reliability)
        ensures
            r == Reliability::spec_default_besteffort(),
    {
        Reliability { kind: ReliabilityQosKind::BestEffort, max_bloking_time: Duration::from_millis(100) }
    }

    /// Reliable with a blocking time of 100 ms.
    pub fn default_reliable() -> (r: Reliability)
        ensures
            r == Reliability::spec_default_reliable(),
    {
        Reliability { kind: ReliabilityQosKind::Reliable, max_bloking_time: Duration::from_millis(100) }
    }

    /// The offered kind must be at least as strong as the requested one.
    pub fn is_compatible(offered: Reliability, requested: Reliability) -> (r: bool)
        ensures
            r == (offered.kind.rank() >= requested.kind.rank()),
    {
        offered.kind.code() >= requested.kind.code()
    }
}

#[derive(Clone, Copy, Debug, PartialEq, Eq, Structural)]
pub enum DestinationOrder {
    ByReceptionTimestamp,
    BySourceTimestamp,
}

impl DestinationOrder {
    pub open spec fn rank(self) -> int {
        match self {
            DestinationOrder::ByReceptionTimestamp => 0,
            DestinationOrder::BySourceTimestamp => 1,
        }
    }

    /// The offered ordering must be at least as strong as the requested one.
    pub fn is_compatible(offered: DestinationOrder, requested: DestinationOrder) -> (r: bool)
        ensures
            r == (offered.rank() >= requested.rank()),
    {
        match (offered, requested) {
            (DestinationOrder::ByReceptionTimestamp, DestinationOrder::BySourceTimestamp) => false,
            _ => true,
        }
    }
}

impl Default for DestinationOrder {
    fn default() -> (r: DestinationOrder)
        ensures
            r == DestinationOrder::ByReceptionTimestamp,
    {
        DestinationOrder::ByReceptionTimestamp
    }
}

#[derive(Clone, Copy, Debug, PartialEq, Eq, Structural)]
pub struct History {
    pub kind: HistoryQosKind,
    pub depth: i32,
}

impl History {
    pub fn new(kind: HistoryQosKind, depth: i32) -> (h: History)
        ensures
            h == (History { kind, depth }),
    {
        History { kind, depth }
    }

    pub open spec fn spec_default() -> History {
        History { kind: HistoryQosKind::KeepLast, depth: 1 }
    }
}

impl Default for History {
    fn default() -> (r: History)
        ensures
            r == History::spec_default(),
    {
        History { kind: HistoryQosKind::KeepLast, depth: 1 }
    }
}

#[derive(Clone, Copy, Debug, PartialEq, Eq, Structural)]
pub struct ResourceLimits {
    pub max_samples: i32,
    pub max_instance: i32,
    pub max_samples_per_instanse: i32,
}

impl ResourceLimits {
    pub open spec fn spec_default() -> ResourceLimits {
        ResourceLimits {
            max_samples: LENGTH_UNLIMITED,
            max_instance: LENGTH_UNLIMITED,
            max_samples_per_instanse: LENGTH_UNLIMITED,
        }
    }
}

impl Default for ResourceLimits {
    fn default() -> (r: ResourceLimits)
        ensures
            r == ResourceLimits::spec_default(),
    {
        ResourceLimits {
            max_samples: LENGTH_UNLIMITED,
            max_instance: LENGTH_UNLIMITED,
            max_samples_per_instanse: LENGTH_UNLIMITED,
        }
    }
}

#[derive(Clone, Copy, Debug, PartialEq, Eq, Structural)]
pub struct Lifespan(pub Duration);

impl Lifespan {
    pub fn from_secs(secs: i32) -> (l: Lifespan)
        ensures
            l.0 == (Duration { seconds: secs, fraction: 0 }),
    {
        Lifespan(Duration::from_secs(secs))
    }

    pub fn from_millis(millis: i64) -> (l: Lifespan)
        ensures
            millis < 0 ==> l.0 == (Duration { seconds: 0, fraction: 0 }),
            millis >= 0 ==> l.0 == duration_of(millis / 1000, ((millis % 1000) * 1_000_000) as int),
    {
        Lifespan(Duration::from_millis(millis))
    }

    pub fn from_nanos(nanos: i64) -> (l: Lifespan)
        ensures
            nanos < 0 ==> l.0 == (Duration { seconds: 0, fraction: 0 }),
            nanos >= 0 ==> l.0 == duration_of(
                nanos / 1_000_000_000,
                (nanos % 1_000_000_000) as int,
            ),
    {
        Lifespan(Duration::from_nanos(nanos))
    }
}

impl Default for Lifespan {
    fn default() -> (r: Lifespan)
        ensures
            r.0 == Duration::spec_infinite(),
    {
        Lifespan(Duration::infinite())
    }
}

/// Octets that a string takes in CDR: a 4-octet length, the UTF-8 octets and
/// a terminating zero.
pub open spec fn spec_cdr_string_len(s: Seq<char>) -> int {
    4 + vstd::utf8::encode_utf8(s).len() as int + 1
}

/// Octets that the names of a partition take in CDR from offset `start`,
/// each name padded to a multiple of four.
pub open spec fn spec_partition_names_size(names: Seq<Seq<char>>) -> int
    decreases names.len(),
{
    if names.len() == 0 {
        4
    } else {
        let before = spec_partition_names_size(names.drop_last());
        let len = before + spec_cdr_string_len(names.last());
        len + spec_pad_len(len)
    }
}

/// The character sequences of a list of strings.
pub open spec fn names_of(v: Seq<String>) -> Seq<Seq<char>> {
    v.map_values(|s: String| s@)
}

#[derive(Debug)]
pub struct Partition {
    pub name: Vec<String>,
}

impl Partition {
    /// The partition names as character sequences.
    pub open spec fn spec_names(self) -> Seq<Seq<char>> {
        names_of(self.name@)
    }

    /// Octets the partition takes in CDR, names padded to four octets.
    pub fn serialized_size(&self) -> (n: u16)
        requires
            spec_partition_names_size(self.spec_names()) <= u16::MAX,
        ensures
            n == spec_partition_names_size(self.spec_names()),
            n == 4 + partition_names_sum(self.spec_names()),
    {
        let mut len: u16 = 4;
        let mut i: usize = 0;
        proof {
            assert(self.spec_names().take(0) =~= Seq::<Seq<char>>::empty());
            lemma_partition_size_monotone(self.spec_names(), 0);
        }
        while i < self.name.len()
            invariant
                0 <= i <= self.name.len(),
                len == spec_partition_names_size(self.spec_names().take(i as int)),
                spec_partition_names_size(self.spec_names()) <= u16::MAX,
            decreases self.name.len() - i,
        {
            let n = &self.name[i];
            let bytes = n.as_str().len();
            proof {
                let names = self.spec_names();
                assert(names.take(i + 1).drop_last() =~= names.take(i as int));
                assert(names.take(i + 1).last() == n@);
                lemma_partition_size_monotone(names, i + 1);
                lemma_partition_size_grows(names.take(i + 1));
            }
            len = len + 4;
            len = len + (bytes as u16) + 1;
            len = len + (pad_len(len as usize) as u16);
            i = i + 1;
        }
        proof {
            assert(self.spec_names().take(self.name.len() as int) =~= self.spec_names());
            lemma_partition_size_sum(Endianness::LittleEndian, self.spec_names());
        }
        len
    }

    /// Writes the partition in CDR: the number of names, then each name's
    /// length counting the closing null, its octets, the null and padding to
    /// four. Counts are written as 32-bit numbers, truncated.
    #[verifier::spinoff_prover]
    #[verifier::rlimit(30)]
    pub fn write_to(&self, buf: &mut Vec<u8>, e: Endianness)
        ensures
            final(buf)@ == old(buf)@ + partition_bytes(e, self.spec_names()),
    {
        let ghost start = buf@;
        let count: usize = self.name.len();
        put_i32(buf, e, count as i32);
        let mut i: usize = 0;
        proof {
            assert(self.spec_names().take(0) =~= Seq::<Seq<char>>::empty());
        }
        while i < self.name.len()
            invariant
                0 <= i <= self.name.len(),
                count == self.name@.len(),
                buf@ == start + i32_bytes(e, count as i32) + partition_names_bytes(
                    e,
                    self.spec_names().take(i as int),
                ),
            decreases self.name.len() - i,
        {
            let ghost before = buf@;
            let bytes = self.name[i].as_str().as_bytes();
            let n: usize = bytes.len();
            let len_with_null: u128 = n as u128 + 1;
            put_i32(buf, e, len_with_null as i32);
            put_bytes(buf, bytes);
            put_u8(buf, 0);
            let pad = pad_len(n % 4 + 1);
            put_zeros(buf, pad);
            proof {
                let names = self.spec_names();
                let b = vstd::utf8::encode_utf8(names[i as int]);
                assert(names[i as int] == self.name@[i as int]@);
                assert(bytes@ == b);
                assert(spec_pad_len(n % 4 + 1) == pad_of(n + 1));
                assert(names.take(i + 1).drop_last() =~= names.take(i as int));
                assert(names.take(i + 1).last() == names[i as int]);
                assert(buf@ =~= before + partition_name_bytes(e, names[i as int]));
            }
            i = i + 1;
        }
        proof {
            assert(self.spec_names().take(self.name.len() as int) =~= self.spec_names());
            assert(self.spec_names().len() == count);
        }
    }
}

/// The octets one partition name takes in CDR: its length counting the
/// closing null, its UTF-8 octets, the null, and padding to four.
pub open spec fn partition_name_bytes(e: Endianness, s: Seq<char>) -> Seq<u8> {
    let b = vstd::utf8::encode_utf8(s);
    i32_bytes(e, (b.len() + 1) as i32) + b + seq![0u8] + zeros(pad_of(b.len() + 1int))
}

/// The octets of the names, one after the other.
pub open spec fn partition_names_bytes(e: Endianness, names: Seq<Seq<char>>) -> Seq<u8>
    decreases names.len(),
{
    if names.len() == 0 {
        Seq::empty()
    } else {
        partition_names_bytes(e, names.drop_last()) + partition_name_bytes(e, names.last())
    }
}

/// The octets a partition takes in CDR: the number of names, then the names.
pub open spec fn partition_bytes(e: Endianness, names: Seq<Seq<char>>) -> Seq<u8> {
    i32_bytes(e, names.len() as i32) + partition_names_bytes(e, names)
}

/// The octets the names take, summed name by name: a length, the octets,
/// the null and the padding.
pub open spec fn partition_names_sum(names: Seq<Seq<char>>) -> int
    decreases names.len(),
{
    if names.len() == 0 {
        0
    } else {
        let n = vstd::utf8::encode_utf8(names.last()).len() as int;
        partition_names_sum(names.drop_last()) + 4 + n + 1 + spec_pad_len(n + 1)
    }
}

/// Padding after a name that starts on a multiple of four depends on the
/// name alone, and brings the end back to a multiple of four.
proof fn lemma_pad_after_aligned(before: int, n: int)
    requires
        before % 4 == 0,
        n >= 0,
    ensures
        spec_pad_len(before + 4 + n + 1) == spec_pad_len(n + 1),
        (before + 4 + n + 1 + spec_pad_len(n + 1)) % 4 == 0,
        pad_of(n + 1) == spec_pad_len(n + 1),
{
    assert((before + 4 + n + 1) % 4 == (n + 1) % 4) by (nonlinear_arith)
        requires
            before % 4 == 0,
            n >= 0,
    ;
}

/// The octets of one name: a 4-octet length, the name's UTF-8 octets, the
/// null and the padding.
proof fn lemma_name_bytes_len(e: Endianness, name: Seq<char>)
    ensures
        partition_name_bytes(e, name).len() == 4 + vstd::utf8::encode_utf8(name).len() + 1 + pad_of(
            vstd::utf8::encode_utf8(name).len() + 1int,
        ),
{
    let b = vstd::utf8::encode_utf8(name);
    assert(i32_bytes(e, (b.len() + 1) as i32).len() == 4);
}

/// The size of the names, padded as it goes, is four for the count plus the
/// sum over the names; it stays a multiple of four; and it is how many
/// octets are written.
proof fn lemma_partition_size_sum(e: Endianness, names: Seq<Seq<char>>)
    ensures
        spec_partition_names_size(names) == 4 + partition_names_sum(names),
        spec_partition_names_size(names) % 4 == 0,
        partition_names_bytes(e, names).len() == partition_names_sum(names),
    decreases names.len(),
{
    if names.len() > 0 {
        lemma_partition_size_sum(e, names.drop_last());
        let n = vstd::utf8::encode_utf8(names.last()).len() as int;
        lemma_pad_after_aligned(spec_partition_names_size(names.drop_last()), n);
        lemma_name_bytes_len(e, names.last());
    }
}

/// A partition's size as `serialized_size` gives it is four octets for the
/// count plus, for each name, four for its length, its UTF-8 octets, one
/// for the null and the padding to four; and it is exactly the number of
/// octets `write_to` appends.
pub proof fn law_partition_size(p: Partition, e: Endianness)
    ensures
        spec_partition_names_size(p.spec_names()) == 4 + partition_names_sum(p.spec_names()),
        spec_partition_names_size(p.spec_names()) == partition_bytes(e, p.spec_names()).len(),
{
    lemma_partition_size_sum(e, p.spec_names());
}

/// The size of a prefix of the names is no larger than the size of all of
/// them.
proof fn lemma_partition_size_monotone(names: Seq<Seq<char>>, k: int)
    requires
        0 <= k <= names.len(),
    ensures
        spec_partition_names_size(names.take(k)) <= spec_partition_names_size(names),
    decreases names.len() - k,
{
    if k < names.len() {
        lemma_partition_size_monotone(names, k + 1);
        assert(names.take(k + 1).drop_last() =~= names.take(k));
        lemma_partition_size_grows(names.take(k + 1));
    } else {
        assert(names.take(k) =~= names);
    }
}

/// Adding a name never shrinks the size.
proof fn lemma_partition_size_grows(names: Seq<Seq<char>>)
    requires
        names.len() > 0,
    ensures
        spec_partition_names_size(names.drop_last()) + spec_cdr_string_len(names.last())
            <= spec_partition_names_size(names),
        spec_partition_names_size(names.drop_last()) >= 4,
    decreases names.len(),
{
    if names.drop_last().len() > 0 {
        lemma_partition_size_grows(names.drop_last());
    }
}

impl Clone for Partition {
    fn clone(&self) -> (r: Partition)
        ensures
            r.spec_names() == self.spec_names(),
    {
        let mut name: Vec<String> = Vec::new();
        let mut i: usize = 0;
        while i < self.name.len()
            invariant
                0 <= i <= self.name@.len(),
                names_of(name@) == self.spec_names().take(i as int),
                name@.len() == i,
            decreases self.name@.len() - i,
        {
            let ghost before = name@;
            let c = self.name[i].clone();
            name.push(c);
            proof {
                assert(name@ == before.push(c));
                assert(c == self.name@[i as int]);
                assert(names_of(name@).len() == i + 1);
                assert(names_of(name@)[i as int] == c@);
                assert(self.spec_names()[i as int] == self.name@[i as int]@);
                assert forall|j: int| 0 <= j < i + 1 implies #[trigger] names_of(name@)[j]
                    == self.spec_names().take(i + 1)[j] by {
                    if j < i {
                        assert(names_of(before)[j] == self.spec_names().take(i as int)[j]);
                    }
                }
            }
            i = i + 1;
            assert(names_of(name@) =~= self.spec_names().take(i as int));
        }
        assert(self.spec_names().take(self.name@.len() as int) =~= self.spec_names());
        Partition { name }
    }
}

impl Default for Partition {
    fn default() -> (r: Partition)
        ensures
            r.spec_names() == seq![Seq::<char>::empty()],
    {
        let p = Partition { name: vec![String::new()] };
        assert(p.spec_names() =~= seq![Seq::<char>::empty()]);
        p
    }
}

/// Octets an opaque octet sequence of `len` octets takes in CDR: a 4-octet
/// length, the octets, and padding to four.
pub open spec fn spec_octets_size(len: int) -> int {
    4 + len + spec_pad_len(len)
}

fn octets_size(len: usize) -> (n: u16)
    requires
        spec_octets_size(len as int) <= u16::MAX,
    ensures
        n == spec_octets_size(len as int),
{
    4 + len as u16 + pad_len(len) as u16
}

#[derive(Debug)]
pub struct UserData {
    pub value: Vec<u8>,
}

impl Clone for UserData {
    fn clone(&self) -> (r: UserData)
        ensures
            r.value@ == self.value@,
    {
        UserData { value: copy_octets(&self.value) }
    }
}

impl UserData {
    pub fn serialized_size(&self) -> (n: u16)
        requires
            spec_octets_size(self.value@.len() as int) <= u16::MAX,
        ensures
            n == spec_octets_size(self.value@.len() as int),
    {
        octets_size(self.value.len())
    }

    /// Whether both hold the same octets.
    pub fn same(&self, other: &UserData) -> (r: bool)
        ensures
            r == (self.value@ == other.value@),
    {
        same_octets(&self.value, &other.value)
    }
}

impl Default for UserData {
    fn default() -> (r: UserData)
        ensures
            r.value@ == Seq::<u8>::empty(),
    {
        UserData { value: Vec::new() }
    }
}

#[derive(Debug)]
pub struct TopicData {
    pub value: Vec<u8>,
}

impl Clone for TopicData {
    fn clone(&self) -> (r: TopicData)
        ensures
            r.value@ == self.value@,
    {
        TopicData { value: copy_octets(&self.value) }
    }
}

impl TopicData {
    pub fn serialized_size(&self) -> (n: u16)
        requires
            spec_octets_size(self.value@.len() as int) <= u16::MAX,
        ensures
            n == spec_octets_size(self.value@.len() as int),
    {
        octets_size(self.value.len())
    }
}

impl Default for TopicData {
    fn default() -> (r: TopicData)
        ensures
            r.value@ == Seq::<u8>::empty(),
    {
        TopicData { value: Vec::new() }
    }
}

#[derive(Debug)]
pub struct GroupData {
    pub value: Vec<u8>,
}

impl Clone for GroupData {
    fn clone(&self) -> (r: GroupData)
        ensures
            r.value@ == self.value@,
    {
        GroupData { value: copy_octets(&self.value) }
    }
}

impl GroupData {
    pub fn serialized_size(&self) -> (n: u16)
        requires
            spec_octets_size(self.value@.len() as int) <= u16::MAX,
        ensures
            n == spec_octets_size(self.value@.len() as int),
    {
        octets_size(self.value.len())
    }
}

impl Default for GroupData {
    fn default() -> (r: GroupData)
        ensures
            r.value@ == Seq::<u8>::empty(),
    {
        GroupData { value: Vec::new() }
    }
}

/// A fresh vector with the same octets.
pub fn copy_octets(a: &Vec<u8>) -> (r: Vec<u8>)
    ensures
        r@ == a@,
{
    let mut r: Vec<u8> = Vec::new();
    let mut i: usize = 0;
    while i < a.len()
        invariant
            0 <= i <= a@.len(),
            r@ == a@.take(i as int),
        decreases a@.len() - i,
    {
        r.push(a[i]);
        i = i + 1;
        assert(r@ =~= a@.take(i as int));
    }
    assert(a@.take(a@.len() as int) =~= a@);
    r
}

/// Whether two octet vectors hold the same octets.
pub fn same_octets(a: &Vec<u8>, b: &Vec<u8>) -> (r: bool)
    ensures
        r == (a@ == b@),
{
    if a.len() != b.len() {
        return false;
    }
    let mut i: usize = 0;
    while i < a.len()
        invariant
            a@.len() == b@.len(),
            0 <= i <= a@.len(),
            forall|j: int| 0 <= j < i ==> a@[j] == b@[j],
        decreases a@.len() - i,
    {
        if a[i] != b[i] {
            return false;
        }
        i = i + 1;
    }
    assert(a@ =~= b@);
    true
}

#[derive(Clone, Copy, Debug, PartialEq, Eq, Structural)]
pub struct WriterDataLifecycle {
    pub autodispose_unregistered_instance: bool,
}

impl Default for WriterDataLifecycle {
    fn default() -> (r: WriterDataLifecycle)
        ensures
            r.autodispose_unregistered_instance,
    {
        WriterDataLifecycle { autodispose_unregistered_instance: true }
    }
}

#[derive(Clone, Copy, Debug, PartialEq, Eq, Structural)]
pub struct ReaderDataLifecycle {
    pub autopurge_nowriter_samples_delay: Duration,
    pub autopurge_dispose_samples_delay: Duration,
}

impl Default for ReaderDataLifecycle {
    fn default() -> (r: ReaderDataLifecycle)
        ensures
            r.autopurge_nowriter_samples_delay == Duration::spec_infinite(),
            r.autopurge_dispose_samples_delay == Duration::spec_infinite(),
    {
        ReaderDataLifecycle {
            autopurge_dispose_samples_delay: Duration::infinite(),
            autopurge_nowriter_samples_delay: Duration::infinite(),
        }
    }
}

#[derive(Clone, Copy, Debug, PartialEq, Eq, Structural)]
pub struct TransportPriority {
    pub value: i32,
}

impl Default for TransportPriority {
    fn default() -> (r: TransportPriority)
        ensures
            r.value == 0,
    {
        TransportPriority { value: 0 }
    }
}

#[derive(Clone, Copy, Debug, PartialEq, Eq, Structural)]
pub struct EntityFactory {
    pub autoenable_created_entites: bool,
}

impl Default for EntityFactory {
    fn default() -> (r: EntityFactory)
        ensures
            r.autoenable_created_entites,
    {
        EntityFactory { autoenable_created_entites: true }
    }
}

} // verus!
