//! The data participants and endpoints announce in discovery, as read from a
//! parameter list: what each parameter sets, and the proxies and
//! participant records built from it.
use vstd::prelude::*;
use crate::dds::qos::policy::{
    Deadline, DestinationOrder, Durability, DurabilityService, GroupData, History,
    LatencyBudget, Lifespan, Liveliness, Ownership, OwnershipStrength, Partition,
    Presentation, Reliability, ResourceLimits, TimeBasedFilter, TopicData, TransportPriority,
    UserData,
};
use crate::discovery::parse::{prepend, read_step, sdp_items, LocatorView, Outcome, Read, SdpItem};
use crate::message::cdr::{
    Endianness, i32_bytes, put_bytes, put_i32, put_u16, put_u32, put_u8, u16_bytes, u32_bytes,
};
use crate::dds::qos::wire::{duration_bytes, octets_bytes, read_octets, read_octets_at};
use crate::dds::qos::policy::pad_len;
use crate::message::cdr::put_zeros;
use crate::structure::guid::GuidPrefix;
use crate::structure::parameter_id::{
    PID_BUILTIN_ENDPOINT_SET, PID_DEFAULT_MULTICAST_LOCATOR, PID_DEFAULT_UNICAST_LOCATOR,
    PID_DOMAIN_ID, PID_EXPECTS_INLINE_QOS, PID_METATRAFFIC_MULTICAST_LOCATOR,
    PID_METATRAFFIC_UNICAST_LOCATOR, PID_PARTICIPANT_GUID, PID_PARTICIPANT_LEASE_DURATION,
    PID_PARTICIPANT_MANUAL_LIVELINESS_COUNT, PID_PROTOCOL_VERSION, PID_SENTINEL, PID_VENDOR_ID,
};
use crate::dds::qos::{DataReaderQosBuilder, DataWriterQosBuilder};
use crate::rtps::cache::HistoryCache;
use crate::structure::proxy::{has_locator, ReaderProxy, WriterProxy};
use crate::message::element::Locator;
use crate::structure::duration::Duration;
use crate::structure::guid::GUID;

verus! {

/// The RTPS protocol version a participant speaks.
#[derive(Clone, Copy, Debug, PartialEq, Eq, Structural)]
pub struct ProtocolVersion {
    pub major: u8,
    pub minor: u8,
}

/// The vendor of an implementation.
#[derive(Clone, Copy, Debug)]
pub struct VendorId {
    pub vendor_id: [u8; 2],
}

/// The sixteen octets of a GUID: prefix, key, kind.
pub open spec fn guid_octets(g: GUID) -> Seq<u8> {
    g.guid_prefix.guid_prefix@ + seq![
        g.entity_id.key0,
        g.entity_id.key1,
        g.entity_id.key2,
        g.entity_id.entity_kind.value,
    ]
}

/// A locator as plain values.
pub open spec fn locator_view(l: Locator) -> LocatorView {
    (l.kind, l.port, l.address@)
}

/// Locators as plain values.
pub open spec fn locators_view(v: Seq<Locator>) -> Seq<LocatorView> {
    v.map_values(|l: Locator| locator_view(l))
}

/// Texts as characters.
pub open spec fn texts_view(v: Seq<String>) -> Seq<Seq<char>> {
    v.map_values(|s: String| s@)
}

/// What discovery data holds, as plain values.
pub struct SdpView {
    pub domain_id: Option<u16>,
    pub domain_tag: Option<Seq<char>>,
    pub protocol_version: Option<ProtocolVersion>,
    pub guid: Option<Seq<u8>>,
    pub vendor_id: Option<Seq<u8>>,
    pub expects_inline_qos: Option<bool>,
    pub available_builtin_endpoint: Option<u32>,
    pub metarraffic_unicast_locator_list: Seq<LocatorView>,
    pub metarraffic_multicast_locator_list: Seq<LocatorView>,
    pub default_multicast_locator_list: Seq<LocatorView>,
    pub default_unicast_locator_list: Seq<LocatorView>,
    pub manual_liveliness_count: Option<i32>,
    pub lease_duration: Option<Duration>,
    pub remote_guid: Option<Seq<u8>>,
    pub unicast_locator_list: Seq<LocatorView>,
    pub multicast_locator_list: Seq<LocatorView>,
    pub data_max_size_serialized: Option<i32>,
    pub data_type_name: Option<Seq<char>>,
    pub topic_name: Option<Seq<char>>,
    pub durability: Option<Durability>,
    pub deadline: Option<Duration>,
    pub latency_budget: Option<Duration>,
    pub liveliness: Option<Liveliness>,
    pub reliability: Option<Reliability>,
    pub user_data: Option<Seq<u8>>,
    pub ownership: Option<Ownership>,
    pub destination_order: Option<DestinationOrder>,
    pub history: Option<History>,
    pub resource_limits: Option<ResourceLimits>,
    pub transport_priority: Option<i32>,
    pub time_based_filter: Option<Duration>,
    pub presentation: Option<Presentation>,
    pub partition: Option<Seq<Seq<char>>>,
    pub topic_data: Option<Seq<u8>>,
    pub group_data: Option<Seq<u8>>,
    pub durability_service: Option<DurabilityService>,
    pub lifespan: Option<Duration>,
    pub ownership_strength: Option<i32>,
}

/// What discovery data holds before any parameter is read: domain 0 and
/// nothing else.
pub open spec fn sdp_initial() -> SdpView {
    SdpView {
        domain_id: Some(0),
        domain_tag: None,
        protocol_version: None,
        guid: None,
        vendor_id: None,
        expects_inline_qos: None,
        available_builtin_endpoint: None,
        metarraffic_unicast_locator_list: Seq::empty(),
        metarraffic_multicast_locator_list: Seq::empty(),
        default_multicast_locator_list: Seq::empty(),
        default_unicast_locator_list: Seq::empty(),
        manual_liveliness_count: None,
        lease_duration: None,
        remote_guid: None,
        unicast_locator_list: Seq::empty(),
        multicast_locator_list: Seq::empty(),
        data_max_size_serialized: None,
        data_type_name: None,
        topic_name: None,
        durability: None,
        deadline: None,
        latency_budget: None,
        liveliness: None,
        reliability: None,
        user_data: None,
        ownership: None,
        destination_order: None,
        history: None,
        resource_limits: None,
        transport_priority: None,
        time_based_filter: None,
        presentation: None,
        partition: None,
        topic_data: None,
        group_data: None,
        durability_service: None,
        lifespan: None,
        ownership_strength: None,
    }
}

/// What one parameter sets: a later value of a field replaces an earlier
/// one, and each locator is added to its list.
pub open spec fn sdp_apply(v: SdpView, item: SdpItem) -> SdpView {
    match item {
        SdpItem::DomainId(x) => SdpView { domain_id: Some(x), ..v },
        SdpItem::DomainTag(x) => SdpView { domain_tag: Some(x), ..v },
        SdpItem::ProtocolVersion(x) => SdpView { protocol_version: Some(x), ..v },
        SdpItem::ParticipantGuid(x) => SdpView { guid: Some(x), ..v },
        SdpItem::VendorId(x) => SdpView { vendor_id: Some(x), ..v },
        SdpItem::ExpectsInlineQos(x) => SdpView { expects_inline_qos: Some(x), ..v },
        SdpItem::BuiltinEndpointSet(x) => SdpView { available_builtin_endpoint: Some(x), ..v },
        SdpItem::MetatrafficUnicastLocator(x) => SdpView {
            metarraffic_unicast_locator_list: v.metarraffic_unicast_locator_list.push(x),
            ..v
        },
        SdpItem::MetatrafficMulticastLocator(x) => SdpView {
            metarraffic_multicast_locator_list: v.metarraffic_multicast_locator_list.push(x),
            ..v
        },
        SdpItem::DefaultUnicastLocator(x) => SdpView {
            default_unicast_locator_list: v.default_unicast_locator_list.push(x),
            ..v
        },
        SdpItem::DefaultMulticastLocator(x) => SdpView {
            default_multicast_locator_list: v.default_multicast_locator_list.push(x),
            ..v
        },
        SdpItem::ManualLivelinessCount(x) => SdpView { manual_liveliness_count: Some(x), ..v },
        SdpItem::LeaseDuration(x) => SdpView { lease_duration: Some(x), ..v },
        SdpItem::EndpointGuid(x) => SdpView { remote_guid: Some(x), ..v },
        SdpItem::UnicastLocator(x) => SdpView {
            unicast_locator_list: v.unicast_locator_list.push(x),
            ..v
        },
        SdpItem::MulticastLocator(x) => SdpView {
            multicast_locator_list: v.multicast_locator_list.push(x),
            ..v
        },
        SdpItem::TypeMaxSizeSerialized(x) => SdpView { data_max_size_serialized: Some(x), ..v },
        SdpItem::TypeName(x) => SdpView { data_type_name: Some(x), ..v },
        SdpItem::TopicName(x) => SdpView { topic_name: Some(x), ..v },
        SdpItem::Durability(x) => SdpView { durability: Some(x), ..v },
        SdpItem::Deadline(x) => SdpView { deadline: Some(x), ..v },
        SdpItem::LatencyBudget(x) => SdpView { latency_budget: Some(x), ..v },
        SdpItem::Liveliness(x) => SdpView { liveliness: Some(x), ..v },
        SdpItem::Reliability(x) => SdpView { reliability: Some(x), ..v },
        SdpItem::UserData(x) => SdpView { user_data: Some(x), ..v },
        SdpItem::Ownership(x) => SdpView { ownership: Some(x), ..v },
        SdpItem::DestinationOrder(x) => SdpView { destination_order: Some(x), ..v },
        SdpItem::History(x) => SdpView { history: Some(x), ..v },
        SdpItem::ResourceLimits(x) => SdpView { resource_limits: Some(x), ..v },
        SdpItem::TransportPriority(x) => SdpView { transport_priority: Some(x), ..v },
        SdpItem::TimeBasedFilter(x) => SdpView { time_based_filter: Some(x), ..v },
        SdpItem::Presentation(x) => SdpView { presentation: Some(x), ..v },
        SdpItem::Partition(x) => SdpView { partition: Some(x), ..v },
        SdpItem::TopicData(x) => SdpView { topic_data: Some(x), ..v },
        SdpItem::GroupData(x) => SdpView { group_data: Some(x), ..v },
        SdpItem::DurabilityService(x) => SdpView { durability_service: Some(x), ..v },
        SdpItem::Lifespan(x) => SdpView { lifespan: Some(x), ..v },
        SdpItem::OwnershipStrength(x) => SdpView { ownership_strength: Some(x), ..v },
        SdpItem::Skipped => v,
    }
}

/// What a sequence of parameters sets, read in order from `v`.
pub open spec fn sdp_fold(v: SdpView, items: Seq<SdpItem>) -> SdpView
    decreases items.len(),
{
    if items.len() == 0 {
        v
    } else {
        sdp_apply(sdp_fold(v, items.drop_last()), items.last())
    }
}

/// Discovery data of a participant, a reader or a writer; each field is set
/// when its parameter was read.
pub struct SDPBuiltinData {
    pub domain_id: Option<u16>,
    pub domain_tag: Option<String>,
    pub protocol_version: Option<ProtocolVersion>,
    pub guid: Option<GUID>,
    pub vendor_id: Option<VendorId>,
    pub expects_inline_qos: Option<bool>,
    /// The set of built-in endpoints, as its bits.
    pub available_builtin_endpoint: Option<u32>,
    pub metarraffic_unicast_locator_list: Vec<Locator>,
    pub metarraffic_multicast_locator_list: Vec<Locator>,
    pub default_multicast_locator_list: Vec<Locator>,
    pub default_unicast_locator_list: Vec<Locator>,
    pub manual_liveliness_count: Option<i32>,
    pub lease_duration: Option<Duration>,
    pub remote_guid: Option<GUID>,
    pub unicast_locator_list: Vec<Locator>,
    pub multicast_locator_list: Vec<Locator>,
    pub data_max_size_serialized: Option<i32>,
    pub data_type_name: Option<String>,
    pub topic_name: Option<String>,
    pub key: Option<()>,
    pub publication_key: Option<()>,
    pub durability: Option<Durability>,
    pub deadline: Option<Deadline>,
    pub latency_budget: Option<LatencyBudget>,
    pub liveliness: Option<Liveliness>,
    pub reliability: Option<Reliability>,
    pub user_data: Option<UserData>,
    pub ownership: Option<Ownership>,
    pub destination_order: Option<DestinationOrder>,
    pub history: Option<History>,
    pub resource_limits: Option<ResourceLimits>,
    pub transport_priority: Option<TransportPriority>,
    pub time_based_filter: Option<TimeBasedFilter>,
    pub presentation: Option<Presentation>,
    pub partition: Option<Partition>,
    pub topic_data: Option<TopicData>,
    pub group_data: Option<GroupData>,
    pub durability_service: Option<DurabilityService>,
    pub lifespan: Option<Lifespan>,
    pub ownership_strength: Option<OwnershipStrength>,
}

pub open spec fn opt_text(o: Option<String>) -> Option<Seq<char>> {
    match o {
        Some(s) => Some(s@),
        None => None,
    }
}

pub open spec fn opt_guid(o: Option<GUID>) -> Option<Seq<u8>> {
    match o {
        Some(g) => Some(guid_octets(g)),
        None => None,
    }
}

impl SDPBuiltinData {
    /// The data as plain values.
    pub open spec fn view(&self) -> SdpView {
        SdpView {
            domain_id: self.domain_id,
            domain_tag: opt_text(self.domain_tag),
            protocol_version: self.protocol_version,
            guid: opt_guid(self.guid),
            vendor_id: match self.vendor_id {
                Some(v) => Some(v.vendor_id@),
                None => None,
            },
            expects_inline_qos: self.expects_inline_qos,
            available_builtin_endpoint: self.available_builtin_endpoint,
            metarraffic_unicast_locator_list: locators_view(self.metarraffic_unicast_locator_list@),
            metarraffic_multicast_locator_list: locators_view(
                self.metarraffic_multicast_locator_list@,
            ),
            default_multicast_locator_list: locators_view(self.default_multicast_locator_list@),
            default_unicast_locator_list: locators_view(self.default_unicast_locator_list@),
            manual_liveliness_count: self.manual_liveliness_count,
            lease_duration: self.lease_duration,
            remote_guid: opt_guid(self.remote_guid),
            unicast_locator_list: locators_view(self.unicast_locator_list@),
            multicast_locator_list: locators_view(self.multicast_locator_list@),
            data_max_size_serialized: self.data_max_size_serialized,
            data_type_name: opt_text(self.data_type_name),
            topic_name: opt_text(self.topic_name),
            durability: self.durability,
            deadline: match self.deadline {
                Some(d) => Some(d.period),
                None => None,
            },
            latency_budget: match self.latency_budget {
                Some(d) => Some(d.0),
                None => None,
            },
            liveliness: self.liveliness,
            reliability: self.reliability,
            user_data: match self.user_data {
                Some(d) => Some(d.value@),
                None => None,
            },
            ownership: self.ownership,
            destination_order: self.destination_order,
            history: self.history,
            resource_limits: self.resource_limits,
            transport_priority: match self.transport_priority {
                Some(t) => Some(t.value),
                None => None,
            },
            time_based_filter: match self.time_based_filter {
                Some(t) => Some(t.minimun_separation),
                None => None,
            },
            presentation: self.presentation,
            partition: match self.partition {
                Some(p) => Some(texts_view(p.name@)),
                None => None,
            },
            topic_data: match self.topic_data {
                Some(d) => Some(d.value@),
                None => None,
            },
            group_data: match self.group_data {
                Some(d) => Some(d.value@),
                None => None,
            },
            durability_service: self.durability_service,
            lifespan: match self.lifespan {
                Some(l) => Some(l.0),
                None => None,
            },
            ownership_strength: match self.ownership_strength {
                Some(o) => Some(o.0),
                None => None,
            },
        }
    }

    /// Discovery data before any parameter is read: domain 0 and nothing
    /// else.
    pub fn initial() -> (d: SDPBuiltinData)
        ensures
            d.view() == sdp_initial(),
            d.key is None,
            d.publication_key is None,
    {
        let d = SDPBuiltinData {
            domain_id: Some(0),
            domain_tag: None,
            protocol_version: None,
            guid: None,
            vendor_id: None,
            expects_inline_qos: None,
            available_builtin_endpoint: None,
            metarraffic_unicast_locator_list: Vec::new(),
            metarraffic_multicast_locator_list: Vec::new(),
            default_multicast_locator_list: Vec::new(),
            default_unicast_locator_list: Vec::new(),
            manual_liveliness_count: None,
            lease_duration: None,
            remote_guid: None,
            unicast_locator_list: Vec::new(),
            multicast_locator_list: Vec::new(),
            data_max_size_serialized: None,
            data_type_name: None,
            topic_name: None,
            key: None,
            publication_key: None,
            durability: None,
            deadline: None,
            latency_budget: None,
            liveliness: None,
            reliability: None,
            user_data: None,
            ownership: None,
            destination_order: None,
            history: None,
            resource_limits: None,
            transport_priority: None,
            time_based_filter: None,
            presentation: None,
            partition: None,
            topic_data: None,
            group_data: None,
            durability_service: None,
            lifespan: None,
            ownership_strength: None,
        };
        assert(locators_view(Seq::<Locator>::empty()) =~= Seq::<LocatorView>::empty());
        assert(d.view() == sdp_initial());
        d
    }
}

/// One parameter of discovery data, as read.
pub enum SdpParam {
    DomainId(u16),
    DomainTag(String),
    ProtocolVersion(ProtocolVersion),
    ParticipantGuid(GUID),
    VendorId(VendorId),
    ExpectsInlineQos(bool),
    BuiltinEndpointSet(u32),
    MetatrafficUnicastLocator(Locator),
    MetatrafficMulticastLocator(Locator),
    DefaultUnicastLocator(Locator),
    DefaultMulticastLocator(Locator),
    ManualLivelinessCount(i32),
    LeaseDuration(Duration),
    EndpointGuid(GUID),
    UnicastLocator(Locator),
    MulticastLocator(Locator),
    TypeMaxSizeSerialized(i32),
    TypeName(String),
    TopicName(String),
    Durability(Durability),
    Deadline(Duration),
    LatencyBudget(Duration),
    Liveliness(Liveliness),
    Reliability(Reliability),
    UserData(Vec<u8>),
    Ownership(Ownership),
    DestinationOrder(DestinationOrder),
    History(History),
    ResourceLimits(ResourceLimits),
    TransportPriority(i32),
    TimeBasedFilter(Duration),
    Presentation(Presentation),
    Partition(Vec<String>),
    TopicData(Vec<u8>),
    GroupData(Vec<u8>),
    DurabilityService(DurabilityService),
    Lifespan(Duration),
    OwnershipStrength(i32),
    Skipped,
}

/// A parameter as plain values.
pub open spec fn param_view(p: SdpParam) -> SdpItem {
    match p {
        SdpParam::DomainId(x) => SdpItem::DomainId(x),
        SdpParam::DomainTag(x) => SdpItem::DomainTag(x@),
        SdpParam::ProtocolVersion(x) => SdpItem::ProtocolVersion(x),
        SdpParam::ParticipantGuid(x) => SdpItem::ParticipantGuid(guid_octets(x)),
        SdpParam::VendorId(x) => SdpItem::VendorId(x.vendor_id@),
        SdpParam::ExpectsInlineQos(x) => SdpItem::ExpectsInlineQos(x),
        SdpParam::BuiltinEndpointSet(x) => SdpItem::BuiltinEndpointSet(x),
        SdpParam::MetatrafficUnicastLocator(x) => SdpItem::MetatrafficUnicastLocator(locator_view(x)),
        SdpParam::MetatrafficMulticastLocator(x) => SdpItem::MetatrafficMulticastLocator(
            locator_view(x),
        ),
        SdpParam::DefaultUnicastLocator(x) => SdpItem::DefaultUnicastLocator(locator_view(x)),
        SdpParam::DefaultMulticastLocator(x) => SdpItem::DefaultMulticastLocator(locator_view(x)),
        SdpParam::ManualLivelinessCount(x) => SdpItem::ManualLivelinessCount(x),
        SdpParam::LeaseDuration(x) => SdpItem::LeaseDuration(x),
        SdpParam::EndpointGuid(x) => SdpItem::EndpointGuid(guid_octets(x)),
        SdpParam::UnicastLocator(x) => SdpItem::UnicastLocator(locator_view(x)),
        SdpParam::MulticastLocator(x) => SdpItem::MulticastLocator(locator_view(x)),
        SdpParam::TypeMaxSizeSerialized(x) => SdpItem::TypeMaxSizeSerialized(x),
        SdpParam::TypeName(x) => SdpItem::TypeName(x@),
        SdpParam::TopicName(x) => SdpItem::TopicName(x@),
        SdpParam::Durability(x) => SdpItem::Durability(x),
        SdpParam::Deadline(x) => SdpItem::Deadline(x),
        SdpParam::LatencyBudget(x) => SdpItem::LatencyBudget(x),
        SdpParam::Liveliness(x) => SdpItem::Liveliness(x),
        SdpParam::Reliability(x) => SdpItem::Reliability(x),
        SdpParam::UserData(x) => SdpItem::UserData(x@),
        SdpParam::Ownership(x) => SdpItem::Ownership(x),
        SdpParam::DestinationOrder(x) => SdpItem::DestinationOrder(x),
        SdpParam::History(x) => SdpItem::History(x),
        SdpParam::ResourceLimits(x) => SdpItem::ResourceLimits(x),
        SdpParam::TransportPriority(x) => SdpItem::TransportPriority(x),
        SdpParam::TimeBasedFilter(x) => SdpItem::TimeBasedFilter(x),
        SdpParam::Presentation(x) => SdpItem::Presentation(x),
        SdpParam::Partition(x) => SdpItem::Partition(texts_view(x@)),
        SdpParam::TopicData(x) => SdpItem::TopicData(x@),
        SdpParam::GroupData(x) => SdpItem::GroupData(x@),
        SdpParam::DurabilityService(x) => SdpItem::DurabilityService(x),
        SdpParam::Lifespan(x) => SdpItem::Lifespan(x),
        SdpParam::OwnershipStrength(x) => SdpItem::OwnershipStrength(x),
        SdpParam::Skipped => SdpItem::Skipped,
    }
}

impl SDPBuiltinData {
    /// Sets what one parameter carries; see `sdp_apply`.
    pub fn apply_param(&mut self, p: SdpParam)
        ensures
            final(self).view() == sdp_apply(old(self).view(), param_view(p)),
            final(self).key == old(self).key,
            final(self).publication_key == old(self).publication_key,
    {
        let ghost pv = param_view(p);
        match p {
            SdpParam::DomainId(x) => self.domain_id = Some(x),
            SdpParam::DomainTag(x) => self.domain_tag = Some(x),
            SdpParam::ProtocolVersion(x) => self.protocol_version = Some(x),
            SdpParam::ParticipantGuid(x) => self.guid = Some(x),
            SdpParam::VendorId(x) => self.vendor_id = Some(x),
            SdpParam::ExpectsInlineQos(x) => self.expects_inline_qos = Some(x),
            SdpParam::BuiltinEndpointSet(x) => self.available_builtin_endpoint = Some(x),
            SdpParam::MetatrafficUnicastLocator(x) => {
                let ghost before = self.metarraffic_unicast_locator_list@;
                self.metarraffic_unicast_locator_list.push(x);
                proof {
                    assert(locators_view(self.metarraffic_unicast_locator_list@) =~= locators_view(before).push(locator_view(x)));
                }
            },
            SdpParam::MetatrafficMulticastLocator(x) => {
                let ghost before = self.metarraffic_multicast_locator_list@;
                self.metarraffic_multicast_locator_list.push(x);
                proof {
                    assert(locators_view(self.metarraffic_multicast_locator_list@) =~= locators_view(before).push(locator_view(x)));
                }
            },
            SdpParam::DefaultUnicastLocator(x) => {
                let ghost before = self.default_unicast_locator_list@;
                self.default_unicast_locator_list.push(x);
                proof {
                    assert(locators_view(self.default_unicast_locator_list@) =~= locators_view(before).push(locator_view(x)));
                }
            },
            SdpParam::DefaultMulticastLocator(x) => {
                let ghost before = self.default_multicast_locator_list@;
                self.default_multicast_locator_list.push(x);
                proof {
                    assert(locators_view(self.default_multicast_locator_list@) =~= locators_view(before).push(locator_view(x)));
                }
            },
            SdpParam::ManualLivelinessCount(x) => self.manual_liveliness_count = Some(x),
            SdpParam::LeaseDuration(x) => self.lease_duration = Some(x),
            SdpParam::EndpointGuid(x) => self.remote_guid = Some(x),
            SdpParam::UnicastLocator(x) => {
                let ghost before = self.unicast_locator_list@;
                self.unicast_locator_list.push(x);
                proof {
                    assert(locators_view(self.unicast_locator_list@) =~= locators_view(before).push(locator_view(x)));
                }
            },
            SdpParam::MulticastLocator(x) => {
                let ghost before = self.multicast_locator_list@;
                self.multicast_locator_list.push(x);
                proof {
                    assert(locators_view(self.multicast_locator_list@) =~= locators_view(before).push(locator_view(x)));
                }
            },
            SdpParam::TypeMaxSizeSerialized(x) => self.data_max_size_serialized = Some(x),
            SdpParam::TypeName(x) => self.data_type_name = Some(x),
            SdpParam::TopicName(x) => self.topic_name = Some(x),
            SdpParam::Durability(x) => self.durability = Some(x),
            SdpParam::Deadline(x) => self.deadline = Some(Deadline { period: x }),
            SdpParam::LatencyBudget(x) => self.latency_budget = Some(LatencyBudget(x)),
            SdpParam::Liveliness(x) => self.liveliness = Some(x),
            SdpParam::Reliability(x) => self.reliability = Some(x),
            SdpParam::UserData(x) => self.user_data = Some(UserData { value: x }),
            SdpParam::Ownership(x) => self.ownership = Some(x),
            SdpParam::DestinationOrder(x) => self.destination_order = Some(x),
            SdpParam::History(x) => self.history = Some(x),
            SdpParam::ResourceLimits(x) => self.resource_limits = Some(x),
            SdpParam::TransportPriority(x) => self.transport_priority = Some(
                TransportPriority { value: x },
            ),
            SdpParam::TimeBasedFilter(x) => self.time_based_filter = Some(
                TimeBasedFilter { minimun_separation: x },
            ),
            SdpParam::Presentation(x) => self.presentation = Some(x),
            SdpParam::Partition(x) => self.partition = Some(Partition { name: x }),
            SdpParam::TopicData(x) => self.topic_data = Some(TopicData { value: x }),
            SdpParam::GroupData(x) => self.group_data = Some(GroupData { value: x }),
            SdpParam::DurabilityService(x) => self.durability_service = Some(x),
            SdpParam::Lifespan(x) => self.lifespan = Some(Lifespan(x)),
            SdpParam::OwnershipStrength(x) => self.ownership_strength = Some(OwnershipStrength(x)),
            SdpParam::Skipped => {},
        }
        assert(self.view() == sdp_apply(old(self).view(), pv));
    }
}

/// Why discovery data could not be read.
#[derive(Clone, Copy, Debug, PartialEq, Eq, Structural)]
pub enum ReadError {
    /// The octets end too soon, or a value in them is not one of the values
    /// its parameter allows.
    Malformed,
}

impl SDPBuiltinData {
    /// Reads discovery data from a parameter list that starts at the first
    /// octet of `buf`, up to its sentinel: every parameter sets what
    /// `sdp_apply` says, in order. Tells where the sentinel ends, that the
    /// octets are malformed, or that reading aborts.
    pub fn parse(buf: &[u8], e: Endianness) -> (r: Read<SDPBuiltinData>)
        ensures
            match sdp_items(e, buf@, 0) {
                Outcome::Done(items, q) => r matches Read::Done(d, p) && p == q && d.view()
                    == sdp_fold(sdp_initial(), items) && d.key is None && d.publication_key is None,
                Outcome::Malformed => r is Malformed,
                Outcome::Aborts => r is Aborts,
            },
    {
        let mut d = SDPBuiltinData::initial();
        let mut pos: usize = 0;
        let ghost mut done: Seq<SdpItem> = Seq::empty();
        proof {
            match sdp_items(e, buf@, 0) {
                Outcome::Done(rest, q) => {
                    assert(done + rest =~= rest);
                },
                _ => {},
            }
        }
        loop
            invariant
                pos <= buf@.len(),
                d.view() == sdp_fold(sdp_initial(), done),
                d.key is None,
                d.publication_key is None,
                sdp_items(e, buf@, 0) == prepend(done, sdp_items(e, buf@, pos as int)),
            decreases buf@.len() - pos,
        {
            match read_step(buf, pos, e) {
                Read::Done(Some(p), q) => {
                    let ghost item = param_view(p);
                    d.apply_param(p);
                    proof {
                        let tail = sdp_items(e, buf@, q as int);
                        assert(sdp_items(e, buf@, pos as int) == prepend(seq![item], tail));
                        match tail {
                            Outcome::Done(rest, q2) => {
                                assert(done + (seq![item] + rest) =~= done.push(item) + rest);
                            },
                            _ => {},
                        }
                        assert(done.push(item).drop_last() =~= done);
                        done = done.push(item);
                    }
                    pos = q;
                },
                Read::Done(None, q) => {
                    proof {
                        assert(done + Seq::<SdpItem>::empty() =~= done);
                    }
                    return Read::Done(d, q);
                },
                Read::Malformed => {
                    return Read::Malformed;
                },
                Read::Aborts => {
                    return Read::Aborts;
                },
            }
        }
    }

    /// Reads discovery data; see `parse`. Reading must not abort there.
    pub fn read_from(buf: &[u8], e: Endianness) -> (r: Result<SDPBuiltinData, ReadError>)
        requires
            !(sdp_items(e, buf@, 0) is Aborts),
        ensures
            match sdp_items(e, buf@, 0) {
                Outcome::Done(items, _) => r matches Ok(d) && d.view() == sdp_fold(
                    sdp_initial(),
                    items,
                ) && d.key is None && d.publication_key is None,
                _ => r == Err::<SDPBuiltinData, ReadError>(ReadError::Malformed),
            },
    {
        match Self::parse(buf, e) {
            Read::Done(d, _) => Ok(d),
            _ => Err(ReadError::Malformed),
        }
    }
}

/// What a participant announces of itself.
pub struct SPDPdiscoveredParticipantData {
    pub domain_id: u16,
    pub _domain_tag: String,
    pub protocol_version: ProtocolVersion,
    pub guid: GUID,
    pub vendor_id: VendorId,
    pub expects_inline_qos: bool,
    /// The set of built-in endpoints, as its bits.
    pub available_builtin_endpoint: u32,
    pub metarraffic_unicast_locator_list: Vec<Locator>,
    pub metarraffic_multicast_locator_list: Vec<Locator>,
    pub default_multicast_locator_list: Vec<Locator>,
    pub default_unicast_locator_list: Vec<Locator>,
    pub manual_liveliness_count: Option<i32>,
    pub lease_duration: Duration,
}

impl SPDPdiscoveredParticipantData {
    pub fn new(
        domain_id: u16,
        _domain_tag: String,
        protocol_version: ProtocolVersion,
        guid: GUID,
        vendor_id: VendorId,
        expects_inline_qos: bool,
        available_builtin_endpoint: u32,
        metarraffic_unicast_locator_list: Vec<Locator>,
        metarraffic_multicast_locator_list: Vec<Locator>,
        default_unicast_locator_list: Vec<Locator>,
        default_multicast_locator_list: Vec<Locator>,
        manual_liveliness_count: Option<i32>,
        lease_duration: Duration,
    ) -> (d: SPDPdiscoveredParticipantData)
        ensures
            d == (SPDPdiscoveredParticipantData {
                domain_id,
                _domain_tag,
                protocol_version,
                guid,
                vendor_id,
                expects_inline_qos,
                available_builtin_endpoint,
                metarraffic_unicast_locator_list,
                metarraffic_multicast_locator_list,
                default_multicast_locator_list,
                default_unicast_locator_list,
                manual_liveliness_count,
                lease_duration,
            }),
    {
        SPDPdiscoveredParticipantData {
            domain_id,
            _domain_tag,
            protocol_version,
            guid,
            vendor_id,
            expects_inline_qos,
            available_builtin_endpoint,
            metarraffic_unicast_locator_list,
            metarraffic_multicast_locator_list,
            default_multicast_locator_list,
            default_unicast_locator_list,
            manual_liveliness_count,
            lease_duration,
        }
    }
}

/// The value of an option, or `d`.
pub open spec fn or_else<T>(o: Option<T>, d: T) -> T {
    match o {
        Some(x) => x,
        None => d,
    }
}

/// A copy of some locators.
pub fn copy_locators(v: &Vec<Locator>) -> (r: Vec<Locator>)
    ensures
        r@ == v@,
{
    let mut r: Vec<Locator> = Vec::new();
    let mut i: usize = 0;
    while i < v.len()
        invariant
            0 <= i <= v@.len(),
            r@ == v@.subrange(0, i as int),
        decreases v@.len() - i,
    {
        r.push(v[i]);
        i = i + 1;
        assert(r@ =~= v@.subrange(0, i as int));
    }
    assert(r@ =~= v@);
    r
}

impl SDPBuiltinData {
    /// The participant record, when the data has a domain, a protocol
    /// version, a GUID, a vendor and the built-in endpoint set. The domain
    /// tag and the protocol version are taken out of the data (once a domain
    /// is there); inline QoS defaults to false and the lease to 100 seconds.
    pub fn gen_spdp_discoverd_participant_data(&mut self) -> (r: Option<SPDPdiscoveredParticipantData>)
        ensures
            old(self).domain_id is None ==> r is None && *final(self) == *old(self),
            old(self).domain_id is Some ==> {
                &&& final(self).domain_tag is None
                &&& final(self).protocol_version is None
                &&& final(self).guid == old(self).guid
                &&& final(self).vendor_id == old(self).vendor_id
                &&& final(self).available_builtin_endpoint == old(self).available_builtin_endpoint
                &&& final(self).domain_id == old(self).domain_id
            },
            r is Some <==> (old(self).domain_id is Some && old(self).protocol_version is Some
                && old(self).guid is Some && old(self).vendor_id is Some
                && old(self).available_builtin_endpoint is Some),
            r matches Some(d) ==> {
                &&& Some(d.domain_id) == old(self).domain_id
                &&& d._domain_tag@ == or_else(opt_text(old(self).domain_tag), Seq::empty())
                &&& Some(d.protocol_version) == old(self).protocol_version
                &&& Some(d.guid) == old(self).guid
                &&& Some(d.vendor_id) == old(self).vendor_id
                &&& d.expects_inline_qos == or_else(old(self).expects_inline_qos, false)
                &&& Some(d.available_builtin_endpoint) == old(self).available_builtin_endpoint
                &&& d.metarraffic_unicast_locator_list@ == old(self).metarraffic_unicast_locator_list@
                &&& d.metarraffic_multicast_locator_list@
                    == old(self).metarraffic_multicast_locator_list@
                &&& d.default_unicast_locator_list@ == old(self).default_unicast_locator_list@
                &&& d.default_multicast_locator_list@ == old(self).default_multicast_locator_list@
                &&& d.manual_liveliness_count == old(self).manual_liveliness_count
                &&& d.lease_duration == or_else(
                    old(self).lease_duration,
                    Duration { seconds: 100, fraction: 0 },
                )
            },
    {
        let domain_id = match self.domain_id {
            Some(x) => x,
            None => return None,
        };
        let domain_tag = match self.domain_tag.take() {
            Some(t) => t,
            None => String::new(),
        };
        let protocol_version = match self.protocol_version.take() {
            Some(x) => x,
            None => return None,
        };
        let guid = match self.guid {
            Some(x) => x,
            None => return None,
        };
        let vendor_id = match self.vendor_id {
            Some(x) => x,
            None => return None,
        };
        let expects_inline_qos = match self.expects_inline_qos {
            Some(x) => x,
            None => false,
        };
        let available_builtin_endpoint = match self.available_builtin_endpoint {
            Some(x) => x,
            None => return None,
        };
        let lease_duration = match self.lease_duration {
            Some(x) => x,
            None => Duration { seconds: 100, fraction: 0 },
        };
        Some(
            SPDPdiscoveredParticipantData {
                domain_id,
                _domain_tag: domain_tag,
                protocol_version,
                guid,
                vendor_id,
                expects_inline_qos,
                available_builtin_endpoint,
                metarraffic_unicast_locator_list: copy_locators(&self.metarraffic_unicast_locator_list),
                metarraffic_multicast_locator_list: copy_locators(
                    &self.metarraffic_multicast_locator_list,
                ),
                default_multicast_locator_list: copy_locators(&self.default_multicast_locator_list),
                default_unicast_locator_list: copy_locators(&self.default_unicast_locator_list),
                manual_liveliness_count: self.manual_liveliness_count,
                lease_duration,
            },
        )
    }

    /// The topic name and the type name, when both are there.
    pub fn topic_info(&self) -> (r: Option<(&String, &String)>)
        ensures
            r is Some <==> (self.topic_name is Some && self.data_type_name is Some),
            r matches Some((n, t)) ==> Some(*n) == self.topic_name && Some(*t) == self.data_type_name,
    {
        let name = match &self.topic_name {
            Some(n) => n,
            None => return None,
        };
        let data_type = match &self.data_type_name {
            Some(t) => t,
            None => return None,
        };
        Some((name, data_type))
    }
}

impl SDPBuiltinData {
    /// A proxy for the remote reader these data announce, when they name
    /// its GUID: its locators, inline QoS (false when absent), and its QoS
    /// with every policy set explicitly (the default where absent; best
    /// effort reliability). States start in push mode from the writer's
    /// cache. At least one locator list must be given.
    #[verifier::spinoff_prover]
    #[verifier::rlimit(40)]
    pub fn gen_readerpoxy(
        &mut self,
        history_cache: &HistoryCache,
        default_unicast_locator_list: Vec<Locator>,
        default_multicast_locator_list: Vec<Locator>,
    ) -> (r: Option<ReaderProxy>)
        requires
            history_cache.wf(),
            old(self).remote_guid is Some ==> has_locator(
                old(self).unicast_locator_list@,
                old(self).multicast_locator_list@,
                default_unicast_locator_list@,
                default_multicast_locator_list@,
            ),
        ensures
            *final(self) == *old(self),
            r is Some <==> old(self).remote_guid is Some,
            r matches Some(rp) ==> {
                &&& Some(rp.remote_reader_guid) == old(self).remote_guid
                &&& rp.expects_inline_qos == or_else(old(self).expects_inline_qos, false)
                &&& rp.unicast_locator_list@ == old(self).unicast_locator_list@
                &&& rp.multicast_locator_list@ == old(self).multicast_locator_list@
                &&& rp.default_unicast_locator_list == default_unicast_locator_list
                &&& rp.default_multicast_locator_list == default_multicast_locator_list
                &&& rp.qos.durability == (or_else(old(self).durability, Durability::Volatile), true)
                &&& rp.qos.deadline == (or_else(old(self).deadline, Deadline { period: Duration::spec_infinite() }), true)
                &&& rp.qos.latency_budget == (or_else(old(self).latency_budget, LatencyBudget(Duration { seconds: 0, fraction: 0 })), true)
                &&& rp.qos.liveliness == (or_else(old(self).liveliness, Liveliness::spec_default()), true)
                &&& rp.qos.reliability == (or_else(old(self).reliability, Reliability::spec_default_besteffort()), true)
                &&& rp.qos.destination_order == (or_else(old(self).destination_order, DestinationOrder::ByReceptionTimestamp), true)
                &&& rp.qos.history == (or_else(old(self).history, History::spec_default()), true)
                &&& rp.qos.resource_limits == (or_else(old(self).resource_limits, ResourceLimits::spec_default()), true)
                &&& rp.qos.user_data.1
                &&& rp.qos.user_data.0.value@ == match old(self).user_data {
                    Some(u) => u.value@,
                    None => Seq::empty(),
                }
                &&& rp.qos.ownership == (or_else(old(self).ownership, Ownership::Shared), true)
                &&& rp.qos.time_based_filter == (or_else(old(self).time_based_filter, TimeBasedFilter { minimun_separation: Duration { seconds: 0, fraction: 0 } }), true)
                &&& rp.qos.reader_data_lifecycle.1 == false
            },
    {
        let remote_guid = match self.remote_guid {
            Some(g) => g,
            None => return None,
        };
        let expects_inline_qos = match self.expects_inline_qos {
            Some(x) => x,
            None => false,
        };
        let qos = DataReaderQosBuilder::new()
            .durability(match self.durability { Some(x) => x, None => Durability::default() })
            .deadline(match self.deadline { Some(x) => x, None => Deadline::default() })
            .latency_budget(match self.latency_budget { Some(x) => x, None => LatencyBudget::default() })
            .liveliness(match self.liveliness { Some(x) => x, None => Liveliness::default() })
            .reliability(match self.reliability { Some(x) => x, None => Reliability::default_besteffort() })
            .destination_order(match self.destination_order { Some(x) => x, None => DestinationOrder::default() })
            .history(match self.history { Some(x) => x, None => History::default() })
            .resource_limits(match self.resource_limits { Some(x) => x, None => ResourceLimits::default() })
            .user_data(match &self.user_data { Some(u) => u.clone(), None => UserData::default() })
            .ownership(match self.ownership { Some(x) => x, None => Ownership::default() })
            .time_based_filter(match self.time_based_filter { Some(x) => x, None => TimeBasedFilter::default() })
            .build();
        Some(
            ReaderProxy::new(
                remote_guid,
                expects_inline_qos,
                copy_locators(&self.unicast_locator_list),
                copy_locators(&self.multicast_locator_list),
                default_unicast_locator_list,
                default_multicast_locator_list,
                qos,
                history_cache,
                true,
            ),
        )
    }

    /// A proxy for the remote writer these data announce, when they name its
    /// GUID: its locators, its largest serialized size (0 when absent), and
    /// its QoS with every policy set explicitly (the default where absent;
    /// reliable reliability). At least one locator list must be given.
    #[verifier::spinoff_prover]
    #[verifier::rlimit(40)]
    pub fn gen_writerproxy(
        &mut self,
        default_unicast_locator_list: Vec<Locator>,
        default_multicast_locator_list: Vec<Locator>,
    ) -> (r: Option<WriterProxy>)
        requires
            old(self).remote_guid is Some ==> has_locator(
                old(self).unicast_locator_list@,
                old(self).multicast_locator_list@,
                default_unicast_locator_list@,
                default_multicast_locator_list@,
            ),
        ensures
            *final(self) == *old(self),
            r is Some <==> old(self).remote_guid is Some,
            r matches Some(wp) ==> {
                &&& Some(wp.remote_writer_guid) == old(self).remote_guid
                &&& wp.unicast_locator_list@ == old(self).unicast_locator_list@
                &&& wp.multicast_locator_list@ == old(self).multicast_locator_list@
                &&& wp.default_unicast_locator_list == default_unicast_locator_list
                &&& wp.default_multicast_locator_list == default_multicast_locator_list
                &&& wp.data_max_size_serialized == or_else(old(self).data_max_size_serialized, 0)
                &&& wp.cache_state@.len() == 0
                &&& wp.qos.durability == (or_else(old(self).durability, Durability::Volatile), true)
                &&& wp.qos.durability_service == (or_else(old(self).durability_service, DurabilityService::spec_default()), true)
                &&& wp.qos.deadline == (or_else(old(self).deadline, Deadline { period: Duration::spec_infinite() }), true)
                &&& wp.qos.latency_budget == (or_else(old(self).latency_budget, LatencyBudget(Duration { seconds: 0, fraction: 0 })), true)
                &&& wp.qos.liveliness == (or_else(old(self).liveliness, Liveliness::spec_default()), true)
                &&& wp.qos.reliability == (or_else(old(self).reliability, Reliability::spec_default_reliable()), true)
                &&& wp.qos.destination_order == (or_else(old(self).destination_order, DestinationOrder::ByReceptionTimestamp), true)
                &&& wp.qos.history == (or_else(old(self).history, History::spec_default()), true)
                &&& wp.qos.resource_limits == (or_else(old(self).resource_limits, ResourceLimits::spec_default()), true)
                &&& wp.qos.transport_priority == (or_else(old(self).transport_priority, TransportPriority { value: 0 }), true)
                &&& wp.qos.user_data.1
                &&& wp.qos.user_data.0.value@ == match old(self).user_data {
                    Some(u) => u.value@,
                    None => Seq::empty(),
                }
                &&& wp.qos.ownership == (or_else(old(self).ownership, Ownership::Shared), true)
                &&& wp.qos.ownership_strength == (or_else(old(self).ownership_strength, OwnershipStrength(0)), true)
                &&& wp.qos.lifespan == (or_else(old(self).lifespan, Lifespan(Duration::spec_infinite())), true)
                &&& wp.qos.writer_data_lifecycle.1 == false
            },
    {
        let remote_guid = match self.remote_guid {
            Some(g) => g,
            None => return None,
        };
        let data_max_size_serialized = match self.data_max_size_serialized {
            Some(x) => x,
            None => 0,
        };
        let qos = DataWriterQosBuilder::new()
            .durability(match self.durability { Some(x) => x, None => Durability::default() })
            .durability_service(match self.durability_service { Some(x) => x, None => DurabilityService::default() })
            .deadline(match self.deadline { Some(x) => x, None => Deadline::default() })
            .latency_budget(match self.latency_budget { Some(x) => x, None => LatencyBudget::default() })
            .liveliness(match self.liveliness { Some(x) => x, None => Liveliness::default() })
            .reliability(match self.reliability { Some(x) => x, None => Reliability::default_reliable() })
            .destination_order(match self.destination_order { Some(x) => x, None => DestinationOrder::default() })
            .history(match self.history { Some(x) => x, None => History::default() })
            .resource_limits(match self.resource_limits { Some(x) => x, None => ResourceLimits::default() })
            .transport_priority(match self.transport_priority { Some(x) => x, None => TransportPriority::default() })
            .user_data(match &self.user_data { Some(u) => u.clone(), None => UserData::default() })
            .ownership(match self.ownership { Some(x) => x, None => Ownership::default() })
            .ownership_strength(match self.ownership_strength { Some(x) => x, None => OwnershipStrength::default() })
            .lifespan(match self.lifespan { Some(x) => x, None => Lifespan::default() })
            .build();
        Some(
            WriterProxy::new(
                remote_guid,
                copy_locators(&self.unicast_locator_list),
                copy_locators(&self.multicast_locator_list),
                default_unicast_locator_list,
                default_multicast_locator_list,
                data_max_size_serialized,
                qos,
            ),
        )
    }
}

/// The head of a parameter: its identifier and its length.
pub open spec fn param_head(e: Endianness, pid: u16, len: u16) -> Seq<u8> {
    u16_bytes(e, pid) + u16_bytes(e, len)
}

/// The octets of a locator: kind, port, address.
pub open spec fn locator_bytes(e: Endianness, l: Locator) -> Seq<u8> {
    i32_bytes(e, l.kind) + u32_bytes(e, l.port) + l.address@
}

/// One parameter `pid` for each locator, in order.
pub open spec fn locator_params(e: Endianness, pid: u16, ls: Seq<Locator>) -> Seq<u8>
    decreases ls.len(),
{
    if ls.len() == 0 {
        Seq::empty()
    } else {
        locator_params(e, pid, ls.drop_last()) + param_head(e, pid, 24) + locator_bytes(e, ls.last())
    }
}

/// The parameter list a participant announces: domain (as 32 bits),
/// protocol version, vendor, inline QoS flag, GUID, its four locator lists,
/// the built-in endpoint set, the lease, the manual liveliness count when
/// there is one, and the sentinel.
pub open spec fn spdp_bytes(e: Endianness, d: SPDPdiscoveredParticipantData) -> Seq<u8> {
    spdp_head_bytes(e, d) + spdp_locator_bytes(e, d) + spdp_tail_bytes(e, d)
}

/// The first parameters a participant announces: domain, protocol version,
/// vendor, inline QoS flag, GUID.
pub open spec fn spdp_head_bytes(e: Endianness, d: SPDPdiscoveredParticipantData) -> Seq<u8> {
    param_head(e, PID_DOMAIN_ID, 4) + u32_bytes(e, d.domain_id as u32)
        + (param_head(e, PID_PROTOCOL_VERSION, 4) + seq![d.protocol_version.major, d.protocol_version.minor]
        + u16_bytes(e, 0))
        + (param_head(e, PID_VENDOR_ID, 4) + d.vendor_id.vendor_id@ + u16_bytes(e, 0))
        + (param_head(e, PID_EXPECTS_INLINE_QOS, 4) + seq![if d.expects_inline_qos { 1u8 } else { 0u8 }, 0u8, 0u8, 0u8])
        + (param_head(e, PID_PARTICIPANT_GUID, 16) + guid_octets(d.guid))
}

/// The locator parameters a participant announces.
pub open spec fn spdp_locator_bytes(e: Endianness, d: SPDPdiscoveredParticipantData) -> Seq<u8> {
    locator_params(e, PID_METATRAFFIC_UNICAST_LOCATOR, d.metarraffic_unicast_locator_list@)
        + locator_params(e, PID_METATRAFFIC_MULTICAST_LOCATOR, d.metarraffic_multicast_locator_list@)
        + locator_params(e, PID_DEFAULT_UNICAST_LOCATOR, d.default_unicast_locator_list@)
        + locator_params(e, PID_DEFAULT_MULTICAST_LOCATOR, d.default_multicast_locator_list@)
}

/// The last parameters a participant announces: built-in endpoints, lease,
/// manual liveliness count, sentinel.
pub open spec fn spdp_tail_bytes(e: Endianness, d: SPDPdiscoveredParticipantData) -> Seq<u8> {
    (param_head(e, PID_BUILTIN_ENDPOINT_SET, 4) + u32_bytes(e, d.available_builtin_endpoint))
        + (param_head(e, PID_PARTICIPANT_LEASE_DURATION, 8) + duration_bytes(e, d.lease_duration))
        + match d.manual_liveliness_count {
            Some(c) => param_head(e, PID_PARTICIPANT_MANUAL_LIVELINESS_COUNT, 4) + i32_bytes(e, c),
            None => Seq::empty(),
        }
        + param_head(e, PID_SENTINEL, 0)
}

pub(crate) fn put_head(buf: &mut Vec<u8>, e: Endianness, pid: u16, len: u16)
    ensures
        final(buf)@ == old(buf)@ + param_head(e, pid, len),
{
    put_u16(buf, e, pid);
    put_u16(buf, e, len);
    assert(buf@ =~= old(buf)@ + param_head(e, pid, len));
}

pub(crate) fn put_locator_params(buf: &mut Vec<u8>, e: Endianness, pid: u16, ls: &Vec<Locator>)
    ensures
        final(buf)@ == old(buf)@ + locator_params(e, pid, ls@),
{
    let mut i: usize = 0;
    proof {
        assert(ls@.take(0) =~= Seq::<Locator>::empty());
        assert(buf@ =~= old(buf)@ + locator_params(e, pid, ls@.take(0)));
    }
    while i < ls.len()
        invariant
            0 <= i <= ls@.len(),
            buf@ == old(buf)@ + locator_params(e, pid, ls@.take(i as int)),
        decreases ls@.len() - i,
    {
        let l = ls[i];
        put_head(buf, e, pid, 24);
        put_i32(buf, e, l.kind);
        put_u32(buf, e, l.port);
        put_bytes(buf, &l.address);
        proof {
            assert(ls@.take(i + 1).drop_last() =~= ls@.take(i as int));
            assert(ls@.take(i + 1).last() == l);
            assert(buf@ =~= old(buf)@ + locator_params(e, pid, ls@.take(i + 1)));
        }
        i = i + 1;
    }
    proof {
        assert(ls@.take(i as int) =~= ls@);
    }
}

/// Appends a parameter of two octets and two octets of padding.
fn put_two_octets_param(buf: &mut Vec<u8>, e: Endianness, pid: u16, a: u8, b: u8)
    ensures
        final(buf)@ == old(buf)@ + (param_head(e, pid, 4) + seq![a, b] + u16_bytes(e, 0)),
{
    let ghost start = buf@;
    put_head(buf, e, pid, 4);
    put_u8(buf, a);
    put_u8(buf, b);
    put_u16(buf, e, 0);
    assert(buf@ =~= start + (param_head(e, pid, 4) + seq![a, b] + u16_bytes(e, 0)));
}

/// Appends a parameter holding a flag octet and three octets of padding.
pub(crate) fn put_flag_param(buf: &mut Vec<u8>, e: Endianness, pid: u16, flag: bool)
    ensures
        final(buf)@ == old(buf)@ + (param_head(e, pid, 4) + seq![if flag { 1u8 } else { 0u8 }, 0u8, 0u8, 0u8]),
{
    let ghost start = buf@;
    put_head(buf, e, pid, 4);
    put_u8(buf, if flag { 1 } else { 0 });
    put_u8(buf, 0);
    put_u8(buf, 0);
    put_u8(buf, 0);
    assert(buf@ =~= start + (param_head(e, pid, 4) + seq![if flag { 1u8 } else { 0u8 }, 0u8, 0u8, 0u8]));
}

/// Appends a parameter holding the sixteen octets of a GUID.
pub(crate) fn put_guid_param(buf: &mut Vec<u8>, e: Endianness, pid: u16, g: GUID)
    ensures
        final(buf)@ == old(buf)@ + (param_head(e, pid, 16) + guid_octets(g)),
{
    let ghost start = buf@;
    put_head(buf, e, pid, 16);
    put_bytes(buf, &g.guid_prefix.guid_prefix);
    put_u8(buf, g.entity_id.key0);
    put_u8(buf, g.entity_id.key1);
    put_u8(buf, g.entity_id.key2);
    put_u8(buf, g.entity_id.entity_kind.value);
    assert(buf@ =~= start + (param_head(e, pid, 16) + guid_octets(g)));
}

impl SPDPdiscoveredParticipantData {
    fn write_head(&self, buf: &mut Vec<u8>, e: Endianness)
        ensures
            final(buf)@ == old(buf)@ + spdp_head_bytes(e, *self),
    {
        let ghost start = buf@;
        put_head(buf, e, PID_DOMAIN_ID, 4);
        put_u32(buf, e, self.domain_id as u32);
        let ghost s1 = buf@;
        put_two_octets_param(buf, e, PID_PROTOCOL_VERSION, self.protocol_version.major, self.protocol_version.minor);
        let ghost s2 = buf@;
        put_two_octets_param(buf, e, PID_VENDOR_ID, self.vendor_id.vendor_id[0], self.vendor_id.vendor_id[1]);
        assert(self.vendor_id.vendor_id@ =~= seq![self.vendor_id.vendor_id[0], self.vendor_id.vendor_id[1]]);
        let ghost s3 = buf@;
        put_flag_param(buf, e, PID_EXPECTS_INLINE_QOS, self.expects_inline_qos);
        let ghost s4 = buf@;
        put_guid_param(buf, e, PID_PARTICIPANT_GUID, self.guid);
        assert(buf@ =~= start + spdp_head_bytes(e, *self));
    }

    fn write_tail(&self, buf: &mut Vec<u8>, e: Endianness)
        ensures
            final(buf)@ == old(buf)@ + spdp_tail_bytes(e, *self),
    {
        let ghost start = buf@;
        put_head(buf, e, PID_BUILTIN_ENDPOINT_SET, 4);
        put_u32(buf, e, self.available_builtin_endpoint);
        let ghost s1 = buf@;
        put_head(buf, e, PID_PARTICIPANT_LEASE_DURATION, 8);
        put_i32(buf, e, self.lease_duration.seconds);
        put_u32(buf, e, self.lease_duration.fraction);
        assert(buf@ =~= s1 + (param_head(e, PID_PARTICIPANT_LEASE_DURATION, 8) + duration_bytes(e, self.lease_duration)));
        let ghost s2 = buf@;
        match self.manual_liveliness_count {
            Some(c) => {
                put_head(buf, e, PID_PARTICIPANT_MANUAL_LIVELINESS_COUNT, 4);
                put_i32(buf, e, c);
            },
            None => {
                assert(buf@ =~= s2 + Seq::<u8>::empty());
            },
        }
        let ghost s3 = buf@;
        put_head(buf, e, PID_SENTINEL, 0);
        assert(buf@ =~= start + spdp_tail_bytes(e, *self));
    }

    /// Appends the parameter list of `spdp_bytes`.
    #[verifier::spinoff_prover]
    #[verifier::rlimit(30)]
    pub fn write_to(&self, buf: &mut Vec<u8>, e: Endianness)
        ensures
            final(buf)@ == old(buf)@ + spdp_bytes(e, *self),
    {
        let ghost start = buf@;
        self.write_head(buf, e);
        let ghost s1 = buf@;
        put_locator_params(buf, e, PID_METATRAFFIC_UNICAST_LOCATOR, &self.metarraffic_unicast_locator_list);
        put_locator_params(buf, e, PID_METATRAFFIC_MULTICAST_LOCATOR, &self.metarraffic_multicast_locator_list);
        put_locator_params(buf, e, PID_DEFAULT_UNICAST_LOCATOR, &self.default_unicast_locator_list);
        put_locator_params(buf, e, PID_DEFAULT_MULTICAST_LOCATOR, &self.default_multicast_locator_list);
        assert(buf@ =~= s1 + spdp_locator_bytes(e, *self));
        self.write_tail(buf, e);
        assert(buf@ =~= start + spdp_bytes(e, *self));
    }
}

/// What a participant message says it is about.
#[derive(Clone, Copy, Debug)]
pub struct ParticipantMessageKind {
    pub value: [u8; 4],
}

impl PartialEq for ParticipantMessageKind {
    fn eq(&self, other: &ParticipantMessageKind) -> (r: bool) {
        let r = self.value[0] == other.value[0] && self.value[1] == other.value[1]
            && self.value[2] == other.value[2] && self.value[3] == other.value[3];
        proof {
            if r {
                assert(self.value@ =~= other.value@);
            }
        }
        r
    }
}

impl vstd::std_specs::cmp::PartialEqSpecImpl for ParticipantMessageKind {
    open spec fn obeys_eq_spec() -> bool {
        true
    }

    open spec fn eq_spec(&self, other: &ParticipantMessageKind) -> bool {
        self.value@ == other.value@
    }
}

impl ParticipantMessageKind {
    pub fn unknown() -> (k: ParticipantMessageKind)
        ensures
            k.value@ == seq![0u8, 0u8, 0u8, 0u8],
    {
        let k = ParticipantMessageKind { value: [0, 0, 0, 0] };
        assert(k.value@ =~= seq![0u8, 0u8, 0u8, 0u8]);
        k
    }

    pub fn automatic_liveliness_update() -> (k: ParticipantMessageKind)
        ensures
            k.value@ == seq![0u8, 0u8, 0u8, 1u8],
    {
        let k = ParticipantMessageKind { value: [0, 0, 0, 1] };
        assert(k.value@ =~= seq![0u8, 0u8, 0u8, 1u8]);
        k
    }

    pub fn manual_liveliness_update() -> (k: ParticipantMessageKind)
        ensures
            k.value@ == seq![0u8, 0u8, 0u8, 2u8],
    {
        let k = ParticipantMessageKind { value: [0, 0, 0, 2] };
        assert(k.value@ =~= seq![0u8, 0u8, 0u8, 2u8]);
        k
    }
}

/// A message between participants: the sender's GUID prefix, what it is
/// about, and its data.
pub struct ParticipantMessageData {
    pub guid_prefix: GuidPrefix,
    pub kind: ParticipantMessageKind,
    pub data: Vec<u8>,
}

/// The octets of a participant message: prefix, kind, then the data with
/// its 32-bit length and padding.
pub open spec fn pmd_bytes(e: Endianness, d: ParticipantMessageData) -> Seq<u8> {
    d.guid_prefix.guid_prefix@ + d.kind.value@ + octets_bytes(e, d.data@)
}

/// A participant message read at `pos`, as its prefix, kind and data
/// octets, and where it ends.
pub open spec fn read_pmd_at(e: Endianness, b: Seq<u8>, pos: int) -> Option<((Seq<u8>, Seq<u8>, Seq<u8>), int)> {
    if pos + 16 > b.len() {
        None
    } else {
        match read_octets_at(e, b, pos + 16) {
            Some((data, p)) => Some(((b.subrange(pos, pos + 12), b.subrange(pos + 12, pos + 16), data), p)),
            None => None,
        }
    }
}

impl ParticipantMessageData {
    pub fn new(guid_prefix: GuidPrefix, kind: ParticipantMessageKind, data: Vec<u8>) -> (d: ParticipantMessageData)
        ensures
            d == (ParticipantMessageData { guid_prefix, kind, data }),
    {
        ParticipantMessageData { guid_prefix, kind, data }
    }

    /// Appends `pmd_bytes`; the data must be shorter than 2^32 octets.
    pub fn write_to(&self, buf: &mut Vec<u8>, e: Endianness)
        requires
            self.data@.len() <= u32::MAX,
        ensures
            final(buf)@ == old(buf)@ + pmd_bytes(e, *self),
    {
        let ghost start = buf@;
        put_bytes(buf, &self.guid_prefix.guid_prefix);
        put_bytes(buf, &self.kind.value);
        let len = self.data.len();
        put_u32(buf, e, len as u32);
        put_bytes(buf, self.data.as_slice());
        put_zeros(buf, pad_len(len));
        assert(buf@ =~= start + pmd_bytes(e, *self));
    }

    /// Reads a participant message at `pos`: prefix, kind, then the data
    /// after its 32-bit length, and skips the padding.
    pub fn read_from(buf: &[u8], pos: usize, e: Endianness) -> (r: Option<(ParticipantMessageData, usize)>)
        ensures
            r is Some <==> read_pmd_at(e, buf@, pos as int) is Some,
            r matches Some((d, p)) ==> read_pmd_at(e, buf@, pos as int) == Some(
                ((d.guid_prefix.guid_prefix@, d.kind.value@, d.data@), p as int),
            ),
    {
        if pos > buf.len() || buf.len() - pos < 16 {
            return None;
        }
        let prefix: [u8; 12] = [
            buf[pos],
            buf[pos + 1],
            buf[pos + 2],
            buf[pos + 3],
            buf[pos + 4],
            buf[pos + 5],
            buf[pos + 6],
            buf[pos + 7],
            buf[pos + 8],
            buf[pos + 9],
            buf[pos + 10],
            buf[pos + 11],
        ];
        let kind: [u8; 4] = [buf[pos + 12], buf[pos + 13], buf[pos + 14], buf[pos + 15]];
        assert(prefix@ =~= buf@.subrange(pos as int, pos + 12));
        assert(kind@ =~= buf@.subrange(pos + 12, pos + 16));
        match read_octets(buf, pos + 16, e) {
            Some((data, p)) => Some(
                (
                    ParticipantMessageData {
                        guid_prefix: GuidPrefix { guid_prefix: prefix },
                        kind: ParticipantMessageKind { value: kind },
                        data,
                    },
                    p,
                ),
            ),
            None => None,
        }
    }
}

/// Reading back a participant message gives its prefix, kind and data,
/// and ends where the message ends.
pub proof fn law_pmd_read_back(e: Endianness, d: ParticipantMessageData)
    requires
        d.data@.len() <= u32::MAX,
    ensures
        read_pmd_at(e, pmd_bytes(e, d), 0) == Some(
            ((d.guid_prefix.guid_prefix@, d.kind.value@, d.data@), pmd_bytes(e, d).len() as int),
        ),
{
    let b = pmd_bytes(e, d);
    let n = d.data@.len();
    assert(b.subrange(0, 12) =~= d.guid_prefix.guid_prefix@);
    assert(b.subrange(12, 16) =~= d.kind.value@);
    assert(b.subrange(16, 20) =~= u32_bytes(e, n as u32));
    crate::message::cdr::lemma_u32_at_bytes(e, n as u32, b, 16);
    assert(b.subrange(20, 20 + n as int) =~= d.data@);
}

} // verus!
