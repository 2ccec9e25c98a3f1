//! What a reader or a writer announces of itself to remote participants: its
//! proxy (GUID, locators, QoS) followed by its topic, as one parameter list.
use vstd::prelude::*;
use crate::dds::qos::{DataReaderQosPolicies, DataWriterQosPolicies};
use crate::dds::qos::policy::spec_octets_size;
use crate::dds::qos::wire::{
    destination_order_code, durability_code, durability_service_bytes, duration_bytes,
    history_bytes, liveliness_bytes, octets_bytes, ownership_code, reliability_bytes,
    resource_limits_bytes,
};
use crate::discovery::data::{
    guid_octets, locator_params, param_head, put_flag_param, put_guid_param, put_head,
    put_locator_params,
};
use crate::discovery::topic_data::{
    opt_text_param, text_fits, PublicationBuiltinTopicData, SubscriptionBuiltinTopicData,
};
use crate::message::cdr::{i32_bytes, put_i32, put_u32, Endianness};
use crate::dds::qos::policy::{
    DestinationOrder, Durability, DurabilityService, History, Liveliness, Ownership, Reliability,
    ResourceLimits, UserData,
};
use crate::structure::duration::Duration;
use crate::structure::guid::GUID;
use crate::structure::parameter_id::{
    PID_DEADLINE, PID_DESTINATION_ORDER, PID_DURABILITY, PID_DURABILITY_SERVICE,
    PID_ENDPOINT_GUID, PID_EXPECTS_INLINE_QOS, PID_HISTORY, PID_LATENCY_BUDGET, PID_LIFESPAN,
    PID_LIVELINESS, PID_MULTICAST_LOCATOR, PID_OWNERSHIP, PID_OWNERSHIP_STRENGTH,
    PID_RELIABILITY, PID_RESOURCE_LIMITS, PID_SENTINEL, PID_TIME_BASED_FILTER,
    PID_TRANSPORT_PRIORITY, PID_TOPIC_NAME, PID_TYPE_MAX_SIZE_SERIALIZED, PID_TYPE_NAME,
    PID_UNICAST_LOCATOR, PID_USER_DATA,
};
use crate::structure::proxy::{ReaderProxy, WriterProxy};

verus! {

/// Whether an octet sequence fits a parameter whose length has 16 bits.
pub open spec fn octets_fit(v: Seq<u8>) -> bool {
    spec_octets_size(v.len() as int) <= u16::MAX
}

/// The user data parameter: its length counts the 32-bit length, the octets
/// and their padding.
#[verifier::opaque]
pub open spec fn user_data_param(e: Endianness, v: Seq<u8>) -> Seq<u8> {
    param_head(e, PID_USER_DATA, spec_octets_size(v.len() as int) as u16) + octets_bytes(e, v)
}

/// A parameter holding a 32-bit number.
#[verifier::opaque]
pub open spec fn i32_param(e: Endianness, pid: u16, x: i32) -> Seq<u8> {
    param_head(e, pid, 4) + i32_bytes(e, x)
}

/// A parameter holding a duration.
#[verifier::opaque]
pub open spec fn duration_param(e: Endianness, pid: u16, d: Duration) -> Seq<u8> {
    param_head(e, pid, 8) + duration_bytes(e, d)
}

/// The liveliness parameter.
#[verifier::opaque]
pub open spec fn liveliness_param(e: Endianness, l: Liveliness) -> Seq<u8> {
    param_head(e, PID_LIVELINESS, 12) + liveliness_bytes(e, l)
}

/// The reliability parameter.
#[verifier::opaque]
pub open spec fn reliability_param(e: Endianness, r: Reliability) -> Seq<u8> {
    param_head(e, PID_RELIABILITY, 12) + reliability_bytes(e, r)
}

/// The history parameter.
#[verifier::opaque]
pub open spec fn history_param(e: Endianness, h: History) -> Seq<u8> {
    param_head(e, PID_HISTORY, 8) + history_bytes(e, h)
}

/// The resource limits parameter.
#[verifier::opaque]
pub open spec fn resource_limits_param(e: Endianness, r: ResourceLimits) -> Seq<u8> {
    param_head(e, PID_RESOURCE_LIMITS, 12) + resource_limits_bytes(e, r)
}

/// The durability service parameter.
#[verifier::opaque]
pub open spec fn durability_service_param(e: Endianness, d: DurabilityService) -> Seq<u8> {
    param_head(e, PID_DURABILITY_SERVICE, 28) + durability_service_bytes(e, d)
}

/// The GUID parameter of an endpoint.
#[verifier::opaque]
pub open spec fn endpoint_guid_param(e: Endianness, g: GUID) -> Seq<u8> {
    param_head(e, PID_ENDPOINT_GUID, 16) + guid_octets(g)
}

/// The inline QoS flag parameter: one octet and three of padding.
#[verifier::opaque]
pub open spec fn inline_qos_param(e: Endianness, flag: bool) -> Seq<u8> {
    param_head(e, PID_EXPECTS_INLINE_QOS, 4) + seq![if flag { 1u8 } else { 0u8 }, 0u8, 0u8, 0u8]
}

/// The GUID, inline QoS flag and locators a reader announces.
pub open spec fn reader_head_bytes(e: Endianness, p: ReaderProxy) -> Seq<u8> {
    endpoint_guid_param(e, p.remote_reader_guid) + inline_qos_param(e, p.expects_inline_qos)
        + locator_params(e, PID_UNICAST_LOCATOR, p.unicast_locator_list@)
        + locator_params(e, PID_MULTICAST_LOCATOR, p.multicast_locator_list@)
}

/// The QoS a reader announces, first half: durability, deadline, latency
/// budget, liveliness, reliability, destination order.
pub open spec fn reader_qos_front(e: Endianness, q: DataReaderQosPolicies) -> Seq<u8> {
    i32_param(e, PID_DURABILITY, durability_code(q.durability.0))
        + duration_param(e, PID_DEADLINE, q.deadline.0.period)
        + duration_param(e, PID_LATENCY_BUDGET, q.latency_budget.0.0)
        + liveliness_param(e, q.liveliness.0)
        + reliability_param(e, q.reliability.0)
        + i32_param(e, PID_DESTINATION_ORDER, destination_order_code(q.destination_order.0))
}

/// The QoS a reader announces, second half: history, resource limits, user
/// data, ownership, time-based filter.
pub open spec fn reader_qos_back(e: Endianness, q: DataReaderQosPolicies) -> Seq<u8> {
    history_param(e, q.history.0)
        + resource_limits_param(e, q.resource_limits.0)
        + user_data_param(e, q.user_data.0.value@)
        + i32_param(e, PID_OWNERSHIP, ownership_code(q.ownership.0))
        + duration_param(e, PID_TIME_BASED_FILTER, q.time_based_filter.0.minimun_separation)
}

/// Everything a reader proxy writes, in order.
pub open spec fn reader_proxy_bytes(e: Endianness, p: ReaderProxy) -> Seq<u8> {
    reader_head_bytes(e, p) + reader_qos_front(e, p.qos) + reader_qos_back(e, p.qos)
}

/// The GUID, locators and largest serialized size a writer announces.
pub open spec fn writer_head_bytes(e: Endianness, p: WriterProxy) -> Seq<u8> {
    endpoint_guid_param(e, p.remote_writer_guid)
        + locator_params(e, PID_UNICAST_LOCATOR, p.unicast_locator_list@)
        + locator_params(e, PID_MULTICAST_LOCATOR, p.multicast_locator_list@)
        + i32_param(e, PID_TYPE_MAX_SIZE_SERIALIZED, p.data_max_size_serialized)
}

/// The QoS a writer announces, first half: durability, durability service,
/// deadline, latency budget, liveliness, reliability, destination order.
pub open spec fn writer_qos_front(e: Endianness, q: DataWriterQosPolicies) -> Seq<u8> {
    i32_param(e, PID_DURABILITY, durability_code(q.durability.0))
        + durability_service_param(e, q.durability_service.0)
        + duration_param(e, PID_DEADLINE, q.deadline.0.period)
        + duration_param(e, PID_LATENCY_BUDGET, q.latency_budget.0.0)
        + liveliness_param(e, q.liveliness.0)
        + reliability_param(e, q.reliability.0)
        + i32_param(e, PID_DESTINATION_ORDER, destination_order_code(q.destination_order.0))
}

/// The QoS a writer announces, second half: history, resource limits,
/// transport priority, lifespan, user data, ownership, ownership strength.
pub open spec fn writer_qos_back(e: Endianness, q: DataWriterQosPolicies) -> Seq<u8> {
    history_param(e, q.history.0)
        + resource_limits_param(e, q.resource_limits.0)
        + i32_param(e, PID_TRANSPORT_PRIORITY, q.transport_priority.0.value)
        + duration_param(e, PID_LIFESPAN, q.lifespan.0.0)
        + user_data_param(e, q.user_data.0.value@)
        + i32_param(e, PID_OWNERSHIP, ownership_code(q.ownership.0))
        + i32_param(e, PID_OWNERSHIP_STRENGTH, q.ownership_strength.0.0)
}

/// Everything a writer proxy writes, in order.
pub open spec fn writer_proxy_bytes(e: Endianness, p: WriterProxy) -> Seq<u8> {
    writer_head_bytes(e, p) + writer_qos_front(e, p.qos) + writer_qos_back(e, p.qos)
}

fn put_i32_param(buf: &mut Vec<u8>, e: Endianness, pid: u16, x: i32)
    ensures
        final(buf)@ == old(buf)@ + i32_param(e, pid, x),
{
    put_head(buf, e, pid, 4);
    put_i32(buf, e, x);
    reveal(i32_param);
    assert(buf@ =~= old(buf)@ + i32_param(e, pid, x));
}

fn put_durability_param(buf: &mut Vec<u8>, e: Endianness, d: Durability)
    ensures
        final(buf)@ == old(buf)@ + i32_param(e, PID_DURABILITY, durability_code(d)),
{
    put_head(buf, e, PID_DURABILITY, 4);
    d.write_to(buf, e);
    reveal(i32_param);
    assert(buf@ =~= old(buf)@ + i32_param(e, PID_DURABILITY, durability_code(d)));
}

fn put_destination_order_param(buf: &mut Vec<u8>, e: Endianness, d: DestinationOrder)
    ensures
        final(buf)@ == old(buf)@ + i32_param(e, PID_DESTINATION_ORDER, destination_order_code(d)),
{
    put_head(buf, e, PID_DESTINATION_ORDER, 4);
    d.write_to(buf, e);
    reveal(i32_param);
    assert(buf@ =~= old(buf)@ + i32_param(e, PID_DESTINATION_ORDER, destination_order_code(d)));
}

fn put_ownership_param(buf: &mut Vec<u8>, e: Endianness, o: Ownership)
    ensures
        final(buf)@ == old(buf)@ + i32_param(e, PID_OWNERSHIP, ownership_code(o)),
{
    put_head(buf, e, PID_OWNERSHIP, 4);
    o.write_to(buf, e);
    reveal(i32_param);
    assert(buf@ =~= old(buf)@ + i32_param(e, PID_OWNERSHIP, ownership_code(o)));
}

fn put_duration_param(buf: &mut Vec<u8>, e: Endianness, pid: u16, d: Duration)
    ensures
        final(buf)@ == old(buf)@ + duration_param(e, pid, d),
{
    put_head(buf, e, pid, 8);
    put_i32(buf, e, d.seconds);
    put_u32(buf, e, d.fraction);
    reveal(duration_param);
    assert(buf@ =~= old(buf)@ + duration_param(e, pid, d));
}

fn put_liveliness_param(buf: &mut Vec<u8>, e: Endianness, l: Liveliness)
    ensures
        final(buf)@ == old(buf)@ + liveliness_param(e, l),
{
    put_head(buf, e, PID_LIVELINESS, 12);
    l.write_to(buf, e);
    reveal(liveliness_param);
    assert(buf@ =~= old(buf)@ + liveliness_param(e, l));
}

fn put_reliability_param(buf: &mut Vec<u8>, e: Endianness, r: Reliability)
    ensures
        final(buf)@ == old(buf)@ + reliability_param(e, r),
{
    put_head(buf, e, PID_RELIABILITY, 12);
    r.write_to(buf, e);
    reveal(reliability_param);
    assert(buf@ =~= old(buf)@ + reliability_param(e, r));
}

fn put_history_param(buf: &mut Vec<u8>, e: Endianness, h: History)
    ensures
        final(buf)@ == old(buf)@ + history_param(e, h),
{
    put_head(buf, e, PID_HISTORY, 8);
    h.write_to(buf, e);
    reveal(history_param);
    assert(buf@ =~= old(buf)@ + history_param(e, h));
}

fn put_resource_limits_param(buf: &mut Vec<u8>, e: Endianness, r: ResourceLimits)
    ensures
        final(buf)@ == old(buf)@ + resource_limits_param(e, r),
{
    put_head(buf, e, PID_RESOURCE_LIMITS, 12);
    r.write_to(buf, e);
    reveal(resource_limits_param);
    assert(buf@ =~= old(buf)@ + resource_limits_param(e, r));
}

fn put_durability_service_param(buf: &mut Vec<u8>, e: Endianness, d: DurabilityService)
    ensures
        final(buf)@ == old(buf)@ + durability_service_param(e, d),
{
    put_head(buf, e, PID_DURABILITY_SERVICE, 28);
    d.write_to(buf, e);
    reveal(durability_service_param);
    assert(buf@ =~= old(buf)@ + durability_service_param(e, d));
}

fn put_user_data_param(buf: &mut Vec<u8>, e: Endianness, u: &UserData)
    requires
        octets_fit(u.value@),
    ensures
        final(buf)@ == old(buf)@ + user_data_param(e, u.value@),
{
    let n = u.serialized_size();
    put_head(buf, e, PID_USER_DATA, n);
    u.write_to(buf, e);
    reveal(user_data_param);
    assert(buf@ =~= old(buf)@ + user_data_param(e, u.value@));
}

fn put_endpoint_guid_param(buf: &mut Vec<u8>, e: Endianness, g: GUID)
    ensures
        final(buf)@ == old(buf)@ + endpoint_guid_param(e, g),
{
    put_guid_param(buf, e, PID_ENDPOINT_GUID, g);
    reveal(endpoint_guid_param);
}

fn put_inline_qos_param(buf: &mut Vec<u8>, e: Endianness, flag: bool)
    ensures
        final(buf)@ == old(buf)@ + inline_qos_param(e, flag),
{
    put_flag_param(buf, e, PID_EXPECTS_INLINE_QOS, flag);
    reveal(inline_qos_param);
}

impl ReaderProxy {
    fn write_head(&self, buf: &mut Vec<u8>, e: Endianness)
        ensures
            final(buf)@ == old(buf)@ + reader_head_bytes(e, *self),
    {
        let ghost start = buf@;
        put_endpoint_guid_param(buf, e, self.remote_reader_guid);
        put_inline_qos_param(buf, e, self.expects_inline_qos);
        put_locator_params(buf, e, PID_UNICAST_LOCATOR, &self.unicast_locator_list);
        put_locator_params(buf, e, PID_MULTICAST_LOCATOR, &self.multicast_locator_list);
        assert(buf@ =~= start + reader_head_bytes(e, *self));
    }

    fn write_qos_front(&self, buf: &mut Vec<u8>, e: Endianness)
        ensures
            final(buf)@ == old(buf)@ + reader_qos_front(e, self.qos),
    {
        let ghost start = buf@;
        let q = &self.qos;
        put_durability_param(buf, e, q.durability());
        put_duration_param(buf, e, PID_DEADLINE, q.deadline().period);
        put_duration_param(buf, e, PID_LATENCY_BUDGET, q.latency_budget().0);
        put_liveliness_param(buf, e, q.liveliness());
        put_reliability_param(buf, e, q.reliability());
        put_destination_order_param(buf, e, q.destination_order());
        assert(buf@ =~= start + reader_qos_front(e, self.qos));
    }

    fn write_qos_back(&self, buf: &mut Vec<u8>, e: Endianness)
        requires
            octets_fit(self.qos.user_data.0.value@),
        ensures
            final(buf)@ == old(buf)@ + reader_qos_back(e, self.qos),
    {
        let ghost start = buf@;
        let q = &self.qos;
        put_history_param(buf, e, q.history());
        put_resource_limits_param(buf, e, q.resource_limits());
        put_user_data_param(buf, e, &q.user_data.0);
        put_ownership_param(buf, e, q.ownership());
        put_duration_param(buf, e, PID_TIME_BASED_FILTER, q.time_based_filter().minimun_separation);
        assert(buf@ =~= start + reader_qos_back(e, self.qos));
    }

    /// Appends the parameters of `reader_proxy_bytes`: GUID, inline QoS
    /// flag, unicast and multicast locators, then the reader's QoS.
    pub fn write_to(&self, buf: &mut Vec<u8>, e: Endianness)
        requires
            octets_fit(self.qos.user_data.0.value@),
        ensures
            final(buf)@ == old(buf)@ + reader_proxy_bytes(e, *self),
    {
        let ghost start = buf@;
        self.write_head(buf, e);
        self.write_qos_front(buf, e);
        self.write_qos_back(buf, e);
        assert(buf@ =~= start + reader_proxy_bytes(e, *self));
    }
}

impl WriterProxy {
    fn write_head(&self, buf: &mut Vec<u8>, e: Endianness)
        ensures
            final(buf)@ == old(buf)@ + writer_head_bytes(e, *self),
    {
        let ghost start = buf@;
        put_endpoint_guid_param(buf, e, self.remote_writer_guid);
        put_locator_params(buf, e, PID_UNICAST_LOCATOR, &self.unicast_locator_list);
        put_locator_params(buf, e, PID_MULTICAST_LOCATOR, &self.multicast_locator_list);
        put_i32_param(buf, e, PID_TYPE_MAX_SIZE_SERIALIZED, self.data_max_size_serialized);
        assert(buf@ =~= start + writer_head_bytes(e, *self));
    }

    fn write_qos_front(&self, buf: &mut Vec<u8>, e: Endianness)
        ensures
            final(buf)@ == old(buf)@ + writer_qos_front(e, self.qos),
    {
        let ghost start = buf@;
        let q = &self.qos;
        put_durability_param(buf, e, q.durability());
        put_durability_service_param(buf, e, q.durability_service());
        put_duration_param(buf, e, PID_DEADLINE, q.deadline().period);
        put_duration_param(buf, e, PID_LATENCY_BUDGET, q.latency_budget().0);
        put_liveliness_param(buf, e, q.liveliness());
        put_reliability_param(buf, e, q.reliability());
        put_destination_order_param(buf, e, q.destination_order());
        assert(buf@ =~= start + writer_qos_front(e, self.qos));
    }

    fn write_qos_back(&self, buf: &mut Vec<u8>, e: Endianness)
        requires
            octets_fit(self.qos.user_data.0.value@),
        ensures
            final(buf)@ == old(buf)@ + writer_qos_back(e, self.qos),
    {
        let ghost start = buf@;
        let q = &self.qos;
        put_history_param(buf, e, q.history());
        put_resource_limits_param(buf, e, q.resource_limits());
        put_i32_param(buf, e, PID_TRANSPORT_PRIORITY, q.transport_priority().value);
        put_duration_param(buf, e, PID_LIFESPAN, q.lifespan().0);
        put_user_data_param(buf, e, &q.user_data.0);
        put_ownership_param(buf, e, q.ownership());
        put_i32_param(buf, e, PID_OWNERSHIP_STRENGTH, q.ownership_strength().0);
        assert(buf@ =~= start + writer_qos_back(e, self.qos));
    }

    /// Appends the parameters of `writer_proxy_bytes`: GUID, unicast and
    /// multicast locators, largest serialized size, then the writer's QoS.
    pub fn write_to(&self, buf: &mut Vec<u8>, e: Endianness)
        requires
            octets_fit(self.qos.user_data.0.value@),
        ensures
            final(buf)@ == old(buf)@ + writer_proxy_bytes(e, *self),
    {
        let ghost start = buf@;
        self.write_head(buf, e);
        self.write_qos_front(buf, e);
        self.write_qos_back(buf, e);
        assert(buf@ =~= start + writer_proxy_bytes(e, *self));
    }
}

/// A remote reader as discovery announces it: its proxy and its topic.
pub struct DiscoveredReaderData {
    pub proxy: ReaderProxy,
    pub builtin_topic_data: SubscriptionBuiltinTopicData,
}

/// The octets a discovered reader is announced as: the proxy's parameters,
/// the type and topic names, and the sentinel.
pub open spec fn discovered_reader_bytes(e: Endianness, d: DiscoveredReaderData) -> Seq<u8> {
    reader_proxy_bytes(e, d.proxy) + opt_text_param(
        e,
        PID_TYPE_NAME,
        d.builtin_topic_data.data_type_name,
    ) + opt_text_param(e, PID_TOPIC_NAME, d.builtin_topic_data.topic_name) + param_head(
        e,
        PID_SENTINEL,
        0,
    )
}

impl DiscoveredReaderData {
    pub fn new(proxy: ReaderProxy, builtin_topic_data: SubscriptionBuiltinTopicData) -> (d:
        DiscoveredReaderData)
        ensures
            d == (DiscoveredReaderData { proxy, builtin_topic_data }),
    {
        DiscoveredReaderData { proxy, builtin_topic_data }
    }

    /// Appends the parameter list of `discovered_reader_bytes`.
    pub fn write_to(&self, buf: &mut Vec<u8>, e: Endianness)
        requires
            octets_fit(self.proxy.qos.user_data.0.value@),
            text_fits(self.builtin_topic_data.data_type_name),
            text_fits(self.builtin_topic_data.topic_name),
        ensures
            final(buf)@ == old(buf)@ + discovered_reader_bytes(e, *self),
    {
        let ghost start = buf@;
        self.proxy.write_to(buf, e);
        self.builtin_topic_data.write_to(buf, e);
        put_head(buf, e, PID_SENTINEL, 0);
        assert(buf@ =~= start + discovered_reader_bytes(e, *self));
    }
}

/// A remote writer as discovery announces it: its proxy and its topic.
pub struct DiscoveredWriterData {
    pub proxy: WriterProxy,
    pub builtin_topic_data: PublicationBuiltinTopicData,
}

/// The octets a discovered writer is announced as: the proxy's parameters,
/// the type and topic names, and the sentinel.
pub open spec fn discovered_writer_bytes(e: Endianness, d: DiscoveredWriterData) -> Seq<u8> {
    writer_proxy_bytes(e, d.proxy) + opt_text_param(
        e,
        PID_TYPE_NAME,
        d.builtin_topic_data.data_type_name,
    ) + opt_text_param(e, PID_TOPIC_NAME, d.builtin_topic_data.topic_name) + param_head(
        e,
        PID_SENTINEL,
        0,
    )
}

impl DiscoveredWriterData {
    pub fn new(proxy: WriterProxy, builtin_topic_data: PublicationBuiltinTopicData) -> (d:
        DiscoveredWriterData)
        ensures
            d == (DiscoveredWriterData { proxy, builtin_topic_data }),
    {
        DiscoveredWriterData { proxy, builtin_topic_data }
    }

    /// Appends the parameter list of `discovered_writer_bytes`.
    #[verifier::spinoff_prover]
    pub fn write_to(&self, buf: &mut Vec<u8>, e: Endianness)
        requires
            octets_fit(self.proxy.qos.user_data.0.value@),
            text_fits(self.builtin_topic_data.data_type_name),
            text_fits(self.builtin_topic_data.topic_name),
        ensures
            final(buf)@ == old(buf)@ + discovered_writer_bytes(e, *self),
    {
        let ghost start = buf@;
        self.proxy.write_to(buf, e);
        self.builtin_topic_data.write_to(buf, e);
        put_head(buf, e, PID_SENTINEL, 0);
        assert(buf@ =~= start + discovered_writer_bytes(e, *self));
    }
}

} // verus!
