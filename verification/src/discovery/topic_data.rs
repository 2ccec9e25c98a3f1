//! What a reader or a writer announces of its topic, and how the topic and
//! type names are written.
use vstd::prelude::*;
use crate::dds::qos::policy::{
    Deadline, DestinationOrder, Durability, DurabilityService, GroupData, LatencyBudget,
    Lifespan, Liveliness, Ownership, OwnershipStrength, Partition, Presentation, Reliability,
    TimeBasedFilter, TopicData, UserData, pad_len,
};
use crate::message::cdr::{
    Endianness, pad_of, put_bytes, put_u16, put_u32, put_u8, put_zeros, u16_bytes, u32_bytes,
    zeros,
};
use crate::structure::parameter_id::{PID_TOPIC_NAME, PID_TYPE_NAME};

verus! {

/// The length a text parameter gives: four octets of length, the text, its
/// terminating zero, and padding.
pub open spec fn text_param_len(n: int) -> int {
    n + 5 + pad_of(n + 5)
}

/// A text parameter: identifier, length, then the text as CDR writes it (a
/// length that counts the terminating zero, the octets, the zero, padding).
pub open spec fn text_param_bytes(e: Endianness, pid: u16, s: Seq<u8>) -> Seq<u8> {
    u16_bytes(e, pid) + u16_bytes(e, text_param_len(s.len() as int) as u16) + u32_bytes(
        e,
        (s.len() + 1) as u32,
    ) + s + seq![0u8] + zeros(pad_of(s.len() + 1 as int))
}

/// Whether a text fits a parameter whose length has 16 bits.
pub open spec fn text_fits(s: Option<String>) -> bool {
    match s {
        Some(t) => text_param_len(vstd::utf8::encode_utf8(t@).len() as int) <= u16::MAX,
        None => true,
    }
}

/// The octets of an optional text parameter.
pub open spec fn opt_text_param(e: Endianness, pid: u16, s: Option<String>) -> Seq<u8> {
    match s {
        Some(t) => text_param_bytes(e, pid, vstd::utf8::encode_utf8(t@)),
        None => Seq::empty(),
    }
}

/// Appends a text parameter.
pub fn put_text_param(buf: &mut Vec<u8>, e: Endianness, pid: u16, s: &String)
    requires
        text_param_len(vstd::utf8::encode_utf8(s@).len() as int) <= u16::MAX,
    ensures
        final(buf)@ == old(buf)@ + text_param_bytes(e, pid, vstd::utf8::encode_utf8(s@)),
{
    let ghost start = buf@;
    let bytes = s.as_str().as_bytes();
    let n = bytes.len();
    let pad = pad_len(n + 5);
    put_u16(buf, e, pid);
    put_u16(buf, e, (n + 5 + pad) as u16);
    put_u32(buf, e, (n + 1) as u32);
    put_bytes(buf, bytes);
    put_u8(buf, 0);
    put_zeros(buf, pad);
    assert(pad_of(n + 5) == pad_of(n + 1));
    assert(buf@ =~= start + text_param_bytes(e, pid, vstd::utf8::encode_utf8(s@)));
}

/// What a reader announces of its topic.
pub struct SubscriptionBuiltinTopicData {
    pub key: Option<()>,
    pub publication_key: Option<()>,
    pub topic_name: Option<String>,
    pub data_type_name: Option<String>,
    pub durability: Option<Durability>,
    pub deadline: Option<Deadline>,
    pub latency_budget: Option<LatencyBudget>,
    pub liveliness: Option<Liveliness>,
    pub reliability: Option<Reliability>,
    pub ownership: Option<Ownership>,
    pub destination_order: Option<DestinationOrder>,
    pub user_data: Option<UserData>,
    pub time_based_filter: Option<TimeBasedFilter>,
    pub presentation: Option<Presentation>,
    pub partition: Option<Partition>,
    pub topic_data: Option<TopicData>,
    pub group_data: Option<GroupData>,
    pub durability_service: Option<DurabilityService>,
    pub lifespan: Option<Lifespan>,
}

impl SubscriptionBuiltinTopicData {
    pub fn new(
        key: Option<()>,
        publication_key: Option<()>,
        topic_name: Option<String>,
        data_type_name: Option<String>,
        durability: Option<Durability>,
        deadline: Option<Deadline>,
        latency_budget: Option<LatencyBudget>,
        liveliness: Option<Liveliness>,
        reliability: Option<Reliability>,
        ownership: Option<Ownership>,
        destination_order: Option<DestinationOrder>,
        user_data: Option<UserData>,
        time_based_filter: Option<TimeBasedFilter>,
        presentation: Option<Presentation>,
        partition: Option<Partition>,
        topic_data: Option<TopicData>,
        group_data: Option<GroupData>,
        durability_service: Option<DurabilityService>,
        lifespan: Option<Lifespan>,
    ) -> (d: SubscriptionBuiltinTopicData)
        ensures
            d == (SubscriptionBuiltinTopicData {
                key,
                publication_key,
                topic_name,
                data_type_name,
                durability,
                deadline,
                latency_budget,
                liveliness,
                reliability,
                ownership,
                destination_order,
                user_data,
                time_based_filter,
                presentation,
                partition,
                topic_data,
                group_data,
                durability_service,
                lifespan,
            }),
    {
        SubscriptionBuiltinTopicData {
            key,
            publication_key,
            topic_name,
            data_type_name,
            durability,
            deadline,
            latency_budget,
            liveliness,
            reliability,
            ownership,
            destination_order,
            user_data,
            time_based_filter,
            presentation,
            partition,
            topic_data,
            group_data,
            durability_service,
            lifespan,
        }
    }

    /// Appends the type name and then the topic name, each when there is
    /// one, as text parameters.
    pub fn write_to(&self, buf: &mut Vec<u8>, e: Endianness)
        requires
            text_fits(self.data_type_name),
            text_fits(self.topic_name),
        ensures
            final(buf)@ == old(buf)@ + opt_text_param(e, PID_TYPE_NAME, self.data_type_name)
                + opt_text_param(e, PID_TOPIC_NAME, self.topic_name),
    {
        let ghost start = buf@;
        match &self.data_type_name {
            Some(t) => put_text_param(buf, e, PID_TYPE_NAME, t),
            None => {},
        }
        let ghost mid = buf@;
        match &self.topic_name {
            Some(t) => put_text_param(buf, e, PID_TOPIC_NAME, t),
            None => {},
        }
        assert(mid =~= start + opt_text_param(e, PID_TYPE_NAME, self.data_type_name));
        assert(buf@ =~= mid + opt_text_param(e, PID_TOPIC_NAME, self.topic_name));
    }
}

/// What a writer announces of its topic.
pub struct PublicationBuiltinTopicData {
    pub key: Option<()>,
    pub publication_key: Option<()>,
    pub topic_name: Option<String>,
    pub data_type_name: Option<String>,
    pub durability: Option<Durability>,
    pub durability_service: Option<DurabilityService>,
    pub deadline: Option<Deadline>,
    pub latency_budget: Option<LatencyBudget>,
    pub liveliness: Option<Liveliness>,
    pub reliability: Option<Reliability>,
    pub lifespan: Option<Lifespan>,
    pub user_data: Option<UserData>,
    pub time_based_filter: Option<TimeBasedFilter>,
    pub ownership: Option<Ownership>,
    pub ownership_strength: Option<OwnershipStrength>,
    pub destination_order: Option<DestinationOrder>,
    pub presentation: Option<Presentation>,
    pub partition: Option<Partition>,
    pub topic_data: Option<TopicData>,
    pub group_data: Option<GroupData>,
}

impl PublicationBuiltinTopicData {
    pub fn new(
        key: Option<()>,
        publication_key: Option<()>,
        topic_name: Option<String>,
        data_type_name: Option<String>,
        durability: Option<Durability>,
        durability_service: Option<DurabilityService>,
        deadline: Option<Deadline>,
        latency_budget: Option<LatencyBudget>,
        liveliness: Option<Liveliness>,
        reliability: Option<Reliability>,
        lifespan: Option<Lifespan>,
        user_data: Option<UserData>,
        time_based_filter: Option<TimeBasedFilter>,
        ownership: Option<Ownership>,
        ownership_strength: Option<OwnershipStrength>,
        destination_order: Option<DestinationOrder>,
        presentation: Option<Presentation>,
        partition: Option<Partition>,
        topic_data: Option<TopicData>,
        group_data: Option<GroupData>,
    ) -> (d: PublicationBuiltinTopicData)
        ensures
            d == (PublicationBuiltinTopicData {
                key,
                publication_key,
                topic_name,
                data_type_name,
                durability,
                durability_service,
                deadline,
                latency_budget,
                liveliness,
                reliability,
                lifespan,
                user_data,
                time_based_filter,
                ownership,
                ownership_strength,
                destination_order,
                presentation,
                partition,
                topic_data,
                group_data,
            }),
    {
        PublicationBuiltinTopicData {
            key,
            publication_key,
            topic_name,
            data_type_name,
            durability,
            durability_service,
            deadline,
            latency_budget,
            liveliness,
            reliability,
            lifespan,
            user_data,
            time_based_filter,
            ownership,
            ownership_strength,
            destination_order,
            presentation,
            partition,
            topic_data,
            group_data,
        }
    }

    /// Appends the type name and then the topic name, each when there is
    /// one, as text parameters.
    pub fn write_to(&self, buf: &mut Vec<u8>, e: Endianness)
        requires
            text_fits(self.data_type_name),
            text_fits(self.topic_name),
        ensures
            final(buf)@ == old(buf)@ + opt_text_param(e, PID_TYPE_NAME, self.data_type_name)
                + opt_text_param(e, PID_TOPIC_NAME, self.topic_name),
    {
        let ghost start = buf@;
        match &self.data_type_name {
            Some(t) => put_text_param(buf, e, PID_TYPE_NAME, t),
            None => {},
        }
        let ghost mid = buf@;
        match &self.topic_name {
            Some(t) => put_text_param(buf, e, PID_TOPIC_NAME, t),
            None => {},
        }
        assert(mid =~= start + opt_text_param(e, PID_TYPE_NAME, self.data_type_name));
        assert(buf@ =~= mid + opt_text_param(e, PID_TOPIC_NAME, self.topic_name));
    }
}

} // verus!
