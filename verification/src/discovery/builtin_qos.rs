//! The QoS policies of the built-in discovery endpoints and their topics:
//! participant announcements go best effort; publication and subscription
//! announcements go reliably, kept whole, on transient-local topics; the
//! participant message topic keeps the last message only.
use vstd::prelude::*;
use crate::dds::qos::{
    decided, DataReaderQosBuilder, DataReaderQosPolicies, DataWriterQosBuilder,
    DataWriterQosPolicies, TopicQosBuilder, TopicQosPolicies,
};
use crate::dds::qos::policy::{
    Deadline, DestinationOrder, Durability, DurabilityService, History, HistoryQosKind,
    LatencyBudget, Lifespan, Liveliness, Ownership, OwnershipStrength, ReaderDataLifecycle,
    Reliability, ResourceLimits, TimeBasedFilter, TransportPriority, WriterDataLifecycle,
};
use crate::structure::duration::Duration;

verus! {

/// Whether `r` is what a writer builder gives with only the durability,
/// reliability and history given here set.
pub open spec fn writer_policies_with(
    r: DataWriterQosPolicies,
    durability: Option<Durability>,
    reliability: Option<Reliability>,
    history: Option<History>,
) -> bool {
    &&& r.durability == decided(durability, Durability::Volatile)
    &&& r.durability_service == decided(None, DurabilityService::spec_default())
    &&& r.deadline == decided(None, Deadline { period: Duration::spec_infinite() })
    &&& r.latency_budget == decided(None, LatencyBudget(Duration { seconds: 0, fraction: 0 }))
    &&& r.liveliness == decided(None, Liveliness::spec_default())
    &&& r.reliability == decided(reliability, Reliability::spec_default_reliable())
    &&& r.destination_order == decided(None, DestinationOrder::ByReceptionTimestamp)
    &&& r.history == decided(history, History::spec_default())
    &&& r.resource_limits == decided(None, ResourceLimits::spec_default())
    &&& r.transport_priority == decided(None, TransportPriority { value: 0 })
    &&& r.lifespan == decided(None, Lifespan(Duration::spec_infinite()))
    &&& !r.user_data.1
    &&& r.user_data.0.value@ == Seq::<u8>::empty()
    &&& r.ownership == decided(None, Ownership::Shared)
    &&& r.ownership_strength == decided(None, OwnershipStrength(0))
    &&& r.writer_data_lifecycle == decided(
        None,
        WriterDataLifecycle { autodispose_unregistered_instance: true },
    )
}

/// Whether `r` is what a reader builder gives with only the reliability
/// given here set.
pub open spec fn reader_policies_with(r: DataReaderQosPolicies, reliability: Option<Reliability>) -> bool {
    &&& r.durability == decided(None, Durability::Volatile)
    &&& r.deadline == decided(None, Deadline { period: Duration::spec_infinite() })
    &&& r.latency_budget == decided(None, LatencyBudget(Duration { seconds: 0, fraction: 0 }))
    &&& r.liveliness == decided(None, Liveliness::spec_default())
    &&& r.reliability == decided(reliability, Reliability::spec_default_besteffort())
    &&& r.destination_order == decided(None, DestinationOrder::ByReceptionTimestamp)
    &&& r.history == decided(None, History::spec_default())
    &&& r.resource_limits == decided(None, ResourceLimits::spec_default())
    &&& !r.user_data.1
    &&& r.user_data.0.value@ == Seq::<u8>::empty()
    &&& r.ownership == decided(None, Ownership::Shared)
    &&& r.time_based_filter == decided(
        None,
        TimeBasedFilter { minimun_separation: Duration { seconds: 0, fraction: 0 } },
    )
    &&& r.reader_data_lifecycle == decided(
        None,
        ReaderDataLifecycle {
            autopurge_nowriter_samples_delay: Duration::spec_infinite(),
            autopurge_dispose_samples_delay: Duration::spec_infinite(),
        },
    )
}

/// Whether `r` is what a topic builder gives with only the durability,
/// reliability and history given here set.
pub open spec fn topic_policies_with(
    r: TopicQosPolicies,
    durability: Option<Durability>,
    reliability: Option<Reliability>,
    history: Option<History>,
) -> bool {
    &&& !r.topic_data.1
    &&& r.topic_data.0.value@ == Seq::<u8>::empty()
    &&& r.durability == decided(durability, Durability::Volatile)
    &&& r.durability_service == decided(None, DurabilityService::spec_default())
    &&& r.deadline == decided(None, Deadline { period: Duration::spec_infinite() })
    &&& r.latency_budget == decided(None, LatencyBudget(Duration { seconds: 0, fraction: 0 }))
    &&& r.liveliness == decided(None, Liveliness::spec_default())
    &&& r.reliability == decided(reliability, Reliability::spec_default_besteffort())
    &&& r.destination_order == decided(None, DestinationOrder::ByReceptionTimestamp)
    &&& r.history == decided(history, History::spec_default())
    &&& r.resource_limits == decided(None, ResourceLimits::spec_default())
    &&& r.transport_priority == decided(None, TransportPriority { value: 0 })
    &&& r.lifespan == decided(None, Lifespan(Duration::spec_infinite()))
    &&& r.ownership == decided(None, Ownership::Shared)
}

/// The policies of the writer that announces this participant: best effort,
/// everything else left to its default.
pub fn spdp_writer_qos() -> (r: DataWriterQosPolicies)
    ensures
        writer_policies_with(r, None, Some(Reliability::spec_default_besteffort()), None),
{
    DataWriterQosBuilder::new().reliability(Reliability::default_besteffort()).build()
}

/// The policies of the writers that announce publications and
/// subscriptions: reliable, keeping every change.
pub fn sedp_writer_qos() -> (r: DataWriterQosPolicies)
    ensures
        writer_policies_with(
            r,
            None,
            Some(Reliability::spec_default_reliable()),
            Some(History { kind: HistoryQosKind::KeepAll, depth: 0 }),
        ),
{
    DataWriterQosBuilder::new().reliability(Reliability::default_reliable()).history(
        History::new(HistoryQosKind::KeepAll, 0),
    ).build()
}

/// The policies of the readers that detect publications and subscriptions:
/// reliable.
pub fn sedp_reader_qos() -> (r: DataReaderQosPolicies)
    ensures
        reader_policies_with(r, Some(Reliability::spec_default_reliable())),
{
    DataReaderQosBuilder::new().reliability(Reliability::default_reliable()).build()
}

/// The policies of the publication and subscription topics: reliable and
/// transient-local.
pub fn sedp_topic_qos() -> (r: TopicQosPolicies)
    ensures
        topic_policies_with(
            r,
            Some(Durability::TransientLocal),
            Some(Reliability::spec_default_reliable()),
            None,
        ),
{
    TopicQosBuilder::new().reliability(Reliability::default_reliable()).durability(
        Durability::TransientLocal,
    ).build()
}

/// The policies of the participant message topic: reliable, transient-local,
/// keeping the last message only.
pub fn participant_message_topic_qos() -> (r: TopicQosPolicies)
    ensures
        topic_policies_with(
            r,
            Some(Durability::TransientLocal),
            Some(Reliability::spec_default_reliable()),
            Some(History { kind: HistoryQosKind::KeepLast, depth: 1 }),
        ),
{
    TopicQosBuilder::new().reliability(Reliability::default_reliable()).durability(
        Durability::TransientLocal,
    ).history(History { kind: HistoryQosKind::KeepLast, depth: 1 }).build()
}

} // verus!
