//! Sets of QoS policies for each kind of entity, their builders, and the
//! rules that combine and match them.
//!
//! In the per-endpoint sets each policy is paired with a flag that tells
//! whether the user set it explicitly.

pub mod policy;
pub mod wire;

use vstd::prelude::*;
use vstd::string::StringExecFns;
use crate::text::{
    deadline_text, destination_order_text, durability_text, flagged, flagged_text,
    latency_budget_text, liveliness_text, ownership_text, reliability_text,
};
use crate::dds::qos::policy::{
    Deadline, DestinationOrder, Durability, DurabilityService, EntityFactory, GroupData, History,
    LatencyBudget, Lifespan, Liveliness, Ownership, OwnershipStrength, Partition, Presentation,
    ReaderDataLifecycle, Reliability, ResourceLimits, TimeBasedFilter, TopicData,
    TransportPriority, UserData, WriterDataLifecycle,
};

verus! {

/// The policy that combining `mine` with `theirs` yields when `same` tells
/// whether the two policy values are equal: a differing policy is replaced
/// only by one the user set explicitly; an equal policy stays, and counts as
/// explicitly set if either side was.
pub open spec fn combined<P>(mine: (P, bool), theirs: (P, bool), same: bool) -> (P, bool) {
    if !same {
        if theirs.1 {
            theirs
        } else {
            mine
        }
    } else {
        (mine.0, mine.1 || theirs.1)
    }
}

/// Reliability combines differently: a differing reliability set by the user
/// replaces the current one, and nothing else changes, not even the flag.
pub open spec fn combined_reliability(mine: (Reliability, bool), theirs: (Reliability, bool)) -> (
    Reliability,
    bool,
) {
    if mine.0 != theirs.0 && theirs.1 {
        theirs
    } else {
        mine
    }
}

/// The value a builder slot gives: the set value, flagged, or the default,
/// unflagged.
pub open spec fn decided<P>(slot: Option<P>, default: P) -> (P, bool) {
    match slot {
        Some(p) => (p, true),
        None => (default, false),
    }
}

/// For setting QoS on a DomainParticipant.
#[derive(Clone)]
pub enum DomainParticipantQos {
    /// The default QoS of a DomainParticipant.
    Default,
    Policies(DomainParticipantQosPolicies),
}

/// QoS policies that configure a DomainParticipant.
#[derive(Clone)]
pub struct DomainParticipantQosPolicies {
    pub user_data: UserData,
    pub entity_factory: EntityFactory,
}

impl DomainParticipantQosPolicies {
    pub fn user_data(&self) -> (r: UserData)
        ensures
            r.value@ == self.user_data.value@,
    {
        self.user_data.clone()
    }

    pub fn entity_factory(&self) -> (r: EntityFactory)
        ensures
            r == self.entity_factory,
    {
        self.entity_factory
    }
}

/// For setting QoS on a Topic.
pub enum TopicQos {
    /// The default QoS of a Topic (see the participant's default topic QoS).
    Default,
    Policies(Box<TopicQosPolicies>),
}

/// QoS policies that configure a Topic.
pub struct TopicQosPolicies {
    pub topic_data: (TopicData, bool),
    pub durability: (Durability, bool),
    pub durability_service: (DurabilityService, bool),
    pub deadline: (Deadline, bool),
    pub latency_budget: (LatencyBudget, bool),
    pub liveliness: (Liveliness, bool),
    pub reliability: (Reliability, bool),
    pub destination_order: (DestinationOrder, bool),
    pub history: (History, bool),
    pub resource_limits: (ResourceLimits, bool),
    pub transport_priority: (TransportPriority, bool),
    pub lifespan: (Lifespan, bool),
    pub ownership: (Ownership, bool),
}

impl TopicQosPolicies {
    pub fn topic_data(&self) -> (r: TopicData)
        ensures
            r.value@ == self.topic_data.0.value@,
    {
        self.topic_data.0.clone()
    }

    pub fn durability(&self) -> (r: Durability)
        ensures
            r == self.durability.0,
    {
        self.durability.0
    }

    pub fn durability_service(&self) -> (r: DurabilityService)
        ensures
            r == self.durability_service.0,
    {
        self.durability_service.0
    }

    pub fn deadline(&self) -> (r: Deadline)
        ensures
            r == self.deadline.0,
    {
        self.deadline.0
    }

    pub fn latency_budget(&self) -> (r: LatencyBudget)
        ensures
            r == self.latency_budget.0,
    {
        self.latency_budget.0
    }

    pub fn liveliness(&self) -> (r: Liveliness)
        ensures
            r == self.liveliness.0,
    {
        self.liveliness.0
    }

    pub fn reliability(&self) -> (r: Reliability)
        ensures
            r == self.reliability.0,
    {
        self.reliability.0
    }

    pub fn destination_order(&self) -> (r: DestinationOrder)
        ensures
            r == self.destination_order.0,
    {
        self.destination_order.0
    }

    pub fn history(&self) -> (r: History)
        ensures
            r == self.history.0,
    {
        self.history.0
    }

    pub fn resource_limits(&self) -> (r: ResourceLimits)
        ensures
            r == self.resource_limits.0,
    {
        self.resource_limits.0
    }

    pub fn transport_priority(&self) -> (r: TransportPriority)
        ensures
            r == self.transport_priority.0,
    {
        self.transport_priority.0
    }

    pub fn lifespan(&self) -> (r: Lifespan)
        ensures
            r == self.lifespan.0,
    {
        self.lifespan.0
    }

    pub fn ownership(&self) -> (r: Ownership)
        ensures
            r == self.ownership.0,
    {
        self.ownership.0
    }

    /// The DataWriter QoS that this topic's QoS implies: every policy the two
    /// share is taken with its flag; user data, ownership strength and writer
    /// data lifecycle are defaults, unflagged.
    pub fn to_datawriter_qos(&self) -> (q: DataWriterQosPolicies)
        ensures
            q.durability == self.durability,
            q.durability_service == self.durability_service,
            q.deadline == self.deadline,
            q.latency_budget == self.latency_budget,
            q.liveliness == self.liveliness,
            q.reliability == self.reliability,
            q.destination_order == self.destination_order,
            q.history == self.history,
            q.resource_limits == self.resource_limits,
            q.transport_priority == self.transport_priority,
            q.lifespan == self.lifespan,
            q.ownership == self.ownership,
            q.user_data.0.value@ == Seq::<u8>::empty(),
            !q.user_data.1,
            q.ownership_strength == (OwnershipStrength(0), false),
            q.writer_data_lifecycle == (
                WriterDataLifecycle { autodispose_unregistered_instance: true },
                false,
            ),
    {
        DataWriterQosPolicies {
            durability: self.durability,
            durability_service: self.durability_service,
            deadline: self.deadline,
            latency_budget: self.latency_budget,
            liveliness: self.liveliness,
            reliability: self.reliability,
            destination_order: self.destination_order,
            history: self.history,
            resource_limits: self.resource_limits,
            transport_priority: self.transport_priority,
            lifespan: self.lifespan,
            user_data: (UserData::default(), false),
            ownership: self.ownership,
            ownership_strength: (OwnershipStrength::default(), false),
            writer_data_lifecycle: (WriterDataLifecycle::default(), false),
        }
    }

    /// The DataReader QoS that this topic's QoS implies: every policy the two
    /// share is taken with its flag; user data, time-based filter and reader
    /// data lifecycle are defaults, unflagged.
    pub fn to_datareader_qos(&self) -> (q: DataReaderQosPolicies)
        ensures
            q.durability == self.durability,
            q.deadline == self.deadline,
            q.latency_budget == self.latency_budget,
            q.liveliness == self.liveliness,
            q.reliability == self.reliability,
            q.destination_order == self.destination_order,
            q.history == self.history,
            q.resource_limits == self.resource_limits,
            q.ownership == self.ownership,
            q.user_data.0.value@ == Seq::<u8>::empty(),
            !q.user_data.1,
            q.time_based_filter == (
                TimeBasedFilter { minimun_separation: crate::structure::duration::Duration { seconds: 0, fraction: 0 } },
                false,
            ),
            q.reader_data_lifecycle == (
                ReaderDataLifecycle {
                    autopurge_nowriter_samples_delay: crate::structure::duration::Duration::spec_infinite(),
                    autopurge_dispose_samples_delay: crate::structure::duration::Duration::spec_infinite(),
                },
                false,
            ),
    {
        DataReaderQosPolicies {
            durability: self.durability,
            deadline: self.deadline,
            latency_budget: self.latency_budget,
            liveliness: self.liveliness,
            reliability: self.reliability,
            destination_order: self.destination_order,
            history: self.history,
            resource_limits: self.resource_limits,
            user_data: (UserData::default(), false),
            ownership: self.ownership,
            time_based_filter: (TimeBasedFilter::default(), false),
            reader_data_lifecycle: (ReaderDataLifecycle::default(), false),
        }
    }
}

/// For setting QoS on a DataReader.
pub enum DataReaderQos {
    /// The default QoS of a DataReader (see the subscriber's default).
    Default,
    Policies(Box<DataReaderQosPolicies>),
}

/// For setting QoS on a DataWriter.
pub enum DataWriterQos {
    /// The default QoS of a DataWriter (see the publisher's default).
    Default,
    Policies(Box<DataWriterQosPolicies>),
}

/// QoS policies that configure a DataWriter.
pub struct DataWriterQosPolicies {
    pub durability: (Durability, bool),
    pub durability_service: (DurabilityService, bool),
    pub deadline: (Deadline, bool),
    pub latency_budget: (LatencyBudget, bool),
    pub liveliness: (Liveliness, bool),
    pub reliability: (Reliability, bool),
    pub destination_order: (DestinationOrder, bool),
    pub history: (History, bool),
    pub resource_limits: (ResourceLimits, bool),
    pub transport_priority: (TransportPriority, bool),
    pub lifespan: (Lifespan, bool),
    pub user_data: (UserData, bool),
    pub ownership: (Ownership, bool),
    pub ownership_strength: (OwnershipStrength, bool),
    pub writer_data_lifecycle: (WriterDataLifecycle, bool),
}

/// QoS policies that configure a DataReader.
pub struct DataReaderQosPolicies {
    pub durability: (Durability, bool),
    pub deadline: (Deadline, bool),
    pub latency_budget: (LatencyBudget, bool),
    pub liveliness: (Liveliness, bool),
    pub reliability: (Reliability, bool),
    pub destination_order: (DestinationOrder, bool),
    pub history: (History, bool),
    pub resource_limits: (ResourceLimits, bool),
    pub user_data: (UserData, bool),
    pub ownership: (Ownership, bool),
    pub time_based_filter: (TimeBasedFilter, bool),
    pub reader_data_lifecycle: (ReaderDataLifecycle, bool),
}

impl DataWriterQosPolicies {
    pub fn durability(&self) -> (r: Durability)
        ensures
            r == self.durability.0,
    {
        self.durability.0
    }

    pub fn durability_service(&self) -> (r: DurabilityService)
        ensures
            r == self.durability_service.0,
    {
        self.durability_service.0
    }

    pub fn deadline(&self) -> (r: Deadline)
        ensures
            r == self.deadline.0,
    {
        self.deadline.0
    }

    pub fn latency_budget(&self) -> (r: LatencyBudget)
        ensures
            r == self.latency_budget.0,
    {
        self.latency_budget.0
    }

    pub fn liveliness(&self) -> (r: Liveliness)
        ensures
            r == self.liveliness.0,
    {
        self.liveliness.0
    }

    pub fn reliability(&self) -> (r: Reliability)
        ensures
            r == self.reliability.0,
    {
        self.reliability.0
    }

    pub fn destination_order(&self) -> (r: DestinationOrder)
        ensures
            r == self.destination_order.0,
    {
        self.destination_order.0
    }

    pub fn history(&self) -> (r: History)
        ensures
            r == self.history.0,
    {
        self.history.0
    }

    pub fn resource_limits(&self) -> (r: ResourceLimits)
        ensures
            r == self.resource_limits.0,
    {
        self.resource_limits.0
    }

    pub fn transport_priority(&self) -> (r: TransportPriority)
        ensures
            r == self.transport_priority.0,
    {
        self.transport_priority.0
    }

    pub fn lifespan(&self) -> (r: Lifespan)
        ensures
            r == self.lifespan.0,
    {
        self.lifespan.0
    }

    pub fn user_data(&self) -> (r: UserData)
        ensures
            r.value@ == self.user_data.0.value@,
    {
        self.user_data.0.clone()
    }

    pub fn ownership(&self) -> (r: Ownership)
        ensures
            r == self.ownership.0,
    {
        self.ownership.0
    }

    pub fn ownership_strength(&self) -> (r: OwnershipStrength)
        ensures
            r == self.ownership_strength.0,
    {
        self.ownership_strength.0
    }

    pub fn writer_data_lifecycle(&self) -> (r: WriterDataLifecycle)
        ensures
            r == self.writer_data_lifecycle.0,
    {
        self.writer_data_lifecycle.0
    }

    /// `Ok` exactly when this writer's offered QoS satisfies the requested QoS
    /// of the remote reader `qos`; otherwise the error lists every policy that
    /// does not match.
    pub fn is_compatible(&self, qos: &DataReaderQosPolicies) -> (res: Result<(), String>)
        ensures
            res is Ok <==> spec_compatible(*self, *qos),
            res matches Err(m) ==> m@ == compat_message(*self, *qos, true),
    {
        check_compatible(self, qos, true)
    }

    /// Merges `policies` into this set, policy by policy: a differing policy
    /// is replaced only by one the user set explicitly, an equal one becomes
    /// explicitly set if either side was (reliability is only replaced).
    pub fn combine(&mut self, policies: DataWriterQosPolicies)
        ensures
            final(self).durability == combined(old(self).durability, policies.durability, old(self).durability.0 == policies.durability.0),
            final(self).durability_service == combined(old(self).durability_service, policies.durability_service, old(self).durability_service.0 == policies.durability_service.0),
            final(self).deadline == combined(old(self).deadline, policies.deadline, old(self).deadline.0 == policies.deadline.0),
            final(self).latency_budget == combined(old(self).latency_budget, policies.latency_budget, old(self).latency_budget.0 == policies.latency_budget.0),
            final(self).liveliness == combined(old(self).liveliness, policies.liveliness, old(self).liveliness.0 == policies.liveliness.0),
            final(self).reliability == combined_reliability(old(self).reliability, policies.reliability),
            final(self).destination_order == combined(old(self).destination_order, policies.destination_order, old(self).destination_order.0 == policies.destination_order.0),
            final(self).history == combined(old(self).history, policies.history, old(self).history.0 == policies.history.0),
            final(self).resource_limits == combined(old(self).resource_limits, policies.resource_limits, old(self).resource_limits.0 == policies.resource_limits.0),
            final(self).transport_priority == combined(old(self).transport_priority, policies.transport_priority, old(self).transport_priority.0 == policies.transport_priority.0),
            final(self).lifespan == combined(old(self).lifespan, policies.lifespan, old(self).lifespan.0 == policies.lifespan.0),
            final(self).user_data.1 == combined(old(self).user_data, policies.user_data, old(self).user_data.0.value@ == policies.user_data.0.value@).1,
            final(self).user_data.0.value@ == combined(old(self).user_data, policies.user_data, old(self).user_data.0.value@ == policies.user_data.0.value@).0.value@,
            final(self).ownership == combined(old(self).ownership, policies.ownership, old(self).ownership.0 == policies.ownership.0),
            final(self).ownership_strength == combined(old(self).ownership_strength, policies.ownership_strength, old(self).ownership_strength.0 == policies.ownership_strength.0),
            final(self).writer_data_lifecycle == combined(old(self).writer_data_lifecycle, policies.writer_data_lifecycle, old(self).writer_data_lifecycle.0 == policies.writer_data_lifecycle.0),
    {
        let same = self.durability.0 == policies.durability.0;
        combine_slot(&mut self.durability, policies.durability, same);
        let same = self.durability_service.0 == policies.durability_service.0;
        combine_slot(&mut self.durability_service, policies.durability_service, same);
        let same = self.deadline.0 == policies.deadline.0;
        combine_slot(&mut self.deadline, policies.deadline, same);
        let same = self.latency_budget.0 == policies.latency_budget.0;
        combine_slot(&mut self.latency_budget, policies.latency_budget, same);
        let same = self.liveliness.0 == policies.liveliness.0;
        combine_slot(&mut self.liveliness, policies.liveliness, same);
        if self.reliability.0 != policies.reliability.0 && policies.reliability.1 {
            self.reliability = policies.reliability;
        }
        let same = self.destination_order.0 == policies.destination_order.0;
        combine_slot(&mut self.destination_order, policies.destination_order, same);
        let same = self.history.0 == policies.history.0;
        combine_slot(&mut self.history, policies.history, same);
        let same = self.resource_limits.0 == policies.resource_limits.0;
        combine_slot(&mut self.resource_limits, policies.resource_limits, same);
        let same = self.transport_priority.0 == policies.transport_priority.0;
        combine_slot(&mut self.transport_priority, policies.transport_priority, same);
        let same = self.lifespan.0 == policies.lifespan.0;
        combine_slot(&mut self.lifespan, policies.lifespan, same);
        let same = self.user_data.0.same(&policies.user_data.0);
        combine_slot(&mut self.user_data, policies.user_data, same);
        let same = self.ownership.0 == policies.ownership.0;
        combine_slot(&mut self.ownership, policies.ownership, same);
        let same = self.ownership_strength.0 == policies.ownership_strength.0;
        combine_slot(&mut self.ownership_strength, policies.ownership_strength, same);
        let same = self.writer_data_lifecycle.0 == policies.writer_data_lifecycle.0;
        combine_slot(&mut self.writer_data_lifecycle, policies.writer_data_lifecycle, same);
    }
}

impl DataReaderQosPolicies {
    pub fn durability(&self) -> (r: Durability)
        ensures
            r == self.durability.0,
    {
        self.durability.0
    }

    pub fn deadline(&self) -> (r: Deadline)
        ensures
            r == self.deadline.0,
    {
        self.deadline.0
    }

    pub fn latency_budget(&self) -> (r: LatencyBudget)
        ensures
            r == self.latency_budget.0,
    {
        self.latency_budget.0
    }

    pub fn liveliness(&self) -> (r: Liveliness)
        ensures
            r == self.liveliness.0,
    {
        self.liveliness.0
    }

    pub fn reliability(&self) -> (r: Reliability)
        ensures
            r == self.reliability.0,
    {
        self.reliability.0
    }

    pub fn destination_order(&self) -> (r: DestinationOrder)
        ensures
            r == self.destination_order.0,
    {
        self.destination_order.0
    }

    pub fn history(&self) -> (r: History)
        ensures
            r == self.history.0,
    {
        self.history.0
    }

    pub fn resource_limits(&self) -> (r: ResourceLimits)
        ensures
            r == self.resource_limits.0,
    {
        self.resource_limits.0
    }

    pub fn user_data(&self) -> (r: UserData)
        ensures
            r.value@ == self.user_data.0.value@,
    {
        self.user_data.0.clone()
    }

    pub fn ownership(&self) -> (r: Ownership)
        ensures
            r == self.ownership.0,
    {
        self.ownership.0
    }

    pub fn time_based_filter(&self) -> (r: TimeBasedFilter)
        ensures
            r == self.time_based_filter.0,
    {
        self.time_based_filter.0
    }

    pub fn reader_data_lifecycle(&self) -> (r: ReaderDataLifecycle)
        ensures
            r == self.reader_data_lifecycle.0,
    {
        self.reader_data_lifecycle.0
    }

    /// `Ok` exactly when the offered QoS of the remote writer `qos` satisfies
    /// this reader's requested QoS; otherwise the error lists every policy
    /// that does not match.
    pub fn is_compatible(&self, qos: &DataWriterQosPolicies) -> (res: Result<(), String>)
        ensures
            res is Ok <==> spec_compatible(*qos, *self),
            res matches Err(m) ==> m@ == compat_message(*qos, *self, false),
    {
        check_compatible(qos, self, false)
    }

    /// Merges `policies` into this set, policy by policy, by the same rules as
    /// [`DataWriterQosPolicies::combine`].
    pub fn combine(&mut self, policies: DataReaderQosPolicies)
        ensures
            final(self).durability == combined(old(self).durability, policies.durability, old(self).durability.0 == policies.durability.0),
            final(self).deadline == combined(old(self).deadline, policies.deadline, old(self).deadline.0 == policies.deadline.0),
            final(self).latency_budget == combined(old(self).latency_budget, policies.latency_budget, old(self).latency_budget.0 == policies.latency_budget.0),
            final(self).liveliness == combined(old(self).liveliness, policies.liveliness, old(self).liveliness.0 == policies.liveliness.0),
            final(self).reliability == combined_reliability(old(self).reliability, policies.reliability),
            final(self).destination_order == combined(old(self).destination_order, policies.destination_order, old(self).destination_order.0 == policies.destination_order.0),
            final(self).history == combined(old(self).history, policies.history, old(self).history.0 == policies.history.0),
            final(self).resource_limits == combined(old(self).resource_limits, policies.resource_limits, old(self).resource_limits.0 == policies.resource_limits.0),
            final(self).user_data.1 == combined(old(self).user_data, policies.user_data, old(self).user_data.0.value@ == policies.user_data.0.value@).1,
            final(self).user_data.0.value@ == combined(old(self).user_data, policies.user_data, old(self).user_data.0.value@ == policies.user_data.0.value@).0.value@,
            final(self).ownership == combined(old(self).ownership, policies.ownership, old(self).ownership.0 == policies.ownership.0),
            final(self).time_based_filter == combined(old(self).time_based_filter, policies.time_based_filter, old(self).time_based_filter.0 == policies.time_based_filter.0),
            final(self).reader_data_lifecycle == combined(old(self).reader_data_lifecycle, policies.reader_data_lifecycle, old(self).reader_data_lifecycle.0 == policies.reader_data_lifecycle.0),
    {
        let same = self.durability.0 == policies.durability.0;
        combine_slot(&mut self.durability, policies.durability, same);
        let same = self.deadline.0 == policies.deadline.0;
        combine_slot(&mut self.deadline, policies.deadline, same);
        let same = self.latency_budget.0 == policies.latency_budget.0;
        combine_slot(&mut self.latency_budget, policies.latency_budget, same);
        let same = self.liveliness.0 == policies.liveliness.0;
        combine_slot(&mut self.liveliness, policies.liveliness, same);
        if self.reliability.0 != policies.reliability.0 && policies.reliability.1 {
            self.reliability = policies.reliability;
        }
        let same = self.destination_order.0 == policies.destination_order.0;
        combine_slot(&mut self.destination_order, policies.destination_order, same);
        let same = self.history.0 == policies.history.0;
        combine_slot(&mut self.history, policies.history, same);
        let same = self.resource_limits.0 == policies.resource_limits.0;
        combine_slot(&mut self.resource_limits, policies.resource_limits, same);
        let same = self.user_data.0.same(&policies.user_data.0);
        combine_slot(&mut self.user_data, policies.user_data, same);
        let same = self.ownership.0 == policies.ownership.0;
        combine_slot(&mut self.ownership, policies.ownership, same);
        let same = self.time_based_filter.0 == policies.time_based_filter.0;
        combine_slot(&mut self.time_based_filter, policies.time_based_filter, same);
        let same = self.reader_data_lifecycle.0 == policies.reader_data_lifecycle.0;
        combine_slot(&mut self.reader_data_lifecycle, policies.reader_data_lifecycle, same);
    }
}

/// For setting QoS on a Publisher.
pub enum PublisherQos {
    /// The default QoS of a Publisher (see the participant's default).
    Default,
    Policies(Box<PublisherQosPolicies>),
}

/// QoS policies that configure a Publisher.
#[derive(Clone)]
pub struct PublisherQosPolicies {
    pub presentation: Presentation,
    pub partition: Partition,
    pub group_data: GroupData,
    pub entity_factory: EntityFactory,
}

/// For setting QoS on a Subscriber.
pub enum SubscriberQos {
    /// The default QoS of a Subscriber (see the participant's default).
    Default,
    Policies(Box<SubscriberQosPolicies>),
}

/// QoS policies that configure a Subscriber.
#[derive(Clone)]
pub struct SubscriberQosPolicies {
    pub presentation: Presentation,
    pub partition: Partition,
    pub group_data: GroupData,
    pub entity_factory: EntityFactory,
}

impl PublisherQosPolicies {
    pub fn presentation(&self) -> (r: Presentation)
        ensures
            r == self.presentation,
    {
        self.presentation
    }

    pub fn partition(&self) -> (r: Partition)
        ensures
            r.spec_names() == self.partition.spec_names(),
    {
        self.partition.clone()
    }

    pub fn group_data(&self) -> (r: GroupData)
        ensures
            r.value@ == self.group_data.value@,
    {
        self.group_data.clone()
    }

    pub fn entity_factory(&self) -> (r: EntityFactory)
        ensures
            r == self.entity_factory,
    {
        self.entity_factory
    }
}

impl SubscriberQosPolicies {
    pub fn presentation(&self) -> (r: Presentation)
        ensures
            r == self.presentation,
    {
        self.presentation
    }

    pub fn partition(&self) -> (r: Partition)
        ensures
            r.spec_names() == self.partition.spec_names(),
    {
        self.partition.clone()
    }

    pub fn group_data(&self) -> (r: GroupData)
        ensures
            r.value@ == self.group_data.value@,
    {
        self.group_data.clone()
    }

    pub fn entity_factory(&self) -> (r: EntityFactory)
        ensures
            r == self.entity_factory,
    {
        self.entity_factory
    }
}

/// Builder of [`DomainParticipantQosPolicies`].
pub struct DomainParticipantQosBuilder {
    pub user_data: Option<UserData>,
    pub entity_factory: Option<EntityFactory>,
}

impl DomainParticipantQosBuilder {
    /// A builder with no policy set.
    pub fn new() -> (b: DomainParticipantQosBuilder)
        ensures
            b.user_data is None,
            b.entity_factory is None,
    {
        DomainParticipantQosBuilder { user_data: None, entity_factory: None }
    }

    pub fn user_data(self, user_data: UserData) -> (b: DomainParticipantQosBuilder)
        ensures
            b == (DomainParticipantQosBuilder { user_data: Some(user_data), ..self }),
    {
        DomainParticipantQosBuilder { user_data: Some(user_data), ..self }
    }

    pub fn entity_factory(self, entity_factory: EntityFactory) -> (b: DomainParticipantQosBuilder)
        ensures
            b == (DomainParticipantQosBuilder { entity_factory: Some(entity_factory), ..self }),
    {
        DomainParticipantQosBuilder { entity_factory: Some(entity_factory), ..self }
    }

    /// The policies: every policy that was set takes the set value, and every other policy its default.
    pub fn build(self) -> (r: DomainParticipantQosPolicies)
        ensures
            self.user_data matches Some(p) ==> r.user_data == p,
            self.user_data is None ==> r.user_data.value@ == Seq::<u8>::empty(),
            r.entity_factory == (match self.entity_factory { Some(p) => p, None => EntityFactory { autoenable_created_entites: true } }),
    {
        DomainParticipantQosPolicies {
            user_data: match self.user_data {
                Some(p) => p,
                None => UserData::default(),
            },
            entity_factory: match self.entity_factory {
                Some(p) => p,
                None => EntityFactory::default(),
            },
        }
    }
}

impl Default for DomainParticipantQosBuilder {
    fn default() -> (b: DomainParticipantQosBuilder)
        ensures
            b.user_data is None,
            b.entity_factory is None,
    {
        DomainParticipantQosBuilder::new()
    }
}

/// Builder of [`TopicQosPolicies`].
pub struct TopicQosBuilder {
    pub topic_data: Option<TopicData>,
    pub durability: Option<Durability>,
    pub durability_service: Option<DurabilityService>,
    pub deadline: Option<Deadline>,
    pub latency_budget: Option<LatencyBudget>,
    pub liveliness: Option<Liveliness>,
    pub reliability: Option<Reliability>,
    pub destination_order: Option<DestinationOrder>,
    pub history: Option<History>,
    pub resource_limits: Option<ResourceLimits>,
    pub transport_priority: Option<TransportPriority>,
    pub lifespan: Option<Lifespan>,
    pub ownership: Option<Ownership>,
}

impl TopicQosBuilder {
    /// A builder with no policy set.
    pub fn new() -> (b: TopicQosBuilder)
        ensures
            b.topic_data is None,
            b.durability is None,
            b.durability_service is None,
            b.deadline is None,
            b.latency_budget is None,
            b.liveliness is None,
            b.reliability is None,
            b.destination_order is None,
            b.history is None,
            b.resource_limits is None,
            b.transport_priority is None,
            b.lifespan is None,
            b.ownership is None,
    {
        TopicQosBuilder { topic_data: None, durability: None, durability_service: None, deadline: None, latency_budget: None, liveliness: None, reliability: None, destination_order: None, history: None, resource_limits: None, transport_priority: None, lifespan: None, ownership: None }
    }

    pub fn topic_data(self, topic_data: TopicData) -> (b: TopicQosBuilder)
        ensures
            b == (TopicQosBuilder { topic_data: Some(topic_data), ..self }),
    {
        TopicQosBuilder { topic_data: Some(topic_data), ..self }
    }

    pub fn durability(self, durability: Durability) -> (b: TopicQosBuilder)
        ensures
            b == (TopicQosBuilder { durability: Some(durability), ..self }),
    {
        TopicQosBuilder { durability: Some(durability), ..self }
    }

    pub fn durability_service(self, durability_service: DurabilityService) -> (b: TopicQosBuilder)
        ensures
            b == (TopicQosBuilder { durability_service: Some(durability_service), ..self }),
    {
        TopicQosBuilder { durability_service: Some(durability_service), ..self }
    }

    pub fn deadline(self, deadline: Deadline) -> (b: TopicQosBuilder)
        ensures
            b == (TopicQosBuilder { deadline: Some(deadline), ..self }),
    {
        TopicQosBuilder { deadline: Some(deadline), ..self }
    }

    pub fn latency_budget(self, latency_budget: LatencyBudget) -> (b: TopicQosBuilder)
        ensures
            b == (TopicQosBuilder { latency_budget: Some(latency_budget), ..self }),
    {
        TopicQosBuilder { latency_budget: Some(latency_budget), ..self }
    }

    pub fn liveliness(self, liveliness: Liveliness) -> (b: TopicQosBuilder)
        ensures
            b == (TopicQosBuilder { liveliness: Some(liveliness), ..self }),
    {
        TopicQosBuilder { liveliness: Some(liveliness), ..self }
    }

    pub fn reliability(self, reliability: Reliability) -> (b: TopicQosBuilder)
        ensures
            b == (TopicQosBuilder { reliability: Some(reliability), ..self }),
    {
        TopicQosBuilder { reliability: Some(reliability), ..self }
    }

    pub fn destination_order(self, destination_order: DestinationOrder) -> (b: TopicQosBuilder)
        ensures
            b == (TopicQosBuilder { destination_order: Some(destination_order), ..self }),
    {
        TopicQosBuilder { destination_order: Some(destination_order), ..self }
    }

    pub fn history(self, history: History) -> (b: TopicQosBuilder)
        ensures
            b == (TopicQosBuilder { history: Some(history), ..self }),
    {
        TopicQosBuilder { history: Some(history), ..self }
    }

    pub fn resource_limits(self, resource_limits: ResourceLimits) -> (b: TopicQosBuilder)
        ensures
            b == (TopicQosBuilder { resource_limits: Some(resource_limits), ..self }),
    {
        TopicQosBuilder { resource_limits: Some(resource_limits), ..self }
    }

    pub fn transport_priority(self, transport_priority: TransportPriority) -> (b: TopicQosBuilder)
        ensures
            b == (TopicQosBuilder { transport_priority: Some(transport_priority), ..self }),
    {
        TopicQosBuilder { transport_priority: Some(transport_priority), ..self }
    }

    pub fn lifespan(self, lifespan: Lifespan) -> (b: TopicQosBuilder)
        ensures
            b == (TopicQosBuilder { lifespan: Some(lifespan), ..self }),
    {
        TopicQosBuilder { lifespan: Some(lifespan), ..self }
    }

    pub fn ownership(self, ownership: Ownership) -> (b: TopicQosBuilder)
        ensures
            b == (TopicQosBuilder { ownership: Some(ownership), ..self }),
    {
        TopicQosBuilder { ownership: Some(ownership), ..self }
    }

    /// The policies: every policy that was set takes the set value, flagged as explicitly set; every other policy takes its default, unflagged.
    pub fn build(self) -> (r: TopicQosPolicies)
        ensures
            r.topic_data.1 == self.topic_data is Some,
            self.topic_data matches Some(p) ==> r.topic_data.0 == p,
            self.topic_data is None ==> r.topic_data.0.value@ == Seq::<u8>::empty(),
            r.durability == decided(self.durability, Durability::Volatile),
            r.durability_service == decided(self.durability_service, DurabilityService::spec_default()),
            r.deadline == decided(self.deadline, Deadline { period: crate::structure::duration::Duration::spec_infinite() }),
            r.latency_budget == decided(self.latency_budget, LatencyBudget(crate::structure::duration::Duration { seconds: 0, fraction: 0 })),
            r.liveliness == decided(self.liveliness, Liveliness::spec_default()),
            r.reliability == decided(self.reliability, Reliability::spec_default_besteffort()),
            r.destination_order == decided(self.destination_order, DestinationOrder::ByReceptionTimestamp),
            r.history == decided(self.history, History::spec_default()),
            r.resource_limits == decided(self.resource_limits, ResourceLimits::spec_default()),
            r.transport_priority == decided(self.transport_priority, TransportPriority { value: 0 }),
            r.lifespan == decided(self.lifespan, Lifespan(crate::structure::duration::Duration::spec_infinite())),
            r.ownership == decided(self.ownership, Ownership::Shared),
    {
        TopicQosPolicies {
            topic_data: match self.topic_data {
                Some(p) => (p, true),
                None => (TopicData::default(), false),
            },
            durability: match self.durability {
                Some(p) => (p, true),
                None => (Durability::default(), false),
            },
            durability_service: match self.durability_service {
                Some(p) => (p, true),
                None => (DurabilityService::default(), false),
            },
            deadline: match self.deadline {
                Some(p) => (p, true),
                None => (Deadline::default(), false),
            },
            latency_budget: match self.latency_budget {
                Some(p) => (p, true),
                None => (LatencyBudget::default(), false),
            },
            liveliness: match self.liveliness {
                Some(p) => (p, true),
                None => (Liveliness::default(), false),
            },
            reliability: match self.reliability {
                Some(p) => (p, true),
                None => (Reliability::default_besteffort(), false),
            },
            destination_order: match self.destination_order {
                Some(p) => (p, true),
                None => (DestinationOrder::default(), false),
            },
            history: match self.history {
                Some(p) => (p, true),
                None => (History::default(), false),
            },
            resource_limits: match self.resource_limits {
                Some(p) => (p, true),
                None => (ResourceLimits::default(), false),
            },
            transport_priority: match self.transport_priority {
                Some(p) => (p, true),
                None => (TransportPriority::default(), false),
            },
            lifespan: match self.lifespan {
                Some(p) => (p, true),
                None => (Lifespan::default(), false),
            },
            ownership: match self.ownership {
                Some(p) => (p, true),
                None => (Ownership::default(), false),
            },
        }
    }
}

impl Default for TopicQosBuilder {
    fn default() -> (b: TopicQosBuilder)
        ensures
            b.topic_data is None,
            b.durability is None,
            b.durability_service is None,
            b.deadline is None,
            b.latency_budget is None,
            b.liveliness is None,
            b.reliability is None,
            b.destination_order is None,
            b.history is None,
            b.resource_limits is None,
            b.transport_priority is None,
            b.lifespan is None,
            b.ownership is None,
    {
        TopicQosBuilder::new()
    }
}

/// Builder of [`DataWriterQosPolicies`].
pub struct DataWriterQosBuilder {
    pub durability: Option<Durability>,
    pub durability_service: Option<DurabilityService>,
    pub deadline: Option<Deadline>,
    pub latency_budget: Option<LatencyBudget>,
    pub liveliness: Option<Liveliness>,
    pub reliability: Option<Reliability>,
    pub destination_order: Option<DestinationOrder>,
    pub history: Option<History>,
    pub resource_limits: Option<ResourceLimits>,
    pub transport_priority: Option<TransportPriority>,
    pub lifespan: Option<Lifespan>,
    pub user_data: Option<UserData>,
    pub ownership: Option<Ownership>,
    pub ownership_strength: Option<OwnershipStrength>,
    pub writer_data_lifecycle: Option<WriterDataLifecycle>,
}

impl DataWriterQosBuilder {
    /// A builder with no policy set.
    pub fn new() -> (b: DataWriterQosBuilder)
        ensures
            b.durability is None,
            b.durability_service is None,
            b.deadline is None,
            b.latency_budget is None,
            b.liveliness is None,
            b.reliability is None,
            b.destination_order is None,
            b.history is None,
            b.resource_limits is None,
            b.transport_priority is None,
            b.lifespan is None,
            b.user_data is None,
            b.ownership is None,
            b.ownership_strength is None,
            b.writer_data_lifecycle is None,
    {
        DataWriterQosBuilder { durability: None, durability_service: None, deadline: None, latency_budget: None, liveliness: None, reliability: None, destination_order: None, history: None, resource_limits: None, transport_priority: None, lifespan: None, user_data: None, ownership: None, ownership_strength: None, writer_data_lifecycle: None }
    }

    pub fn durability(self, durability: Durability) -> (b: DataWriterQosBuilder)
        ensures
            b == (DataWriterQosBuilder { durability: Some(durability), ..self }),
    {
        DataWriterQosBuilder { durability: Some(durability), ..self }
    }

    pub fn durability_service(self, durability_service: DurabilityService) -> (b: DataWriterQosBuilder)
        ensures
            b == (DataWriterQosBuilder { durability_service: Some(durability_service), ..self }),
    {
        DataWriterQosBuilder { durability_service: Some(durability_service), ..self }
    }

    pub fn deadline(self, deadline: Deadline) -> (b: DataWriterQosBuilder)
        ensures
            b == (DataWriterQosBuilder { deadline: Some(deadline), ..self }),
    {
        DataWriterQosBuilder { deadline: Some(deadline), ..self }
    }

    pub fn latency_budget(self, latency_budget: LatencyBudget) -> (b: DataWriterQosBuilder)
        ensures
            b == (DataWriterQosBuilder { latency_budget: Some(latency_budget), ..self }),
    {
        DataWriterQosBuilder { latency_budget: Some(latency_budget), ..self }
    }

    pub fn liveliness(self, liveliness: Liveliness) -> (b: DataWriterQosBuilder)
        ensures
            b == (DataWriterQosBuilder { liveliness: Some(liveliness), ..self }),
    {
        DataWriterQosBuilder { liveliness: Some(liveliness), ..self }
    }

    pub fn reliability(self, reliability: Reliability) -> (b: DataWriterQosBuilder)
        ensures
            b == (DataWriterQosBuilder { reliability: Some(reliability), ..self }),
    {
        DataWriterQosBuilder { reliability: Some(reliability), ..self }
    }

    pub fn destination_order(self, destination_order: DestinationOrder) -> (b: DataWriterQosBuilder)
        ensures
            b == (DataWriterQosBuilder { destination_order: Some(destination_order), ..self }),
    {
        DataWriterQosBuilder { destination_order: Some(destination_order), ..self }
    }

    pub fn history(self, history: History) -> (b: DataWriterQosBuilder)
        ensures
            b == (DataWriterQosBuilder { history: Some(history), ..self }),
    {
        DataWriterQosBuilder { history: Some(history), ..self }
    }

    pub fn resource_limits(self, resource_limits: ResourceLimits) -> (b: DataWriterQosBuilder)
        ensures
            b == (DataWriterQosBuilder { resource_limits: Some(resource_limits), ..self }),
    {
        DataWriterQosBuilder { resource_limits: Some(resource_limits), ..self }
    }

    pub fn transport_priority(self, transport_priority: TransportPriority) -> (b: DataWriterQosBuilder)
        ensures
            b == (DataWriterQosBuilder { transport_priority: Some(transport_priority), ..self }),
    {
        DataWriterQosBuilder { transport_priority: Some(transport_priority), ..self }
    }

    pub fn lifespan(self, lifespan: Lifespan) -> (b: DataWriterQosBuilder)
        ensures
            b == (DataWriterQosBuilder { lifespan: Some(lifespan), ..self }),
    {
        DataWriterQosBuilder { lifespan: Some(lifespan), ..self }
    }

    pub fn user_data(self, user_data: UserData) -> (b: DataWriterQosBuilder)
        ensures
            b == (DataWriterQosBuilder { user_data: Some(user_data), ..self }),
    {
        DataWriterQosBuilder { user_data: Some(user_data), ..self }
    }

    pub fn ownership(self, ownership: Ownership) -> (b: DataWriterQosBuilder)
        ensures
            b == (DataWriterQosBuilder { ownership: Some(ownership), ..self }),
    {
        DataWriterQosBuilder { ownership: Some(ownership), ..self }
    }

    pub fn ownership_strength(self, ownership_strength: OwnershipStrength) -> (b: DataWriterQosBuilder)
        ensures
            b == (DataWriterQosBuilder { ownership_strength: Some(ownership_strength), ..self }),
    {
        DataWriterQosBuilder { ownership_strength: Some(ownership_strength), ..self }
    }

    pub fn writer_data_lifecycle(self, writer_data_lifecycle: WriterDataLifecycle) -> (b: DataWriterQosBuilder)
        ensures
            b == (DataWriterQosBuilder { writer_data_lifecycle: Some(writer_data_lifecycle), ..self }),
    {
        DataWriterQosBuilder { writer_data_lifecycle: Some(writer_data_lifecycle), ..self }
    }

    /// The policies: every policy that was set takes the set value, flagged as explicitly set; every other policy takes its default, unflagged.
    pub fn build(self) -> (r: DataWriterQosPolicies)
        ensures
            r.durability == decided(self.durability, Durability::Volatile),
            r.durability_service == decided(self.durability_service, DurabilityService::spec_default()),
            r.deadline == decided(self.deadline, Deadline { period: crate::structure::duration::Duration::spec_infinite() }),
            r.latency_budget == decided(self.latency_budget, LatencyBudget(crate::structure::duration::Duration { seconds: 0, fraction: 0 })),
            r.liveliness == decided(self.liveliness, Liveliness::spec_default()),
            r.reliability == decided(self.reliability, Reliability::spec_default_reliable()),
            r.destination_order == decided(self.destination_order, DestinationOrder::ByReceptionTimestamp),
            r.history == decided(self.history, History::spec_default()),
            r.resource_limits == decided(self.resource_limits, ResourceLimits::spec_default()),
            r.transport_priority == decided(self.transport_priority, TransportPriority { value: 0 }),
            r.lifespan == decided(self.lifespan, Lifespan(crate::structure::duration::Duration::spec_infinite())),
            r.user_data.1 == self.user_data is Some,
            self.user_data matches Some(p) ==> r.user_data.0 == p,
            self.user_data is None ==> r.user_data.0.value@ == Seq::<u8>::empty(),
            r.ownership == decided(self.ownership, Ownership::Shared),
            r.ownership_strength == decided(self.ownership_strength, OwnershipStrength(0)),
            r.writer_data_lifecycle == decided(self.writer_data_lifecycle, WriterDataLifecycle { autodispose_unregistered_instance: true }),
    {
        DataWriterQosPolicies {
            durability: match self.durability {
                Some(p) => (p, true),
                None => (Durability::default(), false),
            },
            durability_service: match self.durability_service {
                Some(p) => (p, true),
                None => (DurabilityService::default(), false),
            },
            deadline: match self.deadline {
                Some(p) => (p, true),
                None => (Deadline::default(), false),
            },
            latency_budget: match self.latency_budget {
                Some(p) => (p, true),
                None => (LatencyBudget::default(), false),
            },
            liveliness: match self.liveliness {
                Some(p) => (p, true),
                None => (Liveliness::default(), false),
            },
            reliability: match self.reliability {
                Some(p) => (p, true),
                None => (Reliability::default_reliable(), false),
            },
            destination_order: match self.destination_order {
                Some(p) => (p, true),
                None => (DestinationOrder::default(), false),
            },
            history: match self.history {
                Some(p) => (p, true),
                None => (History::default(), false),
            },
            resource_limits: match self.resource_limits {
                Some(p) => (p, true),
                None => (ResourceLimits::default(), false),
            },
            transport_priority: match self.transport_priority {
                Some(p) => (p, true),
                None => (TransportPriority::default(), false),
            },
            lifespan: match self.lifespan {
                Some(p) => (p, true),
                None => (Lifespan::default(), false),
            },
            user_data: match self.user_data {
                Some(p) => (p, true),
                None => (UserData::default(), false),
            },
            ownership: match self.ownership {
                Some(p) => (p, true),
                None => (Ownership::default(), false),
            },
            ownership_strength: match self.ownership_strength {
                Some(p) => (p, true),
                None => (OwnershipStrength::default(), false),
            },
            writer_data_lifecycle: match self.writer_data_lifecycle {
                Some(p) => (p, true),
                None => (WriterDataLifecycle::default(), false),
            },
        }
    }
}

impl Default for DataWriterQosBuilder {
    fn default() -> (b: DataWriterQosBuilder)
        ensures
            b.durability is None,
            b.durability_service is None,
            b.deadline is None,
            b.latency_budget is None,
            b.liveliness is None,
            b.reliability is None,
            b.destination_order is None,
            b.history is None,
            b.resource_limits is None,
            b.transport_priority is None,
            b.lifespan is None,
            b.user_data is None,
            b.ownership is None,
            b.ownership_strength is None,
            b.writer_data_lifecycle is None,
    {
        DataWriterQosBuilder::new()
    }
}

/// Builder of [`PublisherQosPolicies`].
pub struct PublisherQosBuilder {
    pub presentation: Option<Presentation>,
    pub partition: Option<Partition>,
    pub group_data: Option<GroupData>,
    pub entity_factory: Option<EntityFactory>,
}

impl PublisherQosBuilder {
    /// A builder with no policy set.
    pub fn new() -> (b: PublisherQosBuilder)
        ensures
            b.presentation is None,
            b.partition is None,
            b.group_data is None,
            b.entity_factory is None,
    {
        PublisherQosBuilder { presentation: None, partition: None, group_data: None, entity_factory: None }
    }

    pub fn presentation(self, presentation: Presentation) -> (b: PublisherQosBuilder)
        ensures
            b == (PublisherQosBuilder { presentation: Some(presentation), ..self }),
    {
        PublisherQosBuilder { presentation: Some(presentation), ..self }
    }

    pub fn partition(self, partition: Partition) -> (b: PublisherQosBuilder)
        ensures
            b == (PublisherQosBuilder { partition: Some(partition), ..self }),
    {
        PublisherQosBuilder { partition: Some(partition), ..self }
    }

    pub fn group_data(self, group_data: GroupData) -> (b: PublisherQosBuilder)
        ensures
            b == (PublisherQosBuilder { group_data: Some(group_data), ..self }),
    {
        PublisherQosBuilder { group_data: Some(group_data), ..self }
    }

    pub fn entity_factory(self, entity_factory: EntityFactory) -> (b: PublisherQosBuilder)
        ensures
            b == (PublisherQosBuilder { entity_factory: Some(entity_factory), ..self }),
    {
        PublisherQosBuilder { entity_factory: Some(entity_factory), ..self }
    }

    /// The policies: every policy that was set takes the set value, and every other policy its default.
    pub fn build(self) -> (r: PublisherQosPolicies)
        ensures
            r.presentation == (match self.presentation { Some(p) => p, None => Presentation::spec_default() }),
            self.partition matches Some(p) ==> r.partition == p,
            self.partition is None ==> r.partition.spec_names() == seq![Seq::<char>::empty()],
            self.group_data matches Some(p) ==> r.group_data == p,
            self.group_data is None ==> r.group_data.value@ == Seq::<u8>::empty(),
            r.entity_factory == (match self.entity_factory { Some(p) => p, None => EntityFactory { autoenable_created_entites: true } }),
    {
        PublisherQosPolicies {
            presentation: match self.presentation {
                Some(p) => p,
                None => Presentation::default(),
            },
            partition: match self.partition {
                Some(p) => p,
                None => Partition::default(),
            },
            group_data: match self.group_data {
                Some(p) => p,
                None => GroupData::default(),
            },
            entity_factory: match self.entity_factory {
                Some(p) => p,
                None => EntityFactory::default(),
            },
        }
    }
}

impl Default for PublisherQosBuilder {
    fn default() -> (b: PublisherQosBuilder)
        ensures
            b.presentation is None,
            b.partition is None,
            b.group_data is None,
            b.entity_factory is None,
    {
        PublisherQosBuilder::new()
    }
}

/// Builder of [`DataReaderQosPolicies`].
pub struct DataReaderQosBuilder {
    pub durability: Option<Durability>,
    pub deadline: Option<Deadline>,
    pub latency_budget: Option<LatencyBudget>,
    pub liveliness: Option<Liveliness>,
    pub reliability: Option<Reliability>,
    pub destination_order: Option<DestinationOrder>,
    pub history: Option<History>,
    pub resource_limits: Option<ResourceLimits>,
    pub user_data: Option<UserData>,
    pub ownership: Option<Ownership>,
    pub time_based_filter: Option<TimeBasedFilter>,
    pub reader_data_lifecycle: Option<ReaderDataLifecycle>,
}

impl DataReaderQosBuilder {
    /// A builder with no policy set.
    pub fn new() -> (b: DataReaderQosBuilder)
        ensures
            b.durability is None,
            b.deadline is None,
            b.latency_budget is None,
            b.liveliness is None,
            b.reliability is None,
            b.destination_order is None,
            b.history is None,
            b.resource_limits is None,
            b.user_data is None,
            b.ownership is None,
            b.time_based_filter is None,
            b.reader_data_lifecycle is None,
    {
        DataReaderQosBuilder { durability: None, deadline: None, latency_budget: None, liveliness: None, reliability: None, destination_order: None, history: None, resource_limits: None, user_data: None, ownership: None, time_based_filter: None, reader_data_lifecycle: None }
    }

    pub fn durability(self, durability: Durability) -> (b: DataReaderQosBuilder)
        ensures
            b == (DataReaderQosBuilder { durability: Some(durability), ..self }),
    {
        DataReaderQosBuilder { durability: Some(durability), ..self }
    }

    pub fn deadline(self, deadline: Deadline) -> (b: DataReaderQosBuilder)
        ensures
            b == (DataReaderQosBuilder { deadline: Some(deadline), ..self }),
    {
        DataReaderQosBuilder { deadline: Some(deadline), ..self }
    }

    pub fn latency_budget(self, latency_budget: LatencyBudget) -> (b: DataReaderQosBuilder)
        ensures
            b == (DataReaderQosBuilder { latency_budget: Some(latency_budget), ..self }),
    {
        DataReaderQosBuilder { latency_budget: Some(latency_budget), ..self }
    }

    pub fn liveliness(self, liveliness: Liveliness) -> (b: DataReaderQosBuilder)
        ensures
            b == (DataReaderQosBuilder { liveliness: Some(liveliness), ..self }),
    {
        DataReaderQosBuilder { liveliness: Some(liveliness), ..self }
    }

    pub fn reliability(self, reliability: Reliability) -> (b: DataReaderQosBuilder)
        ensures
            b == (DataReaderQosBuilder { reliability: Some(reliability), ..self }),
    {
        DataReaderQosBuilder { reliability: Some(reliability), ..self }
    }

    pub fn destination_order(self, destination_order: DestinationOrder) -> (b: DataReaderQosBuilder)
        ensures
            b == (DataReaderQosBuilder { destination_order: Some(destination_order), ..self }),
    {
        DataReaderQosBuilder { destination_order: Some(destination_order), ..self }
    }

    pub fn history(self, history: History) -> (b: DataReaderQosBuilder)
        ensures
            b == (DataReaderQosBuilder { history: Some(history), ..self }),
    {
        DataReaderQosBuilder { history: Some(history), ..self }
    }

    pub fn resource_limits(self, resource_limits: ResourceLimits) -> (b: DataReaderQosBuilder)
        ensures
            b == (DataReaderQosBuilder { resource_limits: Some(resource_limits), ..self }),
    {
        DataReaderQosBuilder { resource_limits: Some(resource_limits), ..self }
    }

    pub fn user_data(self, user_data: UserData) -> (b: DataReaderQosBuilder)
        ensures
            b == (DataReaderQosBuilder { user_data: Some(user_data), ..self }),
    {
        DataReaderQosBuilder { user_data: Some(user_data), ..self }
    }

    pub fn ownership(self, ownership: Ownership) -> (b: DataReaderQosBuilder)
        ensures
            b == (DataReaderQosBuilder { ownership: Some(ownership), ..self }),
    {
        DataReaderQosBuilder { ownership: Some(ownership), ..self }
    }

    pub fn time_based_filter(self, time_based_filter: TimeBasedFilter) -> (b: DataReaderQosBuilder)
        ensures
            b == (DataReaderQosBuilder { time_based_filter: Some(time_based_filter), ..self }),
    {
        DataReaderQosBuilder { time_based_filter: Some(time_based_filter), ..self }
    }

    pub fn reader_data_lifecycle(self, reader_data_lifecycle: ReaderDataLifecycle) -> (b: DataReaderQosBuilder)
        ensures
            b == (DataReaderQosBuilder { reader_data_lifecycle: Some(reader_data_lifecycle), ..self }),
    {
        DataReaderQosBuilder { reader_data_lifecycle: Some(reader_data_lifecycle), ..self }
    }

    /// The policies: every policy that was set takes the set value, flagged as explicitly set; every other policy takes its default, unflagged.
    pub fn build(self) -> (r: DataReaderQosPolicies)
        ensures
            r.durability == decided(self.durability, Durability::Volatile),
            r.deadline == decided(self.deadline, Deadline { period: crate::structure::duration::Duration::spec_infinite() }),
            r.latency_budget == decided(self.latency_budget, LatencyBudget(crate::structure::duration::Duration { seconds: 0, fraction: 0 })),
            r.liveliness == decided(self.liveliness, Liveliness::spec_default()),
            r.reliability == decided(self.reliability, Reliability::spec_default_besteffort()),
            r.destination_order == decided(self.destination_order, DestinationOrder::ByReceptionTimestamp),
            r.history == decided(self.history, History::spec_default()),
            r.resource_limits == decided(self.resource_limits, ResourceLimits::spec_default()),
            r.user_data.1 == self.user_data is Some,
            self.user_data matches Some(p) ==> r.user_data.0 == p,
            self.user_data is None ==> r.user_data.0.value@ == Seq::<u8>::empty(),
            r.ownership == decided(self.ownership, Ownership::Shared),
            r.time_based_filter == decided(self.time_based_filter, TimeBasedFilter { minimun_separation: crate::structure::duration::Duration { seconds: 0, fraction: 0 } }),
            r.reader_data_lifecycle == decided(self.reader_data_lifecycle, ReaderDataLifecycle { autopurge_nowriter_samples_delay: crate::structure::duration::Duration::spec_infinite(), autopurge_dispose_samples_delay: crate::structure::duration::Duration::spec_infinite() }),
    {
        DataReaderQosPolicies {
            durability: match self.durability {
                Some(p) => (p, true),
                None => (Durability::default(), false),
            },
            deadline: match self.deadline {
                Some(p) => (p, true),
                None => (Deadline::default(), false),
            },
            latency_budget: match self.latency_budget {
                Some(p) => (p, true),
                None => (LatencyBudget::default(), false),
            },
            liveliness: match self.liveliness {
                Some(p) => (p, true),
                None => (Liveliness::default(), false),
            },
            reliability: match self.reliability {
                Some(p) => (p, true),
                None => (Reliability::default_besteffort(), false),
            },
            destination_order: match self.destination_order {
                Some(p) => (p, true),
                None => (DestinationOrder::default(), false),
            },
            history: match self.history {
                Some(p) => (p, true),
                None => (History::default(), false),
            },
            resource_limits: match self.resource_limits {
                Some(p) => (p, true),
                None => (ResourceLimits::default(), false),
            },
            user_data: match self.user_data {
                Some(p) => (p, true),
                None => (UserData::default(), false),
            },
            ownership: match self.ownership {
                Some(p) => (p, true),
                None => (Ownership::default(), false),
            },
            time_based_filter: match self.time_based_filter {
                Some(p) => (p, true),
                None => (TimeBasedFilter::default(), false),
            },
            reader_data_lifecycle: match self.reader_data_lifecycle {
                Some(p) => (p, true),
                None => (ReaderDataLifecycle::default(), false),
            },
        }
    }
}

impl Default for DataReaderQosBuilder {
    fn default() -> (b: DataReaderQosBuilder)
        ensures
            b.durability is None,
            b.deadline is None,
            b.latency_budget is None,
            b.liveliness is None,
            b.reliability is None,
            b.destination_order is None,
            b.history is None,
            b.resource_limits is None,
            b.user_data is None,
            b.ownership is None,
            b.time_based_filter is None,
            b.reader_data_lifecycle is None,
    {
        DataReaderQosBuilder::new()
    }
}

/// Builder of [`SubscriberQosPolicies`].
pub struct SubscriberQosBuilder {
    pub presentation: Option<Presentation>,
    pub partition: Option<Partition>,
    pub group_data: Option<GroupData>,
    pub entity_factory: Option<EntityFactory>,
}

impl SubscriberQosBuilder {
    /// A builder with no policy set.
    pub fn new() -> (b: SubscriberQosBuilder)
        ensures
            b.presentation is None,
            b.partition is None,
            b.group_data is None,
            b.entity_factory is None,
    {
        SubscriberQosBuilder { presentation: None, partition: None, group_data: None, entity_factory: None }
    }

    pub fn presentation(self, presentation: Presentation) -> (b: SubscriberQosBuilder)
        ensures
            b == (SubscriberQosBuilder { presentation: Some(presentation), ..self }),
    {
        SubscriberQosBuilder { presentation: Some(presentation), ..self }
    }

    pub fn partition(self, partition: Partition) -> (b: SubscriberQosBuilder)
        ensures
            b == (SubscriberQosBuilder { partition: Some(partition), ..self }),
    {
        SubscriberQosBuilder { partition: Some(partition), ..self }
    }

    pub fn group_data(self, group_data: GroupData) -> (b: SubscriberQosBuilder)
        ensures
            b == (SubscriberQosBuilder { group_data: Some(group_data), ..self }),
    {
        SubscriberQosBuilder { group_data: Some(group_data), ..self }
    }

    pub fn entity_factory(self, entity_factory: EntityFactory) -> (b: SubscriberQosBuilder)
        ensures
            b == (SubscriberQosBuilder { entity_factory: Some(entity_factory), ..self }),
    {
        SubscriberQosBuilder { entity_factory: Some(entity_factory), ..self }
    }

    /// The policies: every policy that was set takes the set value, and every other policy its default.
    pub fn build(self) -> (r: SubscriberQosPolicies)
        ensures
            r.presentation == (match self.presentation { Some(p) => p, None => Presentation::spec_default() }),
            self.partition matches Some(p) ==> r.partition == p,
            self.partition is None ==> r.partition.spec_names() == seq![Seq::<char>::empty()],
            self.group_data matches Some(p) ==> r.group_data == p,
            self.group_data is None ==> r.group_data.value@ == Seq::<u8>::empty(),
            r.entity_factory == (match self.entity_factory { Some(p) => p, None => EntityFactory { autoenable_created_entites: true } }),
    {
        SubscriberQosPolicies {
            presentation: match self.presentation {
                Some(p) => p,
                None => Presentation::default(),
            },
            partition: match self.partition {
                Some(p) => p,
                None => Partition::default(),
            },
            group_data: match self.group_data {
                Some(p) => p,
                None => GroupData::default(),
            },
            entity_factory: match self.entity_factory {
                Some(p) => p,
                None => EntityFactory::default(),
            },
        }
    }
}

impl Default for SubscriberQosBuilder {
    fn default() -> (b: SubscriberQosBuilder)
        ensures
            b.presentation is None,
            b.partition is None,
            b.group_data is None,
            b.entity_factory is None,
    {
        SubscriberQosBuilder::new()
    }
}

/// Merges one flagged policy into another; `same` tells whether their values
/// are equal.
fn combine_slot<P>(mine: &mut (P, bool), theirs: (P, bool), same: bool)
    ensures
        *final(mine) == combined(*old(mine), theirs, same),
{
    if !same {
        if theirs.1 {
            *mine = theirs;
        }
    } else {
        mine.1 = mine.1 || theirs.1;
    }
}

/// Whether a writer offering `w` and a reader requesting `r` may communicate:
/// every policy with a compatibility rule is satisfied.
pub open spec fn spec_compatible(w: DataWriterQosPolicies, r: DataReaderQosPolicies) -> bool {
    &&& w.durability.0.rank() >= r.durability.0.rank()
    &&& (r.deadline.0.period == crate::structure::duration::Duration::spec_infinite()
        || w.deadline.0.period.ticks() <= r.deadline.0.period.ticks())
    &&& w.latency_budget.0.0.ticks() <= r.latency_budget.0.0.ticks()
    &&& w.ownership.0 == r.ownership.0
    &&& w.liveliness.0.kind.rank() >= r.liveliness.0.kind.rank()
    &&& w.liveliness.0.lease_duration.ticks() <= r.liveliness.0.lease_duration.ticks()
    &&& w.reliability.0.kind.rank() >= r.reliability.0.kind.rank()
    &&& w.destination_order.0.rank() >= r.destination_order.0.rank()
}

/// The separator put before a note: nothing before the first one, a comma
/// and a space before every later one.
pub open spec fn note_separator(first: bool) -> Seq<char> {
    if first {
        Seq::empty()
    } else {
        ", "@
    }
}

/// The note that one policy does not match: its name, then this side's and
/// the remote side's values, each after its label.
pub open spec fn incompatible_note(
    name: Seq<char>,
    self_label: Seq<char>,
    self_text: Seq<char>,
    remote_label: Seq<char>,
    remote_text: Seq<char>,
) -> Seq<char> {
    "{ "@ + name + " is not compatible. "@ + self_label + ": "@ + self_text + ", "@ + remote_label
        + ": "@ + remote_text + " }"@
}

/// Appends `note` to the message, separated from earlier notes.
fn add_note(msg: &mut String, first: &mut bool, note: &str)
    ensures
        final(msg)@ == old(msg)@ + note_separator(*old(first)) + note@,
        !*final(first),
{
    let ghost start = msg@;
    if !*first {
        msg.append(", ");
    }
    msg.append(note);
    *first = false;
    assert(msg@ =~= start + note_separator(*old(first)) + note@);
}

/// Appends the note that one policy does not match.
fn add_incompatible(
    msg: &mut String,
    first: &mut bool,
    name: &str,
    self_label: &str,
    self_text: String,
    remote_label: &str,
    remote_text: String,
)
    ensures
        final(msg)@ == old(msg)@ + note_separator(*old(first)) + incompatible_note(
            name@,
            self_label@,
            self_text@,
            remote_label@,
            remote_text@,
        ),
        !*final(first),
{
    let mut note = String::from_str("{ ");
    note.append(name);
    note.append(" is not compatible. ");
    note.append(self_label);
    note.append(": ");
    note.append(self_text.as_str());
    note.append(", ");
    note.append(remote_label);
    note.append(": ");
    note.append(remote_text.as_str());
    note.append(" }");
    assert(note@ =~= incompatible_note(name@, self_label@, self_text@, remote_label@, remote_text@));
    add_note(msg, first, note.as_str());
}

/// The label of this side in a compatibility message.
pub open spec fn self_label(self_is_writer: bool) -> Seq<char> {
    if self_is_writer {
        "writer(self)"@
    } else {
        "reader(self)"@
    }
}

/// The label of the remote side in a compatibility message.
pub open spec fn remote_label(self_is_writer: bool) -> Seq<char> {
    if self_is_writer {
        "reader(remote)"@
    } else {
        "writer(remote)"@
    }
}

/// The note of one policy when it fails: its name, then this side's value
/// and the remote side's, taken from the writer's text `wt` and the reader's
/// text `rt`; nothing when it does not fail.
pub open spec fn note_when(fails: bool, name: Seq<char>, wt: Seq<char>, rt: Seq<char>, self_is_writer: bool) -> Seq<Seq<char>> {
    if fails {
        seq![
            incompatible_note(
                name,
                self_label(self_is_writer),
                if self_is_writer { wt } else { rt },
                remote_label(self_is_writer),
                if self_is_writer { rt } else { wt },
            ),
        ]
    } else {
        Seq::empty()
    }
}

/// The notes of the policies that do not match, in the order durability,
/// deadline, latency budget, ownership, liveliness, reliability,
/// destination order; each policy shown with its flag.
pub open spec fn compat_notes(w: DataWriterQosPolicies, r: DataReaderQosPolicies, self_is_writer: bool) -> Seq<Seq<char>> {
    note_when(
        !(w.durability.0.rank() >= r.durability.0.rank()),
        "durability"@,
        flagged_text(durability_text(w.durability.0), w.durability.1),
        flagged_text(durability_text(r.durability.0), r.durability.1),
        self_is_writer,
    )
        +     note_when(
        !(r.deadline.0.period == crate::structure::duration::Duration::spec_infinite() || w.deadline.0.period.ticks() <= r.deadline.0.period.ticks()),
        "deadline"@,
        flagged_text(deadline_text(w.deadline.0), w.deadline.1),
        flagged_text(deadline_text(r.deadline.0), r.deadline.1),
        self_is_writer,
    )
        +     note_when(
        !(w.latency_budget.0.0.ticks() <= r.latency_budget.0.0.ticks()),
        "latency_budget"@,
        flagged_text(latency_budget_text(w.latency_budget.0), w.latency_budget.1),
        flagged_text(latency_budget_text(r.latency_budget.0), r.latency_budget.1),
        self_is_writer,
    )
        +     note_when(
        !(w.ownership.0 == r.ownership.0),
        "ownership"@,
        flagged_text(ownership_text(w.ownership.0), w.ownership.1),
        flagged_text(ownership_text(r.ownership.0), r.ownership.1),
        self_is_writer,
    )
        +     note_when(
        !(w.liveliness.0.kind.rank() >= r.liveliness.0.kind.rank() && w.liveliness.0.lease_duration.ticks() <= r.liveliness.0.lease_duration.ticks()),
        "liveliness"@,
        flagged_text(liveliness_text(w.liveliness.0), w.liveliness.1),
        flagged_text(liveliness_text(r.liveliness.0), r.liveliness.1),
        self_is_writer,
    )
        +     note_when(
        !(w.reliability.0.kind.rank() >= r.reliability.0.kind.rank()),
        "reliability"@,
        flagged_text(reliability_text(w.reliability.0), w.reliability.1),
        flagged_text(reliability_text(r.reliability.0), r.reliability.1),
        self_is_writer,
    )
        +     note_when(
        !(w.destination_order.0.rank() >= r.destination_order.0.rank()),
        "destination_order"@,
        flagged_text(destination_order_text(w.destination_order.0), w.destination_order.1),
        flagged_text(destination_order_text(r.destination_order.0), r.destination_order.1),
        self_is_writer,
    )
}

/// Notes one after the other, each after `note_separator`.
pub open spec fn joined_notes(notes: Seq<Seq<char>>) -> Seq<char>
    decreases notes.len(),
{
    if notes.len() == 0 {
        Seq::empty()
    } else {
        joined_notes(notes.drop_last()) + note_separator(notes.len() == 1) + notes.last()
    }
}

/// The message of an incompatible pair: every failing policy's note, in
/// braces.
pub open spec fn compat_message(w: DataWriterQosPolicies, r: DataReaderQosPolicies, self_is_writer: bool) -> Seq<char> {
    "{ "@ + joined_notes(compat_notes(w, r, self_is_writer)) + " }"@
}

proof fn lemma_note_step(notes: Seq<Seq<char>>, more: Seq<Seq<char>>)
    requires
        more.len() <= 1,
    ensures
        joined_notes(notes + more) == if more.len() == 0 {
            joined_notes(notes)
        } else {
            joined_notes(notes) + note_separator(notes.len() == 0) + more[0]
        },
{
    if more.len() == 0 {
        assert(notes + more =~= notes);
    } else {
        assert((notes + more).drop_last() =~= notes);
    }
}

/// Adds the note of one policy when it fails, from the writer's text `wt`
/// and the reader's text `rt`, to a message that holds the notes `notes`.
fn note_policy(
    msg: &mut String,
    first: &mut bool,
    Ghost(notes): Ghost<Seq<Seq<char>>>,
    fails: bool,
    name: &str,
    self_label: &str,
    remote_label: &str,
    self_is_writer: bool,
    wt: String,
    rt: String,
)
    requires
        old(msg)@ == "{ "@ + joined_notes(notes),
        *old(first) == (notes.len() == 0),
        self_label@ == crate::dds::qos::self_label(self_is_writer),
        remote_label@ == crate::dds::qos::remote_label(self_is_writer),
    ensures
        final(msg)@ == "{ "@ + joined_notes(notes + note_when(fails, name@, wt@, rt@, self_is_writer)),
        *final(first) == ((notes + note_when(fails, name@, wt@, rt@, self_is_writer)).len() == 0),
{
    let ghost more = note_when(fails, name@, wt@, rt@, self_is_writer);
    proof {
        lemma_note_step(notes, more);
    }
    if fails {
        if self_is_writer {
            add_incompatible(msg, first, name, self_label, wt, remote_label, rt);
        } else {
            add_incompatible(msg, first, name, self_label, rt, remote_label, wt);
        }
        assert(msg@ =~= "{ "@ + joined_notes(notes + more));
    } else {
        assert(notes + more =~= notes);
    }
}

/// Checks every rule by which a writer's offered QoS must satisfy a reader's
/// requested QoS. `self_is_writer` picks the labels of the message.
#[verifier::spinoff_prover]
#[verifier::rlimit(40)]
fn check_compatible(
    w: &DataWriterQosPolicies,
    r: &DataReaderQosPolicies,
    self_is_writer: bool,
) -> (res: Result<(), String>)
    ensures
        res is Ok <==> spec_compatible(*w, *r),
        res matches Err(m) ==> m@ == compat_message(*w, *r, self_is_writer),
{
    let (self_label, remote_label) = if self_is_writer {
        ("writer(self)", "reader(remote)")
    } else {
        ("reader(self)", "writer(remote)")
    };
    let mut msg = String::from_str("{ ");
    let mut first = true;
    let ghost mut notes: Seq<Seq<char>> = Seq::empty();
    proof {
        assert(msg@ =~= "{ "@ + joined_notes(notes));
    }
    let fails = !Durability::is_compatible(w.durability.0, r.durability.0);
    let wt = render_durability(&w.durability);
    let rt = render_durability(&r.durability);
    note_policy(&mut msg, &mut first, Ghost(notes), fails, "durability", self_label, remote_label, self_is_writer, wt, rt);
    proof {
        notes = notes + note_when(fails, "durability"@, flagged_text(durability_text(w.durability.0), w.durability.1), flagged_text(durability_text(r.durability.0), r.durability.1), self_is_writer);
    }
    let fails = !Deadline::is_compatible(w.deadline.0, r.deadline.0);
    let wt = render_deadline(&w.deadline);
    let rt = render_deadline(&r.deadline);
    note_policy(&mut msg, &mut first, Ghost(notes), fails, "deadline", self_label, remote_label, self_is_writer, wt, rt);
    proof {
        notes = notes + note_when(fails, "deadline"@, flagged_text(deadline_text(w.deadline.0), w.deadline.1), flagged_text(deadline_text(r.deadline.0), r.deadline.1), self_is_writer);
    }
    let fails = !LatencyBudget::is_compatible(w.latency_budget.0, r.latency_budget.0);
    let wt = render_latency_budget(&w.latency_budget);
    let rt = render_latency_budget(&r.latency_budget);
    note_policy(&mut msg, &mut first, Ghost(notes), fails, "latency_budget", self_label, remote_label, self_is_writer, wt, rt);
    proof {
        notes = notes + note_when(fails, "latency_budget"@, flagged_text(latency_budget_text(w.latency_budget.0), w.latency_budget.1), flagged_text(latency_budget_text(r.latency_budget.0), r.latency_budget.1), self_is_writer);
    }
    let fails = !Ownership::is_compatible(w.ownership.0, r.ownership.0);
    let wt = render_ownership(&w.ownership);
    let rt = render_ownership(&r.ownership);
    note_policy(&mut msg, &mut first, Ghost(notes), fails, "ownership", self_label, remote_label, self_is_writer, wt, rt);
    proof {
        notes = notes + note_when(fails, "ownership"@, flagged_text(ownership_text(w.ownership.0), w.ownership.1), flagged_text(ownership_text(r.ownership.0), r.ownership.1), self_is_writer);
    }
    let fails = !Liveliness::is_compatible(w.liveliness.0, r.liveliness.0);
    let wt = render_liveliness(&w.liveliness);
    let rt = render_liveliness(&r.liveliness);
    note_policy(&mut msg, &mut first, Ghost(notes), fails, "liveliness", self_label, remote_label, self_is_writer, wt, rt);
    proof {
        notes = notes + note_when(fails, "liveliness"@, flagged_text(liveliness_text(w.liveliness.0), w.liveliness.1), flagged_text(liveliness_text(r.liveliness.0), r.liveliness.1), self_is_writer);
    }
    let fails = !Reliability::is_compatible(w.reliability.0, r.reliability.0);
    let wt = render_reliability(&w.reliability);
    let rt = render_reliability(&r.reliability);
    note_policy(&mut msg, &mut first, Ghost(notes), fails, "reliability", self_label, remote_label, self_is_writer, wt, rt);
    proof {
        notes = notes + note_when(fails, "reliability"@, flagged_text(reliability_text(w.reliability.0), w.reliability.1), flagged_text(reliability_text(r.reliability.0), r.reliability.1), self_is_writer);
    }
    let fails = !DestinationOrder::is_compatible(w.destination_order.0, r.destination_order.0);
    let wt = render_destination_order(&w.destination_order);
    let rt = render_destination_order(&r.destination_order);
    note_policy(&mut msg, &mut first, Ghost(notes), fails, "destination_order", self_label, remote_label, self_is_writer, wt, rt);
    proof {
        notes = notes + note_when(fails, "destination_order"@, flagged_text(destination_order_text(w.destination_order.0), w.destination_order.1), flagged_text(destination_order_text(r.destination_order.0), r.destination_order.1), self_is_writer);
    }
    proof {
        assert(notes =~= compat_notes(*w, *r, self_is_writer));
    }
    if first {
        Ok(())
    } else {
        msg.append(" }");
        Err(msg)
    }
}

/// A flagged durability as `flagged_text` shows it.
fn render_durability(p: &(Durability, bool)) -> (s: String)
    ensures
        s@ == flagged_text(durability_text(p.0), p.1),
{
    flagged(p.0.text(), p.1)
}

/// A flagged deadline as `flagged_text` shows it.
fn render_deadline(p: &(Deadline, bool)) -> (s: String)
    ensures
        s@ == flagged_text(deadline_text(p.0), p.1),
{
    flagged(p.0.text(), p.1)
}

/// A flagged latency budget as `flagged_text` shows it.
fn render_latency_budget(p: &(LatencyBudget, bool)) -> (s: String)
    ensures
        s@ == flagged_text(latency_budget_text(p.0), p.1),
{
    flagged(p.0.text(), p.1)
}

/// A flagged ownership as `flagged_text` shows it.
fn render_ownership(p: &(Ownership, bool)) -> (s: String)
    ensures
        s@ == flagged_text(ownership_text(p.0), p.1),
{
    flagged(p.0.text(), p.1)
}

/// A flagged liveliness as `flagged_text` shows it.
fn render_liveliness(p: &(Liveliness, bool)) -> (s: String)
    ensures
        s@ == flagged_text(liveliness_text(p.0), p.1),
{
    flagged(p.0.text(), p.1)
}

/// A flagged reliability as `flagged_text` shows it.
fn render_reliability(p: &(Reliability, bool)) -> (s: String)
    ensures
        s@ == flagged_text(reliability_text(p.0), p.1),
{
    flagged(p.0.text(), p.1)
}

/// A flagged destination order as `flagged_text` shows it.
fn render_destination_order(p: &(DestinationOrder, bool)) -> (s: String)
    ensures
        s@ == flagged_text(destination_order_text(p.0), p.1),
{
    flagged(p.0.text(), p.1)
}

/// Combining with a policy the user did not set explicitly changes nothing.
pub proof fn law_combine_unset_keeps<P>(mine: (P, bool), theirs: (P, bool), same: bool)
    requires
        !theirs.1,
        same ==> mine.0 == theirs.0,
    ensures
        combined(mine, theirs, same) == mine,
{
}

/// Combining with an unset reliability changes nothing.
pub proof fn law_combine_unset_keeps_reliability(
    mine: (Reliability, bool),
    theirs: (Reliability, bool),
)
    requires
        !theirs.1,
    ensures
        combined_reliability(mine, theirs) == mine,
{
}

/// A policy the user set explicitly prevails: the combined policy has its
/// value and counts as explicitly set.
pub proof fn law_combine_explicit_wins<P>(mine: (P, bool), theirs: (P, bool))
    requires
        theirs.1,
    ensures
        combined(mine, theirs, mine.0 == theirs.0).0 == theirs.0,
        combined(mine, theirs, mine.0 == theirs.0).1,
{
}

/// An explicitly set reliability prevails in value; its flag is only taken
/// over when the values differ.
pub proof fn law_combine_explicit_reliability(
    mine: (Reliability, bool),
    theirs: (Reliability, bool),
)
    requires
        theirs.1,
    ensures
        combined_reliability(mine, theirs).0 == theirs.0,
        mine.0 != theirs.0 ==> combined_reliability(mine, theirs).1,
{
}

/// Combining a policy with itself gives it back.
pub proof fn law_combine_idempotent<P>(p: (P, bool))
    ensures
        combined(p, p, true) == p,
{
}

/// Combining a reliability with itself gives it back.
pub proof fn law_combine_idempotent_reliability(p: (Reliability, bool))
    ensures
        combined_reliability(p, p) == p,
{
}

/// A writer and a reader are compatible only when the writer's liveliness
/// kind is at least as strong as the reader's (Automatic < ManualByParticipant
/// < ManualByTopic): a by-participant or automatic offer never meets a
/// by-topic request, an automatic offer never meets a manual request, and
/// an offer with a longer lease than requested never matches.
pub proof fn law_liveliness_compatibility(w: DataWriterQosPolicies, r: DataReaderQosPolicies)
    ensures
        spec_compatible(w, r) ==> (r.liveliness.0.kind == crate::dds::qos::policy::LivelinessQosKind::Automatic
            || w.liveliness.0.kind == crate::dds::qos::policy::LivelinessQosKind::ManualByTopic
            || w.liveliness.0.kind == r.liveliness.0.kind),
        r.liveliness.0.kind == crate::dds::qos::policy::LivelinessQosKind::ManualByTopic && w.liveliness.0.kind
            != crate::dds::qos::policy::LivelinessQosKind::ManualByTopic ==> !spec_compatible(w, r),
        spec_compatible(w, r) ==> w.liveliness.0.lease_duration.ticks()
            <= r.liveliness.0.lease_duration.ticks(),
{
    crate::dds::qos::policy::law_liveliness_kind_order(w.liveliness.0.kind, r.liveliness.0.kind);
}

/// A writer and a reader whose matching policies are equal are compatible.
pub proof fn law_same_policies_compatible(w: DataWriterQosPolicies, r: DataReaderQosPolicies)
    requires
        w.durability.0 == r.durability.0,
        w.deadline.0 == r.deadline.0,
        w.latency_budget.0 == r.latency_budget.0,
        w.ownership.0 == r.ownership.0,
        w.liveliness.0 == r.liveliness.0,
        w.reliability.0 == r.reliability.0,
        w.destination_order.0 == r.destination_order.0,
    ensures
        spec_compatible(w, r),
{
}

/// A writer and a reader built with no policy set are compatible: the
/// writer's default reliable offer satisfies the reader's default best-effort
/// request.
pub proof fn law_default_endpoints_compatible(w: DataWriterQosPolicies, r: DataReaderQosPolicies)
    requires
        w.durability == decided(None, Durability::Volatile),
        w.deadline == decided(None, Deadline { period: crate::structure::duration::Duration::spec_infinite() }),
        w.latency_budget == decided(None, LatencyBudget(crate::structure::duration::Duration { seconds: 0, fraction: 0 })),
        w.ownership == decided(None, Ownership::Shared),
        w.liveliness == decided(None, Liveliness::spec_default()),
        w.reliability == decided(None, Reliability::spec_default_reliable()),
        w.destination_order == decided(None, DestinationOrder::ByReceptionTimestamp),
        r.durability == decided(None, Durability::Volatile),
        r.deadline == decided(None, Deadline { period: crate::structure::duration::Duration::spec_infinite() }),
        r.latency_budget == decided(None, LatencyBudget(crate::structure::duration::Duration { seconds: 0, fraction: 0 })),
        r.ownership == decided(None, Ownership::Shared),
        r.liveliness == decided(None, Liveliness::spec_default()),
        r.reliability == decided(None, Reliability::spec_default_besteffort()),
        r.destination_order == decided(None, DestinationOrder::ByReceptionTimestamp),
    ensures
        spec_compatible(w, r),
{
}

} // verus!
