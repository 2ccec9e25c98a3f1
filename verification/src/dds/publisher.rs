//! How a publisher settles the policies of a writer it creates (DDS 1.4,
//! 2.2.2.4.1.5 create_datawriter): the publisher's default, or the topic's
//! policies merged with the default and then with the ones given.
use vstd::prelude::*;
use crate::dds::qos::{
    combined, combined_reliability, DataWriterQos, DataWriterQosPolicies, TopicQosPolicies,
};
use crate::dds::qos::policy::{OwnershipStrength, UserData, WriterDataLifecycle};

verus! {

/// Whether `r` holds the same policies as `a`, user data by its octets.
pub open spec fn writer_same(r: DataWriterQosPolicies, a: DataWriterQosPolicies) -> bool {
    &&& r.durability == a.durability
    &&& r.durability_service == a.durability_service
    &&& r.deadline == a.deadline
    &&& r.latency_budget == a.latency_budget
    &&& r.liveliness == a.liveliness
    &&& r.reliability == a.reliability
    &&& r.destination_order == a.destination_order
    &&& r.history == a.history
    &&& r.resource_limits == a.resource_limits
    &&& r.transport_priority == a.transport_priority
    &&& r.lifespan == a.lifespan
    &&& r.user_data.1 == a.user_data.1
    &&& r.user_data.0.value@ == a.user_data.0.value@
    &&& r.ownership == a.ownership
    &&& r.ownership_strength == a.ownership_strength
    &&& r.writer_data_lifecycle == a.writer_data_lifecycle
}

/// Whether `r` is the writer's share of the topic's policies `t`, as
/// `TopicQosPolicies::to_datawriter_qos` gives it.
pub open spec fn writer_of_topic(r: DataWriterQosPolicies, t: TopicQosPolicies) -> bool {
    &&& r.durability == t.durability
    &&& r.durability_service == t.durability_service
    &&& r.deadline == t.deadline
    &&& r.latency_budget == t.latency_budget
    &&& r.liveliness == t.liveliness
    &&& r.reliability == t.reliability
    &&& r.destination_order == t.destination_order
    &&& r.history == t.history
    &&& r.resource_limits == t.resource_limits
    &&& r.transport_priority == t.transport_priority
    &&& r.lifespan == t.lifespan
    &&& r.ownership == t.ownership
    &&& r.user_data.0.value@ == Seq::<u8>::empty()
    &&& !r.user_data.1
    &&& r.ownership_strength == (OwnershipStrength(0), false)
    &&& r.writer_data_lifecycle == (WriterDataLifecycle { autodispose_unregistered_instance: true }, false)
}

/// Whether `r` is `a` merged with `b` by `DataWriterQosPolicies::combine`.
pub open spec fn writer_merged(r: DataWriterQosPolicies, a: DataWriterQosPolicies, b: DataWriterQosPolicies) -> bool {
    &&& r.durability == combined(a.durability, b.durability, a.durability.0 == b.durability.0)
    &&& r.durability_service == combined(
        a.durability_service,
        b.durability_service,
        a.durability_service.0 == b.durability_service.0,
    )
    &&& r.deadline == combined(a.deadline, b.deadline, a.deadline.0 == b.deadline.0)
    &&& r.latency_budget == combined(a.latency_budget, b.latency_budget, a.latency_budget.0 == b.latency_budget.0)
    &&& r.liveliness == combined(a.liveliness, b.liveliness, a.liveliness.0 == b.liveliness.0)
    &&& r.reliability == combined_reliability(a.reliability, b.reliability)
    &&& r.destination_order == combined(
        a.destination_order,
        b.destination_order,
        a.destination_order.0 == b.destination_order.0,
    )
    &&& r.history == combined(a.history, b.history, a.history.0 == b.history.0)
    &&& r.resource_limits == combined(a.resource_limits, b.resource_limits, a.resource_limits.0 == b.resource_limits.0)
    &&& r.transport_priority == combined(
        a.transport_priority,
        b.transport_priority,
        a.transport_priority.0 == b.transport_priority.0,
    )
    &&& r.lifespan == combined(a.lifespan, b.lifespan, a.lifespan.0 == b.lifespan.0)
    &&& r.user_data.1 == combined(a.user_data, b.user_data, a.user_data.0.value@ == b.user_data.0.value@).1
    &&& r.user_data.0.value@ == combined(
        a.user_data,
        b.user_data,
        a.user_data.0.value@ == b.user_data.0.value@,
    ).0.value@
    &&& r.ownership == combined(a.ownership, b.ownership, a.ownership.0 == b.ownership.0)
    &&& r.ownership_strength == combined(
        a.ownership_strength,
        b.ownership_strength,
        a.ownership_strength.0 == b.ownership_strength.0,
    )
    &&& r.writer_data_lifecycle == combined(
        a.writer_data_lifecycle,
        b.writer_data_lifecycle,
        a.writer_data_lifecycle.0 == b.writer_data_lifecycle.0,
    )
}

/// A copy of a writer's policies.
pub fn copy_writer_qos(q: &DataWriterQosPolicies) -> (r: DataWriterQosPolicies)
    ensures
        writer_same(r, *q),
{
    DataWriterQosPolicies {
        durability: q.durability,
        durability_service: q.durability_service,
        deadline: q.deadline,
        latency_budget: q.latency_budget,
        liveliness: q.liveliness,
        reliability: q.reliability,
        destination_order: q.destination_order,
        history: q.history,
        resource_limits: q.resource_limits,
        transport_priority: q.transport_priority,
        lifespan: q.lifespan,
        user_data: (UserData { value: q.user_data.0.value.clone() }, q.user_data.1),
        ownership: q.ownership,
        ownership_strength: q.ownership_strength,
        writer_data_lifecycle: q.writer_data_lifecycle,
    }
}

/// The policies of a writer created on a topic with policies `topic` by a
/// publisher whose default writer policies are `default`: with the default
/// asked for, a copy of it; otherwise the topic's policies, merged with the
/// default and then with the policies given.
pub fn datawriter_qos_for(
    topic: &TopicQosPolicies,
    default: &DataWriterQosPolicies,
    qos: DataWriterQos,
) -> (r: DataWriterQosPolicies)
    ensures
        qos is Default ==> writer_same(r, *default),
        qos matches DataWriterQos::Policies(q) ==> exists|t: DataWriterQosPolicies, m: DataWriterQosPolicies|
            writer_of_topic(t, *topic) && writer_merged(m, t, *default) && writer_merged(r, m, *q),
{
    match qos {
        DataWriterQos::Default => copy_writer_qos(default),
        DataWriterQos::Policies(q) => {
            let mut dw_qos = topic.to_datawriter_qos();
            let ghost t = dw_qos;
            dw_qos.combine(copy_writer_qos(default));
            let ghost m = dw_qos;
            dw_qos.combine(*q);
            proof {
                assert(writer_of_topic(t, *topic) && writer_merged(m, t, *default) && writer_merged(
                    dw_qos,
                    m,
                    *q,
                ));
            }
            dw_qos
        },
    }
}

} // verus!
