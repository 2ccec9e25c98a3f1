use umber_dds::dds::announcement::own_participant_data;
use umber_dds::dds::publisher::datawriter_qos_for;
use umber_dds::dds::qos::policy::{
    Durability, History, HistoryQosKind, Partition, Reliability, ReliabilityQosKind,
};
use umber_dds::dds::qos::{DataWriterQos, DataWriterQosBuilder, TopicQosBuilder};
use umber_dds::discovery::data::{ProtocolVersion, VendorId};
use umber_dds::message::cdr::Endianness;
use umber_dds::structure::duration::{CoreDuration, Duration};
use umber_dds::structure::entity_id::EntityId;
use umber_dds::structure::guid::{GuidPrefix, GUID};

#[test]
fn own_announcement_lists_every_builtin_endpoint_and_interface() {
    let guid = GUID::new(GuidPrefix::new([3; 12]), EntityId::participant());
    let d = own_participant_data(
        0,
        guid,
        ProtocolVersion { major: 2, minor: 4 },
        VendorId { vendor_id: [0x01, 0x0f] },
        &vec![[192, 168, 1, 2], [10, 0, 0, 7]],
        7410,
        7400,
        7411,
        7401,
        CoreDuration::from_secs(20),
    );
    assert_eq!(d.available_builtin_endpoint, 0x0C3F);
    assert_eq!(d._domain_tag, "todo");
    assert!(!d.expects_inline_qos);
    assert_eq!(d.manual_liveliness_count, Some(0));
    assert_eq!(d.lease_duration, Duration::from_secs(20));
    assert_eq!(d.metarraffic_unicast_locator_list.len(), 2);
    assert_eq!(d.metarraffic_unicast_locator_list[1].port, 7410);
    assert_eq!(d.metarraffic_unicast_locator_list[1].address[12..], [10, 0, 0, 7]);
    assert_eq!(d.default_unicast_locator_list[0].port, 7411);
    assert_eq!(d.metarraffic_multicast_locator_list.len(), 1);
    assert_eq!(d.metarraffic_multicast_locator_list[0].port, 7400);
    assert_eq!(d.default_multicast_locator_list[0].address[12..], [239, 255, 0, 1]);
    assert_eq!(d.default_multicast_locator_list[0].port, 7401);
}

#[test]
fn writer_policies_merge_topic_default_then_given() {
    let topic = TopicQosBuilder::new()
        .durability(Durability::TransientLocal)
        .history(History { kind: HistoryQosKind::KeepLast, depth: 5 })
        .build();
    let default = DataWriterQosBuilder::new().build();
    let given = DataWriterQosBuilder::new().reliability(Reliability::default_besteffort()).build();
    let q = datawriter_qos_for(&topic, &default, DataWriterQos::Policies(Box::new(given)));
    assert_eq!(q.durability, (Durability::TransientLocal, true));
    assert_eq!(q.history, (History { kind: HistoryQosKind::KeepLast, depth: 5 }, true));
    assert_eq!(q.reliability.0.kind, ReliabilityQosKind::BestEffort);
    let d = datawriter_qos_for(&topic, &default, DataWriterQos::Default);
    assert_eq!(d.durability, (Durability::Volatile, false));
    assert_eq!(d.reliability, default.reliability);
}

#[test]
fn partition_size_is_what_is_written() {
    let p = Partition::default();
    assert_eq!(p.serialized_size(), 12);
    let mut buf = Vec::new();
    p.write_to(&mut buf, Endianness::LittleEndian);
    assert_eq!(buf, vec![1, 0, 0, 0, 1, 0, 0, 0, 0, 0, 0, 0]);
    let q = Partition { name: vec!["abcd".to_string()] };
    assert_eq!(q.serialized_size(), 16);
    let mut buf = Vec::new();
    q.write_to(&mut buf, Endianness::BigEndian);
    assert_eq!(buf, vec![0, 0, 0, 1, 0, 0, 0, 5, b'a', b'b', b'c', b'd', 0, 0, 0, 0]);
}
