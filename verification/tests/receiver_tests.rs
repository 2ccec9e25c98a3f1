use umber_dds::dds::qos::policy::{Durability, HistoryQosKind, ReliabilityQosKind};
use umber_dds::discovery::data::{
    ParticipantMessageData, ParticipantMessageKind, ProtocolVersion, SPDPdiscoveredParticipantData,
    VendorId,
};
use umber_dds::dds::qos::policy::LivelinessQosKind;
use umber_dds::message::cdr::Endianness;
use umber_dds::message::element::{
    Locator, RepresentationIdentifier, SequenceNumber, SerializedPayload, Timestamp,
};
use umber_dds::message::receiver::{
    spdp_reply_locators, DataRoute, InterpreterSubmessage, MessageError, MessageReceiver,
    ReaderRoute,
};
use umber_dds::structure::duration::Duration;
use umber_dds::structure::entity_id::{EntityId, EntityKind, TopicKind};
use umber_dds::message::endpoint_discovery::{match_targets, LocalEndpoint};
use umber_dds::dds::qos::{DataReaderQosBuilder, DataWriterQosBuilder};
use umber_dds::discovery::sedp::{DiscoveredReaderData, DiscoveredWriterData};
use umber_dds::discovery::topic_data::{PublicationBuiltinTopicData, SubscriptionBuiltinTopicData};
use umber_dds::rtps::cache::{HistoryCache, HistoryCacheType};
use umber_dds::structure::proxy::{ReaderProxy, WriterProxy};
use umber_dds::structure::guid::{GuidPrefix, GUID};

fn participant(domain: u16, bits: u32, meta: Vec<Locator>, default: Vec<Locator>) -> SPDPdiscoveredParticipantData {
    SPDPdiscoveredParticipantData::new(
        domain,
        String::new(),
        ProtocolVersion { major: 2, minor: 4 },
        GUID::new(GuidPrefix::new([7; 12]), EntityId::participant()),
        VendorId { vendor_id: [0x01, 0x0f] },
        true,
        bits,
        meta,
        vec![Locator::new_from_ipv4(7400, [239, 255, 0, 1])],
        default,
        vec![],
        None,
        Duration::from_secs(20),
    )
}

fn receiver() -> MessageReceiver {
    MessageReceiver::new(GuidPrefix::new([1; 12]), 0, ProtocolVersion { major: 2, minor: 4 })
}

#[test]
fn interpreter_submessages_set_the_state() {
    let mut r = receiver();
    assert_eq!(r.unicast_reply_locator_list.len(), 1);
    r.reset();
    assert!(r.unicast_reply_locator_list.is_empty());
    assert!(!r.have_timestamp);
    let ok = r.handle_interpreter_submessage(InterpreterSubmessage::InfoTimestamp {
        timestamp: Some(Timestamp { seconds: 5, fraction: 0 }),
        invalidate_flag: false,
    });
    assert!(ok.is_ok());
    assert!(r.have_timestamp);
    assert_eq!(r.timestamp, Timestamp { seconds: 5, fraction: 0 });
    let bad = r.handle_interpreter_submessage(InterpreterSubmessage::InfoReply {
        unicast_locator_list: vec![Locator::new_from_ipv4(1, [10, 0, 0, 1])],
        multicast_locator_list: None,
        multicast_flag: true,
    });
    assert!(matches!(bad, Err(MessageError::Warn(_))));
    assert_eq!(r.unicast_reply_locator_list.len(), 1);
    let ok = r.handle_interpreter_submessage(InterpreterSubmessage::InfoSource {
        guid_prefix: GuidPrefix::new([1; 12]),
        protocol_version: ProtocolVersion { major: 2, minor: 1 },
        vendor_id: VendorId { vendor_id: [1, 2] },
    });
    assert!(ok.is_ok());
    assert!(r.unicast_reply_locator_list.is_empty());
    assert!(!r.have_timestamp);
    assert!(!r.from_self_to_known());
    r.handle_interpreter_submessage(InterpreterSubmessage::InfoDestination {
        guid_prefix: GuidPrefix::new([3; 12]),
    })
    .unwrap_or(());
    assert!(r.from_self_to_known());
}

#[test]
fn discovered_participant_is_matched_on_its_endpoints() {
    let r = receiver();
    let d = participant(0, 0x0C3F, vec![Locator::new_from_ipv4(7410, [10, 0, 0, 2])], vec![]);
    let m = r.handle_participant_discovery(&d);
    assert_eq!(m.readers.len(), 3);
    assert_eq!(m.writers.len(), 3);
    assert_eq!(m.readers[0].local_writer, EntityId::sedp_builtin_publications_announcer());
    assert_eq!(m.readers[0].remote_reader.entity_id, EntityId::sedp_builtin_publications_detector());
    assert_eq!(m.readers[0].qos.reliability.0.kind, ReliabilityQosKind::BestEffort);
    assert_eq!(m.readers[0].qos.durability.0, Durability::TransientLocal);
    assert!(m.readers[0].expects_inline_qos);
    assert_eq!(m.readers[2].qos.history.0.kind, HistoryQosKind::KeepLast);
    assert!(m.readers[2].qos.history.1);
    assert_eq!(m.writers[1].local_reader, EntityId::sedp_builtin_subscriptions_detector());
    assert_eq!(m.writers[1].remote_writer.guid_prefix, GuidPrefix::new([7; 12]));
    assert_eq!(m.writers[1].unicast_locator_list[0].port, 7410);
    assert_eq!(m.writers[1].data_max_size_serialized, 0);

    let only_pubs = participant(0, 0x000C, vec![], vec![]);
    let m = r.handle_participant_discovery(&only_pubs);
    assert_eq!(m.readers.len(), 1);
    assert_eq!(m.writers.len(), 1);

    let elsewhere = participant(3, 0x0C3F, vec![], vec![]);
    let m = r.handle_participant_discovery(&elsewhere);
    assert!(m.readers.is_empty() && m.writers.is_empty());
}

#[test]
fn reply_locators_fall_back_to_the_multicast_group() {
    let meta = participant(0, 0, vec![Locator::new_from_ipv4(7410, [10, 0, 0, 2])], vec![]);
    assert_eq!(spdp_reply_locators(&meta)[0].port, 7410);
    let dflt = participant(0, 0, vec![], vec![Locator::new_from_ipv4(7411, [10, 0, 0, 2])]);
    assert_eq!(spdp_reply_locators(&dflt)[0].port, 7411);
    let none = participant(0, 0, vec![], vec![]);
    let l = spdp_reply_locators(&none);
    assert_eq!(l.len(), 1);
    assert_eq!(l[0].port, 7400);
    assert_eq!(&l[0].address[12..16], &[239, 255, 0, 1]);
}

#[test]
fn participant_read_from_its_payload() {
    let r = receiver();
    let d = participant(0, 0x0C3F, vec![Locator::new_from_ipv4(7410, [10, 0, 0, 2])], vec![]);
    let mut buf = Vec::new();
    d.write_to(&mut buf, Endianness::LittleEndian);
    let payload = SerializedPayload::new_from_cdr_data(buf, RepresentationIdentifier::pl_cdr_le());
    let back = r.participant_from_payload(&Some(payload)).ok().unwrap();
    assert_eq!(back.guid, d.guid);
    assert_eq!(back.available_builtin_endpoint, 0x0C3F);
    assert!(back.expects_inline_qos);
    assert_eq!(back.metarraffic_unicast_locator_list[0].port, 7410);
    assert!(matches!(r.participant_from_payload(&None), Err(MessageError::Warn(_))));

    let other = participant(5, 0x0C3F, vec![], vec![]);
    let mut buf = Vec::new();
    other.write_to(&mut buf, Endianness::LittleEndian);
    let payload = SerializedPayload::new_from_cdr_data(buf, RepresentationIdentifier::pl_cdr_le());
    assert!(matches!(r.participant_from_payload(&Some(payload)), Err(MessageError::Warn(_))));

    let junk = SerializedPayload::new_from_cdr_data(vec![0x50, 0x00, 0x20], RepresentationIdentifier::pl_cdr_le());
    assert!(matches!(r.participant_from_payload(&Some(junk)), Err(MessageError::Error(_))));
}

#[test]
fn submessages_are_routed_by_their_identifiers() {
    let mut r = receiver();
    r.reset();
    r.source_guid_prefix = GuidPrefix::new([2; 12]);
    let user_writer = EntityId::new([0, 0, 1], EntityKind::from_value(0x02));
    let user_reader = EntityId::new([0, 0, 2], EntityKind::from_value(0x07));
    let route = r.route_data(SequenceNumber(1), 0x05, EntityId::spdp_builtin_participant_announcer(), EntityId::unknow());
    assert!(matches!(route, Ok(Some(DataRoute::Spdp))));
    let route = r.route_data(SequenceNumber(1), 0x05, EntityId::unknow(), EntityId::sedp_builtin_subscriptions_detector());
    assert!(matches!(route, Ok(Some(DataRoute::SedpSubscription))));
    let route = r.route_data(SequenceNumber(1), 0x05, user_writer, EntityId::unknow());
    assert!(matches!(route, Ok(Some(DataRoute::AllReaders))));
    let route = r.route_data(SequenceNumber(1), 0x05, user_writer, user_reader);
    assert!(matches!(route, Ok(Some(DataRoute::Reader(e))) if e == user_reader));
    assert!(matches!(r.route_data(SequenceNumber(-1), 0x05, user_writer, user_reader), Err(MessageError::Warn(_))));
    assert!(matches!(r.route_data(SequenceNumber(1), 0x07, user_writer, user_reader), Err(MessageError::Warn(_))));
    assert!(matches!(
        r.route_heartbeat(EntityId::sedp_builtin_publications_announcer(), EntityId::unknow()),
        ReaderRoute::One(e) if e == EntityId::sedp_builtin_publications_detector()
    ));
    assert!(matches!(r.route_heartbeat(user_writer, EntityId::unknow()), ReaderRoute::AllContaining));
    assert!(matches!(r.route_gap(user_reader), ReaderRoute::One(e) if e == user_reader));
    r.source_guid_prefix = GuidPrefix::new([1; 12]);
    r.dest_guid_prefix = GuidPrefix::new([1; 12]);
    assert!(matches!(r.route_data(SequenceNumber(1), 0x05, user_writer, user_reader), Ok(None)));
}

fn endpoint_guid(kind: u8) -> GUID {
    GUID::new(GuidPrefix::new([7; 12]), EntityId::new([0, 0, 3], EntityKind::from_value(kind)))
}

fn writer_payload(topic: Option<&str>, ty: Option<&str>) -> Option<SerializedPayload> {
    let wp = WriterProxy::new(
        endpoint_guid(0x02),
        vec![],
        vec![],
        vec![],
        vec![],
        512,
        DataWriterQosBuilder::new().durability(Durability::TransientLocal).build(),
    );
    let topic_data = PublicationBuiltinTopicData::new(
        None,
        None,
        topic.map(String::from),
        ty.map(String::from),
        None, None, None, None, None, None, None, None, None, None, None, None, None, None, None,
        None,
    );
    let mut buf = Vec::new();
    DiscoveredWriterData::new(wp, topic_data).write_to(&mut buf, Endianness::LittleEndian);
    Some(SerializedPayload::new_from_cdr_data(buf, RepresentationIdentifier::pl_cdr_le()))
}

#[test]
fn announced_writer_becomes_a_proxy() {
    let r = receiver();
    let known = Some(participant(0, 0, vec![], vec![Locator::new_from_ipv4(7411, [10, 0, 0, 2])]));
    let (wp, name, ty) = r.writer_from_payload(&writer_payload(Some("Square"), Some("ShapeType")), &known).unwrap();
    assert_eq!(name, "Square");
    assert_eq!(ty, "ShapeType");
    assert_eq!(wp.remote_writer_guid.entity_id.as_usize(), endpoint_guid(0x02).entity_id.as_usize());
    assert_eq!(wp.data_max_size_serialized, 512);
    assert_eq!(wp.default_unicast_locator_list.len(), 1);
    assert_eq!(wp.qos.durability, (Durability::TransientLocal, true));
    assert_eq!(wp.qos.reliability.0.kind, ReliabilityQosKind::Reliable);
}

#[test]
fn announced_writer_needs_a_known_participant_and_a_topic() {
    let r = receiver();
    let known = Some(participant(0, 0, vec![], vec![Locator::new_from_ipv4(7411, [10, 0, 0, 2])]));
    assert!(matches!(r.writer_from_payload(&None, &known), Err(MessageError::Warn(_))));
    assert!(matches!(
        r.writer_from_payload(&writer_payload(Some("Square"), Some("ShapeType")), &None),
        Err(MessageError::Warn(_))
    ));
    assert!(matches!(
        r.writer_from_payload(&writer_payload(Some("Square"), None), &known),
        Err(MessageError::Warn(_))
    ));
    let junk = Some(SerializedPayload::new_from_cdr_data(vec![0x5a, 0x00, 0x10], RepresentationIdentifier::pl_cdr_le()));
    assert!(matches!(r.writer_from_payload(&junk, &known), Err(MessageError::Error(_))));
}

#[test]
fn announced_reader_becomes_a_proxy() {
    let r = receiver();
    let hc = HistoryCache::new(HistoryCacheType::Writer);
    let rp = ReaderProxy::new(
        endpoint_guid(0x07),
        true,
        vec![Locator::new_from_ipv4(7411, [10, 0, 0, 3])],
        vec![],
        vec![],
        vec![],
        DataReaderQosBuilder::new().build(),
        &hc,
        false,
    );
    let topic_data = SubscriptionBuiltinTopicData::new(
        None,
        None,
        Some(String::from("Square")),
        Some(String::from("ShapeType")),
        None, None, None, None, None, None, None, None, None, None, None, None, None, None, None,
    );
    let mut buf = Vec::new();
    DiscoveredReaderData::new(rp, topic_data).write_to(&mut buf, Endianness::BigEndian);
    let payload = Some(SerializedPayload::new_from_cdr_data(buf, RepresentationIdentifier::pl_cdr_be()));
    let known = Some(participant(0, 0, vec![], vec![]));
    let (got, name, ty) = r.reader_from_payload(&payload, &known).unwrap();
    assert_eq!(name, "Square");
    assert_eq!(ty, "ShapeType");
    assert!(got.expects_inline_qos);
    assert_eq!(got.unicast_locator_list[0].port, 7411);
    assert_eq!(got.qos.reliability.0.kind, ReliabilityQosKind::BestEffort);
    assert!(matches!(r.reader_from_payload(&payload, &None), Err(MessageError::Warn(_))));
}

fn local(key: u8, topic: &str, ty: &str, kind: TopicKind) -> LocalEndpoint {
    LocalEndpoint {
        id: EntityId::new([0, 0, key], EntityKind::from_value(0x07)),
        topic_name: String::from(topic),
        data_type: String::from(ty),
        topic_kind: kind,
    }
}

#[test]
fn matching_takes_endpoints_on_the_topic_until_a_kind_differs() {
    let locals = vec![
        local(1, "Square", "ShapeType", TopicKind::WithKey),
        local(2, "Circle", "ShapeType", TopicKind::NoKey),
        local(3, "Square", "ShapeType", TopicKind::WithKey),
        local(4, "Square", "ShapeType", TopicKind::NoKey),
        local(5, "Square", "ShapeType", TopicKind::WithKey),
    ];
    let name = String::from("Square");
    let ty = String::from("ShapeType");
    let (ids, stopped) = match_targets(&locals, endpoint_guid(0x02), &name, &ty);
    assert_eq!(ids.len(), 2);
    assert_eq!(ids[0].as_usize(), locals[0].id.as_usize());
    assert_eq!(ids[1].as_usize(), locals[2].id.as_usize());
    assert!(stopped);
    // a remote entity kind that tells no topic kind matches every endpoint on the topic
    let (ids, stopped) = match_targets(&locals, endpoint_guid(0xc1), &name, &ty);
    assert_eq!(ids.len(), 4);
    assert!(!stopped);
}

fn pmd_payload(kind: ParticipantMessageKind) -> Option<SerializedPayload> {
    let d = ParticipantMessageData::new(GuidPrefix::new([4; 12]), kind, vec![1, 2, 3]);
    let mut buf = Vec::new();
    d.write_to(&mut buf, Endianness::BigEndian);
    Some(SerializedPayload::new_from_cdr_data(buf, RepresentationIdentifier::cdr_be()))
}

#[test]
fn participant_messages_renew_liveliness() {
    let r = receiver();
    match r.participant_message_from_payload(&pmd_payload(ParticipantMessageKind::automatic_liveliness_update()), true) {
        Ok(Some((g, k))) => {
            assert_eq!(g.guid_prefix, [4; 12]);
            assert_eq!(k, LivelinessQosKind::Automatic);
        }
        _ => panic!("an automatic update was not taken"),
    }
    match r.participant_message_from_payload(&pmd_payload(ParticipantMessageKind::manual_liveliness_update()), true) {
        Ok(Some((_, k))) => assert_eq!(k, LivelinessQosKind::ManualByParticipant),
        _ => panic!("a manual update was not taken"),
    }
    assert!(matches!(
        r.participant_message_from_payload(&pmd_payload(ParticipantMessageKind::unknown()), true),
        Ok(None)
    ));
    assert!(matches!(
        r.participant_message_from_payload(&pmd_payload(ParticipantMessageKind::unknown()), false),
        Err(MessageError::Warn(_))
    ));
    assert!(matches!(r.participant_message_from_payload(&None, true), Err(MessageError::Warn(_))));
    let short = Some(SerializedPayload::new_from_cdr_data(vec![1, 2, 3], RepresentationIdentifier::cdr_be()));
    assert!(matches!(r.participant_message_from_payload(&short, true), Err(MessageError::Error(_))));
}

#[test]
fn rejected_messages_say_why() {
    let mut r = receiver();
    r.reset();
    r.source_guid_prefix = GuidPrefix::new([2; 12]);
    let user_writer = EntityId::new([0, 0, 1], EntityKind::from_value(0x02));
    let user_reader = EntityId::new([0, 0, 2], EntityKind::from_value(0x07));
    assert!(matches!(
        r.route_data(SequenceNumber(-1), 0x05, user_writer, user_reader),
        Err(MessageError::Warn(m)) if m == "Invalid Data Submessage"
    ));
    assert!(matches!(
        r.route_data(SequenceNumber(1), 0x07, user_writer, user_reader),
        Err(MessageError::Warn(m)) if m == "received DATA with inlineQos, Umber DDS dosen't support inlineQos yet"
    ));
    assert!(matches!(
        r.participant_from_payload(&None),
        Err(MessageError::Warn(m)) if m == "received participant message without serializedPayload"
    ));
    let other = participant(5, 0x0C3F, vec![], vec![]);
    let mut buf = Vec::new();
    other.write_to(&mut buf, Endianness::LittleEndian);
    let payload = SerializedPayload::new_from_cdr_data(buf, RepresentationIdentifier::pl_cdr_le());
    assert!(matches!(
        r.participant_from_payload(&Some(payload)),
        Err(MessageError::Warn(m)) if m == "received spdp message from different DDS domain. Self: 0, Remote: 5"
    ));
    let junk = SerializedPayload::new_from_cdr_data(vec![0x50, 0x00, 0x20], RepresentationIdentifier::pl_cdr_le());
    assert!(matches!(
        r.participant_from_payload(&Some(junk)),
        Err(MessageError::Error(m)) if m == "failed to deserialize reseived spdp data message: Malformed"
    ));
}
