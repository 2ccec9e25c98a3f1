use umber_dds::dds::qos::policy::{
    Deadline, Durability, History, HistoryQosKind, Liveliness, LivelinessQosKind, OwnershipStrength,
    UserData,
};
use umber_dds::discovery::data::SDPBuiltinData;
use umber_dds::dds::qos::{DataReaderQosBuilder, DataWriterQosBuilder};
use umber_dds::dds::tokens::TokenDec;
use umber_dds::discovery::sedp::{DiscoveredReaderData, DiscoveredWriterData};
use umber_dds::discovery::topic_data::{PublicationBuiltinTopicData, SubscriptionBuiltinTopicData};
use umber_dds::message::cdr::Endianness;
use umber_dds::message::element::Locator;
use umber_dds::rtps::cache::{HistoryCache, HistoryCacheType};
use umber_dds::structure::duration::Duration;
use umber_dds::structure::entity_id::{EntityId, EntityKind};
use umber_dds::structure::guid::{GuidPrefix, GUID};
use umber_dds::structure::proxy::{ReaderProxy, WriterProxy};

fn guid(n: u8) -> GUID {
    GUID::new(
        GuidPrefix::new([n; 12]),
        EntityId::new([0, 0, 1], EntityKind::from_value(0x07)),
    )
}

fn loc() -> Vec<Locator> {
    vec![Locator::new_from_ipv4(7411, [127, 0, 0, 1])]
}

fn reader_topic() -> SubscriptionBuiltinTopicData {
    SubscriptionBuiltinTopicData::new(
        None,
        None,
        Some(String::from("Square")),
        Some(String::from("ShapeType")),
        None, None, None, None, None, None, None, None, None, None, None, None, None, None, None,
    )
}

fn writer_topic() -> PublicationBuiltinTopicData {
    PublicationBuiltinTopicData::new(
        None,
        None,
        Some(String::from("Square")),
        None,
        None, None, None, None, None, None, None, None, None, None, None, None, None, None, None,
        None,
    )
}

#[test]
fn reader_proxy_parameters_in_order() {
    let hc = HistoryCache::new(HistoryCacheType::Writer);
    let rp = ReaderProxy::new(
        guid(3),
        true,
        loc(),
        vec![],
        vec![],
        vec![],
        DataReaderQosBuilder::new().build(),
        &hc,
        false,
    );
    let mut buf = Vec::new();
    rp.write_to(&mut buf, Endianness::LittleEndian);
    assert_eq!(buf.len(), 184);
    assert_eq!(&buf[0..4], &[0x5a, 0x00, 0x10, 0x00]);
    assert_eq!(&buf[4..16], &[3u8; 12]);
    assert_eq!(&buf[20..28], &[0x43, 0x00, 0x04, 0x00, 1, 0, 0, 0]);
    assert_eq!(&buf[28..32], &[0x2f, 0x00, 24, 0x00]);
    assert_eq!(&buf[56..64], &[0x1d, 0x00, 0x04, 0x00, 0, 0, 0, 0]);
    assert_eq!(&buf[172..176], &[0x04, 0x00, 0x08, 0x00]);
}

#[test]
fn discovered_reader_ends_with_names_and_sentinel() {
    let hc = HistoryCache::new(HistoryCacheType::Writer);
    let rp = ReaderProxy::new(
        guid(3),
        false,
        loc(),
        vec![],
        vec![],
        vec![],
        DataReaderQosBuilder::new().build(),
        &hc,
        false,
    );
    let d = DiscoveredReaderData::new(rp, reader_topic());
    let mut buf = Vec::new();
    d.write_to(&mut buf, Endianness::LittleEndian);
    assert_eq!(buf.len(), 224);
    assert_eq!(&buf[184..192], &[0x07, 0x00, 16, 0x00, 10, 0, 0, 0]);
    assert_eq!(&buf[192..201], b"ShapeType");
    assert_eq!(&buf[204..212], &[0x05, 0x00, 12, 0x00, 7, 0, 0, 0]);
    assert_eq!(&buf[212..218], b"Square");
    assert_eq!(&buf[220..224], &[0x01, 0x00, 0x00, 0x00]);
}

#[test]
fn discovered_writer_in_big_endian() {
    let wp = WriterProxy::new(
        guid(4),
        loc(),
        vec![],
        vec![],
        vec![],
        1000,
        DataWriterQosBuilder::new().build(),
    );
    let mut buf = Vec::new();
    wp.write_to(&mut buf, Endianness::BigEndian);
    assert_eq!(buf.len(), 232);
    assert_eq!(&buf[48..56], &[0x00, 0x60, 0x00, 0x04, 0, 0, 0x03, 0xe8]);
    let d = DiscoveredWriterData::new(wp, writer_topic());
    let mut all = Vec::new();
    d.write_to(&mut all, Endianness::BigEndian);
    assert_eq!(all.len(), 232 + 16 + 4);
    assert_eq!(&all[0..232], &buf[..]);
    assert_eq!(&all[248..252], &[0x00, 0x01, 0x00, 0x00]);
}

#[test]
fn policy_octets() {
    let mut buf = Vec::new();
    Deadline { period: Duration::from_secs(2) }.write_to(&mut buf, Endianness::LittleEndian);
    assert_eq!(buf, vec![2, 0, 0, 0, 0, 0, 0, 0]);
    let mut buf = Vec::new();
    OwnershipStrength(-2).write_to(&mut buf, Endianness::BigEndian);
    assert_eq!(buf, vec![0xff, 0xff, 0xff, 0xfe]);
    let mut buf = Vec::new();
    UserData { value: vec![9, 8, 7, 6, 5] }.write_to(&mut buf, Endianness::LittleEndian);
    assert_eq!(buf, vec![5, 0, 0, 0, 9, 8, 7, 6, 5, 0, 0, 0]);
}

#[test]
fn tokens_are_told_apart() {
    assert!(matches!(TokenDec::decode(0x41), TokenDec::ReservedToken(0x41)));
    assert!(matches!(TokenDec::decode(0x7f), TokenDec::ReservedToken(0x7f)));
    let id = EntityId::new([1, 2, 3], EntityKind::from_value(0xc2));
    match TokenDec::decode(id.as_usize()) {
        TokenDec::Entity(e) => assert_eq!(e.as_usize(), id.as_usize()),
        TokenDec::ReservedToken(_) => panic!("an entity was taken for a reserved token"),
    }
    assert!(matches!(TokenDec::decode(0x80), TokenDec::Entity(_)));
}

#[test]
fn announced_writer_reads_back() {
    let qos = DataWriterQosBuilder::new()
        .durability(Durability::TransientLocal)
        .liveliness(Liveliness {
            kind: LivelinessQosKind::ManualByParticipant,
            lease_duration: Duration::from_secs(3),
        })
        .history(History { kind: HistoryQosKind::KeepAll, depth: 5 })
        .user_data(UserData { value: vec![1, 2, 3] })
        .ownership_strength(OwnershipStrength(9))
        .build();
    let wp = WriterProxy::new(guid(4), loc(), loc(), vec![], vec![], 1000, qos);
    let d = DiscoveredWriterData::new(wp, writer_topic());
    let mut buf = Vec::new();
    d.write_to(&mut buf, Endianness::BigEndian);
    let mut back = SDPBuiltinData::read_from(&buf, Endianness::BigEndian).unwrap();
    assert_eq!(back.topic_name, Some(String::from("Square")));
    assert_eq!(back.data_type_name, None);
    assert_eq!(back.data_max_size_serialized, Some(1000));
    assert_eq!(back.unicast_locator_list.len(), 1);
    assert_eq!(back.multicast_locator_list.len(), 1);
    let got = back.gen_writerproxy(vec![], vec![]).unwrap();
    assert_eq!(got.remote_writer_guid.guid_prefix.guid_prefix, [4; 12]);
    assert_eq!(got.unicast_locator_list[0].port, 7411);
    assert_eq!(got.data_max_size_serialized, 1000);
    assert_eq!(got.qos.durability.0, Durability::TransientLocal);
    assert_eq!(got.qos.history.0, History { kind: HistoryQosKind::KeepAll, depth: 5 });
    assert_eq!(got.qos.user_data.0.value, vec![1, 2, 3]);
    assert_eq!(got.qos.ownership_strength.0, OwnershipStrength(9));
    // a kind written as by-participant reads back as by-topic
    assert_eq!(got.qos.liveliness.0.kind, LivelinessQosKind::ManualByTopic);
    assert_eq!(got.qos.liveliness.0.lease_duration, Duration::from_secs(3));
}

#[test]
fn announced_reader_reads_back() {
    let hc = HistoryCache::new(HistoryCacheType::Writer);
    let qos = DataReaderQosBuilder::new().durability(Durability::TransientLocal).build();
    let rp = ReaderProxy::new(guid(5), true, loc(), vec![], vec![], vec![], qos, &hc, false);
    let d = DiscoveredReaderData::new(rp, reader_topic());
    let mut buf = Vec::new();
    d.write_to(&mut buf, Endianness::LittleEndian);
    let mut back = SDPBuiltinData::read_from(&buf, Endianness::LittleEndian).unwrap();
    let (name, ty) = back.topic_info().unwrap();
    assert_eq!(name, "Square");
    assert_eq!(ty, "ShapeType");
    assert_eq!(back.expects_inline_qos, Some(true));
    let got = back.gen_readerpoxy(&hc, vec![], vec![]).unwrap();
    assert_eq!(got.remote_reader_guid.guid_prefix.guid_prefix, [5; 12]);
    assert!(got.expects_inline_qos);
    assert_eq!(got.unicast_locator_list.len(), 1);
    assert_eq!(got.qos.durability.0, Durability::TransientLocal);
    assert_eq!(got.qos.liveliness.0.kind, LivelinessQosKind::Automatic);
}
