use umber_dds::discovery::data::{
    ParticipantMessageData, ParticipantMessageKind, ProtocolVersion, ReadError, SDPBuiltinData,
    SPDPdiscoveredParticipantData, VendorId,
};
use umber_dds::discovery::parse::Read;
use umber_dds::discovery::topic_data::SubscriptionBuiltinTopicData;
use umber_dds::dds::qos::policy::{Durability, ReliabilityQosKind};
use umber_dds::message::cdr::Endianness;
use umber_dds::message::element::Locator;
use umber_dds::rtps::cache::{HistoryCache, HistoryCacheType};
use umber_dds::structure::duration::Duration;
use umber_dds::structure::entity_id::{EntityId, EntityKind};
use umber_dds::structure::guid::{GuidPrefix, GUID};

fn participant_guid() -> GUID {
    GUID::new(
        GuidPrefix::new([
            0x00, 0x00, 0xA1, 0x66, 0x86, 0xFF, 0xC2, 0x11, 0x0A, 0x2C, 0x1D, 0x39,
        ]),
        EntityId::new([0x00, 0x00, 0x01], EntityKind::from_value(0xC1)),
    )
}

fn participant_data(domain_tag: &str) -> SPDPdiscoveredParticipantData {
    SPDPdiscoveredParticipantData::new(
        0,
        domain_tag.to_string(),
        ProtocolVersion { major: 2, minor: 3 },
        participant_guid(),
        VendorId { vendor_id: [0x00, 0x00] },
        false,
        0x0C3F,
        vec![Locator::new_from_ipv4(7400, [127, 0, 0, 1])],
        vec![Locator::new_from_ipv4(7410, [127, 0, 0, 1])],
        vec![Locator::new_from_ipv4(7411, [127, 0, 0, 1])],
        vec![Locator::new_from_ipv4(7440, [127, 0, 0, 1])],
        Some(0),
        Duration {
            seconds: 20,
            fraction: 0,
        },
    )
}

#[test]
fn test_spdp_serialize() {
    let data = participant_data("");
    let mut serialized = Vec::new();
    data.write_to(&mut serialized, Endianness::LittleEndian);
    assert_eq!(
        serialized,
        vec![
            // 0x0F: PID_DOMAIN_ID, 0x15: PID_PROTOCOL_VERSION
            0x0F, 0x00, 0x04, 0x00, 0x00, 0x00, 0x00, 0x00, 0x15, 0x00, 0x04, 0x00, 0x02, 0x03,
            // 0x16: PID_VENDOR_ID, 0x43: PID_EXPECTS_INLINE_QOS
            0x00, 0x00, 0x16, 0x00, 0x04, 0x00, 0x00, 0x00, 0x00, 0x00, 0x43, 0x00, 0x04, 0x00,
            // 0x50: PID_PARTICIPANT_GUID,
            0x00, 0x00, 0x00, 0x00, 0x50, 0x00, 0x10, 0x00, 0x00, 0x00, 0xA1, 0x66, 0x86, 0xFF,
            // 0x32: PID_METATRAFFIC_UNICAST_LOCATOR
            0xC2, 0x11, 0x0A, 0x2C, 0x1D, 0x39, 0x00, 0x00, 0x01, 0xC1, 0x32, 0x00, 0x18, 0x00,
            0x01, 0x00, 0x00, 0x00, 0xE8, 0x1C, 0x00, 0x00, 0x00, 0x00, 0x00, 0x00, 0x00, 0x00,
            // 0x33: PID_METATRAFFIC_MULTICAST_LOCATOR
            0x00, 0x00, 0x00, 0x00, 0x00, 0x00, 0x7F, 0x00, 0x00, 0x01, 0x33, 0x00, 0x18, 0x00,
            0x01, 0x00, 0x00, 0x00, 0xF2, 0x1C, 0x00, 0x00, 0x00, 0x00, 0x00, 0x00, 0x00, 0x00,
            // 0x31: PID_DEFAULT_UNICAST_LOCATOR
            0x00, 0x00, 0x00, 0x00, 0x00, 0x00, 0x7F, 0x00, 0x00, 0x01, 0x31, 0x00, 0x18, 0x00,
            0x01, 0x00, 0x00, 0x00, 0xF3, 0x1C, 0x00, 0x00, 0x00, 0x00, 0x00, 0x00, 0x00, 0x00,
            // 0x48: PID_DEFAULT_MULTICAST_LOCATOR
            0x00, 0x00, 0x00, 0x00, 0x00, 0x00, 0x7F, 0x00, 0x00, 0x01, 0x48, 0x00, 0x18, 0x00,
            0x01, 0x00, 0x00, 0x00, 0x10, 0x1D, 0x00, 0x00, 0x00, 0x00, 0x00, 0x00, 0x00, 0x00,
            // 0x58: PID_BUILTIN_ENDPOINT_SET
            0x00, 0x00, 0x00, 0x00, 0x00, 0x00, 0x7F, 0x00, 0x00, 0x01, 0x58, 0x00, 0x04, 0x00,
            // 0x02: PID_PARTICIPANT_LEASE_DURATION
            0x3F, 0x0C, 0x00, 0x00, 0x02, 0x00, 0x08, 0x00, 0x14, 0x00, 0x00, 0x00, 0x00, 0x00,
            // 0x34: PID_PARTICIPANT_MANUAL_LIVELINESS_COUNT, 0x01: PID_SENTINEL
            0x00, 0x00, 0x34, 0x00, 0x04, 0x00, 0x00, 0x00, 0x00, 0x00, 0x01, 0x00, 0x00, 0x00,
        ]
    );
}

#[test]
fn test_spdp_deserialize() {
    let data = participant_data("hoge");
    let mut serialized = Vec::new();
    data.write_to(&mut serialized, Endianness::LittleEndian);
    let mut deseriarized = match SDPBuiltinData::read_from(&serialized, Endianness::LittleEndian) {
        Ok(d) => d,
        Err(e) => panic!("failed to deserialize\n{:?}", e),
    };
    let new_data = deseriarized
        .gen_spdp_discoverd_participant_data()
        .expect("failed to get spdp data from SDPBuiltinData");
    assert_eq!(data.domain_id, new_data.domain_id);
    assert_eq!(data.protocol_version, new_data.protocol_version);
    assert_eq!(data.guid, new_data.guid);
    assert_eq!(data.vendor_id.vendor_id, new_data.vendor_id.vendor_id);
    assert_eq!(data.expects_inline_qos, new_data.expects_inline_qos);
    assert_eq!(
        data.available_builtin_endpoint,
        new_data.available_builtin_endpoint
    );
    assert_eq!(
        data.metarraffic_unicast_locator_list[0].address,
        new_data.metarraffic_unicast_locator_list[0].address
    );
    assert_eq!(
        data.metarraffic_multicast_locator_list[0].port,
        new_data.metarraffic_multicast_locator_list[0].port
    );
    assert_eq!(
        data.default_unicast_locator_list[0].port,
        new_data.default_unicast_locator_list[0].port
    );
    assert_eq!(
        data.default_multicast_locator_list[0].port,
        new_data.default_multicast_locator_list[0].port
    );
    assert_eq!(
        data.manual_liveliness_count,
        new_data.manual_liveliness_count
    );
    assert_eq!(data.lease_duration, new_data.lease_duration);
}

#[test]
fn big_endian_domain_reads_back_as_zero() {
    let mut data = participant_data("");
    data.domain_id = 7;
    let mut buf = Vec::new();
    data.write_to(&mut buf, Endianness::BigEndian);
    let d = SDPBuiltinData::read_from(&buf, Endianness::BigEndian).unwrap();
    assert_eq!(d.domain_id, Some(0));
    let mut buf = Vec::new();
    data.write_to(&mut buf, Endianness::LittleEndian);
    let d = SDPBuiltinData::read_from(&buf, Endianness::LittleEndian).unwrap();
    assert_eq!(d.domain_id, Some(7));
}

fn le16(x: u16) -> [u8; 2] {
    x.to_le_bytes()
}

#[test]
fn endpoint_data_with_names_and_qos() {
    let mut buf = Vec::new();
    // PID_ENDPOINT_GUID
    buf.extend_from_slice(&le16(0x5a));
    buf.extend_from_slice(&le16(16));
    buf.extend_from_slice(&[7; 12]);
    buf.extend_from_slice(&[0, 0, 1, 0x07]);
    // PID_TOPIC_NAME "Square"
    buf.extend_from_slice(&le16(0x05));
    buf.extend_from_slice(&le16(12));
    buf.extend_from_slice(&7u32.to_le_bytes());
    buf.extend_from_slice(b"Square\0");
    buf.push(0);
    // PID_TYPE_NAME "ShapeType"
    buf.extend_from_slice(&le16(0x07));
    buf.extend_from_slice(&le16(16));
    buf.extend_from_slice(&10u32.to_le_bytes());
    buf.extend_from_slice(b"ShapeType\0");
    buf.extend_from_slice(&[0, 0]);
    // PID_DURABILITY transient local
    buf.extend_from_slice(&le16(0x1d));
    buf.extend_from_slice(&le16(4));
    buf.extend_from_slice(&1u32.to_le_bytes());
    // PID_RELIABILITY reliable, 0.1 s
    buf.extend_from_slice(&le16(0x1a));
    buf.extend_from_slice(&le16(12));
    buf.extend_from_slice(&2u32.to_le_bytes());
    buf.extend_from_slice(&0u32.to_le_bytes());
    buf.extend_from_slice(&0x1999_9999u32.to_le_bytes());
    // an identifier that is not read, skipped by its length
    buf.extend_from_slice(&le16(0x7777));
    buf.extend_from_slice(&le16(4));
    buf.extend_from_slice(&[1, 2, 3, 4]);
    // PID_UNICAST_LOCATOR
    buf.extend_from_slice(&le16(0x2f));
    buf.extend_from_slice(&le16(24));
    buf.extend_from_slice(&1i32.to_le_bytes());
    buf.extend_from_slice(&7411u32.to_le_bytes());
    buf.extend_from_slice(&[0, 0, 0, 0, 0, 0, 0, 0, 0, 0, 0, 0, 192, 168, 0, 209]);
    // PID_SENTINEL
    buf.extend_from_slice(&[1, 0, 0, 0]);
    let mut d = SDPBuiltinData::read_from(&buf, Endianness::LittleEndian).unwrap();
    let (name, ty) = d.topic_info().unwrap();
    assert_eq!(name, "Square");
    assert_eq!(ty, "ShapeType");
    assert_eq!(d.durability, Some(Durability::TransientLocal));
    let wp = d.gen_writerproxy(vec![], vec![]).unwrap();
    assert_eq!(wp.remote_writer_guid.guid_prefix.guid_prefix, [7; 12]);
    assert_eq!(wp.unicast_locator_list[0].port, 7411);
    assert_eq!(wp.qos.reliability.0.kind, ReliabilityQosKind::Reliable);
    assert_eq!(wp.qos.durability, (Durability::TransientLocal, true));
    let hc = HistoryCache::new(HistoryCacheType::Writer);
    let rp = d.gen_readerpoxy(&hc, vec![], vec![]).unwrap();
    assert!(!rp.expects_inline_qos);
    assert_eq!(rp.qos.reliability.0.kind, ReliabilityQosKind::Reliable);
}

#[test]
fn truncated_or_invalid_data_is_malformed() {
    let buf = vec![0x1d, 0x00, 0x04, 0x00, 0x01];
    assert!(matches!(
        SDPBuiltinData::read_from(&buf, Endianness::LittleEndian),
        Err(ReadError::Malformed)
    ));
    // durability 5 is no durability
    let buf = vec![0x1d, 0x00, 0x04, 0x00, 5, 0, 0, 0, 1, 0, 0, 0];
    assert!(SDPBuiltinData::read_from(&buf, Endianness::LittleEndian).is_err());
    // padding identifiers are read without a length
    let buf = vec![0, 0, 0, 0, 1, 0, 0, 0];
    let d = SDPBuiltinData::read_from(&buf, Endianness::LittleEndian).unwrap();
    assert_eq!(d.domain_id, Some(0));
    assert!(d.topic_name.is_none());
}

#[test]
fn flag_other_than_zero_or_one_aborts() {
    let buf = vec![0x43, 0x00, 0x04, 0x00, 2, 0, 0, 0, 1, 0, 0, 0];
    assert!(matches!(
        SDPBuiltinData::parse(&buf, Endianness::LittleEndian),
        Read::Aborts
    ));
}

#[test]
fn participant_message_reads_back() {
    let m = ParticipantMessageData::new(
        GuidPrefix::new([3; 12]),
        ParticipantMessageKind::automatic_liveliness_update(),
        vec![9, 8, 7, 6, 5],
    );
    let mut buf = Vec::new();
    m.write_to(&mut buf, Endianness::BigEndian);
    assert_eq!(buf.len(), 12 + 4 + 4 + 5 + 3);
    assert_eq!(&buf[12..16], &[0, 0, 0, 1]);
    let (back, end) = ParticipantMessageData::read_from(&buf, 0, Endianness::BigEndian).unwrap();
    assert_eq!(end, buf.len());
    assert_eq!(back.data, vec![9, 8, 7, 6, 5]);
    assert!(back.kind == ParticipantMessageKind::automatic_liveliness_update());
    assert!(back.guid_prefix == GuidPrefix::new([3; 12]));
}

#[test]
fn topic_names_are_written_as_cdr_text() {
    let d = SubscriptionBuiltinTopicData::new(
        None,
        None,
        Some("Square".to_string()),
        Some("ShapeType".to_string()),
        None, None, None, None, None, None, None, None, None, None, None, None, None, None, None,
    );
    let mut buf = Vec::new();
    d.write_to(&mut buf, Endianness::LittleEndian);
    let mut expected = vec![0x07, 0x00, 16, 0, 10, 0, 0, 0];
    expected.extend_from_slice(b"ShapeType\0\0\0");
    expected.extend_from_slice(&[0x05, 0x00, 12, 0, 7, 0, 0, 0]);
    expected.extend_from_slice(b"Square\0\0");
    assert_eq!(buf, expected);
    buf.extend_from_slice(&[1, 0, 0, 0]);
    let r = SDPBuiltinData::read_from(&buf, Endianness::LittleEndian).unwrap();
    assert_eq!(r.topic_name.as_deref(), Some("Square"));
    assert_eq!(r.data_type_name.as_deref(), Some("ShapeType"));
}
