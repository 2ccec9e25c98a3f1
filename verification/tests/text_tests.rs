use umber_dds::message::element::{Locator, SequenceNumber, SequenceNumberSet, Timestamp};
use umber_dds::message::receiver::MessageError;
use umber_dds::rtps::cache::HistoryCacheType;
use umber_dds::structure::entity_id::{EntityId, EntityKind};

#[test]
fn predefined_entity_ids_show_their_names() {
    assert_eq!(EntityId::participant().text(), "EntityId { PARTICIPANT }");
    assert_eq!(
        EntityId::sedp_builtin_publications_detector().text(),
        "EntityId { SEDP_BUILTIN_PUBLICATIONS_DETECTOR }"
    );
    assert_eq!(EntityId::unknow().text(), "EntityId { UNKNOW }");
}

#[test]
fn other_entity_ids_show_key_and_kind() {
    let id = EntityId::new([1, 2, 255], EntityKind::from_value(0x07));
    assert_eq!(
        id.text(),
        "EntityId { entity_key: [1, 2, 255], entity_kind: EntityKind: READER_WITH_KEY_USER_DEFIND(0x07) }"
    );
}

#[test]
fn entity_kinds_show_name_and_octet() {
    assert_eq!(EntityKind::from_value(0xc1).text(), "EntityKind: PARTICIPANT_BUILT_IN(0xC1)");
    assert_eq!(EntityKind::from_value(0x41).text(), "EntityKind: SUBSCRIBER(0x41)");
    assert_eq!(EntityKind::from_value(0xab).text(), "EntityKind: OTHER(0xAB)");
}

#[test]
fn locators_show_their_address() {
    let v4 = Locator::new_from_ipv4(7400, [239, 255, 0, 1]);
    assert_eq!(v4.text(), "Locator: kind: UDPv4, port: 7400, address: 239.255.0.1");
    let v6 = Locator::new(2, 7411, [0xfe, 0x80, 0, 0, 0, 0, 0, 0, 0, 0, 0, 0, 0, 0, 0x12, 0x34]);
    assert_eq!(
        v6.text(),
        "Locator: kind: UDPv6, port: 7411, address: fe80:0000:0000:0000:0000:0000:0000:1234"
    );
    let bad = Locator::new(-1, 0, [0; 16]);
    assert_eq!(
        bad.text(),
        "Locator: kidn: INVALID, port: 0, address: [0, 0, 0, 0, 0, 0, 0, 0, 0, 0, 0, 0, 0, 0, 0, 0]"
    );
    let odd = Locator::new(7, 1, [1; 16]);
    assert_eq!(
        odd.text(),
        "Locator: kind: 7, port: 1, address: [1, 1, 1, 1, 1, 1, 1, 1, 1, 1, 1, 1, 1, 1, 1, 1]"
    );
}

#[test]
fn small_values_show_plainly() {
    assert_eq!(Timestamp { seconds: 12, fraction: 305 }.text(), "12.305");
    assert_eq!(HistoryCacheType::Writer.text(), "Writer");
    assert_eq!(MessageError::Warn(String::from("late")).text(), "MessageWarn: ('late')");
    assert_eq!(MessageError::Error(String::from("bad")).text(), "MessageError: ('bad')");
}

#[test]
fn sequence_number_sets_show_words_in_binary() {
    let s = SequenceNumberSet { bitmap_base: SequenceNumber(-3), num_bits: 2, bitmap: vec![0xc000_0001] };
    assert_eq!(
        s.text(),
        "SequenceNumberSet { bitmap_base: -3, num_bits: 2,  bitmap: {11000000000000000000000000000001, } }"
    );
}
