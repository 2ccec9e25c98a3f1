use umber_dds::dds::qos::policy::{Reliability, ReliabilityQosKind};
use umber_dds::dds::qos::{DataReaderQosBuilder, DataWriterQosBuilder};
use umber_dds::message::element::{
    Locator, SequenceNumber, SequenceNumberSet, SerializedPayload, Timestamp,
};
use umber_dds::rtps::cache::{CacheChange, ChangeKind, HistoryCache, HistoryCacheType, InstanceHandle};
use umber_dds::rtps::reader::Reader;
use umber_dds::rtps::status::{DataReaderStatusChanged, ReaderTimer};
use umber_dds::structure::duration::Duration;
use umber_dds::structure::entity_id::{EntityId, EntityKind, TopicKind};
use umber_dds::structure::guid::{GuidPrefix, GUID};

fn writer_guid(n: u8) -> GUID {
    GUID::new(
        GuidPrefix::new([n; 12]),
        EntityId::new([0, 0, 1], EntityKind::from_value(0x02)),
    )
}

fn reader(kind: ReliabilityQosKind, delay: Duration) -> Reader {
    let qos = match kind {
        ReliabilityQosKind::Reliable => DataReaderQosBuilder::new()
            .reliability(Reliability::default_reliable())
            .build(),
        ReliabilityQosKind::BestEffort => DataReaderQosBuilder::new().build(),
    };
    Reader::new(
        GUID::new(
            GuidPrefix::new([9; 12]),
            EntityId::new([0, 0, 2], EntityKind::from_value(0x07)),
        ),
        kind,
        vec![],
        vec![],
        false,
        delay,
        qos,
        String::from("Square"),
        String::from("ShapeType"),
        TopicKind::WithKey,
    )
}

fn loc() -> Vec<Locator> {
    vec![Locator::new_from_ipv4(7411, [192, 168, 0, 3])]
}

fn change(w: GUID, seq: i64) -> CacheChange {
    CacheChange::new(
        ChangeKind::Alive,
        w,
        SequenceNumber(seq),
        Timestamp { seconds: 1, fraction: 0 },
        Some(SerializedPayload::from_bytes(&[0, 1, 0, 0, seq as u8]).unwrap()),
        None,
        InstanceHandle::new(0x10),
    )
}

#[test]
fn reliable_reader_waits_for_missing_changes() {
    let wg = writer_guid(1);
    let mut r = reader(ReliabilityQosKind::Reliable, Duration::zero());
    let mut hc = HistoryCache::new(HistoryCacheType::Reader);
    let mut notes = Vec::new();
    let t = r.matched_writer_add_with_default_locator(
        wg,
        loc(),
        vec![],
        vec![],
        vec![],
        1000,
        DataWriterQosBuilder::new().build(),
        &mut notes,
    );
    assert!(t.is_none());
    assert_eq!(notes.len(), 2);
    match &notes[0] {
        DataReaderStatusChanged::SubscriptionMatched(s) => {
            assert_eq!((s.total_count, s.total_count_change, s.current_count, s.current_count_change), (1, 1, 1, 1));
        },
        _ => panic!("expected a subscription status"),
    }
    match &notes[1] {
        DataReaderStatusChanged::LivelinessChanged(s) => {
            assert_eq!((s.alive_count, s.not_alive_count, s.alive_count_change, s.not_alive_count_change), (1, 0, 1, 0));
        },
        _ => panic!("expected a liveliness status"),
    }
    assert!(r.is_contain_writer(wg));

    let (timer, ack) = r.handle_heartbeat(wg, 0x00, SequenceNumber(1), SequenceNumber(3), &mut hc, &mut notes);
    assert!(timer.is_none());
    let ack = ack.unwrap();
    assert_eq!(ack.reader_sn_state.bitmap_base, SequenceNumber(1));
    assert_eq!(
        ack.reader_sn_state.set(),
        vec![SequenceNumber(1), SequenceNumber(2), SequenceNumber(3)]
    );
    assert_eq!(ack.locators.len(), 1);
    assert_eq!(ack.locators[0].port, 7411);
    assert_eq!(ack.locators[0].address, loc()[0].address);
    assert_eq!(ack.count, 1);
    assert!(!ack.final_flag);
    assert_eq!(notes.len(), 2);

    let t = r.add_change(wg.guid_prefix, change(wg, 2), &mut hc, &mut notes);
    assert!(t.is_none());
    assert_eq!(notes.len(), 2);

    let gap_list = SequenceNumberSet {
        bitmap_base: SequenceNumber(2),
        num_bits: 0,
        bitmap: vec![],
    };
    r.handle_gap(wg, SequenceNumber(1), &gap_list, &mut notes);
    assert_eq!(notes.len(), 2);

    r.add_change(wg.guid_prefix, change(wg, 3), &mut hc, &mut notes);
    assert_eq!(notes.len(), 3);
    assert!(matches!(notes[2], DataReaderStatusChanged::DataAvailable));
    // The default history keeps the last change of each instance only.
    assert_eq!(hc.changes.len(), 1);
    assert_eq!(hc.changes[0].sequence_number, SequenceNumber(3));
    assert_eq!(hc.ready_key.len(), 1);

    let (timer, ack) = r.handle_heartbeat(wg, 0x02, SequenceNumber(1), SequenceNumber(3), &mut hc, &mut notes);
    assert!(timer.is_none());
    assert!(ack.is_none());
}

#[test]
fn delayed_answer_asks_for_the_timer() {
    let wg = writer_guid(1);
    let mut r = reader(ReliabilityQosKind::Reliable, Duration::from_secs(1));
    let mut hc = HistoryCache::new(HistoryCacheType::Reader);
    let mut notes = Vec::new();
    r.matched_writer_add(wg, loc(), vec![], 1000, DataWriterQosBuilder::new().build(), &mut notes);
    let (timer, ack) = r.handle_heartbeat(wg, 0x00, SequenceNumber(1), SequenceNumber(2), &mut hc, &mut notes);
    assert!(ack.is_none());
    match timer {
        Some(ReaderTimer::Heartbeat(e, g)) => {
            assert_eq!(e, r.guid.entity_id);
            assert_eq!(g, wg);
        },
        _ => panic!("expected the heartbeat timer"),
    }
    let ack = r.handle_hb_response_timeout(wg, &mut hc, &mut notes).unwrap();
    assert_eq!(ack.reader_sn_state.set(), vec![SequenceNumber(1), SequenceNumber(2)]);
    assert_eq!(ack.dst_guid_prefix, wg.guid_prefix);
}

#[test]
fn incompatible_writer_is_not_matched() {
    let wg = writer_guid(1);
    let mut r = reader(ReliabilityQosKind::Reliable, Duration::zero());
    let mut notes = Vec::new();
    let offered = DataWriterQosBuilder::new()
        .reliability(Reliability::default_besteffort())
        .build();
    let t = r.matched_writer_add_with_default_locator(wg, loc(), vec![], vec![], vec![], 1000, offered, &mut notes);
    assert!(t.is_none());
    assert_eq!(notes.len(), 1);
    assert!(matches!(notes[0], DataReaderStatusChanged::RequestedIncompatibleQos(_)));
    assert!(!r.is_contain_writer(wg));
}

#[test]
fn best_effort_reader_drops_old_changes() {
    let wg = writer_guid(1);
    let mut r = reader(ReliabilityQosKind::BestEffort, Duration::zero());
    let mut hc = HistoryCache::new(HistoryCacheType::Reader);
    let mut notes = Vec::new();
    r.matched_writer_add(wg, loc(), vec![], 1000, DataWriterQosBuilder::new().build(), &mut notes);
    assert_eq!(notes.len(), 2);
    r.add_change(wg.guid_prefix, change(wg, 5), &mut hc, &mut notes);
    assert_eq!(notes.len(), 3);
    assert!(matches!(notes[2], DataReaderStatusChanged::DataAvailable));
    assert_eq!(hc.changes.len(), 1);
    r.add_change(wg.guid_prefix, change(wg, 3), &mut hc, &mut notes);
    assert_eq!(notes.len(), 3);
    assert_eq!(hc.changes.len(), 1);
    r.add_change(wg.guid_prefix, change(wg, 6), &mut hc, &mut notes);
    assert_eq!(notes.len(), 4);
    assert_eq!(hc.changes.len(), 1);
    assert_eq!(hc.changes[0].sequence_number, SequenceNumber(6));
}

#[test]
fn change_from_unknown_writer_is_ignored() {
    let wg = writer_guid(1);
    let mut r = reader(ReliabilityQosKind::Reliable, Duration::zero());
    let mut hc = HistoryCache::new(HistoryCacheType::Reader);
    let mut notes = Vec::new();
    assert!(r.add_change(wg.guid_prefix, change(wg, 1), &mut hc, &mut notes).is_none());
    assert!(notes.is_empty());
    assert!(hc.changes.is_empty());
}

#[test]
fn unmatched_writer_comes_back_and_is_deleted() {
    let wg = writer_guid(1);
    let other = writer_guid(2);
    let mut r = reader(ReliabilityQosKind::Reliable, Duration::zero());
    let mut hc = HistoryCache::new(HistoryCacheType::Reader);
    let mut notes = Vec::new();
    r.matched_writer_add(wg, loc(), vec![], 1000, DataWriterQosBuilder::new().build(), &mut notes);
    r.matched_writer_add(other, loc(), vec![], 1000, DataWriterQosBuilder::new().build(), &mut notes);
    assert_eq!(notes.len(), 4);
    r.matched_writer_unmatch(wg, &mut notes);
    match &notes[4] {
        DataReaderStatusChanged::LivelinessChanged(s) => {
            assert_eq!((s.alive_count, s.not_alive_count, s.alive_count_change, s.not_alive_count_change), (1, 1, -1, 1));
        },
        _ => panic!("expected a liveliness status"),
    }
    assert!(r.is_contain_writer(wg));
    let _ = r.handle_heartbeat(wg, 0x06, SequenceNumber(1), SequenceNumber(0), &mut hc, &mut notes);
    match &notes[5] {
        DataReaderStatusChanged::LivelinessChanged(s) => {
            assert_eq!((s.alive_count, s.not_alive_count, s.alive_count_change, s.not_alive_count_change), (2, 0, 1, -1));
        },
        _ => panic!("expected a liveliness status"),
    }
    r.delete_writer_proxy(wg.guid_prefix, &mut hc, &mut notes);
    assert_eq!(notes.len(), 8);
    match &notes[7] {
        DataReaderStatusChanged::SubscriptionMatched(s) => {
            assert_eq!((s.total_count, s.current_count, s.current_count_change), (1, 1, -1));
        },
        _ => panic!("expected a subscription status"),
    }
    assert!(!r.is_contain_writer(wg));
    assert!(r.is_contain_writer(other));
}

#[test]
fn shortest_lease_defaults_to_ten_seconds() {
    let r = reader(ReliabilityQosKind::Reliable, Duration::zero());
    let d = r.get_min_remote_writer_lease_duration();
    assert_eq!(d.as_secs(), 10);
    assert_eq!(d.subsec_nanos(), 0);
}

#[test]
fn multicast_addresses() {
    let mut a = [0u8; 16];
    a[12] = 239;
    assert!(Reader::is_ipv4_multicast(&a));
    a[12] = 224;
    assert!(Reader::is_ipv4_multicast(&a));
    a[12] = 240;
    assert!(!Reader::is_ipv4_multicast(&a));
    a[12] = 192;
    assert!(!Reader::is_ipv4_multicast(&a));
}

#[test]
fn reader_knows_its_topic() {
    let r = reader(ReliabilityQosKind::Reliable, Duration::from_secs(0));
    assert_eq!(r.topic_kind(), TopicKind::WithKey);
    assert!(r.is_writer_match(&String::from("Square"), &String::from("ShapeType")));
    assert!(!r.is_writer_match(&String::from("Square"), &String::from("Other")));
    assert!(!r.is_writer_match(&String::from("Circle"), &String::from("ShapeType")));
}
