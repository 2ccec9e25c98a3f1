use umber_dds::dds::datawriter::{liveliness_assert_due, DataWriter};
use umber_dds::rtps::status::lifespan_timeout;
use umber_dds::dds::qos::policy::{
    History, HistoryQosKind, Liveliness, LivelinessQosKind, Reliability, ResourceLimits,
};
use umber_dds::dds::qos::DataWriterQosBuilder;
use umber_dds::message::element::{SequenceNumber, SerializedPayload, Timestamp};
use umber_dds::rtps::cache::{HistoryCache, HistoryCacheType};
use umber_dds::structure::duration::Duration;
use umber_dds::structure::entity_id::{EntityId, EntityKind};
use umber_dds::structure::guid::{GuidPrefix, GUID};

fn guid() -> GUID {
    GUID::new(GuidPrefix::new([3; 12]), EntityId::new([0, 0, 1], EntityKind::from_value(0x02)))
}

fn payload(x: u8) -> SerializedPayload {
    SerializedPayload::from_bytes(&[0, 1, 0, 0, x]).unwrap()
}

fn ts(s: u32) -> Timestamp {
    Timestamp { seconds: s, fraction: 0 }
}

#[test]
fn sequence_numbers_count_on_or_stay() {
    let mut w = DataWriter::new(guid(), DataWriterQosBuilder::new().build());
    w.advance_sequence_number(false);
    assert_eq!(w.last_change_sequence_number, SequenceNumber(1));
    w.advance_sequence_number(false);
    assert_eq!(w.last_change_sequence_number, SequenceNumber(1));
    w.advance_sequence_number(true);
    assert_eq!(w.last_change_sequence_number, SequenceNumber(2));
}

#[test]
fn written_changes_go_to_the_cache_until_it_is_full() {
    let qos = DataWriterQosBuilder::new()
        .reliability(Reliability::default_reliable())
        .resource_limits(ResourceLimits { max_samples: 3, max_instance: -1, max_samples_per_instanse: -1 })
        .history(History { kind: HistoryQosKind::KeepAll, depth: 1 })
        .build();
    let mut w = DataWriter::new(guid(), qos);
    let mut hc = HistoryCache::new(HistoryCacheType::Writer);
    w.advance_sequence_number(true);
    assert!(w.writable_now(&hc, &payload(1)));
    assert!(w.add_to_cache(&mut hc, ts(1), &payload(1)));
    assert!(hc.get_change(guid(), SequenceNumber(1)).is_some());
    // the same change again is taken; different octets under the key are not
    assert!(w.writable_now(&hc, &payload(1)));
    assert!(!w.writable_now(&hc, &payload(2)));
    w.advance_sequence_number(true);
    assert!(w.add_to_cache(&mut hc, ts(2), &payload(2)));
    w.advance_sequence_number(true);
    assert!(w.writable_now(&hc, &payload(3)));
    assert!(!w.add_to_cache(&mut hc, ts(3), &payload(3)));
    assert!(hc.get_change(guid(), SequenceNumber(3)).is_none());
}

#[test]
fn only_manual_liveliness_is_asserted() {
    let w = DataWriter::new(guid(), DataWriterQosBuilder::new().build());
    assert!(!w.assert_liveliness());
    let qos = DataWriterQosBuilder::new()
        .liveliness(Liveliness { kind: LivelinessQosKind::ManualByTopic, lease_duration: Duration::from_secs(1) })
        .build();
    assert!(DataWriter::new(guid(), qos).assert_liveliness());
}

#[test]
fn a_dummy_cache_takes_nothing() {
    let w = DataWriter::new(guid(), DataWriterQosBuilder::new().build());
    let hc = HistoryCache::new(HistoryCacheType::Dummy);
    assert!(!w.writable_now(&hc, &payload(1)));
}

#[test]
fn automatic_liveliness_is_asserted_after_half_the_lease() {
    let lease = Duration::from_secs(10);
    assert!(!liveliness_assert_due(LivelinessQosKind::Automatic, lease, Duration::from_secs(5)));
    assert!(liveliness_assert_due(
        LivelinessQosKind::Automatic,
        lease,
        Duration { seconds: 5, fraction: 1 }
    ));
    assert!(!liveliness_assert_due(LivelinessQosKind::ManualByTopic, lease, Duration::from_secs(9)));
    assert!(!liveliness_assert_due(
        LivelinessQosKind::Automatic,
        Duration::infinite(),
        Duration::from_secs(1000)
    ));
}

#[test]
fn lifespan_timers_run_to_the_end_of_the_lifespan() {
    let ts = Timestamp { seconds: 100, fraction: 0 };
    let d = lifespan_timeout(ts, Duration::from_secs(10), Timestamp { seconds: 104, fraction: 0 }).unwrap();
    assert_eq!(d.as_secs(), 6);
    assert_eq!(d.subsec_nanos(), 0);
    let gone = lifespan_timeout(ts, Duration::from_secs(1), Timestamp { seconds: 200, fraction: 0 }).unwrap();
    assert_eq!(gone.as_secs(), 0);
    assert!(lifespan_timeout(ts, Duration::infinite(), ts).is_none());
    let half = Duration { seconds: 2, fraction: 0x8000_0000 }.to_core().unwrap();
    assert_eq!(half.as_secs(), 2);
    assert_eq!(half.subsec_nanos(), 500_000_000);
    assert!(Duration { seconds: -1, fraction: 0 }.to_core().is_none());
}
