use umber_dds::dds::key::KeyHash;
use umber_dds::dds::qos::policy::{History, HistoryQosKind, ResourceLimits};
use umber_dds::message::element::{SequenceNumber, SerializedPayload, Timestamp};
use umber_dds::rtps::cache::{
    AddChangeErr, CacheChange, ChangeKind, HCKey, HistoryCache, HistoryCacheType, InstanceHandle,
};
use umber_dds::structure::entity_id::{EntityId, EntityKind};
use umber_dds::structure::guid::{GuidPrefix, GUID};

fn guid(n: u8) -> GUID {
    GUID::new(
        GuidPrefix::new([n; 12]),
        EntityId::new([0, 0, 1], EntityKind::from_value(0x02)),
    )
}

fn change(g: GUID, seq: i64, payload: u8) -> CacheChange {
    CacheChange::new(
        ChangeKind::Alive,
        g,
        SequenceNumber(seq),
        Timestamp { seconds: seq as u32, fraction: 0 },
        Some(SerializedPayload::from_bytes(&[0, 1, 0, 0, payload]).unwrap()),
        None,
        InstanceHandle::new(0x10),
    )
}

fn unlimited() -> ResourceLimits {
    ResourceLimits {
        max_samples: -1,
        max_instance: -1,
        max_samples_per_instanse: -1,
    }
}

fn keep_all() -> History {
    History {
        kind: HistoryQosKind::KeepAll,
        depth: 1,
    }
}

#[test]
fn writer_cache_announces_new_changes_once() {
    let mut hc = HistoryCache::new(HistoryCacheType::Writer);
    let g = guid(1);
    assert!(hc.add_change(change(g, 1, 10), true, unlimited(), keep_all()).is_ok());
    assert!(hc.add_change(change(g, 2, 20), true, unlimited(), keep_all()).is_ok());
    assert!(hc.add_change(change(g, 2, 20), true, unlimited(), keep_all()).is_ok());
    assert_eq!(hc.get_unprocessed(), vec![SequenceNumber(1), SequenceNumber(2)]);
    assert!(hc.get_unprocessed().is_empty());
    assert_eq!(hc.get_seq_num_min(), SequenceNumber(1));
    assert_eq!(hc.get_seq_num_max(), SequenceNumber(2));
    assert!(hc.get_change(g, SequenceNumber(2)).is_some());
    assert_eq!(hc.get_last_added_ts(g), Some(Timestamp { seconds: 2, fraction: 0 }));
}

#[test]
fn unannounced_changes_are_not_removed() {
    let mut hc = HistoryCache::new(HistoryCacheType::Writer);
    let g = guid(1);
    hc.add_change(change(g, 1, 10), true, unlimited(), keep_all()).unwrap();
    hc.remove_change(&HCKey::new(g, SequenceNumber(1)), false);
    assert!(hc.get_change(g, SequenceNumber(1)).is_some());
    assert_eq!(hc.get_seq_num_min(), SequenceNumber(0));
    hc.get_unprocessed();
    hc.remove_change(&HCKey::new(g, SequenceNumber(1)), false);
    assert!(hc.get_change(g, SequenceNumber(1)).is_none());
}

#[test]
fn full_reliable_writer_cache_would_block() {
    let mut hc = HistoryCache::new(HistoryCacheType::Writer);
    let g = guid(1);
    let limits = ResourceLimits {
        max_samples: 2,
        max_instance: -1,
        max_samples_per_instanse: -1,
    };
    hc.add_change(change(g, 1, 10), true, limits, keep_all()).unwrap();
    match hc.add_change(change(g, 2, 20), true, limits, keep_all()) {
        Err(AddChangeErr::WouldBlock(m)) => assert_eq!(m, "resource_limits.max_samples reached"),
        Ok(()) => panic!("the cache should be full"),
    }
    assert!(hc.get_change(g, SequenceNumber(2)).is_none());
}

#[test]
fn full_best_effort_reader_cache_drops_oldest() {
    let mut hc = HistoryCache::new(HistoryCacheType::Reader);
    let g = guid(1);
    let limits = ResourceLimits {
        max_samples: 2,
        max_instance: -1,
        max_samples_per_instanse: -1,
    };
    hc.add_change(change(g, 1, 10), false, limits, keep_all()).unwrap();
    hc.add_change(change(g, 2, 20), false, limits, keep_all()).unwrap();
    assert!(hc.get_change(g, SequenceNumber(1)).is_none());
    assert!(hc.get_change(g, SequenceNumber(2)).is_some());
}

#[test]
fn full_reliable_reader_cache_discards_the_new_change() {
    let mut hc = HistoryCache::new(HistoryCacheType::Reader);
    let g = guid(1);
    let limits = ResourceLimits {
        max_samples: 2,
        max_instance: -1,
        max_samples_per_instanse: -1,
    };
    hc.add_change(change(g, 1, 10), true, limits, keep_all()).unwrap();
    assert!(hc.add_change(change(g, 2, 20), true, limits, keep_all()).is_ok());
    assert!(hc.get_change(g, SequenceNumber(1)).is_some());
    assert!(hc.get_change(g, SequenceNumber(2)).is_none());
}

#[test]
fn keep_last_reader_keeps_largest_keys() {
    let mut hc = HistoryCache::new(HistoryCacheType::Reader);
    let g = guid(1);
    let keep_two = History {
        kind: HistoryQosKind::KeepLast,
        depth: 2,
    };
    hc.add_change(change(g, 3, 30), true, unlimited(), keep_two).unwrap();
    hc.add_change(change(g, 1, 10), true, unlimited(), keep_two).unwrap();
    hc.add_change(change(g, 2, 20), true, unlimited(), keep_two).unwrap();
    assert!(hc.get_change(g, SequenceNumber(1)).is_none());
    assert!(hc.get_change(g, SequenceNumber(2)).is_some());
    assert!(hc.get_change(g, SequenceNumber(3)).is_some());
}

#[test]
fn ready_changes_come_in_key_order() {
    let mut hc = HistoryCache::new(HistoryCacheType::Reader);
    let (a, b) = (guid(1), guid(2));
    hc.add_change(change(b, 2, 1), true, unlimited(), keep_all()).unwrap();
    hc.add_change(change(a, 2, 2), true, unlimited(), keep_all()).unwrap();
    hc.add_change(change(a, 1, 3), true, unlimited(), keep_all()).unwrap();
    let (keys, _) = hc.get_ready_changes();
    assert!(keys.is_empty());
    assert!(hc.flush());
    let (keys, changes) = hc.get_ready_changes();
    assert_eq!(keys.len(), 3);
    assert_eq!(keys[0].seq_num, SequenceNumber(1));
    assert_eq!(keys[1].seq_num, SequenceNumber(2));
    assert_eq!(keys[1].guid.guid_prefix.guid_prefix, [1; 12]);
    assert_eq!(keys[2].guid.guid_prefix.guid_prefix, [2; 12]);
    assert_eq!(changes[2].sequence_number, SequenceNumber(2));
    let (keys, _) = hc.get_ready_instance_changes(InstanceHandle::new(0x11));
    assert!(keys.is_empty());
}

#[test]
fn taking_records_the_key() {
    let mut hc = HistoryCache::new(HistoryCacheType::Reader);
    let g = guid(1);
    hc.add_change(change(g, 1, 1), true, unlimited(), keep_all()).unwrap();
    hc.add_change(change(g, 5, 5), true, unlimited(), keep_all()).unwrap();
    hc.flush();
    hc.remove_change(&HCKey::new(g, SequenceNumber(1)), true);
    hc.remove_change(&HCKey::new(g, SequenceNumber(5)), true);
    let (keys, _) = hc.get_ready_changes();
    assert!(keys.is_empty());
    let taken = hc.get_taken_less_than(g, SequenceNumber(3));
    assert_eq!(taken.len(), 1);
    assert_eq!(taken[0].seq_num, SequenceNumber(1));
    let rest = hc.get_taken();
    assert_eq!(rest.len(), 1);
    assert_eq!(rest[0].seq_num, SequenceNumber(5));
}

#[test]
fn removing_a_writer_removes_its_changes() {
    let mut hc = HistoryCache::new(HistoryCacheType::Reader);
    let (a, b) = (guid(1), guid(2));
    hc.add_change(change(a, 1, 1), true, unlimited(), keep_all()).unwrap();
    hc.add_change(change(b, 1, 2), true, unlimited(), keep_all()).unwrap();
    hc.remove_change_from_writer(&a);
    assert!(hc.get_change(a, SequenceNumber(1)).is_none());
    assert!(hc.get_change(b, SequenceNumber(1)).is_some());
    hc.remove_change_if_exist(&HCKey::new(b, SequenceNumber(7)));
    assert!(hc.get_change(b, SequenceNumber(1)).is_some());
}

#[test]
fn key_hashes_get_stable_distinct_handles() {
    let mut hc = HistoryCache::new(HistoryCacheType::Reader);
    let k1 = KeyHash::new(&[1; 16]);
    let k2 = KeyHash::new(&[2; 16]);
    let h1 = hc.key_hash2instance_handle(k1);
    let h2 = hc.key_hash2instance_handle(k2);
    let h1_again = hc.key_hash2instance_handle(KeyHash::new(&[1; 16]));
    assert_eq!(h1, InstanceHandle::new(0x10));
    assert_eq!(h2, InstanceHandle::new(0x11));
    assert_eq!(h1_again, h1);
}

#[test]
fn empty_change_records_time() {
    let mut hc = HistoryCache::new(HistoryCacheType::Reader);
    let g = guid(3);
    assert_eq!(hc.get_last_added_ts(g), None);
    hc.add_empty_change(g, Timestamp { seconds: 9, fraction: 1 });
    assert_eq!(hc.get_last_added_ts(g), Some(Timestamp { seconds: 9, fraction: 1 }));
}

#[test]
fn taken_keys_come_back_in_key_order() {
    let mut hc = HistoryCache::new(HistoryCacheType::Reader);
    let g = guid(1);
    hc.add_change(change(g, 1, 1), true, unlimited(), keep_all()).unwrap();
    hc.add_change(change(g, 3, 3), true, unlimited(), keep_all()).unwrap();
    hc.add_change(change(g, 5, 5), true, unlimited(), keep_all()).unwrap();
    hc.flush();
    hc.remove_change(&HCKey::new(g, SequenceNumber(5)), true);
    hc.remove_change(&HCKey::new(g, SequenceNumber(1)), true);
    hc.remove_change(&HCKey::new(g, SequenceNumber(3)), true);
    let keys = hc.get_taken_less_than(g, SequenceNumber(5));
    assert_eq!(keys.len(), 2);
    assert_eq!(keys[0].seq_num, SequenceNumber(1));
    assert_eq!(keys[1].seq_num, SequenceNumber(3));
    let rest = hc.get_taken();
    assert_eq!(rest.len(), 1);
    assert_eq!(rest[0].seq_num, SequenceNumber(5));
}
