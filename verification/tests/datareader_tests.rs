use umber_dds::dds::datareader::DataReader;
use umber_dds::dds::qos::policy::{History, HistoryQosKind, ResourceLimits};
use umber_dds::message::cdr::Endianness;
use umber_dds::message::element::{SequenceNumber, SerializedPayload, Timestamp};
use umber_dds::rtps::cache::{CacheChange, ChangeKind, HistoryCache, HistoryCacheType, InstanceHandle};
use umber_dds::structure::entity_id::{EntityId, EntityKind};
use umber_dds::structure::guid::{GuidPrefix, GUID};

fn guid(n: u8) -> GUID {
    GUID::new(GuidPrefix::new([n; 12]), EntityId::new([0, 0, 1], EntityKind::from_value(0x02)))
}

fn change(g: GUID, seq: i64, payload: u8, ih: u32) -> CacheChange {
    CacheChange::new(
        ChangeKind::Alive,
        g,
        SequenceNumber(seq),
        Timestamp { seconds: seq as u32, fraction: 0 },
        Some(SerializedPayload::from_bytes(&[0, 1, 0, 0, payload]).unwrap()),
        None,
        InstanceHandle::new(ih),
    )
}

fn unlimited() -> ResourceLimits {
    ResourceLimits { max_samples: -1, max_instance: -1, max_samples_per_instanse: -1 }
}

fn keep_all() -> History {
    History { kind: HistoryQosKind::KeepAll, depth: 1 }
}

#[test]
fn take_hands_out_ready_changes_oldest_first_and_removes_them() {
    let mut hc = HistoryCache::new(HistoryCacheType::Reader);
    let g = guid(1);
    hc.add_change(change(g, 2, 20, 0x10), true, unlimited(), keep_all()).unwrap();
    hc.add_change(change(g, 1, 10, 0x10), true, unlimited(), keep_all()).unwrap();
    let reader = DataReader::new(guid(9));
    assert!(reader.take(&mut hc).is_empty());
    hc.flush();
    let taken = reader.take(&mut hc);
    assert_eq!(taken.len(), 2);
    assert_eq!(taken[0].data.value, vec![10]);
    assert_eq!(taken[0].timestamp, Timestamp { seconds: 1, fraction: 0 });
    assert_eq!(taken[1].data.value, vec![20]);
    assert_eq!(taken[1].data.data_endianness(), Some(Endianness::LittleEndian));
    assert!(hc.get_change(g, SequenceNumber(1)).is_none());
    assert!(hc.get_change(g, SequenceNumber(2)).is_none());
    assert!(reader.take(&mut hc).is_empty());
}

#[test]
fn take_instance_leaves_other_instances() {
    let mut hc = HistoryCache::new(HistoryCacheType::Reader);
    let g = guid(1);
    hc.add_change(change(g, 1, 10, 0x10), true, unlimited(), keep_all()).unwrap();
    hc.add_change(change(g, 2, 20, 0x11), true, unlimited(), keep_all()).unwrap();
    hc.flush();
    let reader = DataReader::new(guid(9));
    let taken = reader.take_instance(&mut hc, InstanceHandle::new(0x11));
    assert_eq!(taken.len(), 1);
    assert_eq!(taken[0].data.value, vec![20]);
    assert!(hc.get_change(g, SequenceNumber(1)).is_some());
    assert!(hc.get_change(g, SequenceNumber(2)).is_none());
}

#[test]
fn sample_data_is_plain_cdr() {
    let le = SerializedPayload::from_bytes(&[0, 1, 0, 0, 7]).unwrap();
    let be = SerializedPayload::from_bytes(&[0, 0, 0, 0, 7]).unwrap();
    let pl = SerializedPayload::from_bytes(&[0, 3, 0, 0, 7]).unwrap();
    assert_eq!(le.data_endianness(), Some(Endianness::LittleEndian));
    assert_eq!(be.data_endianness(), Some(Endianness::BigEndian));
    assert_eq!(pl.data_endianness(), None);
}

#[test]
fn keep_last_take_hands_out_at_most_depth_samples() {
    let mut hc = HistoryCache::new(HistoryCacheType::Reader);
    let g = guid(1);
    let keep_two = History { kind: HistoryQosKind::KeepLast, depth: 2 };
    for seq in 1..=5 {
        hc.add_change(change(g, seq, seq as u8, 0x10), true, unlimited(), keep_two).unwrap();
    }
    hc.flush();
    let reader = DataReader::new(guid(9));
    let taken = reader.take(&mut hc);
    assert_eq!(taken.len(), 2);
    assert_eq!(taken[0].data.value, vec![4]);
    assert_eq!(taken[1].data.value, vec![5]);
    assert!(reader.take(&mut hc).is_empty());
}
