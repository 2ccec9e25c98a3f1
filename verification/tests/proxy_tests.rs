use umber_dds::dds::qos::policy::{
    Durability, History, HistoryQosKind, ResourceLimits,
};
use umber_dds::dds::qos::{DataReaderQosBuilder, DataWriterQosBuilder};
use umber_dds::message::element::{Locator, SequenceNumber, SerializedPayload, Timestamp};
use umber_dds::rtps::cache::{
    CacheChange, ChangeForReaderStatusKind, ChangeFromWriterStatusKind, ChangeKind, HistoryCache,
    HistoryCacheType, InstanceHandle,
};
use umber_dds::structure::entity_id::{EntityId, EntityKind};
use umber_dds::structure::guid::{GuidPrefix, GUID};
use umber_dds::structure::proxy::{ReaderProxy, WriterProxy};

fn guid(n: u8) -> GUID {
    GUID::new(
        GuidPrefix::new([n; 12]),
        EntityId::new([0, 0, 1], EntityKind::from_value(0x07)),
    )
}

fn loc() -> Vec<Locator> {
    vec![Locator::new_from_ipv4(7411, [127, 0, 0, 1])]
}

fn writer_cache(n: i64) -> HistoryCache {
    let mut hc = HistoryCache::new(HistoryCacheType::Writer);
    let limits = ResourceLimits {
        max_samples: -1,
        max_instance: -1,
        max_samples_per_instanse: -1,
    };
    let history = History {
        kind: HistoryQosKind::KeepAll,
        depth: 1,
    };
    for s in 1..=n {
        let c = CacheChange::new(
            ChangeKind::Alive,
            guid(1),
            SequenceNumber(s),
            Timestamp { seconds: 1, fraction: 0 },
            Some(SerializedPayload::from_bytes(&[0, 1, 0, 0, s as u8]).unwrap()),
            None,
            InstanceHandle::new(0x10),
        );
        hc.add_change(c, true, limits, history).unwrap();
    }
    hc
}

#[test]
fn new_reader_proxy_knows_cached_changes() {
    let hc = writer_cache(3);
    let volatile = DataReaderQosBuilder::new().build();
    let rp = ReaderProxy::new(guid(2), false, loc(), vec![], vec![], vec![], volatile, &hc, true);
    assert_eq!(rp.unsent_changes().len(), 3);
    assert!(rp.unsent_changes().iter().all(|c| !c.is_relevant));
    assert!(rp.is_acked(SequenceNumber(2)));
    let tl = DataReaderQosBuilder::new()
        .durability(Durability::TransientLocal)
        .build();
    let rp = ReaderProxy::new(guid(2), false, loc(), vec![], vec![], vec![], tl, &hc, false);
    let un = rp.unacked_changes();
    assert_eq!(un.len(), 3);
    assert!(!un[0].is_relevant && !un[1].is_relevant && un[2].is_relevant);
    assert!(!rp.is_acked(SequenceNumber(3)));
    assert!(rp.is_acked(SequenceNumber(1)));
}

#[test]
fn acknowledging_and_requesting() {
    let hc = HistoryCache::new(HistoryCacheType::Writer);
    let mut rp = ReaderProxy::new(
        guid(2),
        false,
        vec![],
        vec![],
        loc(),
        vec![],
        DataReaderQosBuilder::new().build(),
        &hc,
        true,
    );
    assert_eq!(rp.get_unicast_locator_list().len(), 1);
    rp.update_cache_state(SequenceNumber(5), true, ChangeForReaderStatusKind::Unsent);
    rp.update_cache_state(SequenceNumber(3), true, ChangeForReaderStatusKind::Unsent);
    assert_eq!(rp.next_unsent_change().unwrap().seq_num, SequenceNumber(3));
    rp.requested_changes_set(vec![SequenceNumber(5), SequenceNumber(9)]);
    let req = rp.requested_changes();
    assert_eq!(req.len(), 2);
    assert_eq!(rp.next_requested_change().unwrap().seq_num, SequenceNumber(5));
    assert!(!rp.is_acked(SequenceNumber(5)));
    rp.acked_changes_set(SequenceNumber(5));
    assert!(rp.is_acked(SequenceNumber(3)));
    assert!(rp.is_acked(SequenceNumber(5)));
    assert!(!rp.is_acked(SequenceNumber(9)));
    rp.remove_cache_state(&SequenceNumber(9));
    assert!(rp.is_acked(SequenceNumber(9)));
    assert!(rp.next_requested_change().is_none());
}

#[test]
fn writer_proxy_tracks_missing_and_received() {
    let mut wp = WriterProxy::new(
        guid(1),
        loc(),
        vec![],
        vec![],
        vec![],
        0,
        DataWriterQosBuilder::new().build(),
    );
    assert_eq!(wp.available_changes_max(), SequenceNumber(0));
    wp.received_change_set(SequenceNumber(2));
    wp.missing_changes_update(SequenceNumber(1), SequenceNumber(4));
    assert_eq!(
        wp.missing_changes(),
        vec![SequenceNumber(1), SequenceNumber(3), SequenceNumber(4)]
    );
    assert_eq!(wp.available_changes_max(), SequenceNumber(2));
    wp.lost_changes_update(SequenceNumber(4));
    assert_eq!(wp.missing_changes(), vec![SequenceNumber(4)]);
    assert_eq!(wp.available_changes_max(), SequenceNumber(3));
    wp.received_change_set(SequenceNumber(4));
    assert!(wp.missing_changes().is_empty());
    assert_eq!(wp.available_changes_max(), SequenceNumber(4));
    wp.irrelevant_change_set(SequenceNumber(7));
    assert_eq!(wp.available_changes_max(), SequenceNumber(7));
    wp.remove_cache_state(&SequenceNumber(7));
    assert_eq!(wp.available_changes_max(), SequenceNumber(4));
    let _ = ChangeFromWriterStatusKind::Received;
}
