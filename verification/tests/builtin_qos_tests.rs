use umber_dds::dds::qos::policy::{Durability, History, HistoryQosKind, ReliabilityQosKind};
use umber_dds::discovery::builtin_qos::{
    participant_message_topic_qos, sedp_reader_qos, sedp_topic_qos, sedp_writer_qos,
    spdp_writer_qos,
};

#[test]
fn participant_announcer_is_best_effort() {
    let q = spdp_writer_qos();
    assert_eq!(q.reliability.0.kind, ReliabilityQosKind::BestEffort);
    assert!(q.reliability.1);
    assert_eq!(q.durability, (Durability::Volatile, false));
    assert!(!q.history.1);
}

#[test]
fn endpoint_announcers_are_reliable_and_keep_everything() {
    let w = sedp_writer_qos();
    assert_eq!(w.reliability.0.kind, ReliabilityQosKind::Reliable);
    assert_eq!(w.history, (History { kind: HistoryQosKind::KeepAll, depth: 0 }, true));
    let r = sedp_reader_qos();
    assert_eq!(r.reliability.0.kind, ReliabilityQosKind::Reliable);
    assert!(r.reliability.1);
    assert!(w.is_compatible(&r).is_ok());
}

#[test]
fn discovery_topics_are_transient_local() {
    let t = sedp_topic_qos();
    assert_eq!(t.durability, (Durability::TransientLocal, true));
    assert_eq!(t.reliability.0.kind, ReliabilityQosKind::Reliable);
    assert!(!t.history.1);
    let p = participant_message_topic_qos();
    assert_eq!(p.durability, (Durability::TransientLocal, true));
    assert_eq!(p.history, (History { kind: HistoryQosKind::KeepLast, depth: 1 }, true));
}
