use umber_dds::dds::qos::policy;
use umber_dds::dds::qos::{DataWriterQosBuilder, TopicQosBuilder};
use umber_dds::structure::duration::Duration;
use umber_dds::message::cdr::Endianness;

#[test]
fn test_combine() {
    let topic_qos = TopicQosBuilder::new()
        .durability(policy::Durability::Volatile)
        .liveliness(policy::Liveliness {
            kind: policy::LivelinessQosKind::ManualByTopic,
            lease_duration: Duration::from_secs(10),
        })
        .build();
    assert_eq!(topic_qos.history, (policy::History::default(), false));
    let dw_qos = DataWriterQosBuilder::new()
        .durability(policy::Durability::TransientLocal)
        .history(policy::History {
            kind: policy::HistoryQosKind::KeepLast,
            depth: 1,
        })
        .build();
    assert_eq!(
        dw_qos.history,
        (
            policy::History {
                kind: policy::HistoryQosKind::KeepLast,
                depth: 1,
            },
            true
        )
    );
    let mut dw_qos_combined = topic_qos.to_datawriter_qos();
    assert_eq!(dw_qos_combined.history, (policy::History::default(), false));
    dw_qos_combined.combine(dw_qos);
    assert_eq!(
        dw_qos_combined.durability,
        (policy::Durability::TransientLocal, true)
    );
    assert_eq!(
        dw_qos_combined.history,
        (
            policy::History {
                kind: policy::HistoryQosKind::KeepLast,
                depth: 1,
            },
            true
        )
    );
    assert_eq!(
        dw_qos_combined.deadline,
        (policy::Deadline::default(), false)
    );
    assert_eq!(
        dw_qos_combined.liveliness,
        (
            policy::Liveliness {
                kind: policy::LivelinessQosKind::ManualByTopic,
                lease_duration: Duration::from_secs(10),
            },
            true
        )
    );
}

#[test]
fn test_serialize() {
    let history = policy::History {
        kind: policy::HistoryQosKind::KeepAll,
        depth: 100,
    };
    let mut serialized = Vec::new();
    history.write_to(&mut serialized, umber_dds::message::cdr::Endianness::LittleEndian);
    assert_eq!(
        serialized,
        vec![0x01, 0x00, 0x00, 0x00, 0x64, 0x00, 0x00, 0x00]
    );
}

#[test]
fn test_deserialize() {
    let presentation = policy::Presentation {
        access_scope: policy::PresentationQosAccessScopeKind::Topic,
        coherent_access: false,
        ordered_access: true,
    };
    let mut serialized = Vec::new();
    presentation.write_to(&mut serialized, umber_dds::message::cdr::Endianness::LittleEndian);
    let (deserialized, _) = policy::Presentation::read_from(
        &serialized,
        0,
        umber_dds::message::cdr::Endianness::LittleEndian,
    )
    .unwrap();
    match deserialized.access_scope {
        policy::PresentationQosAccessScopeKind::Topic => (),
        _ => panic!(),
    }
    assert_eq!(presentation.coherent_access, deserialized.coherent_access);
    assert_eq!(presentation.ordered_access, deserialized.ordered_access);
}

#[test]
fn history_reads_back_big_endian() {
    let h = policy::History {
        kind: policy::HistoryQosKind::KeepLast,
        depth: -2,
    };
    let mut buf = Vec::new();
    h.write_to(&mut buf, Endianness::BigEndian);
    assert_eq!(buf, vec![0, 0, 0, 0, 0xff, 0xff, 0xff, 0xfe]);
    let (back, end) = policy::History::read_from(&buf, 0, Endianness::BigEndian).unwrap();
    assert_eq!(back, h);
    assert_eq!(end, 8);
}

#[test]
fn history_with_unknown_kind_is_refused() {
    let buf = vec![7, 0, 0, 0, 1, 0, 0, 0];
    assert!(policy::History::read_from(&buf, 0, Endianness::LittleEndian).is_none());
    assert!(policy::History::read_from(&buf[..6], 0, Endianness::LittleEndian).is_none());
}

#[test]
fn liveliness_manual_kinds_swap_on_reading() {
    let l = policy::Liveliness {
        kind: policy::LivelinessQosKind::ManualByParticipant,
        lease_duration: Duration::from_secs(1),
    };
    let mut buf = Vec::new();
    l.write_to(&mut buf, Endianness::LittleEndian);
    assert_eq!(&buf[..4], &[1, 0, 0, 0]);
    let (back, _) = policy::Liveliness::read_from(&buf, 0, Endianness::LittleEndian).unwrap();
    assert_eq!(back.kind, policy::LivelinessQosKind::ManualByTopic);
    assert_eq!(back.lease_duration, Duration::from_secs(1));
}

#[test]
fn reliability_and_resource_limits_read_back() {
    let r = policy::Reliability::default_reliable();
    let mut buf = Vec::new();
    r.write_to(&mut buf, Endianness::LittleEndian);
    assert_eq!(&buf[..4], &[2, 0, 0, 0]);
    let (back, end) = policy::Reliability::read_from(&buf, 0, Endianness::LittleEndian).unwrap();
    assert_eq!(back, r);
    assert_eq!(end, 12);
    let rl = policy::ResourceLimits {
        max_samples: 5,
        max_instance: -1,
        max_samples_per_instanse: 3,
    };
    let mut buf = Vec::new();
    rl.write_to(&mut buf, Endianness::BigEndian);
    let (back, end) = policy::ResourceLimits::read_from(&buf, 0, Endianness::BigEndian).unwrap();
    assert_eq!(back, rl);
    assert_eq!(end, 12);
}

#[test]
fn default_endpoint_qos_is_compatible() {
    let w = DataWriterQosBuilder::new().build();
    let r = umber_dds::dds::qos::DataReaderQosBuilder::new().build();
    assert!(w.is_compatible(&r).is_ok());
}

#[test]
fn best_effort_writer_does_not_serve_reliable_reader() {
    let w = DataWriterQosBuilder::new()
        .reliability(policy::Reliability::default_besteffort())
        .build();
    let r = umber_dds::dds::qos::DataReaderQosBuilder::new()
        .reliability(policy::Reliability::default_reliable())
        .build();
    let err = w.is_compatible(&r).unwrap_err();
    assert!(err.contains("reliability"));
}

#[test]
fn combine_keeps_unset_and_takes_explicit() {
    let topic_qos = TopicQosBuilder::new()
        .durability(policy::Durability::TransientLocal)
        .build();
    let mut dw = topic_qos.to_datawriter_qos();
    let explicit = DataWriterQosBuilder::new()
        .durability(policy::Durability::Volatile)
        .build();
    dw.combine(explicit);
    assert_eq!(dw.durability, (policy::Durability::Volatile, true));
    let mut dw2 = topic_qos.to_datawriter_qos();
    dw2.combine(DataWriterQosBuilder::new().build());
    assert_eq!(dw2.durability, (policy::Durability::TransientLocal, true));
}

#[test]
fn incompatible_durability_is_named_with_both_sides() {
    let w = DataWriterQosBuilder::new().durability(policy::Durability::TransientLocal).build();
    let r = umber_dds::dds::qos::DataReaderQosBuilder::new()
        .durability(policy::Durability::Volatile)
        .build();
    assert!(w.is_compatible(&r).is_ok());
    let w2 = DataWriterQosBuilder::new().durability(policy::Durability::Volatile).build();
    let r2 = umber_dds::dds::qos::DataReaderQosBuilder::new()
        .durability(policy::Durability::TransientLocal)
        .build();
    assert_eq!(
        w2.is_compatible(&r2),
        Err(String::from(
            "{ { durability is not compatible. writer(self): (Volatile, true), reader(remote): (TransientLocal, true) } }"
        ))
    );
}

#[test]
fn reader_side_message_lists_every_failing_policy() {
    let w = DataWriterQosBuilder::new().durability(policy::Durability::Volatile).build();
    let r = umber_dds::dds::qos::DataReaderQosBuilder::new()
        .durability(policy::Durability::TransientLocal)
        .ownership(policy::Ownership::Exclusive)
        .build();
    assert_eq!(
        r.is_compatible(&w),
        Err(String::from(
            "{ { durability is not compatible. reader(self): (TransientLocal, true), writer(remote): (Volatile, true) }, { ownership is not compatible. reader(self): (Exclusive, true), writer(remote): (Shared, false) } }"
        ))
    );
}
