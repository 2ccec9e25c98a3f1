use umber_dds::dds::participant::{ParticipantConfig, ParticipantConfigBuilder};
use umber_dds::dds::sample::{SampleInfo, SampleState};
use umber_dds::message::element::Timestamp;
use umber_dds::rtps::cache::InstanceHandle;
use umber_dds::structure::duration::CoreDuration;

#[test]
fn default_config() {
    let c = ParticipantConfig::default();
    assert_eq!(c.participant_message_period.as_secs(), 3);
    assert_eq!(c.lease_duration.as_secs(), 20);
    assert_eq!(c.heartbeat_period.as_secs(), 2);
    assert_eq!(c.nack_response_delay.as_secs(), 0);
    assert_eq!(c.heartbeat_response_delay.subsec_nanos(), 0);
}

#[test]
fn builder_takes_set_values() {
    let b = ParticipantConfigBuilder::new()
        .participant_period(CoreDuration::from_secs(1))
        .lease_duration(CoreDuration::from_millis(1500))
        .heartbeat_period(CoreDuration::from_millis(250));
    assert!(b.is_buildable());
    let c = b.build();
    assert_eq!(c.participant_message_period.as_secs(), 1);
    assert_eq!(c.lease_duration.subsec_nanos(), 500_000_000);
    assert_eq!(c.heartbeat_period.subsec_nanos(), 250_000_000);
    assert_eq!(c.nack_response_delay.as_secs(), 0);
}

#[test]
fn lease_must_outlast_period() {
    let b = ParticipantConfigBuilder::new().lease_duration(CoreDuration::from_secs(3));
    assert!(!b.is_buildable());
}

#[test]
fn sample_info_states() {
    let i = SampleInfo::new(true, Timestamp { seconds: 1, fraction: 2 }, InstanceHandle::new(0x10));
    assert_eq!(i.sample_state, SampleState::Read);
    let j = SampleInfo::new(false, Timestamp { seconds: 1, fraction: 2 }, InstanceHandle::new(0x10));
    assert_eq!(j.sample_state, SampleState::NotRead);
}

#[test]
fn entity_keys_count_on_from_0x300() {
    let mut g = umber_dds::dds::participant::EntityKeyGenerator::new();
    assert_eq!(g.gen_entity_key(), [0x00, 0x03, 0x00]);
    assert_eq!(g.gen_entity_key(), [0x00, 0x03, 0x01]);
    g.next = 0x01ff_ffff;
    assert_eq!(g.gen_entity_key(), [0xff, 0xff, 0xff]);
    assert_eq!(g.gen_entity_key(), [0x00, 0x00, 0x00]);
    g.next = u32::MAX;
    g.gen_entity_key();
    assert_eq!(g.next, 0);
}
