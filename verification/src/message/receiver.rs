//! What a participant keeps while it interprets one received message (RTPS
//! 8.3.4, the receiver's state), and the decisions it takes on the
//! discovery data it receives: which built-in endpoints of a newly
//! discovered participant to match, and where to answer it.
use vstd::prelude::*;
use crate::dds::qos::policy::{
    Deadline, DestinationOrder, Durability, DurabilityService, History, HistoryQosKind,
    LatencyBudget, Lifespan, Liveliness, Ownership, OwnershipStrength, ReaderDataLifecycle,
    Reliability, ResourceLimits, TimeBasedFilter, TransportPriority, WriterDataLifecycle,
};
use crate::dds::qos::{
    decided, DataReaderQosBuilder, DataReaderQosPolicies, DataWriterQosBuilder,
    DataWriterQosPolicies,
};
use crate::discovery::builtin_endpoint::{
    contains, has_endpoint, BUILTIN_ENDPOINT_PARTICIPANT_MESSAGE_DATA_READER,
    BUILTIN_ENDPOINT_PARTICIPANT_MESSAGE_DATA_WRITER, DISC_BUILTIN_ENDPOINT_PUBLICATIONS_ANNOUNCER,
    DISC_BUILTIN_ENDPOINT_PUBLICATIONS_DETECTOR, DISC_BUILTIN_ENDPOINT_SUBSCRIPTIONS_ANNOUNCER,
    DISC_BUILTIN_ENDPOINT_SUBSCRIPTIONS_DETECTOR,
};
use crate::discovery::data::{copy_locators, ProtocolVersion, SPDPdiscoveredParticipantData, VendorId};
use crate::message::element::{ipv4_address, Locator, Timestamp, LOCATOR_KIND_UDPV4};
use crate::structure::duration::Duration;
use crate::structure::entity_id::{
    spec_entity_id, EntityId, EntityKind, KIND_READER_WITH_KEY_BUILT_IN, KIND_WRITER_WITH_KEY_BUILT_IN,
};
use crate::structure::guid::{GuidPrefix, GUID};
use crate::discovery::data::{guid_octets, locators_view, or_else, sdp_fold, sdp_initial, SDPBuiltinData, SdpView};
use crate::discovery::parse::{sdp_items, Outcome};
use crate::message::element::{spec_endianness_of, SequenceNumber, SerializedPayload};
use crate::discovery::data::ReadError;
use crate::text::{dec, dec_text, read_error_text};

verus! {

/// Why a submessage was not taken in: an error, or something only worth a
/// warning. Either way the rest of the message is dropped.
#[derive(Debug)]
pub enum MessageError {
    Error(String),
    Warn(String),
}

/// A submessage that changes how the following ones are read (RTPS 8.3.7):
/// where to reply, the source timestamp, the source, the destination. The
/// flags are those of the submessage.
pub enum InterpreterSubmessage {
    InfoReply {
        unicast_locator_list: Vec<Locator>,
        multicast_locator_list: Option<Vec<Locator>>,
        multicast_flag: bool,
    },
    InfoReplyIp4 {
        unicast_locator_list: Vec<Locator>,
        multicast_locator_list: Option<Vec<Locator>>,
        multicast_flag: bool,
    },
    InfoTimestamp { timestamp: Option<Timestamp>, invalidate_flag: bool },
    InfoSource { guid_prefix: GuidPrefix, protocol_version: ProtocolVersion, vendor_id: VendorId },
    InfoDestination { guid_prefix: GuidPrefix },
}

/// The receiver's state while one message is read.
pub struct MessageReceiver {
    pub domain_id: u16,
    pub own_guid_prefix: GuidPrefix,
    /// The protocol version a message is assumed to have until it says.
    pub own_protocol_version: ProtocolVersion,
    pub source_version: ProtocolVersion,
    pub source_vendor_id: VendorId,
    pub source_guid_prefix: GuidPrefix,
    pub dest_guid_prefix: GuidPrefix,
    pub unicast_reply_locator_list: Vec<Locator>,
    pub multicast_reply_locator_list: Vec<Locator>,
    pub have_timestamp: bool,
    pub timestamp: Timestamp,
}

/// The unknown GUID prefix: twelve zero octets.
pub open spec fn unknown_prefix(p: GuidPrefix) -> bool {
    p.guid_prefix@ == Seq::new(12, |i: int| 0u8)
}

/// The timestamp that stands for "none".
pub open spec fn time_invalid() -> Timestamp {
    Timestamp { seconds: 0xffff_ffff, fraction: 0xffff_ffff }
}

impl MessageReceiver {
    /// The state before any message: the own version, an unknown vendor,
    /// source and destination, one invalid locator to reply to each way,
    /// and no timestamp.
    pub fn new(
        participant_guidprefix: GuidPrefix,
        domain_id: u16,
        protocol_version: ProtocolVersion,
    ) -> (r: MessageReceiver)
        ensures
            r.domain_id == domain_id,
            r.own_guid_prefix == participant_guidprefix,
            r.own_protocol_version == protocol_version,
            r.source_version == protocol_version,
            r.source_vendor_id.vendor_id@ == seq![0u8, 0u8],
            unknown_prefix(r.source_guid_prefix),
            unknown_prefix(r.dest_guid_prefix),
            r.unicast_reply_locator_list@.len() == 1,
            r.unicast_reply_locator_list@[0].kind == -1,
            r.multicast_reply_locator_list@.len() == 1,
            r.multicast_reply_locator_list@[0].kind == -1,
            !r.have_timestamp,
            r.timestamp == time_invalid(),
    {
        let r = MessageReceiver {
            domain_id,
            own_guid_prefix: participant_guidprefix,
            own_protocol_version: protocol_version,
            source_version: protocol_version,
            source_vendor_id: VendorId { vendor_id: [0u8, 0u8] },
            source_guid_prefix: GuidPrefix::unknow(),
            dest_guid_prefix: GuidPrefix::unknow(),
            unicast_reply_locator_list: vec![Locator::invalid()],
            multicast_reply_locator_list: vec![Locator::invalid()],
            have_timestamp: false,
            timestamp: Timestamp::time_invalid(),
        };
        assert(r.source_vendor_id.vendor_id@ =~= seq![0u8, 0u8]);
        r
    }

    /// The state at the start of a message: the own version, an unknown
    /// vendor, source and destination, no locators to reply to, and no
    /// timestamp.
    pub fn reset(&mut self)
        ensures
            final(self).domain_id == old(self).domain_id,
            final(self).own_guid_prefix == old(self).own_guid_prefix,
            final(self).own_protocol_version == old(self).own_protocol_version,
            final(self).source_version == old(self).own_protocol_version,
            final(self).source_vendor_id.vendor_id@ == seq![0u8, 0u8],
            unknown_prefix(final(self).source_guid_prefix),
            unknown_prefix(final(self).dest_guid_prefix),
            final(self).unicast_reply_locator_list@.len() == 0,
            final(self).multicast_reply_locator_list@.len() == 0,
            !final(self).have_timestamp,
            final(self).timestamp == time_invalid(),
    {
        self.source_version = self.own_protocol_version;
        self.source_vendor_id = VendorId { vendor_id: [0u8, 0u8] };
        assert(self.source_vendor_id.vendor_id@ =~= seq![0u8, 0u8]);
        self.source_guid_prefix = GuidPrefix::unknow();
        self.dest_guid_prefix = GuidPrefix::unknow();
        self.unicast_reply_locator_list.clear();
        self.multicast_reply_locator_list.clear();
        self.have_timestamp = false;
        self.timestamp = Timestamp::time_invalid();
    }

    /// Whether the message comes from this participant and names a known
    /// destination; such submessages are not taken in.
    pub fn from_self_to_known(&self) -> (r: bool)
        ensures
            r == (self.source_guid_prefix.guid_prefix@ == self.own_guid_prefix.guid_prefix@
                && !unknown_prefix(self.dest_guid_prefix)),
    {
        self.source_guid_prefix == self.own_guid_prefix && !self.dest_guid_prefix.is_unknow()
    }

    /// Takes in an interpreter submessage (RTPS 8.3.7): a reply submessage
    /// sets the unicast locators to reply to, and the multicast ones when its
    /// multicast flag is set (an error when they are missing) or none; a
    /// timestamp submessage sets the timestamp unless its invalidate flag is
    /// set (an error when it is missing); a source submessage sets the
    /// source, its version and vendor and forgets the reply locators and the
    /// timestamp; a destination submessage sets the destination.
    pub fn handle_interpreter_submessage(&mut self, interpreter_subm: InterpreterSubmessage) -> (r:
        Result<(), MessageError>)
        ensures
            final(self).domain_id == old(self).domain_id,
            final(self).own_guid_prefix == old(self).own_guid_prefix,
            final(self).own_protocol_version == old(self).own_protocol_version,
            interpreter_subm is InfoReply && r is Err ==> (r matches Err(MessageError::Warn(m)) && m@
                == "Invalid InfoReply Submessage"@),
            interpreter_subm is InfoReplyIp4 && r is Err ==> (r matches Err(MessageError::Warn(m)) && m@
                == "Invalid InfoReplyIp4 Submessage"@),
            interpreter_subm is InfoTimestamp && r is Err ==> (r matches Err(MessageError::Warn(m)) && m@
                == "Invalid InfoTimestamp Submessage"@),
            match interpreter_subm {
                InterpreterSubmessage::InfoReply {
                    unicast_locator_list,
                    multicast_locator_list,
                    multicast_flag,
                }
                | InterpreterSubmessage::InfoReplyIp4 {
                    unicast_locator_list,
                    multicast_locator_list,
                    multicast_flag,
                } => {
                    &&& final(self).unicast_reply_locator_list == unicast_locator_list
                    &&& r is Ok <==> (!multicast_flag || multicast_locator_list is Some)
                    &&& r matches Err(e) ==> e is Warn
                    &&& multicast_flag && multicast_locator_list is Some
                        ==> final(self).multicast_reply_locator_list == multicast_locator_list.unwrap()
                    &&& !multicast_flag ==> final(self).multicast_reply_locator_list@.len() == 0
                    &&& multicast_flag && multicast_locator_list is None
                        ==> final(self).multicast_reply_locator_list == old(self).multicast_reply_locator_list
                    &&& final(self).source_guid_prefix == old(self).source_guid_prefix
                    &&& final(self).dest_guid_prefix == old(self).dest_guid_prefix
                    &&& final(self).have_timestamp == old(self).have_timestamp
                    &&& final(self).timestamp == old(self).timestamp
                },
                InterpreterSubmessage::InfoTimestamp { timestamp, invalidate_flag } => {
                    &&& r is Ok <==> (invalidate_flag || timestamp is Some)
                    &&& r matches Err(e) ==> e is Warn
                    &&& final(self).have_timestamp == !invalidate_flag
                    &&& !invalidate_flag && timestamp is Some ==> final(self).timestamp
                        == timestamp.unwrap()
                    &&& (invalidate_flag || timestamp is None) ==> final(self).timestamp
                        == old(self).timestamp
                    &&& final(self).source_guid_prefix == old(self).source_guid_prefix
                    &&& final(self).dest_guid_prefix == old(self).dest_guid_prefix
                    &&& final(self).unicast_reply_locator_list == old(self).unicast_reply_locator_list
                    &&& final(self).multicast_reply_locator_list == old(self).multicast_reply_locator_list
                },
                InterpreterSubmessage::InfoSource { guid_prefix, protocol_version, vendor_id } => {
                    &&& r is Ok
                    &&& final(self).source_guid_prefix == guid_prefix
                    &&& final(self).source_version == protocol_version
                    &&& final(self).source_vendor_id == vendor_id
                    &&& final(self).unicast_reply_locator_list@.len() == 0
                    &&& final(self).multicast_reply_locator_list@.len() == 0
                    &&& !final(self).have_timestamp
                    &&& final(self).dest_guid_prefix == old(self).dest_guid_prefix
                },
                InterpreterSubmessage::InfoDestination { guid_prefix } => {
                    &&& r is Ok
                    &&& final(self).dest_guid_prefix == guid_prefix
                    &&& final(self).source_guid_prefix == old(self).source_guid_prefix
                    &&& final(self).unicast_reply_locator_list == old(self).unicast_reply_locator_list
                    &&& final(self).multicast_reply_locator_list == old(self).multicast_reply_locator_list
                    &&& final(self).have_timestamp == old(self).have_timestamp
                    &&& final(self).timestamp == old(self).timestamp
                },
            },
    {
        match interpreter_subm {
            InterpreterSubmessage::InfoReply {
                unicast_locator_list,
                multicast_locator_list,
                multicast_flag,
            } => {
                self.unicast_reply_locator_list = unicast_locator_list;
                if multicast_flag {
                    match multicast_locator_list {
                        Some(l) => self.multicast_reply_locator_list = l,
                        None => {
                            return Err(
                                MessageError::Warn(String::from_str("Invalid InfoReply Submessage")),
                            );
                        },
                    }
                } else {
                    self.multicast_reply_locator_list.clear();
                }
            },
            InterpreterSubmessage::InfoReplyIp4 {
                unicast_locator_list,
                multicast_locator_list,
                multicast_flag,
            } => {
                self.unicast_reply_locator_list = unicast_locator_list;
                if multicast_flag {
                    match multicast_locator_list {
                        Some(l) => self.multicast_reply_locator_list = l,
                        None => {
                            return Err(
                                MessageError::Warn(
                                    String::from_str("Invalid InfoReplyIp4 Submessage"),
                                ),
                            );
                        },
                    }
                } else {
                    self.multicast_reply_locator_list.clear();
                }
            },
            InterpreterSubmessage::InfoTimestamp { timestamp, invalidate_flag } => {
                if !invalidate_flag {
                    self.have_timestamp = true;
                    match timestamp {
                        Some(ts) => self.timestamp = ts,
                        None => {
                            return Err(
                                MessageError::Warn(
                                    String::from_str("Invalid InfoTimestamp Submessage"),
                                ),
                            );
                        },
                    }
                } else {
                    self.have_timestamp = false;
                }
            },
            InterpreterSubmessage::InfoSource { guid_prefix, protocol_version, vendor_id } => {
                self.source_guid_prefix = guid_prefix;
                self.source_version = protocol_version;
                self.source_vendor_id = vendor_id;
                self.unicast_reply_locator_list.clear();
                self.multicast_reply_locator_list.clear();
                self.have_timestamp = false;
            },
            InterpreterSubmessage::InfoDestination { guid_prefix } => {
                self.dest_guid_prefix = guid_prefix;
            },
        }
        Ok(())
    }
}

/// What the participant record read from discovery data holds: the view's
/// domain, tag (empty when there is none), version, GUID, vendor, inline QoS
/// flag (false when there is none), built-in endpoints, locators, manual
/// liveliness count and lease (100 seconds when there is none).
pub open spec fn participant_of_view(d: SPDPdiscoveredParticipantData, v: SdpView) -> bool {
    &&& Some(d.domain_id) == v.domain_id
    &&& d._domain_tag@ == or_else(v.domain_tag, Seq::empty())
    &&& Some(d.protocol_version) == v.protocol_version
    &&& Some(guid_octets(d.guid)) == v.guid
    &&& Some(d.vendor_id.vendor_id@) == v.vendor_id
    &&& d.expects_inline_qos == or_else(v.expects_inline_qos, false)
    &&& Some(d.available_builtin_endpoint) == v.available_builtin_endpoint
    &&& locators_view(d.metarraffic_unicast_locator_list@) == v.metarraffic_unicast_locator_list
    &&& locators_view(d.metarraffic_multicast_locator_list@) == v.metarraffic_multicast_locator_list
    &&& locators_view(d.default_unicast_locator_list@) == v.default_unicast_locator_list
    &&& locators_view(d.default_multicast_locator_list@) == v.default_multicast_locator_list
    &&& d.manual_liveliness_count == v.manual_liveliness_count
    &&& d.lease_duration == or_else(v.lease_duration, Duration { seconds: 100, fraction: 0 })
}

/// Whether discovery data holds what a participant record needs: a domain,
/// a protocol version, a GUID, a vendor and the built-in endpoint set.
pub open spec fn complete_participant(v: SdpView) -> bool {
    v.domain_id is Some && v.protocol_version is Some && v.guid is Some && v.vendor_id is Some
        && v.available_builtin_endpoint is Some
}

/// Whether a payload can be read without the reading aborting: its
/// encoding is one of the four CDR encodings, and reading its parameter list
/// does not abort.
pub open spec fn readable_payload(p: SerializedPayload) -> bool {
    &&& spec_endianness_of(p.representation_identifier.bytes@) is Some
    &&& !(sdp_items(spec_endianness_of(p.representation_identifier.bytes@).unwrap(), p.value@, 0) is Aborts)
}

impl MessageReceiver {
    /// The participant a SPDP payload announces: a missing payload, an
    /// incomplete record or another domain is a warning, malformed data an
    /// error.
    pub fn participant_from_payload(&self, payload: &Option<SerializedPayload>) -> (r: Result<
        SPDPdiscoveredParticipantData,
        MessageError,
    >)
        requires
            payload matches Some(p) ==> readable_payload(*p),
        ensures
            match *payload {
                None => r matches Err(MessageError::Warn(m)) && m@
                    == "received participant message without serializedPayload"@,
                Some(p) => match sdp_items(
                    spec_endianness_of(p.representation_identifier.bytes@).unwrap(),
                    p.value@,
                    0,
                ) {
                    Outcome::Done(items, _) => {
                        let v = sdp_fold(sdp_initial(), items);
                        &&& !complete_participant(v) ==> (r matches Err(MessageError::Warn(m)) && m@
                            == "received incomplete spdp message"@)
                        &&& complete_participant(v) && v.domain_id != Some(self.domain_id) ==> (r matches Err(
                            MessageError::Warn(m),
                        ) && m@ == "received spdp message from different DDS domain. Self: "@ + dec_text(
                            self.domain_id as nat,
                        ) + ", Remote: "@ + dec_text(v.domain_id.unwrap() as nat))
                        &&& complete_participant(v) && v.domain_id == Some(self.domain_id) ==> (r matches Ok(
                            d,
                        ) && participant_of_view(d, v))
                    },
                    _ => r matches Err(MessageError::Error(m)) && m@
                        == "failed to deserialize reseived spdp data message: "@ + read_error_text(
                        ReadError::Malformed,
                    ),
                },
            },
    {
        let p = match payload {
            Some(p) => p,
            None => {
                return Err(
                    MessageError::Warn(
                        String::from_str("received participant message without serializedPayload"),
                    ),
                );
            },
        };
        let e = match p.representation_identifier.endianness() {
            Some(e) => e,
            None => {
                return Err(MessageError::Error(String::from_str("unexpected encapsulation kind")));
            },
        };
        let mut deserialized = match SDPBuiltinData::read_from(p.value.as_slice(), e) {
            Ok(d) => d,
            Err(err) => {
                let mut m = String::from_str("failed to deserialize reseived spdp data message: ");
                m.append(err.text().as_str());
                return Err(MessageError::Error(m));
            },
        };
        match deserialized.gen_spdp_discoverd_participant_data() {
            Some(nd) => {
                if nd.domain_id != self.domain_id {
                    let mut m = String::from_str("received spdp message from different DDS domain. Self: ");
                    m.append(dec(self.domain_id as u64).as_str());
                    m.append(", Remote: ");
                    m.append(dec(nd.domain_id as u64).as_str());
                    Err(MessageError::Warn(m))
                } else {
                    Ok(nd)
                }
            },
            None => Err(MessageError::Warn(String::from_str("received incomplete spdp message"))),
        }
    }
}

/// Where to send this participant's announcement to a newly discovered
/// one: its metatraffic unicast locators, else its default unicast
/// locators, else the SPDP multicast group 239.255.0.1, port 7400.
pub fn spdp_reply_locators(d: &SPDPdiscoveredParticipantData) -> (r: Vec<Locator>)
    ensures
        d.metarraffic_unicast_locator_list@.len() > 0 ==> r@ == d.metarraffic_unicast_locator_list@,
        d.metarraffic_unicast_locator_list@.len() == 0 && d.default_unicast_locator_list@.len() > 0
            ==> r@ == d.default_unicast_locator_list@,
        d.metarraffic_unicast_locator_list@.len() == 0 && d.default_unicast_locator_list@.len() == 0
            ==> r@.len() == 1 && r@[0].kind == LOCATOR_KIND_UDPV4 && r@[0].port == 7400
            && r@[0].address@ == ipv4_address(seq![239u8, 255u8, 0u8, 1u8]),
{
    if d.metarraffic_unicast_locator_list.len() > 0 {
        copy_locators(&d.metarraffic_unicast_locator_list)
    } else if d.default_unicast_locator_list.len() > 0 {
        copy_locators(&d.default_unicast_locator_list)
    } else {
        let group: [u8; 4] = [239, 255, 0, 1];
        assert(group@ =~= seq![239u8, 255u8, 0u8, 1u8]);
        assert(group@ != crate::message::cdr::zeros(4)) by {
            assert(group@[0] != crate::message::cdr::zeros(4)[0]);
        }
        Locator::new_list_from_multi_ipv4(7400, vec![group])
    }
}

/// A remote built-in reader a local built-in writer is to match.
pub struct RemoteReaderMatch {
    pub local_writer: EntityId,
    pub remote_reader: GUID,
    pub expects_inline_qos: bool,
    pub unicast_locator_list: Vec<Locator>,
    pub multicast_locator_list: Vec<Locator>,
    pub qos: DataReaderQosPolicies,
}

/// A remote built-in writer a local built-in reader is to match.
pub struct RemoteWriterMatch {
    pub local_reader: EntityId,
    pub remote_writer: GUID,
    pub unicast_locator_list: Vec<Locator>,
    pub multicast_locator_list: Vec<Locator>,
    pub data_max_size_serialized: i32,
    pub qos: DataWriterQosPolicies,
}

/// The built-in endpoints to match with a newly discovered participant.
pub struct BuiltinMatches {
    pub readers: Vec<RemoteReaderMatch>,
    pub writers: Vec<RemoteWriterMatch>,
}

/// The QoS a built-in remote reader is assumed to have: the given
/// reliability, transient-local durability, the given history when there
/// is one, and the defaults otherwise.
pub open spec fn builtin_reader_qos(q: DataReaderQosPolicies, rel: Reliability, hist: Option<History>) -> bool {
    &&& q.durability == (Durability::TransientLocal, true)
    &&& q.reliability == (rel, true)
    &&& q.history == decided(hist, History::spec_default())
    &&& q.deadline == decided(None, Deadline { period: Duration::spec_infinite() })
    &&& q.latency_budget == decided(None, LatencyBudget(Duration { seconds: 0, fraction: 0 }))
    &&& q.liveliness == decided(None, Liveliness::spec_default())
    &&& q.destination_order == decided(None, DestinationOrder::ByReceptionTimestamp)
    &&& q.resource_limits == decided(None, ResourceLimits::spec_default())
    &&& !q.user_data.1 && q.user_data.0.value@ == Seq::<u8>::empty()
    &&& q.ownership == decided(None, Ownership::Shared)
    &&& q.time_based_filter == decided(
        None,
        TimeBasedFilter { minimun_separation: Duration { seconds: 0, fraction: 0 } },
    )
    &&& q.reader_data_lifecycle == decided(
        None,
        ReaderDataLifecycle {
            autopurge_nowriter_samples_delay: Duration::spec_infinite(),
            autopurge_dispose_samples_delay: Duration::spec_infinite(),
        },
    )
}

/// The QoS a built-in remote writer is assumed to have: reliable,
/// transient-local durability, the given history when there is one, and the
/// defaults otherwise.
pub open spec fn builtin_writer_qos(q: DataWriterQosPolicies, hist: Option<History>) -> bool {
    &&& q.durability == (Durability::TransientLocal, true)
    &&& q.reliability == (Reliability::spec_default_reliable(), true)
    &&& q.history == decided(hist, History::spec_default())
    &&& q.durability_service == decided(None, DurabilityService::spec_default())
    &&& q.deadline == decided(None, Deadline { period: Duration::spec_infinite() })
    &&& q.latency_budget == decided(None, LatencyBudget(Duration { seconds: 0, fraction: 0 }))
    &&& q.liveliness == decided(None, Liveliness::spec_default())
    &&& q.destination_order == decided(None, DestinationOrder::ByReceptionTimestamp)
    &&& q.resource_limits == decided(None, ResourceLimits::spec_default())
    &&& q.transport_priority == decided(None, TransportPriority { value: 0 })
    &&& q.lifespan == decided(None, Lifespan(Duration::spec_infinite()))
    &&& !q.user_data.1 && q.user_data.0.value@ == Seq::<u8>::empty()
    &&& q.ownership == decided(None, Ownership::Shared)
    &&& q.ownership_strength == decided(None, OwnershipStrength(0))
    &&& q.writer_data_lifecycle == decided(
        None,
        WriterDataLifecycle { autodispose_unregistered_instance: true },
    )
}

/// The history the participant message endpoints keep: the last message.
pub open spec fn keep_last_one() -> History {
    History { kind: HistoryQosKind::KeepLast, depth: 1 }
}

/// The remote readers to match, each as (local writer key octets, local and
/// remote reader identifiers as built-in ones, reliability, history): the
/// publication and subscription detectors and the participant message
/// reader, each when the participant announces it.
pub open spec fn expected_reader_matches(bits: u32) -> Seq<(EntityId, EntityId, Reliability, Option<History>)> {
    let pubs = spec_entity_id(0, 0, 3, KIND_WRITER_WITH_KEY_BUILT_IN);
    let pubs_r = spec_entity_id(0, 0, 3, KIND_READER_WITH_KEY_BUILT_IN);
    let subs = spec_entity_id(0, 0, 4, KIND_WRITER_WITH_KEY_BUILT_IN);
    let subs_r = spec_entity_id(0, 0, 4, KIND_READER_WITH_KEY_BUILT_IN);
    let pmd_w = spec_entity_id(0, 2, 0, KIND_WRITER_WITH_KEY_BUILT_IN);
    let pmd_r = spec_entity_id(0, 2, 0, KIND_READER_WITH_KEY_BUILT_IN);
    (if has_endpoint(bits, DISC_BUILTIN_ENDPOINT_PUBLICATIONS_DETECTOR) {
        seq![(pubs, pubs_r, Reliability::spec_default_besteffort(), None::<History>)]
    } else {
        Seq::empty()
    }) + (if has_endpoint(bits, DISC_BUILTIN_ENDPOINT_SUBSCRIPTIONS_DETECTOR) {
        seq![(subs, subs_r, Reliability::spec_default_reliable(), None::<History>)]
    } else {
        Seq::empty()
    }) + (if has_endpoint(bits, BUILTIN_ENDPOINT_PARTICIPANT_MESSAGE_DATA_READER) {
        seq![(pmd_w, pmd_r, Reliability::spec_default_reliable(), Some(keep_last_one()))]
    } else {
        Seq::empty()
    })
}

/// The remote writers to match, each as (local reader, remote writer
/// identifier, history): the publication and subscription announcers and
/// the participant message writer, each when the participant announces it.
pub open spec fn expected_writer_matches(bits: u32) -> Seq<(EntityId, EntityId, Option<History>)> {
    let pubs = spec_entity_id(0, 0, 3, KIND_WRITER_WITH_KEY_BUILT_IN);
    let pubs_r = spec_entity_id(0, 0, 3, KIND_READER_WITH_KEY_BUILT_IN);
    let subs = spec_entity_id(0, 0, 4, KIND_WRITER_WITH_KEY_BUILT_IN);
    let subs_r = spec_entity_id(0, 0, 4, KIND_READER_WITH_KEY_BUILT_IN);
    let pmd_w = spec_entity_id(0, 2, 0, KIND_WRITER_WITH_KEY_BUILT_IN);
    let pmd_r = spec_entity_id(0, 2, 0, KIND_READER_WITH_KEY_BUILT_IN);
    (if has_endpoint(bits, DISC_BUILTIN_ENDPOINT_PUBLICATIONS_ANNOUNCER) {
        seq![(pubs_r, pubs, None::<History>)]
    } else {
        Seq::empty()
    }) + (if has_endpoint(bits, DISC_BUILTIN_ENDPOINT_SUBSCRIPTIONS_ANNOUNCER) {
        seq![(subs_r, subs, None::<History>)]
    } else {
        Seq::empty()
    }) + (if has_endpoint(bits, BUILTIN_ENDPOINT_PARTICIPANT_MESSAGE_DATA_WRITER) {
        seq![(pmd_r, pmd_w, Some(keep_last_one()))]
    } else {
        Seq::empty()
    })
}

fn reader_match(
    local_writer: EntityId,
    remote_reader: EntityId,
    d: &SPDPdiscoveredParticipantData,
    rel: Reliability,
    hist: Option<History>,
) -> (m: RemoteReaderMatch)
    ensures
        m.local_writer == local_writer,
        m.remote_reader == (GUID { guid_prefix: d.guid.guid_prefix, entity_id: remote_reader }),
        m.expects_inline_qos == d.expects_inline_qos,
        m.unicast_locator_list@ == d.metarraffic_unicast_locator_list@,
        m.multicast_locator_list@ == d.metarraffic_multicast_locator_list@,
        builtin_reader_qos(m.qos, rel, hist),
{
    let b = DataReaderQosBuilder::new().reliability(rel).durability(Durability::TransientLocal);
    let b = match hist {
        Some(h) => b.history(h),
        None => b,
    };
    RemoteReaderMatch {
        local_writer,
        remote_reader: GUID::new(d.guid.guid_prefix, remote_reader),
        expects_inline_qos: d.expects_inline_qos,
        unicast_locator_list: copy_locators(&d.metarraffic_unicast_locator_list),
        multicast_locator_list: copy_locators(&d.metarraffic_multicast_locator_list),
        qos: b.build(),
    }
}

fn writer_match(
    local_reader: EntityId,
    remote_writer: EntityId,
    d: &SPDPdiscoveredParticipantData,
    hist: Option<History>,
) -> (m: RemoteWriterMatch)
    ensures
        m.local_reader == local_reader,
        m.remote_writer == (GUID { guid_prefix: d.guid.guid_prefix, entity_id: remote_writer }),
        m.unicast_locator_list@ == d.metarraffic_unicast_locator_list@,
        m.multicast_locator_list@ == d.metarraffic_multicast_locator_list@,
        m.data_max_size_serialized == 0,
        builtin_writer_qos(m.qos, hist),
{
    let b = DataWriterQosBuilder::new().reliability(Reliability::default_reliable()).durability(
        Durability::TransientLocal,
    );
    let b = match hist {
        Some(h) => b.history(h),
        None => b,
    };
    RemoteWriterMatch {
        local_reader,
        remote_writer: GUID::new(d.guid.guid_prefix, remote_writer),
        unicast_locator_list: copy_locators(&d.metarraffic_unicast_locator_list),
        multicast_locator_list: copy_locators(&d.metarraffic_multicast_locator_list),
        data_max_size_serialized: 0,
        qos: b.build(),
    }
}

impl MessageReceiver {
    /// The built-in endpoints to match with the participant `spdp_data`
    /// announces: none when it is of another domain; otherwise, for each
    /// built-in endpoint it announces, the local counterpart matches it,
    /// with its metatraffic locators and the QoS built-in endpoints have
    /// (see `expected_reader_matches` and `expected_writer_matches`).
    pub fn handle_participant_discovery(&self, spdp_data: &SPDPdiscoveredParticipantData) -> (r:
        BuiltinMatches)
        ensures
            spdp_data.domain_id != self.domain_id ==> r.readers@.len() == 0 && r.writers@.len() == 0,
            spdp_data.domain_id == self.domain_id ==> {
                let er = expected_reader_matches(spdp_data.available_builtin_endpoint);
                let ew = expected_writer_matches(spdp_data.available_builtin_endpoint);
                &&& r.readers@.len() == er.len()
                &&& forall|i: int|
                    0 <= i < er.len() ==> {
                        let m = #[trigger] r.readers@[i];
                        &&& m.local_writer == er[i].0
                        &&& m.remote_reader == (GUID {
                            guid_prefix: spdp_data.guid.guid_prefix,
                            entity_id: er[i].1,
                        })
                        &&& m.expects_inline_qos == spdp_data.expects_inline_qos
                        &&& m.unicast_locator_list@ == spdp_data.metarraffic_unicast_locator_list@
                        &&& m.multicast_locator_list@ == spdp_data.metarraffic_multicast_locator_list@
                        &&& builtin_reader_qos(m.qos, er[i].2, er[i].3)
                    }
                &&& r.writers@.len() == ew.len()
                &&& forall|i: int|
                    0 <= i < ew.len() ==> {
                        let m = #[trigger] r.writers@[i];
                        &&& m.local_reader == ew[i].0
                        &&& m.remote_writer == (GUID {
                            guid_prefix: spdp_data.guid.guid_prefix,
                            entity_id: ew[i].1,
                        })
                        &&& m.unicast_locator_list@ == spdp_data.metarraffic_unicast_locator_list@
                        &&& m.multicast_locator_list@ == spdp_data.metarraffic_multicast_locator_list@
                        &&& m.data_max_size_serialized == 0
                        &&& builtin_writer_qos(m.qos, ew[i].2)
                    }
            },
    {
        let mut readers: Vec<RemoteReaderMatch> = Vec::new();
        let mut writers: Vec<RemoteWriterMatch> = Vec::new();
        if spdp_data.domain_id != self.domain_id {
            return BuiltinMatches { readers, writers };
        }
        let bits = spdp_data.available_builtin_endpoint;
        let ghost er = expected_reader_matches(bits);
        let ghost ew = expected_writer_matches(bits);
        if contains(bits, DISC_BUILTIN_ENDPOINT_PUBLICATIONS_DETECTOR) {
            readers.push(
                reader_match(
                    EntityId::sedp_builtin_publications_announcer(),
                    EntityId::sedp_builtin_publications_detector(),
                    spdp_data,
                    Reliability::default_besteffort(),
                    None,
                ),
            );
        }
        if contains(bits, DISC_BUILTIN_ENDPOINT_PUBLICATIONS_ANNOUNCER) {
            writers.push(
                writer_match(
                    EntityId::sedp_builtin_publications_detector(),
                    EntityId::sedp_builtin_publications_announcer(),
                    spdp_data,
                    None,
                ),
            );
        }
        if contains(bits, DISC_BUILTIN_ENDPOINT_SUBSCRIPTIONS_DETECTOR) {
            readers.push(
                reader_match(
                    EntityId::sedp_builtin_subscriptions_announcer(),
                    EntityId::sedp_builtin_subscriptions_detector(),
                    spdp_data,
                    Reliability::default_reliable(),
                    None,
                ),
            );
        }
        if contains(bits, DISC_BUILTIN_ENDPOINT_SUBSCRIPTIONS_ANNOUNCER) {
            writers.push(
                writer_match(
                    EntityId::sedp_builtin_subscriptions_detector(),
                    EntityId::sedp_builtin_subscriptions_announcer(),
                    spdp_data,
                    None,
                ),
            );
        }
        if contains(bits, BUILTIN_ENDPOINT_PARTICIPANT_MESSAGE_DATA_READER) {
            readers.push(
                reader_match(
                    EntityId::p2p_builtin_participant_message_writer(),
                    EntityId::p2p_builtin_participant_message_reader(),
                    spdp_data,
                    Reliability::default_reliable(),
                    Some(History { kind: HistoryQosKind::KeepLast, depth: 1 }),
                ),
            );
        }
        if contains(bits, BUILTIN_ENDPOINT_PARTICIPANT_MESSAGE_DATA_WRITER) {
            writers.push(
                writer_match(
                    EntityId::p2p_builtin_participant_message_reader(),
                    EntityId::p2p_builtin_participant_message_writer(),
                    spdp_data,
                    Some(History { kind: HistoryQosKind::KeepLast, depth: 1 }),
                ),
            );
        }
        BuiltinMatches { readers, writers }
    }
}

/// Where the change a DATA submessage carries goes: to the participant
/// discovery, the publication or subscription discovery, the participant
/// message handling, every reader that matches its writer, or one reader.
pub enum DataRoute {
    Spdp,
    SedpPublication,
    SedpSubscription,
    ParticipantMessage,
    AllReaders,
    Reader(EntityId),
}

/// Which readers a HEARTBEAT or GAP goes to: one reader, or every reader
/// that matches its writer.
pub enum ReaderRoute {
    One(EntityId),
    AllContaining,
}

/// The flag of a DATA submessage that says inline QoS follows.
pub open spec fn inline_qos_flag(flags: u8) -> bool {
    flags & 0x02u8 != 0
}

/// Where the DATA submessage of `writer_id` to `reader_id` goes, by the
/// identifiers RTPS 9.3.1.3 predefines.
pub open spec fn data_route_of(writer_id: EntityId, reader_id: EntityId) -> DataRoute {
    if writer_id == spec_entity_id(0, 1, 0, KIND_WRITER_WITH_KEY_BUILT_IN) || reader_id
        == spec_entity_id(0, 1, 0, KIND_READER_WITH_KEY_BUILT_IN) {
        DataRoute::Spdp
    } else if writer_id == spec_entity_id(0, 0, 3, KIND_WRITER_WITH_KEY_BUILT_IN) || reader_id
        == spec_entity_id(0, 0, 3, KIND_READER_WITH_KEY_BUILT_IN) {
        DataRoute::SedpPublication
    } else if writer_id == spec_entity_id(0, 0, 4, KIND_WRITER_WITH_KEY_BUILT_IN) || reader_id
        == spec_entity_id(0, 0, 4, KIND_READER_WITH_KEY_BUILT_IN) {
        DataRoute::SedpSubscription
    } else if writer_id == spec_entity_id(0, 2, 0, KIND_WRITER_WITH_KEY_BUILT_IN) || reader_id
        == spec_entity_id(0, 2, 0, KIND_READER_WITH_KEY_BUILT_IN) {
        DataRoute::ParticipantMessage
    } else if reader_id == spec_entity_id(0, 0, 0, 0) {
        DataRoute::AllReaders
    } else {
        DataRoute::Reader(reader_id)
    }
}

impl MessageReceiver {
    /// Where a DATA submessage goes (RTPS 8.3.7.2): nowhere when it comes
    /// from this participant to a known destination; a warning when its
    /// sequence number is negative or unknown, or when it carries inline QoS
    /// (not supported); otherwise `data_route_of`.
    pub fn route_data(
        &self,
        writer_sn: SequenceNumber,
        flags: u8,
        writer_id: EntityId,
        reader_id: EntityId,
    ) -> (r: Result<Option<DataRoute>, MessageError>)
        ensures
            ({
                let own = self.source_guid_prefix.guid_prefix@ == self.own_guid_prefix.guid_prefix@
                    && !unknown_prefix(self.dest_guid_prefix);
                let invalid = writer_sn.0 < 0 || writer_sn.0 == -0x1_0000_0000;
                &&& own ==> (r matches Ok(None))
                &&& !own && invalid ==> (r matches Err(MessageError::Warn(m)) && m@ == "Invalid Data Submessage"@)
                &&& !own && !invalid && inline_qos_flag(flags) ==> (r matches Err(MessageError::Warn(m)) && m@
                    == "received DATA with inlineQos, Umber DDS dosen't support inlineQos yet"@)
                &&& !own && !invalid && !inline_qos_flag(flags) ==> r == Ok::<Option<DataRoute>, MessageError>(
                    Some(data_route_of(writer_id, reader_id)),
                )
            }),
    {
        if self.from_self_to_known() {
            return Ok(None);
        }
        if writer_sn.0 < 0 || writer_sn.0 == -0x1_0000_0000 {
            return Err(MessageError::Warn(String::from_str("Invalid Data Submessage")));
        }
        if flags & 0x02u8 != 0 {
            return Err(
                MessageError::Warn(
                    String::from_str("received DATA with inlineQos, Umber DDS dosen't support inlineQos yet"),
                ),
            );
        }
        let route = if writer_id == EntityId::spdp_builtin_participant_announcer() || reader_id
            == EntityId::spdp_builtin_participant_detector() {
            DataRoute::Spdp
        } else if writer_id == EntityId::sedp_builtin_publications_announcer() || reader_id
            == EntityId::sedp_builtin_publications_detector() {
            DataRoute::SedpPublication
        } else if writer_id == EntityId::sedp_builtin_subscriptions_announcer() || reader_id
            == EntityId::sedp_builtin_subscriptions_detector() {
            DataRoute::SedpSubscription
        } else if writer_id == EntityId::p2p_builtin_participant_message_writer() || reader_id
            == EntityId::p2p_builtin_participant_message_reader() {
            DataRoute::ParticipantMessage
        } else if reader_id == EntityId::unknow() {
            DataRoute::AllReaders
        } else {
            DataRoute::Reader(reader_id)
        };
        Ok(Some(route))
    }

    /// Which readers a HEARTBEAT of `writer_id` to `reader_id` goes to: a
    /// heartbeat to no reader in particular from the publication or
    /// subscription announcer goes to the matching detector, from another
    /// writer to every reader that matches it; one to a reader goes to it.
    pub fn route_heartbeat(&self, writer_id: EntityId, reader_id: EntityId) -> (r: ReaderRoute)
        ensures
            reader_id != spec_entity_id(0, 0, 0, 0) ==> r == ReaderRoute::One(reader_id),
            reader_id == spec_entity_id(0, 0, 0, 0) ==> r == if writer_id == spec_entity_id(
                0,
                0,
                3,
                KIND_WRITER_WITH_KEY_BUILT_IN,
            ) {
                ReaderRoute::One(spec_entity_id(0, 0, 3, KIND_READER_WITH_KEY_BUILT_IN))
            } else if writer_id == spec_entity_id(0, 0, 4, KIND_WRITER_WITH_KEY_BUILT_IN) {
                ReaderRoute::One(spec_entity_id(0, 0, 4, KIND_READER_WITH_KEY_BUILT_IN))
            } else {
                ReaderRoute::AllContaining
            },
    {
        if reader_id == EntityId::unknow() {
            if writer_id == EntityId::sedp_builtin_publications_announcer() {
                ReaderRoute::One(EntityId::sedp_builtin_publications_detector())
            } else if writer_id == EntityId::sedp_builtin_subscriptions_announcer() {
                ReaderRoute::One(EntityId::sedp_builtin_subscriptions_detector())
            } else {
                ReaderRoute::AllContaining
            }
        } else {
            ReaderRoute::One(reader_id)
        }
    }

    /// Which readers a GAP to `reader_id` goes to: every reader that
    /// matches its writer when it is to no reader in particular, else that
    /// reader.
    pub fn route_gap(&self, reader_id: EntityId) -> (r: ReaderRoute)
        ensures
            r == if reader_id == spec_entity_id(0, 0, 0, 0) {
                ReaderRoute::AllContaining
            } else {
                ReaderRoute::One(reader_id)
            },
    {
        if reader_id == EntityId::unknow() {
            ReaderRoute::AllContaining
        } else {
            ReaderRoute::One(reader_id)
        }
    }
}


/// Whether a DATA submessage of `w` to `r` is SPDP traffic: from the
/// participant announcer (0x000100c2) or to the participant detector
/// (0x000100c7).
pub open spec fn is_spdp_traffic(w: EntityId, r: EntityId) -> bool {
    w == (EntityId { key0: 0, key1: 1, key2: 0, entity_kind: EntityKind { value: 0xc2 } })
        || r == (EntityId { key0: 0, key1: 1, key2: 0, entity_kind: EntityKind { value: 0xc7 } })
}

/// Whether `w` or `r` is the built-in endpoint pair with key `(0, k1, k2)`:
/// the writer (kind 0xc2) as sender, or the reader (kind 0xc7) as receiver.
pub open spec fn names_builtin_pair(w: EntityId, r: EntityId, k1: u8, k2: u8) -> bool {
    w == (EntityId { key0: 0, key1: k1, key2: k2, entity_kind: EntityKind { value: 0xc2 } })
        || r == (EntityId { key0: 0, key1: k1, key2: k2, entity_kind: EntityKind { value: 0xc7 } })
}

/// Where DATA goes, identifier by identifier (RTPS 9.3.1.3): SPDP traffic
/// (participant announcer 0x000100c2 or detector 0x000100c7) goes to
/// participant discovery; otherwise traffic of the publications announcer
/// or detector (0x000003c2 / 0x000003c7) goes to publication discovery and
/// never to subscription discovery; otherwise traffic of the subscriptions
/// pair (0x000004c2 / 0x000004c7) to subscription discovery; otherwise
/// traffic of the participant message pair (0x000200c2 / 0x000200c7) to
/// liveliness; other data goes to every matching reader when addressed to
/// the unknown reader, else to the reader it names.
pub proof fn law_data_routes(w: EntityId, r: EntityId)
    ensures
        (data_route_of(w, r) == DataRoute::Spdp) <==> is_spdp_traffic(w, r),
        (data_route_of(w, r) == DataRoute::SedpPublication) <==> (!is_spdp_traffic(w, r)
            && names_builtin_pair(w, r, 0, 3)),
        (data_route_of(w, r) == DataRoute::SedpSubscription) <==> (!is_spdp_traffic(w, r)
            && !names_builtin_pair(w, r, 0, 3) && names_builtin_pair(w, r, 0, 4)),
        (data_route_of(w, r) == DataRoute::ParticipantMessage) <==> (!is_spdp_traffic(w, r)
            && !names_builtin_pair(w, r, 0, 3) && !names_builtin_pair(w, r, 0, 4)
            && names_builtin_pair(w, r, 2, 0)),
        (data_route_of(w, r) == DataRoute::AllReaders) <==> (!is_spdp_traffic(w, r)
            && !names_builtin_pair(w, r, 0, 3) && !names_builtin_pair(w, r, 0, 4)
            && !names_builtin_pair(w, r, 2, 0) && r == (EntityId {
            key0: 0,
            key1: 0,
            key2: 0,
            entity_kind: EntityKind { value: 0 },
        })),
        data_route_of(w, r) is Reader ==> data_route_of(w, r) == DataRoute::Reader(r),
        names_builtin_pair(w, r, 0, 3) ==> data_route_of(w, r) != DataRoute::SedpSubscription,
{
}

} // verus!
