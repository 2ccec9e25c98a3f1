//! The decisions a participant takes on what remote readers and writers
//! announce of themselves (SEDP): the proxy an announcement makes, and which
//! local endpoints it is to be matched with.
use vstd::prelude::*;
use crate::dds::qos::policy::{
    Deadline, DestinationOrder, Durability, DurabilityService, History, LatencyBudget, Lifespan,
    Liveliness, Ownership, OwnershipStrength, Reliability, ResourceLimits, TimeBasedFilter,
    TransportPriority,
};
use crate::discovery::data::{
    copy_locators, guid_octets, locators_view, or_else, sdp_fold, sdp_initial, SDPBuiltinData,
    SPDPdiscoveredParticipantData, SdpView,
};
use crate::discovery::parse::{sdp_items, Outcome};
use crate::discovery::data::{read_pmd_at, ParticipantMessageData, ParticipantMessageKind};
use crate::discovery::data::ReadError;
use crate::text::read_error_text;
use crate::dds::qos::policy::LivelinessQosKind;
use crate::structure::guid::GuidPrefix;
use crate::message::element::{spec_endianness_of, SerializedPayload};
use crate::message::receiver::{readable_payload, MessageError, MessageReceiver};
use crate::structure::duration::Duration;
use crate::structure::entity_id::{spec_topic_kind, EntityId, TopicKind};
use crate::structure::guid::GUID;
use crate::structure::proxy::{ReaderProxy, WriterProxy};
use crate::message::element::Locator;
use crate::rtps::cache::{HistoryCache, HistoryCacheType};

verus! {

/// The discovery data a payload holds, read in the endianness its encoding
/// names.
pub open spec fn payload_items(p: SerializedPayload) -> Outcome<Seq<crate::discovery::parse::SdpItem>> {
    sdp_items(spec_endianness_of(p.representation_identifier.bytes@).unwrap(), p.value@, 0)
}

/// Whether the remote writer a proxy stands for is the one discovery data
/// announce: its GUID, locators, largest serialized size (0 when absent), the
/// announcing participant's default locators, and each QoS policy as
/// announced (the default where absent; reliable reliability), every policy
/// marked as set; no change known yet.
pub open spec fn writer_of_view(wp: WriterProxy, v: SdpView, du: Seq<Locator>, dm: Seq<Locator>) -> bool {
    let q = wp.qos;
    &&& v.remote_guid == Some(guid_octets(wp.remote_writer_guid))
    &&& locators_view(wp.unicast_locator_list@) == v.unicast_locator_list
    &&& locators_view(wp.multicast_locator_list@) == v.multicast_locator_list
    &&& wp.default_unicast_locator_list@ == du
    &&& wp.default_multicast_locator_list@ == dm
    &&& wp.data_max_size_serialized == or_else(v.data_max_size_serialized, 0)
    &&& wp.cache_state@.len() == 0
    &&& q.durability == (or_else(v.durability, Durability::Volatile), true)
    &&& q.durability_service == (or_else(v.durability_service, DurabilityService::spec_default()), true)
    &&& q.deadline == (Deadline { period: or_else(v.deadline, Duration::spec_infinite()) }, true)
    &&& q.latency_budget == (LatencyBudget(or_else(v.latency_budget, Duration { seconds: 0, fraction: 0 })), true)
    &&& q.liveliness == (or_else(v.liveliness, Liveliness::spec_default()), true)
    &&& q.reliability == (or_else(v.reliability, Reliability::spec_default_reliable()), true)
    &&& q.destination_order == (or_else(v.destination_order, DestinationOrder::ByReceptionTimestamp), true)
    &&& q.history == (or_else(v.history, History::spec_default()), true)
    &&& q.resource_limits == (or_else(v.resource_limits, ResourceLimits::spec_default()), true)
    &&& q.transport_priority == (TransportPriority { value: or_else(v.transport_priority, 0) }, true)
    &&& q.lifespan == (Lifespan(or_else(v.lifespan, Duration::spec_infinite())), true)
    &&& q.user_data.1
    &&& q.user_data.0.value@ == or_else(v.user_data, Seq::empty())
    &&& q.ownership == (or_else(v.ownership, Ownership::Shared), true)
    &&& q.ownership_strength == (OwnershipStrength(or_else(v.ownership_strength, 0)), true)
    &&& !q.writer_data_lifecycle.1
}

/// Whether a remote endpoint announced with `v` by a participant whose
/// defaults are `du` and `dm` can be given a proxy: it has a locator of its
/// own or a default one.
pub open spec fn reachable(v: SdpView, du: Seq<Locator>, dm: Seq<Locator>) -> bool {
    v.unicast_locator_list.len() + v.multicast_locator_list.len() + du.len() + dm.len() > 0
}

impl MessageReceiver {
    /// The remote writer a SEDP announcement (DATA(w)) makes known, with its
    /// topic and type names. `known` is what discovery knows of the
    /// announcing participant. A missing payload, an unknown participant,
    /// data without an endpoint GUID or without topic and type names are
    /// warnings, malformed data an error.
    pub fn writer_from_payload(
        &self,
        payload: &Option<SerializedPayload>,
        known: &Option<SPDPdiscoveredParticipantData>,
    ) -> (r: Result<(WriterProxy, String, String), MessageError>)
        requires
            payload matches Some(p) ==> readable_payload(*p),
            payload matches Some(p) ==> (payload_items(*p) matches Outcome::Done(items, _) ==> (known matches Some(k) ==> reachable(
                sdp_fold(sdp_initial(), items),
                k.default_unicast_locator_list@,
                k.default_multicast_locator_list@,
            ))),
        ensures
            match *payload {
                None => r matches Err(MessageError::Warn(m)) && m@ == "received sedp message without serializedPayload"@,
                Some(p) => match payload_items(p) {
                    Outcome::Done(items, _) => {
                        let v = sdp_fold(sdp_initial(), items);
                        match *known {
                            None => r matches Err(MessageError::Warn(m)) && m@ == "received sedp(w) from unknown participant"@,
                            Some(k) => {
                                &&& v.remote_guid is None ==> (r matches Err(MessageError::Warn(m)) && m@
                                    == "failed to generate writer_proxy form received DATA(w)"@)
                                &&& (v.remote_guid is Some && (v.topic_name is None || v.data_type_name is None)) ==> (r matches Err(
                                    MessageError::Warn(m),
                                ) && m@ == "falied to get topic_info from received DATA(w)"@)
                                &&& (v.remote_guid is Some && v.topic_name is Some && v.data_type_name is Some) ==> (r matches Ok((wp, tn, ty)) && writer_of_view(
                                    wp,
                                    v,
                                    k.default_unicast_locator_list@,
                                    k.default_multicast_locator_list@,
                                ) && Some(tn@) == v.topic_name && Some(ty@) == v.data_type_name)
                            },
                        }
                    },
                    _ => r matches Err(MessageError::Error(m)) && m@ == "failed to deserialize reseived sedp(w) data message: "@
                        + read_error_text(ReadError::Malformed),
                },
            },
    {
        let p = match payload {
            Some(p) => p,
            None => {
                return Err(MessageError::Warn(String::from_str("received sedp message without serializedPayload")));
            },
        };
        let e = match p.representation_identifier.endianness() {
            Some(e) => e,
            None => {
                return Err(MessageError::Error(String::from_str("unexpected encapsulation kind")));
            },
        };
        let mut deserialized = match SDPBuiltinData::read_from(p.value.as_slice(), e) {
            Ok(d) => d,
            Err(err) => {
                let mut m = String::from_str("failed to deserialize reseived sedp(w) data message: ");
                m.append(err.text().as_str());
                return Err(MessageError::Error(m));
            },
        };
        let k = match known {
            Some(k) => k,
            None => {
                return Err(MessageError::Warn(String::from_str("received sedp(w) from unknown participant")));
            },
        };
        let wp = match deserialized.gen_writerproxy(
            copy_locators(&k.default_unicast_locator_list),
            copy_locators(&k.default_multicast_locator_list),
        ) {
            Some(wp) => wp,
            None => {
                return Err(MessageError::Warn(String::from_str("failed to generate writer_proxy form received DATA(w)")));
            },
        };
        match deserialized.topic_info() {
            Some((tn, ty)) => Ok((wp, tn.clone(), ty.clone())),
            None => Err(MessageError::Warn(String::from_str("falied to get topic_info from received DATA(w)"))),
        }
    }
}

/// Whether the remote reader a proxy stands for is the one discovery data
/// announce: its GUID, inline QoS flag (false when absent), locators, the
/// announcing participant's default locators, and each QoS policy as
/// announced (the default where absent; best-effort reliability), every
/// policy marked as set.
pub open spec fn reader_of_view(rp: ReaderProxy, v: SdpView, du: Seq<Locator>, dm: Seq<Locator>) -> bool {
    let q = rp.qos;
    &&& v.remote_guid == Some(guid_octets(rp.remote_reader_guid))
    &&& rp.expects_inline_qos == or_else(v.expects_inline_qos, false)
    &&& locators_view(rp.unicast_locator_list@) == v.unicast_locator_list
    &&& locators_view(rp.multicast_locator_list@) == v.multicast_locator_list
    &&& rp.default_unicast_locator_list@ == du
    &&& rp.default_multicast_locator_list@ == dm
    &&& q.durability == (or_else(v.durability, Durability::Volatile), true)
    &&& q.deadline == (Deadline { period: or_else(v.deadline, Duration::spec_infinite()) }, true)
    &&& q.latency_budget == (LatencyBudget(or_else(v.latency_budget, Duration { seconds: 0, fraction: 0 })), true)
    &&& q.liveliness == (or_else(v.liveliness, Liveliness::spec_default()), true)
    &&& q.reliability == (or_else(v.reliability, Reliability::spec_default_besteffort()), true)
    &&& q.destination_order == (or_else(v.destination_order, DestinationOrder::ByReceptionTimestamp), true)
    &&& q.history == (or_else(v.history, History::spec_default()), true)
    &&& q.resource_limits == (or_else(v.resource_limits, ResourceLimits::spec_default()), true)
    &&& q.user_data.1
    &&& q.user_data.0.value@ == or_else(v.user_data, Seq::empty())
    &&& q.ownership == (or_else(v.ownership, Ownership::Shared), true)
    &&& q.time_based_filter == (TimeBasedFilter { minimun_separation: or_else(v.time_based_filter, Duration { seconds: 0, fraction: 0 }) }, true)
    &&& !q.reader_data_lifecycle.1
}

impl MessageReceiver {
    /// The remote reader a SEDP announcement (DATA(r)) makes known, with its
    /// topic and type names. `known` is what discovery knows of the
    /// announcing participant. A missing payload, an unknown participant,
    /// data without an endpoint GUID or without topic and type names are
    /// warnings, malformed data an error.
    pub fn reader_from_payload(
        &self,
        payload: &Option<SerializedPayload>,
        known: &Option<SPDPdiscoveredParticipantData>,
    ) -> (r: Result<(ReaderProxy, String, String), MessageError>)
        requires
            payload matches Some(p) ==> readable_payload(*p),
            payload matches Some(p) ==> (payload_items(*p) matches Outcome::Done(items, _) ==> (known matches Some(k) ==> reachable(
                sdp_fold(sdp_initial(), items),
                k.default_unicast_locator_list@,
                k.default_multicast_locator_list@,
            ))),
        ensures
            match *payload {
                None => r matches Err(MessageError::Warn(m)) && m@ == "received sedp message without serializedPayload"@,
                Some(p) => match payload_items(p) {
                    Outcome::Done(items, _) => {
                        let v = sdp_fold(sdp_initial(), items);
                        match *known {
                            None => r matches Err(MessageError::Warn(m)) && m@ == "received sedp(r) from unknown participant"@,
                            Some(k) => {
                                &&& v.remote_guid is None ==> (r matches Err(MessageError::Warn(m)) && m@
                                    == "failed to generate reader_proxy form received DATA(r)"@)
                                &&& (v.remote_guid is Some && (v.topic_name is None || v.data_type_name is None)) ==> (r matches Err(
                                    MessageError::Warn(m),
                                ) && m@ == "falied to get topic_info from received DATA(r)"@)
                                &&& (v.remote_guid is Some && v.topic_name is Some && v.data_type_name is Some) ==> (r matches Ok((rp, tn, ty)) && reader_of_view(
                                    rp,
                                    v,
                                    k.default_unicast_locator_list@,
                                    k.default_multicast_locator_list@,
                                ) && Some(tn@) == v.topic_name && Some(ty@) == v.data_type_name)
                            },
                        }
                    },
                    _ => r matches Err(MessageError::Error(m)) && m@ == "failed to deserialize reseived sedp(r) data message: "@
                        + read_error_text(ReadError::Malformed),
                },
            },
    {
        let p = match payload {
            Some(p) => p,
            None => {
                return Err(MessageError::Warn(String::from_str("received sedp message without serializedPayload")));
            },
        };
        let e = match p.representation_identifier.endianness() {
            Some(e) => e,
            None => {
                return Err(MessageError::Error(String::from_str("unexpected encapsulation kind")));
            },
        };
        let mut deserialized = match SDPBuiltinData::read_from(p.value.as_slice(), e) {
            Ok(d) => d,
            Err(err) => {
                let mut m = String::from_str("failed to deserialize reseived sedp(r) data message: ");
                m.append(err.text().as_str());
                return Err(MessageError::Error(m));
            },
        };
        let k = match known {
            Some(k) => k,
            None => {
                return Err(MessageError::Warn(String::from_str("received sedp(r) from unknown participant")));
            },
        };
        let dummy = HistoryCache::new(HistoryCacheType::Dummy);
        let rp = match deserialized.gen_readerpoxy(
            &dummy,
            copy_locators(&k.default_unicast_locator_list),
            copy_locators(&k.default_multicast_locator_list),
        ) {
            Some(rp) => rp,
            None => {
                return Err(MessageError::Warn(String::from_str("failed to generate reader_proxy form received DATA(r)")));
            },
        };
        match deserialized.topic_info() {
            Some((tn, ty)) => Ok((rp, tn.clone(), ty.clone())),
            None => Err(MessageError::Warn(String::from_str("falied to get topic_info from received DATA(r)"))),
        }
    }
}

/// A local reader or writer as matching sees it: its entity, the name and
/// type of its topic, and whether the topic's data carry a key.
pub struct LocalEndpoint {
    pub id: EntityId,
    pub topic_name: String,
    pub data_type: String,
    pub topic_kind: TopicKind,
}

/// Which local endpoints, taken in order, are matched with a remote one on
/// the topic `name` of type `ty`: each one with that topic and type, until one
/// whose topic kind differs from the remote's known kind (`remote_kind`),
/// where matching stops (the flag). Endpoints on another topic are passed
/// over.
pub open spec fn match_plan(locals: Seq<LocalEndpoint>, remote_kind: Option<TopicKind>, name: Seq<char>, ty: Seq<char>) -> (Seq<EntityId>, bool)
    decreases locals.len(),
{
    if locals.len() == 0 {
        (Seq::empty(), false)
    } else {
        let (ids, stopped) = match_plan(locals.drop_last(), remote_kind, name, ty);
        let l = locals.last();
        if stopped {
            (ids, true)
        } else if l.topic_name@ == name && l.data_type@ == ty {
            if remote_kind matches Some(k) && k != l.topic_kind {
                (ids, true)
            } else {
                (ids.push(l.id), false)
            }
        } else {
            (ids, false)
        }
    }
}

/// The local endpoints a remote endpoint `remote` on the topic `name` of
/// type `ty` is to be matched with, in order, and whether matching stopped
/// on a topic kind that differs (then the announcement is not kept either).
pub fn match_targets(locals: &Vec<LocalEndpoint>, remote: GUID, name: &String, ty: &String) -> (r: (Vec<EntityId>, bool))
    ensures
        (r.0@, r.1) == match_plan(locals@, spec_topic_kind(remote.entity_id.entity_kind.value), name@, ty@),
{
    let remote_kind = remote.entity_id.topic_kind();
    let mut ids: Vec<EntityId> = Vec::new();
    let mut stopped = false;
    let mut i: usize = 0;
    while i < locals.len()
        invariant
            i <= locals@.len(),
            remote_kind == spec_topic_kind(remote.entity_id.entity_kind.value),
            (ids@, stopped) == match_plan(locals@.subrange(0, i as int), remote_kind, name@, ty@),
        decreases locals@.len() - i,
    {
        let l = &locals[i];
        proof {
            assert(locals@.subrange(0, i + 1).drop_last() =~= locals@.subrange(0, i as int));
        }
        if !stopped && l.topic_name == *name && l.data_type == *ty {
            match remote_kind {
                Some(k) => {
                    if k != l.topic_kind {
                        stopped = true;
                    } else {
                        ids.push(l.id);
                    }
                },
                None => {
                    ids.push(l.id);
                },
            }
        }
        i = i + 1;
    }
    proof {
        assert(locals@.subrange(0, locals@.len() as int) =~= locals@);
    }
    (ids, stopped)
}

/// The liveliness a participant message asks to renew, as its kind octets
/// say: automatic for an automatic update, manual by participant for a
/// manual one; none for any other kind.
pub open spec fn liveliness_update_of(kind: Seq<u8>) -> Option<LivelinessQosKind> {
    if kind == seq![0u8, 0u8, 0u8, 1u8] {
        Some(LivelinessQosKind::Automatic)
    } else if kind == seq![0u8, 0u8, 0u8, 2u8] {
        Some(LivelinessQosKind::ManualByParticipant)
    } else {
        None
    }
}

impl MessageReceiver {
    /// What a participant message (DATA(m)) asks of discovery: to renew the
    /// liveliness of the participant it names, of the kind it names, or
    /// nothing (`None`) for another kind. `known` tells whether discovery
    /// knows the sending participant. A missing payload or an unknown
    /// sender is a warning, a message that cannot be read an error.
    pub fn participant_message_from_payload(
        &self,
        payload: &Option<SerializedPayload>,
        known: bool,
    ) -> (r: Result<Option<(GuidPrefix, LivelinessQosKind)>, MessageError>)
        requires
            payload matches Some(p) ==> spec_endianness_of(p.representation_identifier.bytes@) is Some,
        ensures
            match *payload {
                None => r matches Err(MessageError::Warn(m)) && m@
                    == "received participant message without serializedPayload"@,
                Some(p) => match read_pmd_at(
                    spec_endianness_of(p.representation_identifier.bytes@).unwrap(),
                    p.value@,
                    0,
                ) {
                    None => r matches Err(MessageError::Error(m)) && m@
                        == "failed to deserialize reseived participant data message: "@ + read_error_text(
                        ReadError::Malformed,
                    ),
                    Some(((prefix, kind, _), _)) => {
                        &&& !known ==> (r matches Err(MessageError::Warn(m)) && m@
                            == "received DATA(m) from unknown participant"@)
                        &&& known ==> (r matches Ok(u) && match liveliness_update_of(kind) {
                            Some(k) => u matches Some((g, uk)) && g.guid_prefix@ == prefix && uk == k,
                            None => u is None,
                        })
                    },
                },
            },
    {
        let p = match payload {
            Some(p) => p,
            None => {
                return Err(MessageError::Warn(String::from_str("received participant message without serializedPayload")));
            },
        };
        let e = match p.representation_identifier.endianness() {
            Some(e) => e,
            None => {
                return Err(MessageError::Error(String::from_str("unexpected encapsulation kind")));
            },
        };
        let d = match ParticipantMessageData::read_from(p.value.as_slice(), 0, e) {
            Some((d, _)) => d,
            None => {
                let mut m = String::from_str("failed to deserialize reseived participant data message: ");
                m.append(ReadError::Malformed.text().as_str());
                return Err(MessageError::Error(m));
            },
        };
        if !known {
            return Err(MessageError::Warn(String::from_str("received DATA(m) from unknown participant")));
        }
        if d.kind == ParticipantMessageKind::automatic_liveliness_update() {
            Ok(Some((d.guid_prefix, LivelinessQosKind::Automatic)))
        } else if d.kind == ParticipantMessageKind::manual_liveliness_update() {
            Ok(Some((d.guid_prefix, LivelinessQosKind::ManualByParticipant)))
        } else {
            Ok(None)
        }
    }
}

} // verus!
