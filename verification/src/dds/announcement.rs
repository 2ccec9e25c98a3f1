//! What a new participant announces of itself through SPDP: every built-in
//! endpoint it runs, its metatraffic and user-traffic locators on each of
//! its network interfaces, the shared multicast group, and its lease.
use vstd::prelude::*;
use crate::discovery::builtin_endpoint::{
    BUILTIN_ENDPOINT_PARTICIPANT_MESSAGE_DATA_READER, BUILTIN_ENDPOINT_PARTICIPANT_MESSAGE_DATA_WRITER,
    DISC_BUILTIN_ENDPOINT_PARTICIPANT_ANNOUNCER, DISC_BUILTIN_ENDPOINT_PARTICIPANT_DETECTOR,
    DISC_BUILTIN_ENDPOINT_PUBLICATIONS_ANNOUNCER, DISC_BUILTIN_ENDPOINT_PUBLICATIONS_DETECTOR,
    DISC_BUILTIN_ENDPOINT_SUBSCRIPTIONS_ANNOUNCER, DISC_BUILTIN_ENDPOINT_SUBSCRIPTIONS_DETECTOR,
};
use crate::discovery::data::{ProtocolVersion, SPDPdiscoveredParticipantData, VendorId};
use crate::message::cdr::zeros;
use crate::message::element::{ipv4_address, Locator, LOCATOR_KIND_UDPV4};
use crate::structure::duration::{duration_of, CoreDuration, Duration};
use crate::structure::guid::GUID;

verus! {

/// The built-in endpoints a participant runs: the participant,
/// publication and subscription announcers and detectors, and the
/// participant message writer and reader.
pub open spec fn all_builtin_endpoints() -> u32 {
    DISC_BUILTIN_ENDPOINT_PARTICIPANT_ANNOUNCER | DISC_BUILTIN_ENDPOINT_PARTICIPANT_DETECTOR
        | DISC_BUILTIN_ENDPOINT_PUBLICATIONS_ANNOUNCER | DISC_BUILTIN_ENDPOINT_PUBLICATIONS_DETECTOR
        | DISC_BUILTIN_ENDPOINT_SUBSCRIPTIONS_ANNOUNCER
        | DISC_BUILTIN_ENDPOINT_SUBSCRIPTIONS_DETECTOR
        | BUILTIN_ENDPOINT_PARTICIPANT_MESSAGE_DATA_WRITER
        | BUILTIN_ENDPOINT_PARTICIPANT_MESSAGE_DATA_READER
}

/// Whether `ls` holds one UDPv4 locator with port `port` for each address of
/// `addresses`, in order.
pub open spec fn locators_on(ls: Seq<Locator>, port: u32, addresses: Seq<[u8; 4]>) -> bool {
    &&& ls.len() == addresses.len()
    &&& forall|i: int|
        0 <= i < ls.len() ==> (#[trigger] ls[i]).kind == LOCATOR_KIND_UDPV4 && ls[i].port == port
            && ls[i].address@ == ipv4_address(addresses[i]@)
}

/// Whether `ls` is the one UDPv4 locator of the multicast group 239.255.0.1
/// at port `port`.
pub open spec fn group_locator(ls: Seq<Locator>, port: u32) -> bool {
    &&& ls.len() == 1
    &&& ls[0].kind == LOCATOR_KIND_UDPV4
    &&& ls[0].port == port
    &&& ls[0].address@ == ipv4_address(seq![239u8, 255u8, 0u8, 1u8])
}

/// A copy of some IPv4 addresses.
fn copy_addresses(a: &Vec<[u8; 4]>) -> (r: Vec<[u8; 4]>)
    ensures
        r@ == a@,
{
    let mut r: Vec<[u8; 4]> = Vec::new();
    let mut i: usize = 0;
    while i < a.len()
        invariant
            0 <= i <= a@.len(),
            r@ == a@.subrange(0, i as int),
        decreases a@.len() - i,
    {
        r.push(a[i]);
        i = i + 1;
        assert(r@ =~= a@.subrange(0, i as int));
    }
    r
}

/// The announcement of a participant of domain `domain_id` with GUID
/// `guid`, reachable on each of `interfaces` (none of them 0.0.0.0): all
/// built-in endpoints; metatraffic and user-traffic unicast locators on
/// every interface at the given ports; the multicast group 239.255.0.1 at
/// the given multicast ports; no inline QoS expected; a manual liveliness
/// count of zero; and the lease `lease_duration`.
pub fn own_participant_data(
    domain_id: u16,
    guid: GUID,
    protocol_version: ProtocolVersion,
    vendor_id: VendorId,
    interfaces: &Vec<[u8; 4]>,
    metatraffic_unicast_port: u32,
    metatraffic_multicast_port: u32,
    usertraffic_unicast_port: u32,
    usertraffic_multicast_port: u32,
    lease_duration: CoreDuration,
) -> (d: SPDPdiscoveredParticipantData)
    requires
        forall|i: int| 0 <= i < interfaces@.len() ==> #[trigger] interfaces@[i]@ != zeros(4),
    ensures
        d.domain_id == domain_id,
        d._domain_tag@ == "todo"@,
        d.protocol_version == protocol_version,
        d.guid == guid,
        d.vendor_id == vendor_id,
        !d.expects_inline_qos,
        d.available_builtin_endpoint == all_builtin_endpoints(),
        locators_on(d.metarraffic_unicast_locator_list@, metatraffic_unicast_port, interfaces@),
        group_locator(d.metarraffic_multicast_locator_list@, metatraffic_multicast_port),
        locators_on(d.default_unicast_locator_list@, usertraffic_unicast_port, interfaces@),
        group_locator(d.default_multicast_locator_list@, usertraffic_multicast_port),
        d.manual_liveliness_count == Some(0i32),
        d.lease_duration == duration_of(lease_duration.spec_secs(), lease_duration.spec_subsec_nanos()),
{
    let group: [u8; 4] = [239, 255, 0, 1];
    assert(group@ =~= seq![239u8, 255u8, 0u8, 1u8]);
    let endpoints: u32 = DISC_BUILTIN_ENDPOINT_PARTICIPANT_ANNOUNCER
        | DISC_BUILTIN_ENDPOINT_PARTICIPANT_DETECTOR | DISC_BUILTIN_ENDPOINT_PUBLICATIONS_ANNOUNCER
        | DISC_BUILTIN_ENDPOINT_PUBLICATIONS_DETECTOR
        | DISC_BUILTIN_ENDPOINT_SUBSCRIPTIONS_ANNOUNCER
        | DISC_BUILTIN_ENDPOINT_SUBSCRIPTIONS_DETECTOR
        | BUILTIN_ENDPOINT_PARTICIPANT_MESSAGE_DATA_WRITER
        | BUILTIN_ENDPOINT_PARTICIPANT_MESSAGE_DATA_READER;
    let meta_uni = Locator::new_list_from_multi_ipv4(metatraffic_unicast_port, copy_addresses(interfaces));
    let user_uni = Locator::new_list_from_multi_ipv4(usertraffic_unicast_port, copy_addresses(interfaces));
    let meta_multi = vec![Locator::new_from_ipv4(metatraffic_multicast_port, group)];
    let user_multi = vec![Locator::new_from_ipv4(usertraffic_multicast_port, group)];
    SPDPdiscoveredParticipantData::new(
        domain_id,
        String::from_str("todo"),
        protocol_version,
        guid,
        vendor_id,
        false,
        endpoints,
        meta_uni,
        meta_multi,
        user_uni,
        user_multi,
        Some(0),
        Duration::from_core(lease_duration),
    )
}

} // verus!
