//! What reading gives back of what a participant wrote.
use vstd::prelude::*;
use crate::discovery::data::{
    guid_octets, locator_bytes, locator_params, locator_view, locators_view, param_head,
    sdp_apply, sdp_fold, sdp_initial, spdp_bytes, spdp_head_bytes, spdp_locator_bytes,
    spdp_tail_bytes, SPDPdiscoveredParticipantData, SdpView,
};
use crate::discovery::parse::{prepend, read_value_at, sdp_items, sdp_step, LocatorView, Outcome, SdpItem};
use crate::dds::qos::wire::duration_bytes;
use crate::discovery::topic_data::{text_param_bytes, text_param_len};
use crate::message::cdr::{
    Endianness, i32_at, i32_bytes, lemma_i32_at_bytes, lemma_u16_at_bytes, lemma_u32_at_bytes,
    u16_at, u16_bytes, u32_at, u32_bytes,
};
use crate::message::element::Locator;
use crate::structure::duration::Duration;
use crate::structure::parameter_id::{
    PID_BUILTIN_ENDPOINT_SET, PID_DEFAULT_MULTICAST_LOCATOR, PID_DEFAULT_UNICAST_LOCATOR,
    PID_DOMAIN_ID, PID_EXPECTS_INLINE_QOS, PID_METATRAFFIC_MULTICAST_LOCATOR,
    PID_METATRAFFIC_UNICAST_LOCATOR, PID_PARTICIPANT_GUID, PID_PARTICIPANT_LEASE_DURATION,
    PID_PARTICIPANT_MANUAL_LIVELINESS_COUNT, PID_PROTOCOL_VERSION, PID_SENTINEL, PID_TOPIC_NAME,
    PID_TYPE_NAME, PID_VENDOR_ID,
};

verus! {

/// Whether the octets of `b` from `pos` to `end` read as the parameters
/// `items`, one step each.
pub open spec fn parses_as(e: Endianness, b: Seq<u8>, pos: int, end: int, items: Seq<SdpItem>) -> bool
    decreases items.len(),
{
    if items.len() == 0 {
        pos == end
    } else {
        match sdp_step(e, b, pos) {
            Outcome::Done(Some(item), p) => item == items[0] && pos < p && parses_as(
                e,
                b,
                p,
                end,
                items.drop_first(),
            ),
            _ => false,
        }
    }
}

pub(crate) proof fn lemma_parses_prepend(e: Endianness, b: Seq<u8>, pos: int, end: int, items: Seq<SdpItem>)
    requires
        0 <= pos,
        parses_as(e, b, pos, end, items),
    ensures
        sdp_items(e, b, pos) == prepend(items, sdp_items(e, b, end)),
    decreases items.len(),
{
    if items.len() == 0 {
        match sdp_items(e, b, end) {
            Outcome::Done(rest, q) => {
                assert(items + rest =~= rest);
            },
            _ => {},
        }
    } else {
        if let Outcome::Done(Some(item), p) = sdp_step(e, b, pos) {
            lemma_parses_prepend(e, b, p, end, items.drop_first());
            match sdp_items(e, b, end) {
                Outcome::Done(rest, q) => {
                    assert(seq![item] + (items.drop_first() + rest) =~= items + rest);
                },
                _ => {},
            }
        }
    }
}

pub(crate) proof fn lemma_parses_concat(
    e: Endianness,
    b: Seq<u8>,
    pos: int,
    mid: int,
    end: int,
    x: Seq<SdpItem>,
    y: Seq<SdpItem>,
)
    requires
        parses_as(e, b, pos, mid, x),
        parses_as(e, b, mid, end, y),
    ensures
        parses_as(e, b, pos, end, x + y),
    decreases x.len(),
{
    if x.len() == 0 {
        assert(x + y =~= y);
    } else {
        if let Outcome::Done(Some(item), p) = sdp_step(e, b, pos) {
            lemma_parses_concat(e, b, p, mid, end, x.drop_first(), y);
            assert((x + y).drop_first() =~= x.drop_first() + y);
        }
    }
}

/// A part of a part is a part.
pub(crate) proof fn lemma_sub(b: Seq<u8>, pos: int, x: Seq<u8>, i: int, j: int)
    requires
        0 <= pos,
        pos + x.len() <= b.len(),
        b.subrange(pos, pos + x.len()) == x,
        0 <= i <= j <= x.len(),
    ensures
        b.subrange(pos + i, pos + j) == x.subrange(i, j),
{
    assert(b.subrange(pos + i, pos + j) =~= x.subrange(i, j)) by {
        assert forall|k: int| 0 <= k < j - i implies b.subrange(pos + i, pos + j)[k] == x.subrange(i, j)[k] by {
            assert(b.subrange(pos, pos + x.len())[i + k] == b[pos + i + k]);
        }
    }
}

/// The head of a parameter gives its identifier and length, and its value
/// follows.
pub(crate) proof fn lemma_head(e: Endianness, b: Seq<u8>, pos: int, pid: u16, len: u16, body: Seq<u8>)
    requires
        0 <= pos,
        pos + 4 + body.len() <= b.len(),
        b.subrange(pos, pos + 4 + body.len()) == param_head(e, pid, len) + body,
    ensures
        u16_at(e, b, pos) == pid,
        u16_at(e, b, pos + 2) == len,
        b.subrange(pos + 4, pos + 4 + body.len()) == body,
{
    let x = param_head(e, pid, len) + body;
    lemma_sub(b, pos, x, 0, 2);
    assert(x.subrange(0, 2) =~= u16_bytes(e, pid));
    lemma_u16_at_bytes(e, pid, b, pos);
    lemma_sub(b, pos, x, 2, 4);
    assert(x.subrange(2, 4) =~= u16_bytes(e, len));
    lemma_u16_at_bytes(e, len, b, pos + 2);
    lemma_sub(b, pos, x, 4, x.len() as int);
    assert(x.subrange(4, x.len() as int) =~= body);
}

pub(crate) proof fn lemma_single(e: Endianness, b: Seq<u8>, pos: int, p: int, item: SdpItem)
    requires
        sdp_step(e, b, pos) == Outcome::Done(Some(item), p),
        pos < p,
    ensures
        parses_as(e, b, pos, p, seq![item]),
{
    reveal_with_fuel(parses_as, 2);
    assert(seq![item].drop_first() =~= Seq::<SdpItem>::empty());
}

/// The domain parameter reads back as the domain, written in little-endian
/// order or when it is 0.
proof fn lemma_read_domain(e: Endianness, b: Seq<u8>, pos: int, x: u16)
    requires
        0 <= pos,
        pos + 8 <= b.len(),
        b.subrange(pos, pos + 8) == param_head(e, PID_DOMAIN_ID, 4) + u32_bytes(e, x as u32),
        e == Endianness::LittleEndian || x == 0,
    ensures
        parses_as(e, b, pos, pos + 8, seq![SdpItem::DomainId(x)]),
{
    let body = u32_bytes(e, x as u32);
    lemma_head(e, b, pos, PID_DOMAIN_ID, 4, body);
    let v = pos + 4;
    assert(b[v] == body[0] && b[v + 1] == body[1]);
    let xi = x as int;
    assert(u16_at(e, b, v) == x) by {
        match e {
            Endianness::LittleEndian => {
                assert((xi % 256) + 256 * ((xi / 256) % 256) == xi) by (nonlinear_arith)
                    requires
                        0 <= xi < 0x1_0000,
                ;
            },
            Endianness::BigEndian => {},
        }
    }
    reveal(read_value_at);
    lemma_single(e, b, pos, pos + 8, SdpItem::DomainId(x));
}

/// A parameter of two octets and padding reads back as the two octets.
proof fn lemma_read_two_octets(e: Endianness, b: Seq<u8>, pos: int, pid: u16, x: u8, y: u8)
    requires
        0 <= pos,
        pos + 8 <= b.len(),
        b.subrange(pos, pos + 8) == param_head(e, pid, 4) + seq![x, y] + u16_bytes(e, 0),
        pid == PID_PROTOCOL_VERSION || pid == PID_VENDOR_ID,
    ensures
        pid == PID_PROTOCOL_VERSION ==> parses_as(
            e,
            b,
            pos,
            pos + 8,
            seq![SdpItem::ProtocolVersion(crate::discovery::data::ProtocolVersion { major: x, minor: y })],
        ),
        pid == PID_VENDOR_ID ==> parses_as(e, b, pos, pos + 8, seq![SdpItem::VendorId(seq![x, y])]),
{
    let body = seq![x, y] + u16_bytes(e, 0);
    assert(param_head(e, pid, 4) + seq![x, y] + u16_bytes(e, 0) =~= param_head(e, pid, 4) + body);
    lemma_head(e, b, pos, pid, 4, body);
    let v = pos + 4;
    assert(b[v] == body[0] && b[v + 1] == body[1]);
    assert(b.subrange(v, v + 2) =~= seq![x, y]);
    reveal(read_value_at);
    if pid == PID_PROTOCOL_VERSION {
        lemma_single(e, b, pos, pos + 8, SdpItem::ProtocolVersion(crate::discovery::data::ProtocolVersion { major: x, minor: y }));
    } else {
        lemma_single(e, b, pos, pos + 8, SdpItem::VendorId(seq![x, y]));
    }
}

/// The inline QoS parameter reads back as its flag.
pub(crate) proof fn lemma_read_flag(e: Endianness, b: Seq<u8>, pos: int, f: bool)
    requires
        0 <= pos,
        pos + 8 <= b.len(),
        b.subrange(pos, pos + 8) == param_head(e, PID_EXPECTS_INLINE_QOS, 4) + seq![if f { 1u8 } else { 0u8 }, 0u8, 0u8, 0u8],
    ensures
        parses_as(e, b, pos, pos + 8, seq![SdpItem::ExpectsInlineQos(f)]),
{
    let body = seq![if f { 1u8 } else { 0u8 }, 0u8, 0u8, 0u8];
    lemma_head(e, b, pos, PID_EXPECTS_INLINE_QOS, 4, body);
    let v = pos + 4;
    assert(b[v] == body[0]);
    reveal(read_value_at);
    lemma_single(e, b, pos, pos + 8, SdpItem::ExpectsInlineQos(f));
}

/// The GUID parameter reads back as the sixteen octets.
proof fn lemma_read_guid(e: Endianness, b: Seq<u8>, pos: int, g: Seq<u8>)
    requires
        0 <= pos,
        g.len() == 16,
        pos + 20 <= b.len(),
        b.subrange(pos, pos + 20) == param_head(e, PID_PARTICIPANT_GUID, 16) + g,
    ensures
        parses_as(e, b, pos, pos + 20, seq![SdpItem::ParticipantGuid(g)]),
{
    lemma_head(e, b, pos, PID_PARTICIPANT_GUID, 16, g);
    reveal(read_value_at);
    lemma_single(e, b, pos, pos + 20, SdpItem::ParticipantGuid(g));
}

/// The built-in endpoint set reads back as its bits.
proof fn lemma_read_builtin(e: Endianness, b: Seq<u8>, pos: int, bits: u32)
    requires
        0 <= pos,
        pos + 8 <= b.len(),
        b.subrange(pos, pos + 8) == param_head(e, PID_BUILTIN_ENDPOINT_SET, 4) + u32_bytes(e, bits),
    ensures
        parses_as(e, b, pos, pos + 8, seq![SdpItem::BuiltinEndpointSet(bits)]),
{
    lemma_head(e, b, pos, PID_BUILTIN_ENDPOINT_SET, 4, u32_bytes(e, bits));
    lemma_u32_at_bytes(e, bits, b, pos + 4);
    reveal(read_value_at);
    lemma_single(e, b, pos, pos + 8, SdpItem::BuiltinEndpointSet(bits));
}

/// The lease parameter reads back as the lease.
proof fn lemma_read_lease(e: Endianness, b: Seq<u8>, pos: int, d: Duration)
    requires
        0 <= pos,
        pos + 12 <= b.len(),
        b.subrange(pos, pos + 12) == param_head(e, PID_PARTICIPANT_LEASE_DURATION, 8) + duration_bytes(e, d),
    ensures
        parses_as(e, b, pos, pos + 12, seq![SdpItem::LeaseDuration(d)]),
{
    let body = duration_bytes(e, d);
    lemma_head(e, b, pos, PID_PARTICIPANT_LEASE_DURATION, 8, body);
    lemma_sub(b, pos + 4, body, 0, 4);
    assert(body.subrange(0, 4) =~= i32_bytes(e, d.seconds));
    lemma_i32_at_bytes(e, d.seconds, b, pos + 4);
    lemma_sub(b, pos + 4, body, 4, 8);
    assert(body.subrange(4, 8) =~= u32_bytes(e, d.fraction));
    lemma_u32_at_bytes(e, d.fraction, b, pos + 8);
    reveal(read_value_at);
    lemma_single(e, b, pos, pos + 12, SdpItem::LeaseDuration(d));
}

/// The manual liveliness count reads back as the count.
proof fn lemma_read_count(e: Endianness, b: Seq<u8>, pos: int, c: i32)
    requires
        0 <= pos,
        pos + 8 <= b.len(),
        b.subrange(pos, pos + 8) == param_head(e, PID_PARTICIPANT_MANUAL_LIVELINESS_COUNT, 4) + i32_bytes(e, c),
    ensures
        parses_as(e, b, pos, pos + 8, seq![SdpItem::ManualLivelinessCount(c)]),
{
    lemma_head(e, b, pos, PID_PARTICIPANT_MANUAL_LIVELINESS_COUNT, 4, i32_bytes(e, c));
    lemma_i32_at_bytes(e, c, b, pos + 4);
    reveal(read_value_at);
    lemma_single(e, b, pos, pos + 8, SdpItem::ManualLivelinessCount(c));
}

/// The parameter that a locator list of `pid` reads as.
pub open spec fn locator_item(pid: u16, l: LocatorView) -> SdpItem {
    if pid == PID_METATRAFFIC_UNICAST_LOCATOR {
        SdpItem::MetatrafficUnicastLocator(l)
    } else if pid == PID_METATRAFFIC_MULTICAST_LOCATOR {
        SdpItem::MetatrafficMulticastLocator(l)
    } else if pid == PID_DEFAULT_UNICAST_LOCATOR {
        SdpItem::DefaultUnicastLocator(l)
    } else {
        SdpItem::DefaultMulticastLocator(l)
    }
}

/// Whether `pid` names one of a participant's four locator lists.
pub open spec fn is_locator_pid(pid: u16) -> bool {
    pid == PID_METATRAFFIC_UNICAST_LOCATOR || pid == PID_METATRAFFIC_MULTICAST_LOCATOR || pid
        == PID_DEFAULT_UNICAST_LOCATOR || pid == PID_DEFAULT_MULTICAST_LOCATOR
}

/// A locator parameter reads back as the locator.
proof fn lemma_read_locator(e: Endianness, b: Seq<u8>, pos: int, pid: u16, l: Locator)
    requires
        0 <= pos,
        pos + 28 <= b.len(),
        b.subrange(pos, pos + 28) == param_head(e, pid, 24) + locator_bytes(e, l),
        is_locator_pid(pid),
    ensures
        parses_as(e, b, pos, pos + 28, seq![locator_item(pid, locator_view(l))]),
{
    let body = locator_bytes(e, l);
    lemma_head(e, b, pos, pid, 24, body);
    lemma_sub(b, pos + 4, body, 0, 4);
    assert(body.subrange(0, 4) =~= i32_bytes(e, l.kind));
    lemma_i32_at_bytes(e, l.kind, b, pos + 4);
    lemma_sub(b, pos + 4, body, 4, 8);
    assert(body.subrange(4, 8) =~= u32_bytes(e, l.port));
    lemma_u32_at_bytes(e, l.port, b, pos + 8);
    lemma_sub(b, pos + 4, body, 8, 24);
    assert(body.subrange(8, 24) =~= l.address@);
    reveal(read_value_at);
    lemma_single(e, b, pos, pos + 28, locator_item(pid, locator_view(l)));
}

/// The parameters a list of locators of `pid` reads as.
pub open spec fn locator_items(pid: u16, ls: Seq<Locator>) -> Seq<SdpItem> {
    ls.map_values(|l: Locator| locator_item(pid, locator_view(l)))
}

/// A list of locator parameters reads back as its locators.
proof fn lemma_read_locators(e: Endianness, b: Seq<u8>, pos: int, pid: u16, ls: Seq<Locator>)
    requires
        0 <= pos,
        pos + locator_params(e, pid, ls).len() <= b.len(),
        b.subrange(pos, pos + locator_params(e, pid, ls).len()) == locator_params(e, pid, ls),
        is_locator_pid(pid),
    ensures
        parses_as(e, b, pos, pos + locator_params(e, pid, ls).len(), locator_items(pid, ls)),
    decreases ls.len(),
{
    if ls.len() == 0 {
        assert(locator_items(pid, ls) =~= Seq::<SdpItem>::empty());
    } else {
        let all = locator_params(e, pid, ls);
        let x = locator_params(e, pid, ls.drop_last());
        let y = param_head(e, pid, 24) + locator_bytes(e, ls.last());
        assert(all =~= x + y);
        lemma_sub(b, pos, all, 0, x.len() as int);
        assert(all.subrange(0, x.len() as int) =~= x);
        lemma_read_locators(e, b, pos, pid, ls.drop_last());
        lemma_sub(b, pos, all, x.len() as int, all.len() as int);
        assert(all.subrange(x.len() as int, all.len() as int) =~= y);
        lemma_read_locator(e, b, pos + x.len(), pid, ls.last());
        lemma_parses_concat(
            e,
            b,
            pos,
            pos + x.len(),
            pos + all.len(),
            locator_items(pid, ls.drop_last()),
            seq![locator_item(pid, locator_view(ls.last()))],
        );
        assert(locator_items(pid, ls) =~= locator_items(pid, ls.drop_last()) + seq![
            locator_item(pid, locator_view(ls.last())),
        ]);
    }
}

pub(crate) proof fn lemma_fold_concat(v: SdpView, x: Seq<SdpItem>, y: Seq<SdpItem>)
    ensures
        sdp_fold(v, x + y) == sdp_fold(sdp_fold(v, x), y),
    decreases y.len(),
{
    if y.len() == 0 {
        assert(x + y =~= x);
    } else {
        assert((x + y).drop_last() =~= x + y.drop_last());
        assert((x + y).last() == y.last());
        lemma_fold_concat(v, x, y.drop_last());
    }
}

/// `v` with locators added to the list of `pid`.
pub open spec fn with_locators(v: SdpView, pid: u16, lvs: Seq<LocatorView>) -> SdpView {
    if pid == PID_METATRAFFIC_UNICAST_LOCATOR {
        SdpView { metarraffic_unicast_locator_list: v.metarraffic_unicast_locator_list + lvs, ..v }
    } else if pid == PID_METATRAFFIC_MULTICAST_LOCATOR {
        SdpView {
            metarraffic_multicast_locator_list: v.metarraffic_multicast_locator_list + lvs,
            ..v
        }
    } else if pid == PID_DEFAULT_UNICAST_LOCATOR {
        SdpView { default_unicast_locator_list: v.default_unicast_locator_list + lvs, ..v }
    } else {
        SdpView { default_multicast_locator_list: v.default_multicast_locator_list + lvs, ..v }
    }
}

proof fn lemma_fold_locators(v: SdpView, pid: u16, ls: Seq<Locator>)
    requires
        is_locator_pid(pid),
    ensures
        sdp_fold(v, locator_items(pid, ls)) == with_locators(v, pid, locators_view(ls)),
    decreases ls.len(),
{
    let lv = locators_view(ls);
    if ls.len() == 0 {
        assert(locator_items(pid, ls) =~= Seq::<SdpItem>::empty());
        assert(lv =~= Seq::<LocatorView>::empty());
        assert(v.metarraffic_unicast_locator_list + lv =~= v.metarraffic_unicast_locator_list);
        assert(v.metarraffic_multicast_locator_list + lv =~= v.metarraffic_multicast_locator_list);
        assert(v.default_unicast_locator_list + lv =~= v.default_unicast_locator_list);
        assert(v.default_multicast_locator_list + lv =~= v.default_multicast_locator_list);
    } else {
        let items = locator_items(pid, ls);
        assert(items.drop_last() =~= locator_items(pid, ls.drop_last()));
        lemma_fold_locators(v, pid, ls.drop_last());
        let a = locators_view(ls.drop_last());
        let l = locator_view(ls.last());
        assert(lv =~= a.push(l));
        assert(v.metarraffic_unicast_locator_list + a.push(l) =~= (v.metarraffic_unicast_locator_list + a).push(l));
        assert(v.metarraffic_multicast_locator_list + a.push(l) =~= (v.metarraffic_multicast_locator_list + a).push(l));
        assert(v.default_unicast_locator_list + a.push(l) =~= (v.default_unicast_locator_list + a).push(l));
        assert(v.default_multicast_locator_list + a.push(l) =~= (v.default_multicast_locator_list + a).push(l));
    }
}

/// The parameters a participant's announcement reads back as.
pub open spec fn spdp_items(d: SPDPdiscoveredParticipantData) -> Seq<SdpItem> {
    seq![
        SdpItem::DomainId(d.domain_id),
        SdpItem::ProtocolVersion(d.protocol_version),
        SdpItem::VendorId(d.vendor_id.vendor_id@),
        SdpItem::ExpectsInlineQos(d.expects_inline_qos),
        SdpItem::ParticipantGuid(guid_octets(d.guid)),
    ] + locator_items(PID_METATRAFFIC_UNICAST_LOCATOR, d.metarraffic_unicast_locator_list@)
        + locator_items(PID_METATRAFFIC_MULTICAST_LOCATOR, d.metarraffic_multicast_locator_list@)
        + locator_items(PID_DEFAULT_UNICAST_LOCATOR, d.default_unicast_locator_list@)
        + locator_items(PID_DEFAULT_MULTICAST_LOCATOR, d.default_multicast_locator_list@) + seq![
        SdpItem::BuiltinEndpointSet(d.available_builtin_endpoint),
        SdpItem::LeaseDuration(d.lease_duration),
    ] + match d.manual_liveliness_count {
        Some(c) => seq![SdpItem::ManualLivelinessCount(c)],
        None => Seq::empty(),
    }
}

/// What reading a participant's announcement holds: its domain, protocol
/// version, GUID, vendor, inline QoS flag, built-in endpoints, locators,
/// lease and manual liveliness count; nothing else.
pub open spec fn spdp_view(d: SPDPdiscoveredParticipantData) -> SdpView {
    SdpView {
        domain_id: Some(d.domain_id),
        protocol_version: Some(d.protocol_version),
        guid: Some(guid_octets(d.guid)),
        vendor_id: Some(d.vendor_id.vendor_id@),
        expects_inline_qos: Some(d.expects_inline_qos),
        available_builtin_endpoint: Some(d.available_builtin_endpoint),
        metarraffic_unicast_locator_list: locators_view(d.metarraffic_unicast_locator_list@),
        metarraffic_multicast_locator_list: locators_view(d.metarraffic_multicast_locator_list@),
        default_unicast_locator_list: locators_view(d.default_unicast_locator_list@),
        default_multicast_locator_list: locators_view(d.default_multicast_locator_list@),
        manual_liveliness_count: d.manual_liveliness_count,
        lease_duration: Some(d.lease_duration),
        ..sdp_initial()
    }
}

proof fn lemma_spdp_head_parses(e: Endianness, b: Seq<u8>, d: SPDPdiscoveredParticipantData)
    requires
        spdp_head_bytes(e, d).len() <= b.len(),
        b.subrange(0, spdp_head_bytes(e, d).len() as int) == spdp_head_bytes(e, d),
        e == Endianness::LittleEndian || d.domain_id == 0,
    ensures
        spdp_head_bytes(e, d).len() == 52,
        parses_as(e, b, 0, 52, spdp_items(d).subrange(0, 5)),
{
    let h = spdp_head_bytes(e, d);
    let v = d.vendor_id.vendor_id@;
    assert(v =~= seq![d.vendor_id.vendor_id[0], d.vendor_id.vendor_id[1]]);
    assert(h.len() == 52);
    lemma_sub(b, 0, h, 0, 8);
    assert(h.subrange(0, 8) =~= param_head(e, PID_DOMAIN_ID, 4) + u32_bytes(e, d.domain_id as u32));
    lemma_read_domain(e, b, 0, d.domain_id);
    lemma_sub(b, 0, h, 8, 16);
    assert(h.subrange(8, 16) =~= param_head(e, PID_PROTOCOL_VERSION, 4) + seq![d.protocol_version.major, d.protocol_version.minor] + u16_bytes(e, 0));
    lemma_read_two_octets(e, b, 8, PID_PROTOCOL_VERSION, d.protocol_version.major, d.protocol_version.minor);
    lemma_sub(b, 0, h, 16, 24);
    assert(h.subrange(16, 24) =~= param_head(e, PID_VENDOR_ID, 4) + seq![d.vendor_id.vendor_id[0], d.vendor_id.vendor_id[1]] + u16_bytes(e, 0));
    lemma_read_two_octets(e, b, 16, PID_VENDOR_ID, d.vendor_id.vendor_id[0], d.vendor_id.vendor_id[1]);
    lemma_sub(b, 0, h, 24, 32);
    assert(h.subrange(24, 32) =~= param_head(e, PID_EXPECTS_INLINE_QOS, 4) + seq![if d.expects_inline_qos { 1u8 } else { 0u8 }, 0u8, 0u8, 0u8]);
    lemma_read_flag(e, b, 24, d.expects_inline_qos);
    lemma_sub(b, 0, h, 32, 52);
    assert(h.subrange(32, 52) =~= param_head(e, PID_PARTICIPANT_GUID, 16) + guid_octets(d.guid));
    lemma_read_guid(e, b, 32, guid_octets(d.guid));
    let pv = SdpItem::ProtocolVersion(d.protocol_version);
    assert(d.protocol_version == crate::discovery::data::ProtocolVersion { major: d.protocol_version.major, minor: d.protocol_version.minor });
    lemma_parses_concat(e, b, 0, 8, 16, seq![SdpItem::DomainId(d.domain_id)], seq![pv]);
    assert(seq![SdpItem::DomainId(d.domain_id)] + seq![pv] =~= seq![SdpItem::DomainId(d.domain_id), pv]);
    lemma_parses_concat(e, b, 0, 16, 24, seq![SdpItem::DomainId(d.domain_id), pv], seq![SdpItem::VendorId(v)]);
    assert(seq![SdpItem::DomainId(d.domain_id), pv] + seq![SdpItem::VendorId(v)] =~= seq![SdpItem::DomainId(d.domain_id), pv, SdpItem::VendorId(v)]);
    lemma_parses_concat(e, b, 0, 24, 32, seq![SdpItem::DomainId(d.domain_id), pv, SdpItem::VendorId(v)], seq![SdpItem::ExpectsInlineQos(d.expects_inline_qos)]);
    assert(seq![SdpItem::DomainId(d.domain_id), pv, SdpItem::VendorId(v)] + seq![SdpItem::ExpectsInlineQos(d.expects_inline_qos)] =~= seq![SdpItem::DomainId(d.domain_id), pv, SdpItem::VendorId(v), SdpItem::ExpectsInlineQos(d.expects_inline_qos)]);
    lemma_parses_concat(e, b, 0, 32, 52, seq![SdpItem::DomainId(d.domain_id), pv, SdpItem::VendorId(v), SdpItem::ExpectsInlineQos(d.expects_inline_qos)], seq![SdpItem::ParticipantGuid(guid_octets(d.guid))]);
    assert(seq![SdpItem::DomainId(d.domain_id), pv, SdpItem::VendorId(v), SdpItem::ExpectsInlineQos(d.expects_inline_qos)] + seq![SdpItem::ParticipantGuid(guid_octets(d.guid))] =~= spdp_items(d).subrange(0, 5));
}

/// The items the four locator lists of a participant read as.
pub open spec fn spdp_locator_items(d: SPDPdiscoveredParticipantData) -> Seq<SdpItem> {
    locator_items(PID_METATRAFFIC_UNICAST_LOCATOR, d.metarraffic_unicast_locator_list@)
        + locator_items(PID_METATRAFFIC_MULTICAST_LOCATOR, d.metarraffic_multicast_locator_list@)
        + locator_items(PID_DEFAULT_UNICAST_LOCATOR, d.default_unicast_locator_list@)
        + locator_items(PID_DEFAULT_MULTICAST_LOCATOR, d.default_multicast_locator_list@)
}

proof fn lemma_spdp_locators_parse(e: Endianness, b: Seq<u8>, pos: int, d: SPDPdiscoveredParticipantData)
    requires
        0 <= pos,
        pos + spdp_locator_bytes(e, d).len() <= b.len(),
        b.subrange(pos, pos + spdp_locator_bytes(e, d).len()) == spdp_locator_bytes(e, d),
    ensures
        parses_as(e, b, pos, pos + spdp_locator_bytes(e, d).len(), spdp_locator_items(d)),
{
    let l = spdp_locator_bytes(e, d);
    let l1 = locator_params(e, PID_METATRAFFIC_UNICAST_LOCATOR, d.metarraffic_unicast_locator_list@);
    let l2 = locator_params(e, PID_METATRAFFIC_MULTICAST_LOCATOR, d.metarraffic_multicast_locator_list@);
    let l3 = locator_params(e, PID_DEFAULT_UNICAST_LOCATOR, d.default_unicast_locator_list@);
    let l4 = locator_params(e, PID_DEFAULT_MULTICAST_LOCATOR, d.default_multicast_locator_list@);
    let a = l1.len() as int;
    let bb = a + l2.len();
    let c = bb + l3.len();
    let n = c + l4.len();
    lemma_sub(b, pos, l, 0, a);
    assert(l.subrange(0, a) =~= l1);
    lemma_read_locators(e, b, pos, PID_METATRAFFIC_UNICAST_LOCATOR, d.metarraffic_unicast_locator_list@);
    lemma_sub(b, pos, l, a, bb);
    assert(l.subrange(a, bb) =~= l2);
    lemma_read_locators(e, b, pos + a, PID_METATRAFFIC_MULTICAST_LOCATOR, d.metarraffic_multicast_locator_list@);
    lemma_sub(b, pos, l, bb, c);
    assert(l.subrange(bb, c) =~= l3);
    lemma_read_locators(e, b, pos + bb, PID_DEFAULT_UNICAST_LOCATOR, d.default_unicast_locator_list@);
    lemma_sub(b, pos, l, c, n);
    assert(l.subrange(c, n) =~= l4);
    lemma_read_locators(e, b, pos + c, PID_DEFAULT_MULTICAST_LOCATOR, d.default_multicast_locator_list@);
    let i1 = locator_items(PID_METATRAFFIC_UNICAST_LOCATOR, d.metarraffic_unicast_locator_list@);
    let i2 = locator_items(PID_METATRAFFIC_MULTICAST_LOCATOR, d.metarraffic_multicast_locator_list@);
    let i3 = locator_items(PID_DEFAULT_UNICAST_LOCATOR, d.default_unicast_locator_list@);
    let i4 = locator_items(PID_DEFAULT_MULTICAST_LOCATOR, d.default_multicast_locator_list@);
    lemma_parses_concat(e, b, pos, pos + a, pos + bb, i1, i2);
    lemma_parses_concat(e, b, pos, pos + bb, pos + c, i1 + i2, i3);
    lemma_parses_concat(e, b, pos, pos + c, pos + n, i1 + i2 + i3, i4);
}

/// The items the last parameters of a participant (before the sentinel)
/// read as.
pub open spec fn spdp_tail_items(d: SPDPdiscoveredParticipantData) -> Seq<SdpItem> {
    seq![
        SdpItem::BuiltinEndpointSet(d.available_builtin_endpoint),
        SdpItem::LeaseDuration(d.lease_duration),
    ] + match d.manual_liveliness_count {
        Some(c) => seq![SdpItem::ManualLivelinessCount(c)],
        None => Seq::empty(),
    }
}

proof fn lemma_spdp_tail_parse(e: Endianness, b: Seq<u8>, pos: int, d: SPDPdiscoveredParticipantData)
    requires
        0 <= pos,
        pos + spdp_tail_bytes(e, d).len() <= b.len(),
        b.subrange(pos, pos + spdp_tail_bytes(e, d).len()) == spdp_tail_bytes(e, d),
    ensures
        spdp_tail_bytes(e, d).len() >= 4,
        parses_as(e, b, pos, pos + spdp_tail_bytes(e, d).len() - 4, spdp_tail_items(d)),
        sdp_step(e, b, pos + spdp_tail_bytes(e, d).len() - 4) == Outcome::<Option<SdpItem>>::Done(
            None,
            pos + spdp_tail_bytes(e, d).len(),
        ),
{
    let t = spdp_tail_bytes(e, d);
    let m = match d.manual_liveliness_count {
        Some(c) => param_head(e, PID_PARTICIPANT_MANUAL_LIVELINESS_COUNT, 4) + i32_bytes(e, c),
        None => Seq::empty(),
    };
    let k: int = 20 + m.len() as int;
    assert(t.len() == k + 4);
    lemma_sub(b, pos, t, 0, 8);
    assert(t.subrange(0, 8) =~= param_head(e, PID_BUILTIN_ENDPOINT_SET, 4) + u32_bytes(e, d.available_builtin_endpoint));
    lemma_read_builtin(e, b, pos, d.available_builtin_endpoint);
    lemma_sub(b, pos, t, 8, 20);
    assert(t.subrange(8, 20) =~= param_head(e, PID_PARTICIPANT_LEASE_DURATION, 8) + duration_bytes(e, d.lease_duration));
    lemma_read_lease(e, b, pos + 8, d.lease_duration);
    let first = seq![SdpItem::BuiltinEndpointSet(d.available_builtin_endpoint)];
    let second = seq![SdpItem::LeaseDuration(d.lease_duration)];
    lemma_parses_concat(e, b, pos, pos + 8, pos + 20, first, second);
    assert(first + second =~= seq![
        SdpItem::BuiltinEndpointSet(d.available_builtin_endpoint),
        SdpItem::LeaseDuration(d.lease_duration),
    ]);
    match d.manual_liveliness_count {
        Some(c) => {
            lemma_sub(b, pos, t, 20, 28);
            assert(t.subrange(20, 28) =~= param_head(e, PID_PARTICIPANT_MANUAL_LIVELINESS_COUNT, 4) + i32_bytes(e, c));
            lemma_read_count(e, b, pos + 20, c);
            lemma_parses_concat(e, b, pos, pos + 20, pos + 28, first + second, seq![SdpItem::ManualLivelinessCount(c)]);
        },
        None => {
            assert(first + second + Seq::<SdpItem>::empty() =~= first + second);
        },
    }
    lemma_sub(b, pos, t, k, k + 4);
    assert(t.subrange(k, k + 4) =~= param_head(e, PID_SENTINEL, 0) + Seq::<u8>::empty());
    lemma_head(e, b, pos + k, PID_SENTINEL, 0, Seq::<u8>::empty());
}

proof fn lemma_concat3(x: Seq<u8>, y: Seq<u8>, z: Seq<u8>)
    ensures
        (x + y + z).subrange(0, x.len() as int) == x,
        (x + y + z).subrange(x.len() as int, (x.len() + y.len()) as int) == y,
        (x + y + z).subrange((x.len() + y.len()) as int, (x + y + z).len() as int) == z,
{
    assert((x + y + z).subrange(0, x.len() as int) =~= x);
    assert((x + y + z).subrange(x.len() as int, (x.len() + y.len()) as int) =~= y);
    assert((x + y + z).subrange((x.len() + y.len()) as int, (x + y + z).len() as int) =~= z);
}

pub(crate) proof fn lemma_sentinel_ends(e: Endianness, b: Seq<u8>, pos: int, q: int)
    requires
        0 <= pos,
        sdp_step(e, b, pos) == Outcome::<Option<SdpItem>>::Done(None, q),
    ensures
        sdp_items(e, b, pos) == Outcome::<Seq<SdpItem>>::Done(Seq::empty(), q),
{
}

proof fn lemma_spdp_items_split(d: SPDPdiscoveredParticipantData)
    ensures
        spdp_items(d).subrange(0, 5) + spdp_locator_items(d) + spdp_tail_items(d) == spdp_items(d),
{
    assert(spdp_items(d).subrange(0, 5) + spdp_locator_items(d) + spdp_tail_items(d) =~= spdp_items(d));
}

/// Reading back what a participant announced gives its parameters, in
/// order: the domain (when written in little-endian order or when it is 0),
/// protocol version, vendor, inline QoS flag, GUID, every locator, the
/// built-in endpoints, the lease and the manual liveliness count; the
/// reading ends where the announcement ends.
pub proof fn law_spdp_read_back(e: Endianness, d: SPDPdiscoveredParticipantData)
    requires
        e == Endianness::LittleEndian || d.domain_id == 0,
    ensures
        sdp_items(e, spdp_bytes(e, d), 0) == Outcome::Done(spdp_items(d), spdp_bytes(e, d).len() as int),
{
    let h = spdp_head_bytes(e, d);
    let l = spdp_locator_bytes(e, d);
    let t = spdp_tail_bytes(e, d);
    let b = h + l + t;
    assert(b == spdp_bytes(e, d));
    let hl = h.len() as int;
    let ll = l.len() as int;
    let end = b.len() as int;
    lemma_concat3(h, l, t);
    lemma_spdp_head_parses(e, b, d);
    lemma_spdp_locators_parse(e, b, hl, d);
    lemma_spdp_tail_parse(e, b, hl + ll, d);
    lemma_parses_concat(e, b, 0, hl, hl + ll, spdp_items(d).subrange(0, 5), spdp_locator_items(d));
    lemma_parses_concat(e, b, 0, hl + ll, end - 4, spdp_items(d).subrange(0, 5) + spdp_locator_items(d), spdp_tail_items(d));
    lemma_spdp_items_split(d);
    lemma_parses_prepend(e, b, 0, end - 4, spdp_items(d));
    lemma_sentinel_ends(e, b, end - 4, end);
    assert(spdp_items(d) + Seq::<SdpItem>::empty() =~= spdp_items(d));
}

proof fn lemma_fold_head(d: SPDPdiscoveredParticipantData)
    ensures
        sdp_fold(sdp_initial(), spdp_items(d).subrange(0, 5)) == (SdpView {
            domain_id: Some(d.domain_id),
            protocol_version: Some(d.protocol_version),
            vendor_id: Some(d.vendor_id.vendor_id@),
            expects_inline_qos: Some(d.expects_inline_qos),
            guid: Some(guid_octets(d.guid)),
            ..sdp_initial()
        }),
{
    let x = spdp_items(d).subrange(0, 5);
    reveal_with_fuel(sdp_fold, 6);
    assert(x.drop_last() =~= spdp_items(d).subrange(0, 4));
    assert(x.drop_last().drop_last() =~= spdp_items(d).subrange(0, 3));
    assert(x.drop_last().drop_last().drop_last() =~= spdp_items(d).subrange(0, 2));
    assert(x.drop_last().drop_last().drop_last().drop_last() =~= spdp_items(d).subrange(0, 1));
    assert(spdp_items(d).subrange(0, 1).drop_last() =~= Seq::<SdpItem>::empty());
}

proof fn lemma_fold_tail(v: SdpView, d: SPDPdiscoveredParticipantData)
    ensures
        sdp_fold(v, spdp_tail_items(d)) == (SdpView {
            available_builtin_endpoint: Some(d.available_builtin_endpoint),
            lease_duration: Some(d.lease_duration),
            manual_liveliness_count: match d.manual_liveliness_count {
                Some(c) => Some(c),
                None => v.manual_liveliness_count,
            },
            ..v
        }),
{
    let t = spdp_tail_items(d);
    reveal_with_fuel(sdp_fold, 4);
    let two = seq![
        SdpItem::BuiltinEndpointSet(d.available_builtin_endpoint),
        SdpItem::LeaseDuration(d.lease_duration),
    ];
    assert(two.drop_last() =~= seq![SdpItem::BuiltinEndpointSet(d.available_builtin_endpoint)]);
    assert(seq![SdpItem::BuiltinEndpointSet(d.available_builtin_endpoint)].drop_last() =~= Seq::<SdpItem>::empty());
    match d.manual_liveliness_count {
        Some(c) => {
            assert(t.drop_last() =~= two);
        },
        None => {
            assert(t =~= two);
        },
    }
}

/// What reading back a participant's announcement holds: `spdp_view`.
pub proof fn law_spdp_view(d: SPDPdiscoveredParticipantData)
    ensures
        sdp_fold(sdp_initial(), spdp_items(d)) == spdp_view(d),
{
    let h = spdp_items(d).subrange(0, 5);
    let i1 = locator_items(PID_METATRAFFIC_UNICAST_LOCATOR, d.metarraffic_unicast_locator_list@);
    let i2 = locator_items(PID_METATRAFFIC_MULTICAST_LOCATOR, d.metarraffic_multicast_locator_list@);
    let i3 = locator_items(PID_DEFAULT_UNICAST_LOCATOR, d.default_unicast_locator_list@);
    let i4 = locator_items(PID_DEFAULT_MULTICAST_LOCATOR, d.default_multicast_locator_list@);
    let t = spdp_tail_items(d);
    lemma_spdp_items_split(d);
    assert(spdp_items(d) =~= h + i1 + i2 + i3 + i4 + t);
    lemma_fold_concat(sdp_initial(), h + i1 + i2 + i3 + i4, t);
    lemma_fold_concat(sdp_initial(), h + i1 + i2 + i3, i4);
    lemma_fold_concat(sdp_initial(), h + i1 + i2, i3);
    lemma_fold_concat(sdp_initial(), h + i1, i2);
    lemma_fold_concat(sdp_initial(), h, i1);
    lemma_fold_head(d);
    let v0 = sdp_fold(sdp_initial(), h);
    lemma_fold_locators(v0, PID_METATRAFFIC_UNICAST_LOCATOR, d.metarraffic_unicast_locator_list@);
    let v1 = sdp_fold(v0, i1);
    lemma_fold_locators(v1, PID_METATRAFFIC_MULTICAST_LOCATOR, d.metarraffic_multicast_locator_list@);
    let v2 = sdp_fold(v1, i2);
    lemma_fold_locators(v2, PID_DEFAULT_UNICAST_LOCATOR, d.default_unicast_locator_list@);
    let v3 = sdp_fold(v2, i3);
    lemma_fold_locators(v3, PID_DEFAULT_MULTICAST_LOCATOR, d.default_multicast_locator_list@);
    let v4 = sdp_fold(v3, i4);
    lemma_fold_tail(v4, d);
    assert(Seq::<LocatorView>::empty() + locators_view(d.metarraffic_unicast_locator_list@) =~= locators_view(d.metarraffic_unicast_locator_list@));
    assert(Seq::<LocatorView>::empty() + locators_view(d.metarraffic_multicast_locator_list@) =~= locators_view(d.metarraffic_multicast_locator_list@));
    assert(Seq::<LocatorView>::empty() + locators_view(d.default_unicast_locator_list@) =~= locators_view(d.default_unicast_locator_list@));
    assert(Seq::<LocatorView>::empty() + locators_view(d.default_multicast_locator_list@) =~= locators_view(d.default_multicast_locator_list@));
}

/// A topic or type name written as a text parameter reads back as the same
/// characters, and the reading ends where the parameter ends.
#[verifier::spinoff_prover]
#[verifier::rlimit(40)]
pub proof fn law_text_param_read_back(e: Endianness, b: Seq<u8>, pos: int, pid: u16, chars: Seq<char>)
    requires
        pid == PID_TYPE_NAME || pid == PID_TOPIC_NAME,
        0 <= pos,
        text_param_len(vstd::utf8::encode_utf8(chars).len() as int) <= u16::MAX,
        pos + text_param_bytes(e, pid, vstd::utf8::encode_utf8(chars)).len() <= b.len(),
        b.subrange(pos, pos + text_param_bytes(e, pid, vstd::utf8::encode_utf8(chars)).len())
            == text_param_bytes(e, pid, vstd::utf8::encode_utf8(chars)),
    ensures
        sdp_step(e, b, pos) == Outcome::Done(
            Some(if pid == PID_TYPE_NAME {
                SdpItem::TypeName(chars)
            } else {
                SdpItem::TopicName(chars)
            }),
            pos + text_param_bytes(e, pid, vstd::utf8::encode_utf8(chars)).len(),
        ),
{
    let s = vstd::utf8::encode_utf8(chars);
    let n = s.len() as int;
    let x = text_param_bytes(e, pid, s);
    let plen = text_param_len(n) as u16;
    let body = u32_bytes(e, (n + 1) as u32) + s + seq![0u8] + crate::message::cdr::zeros(crate::message::cdr::pad_of(n + 1));
    assert(x =~= param_head(e, pid, plen) + body);
    lemma_head(e, b, pos, pid, plen, body);
    let v = pos + 4;
    lemma_sub(b, v, body, 0, 4);
    assert(body.subrange(0, 4) =~= u32_bytes(e, (n + 1) as u32));
    lemma_u32_at_bytes(e, (n + 1) as u32, b, v);
    lemma_sub(b, v, body, 4, 4 + n);
    assert(body.subrange(4, 4 + n) =~= s);
    vstd::utf8::encode_utf8_valid_utf8(chars);
    vstd::utf8::encode_utf8_decode_utf8(chars);
    reveal(read_value_at);
}

} // verus!
