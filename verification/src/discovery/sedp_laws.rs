//! What reading gives back of what a reader or a writer announced.
use vstd::prelude::*;
use crate::discovery::data::{
    guid_octets, locator_bytes, locator_params, locator_view, locators_view, param_head, sdp_apply,
    sdp_fold, sdp_initial, opt_text, SdpView,
};
use crate::discovery::laws::{
    law_text_param_read_back, lemma_fold_concat, lemma_head, lemma_parses_concat, lemma_parses_prepend,
    lemma_read_flag, lemma_sentinel_ends, lemma_single, lemma_sub, parses_as,
};
use crate::discovery::parse::{
    read_qos_value_at, read_value_at, sdp_items, sdp_step, LocatorView, Outcome, SdpItem,
};
use crate::discovery::sedp::{
    duration_param, durability_service_param, history_param, i32_param, inline_qos_param,
    endpoint_guid_param, liveliness_param, octets_fit, reader_head_bytes, reader_qos_back,
    reader_qos_front, reliability_param, resource_limits_param, user_data_param,
    writer_head_bytes, writer_qos_back, writer_qos_front, discovered_reader_bytes,
    discovered_writer_bytes, reader_proxy_bytes, DiscoveredReaderData, DiscoveredWriterData,
};
use crate::structure::proxy::{ReaderProxy, WriterProxy};
use crate::discovery::topic_data::{opt_text_param, text_fits};
use crate::dds::qos::{DataReaderQosPolicies, DataWriterQosPolicies};
use crate::dds::qos::policy::{
    spec_octets_size, DestinationOrder, Durability, DurabilityService, History, Liveliness,
    LivelinessQosKind, Ownership, Reliability, ResourceLimits,
};
use crate::dds::qos::wire::{
    destination_order_code, duration_bytes, durability_code, durability_service_bytes,
    history_bytes, liveliness_bytes, liveliness_kind_code, octets_bytes, ownership_code,
    read_duration_at, read_durability_service_at, reliability_bytes, reliability_kind_code, resource_limits_bytes,
};
use crate::message::cdr::{
    Endianness, i32_at, i32_bytes, lemma_i32_at_bytes, lemma_u32_at_bytes, u16_at, u32_bytes,
};
use crate::structure::duration::Duration;
use crate::message::element::Locator;
use crate::structure::parameter_id::{
    PID_DEADLINE, PID_DESTINATION_ORDER, PID_DURABILITY, PID_DURABILITY_SERVICE, PID_ENDPOINT_GUID,
    PID_HISTORY, PID_LATENCY_BUDGET, PID_LIVELINESS, PID_RELIABILITY, PID_RESOURCE_LIMITS, PID_SENTINEL, PID_USER_DATA,
    PID_LIFESPAN, PID_MULTICAST_LOCATOR, PID_OWNERSHIP, PID_OWNERSHIP_STRENGTH,
    PID_TIME_BASED_FILTER, PID_TOPIC_NAME, PID_TRANSPORT_PRIORITY, PID_TYPE_MAX_SIZE_SERIALIZED,
    PID_TYPE_NAME, PID_UNICAST_LOCATOR,
};

verus! {

/// Whether the octets `x`, wherever they stand, read as the parameters
/// `items` and end where `x` ends.
pub open spec fn chunk_parses(e: Endianness, x: Seq<u8>, items: Seq<SdpItem>) -> bool {
    forall|b: Seq<u8>, pos: int|
        0 <= pos && pos + x.len() <= b.len() && b.subrange(pos, pos + x.len()) == x
            ==> #[trigger] parses_as(e, b, pos, pos + x.len(), items)
}

proof fn lemma_use_chunk(e: Endianness, x: Seq<u8>, items: Seq<SdpItem>, b: Seq<u8>, pos: int)
    requires
        chunk_parses(e, x, items),
        0 <= pos,
        pos + x.len() <= b.len(),
        b.subrange(pos, pos + x.len()) == x,
    ensures
        parses_as(e, b, pos, pos + x.len(), items),
{
}

/// Two chunks one after the other read as the parameters of the first, then
/// those of the second.
proof fn lemma_chunk_concat(e: Endianness, x: Seq<u8>, ix: Seq<SdpItem>, y: Seq<u8>, iy: Seq<SdpItem>)
    requires
        chunk_parses(e, x, ix),
        chunk_parses(e, y, iy),
    ensures
        chunk_parses(e, x + y, ix + iy),
{
    assert forall|b: Seq<u8>, pos: int|
        0 <= pos && pos + (x + y).len() <= b.len() && b.subrange(pos, pos + (x + y).len()) == x + y
        implies #[trigger] parses_as(e, b, pos, pos + (x + y).len(), ix + iy) by {
        let xy = x + y;
        lemma_sub(b, pos, xy, 0, x.len() as int);
        assert(xy.subrange(0, x.len() as int) =~= x);
        lemma_use_chunk(e, x, ix, b, pos);
        lemma_sub(b, pos, xy, x.len() as int, xy.len() as int);
        assert(xy.subrange(x.len() as int, xy.len() as int) =~= y);
        lemma_use_chunk(e, y, iy, b, pos + x.len());
        lemma_parses_concat(e, b, pos, pos + x.len(), pos + xy.len(), ix, iy);
    }
}

proof fn lemma_chunk_empty(e: Endianness)
    ensures
        chunk_parses(e, Seq::empty(), Seq::empty()),
{
}

/// The GUID of an endpoint reads back as its sixteen octets.
proof fn lemma_chunk_endpoint_guid(e: Endianness, g: Seq<u8>)
    requires
        g.len() == 16,
    ensures
        chunk_parses(e, param_head(e, PID_ENDPOINT_GUID, 16) + g, seq![SdpItem::EndpointGuid(g)]),
{
    let x = param_head(e, PID_ENDPOINT_GUID, 16) + g;
    assert forall|b: Seq<u8>, pos: int|
        0 <= pos && pos + x.len() <= b.len() && b.subrange(pos, pos + x.len()) == x
        implies #[trigger] parses_as(e, b, pos, pos + x.len(), seq![SdpItem::EndpointGuid(g)]) by {
        lemma_head(e, b, pos, PID_ENDPOINT_GUID, 16, g);
        reveal(read_value_at);
        lemma_single(e, b, pos, pos + 20, SdpItem::EndpointGuid(g));
    }
}

/// The parameter a locator of an endpoint's list `pid` reads as.
pub open spec fn endpoint_locator_item(pid: u16, l: LocatorView) -> SdpItem {
    if pid == PID_UNICAST_LOCATOR {
        SdpItem::UnicastLocator(l)
    } else {
        SdpItem::MulticastLocator(l)
    }
}

/// The parameters an endpoint's list of locators `pid` reads as.
pub open spec fn endpoint_locator_items(pid: u16, ls: Seq<Locator>) -> Seq<SdpItem> {
    ls.map_values(|l: Locator| endpoint_locator_item(pid, locator_view(l)))
}

proof fn lemma_chunk_endpoint_locator(e: Endianness, pid: u16, l: Locator)
    requires
        pid == PID_UNICAST_LOCATOR || pid == PID_MULTICAST_LOCATOR,
    ensures
        chunk_parses(e, param_head(e, pid, 24) + locator_bytes(e, l), seq![endpoint_locator_item(pid, locator_view(l))]),
{
    let body = locator_bytes(e, l);
    let x = param_head(e, pid, 24) + body;
    let item = endpoint_locator_item(pid, locator_view(l));
    assert forall|b: Seq<u8>, pos: int|
        0 <= pos && pos + x.len() <= b.len() && b.subrange(pos, pos + x.len()) == x
        implies #[trigger] parses_as(e, b, pos, pos + x.len(), seq![item]) by {
        lemma_head(e, b, pos, pid, 24, body);
        lemma_sub(b, pos + 4, body, 0, 4);
        assert(body.subrange(0, 4) =~= i32_bytes(e, l.kind));
        lemma_i32_at_bytes(e, l.kind, b, pos + 4);
        lemma_sub(b, pos + 4, body, 4, 8);
        assert(body.subrange(4, 8) =~= u32_bytes(e, l.port));
        lemma_u32_at_bytes(e, l.port, b, pos + 8);
        lemma_sub(b, pos + 4, body, 8, 24);
        assert(body.subrange(8, 24) =~= l.address@);
        reveal(read_value_at);
        lemma_single(e, b, pos, pos + 28, item);
    }
}

/// An endpoint's list of locators reads back as its locators, in order.
proof fn lemma_chunk_endpoint_locators(e: Endianness, pid: u16, ls: Seq<Locator>)
    requires
        pid == PID_UNICAST_LOCATOR || pid == PID_MULTICAST_LOCATOR,
    ensures
        chunk_parses(e, locator_params(e, pid, ls), endpoint_locator_items(pid, ls)),
    decreases ls.len(),
{
    if ls.len() == 0 {
        assert(endpoint_locator_items(pid, ls) =~= Seq::<SdpItem>::empty());
        assert(locator_params(e, pid, ls) =~= Seq::<u8>::empty());
        lemma_chunk_empty(e);
    } else {
        lemma_chunk_endpoint_locators(e, pid, ls.drop_last());
        lemma_chunk_endpoint_locator(e, pid, ls.last());
        lemma_chunk_concat(
            e,
            locator_params(e, pid, ls.drop_last()),
            endpoint_locator_items(pid, ls.drop_last()),
            param_head(e, pid, 24) + locator_bytes(e, ls.last()),
            seq![endpoint_locator_item(pid, locator_view(ls.last()))],
        );
        assert(locator_params(e, pid, ls) =~= locator_params(e, pid, ls.drop_last()) + (param_head(e, pid, 24) + locator_bytes(e, ls.last())));
        assert(endpoint_locator_items(pid, ls) =~= endpoint_locator_items(pid, ls.drop_last()) + seq![
            endpoint_locator_item(pid, locator_view(ls.last())),
        ]);
    }
}

/// The head of a parameter holding a 32-bit number, and the number.
proof fn lemma_i32_param_at(e: Endianness, b: Seq<u8>, pos: int, pid: u16, x: i32)
    requires
        0 <= pos,
        pos + 8 <= b.len(),
        b.subrange(pos, pos + 8) == i32_param(e, pid, x),
    ensures
        u16_at(e, b, pos) == pid,
        i32_at(e, b, pos + 4) == x,
{
    reveal(i32_param);
    lemma_head(e, b, pos, pid, 4, i32_bytes(e, x));
    lemma_i32_at_bytes(e, x, b, pos + 4);
}

/// The parameter a plain 32-bit number `pid` reads as.
pub open spec fn i32_item(pid: u16, x: i32) -> SdpItem {
    if pid == PID_TYPE_MAX_SIZE_SERIALIZED {
        SdpItem::TypeMaxSizeSerialized(x)
    } else if pid == PID_TRANSPORT_PRIORITY {
        SdpItem::TransportPriority(x)
    } else {
        SdpItem::OwnershipStrength(x)
    }
}

proof fn lemma_chunk_i32(e: Endianness, pid: u16, x: i32)
    requires
        pid == PID_TYPE_MAX_SIZE_SERIALIZED || pid == PID_TRANSPORT_PRIORITY || pid
            == PID_OWNERSHIP_STRENGTH,
    ensures
        chunk_parses(e, i32_param(e, pid, x), seq![i32_item(pid, x)]),
{
    reveal(i32_param);
    let p = i32_param(e, pid, x);
    assert forall|b: Seq<u8>, pos: int|
        0 <= pos && pos + p.len() <= b.len() && b.subrange(pos, pos + p.len()) == p
        implies #[trigger] parses_as(e, b, pos, pos + p.len(), seq![i32_item(pid, x)]) by {
        lemma_i32_param_at(e, b, pos, pid, x);
        reveal(read_value_at);
        reveal(read_qos_value_at);
        lemma_single(e, b, pos, pos + 8, i32_item(pid, x));
    }
}

proof fn lemma_chunk_durability(e: Endianness, d: Durability)
    ensures
        chunk_parses(e, i32_param(e, PID_DURABILITY, durability_code(d)), seq![SdpItem::Durability(d)]),
{
    reveal(i32_param);
    let p = i32_param(e, PID_DURABILITY, durability_code(d));
    assert forall|b: Seq<u8>, pos: int|
        0 <= pos && pos + p.len() <= b.len() && b.subrange(pos, pos + p.len()) == p
        implies #[trigger] parses_as(e, b, pos, pos + p.len(), seq![SdpItem::Durability(d)]) by {
        lemma_i32_param_at(e, b, pos, PID_DURABILITY, durability_code(d));
        reveal(read_value_at);
        reveal(read_qos_value_at);
        lemma_single(e, b, pos, pos + 8, SdpItem::Durability(d));
    }
}

proof fn lemma_chunk_ownership(e: Endianness, o: Ownership)
    ensures
        chunk_parses(e, i32_param(e, PID_OWNERSHIP, ownership_code(o)), seq![SdpItem::Ownership(o)]),
{
    reveal(i32_param);
    let p = i32_param(e, PID_OWNERSHIP, ownership_code(o));
    assert forall|b: Seq<u8>, pos: int|
        0 <= pos && pos + p.len() <= b.len() && b.subrange(pos, pos + p.len()) == p
        implies #[trigger] parses_as(e, b, pos, pos + p.len(), seq![SdpItem::Ownership(o)]) by {
        lemma_i32_param_at(e, b, pos, PID_OWNERSHIP, ownership_code(o));
        reveal(read_value_at);
        reveal(read_qos_value_at);
        lemma_single(e, b, pos, pos + 8, SdpItem::Ownership(o));
    }
}

proof fn lemma_chunk_destination_order(e: Endianness, o: DestinationOrder)
    ensures
        chunk_parses(
            e,
            i32_param(e, PID_DESTINATION_ORDER, destination_order_code(o)),
            seq![SdpItem::DestinationOrder(o)],
        ),
{
    reveal(i32_param);
    let p = i32_param(e, PID_DESTINATION_ORDER, destination_order_code(o));
    assert forall|b: Seq<u8>, pos: int|
        0 <= pos && pos + p.len() <= b.len() && b.subrange(pos, pos + p.len()) == p
        implies #[trigger] parses_as(e, b, pos, pos + p.len(), seq![SdpItem::DestinationOrder(o)]) by {
        lemma_i32_param_at(e, b, pos, PID_DESTINATION_ORDER, destination_order_code(o));
        reveal(read_value_at);
        reveal(read_qos_value_at);
        lemma_single(e, b, pos, pos + 8, SdpItem::DestinationOrder(o));
    }
}

/// A duration written at `v` reads back.
proof fn lemma_duration_at(e: Endianness, b: Seq<u8>, v: int, d: Duration)
    requires
        0 <= v,
        v + 8 <= b.len(),
        b.subrange(v, v + 8) == duration_bytes(e, d),
    ensures
        read_duration_at(e, b, v) == Some((d, v + 8)),
{
    let body = duration_bytes(e, d);
    lemma_sub(b, v, body, 0, 4);
    assert(body.subrange(0, 4) =~= i32_bytes(e, d.seconds));
    lemma_i32_at_bytes(e, d.seconds, b, v);
    lemma_sub(b, v, body, 4, 8);
    assert(body.subrange(4, 8) =~= u32_bytes(e, d.fraction));
    lemma_u32_at_bytes(e, d.fraction, b, v + 4);
}

/// The parameter a duration `pid` reads as.
pub open spec fn duration_item(pid: u16, d: Duration) -> SdpItem {
    if pid == PID_DEADLINE {
        SdpItem::Deadline(d)
    } else if pid == PID_LATENCY_BUDGET {
        SdpItem::LatencyBudget(d)
    } else if pid == PID_TIME_BASED_FILTER {
        SdpItem::TimeBasedFilter(d)
    } else {
        SdpItem::Lifespan(d)
    }
}

proof fn lemma_chunk_duration(e: Endianness, pid: u16, d: Duration)
    requires
        pid == PID_DEADLINE || pid == PID_LATENCY_BUDGET || pid == PID_TIME_BASED_FILTER || pid
            == PID_LIFESPAN,
    ensures
        chunk_parses(e, duration_param(e, pid, d), seq![duration_item(pid, d)]),
{
    reveal(duration_param);
    let p = duration_param(e, pid, d);
    assert forall|b: Seq<u8>, pos: int|
        0 <= pos && pos + p.len() <= b.len() && b.subrange(pos, pos + p.len()) == p
        implies #[trigger] parses_as(e, b, pos, pos + p.len(), seq![duration_item(pid, d)]) by {
        lemma_head(e, b, pos, pid, 8, duration_bytes(e, d));
        lemma_duration_at(e, b, pos + 4, d);
        reveal(read_value_at);
        reveal(read_qos_value_at);
        lemma_single(e, b, pos, pos + 12, duration_item(pid, d));
    }
}

/// What a liveliness written as `l` reads back as: the same lease, and the
/// kind as its number reads, by-participant and by-topic trading places.
pub open spec fn liveliness_as_read(l: Liveliness) -> Liveliness {
    Liveliness {
        kind: match l.kind {
            LivelinessQosKind::Automatic => LivelinessQosKind::Automatic,
            LivelinessQosKind::ManualByParticipant => LivelinessQosKind::ManualByTopic,
            LivelinessQosKind::ManualByTopic => LivelinessQosKind::ManualByParticipant,
        },
        lease_duration: l.lease_duration,
    }
}

proof fn lemma_chunk_liveliness(e: Endianness, l: Liveliness)
    ensures
        chunk_parses(e, liveliness_param(e, l), seq![SdpItem::Liveliness(liveliness_as_read(l))]),
{
    reveal(liveliness_param);
    let p = liveliness_param(e, l);
    let item = SdpItem::Liveliness(liveliness_as_read(l));
    let body = liveliness_bytes(e, l);
    assert forall|b: Seq<u8>, pos: int|
        0 <= pos && pos + p.len() <= b.len() && b.subrange(pos, pos + p.len()) == p
        implies #[trigger] parses_as(e, b, pos, pos + p.len(), seq![item]) by {
        lemma_head(e, b, pos, PID_LIVELINESS, 12, body);
        lemma_sub(b, pos + 4, body, 0, 4);
        assert(body.subrange(0, 4) =~= i32_bytes(e, liveliness_kind_code(l.kind)));
        lemma_i32_at_bytes(e, liveliness_kind_code(l.kind), b, pos + 4);
        lemma_sub(b, pos + 4, body, 4, 12);
        assert(body.subrange(4, 12) =~= duration_bytes(e, l.lease_duration));
        lemma_duration_at(e, b, pos + 8, l.lease_duration);
        reveal(read_value_at);
        reveal(read_qos_value_at);
        lemma_single(e, b, pos, pos + 16, item);
    }
}

proof fn lemma_chunk_reliability(e: Endianness, r: Reliability)
    ensures
        chunk_parses(e, reliability_param(e, r), seq![SdpItem::Reliability(r)]),
{
    reveal(reliability_param);
    let p = reliability_param(e, r);
    let item = SdpItem::Reliability(r);
    let body = reliability_bytes(e, r);
    assert forall|b: Seq<u8>, pos: int|
        0 <= pos && pos + p.len() <= b.len() && b.subrange(pos, pos + p.len()) == p
        implies #[trigger] parses_as(e, b, pos, pos + p.len(), seq![item]) by {
        lemma_head(e, b, pos, PID_RELIABILITY, 12, body);
        lemma_sub(b, pos + 4, body, 0, 4);
        assert(body.subrange(0, 4) =~= i32_bytes(e, reliability_kind_code(r.kind)));
        lemma_i32_at_bytes(e, reliability_kind_code(r.kind), b, pos + 4);
        lemma_sub(b, pos + 4, body, 4, 12);
        assert(body.subrange(4, 12) =~= duration_bytes(e, r.max_bloking_time));
        lemma_duration_at(e, b, pos + 8, r.max_bloking_time);
        reveal(read_value_at);
        reveal(read_qos_value_at);
        lemma_single(e, b, pos, pos + 16, item);
    }
}

proof fn lemma_chunk_history(e: Endianness, h: History)
    ensures
        chunk_parses(e, history_param(e, h), seq![SdpItem::History(h)]),
{
    reveal(history_param);
    let p = history_param(e, h);
    let item = SdpItem::History(h);
    let body = history_bytes(e, h);
    assert forall|b: Seq<u8>, pos: int|
        0 <= pos && pos + p.len() <= b.len() && b.subrange(pos, pos + p.len()) == p
        implies #[trigger] parses_as(e, b, pos, pos + p.len(), seq![item]) by {
        lemma_head(e, b, pos, PID_HISTORY, 8, body);
        lemma_sub(b, pos + 4, body, 0, 4);
        assert(body.subrange(0, 4) =~= i32_bytes(e, h.kind.spec_code()));
        lemma_i32_at_bytes(e, h.kind.spec_code(), b, pos + 4);
        lemma_sub(b, pos + 4, body, 4, 8);
        assert(body.subrange(4, 8) =~= i32_bytes(e, h.depth));
        lemma_i32_at_bytes(e, h.depth, b, pos + 8);
        reveal(read_value_at);
        reveal(read_qos_value_at);
        lemma_single(e, b, pos, pos + 12, item);
    }
}

proof fn lemma_chunk_resource_limits(e: Endianness, r: ResourceLimits)
    ensures
        chunk_parses(e, resource_limits_param(e, r), seq![SdpItem::ResourceLimits(r)]),
{
    reveal(resource_limits_param);
    let p = resource_limits_param(e, r);
    let item = SdpItem::ResourceLimits(r);
    let body = resource_limits_bytes(e, r);
    assert forall|b: Seq<u8>, pos: int|
        0 <= pos && pos + p.len() <= b.len() && b.subrange(pos, pos + p.len()) == p
        implies #[trigger] parses_as(e, b, pos, pos + p.len(), seq![item]) by {
        lemma_head(e, b, pos, PID_RESOURCE_LIMITS, 12, body);
        lemma_sub(b, pos + 4, body, 0, 4);
        assert(body.subrange(0, 4) =~= i32_bytes(e, r.max_samples));
        lemma_i32_at_bytes(e, r.max_samples, b, pos + 4);
        lemma_sub(b, pos + 4, body, 4, 8);
        assert(body.subrange(4, 8) =~= i32_bytes(e, r.max_instance));
        lemma_i32_at_bytes(e, r.max_instance, b, pos + 8);
        lemma_sub(b, pos + 4, body, 8, 12);
        assert(body.subrange(8, 12) =~= i32_bytes(e, r.max_samples_per_instanse));
        lemma_i32_at_bytes(e, r.max_samples_per_instanse, b, pos + 12);
        reveal(read_value_at);
        reveal(read_qos_value_at);
        lemma_single(e, b, pos, pos + 16, item);
    }
}

/// Octets that read as `x` then `y` read as `x`, and after it as `y`.
proof fn lemma_split(b: Seq<u8>, v: int, x: Seq<u8>, y: Seq<u8>)
    requires
        0 <= v,
        v + x.len() + y.len() <= b.len(),
        b.subrange(v, v + x.len() + y.len()) == x + y,
    ensures
        b.subrange(v, v + x.len()) == x,
        b.subrange(v + x.len(), v + x.len() + y.len()) == y,
{
    lemma_sub(b, v, x + y, 0, x.len() as int);
    assert((x + y).subrange(0, x.len() as int) =~= x);
    lemma_sub(b, v, x + y, x.len() as int, (x.len() + y.len()) as int);
    assert((x + y).subrange(x.len() as int, (x.len() + y.len()) as int) =~= y);
}

/// A durability service written at `v` reads back.
proof fn lemma_durability_service_at(e: Endianness, b: Seq<u8>, v: int, d: DurabilityService)
    requires
        0 <= v,
        v + 28 <= b.len(),
        b.subrange(v, v + 28) == durability_service_bytes(e, d),
    ensures
        read_durability_service_at(e, b, v) == Some((d, v + 28)),
{
    let head = duration_bytes(e, d.service_cleanup_delay);
    let k = i32_bytes(e, d.history_kind.spec_code());
    let t0 = i32_bytes(e, d.history_depth);
    let t1 = i32_bytes(e, d.max_samples);
    let t2 = i32_bytes(e, d.max_instance);
    let t3 = i32_bytes(e, d.max_samples_per_instanse);
    lemma_split(b, v, head + k + t0 + t1 + t2, t3);
    lemma_split(b, v, head + k + t0 + t1, t2);
    lemma_split(b, v, head + k + t0, t1);
    lemma_split(b, v, head + k, t0);
    lemma_split(b, v, head, k);
    lemma_duration_at(e, b, v, d.service_cleanup_delay);
    lemma_i32_at_bytes(e, d.history_kind.spec_code(), b, v + 8);
    lemma_i32_at_bytes(e, d.history_depth, b, v + 12);
    lemma_i32_at_bytes(e, d.max_samples, b, v + 16);
    lemma_i32_at_bytes(e, d.max_instance, b, v + 20);
    lemma_i32_at_bytes(e, d.max_samples_per_instanse, b, v + 24);
    lemma_durability_service_fields(e, b, v, d);
}

proof fn lemma_durability_service_fields(e: Endianness, b: Seq<u8>, v: int, d: DurabilityService)
    requires
        0 <= v,
        v + 28 <= b.len(),
        read_duration_at(e, b, v) == Some((d.service_cleanup_delay, v + 8)),
        i32_at(e, b, v + 8) == d.history_kind.spec_code(),
        i32_at(e, b, v + 12) == d.history_depth,
        i32_at(e, b, v + 16) == d.max_samples,
        i32_at(e, b, v + 20) == d.max_instance,
        i32_at(e, b, v + 24) == d.max_samples_per_instanse,
    ensures
        read_durability_service_at(e, b, v) == Some((d, v + 28)),
{
}

proof fn lemma_chunk_durability_service(e: Endianness, d: DurabilityService)
    ensures
        chunk_parses(e, durability_service_param(e, d), seq![SdpItem::DurabilityService(d)]),
{
    reveal(durability_service_param);
    let p = durability_service_param(e, d);
    let item = SdpItem::DurabilityService(d);
    let body = durability_service_bytes(e, d);
    assert forall|b: Seq<u8>, pos: int|
        0 <= pos && pos + p.len() <= b.len() && b.subrange(pos, pos + p.len()) == p
        implies #[trigger] parses_as(e, b, pos, pos + p.len(), seq![item]) by {
        lemma_head(e, b, pos, PID_DURABILITY_SERVICE, 28, body);
        lemma_durability_service_at(e, b, pos + 4, d);
        reveal(read_value_at);
        reveal(read_qos_value_at);
        lemma_single(e, b, pos, pos + 32, item);
    }
}

proof fn lemma_chunk_user_data(e: Endianness, u: Seq<u8>)
    requires
        octets_fit(u),
    ensures
        chunk_parses(e, user_data_param(e, u), seq![SdpItem::UserData(u)]),
{
    reveal(user_data_param);
    let p = user_data_param(e, u);
    let item = SdpItem::UserData(u);
    let body = octets_bytes(e, u);
    let n = u.len() as int;
    assert forall|b: Seq<u8>, pos: int|
        0 <= pos && pos + p.len() <= b.len() && b.subrange(pos, pos + p.len()) == p
        implies #[trigger] parses_as(e, b, pos, pos + p.len(), seq![item]) by {
        let v = pos + 4;
        lemma_head(e, b, pos, PID_USER_DATA, spec_octets_size(n) as u16, body);
        lemma_sub(b, v, body, 0, 4);
        assert(body.subrange(0, 4) =~= u32_bytes(e, n as u32));
        lemma_u32_at_bytes(e, n as u32, b, v);
        lemma_sub(b, v, body, 4, 4 + n);
        assert(body.subrange(4, 4 + n) =~= u);
        reveal(read_value_at);
        reveal(read_qos_value_at);
        lemma_single(e, b, pos, pos + p.len(), item);
    }
}

proof fn lemma_chunk_flag(e: Endianness, f: bool)
    ensures
        chunk_parses(e, inline_qos_param(e, f), seq![SdpItem::ExpectsInlineQos(f)]),
{
    reveal(inline_qos_param);
    let p = inline_qos_param(e, f);
    assert forall|b: Seq<u8>, pos: int|
        0 <= pos && pos + p.len() <= b.len() && b.subrange(pos, pos + p.len()) == p
        implies #[trigger] parses_as(e, b, pos, pos + p.len(), seq![SdpItem::ExpectsInlineQos(f)]) by {
        lemma_read_flag(e, b, pos, f);
    }
}

/// The parameters an optional type or topic name reads as.
pub open spec fn name_items(pid: u16, s: Option<String>) -> Seq<SdpItem> {
    match s {
        Some(t) => seq![
            if pid == PID_TYPE_NAME {
                SdpItem::TypeName(t@)
            } else {
                SdpItem::TopicName(t@)
            },
        ],
        None => Seq::empty(),
    }
}

proof fn lemma_chunk_name(e: Endianness, pid: u16, s: Option<String>)
    requires
        pid == PID_TYPE_NAME || pid == PID_TOPIC_NAME,
        text_fits(s),
    ensures
        chunk_parses(e, opt_text_param(e, pid, s), name_items(pid, s)),
{
    match s {
        Some(t) => {
            let p = opt_text_param(e, pid, s);
            let item = if pid == PID_TYPE_NAME {
                SdpItem::TypeName(t@)
            } else {
                SdpItem::TopicName(t@)
            };
            assert forall|b: Seq<u8>, pos: int|
                0 <= pos && pos + p.len() <= b.len() && b.subrange(pos, pos + p.len()) == p
                implies #[trigger] parses_as(e, b, pos, pos + p.len(), name_items(pid, s)) by {
                law_text_param_read_back(e, b, pos, pid, t@);
                lemma_single(e, b, pos, pos + p.len(), item);
            }
        },
        None => {
            lemma_chunk_empty(e);
        },
    }
}

/// The parameters a reader's QoS reads as, in the order they are written.
pub open spec fn reader_qos_items(q: DataReaderQosPolicies) -> Seq<SdpItem> {
    seq![
        SdpItem::Durability(q.durability.0),
        SdpItem::Deadline(q.deadline.0.period),
        SdpItem::LatencyBudget(q.latency_budget.0.0),
        SdpItem::Liveliness(liveliness_as_read(q.liveliness.0)),
        SdpItem::Reliability(q.reliability.0),
        SdpItem::DestinationOrder(q.destination_order.0),
        SdpItem::History(q.history.0),
        SdpItem::ResourceLimits(q.resource_limits.0),
        SdpItem::UserData(q.user_data.0.value@),
        SdpItem::Ownership(q.ownership.0),
        SdpItem::TimeBasedFilter(q.time_based_filter.0.minimun_separation),
    ]
}

proof fn lemma_chunk_reader_qos(e: Endianness, q: DataReaderQosPolicies)
    requires
        octets_fit(q.user_data.0.value@),
    ensures
        chunk_parses(e, reader_qos_front(e, q) + reader_qos_back(e, q), reader_qos_items(q)),
{
    lemma_chunk_durability(e, q.durability.0);
    lemma_chunk_duration(e, PID_DEADLINE, q.deadline.0.period);
    lemma_chunk_duration(e, PID_LATENCY_BUDGET, q.latency_budget.0.0);
    lemma_chunk_liveliness(e, q.liveliness.0);
    lemma_chunk_reliability(e, q.reliability.0);
    lemma_chunk_destination_order(e, q.destination_order.0);
    lemma_chunk_history(e, q.history.0);
    lemma_chunk_resource_limits(e, q.resource_limits.0);
    lemma_chunk_user_data(e, q.user_data.0.value@);
    lemma_chunk_ownership(e, q.ownership.0);
    lemma_chunk_duration(e, PID_TIME_BASED_FILTER, q.time_based_filter.0.minimun_separation);
    let b0 = i32_param(e, PID_DURABILITY, durability_code(q.durability.0));
    let b1 = duration_param(e, PID_DEADLINE, q.deadline.0.period);
    let b2 = duration_param(e, PID_LATENCY_BUDGET, q.latency_budget.0.0);
    let b3 = liveliness_param(e, q.liveliness.0);
    let b4 = reliability_param(e, q.reliability.0);
    let b5 = i32_param(e, PID_DESTINATION_ORDER, destination_order_code(q.destination_order.0));
    let b6 = history_param(e, q.history.0);
    let b7 = resource_limits_param(e, q.resource_limits.0);
    let b8 = user_data_param(e, q.user_data.0.value@);
    let b9 = i32_param(e, PID_OWNERSHIP, ownership_code(q.ownership.0));
    let b10 = duration_param(e, PID_TIME_BASED_FILTER, q.time_based_filter.0.minimun_separation);
    let it = reader_qos_items(q);
    lemma_chunk_concat(e, b0, seq![it[0]], b1, seq![it[1]]);
    lemma_chunk_concat(e, b0 + b1, seq![it[0]] + seq![it[1]], b2, seq![it[2]]);
    lemma_chunk_concat(e, b0 + b1 + b2, seq![it[0]] + seq![it[1]] + seq![it[2]], b3, seq![it[3]]);
    let f4 = seq![it[0]] + seq![it[1]] + seq![it[2]] + seq![it[3]];
    lemma_chunk_concat(e, b0 + b1 + b2 + b3, f4, b4, seq![it[4]]);
    lemma_chunk_concat(e, b0 + b1 + b2 + b3 + b4, f4 + seq![it[4]], b5, seq![it[5]]);
    let front = b0 + b1 + b2 + b3 + b4 + b5;
    let fi = f4 + seq![it[4]] + seq![it[5]];
    assert(front == reader_qos_front(e, q));
    lemma_chunk_concat(e, b6, seq![it[6]], b7, seq![it[7]]);
    lemma_chunk_concat(e, b6 + b7, seq![it[6]] + seq![it[7]], b8, seq![it[8]]);
    lemma_chunk_concat(e, b6 + b7 + b8, seq![it[6]] + seq![it[7]] + seq![it[8]], b9, seq![it[9]]);
    let g4 = seq![it[6]] + seq![it[7]] + seq![it[8]] + seq![it[9]];
    lemma_chunk_concat(e, b6 + b7 + b8 + b9, g4, b10, seq![it[10]]);
    let back = b6 + b7 + b8 + b9 + b10;
    assert(back == reader_qos_back(e, q));
    lemma_chunk_concat(e, front, fi, back, g4 + seq![it[10]]);
    assert(fi + (g4 + seq![it[10]]) =~= it);
}

/// The parameters a writer's QoS reads as, in the order they are written.
pub open spec fn writer_qos_items(q: DataWriterQosPolicies) -> Seq<SdpItem> {
    seq![
        SdpItem::Durability(q.durability.0),
        SdpItem::DurabilityService(q.durability_service.0),
        SdpItem::Deadline(q.deadline.0.period),
        SdpItem::LatencyBudget(q.latency_budget.0.0),
        SdpItem::Liveliness(liveliness_as_read(q.liveliness.0)),
        SdpItem::Reliability(q.reliability.0),
        SdpItem::DestinationOrder(q.destination_order.0),
        SdpItem::History(q.history.0),
        SdpItem::ResourceLimits(q.resource_limits.0),
        SdpItem::TransportPriority(q.transport_priority.0.value),
        SdpItem::Lifespan(q.lifespan.0.0),
        SdpItem::UserData(q.user_data.0.value@),
        SdpItem::Ownership(q.ownership.0),
        SdpItem::OwnershipStrength(q.ownership_strength.0.0),
    ]
}

proof fn lemma_chunk_writer_qos_front(e: Endianness, q: DataWriterQosPolicies)
    ensures
        chunk_parses(e, writer_qos_front(e, q), writer_qos_items(q).subrange(0, 7)),
{
    lemma_chunk_durability(e, q.durability.0);
    lemma_chunk_durability_service(e, q.durability_service.0);
    lemma_chunk_duration(e, PID_DEADLINE, q.deadline.0.period);
    lemma_chunk_duration(e, PID_LATENCY_BUDGET, q.latency_budget.0.0);
    lemma_chunk_liveliness(e, q.liveliness.0);
    lemma_chunk_reliability(e, q.reliability.0);
    lemma_chunk_destination_order(e, q.destination_order.0);
    let b0 = i32_param(e, PID_DURABILITY, durability_code(q.durability.0));
    let b1 = durability_service_param(e, q.durability_service.0);
    let b2 = duration_param(e, PID_DEADLINE, q.deadline.0.period);
    let b3 = duration_param(e, PID_LATENCY_BUDGET, q.latency_budget.0.0);
    let b4 = liveliness_param(e, q.liveliness.0);
    let b5 = reliability_param(e, q.reliability.0);
    let b6 = i32_param(e, PID_DESTINATION_ORDER, destination_order_code(q.destination_order.0));
    let it = writer_qos_items(q);
    lemma_chunk_concat(e, b0, seq![it[0]], b1, seq![it[1]]);
    lemma_chunk_concat(e, b0 + b1, seq![it[0]] + seq![it[1]], b2, seq![it[2]]);
    lemma_chunk_concat(e, b0 + b1 + b2, seq![it[0]] + seq![it[1]] + seq![it[2]], b3, seq![it[3]]);
    let f4 = seq![it[0]] + seq![it[1]] + seq![it[2]] + seq![it[3]];
    lemma_chunk_concat(e, b0 + b1 + b2 + b3, f4, b4, seq![it[4]]);
    lemma_chunk_concat(e, b0 + b1 + b2 + b3 + b4, f4 + seq![it[4]], b5, seq![it[5]]);
    lemma_chunk_concat(e, b0 + b1 + b2 + b3 + b4 + b5, f4 + seq![it[4]] + seq![it[5]], b6, seq![it[6]]);
    assert(f4 + seq![it[4]] + seq![it[5]] + seq![it[6]] =~= it.subrange(0, 7));
}

proof fn lemma_chunk_writer_qos_back(e: Endianness, q: DataWriterQosPolicies)
    requires
        octets_fit(q.user_data.0.value@),
    ensures
        chunk_parses(e, writer_qos_back(e, q), writer_qos_items(q).subrange(7, 14)),
{
    lemma_chunk_history(e, q.history.0);
    lemma_chunk_resource_limits(e, q.resource_limits.0);
    lemma_chunk_i32(e, PID_TRANSPORT_PRIORITY, q.transport_priority.0.value);
    lemma_chunk_duration(e, PID_LIFESPAN, q.lifespan.0.0);
    lemma_chunk_user_data(e, q.user_data.0.value@);
    lemma_chunk_ownership(e, q.ownership.0);
    lemma_chunk_i32(e, PID_OWNERSHIP_STRENGTH, q.ownership_strength.0.0);
    let b0 = history_param(e, q.history.0);
    let b1 = resource_limits_param(e, q.resource_limits.0);
    let b2 = i32_param(e, PID_TRANSPORT_PRIORITY, q.transport_priority.0.value);
    let b3 = duration_param(e, PID_LIFESPAN, q.lifespan.0.0);
    let b4 = user_data_param(e, q.user_data.0.value@);
    let b5 = i32_param(e, PID_OWNERSHIP, ownership_code(q.ownership.0));
    let b6 = i32_param(e, PID_OWNERSHIP_STRENGTH, q.ownership_strength.0.0);
    let it = writer_qos_items(q);
    lemma_chunk_concat(e, b0, seq![it[7]], b1, seq![it[8]]);
    lemma_chunk_concat(e, b0 + b1, seq![it[7]] + seq![it[8]], b2, seq![it[9]]);
    lemma_chunk_concat(e, b0 + b1 + b2, seq![it[7]] + seq![it[8]] + seq![it[9]], b3, seq![it[10]]);
    let f4 = seq![it[7]] + seq![it[8]] + seq![it[9]] + seq![it[10]];
    lemma_chunk_concat(e, b0 + b1 + b2 + b3, f4, b4, seq![it[11]]);
    lemma_chunk_concat(e, b0 + b1 + b2 + b3 + b4, f4 + seq![it[11]], b5, seq![it[12]]);
    lemma_chunk_concat(e, b0 + b1 + b2 + b3 + b4 + b5, f4 + seq![it[11]] + seq![it[12]], b6, seq![it[13]]);
    assert(f4 + seq![it[11]] + seq![it[12]] + seq![it[13]] =~= it.subrange(7, 14));
}

/// The parameters a reader's GUID, inline QoS flag and locators read as.
pub open spec fn reader_head_items(p: ReaderProxy) -> Seq<SdpItem> {
    seq![
        SdpItem::EndpointGuid(guid_octets(p.remote_reader_guid)),
        SdpItem::ExpectsInlineQos(p.expects_inline_qos),
    ] + endpoint_locator_items(PID_UNICAST_LOCATOR, p.unicast_locator_list@)
        + endpoint_locator_items(PID_MULTICAST_LOCATOR, p.multicast_locator_list@)
}

/// The parameters a writer's GUID, locators and largest serialized size read
/// as.
pub open spec fn writer_head_items(p: WriterProxy) -> Seq<SdpItem> {
    seq![SdpItem::EndpointGuid(guid_octets(p.remote_writer_guid))]
        + endpoint_locator_items(PID_UNICAST_LOCATOR, p.unicast_locator_list@)
        + endpoint_locator_items(PID_MULTICAST_LOCATOR, p.multicast_locator_list@) + seq![
        SdpItem::TypeMaxSizeSerialized(p.data_max_size_serialized),
    ]
}

proof fn lemma_chunk_reader_head(e: Endianness, p: ReaderProxy)
    ensures
        chunk_parses(e, reader_head_bytes(e, p), reader_head_items(p)),
{
    let g = guid_octets(p.remote_reader_guid);
    reveal(endpoint_guid_param);
    lemma_chunk_endpoint_guid(e, g);
    lemma_chunk_flag(e, p.expects_inline_qos);
    lemma_chunk_endpoint_locators(e, PID_UNICAST_LOCATOR, p.unicast_locator_list@);
    lemma_chunk_endpoint_locators(e, PID_MULTICAST_LOCATOR, p.multicast_locator_list@);
    let b0 = endpoint_guid_param(e, p.remote_reader_guid);
    let b1 = inline_qos_param(e, p.expects_inline_qos);
    let b2 = locator_params(e, PID_UNICAST_LOCATOR, p.unicast_locator_list@);
    let b3 = locator_params(e, PID_MULTICAST_LOCATOR, p.multicast_locator_list@);
    let i0 = seq![SdpItem::EndpointGuid(g)];
    let i1 = seq![SdpItem::ExpectsInlineQos(p.expects_inline_qos)];
    let i2 = endpoint_locator_items(PID_UNICAST_LOCATOR, p.unicast_locator_list@);
    let i3 = endpoint_locator_items(PID_MULTICAST_LOCATOR, p.multicast_locator_list@);
    lemma_chunk_concat(e, b0, i0, b1, i1);
    lemma_chunk_concat(e, b0 + b1, i0 + i1, b2, i2);
    lemma_chunk_concat(e, b0 + b1 + b2, i0 + i1 + i2, b3, i3);
    assert(i0 + i1 =~= seq![
        SdpItem::EndpointGuid(g),
        SdpItem::ExpectsInlineQos(p.expects_inline_qos),
    ]);
}

proof fn lemma_chunk_writer_head(e: Endianness, p: WriterProxy)
    ensures
        chunk_parses(e, writer_head_bytes(e, p), writer_head_items(p)),
{
    let g = guid_octets(p.remote_writer_guid);
    reveal(endpoint_guid_param);
    lemma_chunk_endpoint_guid(e, g);
    lemma_chunk_endpoint_locators(e, PID_UNICAST_LOCATOR, p.unicast_locator_list@);
    lemma_chunk_endpoint_locators(e, PID_MULTICAST_LOCATOR, p.multicast_locator_list@);
    lemma_chunk_i32(e, PID_TYPE_MAX_SIZE_SERIALIZED, p.data_max_size_serialized);
    let b0 = endpoint_guid_param(e, p.remote_writer_guid);
    let b1 = locator_params(e, PID_UNICAST_LOCATOR, p.unicast_locator_list@);
    let b2 = locator_params(e, PID_MULTICAST_LOCATOR, p.multicast_locator_list@);
    let b3 = i32_param(e, PID_TYPE_MAX_SIZE_SERIALIZED, p.data_max_size_serialized);
    let i0 = seq![SdpItem::EndpointGuid(g)];
    let i1 = endpoint_locator_items(PID_UNICAST_LOCATOR, p.unicast_locator_list@);
    let i2 = endpoint_locator_items(PID_MULTICAST_LOCATOR, p.multicast_locator_list@);
    let i3 = seq![SdpItem::TypeMaxSizeSerialized(p.data_max_size_serialized)];
    lemma_chunk_concat(e, b0, i0, b1, i1);
    lemma_chunk_concat(e, b0 + b1, i0 + i1, b2, i2);
    lemma_chunk_concat(e, b0 + b1 + b2, i0 + i1 + i2, b3, i3);
}

proof fn lemma_assoc(x: Seq<u8>, y: Seq<u8>, z: Seq<u8>)
    ensures
        x + (y + z) == x + y + z,
{
    assert(x + (y + z) =~= x + y + z);
}

/// Parameters followed by the sentinel read as those parameters, and the
/// reading ends where the sentinel ends.
proof fn lemma_read_to_sentinel(e: Endianness, body: Seq<u8>, items: Seq<SdpItem>)
    requires
        chunk_parses(e, body, items),
    ensures
        sdp_items(e, body + param_head(e, PID_SENTINEL, 0), 0) == Outcome::Done(
            items,
            (body.len() + 4) as int,
        ),
{
    let tail = param_head(e, PID_SENTINEL, 0);
    let b = body + tail;
    let n = body.len() as int;
    assert(tail.len() == 4);
    assert(b.subrange(0, b.len() as int) =~= b);
    lemma_split(b, 0, body, tail);
    lemma_use_chunk(e, body, items, b, 0);
    assert(tail + Seq::<u8>::empty() =~= tail);
    lemma_head(e, b, n, PID_SENTINEL, 0, Seq::<u8>::empty());
    assert(sdp_step(e, b, n) == Outcome::<Option<SdpItem>>::Done(None, n + 4));
    lemma_parses_prepend(e, b, 0, n, items);
    lemma_sentinel_ends(e, b, n, n + 4);
    assert(items + Seq::<SdpItem>::empty() =~= items);
}

/// The parameters a reader's announcement reads back as.
pub open spec fn discovered_reader_items(d: DiscoveredReaderData) -> Seq<SdpItem> {
    reader_head_items(d.proxy) + reader_qos_items(d.proxy.qos) + name_items(
        PID_TYPE_NAME,
        d.builtin_topic_data.data_type_name,
    ) + name_items(PID_TOPIC_NAME, d.builtin_topic_data.topic_name)
}

/// The parameters a writer's announcement reads back as.
pub open spec fn discovered_writer_items(d: DiscoveredWriterData) -> Seq<SdpItem> {
    writer_head_items(d.proxy) + writer_qos_items(d.proxy.qos) + name_items(
        PID_TYPE_NAME,
        d.builtin_topic_data.data_type_name,
    ) + name_items(PID_TOPIC_NAME, d.builtin_topic_data.topic_name)
}

/// Reading back what a reader announced gives its parameters, in order: its
/// GUID, inline QoS flag, every locator, each QoS policy as written (the
/// liveliness kind as its number reads), and its type and topic names when
/// it has them; the reading ends where the announcement ends.
pub proof fn law_discovered_reader_read_back(e: Endianness, d: DiscoveredReaderData)
    requires
        octets_fit(d.proxy.qos.user_data.0.value@),
        text_fits(d.builtin_topic_data.data_type_name),
        text_fits(d.builtin_topic_data.topic_name),
    ensures
        sdp_items(e, discovered_reader_bytes(e, d), 0) == Outcome::Done(
            discovered_reader_items(d),
            discovered_reader_bytes(e, d).len() as int,
        ),
{
    let p = d.proxy;
    let head = reader_head_bytes(e, p);
    let qos = reader_qos_front(e, p.qos) + reader_qos_back(e, p.qos);
    let ty = opt_text_param(e, PID_TYPE_NAME, d.builtin_topic_data.data_type_name);
    let to = opt_text_param(e, PID_TOPIC_NAME, d.builtin_topic_data.topic_name);
    lemma_chunk_reader_head(e, p);
    lemma_chunk_reader_qos(e, p.qos);
    lemma_chunk_name(e, PID_TYPE_NAME, d.builtin_topic_data.data_type_name);
    lemma_chunk_name(e, PID_TOPIC_NAME, d.builtin_topic_data.topic_name);
    lemma_chunk_concat(e, head, reader_head_items(p), qos, reader_qos_items(p.qos));
    lemma_chunk_concat(
        e,
        head + qos,
        reader_head_items(p) + reader_qos_items(p.qos),
        ty,
        name_items(PID_TYPE_NAME, d.builtin_topic_data.data_type_name),
    );
    lemma_chunk_concat(
        e,
        head + qos + ty,
        reader_head_items(p) + reader_qos_items(p.qos) + name_items(
            PID_TYPE_NAME,
            d.builtin_topic_data.data_type_name,
        ),
        to,
        name_items(PID_TOPIC_NAME, d.builtin_topic_data.topic_name),
    );
    lemma_assoc(head, reader_qos_front(e, p.qos), reader_qos_back(e, p.qos));
    lemma_read_to_sentinel(e, head + qos + ty + to, discovered_reader_items(d));
}

/// Reading back what a writer announced gives its parameters, in order: its
/// GUID, every locator, its largest serialized size, each QoS policy as
/// written (the liveliness kind as its number reads), and its type and
/// topic names when it has them; the reading ends where the announcement
/// ends.
pub proof fn law_discovered_writer_read_back(e: Endianness, d: DiscoveredWriterData)
    requires
        octets_fit(d.proxy.qos.user_data.0.value@),
        text_fits(d.builtin_topic_data.data_type_name),
        text_fits(d.builtin_topic_data.topic_name),
    ensures
        sdp_items(e, discovered_writer_bytes(e, d), 0) == Outcome::Done(
            discovered_writer_items(d),
            discovered_writer_bytes(e, d).len() as int,
        ),
{
    let p = d.proxy;
    let head = writer_head_bytes(e, p);
    let front = writer_qos_front(e, p.qos);
    let back = writer_qos_back(e, p.qos);
    let ty = opt_text_param(e, PID_TYPE_NAME, d.builtin_topic_data.data_type_name);
    let to = opt_text_param(e, PID_TOPIC_NAME, d.builtin_topic_data.topic_name);
    let it = writer_qos_items(p.qos);
    lemma_chunk_writer_head(e, p);
    lemma_chunk_writer_qos_front(e, p.qos);
    lemma_chunk_writer_qos_back(e, p.qos);
    lemma_chunk_name(e, PID_TYPE_NAME, d.builtin_topic_data.data_type_name);
    lemma_chunk_name(e, PID_TOPIC_NAME, d.builtin_topic_data.topic_name);
    lemma_chunk_concat(e, head, writer_head_items(p), front, it.subrange(0, 7));
    lemma_chunk_concat(e, head + front, writer_head_items(p) + it.subrange(0, 7), back, it.subrange(7, 14));
    assert(it.subrange(0, 7) + it.subrange(7, 14) =~= it);
    assert(writer_head_items(p) + it.subrange(0, 7) + it.subrange(7, 14) =~= writer_head_items(p) + it);
    lemma_chunk_concat(
        e,
        head + front + back,
        writer_head_items(p) + it,
        ty,
        name_items(PID_TYPE_NAME, d.builtin_topic_data.data_type_name),
    );
    lemma_chunk_concat(
        e,
        head + front + back + ty,
        writer_head_items(p) + it + name_items(PID_TYPE_NAME, d.builtin_topic_data.data_type_name),
        to,
        name_items(PID_TOPIC_NAME, d.builtin_topic_data.topic_name),
    );
    lemma_read_to_sentinel(e, head + front + back + ty + to, discovered_writer_items(d));
}

proof fn lemma_fold_push(v: SdpView, x: Seq<SdpItem>, i: SdpItem)
    ensures
        sdp_fold(v, x.push(i)) == sdp_apply(sdp_fold(v, x), i),
{
    assert(x.push(i).drop_last() =~= x);
}

/// Folding items one by one: `sdp_fold` over a prefix one longer.
proof fn lemma_fold_step(v: SdpView, it: Seq<SdpItem>, k: int)
    requires
        0 <= k < it.len(),
    ensures
        sdp_fold(v, it.subrange(0, k + 1)) == sdp_apply(sdp_fold(v, it.subrange(0, k)), it[k]),
{
    assert(it.subrange(0, k + 1) =~= it.subrange(0, k).push(it[k]));
    lemma_fold_push(v, it.subrange(0, k), it[k]);
}

proof fn lemma_fold_endpoint_locators(v: SdpView, pid: u16, ls: Seq<Locator>)
    requires
        pid == PID_UNICAST_LOCATOR || pid == PID_MULTICAST_LOCATOR,
    ensures
        sdp_fold(v, endpoint_locator_items(pid, ls)) == (if pid == PID_UNICAST_LOCATOR {
            SdpView { unicast_locator_list: v.unicast_locator_list + locators_view(ls), ..v }
        } else {
            SdpView { multicast_locator_list: v.multicast_locator_list + locators_view(ls), ..v }
        }),
    decreases ls.len(),
{
    let lv = locators_view(ls);
    if ls.len() == 0 {
        assert(endpoint_locator_items(pid, ls) =~= Seq::<SdpItem>::empty());
        assert(v.unicast_locator_list + lv =~= v.unicast_locator_list);
        assert(v.multicast_locator_list + lv =~= v.multicast_locator_list);
    } else {
        let items = endpoint_locator_items(pid, ls);
        assert(items.drop_last() =~= endpoint_locator_items(pid, ls.drop_last()));
        lemma_fold_endpoint_locators(v, pid, ls.drop_last());
        let a = locators_view(ls.drop_last());
        let l = locator_view(ls.last());
        assert(lv =~= a.push(l));
        assert(v.unicast_locator_list + a.push(l) =~= (v.unicast_locator_list + a).push(l));
        assert(v.multicast_locator_list + a.push(l) =~= (v.multicast_locator_list + a).push(l));
    }
}

/// What reading a writer's QoS sets, over `v`.
pub open spec fn with_writer_qos(v: SdpView, q: DataWriterQosPolicies) -> SdpView {
    SdpView {
        durability: Some(q.durability.0),
        durability_service: Some(q.durability_service.0),
        deadline: Some(q.deadline.0.period),
        latency_budget: Some(q.latency_budget.0.0),
        liveliness: Some(liveliness_as_read(q.liveliness.0)),
        reliability: Some(q.reliability.0),
        destination_order: Some(q.destination_order.0),
        history: Some(q.history.0),
        resource_limits: Some(q.resource_limits.0),
        transport_priority: Some(q.transport_priority.0.value),
        lifespan: Some(q.lifespan.0.0),
        user_data: Some(q.user_data.0.value@),
        ownership: Some(q.ownership.0),
        ownership_strength: Some(q.ownership_strength.0.0),
        ..v
    }
}

/// What reading a reader's QoS sets, over `v`.
pub open spec fn with_reader_qos(v: SdpView, q: DataReaderQosPolicies) -> SdpView {
    SdpView {
        durability: Some(q.durability.0),
        deadline: Some(q.deadline.0.period),
        latency_budget: Some(q.latency_budget.0.0),
        liveliness: Some(liveliness_as_read(q.liveliness.0)),
        reliability: Some(q.reliability.0),
        destination_order: Some(q.destination_order.0),
        history: Some(q.history.0),
        resource_limits: Some(q.resource_limits.0),
        user_data: Some(q.user_data.0.value@),
        ownership: Some(q.ownership.0),
        time_based_filter: Some(q.time_based_filter.0.minimun_separation),
        ..v
    }
}

proof fn lemma_fold_writer_qos(v: SdpView, q: DataWriterQosPolicies)
    ensures
        sdp_fold(v, writer_qos_items(q)) == with_writer_qos(v, q),
{
    let it = writer_qos_items(q);
    assert(it.subrange(0, 0) =~= Seq::<SdpItem>::empty());
    lemma_fold_step(v, it, 0);
    lemma_fold_step(v, it, 1);
    lemma_fold_step(v, it, 2);
    lemma_fold_step(v, it, 3);
    lemma_fold_step(v, it, 4);
    lemma_fold_step(v, it, 5);
    lemma_fold_step(v, it, 6);
    lemma_fold_step(v, it, 7);
    lemma_fold_step(v, it, 8);
    lemma_fold_step(v, it, 9);
    lemma_fold_step(v, it, 10);
    lemma_fold_step(v, it, 11);
    lemma_fold_step(v, it, 12);
    lemma_fold_step(v, it, 13);
    assert(it.subrange(0, 14) =~= it);
}

proof fn lemma_fold_reader_qos(v: SdpView, q: DataReaderQosPolicies)
    ensures
        sdp_fold(v, reader_qos_items(q)) == with_reader_qos(v, q),
{
    let it = reader_qos_items(q);
    assert(it.subrange(0, 0) =~= Seq::<SdpItem>::empty());
    lemma_fold_step(v, it, 0);
    lemma_fold_step(v, it, 1);
    lemma_fold_step(v, it, 2);
    lemma_fold_step(v, it, 3);
    lemma_fold_step(v, it, 4);
    lemma_fold_step(v, it, 5);
    lemma_fold_step(v, it, 6);
    lemma_fold_step(v, it, 7);
    lemma_fold_step(v, it, 8);
    lemma_fold_step(v, it, 9);
    lemma_fold_step(v, it, 10);
    assert(it.subrange(0, 11) =~= it);
}

proof fn lemma_fold_names(v: SdpView, ty: Option<String>, to: Option<String>)
    ensures
        sdp_fold(v, name_items(PID_TYPE_NAME, ty) + name_items(PID_TOPIC_NAME, to)) == (SdpView {
            data_type_name: match ty {
                Some(t) => Some(t@),
                None => v.data_type_name,
            },
            topic_name: match to {
                Some(t) => Some(t@),
                None => v.topic_name,
            },
            ..v
        }),
{
    let a = name_items(PID_TYPE_NAME, ty);
    let c = name_items(PID_TOPIC_NAME, to);
    lemma_fold_concat(v, a, c);
    reveal_with_fuel(sdp_fold, 2);
    assert(a.len() > 0 ==> a.drop_last() =~= Seq::<SdpItem>::empty());
    assert(c.len() > 0 ==> c.drop_last() =~= Seq::<SdpItem>::empty());
}

/// What reading back a writer's announcement holds: its GUID, locators,
/// largest serialized size, QoS (the liveliness kind as its number reads),
/// type and topic names; everything else as before any parameter.
pub open spec fn discovered_writer_view(d: DiscoveredWriterData) -> SdpView {
    let p = d.proxy;
    SdpView {
        remote_guid: Some(guid_octets(p.remote_writer_guid)),
        unicast_locator_list: locators_view(p.unicast_locator_list@),
        multicast_locator_list: locators_view(p.multicast_locator_list@),
        data_max_size_serialized: Some(p.data_max_size_serialized),
        data_type_name: opt_text(d.builtin_topic_data.data_type_name),
        topic_name: opt_text(d.builtin_topic_data.topic_name),
        ..with_writer_qos(sdp_initial(), p.qos)
    }
}

/// What reading back a reader's announcement holds: its GUID, inline QoS
/// flag, locators, QoS (the liveliness kind as its number reads), type and
/// topic names; everything else as before any parameter.
pub open spec fn discovered_reader_view(d: DiscoveredReaderData) -> SdpView {
    let p = d.proxy;
    SdpView {
        remote_guid: Some(guid_octets(p.remote_reader_guid)),
        expects_inline_qos: Some(p.expects_inline_qos),
        unicast_locator_list: locators_view(p.unicast_locator_list@),
        multicast_locator_list: locators_view(p.multicast_locator_list@),
        data_type_name: opt_text(d.builtin_topic_data.data_type_name),
        topic_name: opt_text(d.builtin_topic_data.topic_name),
        ..with_reader_qos(sdp_initial(), p.qos)
    }
}

/// Reading back a writer's announcement holds `discovered_writer_view`.
pub proof fn law_discovered_writer_view(d: DiscoveredWriterData)
    ensures
        sdp_fold(sdp_initial(), discovered_writer_items(d)) == discovered_writer_view(d),
{
    let p = d.proxy;
    let i0 = seq![SdpItem::EndpointGuid(guid_octets(p.remote_writer_guid))];
    let i1 = endpoint_locator_items(PID_UNICAST_LOCATOR, p.unicast_locator_list@);
    let i2 = endpoint_locator_items(PID_MULTICAST_LOCATOR, p.multicast_locator_list@);
    let i3 = seq![SdpItem::TypeMaxSizeSerialized(p.data_max_size_serialized)];
    let q = writer_qos_items(p.qos);
    let ty = d.builtin_topic_data.data_type_name;
    let to = d.builtin_topic_data.topic_name;
    let names = name_items(PID_TYPE_NAME, ty) + name_items(PID_TOPIC_NAME, to);
    assert(discovered_writer_items(d) =~= i0 + i1 + i2 + i3 + q + names);
    lemma_fold_concat(sdp_initial(), i0 + i1 + i2 + i3 + q, names);
    lemma_fold_concat(sdp_initial(), i0 + i1 + i2 + i3, q);
    lemma_fold_concat(sdp_initial(), i0 + i1 + i2, i3);
    lemma_fold_concat(sdp_initial(), i0 + i1, i2);
    lemma_fold_concat(sdp_initial(), i0, i1);
    reveal_with_fuel(sdp_fold, 2);
    assert(i0.drop_last() =~= Seq::<SdpItem>::empty());
    assert(i3.drop_last() =~= Seq::<SdpItem>::empty());
    let v0 = sdp_fold(sdp_initial(), i0);
    lemma_fold_endpoint_locators(v0, PID_UNICAST_LOCATOR, p.unicast_locator_list@);
    let v1 = sdp_fold(v0, i1);
    lemma_fold_endpoint_locators(v1, PID_MULTICAST_LOCATOR, p.multicast_locator_list@);
    let v2 = sdp_fold(v1, i2);
    let v3 = sdp_fold(v2, i3);
    lemma_fold_writer_qos(v3, p.qos);
    let v4 = sdp_fold(v3, q);
    lemma_fold_names(v4, ty, to);
    assert(Seq::<LocatorView>::empty() + locators_view(p.unicast_locator_list@) =~= locators_view(p.unicast_locator_list@));
    assert(Seq::<LocatorView>::empty() + locators_view(p.multicast_locator_list@) =~= locators_view(p.multicast_locator_list@));
}

/// Reading back a reader's announcement holds `discovered_reader_view`.
pub proof fn law_discovered_reader_view(d: DiscoveredReaderData)
    ensures
        sdp_fold(sdp_initial(), discovered_reader_items(d)) == discovered_reader_view(d),
{
    let p = d.proxy;
    let i0 = seq![
        SdpItem::EndpointGuid(guid_octets(p.remote_reader_guid)),
        SdpItem::ExpectsInlineQos(p.expects_inline_qos),
    ];
    let i1 = endpoint_locator_items(PID_UNICAST_LOCATOR, p.unicast_locator_list@);
    let i2 = endpoint_locator_items(PID_MULTICAST_LOCATOR, p.multicast_locator_list@);
    let q = reader_qos_items(p.qos);
    let ty = d.builtin_topic_data.data_type_name;
    let to = d.builtin_topic_data.topic_name;
    let names = name_items(PID_TYPE_NAME, ty) + name_items(PID_TOPIC_NAME, to);
    assert(discovered_reader_items(d) =~= i0 + i1 + i2 + q + names);
    lemma_fold_concat(sdp_initial(), i0 + i1 + i2 + q, names);
    lemma_fold_concat(sdp_initial(), i0 + i1 + i2, q);
    lemma_fold_concat(sdp_initial(), i0 + i1, i2);
    lemma_fold_concat(sdp_initial(), i0, i1);
    reveal_with_fuel(sdp_fold, 3);
    assert(i0.drop_last() =~= seq![SdpItem::EndpointGuid(guid_octets(p.remote_reader_guid))]);
    assert(i0.drop_last().drop_last() =~= Seq::<SdpItem>::empty());
    let v0 = sdp_fold(sdp_initial(), i0);
    lemma_fold_endpoint_locators(v0, PID_UNICAST_LOCATOR, p.unicast_locator_list@);
    let v1 = sdp_fold(v0, i1);
    lemma_fold_endpoint_locators(v1, PID_MULTICAST_LOCATOR, p.multicast_locator_list@);
    let v2 = sdp_fold(v1, i2);
    lemma_fold_reader_qos(v2, p.qos);
    let v3 = sdp_fold(v2, q);
    lemma_fold_names(v3, ty, to);
    assert(Seq::<LocatorView>::empty() + locators_view(p.unicast_locator_list@) =~= locators_view(p.unicast_locator_list@));
    assert(Seq::<LocatorView>::empty() + locators_view(p.multicast_locator_list@) =~= locators_view(p.multicast_locator_list@));
}

} // verus!
