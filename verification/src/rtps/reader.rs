//! The stateful reader of RTPS: the remote writers it matches, what it knows
//! of their changes, and how it answers heartbeats, gaps and data. What it
//! has to tell the application is handed back as status changes, the timers
//! it needs as `ReaderTimer`s, and the acknowledgements it has to send as
//! `AckNackRequest`s; sending them is left to the caller.
use vstd::prelude::*;
use crate::dds::qos::policy::ReliabilityQosKind;
use crate::dds::qos::{DataReaderQosPolicies, DataWriterQosPolicies};
use crate::message::element::{Locator, SequenceNumber};
use crate::rtps::cache::{HistoryCache, HistoryCacheType};
use crate::rtps::seq_util::{
    find_by, lemma_find_absent, lemma_find_at, lemma_insert_find, lemma_remove_find,
    lemma_update_find, sorted_by,
};
use crate::rtps::status::{
    DataReaderStatusChanged, LivelinessChangedStatus, ReaderTimer, SubscriptionMatchedStatus,
};
use crate::dds::qos::{compat_message, spec_compatible};
use crate::structure::proxy::has_locator;
use crate::structure::duration::Duration;
use crate::structure::guid::{GuidPrefix, GUID};
use crate::structure::duration::CoreDuration;
use crate::rtps::seq_util::{lemma_select_members, select};
use crate::rtps::cache::HCKey;
use crate::structure::proxy::{
    available_max, same_but_states, writer_seq_nums, writer_status_is, wsn, WriterProxy,
};
use crate::structure::entity_id::{EntityId, TopicKind};
use crate::message::element::{from_vec_state, spec_endianness_of};
use crate::rtps::cache::{hkf, not_taken_before, taken_before};
use crate::structure::proxy::{announced_entry, lose_before, received_entry};
use crate::rtps::cache::{can_add, spec_added, CacheChange};
use crate::rtps::seq_util::lemma_map_find;
use crate::rtps::seq_util::keys_by;
use crate::discovery::data::copy_locators;
use crate::rtps::cache::{ChangeFromWriter, ChangeFromWriterStatusKind};
use crate::message::element::{sn_values, SequenceNumberSet};

verus! {

/// Where the reader stands with one writer in delivering its changes in
/// order: nothing asked yet, waiting for the listed missing changes, or
/// expecting the given change next.
pub enum ReaderState {
    Initial,
    Waiting(Vec<SequenceNumber>),
    Expect(SequenceNumber),
}

/// Proxies are kept in the order of their writers' GUIDs.
pub open spec fn wgk() -> spec_fn(WriterProxy) -> int {
    |w: WriterProxy| w.remote_writer_guid.rank()
}

/// States are kept in the order of their writers' GUIDs.
pub open spec fn sgk() -> spec_fn((GUID, ReaderState)) -> int {
    |p: (GUID, ReaderState)| p.0.rank()
}

/// Whether every proxy keeps its change states ordered.
pub open spec fn all_wf(s: Seq<WriterProxy>) -> bool {
    forall|i: int| 0 <= i < s.len() ==> (#[trigger] s[i]).wf()
}

/// The first position whose writer does not come before rank `r`.
fn proxy_position(v: &Vec<WriterProxy>, r: u128) -> (pos: usize)
    requires
        sorted_by(v@, wgk()),
    ensures
        pos <= v@.len(),
        forall|i: int| 0 <= i < pos ==> wgk()(#[trigger] v@[i]) < r,
        pos < v@.len() ==> wgk()(v@[pos as int]) >= r,
{
    let mut pos: usize = 0;
    while pos < v.len() && v[pos].remote_writer_guid.rank_value() < r
        invariant
            0 <= pos <= v@.len(),
            forall|i: int| 0 <= i < pos ==> wgk()(#[trigger] v@[i]) < r,
        decreases v@.len() - pos,
    {
        pos = pos + 1;
    }
    pos
}

/// The position of the proxy of `g`, if there is one.
fn proxy_index(v: &Vec<WriterProxy>, g: &GUID) -> (r: Option<usize>)
    requires
        sorted_by(v@, wgk()),
    ensures
        match r {
            Some(i) => i < v@.len() && wgk()(v@[i as int]) == g.rank() && find_by(v@, wgk(), g.rank())
                == Some(v@[i as int]),
            None => find_by(v@, wgk(), g.rank()) is None,
        },
{
    let rv = g.rank_value();
    let pos = proxy_position(v, rv);
    if pos < v.len() && v[pos].remote_writer_guid.rank_value() == rv {
        proof {
            lemma_find_at(v@, wgk(), pos as int);
        }
        Some(pos)
    } else {
        proof {
            assert forall|i: int| 0 <= i < v@.len() implies wgk()(#[trigger] v@[i]) != g.rank() by {
                if i > pos {
                    assert(wgk()(v@[pos as int]) < wgk()(v@[i]));
                }
            }
            lemma_find_absent(v@, wgk(), g.rank());
        }
        None
    }
}

/// Takes the proxy of `g` out, if there is one.
fn take_proxy(v: &mut Vec<WriterProxy>, g: &GUID) -> (r: Option<WriterProxy>)
    requires
        sorted_by(old(v)@, wgk()),
    ensures
        sorted_by(final(v)@, wgk()),
        r == find_by(old(v)@, wgk(), g.rank()),
        r matches Some(w) ==> wgk()(w) == g.rank(),
        forall|m: int|
            #[trigger] find_by(final(v)@, wgk(), m) == if m == g.rank() {
                None
            } else {
                find_by(old(v)@, wgk(), m)
            },
        r is Some ==> final(v)@.len() == old(v)@.len() - 1,
        r is None ==> final(v)@ == old(v)@,
        all_wf(old(v)@) ==> all_wf(final(v)@) && (r matches Some(w) ==> w.wf()),
{
    match proxy_index(v, g) {
        Some(i) => {
            let ghost before = v@;
            let wp = v.remove(i);
            proof {
                lemma_remove_find(before, wgk(), i as int);
                if all_wf(before) {
                    assert forall|j: int| 0 <= j < v@.len() implies (#[trigger] v@[j]).wf() by {
                        if j < i {
                            assert(v@[j] == before[j]);
                        } else {
                            assert(v@[j] == before[j + 1]);
                        }
                    }
                    assert(before[i as int].wf());
                }
            }
            Some(wp)
        },
        None => None,
    }
}

/// Keeps `wp` as the proxy of its writer, in place of any earlier one.
fn put_proxy(v: &mut Vec<WriterProxy>, wp: WriterProxy)
    requires
        sorted_by(old(v)@, wgk()),
    ensures
        sorted_by(final(v)@, wgk()),
        all_wf(old(v)@) && wp.wf() ==> all_wf(final(v)@),
        forall|m: int|
            #[trigger] find_by(final(v)@, wgk(), m) == if m == wgk()(wp) {
                Some(wp)
            } else {
                find_by(old(v)@, wgk(), m)
            },
        final(v)@.len() == old(v)@.len() + if find_by(old(v)@, wgk(), wgk()(wp)) is Some {
            0int
        } else {
            1int
        },
{
    let rv = wp.remote_writer_guid.rank_value();
    let pos = proxy_position(v, rv);
    let ghost before = v@;
    if pos < v.len() && v[pos].remote_writer_guid.rank_value() == rv {
        proof {
            lemma_find_at(before, wgk(), pos as int);
            lemma_update_find(before, wgk(), pos as int, wp);
        }
        v.set(pos, wp);
        proof {
            if all_wf(before) && wp.wf() {
                assert forall|j: int| 0 <= j < v@.len() implies (#[trigger] v@[j]).wf() by {
                    if j != pos {
                        assert(v@[j] == before[j]);
                    }
                }
            }
        }
    } else {
        proof {
            assert forall|i: int| 0 <= i < before.len() implies wgk()(#[trigger] before[i]) != wgk()(wp) by {
                if i > pos {
                    assert(wgk()(before[pos as int]) < wgk()(before[i]));
                }
            }
            lemma_find_absent(before, wgk(), wgk()(wp));
            lemma_insert_find(before, wgk(), pos as int, wp);
        }
        v.insert(pos, wp);
        proof {
            if all_wf(before) && wp.wf() {
                assert forall|j: int| 0 <= j < v@.len() implies (#[trigger] v@[j]).wf() by {
                    if j < pos {
                        assert(v@[j] == before[j]);
                    } else if j > pos {
                        assert(v@[j] == before[j - 1]);
                    }
                }
            }
        }
    }
}

/// The first position whose writer does not come before rank `r`.
fn state_position(v: &Vec<(GUID, ReaderState)>, r: u128) -> (pos: usize)
    requires
        sorted_by(v@, sgk()),
    ensures
        pos <= v@.len(),
        forall|i: int| 0 <= i < pos ==> sgk()(#[trigger] v@[i]) < r,
        pos < v@.len() ==> sgk()(v@[pos as int]) >= r,
{
    let mut pos: usize = 0;
    while pos < v.len() && v[pos].0.rank_value() < r
        invariant
            0 <= pos <= v@.len(),
            forall|i: int| 0 <= i < pos ==> sgk()(#[trigger] v@[i]) < r,
        decreases v@.len() - pos,
    {
        pos = pos + 1;
    }
    pos
}

/// The position of the state kept for `g`, if there is one.
fn state_index(v: &Vec<(GUID, ReaderState)>, g: &GUID) -> (r: Option<usize>)
    requires
        sorted_by(v@, sgk()),
    ensures
        match r {
            Some(i) => i < v@.len() && sgk()(v@[i as int]) == g.rank() && find_by(v@, sgk(), g.rank())
                == Some(v@[i as int]),
            None => find_by(v@, sgk(), g.rank()) is None,
        },
{
    let rv = g.rank_value();
    let pos = state_position(v, rv);
    if pos < v.len() && v[pos].0.rank_value() == rv {
        proof {
            lemma_find_at(v@, sgk(), pos as int);
        }
        Some(pos)
    } else {
        proof {
            assert forall|i: int| 0 <= i < v@.len() implies sgk()(#[trigger] v@[i]) != g.rank() by {
                if i > pos {
                    assert(sgk()(v@[pos as int]) < sgk()(v@[i]));
                }
            }
            lemma_find_absent(v@, sgk(), g.rank());
        }
        None
    }
}

/// Forgets the state kept for `g`.
fn drop_state(v: &mut Vec<(GUID, ReaderState)>, g: &GUID)
    requires
        sorted_by(old(v)@, sgk()),
    ensures
        sorted_by(final(v)@, sgk()),
        forall|m: int|
            #[trigger] find_by(final(v)@, sgk(), m) == if m == g.rank() {
                None
            } else {
                find_by(old(v)@, sgk(), m)
            },
{
    match state_index(v, g) {
        Some(i) => {
            let ghost before = v@;
            v.remove(i);
            proof {
                lemma_remove_find(before, sgk(), i as int);
            }
        },
        None => {},
    }
}

/// Keeps `s` as the state of the writer `g`, in place of any earlier one.
fn put_state(v: &mut Vec<(GUID, ReaderState)>, g: GUID, s: ReaderState)
    requires
        sorted_by(old(v)@, sgk()),
    ensures
        sorted_by(final(v)@, sgk()),
        forall|m: int|
            #[trigger] find_by(final(v)@, sgk(), m) == if m == g.rank() {
                Some((g, s))
            } else {
                find_by(old(v)@, sgk(), m)
            },
{
    let rv = g.rank_value();
    let pos = state_position(v, rv);
    let ghost before = v@;
    let ghost e = (g, s);
    if pos < v.len() && v[pos].0.rank_value() == rv {
        proof {
            lemma_update_find(before, sgk(), pos as int, e);
        }
        v.set(pos, (g, s));
    } else {
        proof {
            lemma_insert_find(before, sgk(), pos as int, e);
        }
        v.insert(pos, (g, s));
    }
}

/// Counts as the status reports them: the number of items as 32 bits.
pub open spec fn count32(n: int) -> i32 {
    n as i32
}

fn count_of(n: usize) -> (c: i32)
    ensures
        c == count32(n as int),
{
    n as i32
}

fn count_of_sum(a: usize, b: usize) -> (c: i32)
    ensures
        c == count32(a + b),
{
    (a as u128 + b as u128) as i32
}

/// The liveliness status after a change of the two lists.
pub open spec fn liveliness_note(
    matched: int,
    unmatched: int,
    alive_change: i32,
    not_alive_change: i32,
    g: GUID,
) -> DataReaderStatusChanged {
    DataReaderStatusChanged::LivelinessChanged(
        LivelinessChangedStatus {
            alive_count: count32(matched),
            not_alive_count: count32(unmatched),
            alive_count_change: alive_change,
            not_alive_count_change: not_alive_change,
            guid: g,
        },
    )
}

/// The subscription status after a writer was forgotten.
pub open spec fn unmatch_note(matched: int, unmatched: int, g: GUID) -> DataReaderStatusChanged {
    DataReaderStatusChanged::SubscriptionMatched(
        SubscriptionMatchedStatus {
            total_count: count32(matched + unmatched),
            total_count_change: 0,
            current_count: count32(matched),
            current_count_change: -1i32,
            guid: g,
        },
    )
}

/// The unicast locators of a writer, or its default ones when it has none.
pub open spec fn unicast_of(wp: WriterProxy) -> Seq<Locator> {
    if wp.unicast_locator_list@.len() == 0 {
        wp.default_unicast_locator_list@
    } else {
        wp.unicast_locator_list@
    }
}

/// The multicast locators of a writer, or its default ones when it has none.
pub open spec fn multicast_of(wp: WriterProxy) -> Seq<Locator> {
    if wp.multicast_locator_list@.len() == 0 {
        wp.default_multicast_locator_list@
    } else {
        wp.multicast_locator_list@
    }
}

/// Whether a proxy is of a writer of the participant with prefix `p`.
pub open spec fn of_prefix(p: GuidPrefix) -> spec_fn(WriterProxy) -> bool {
    |w: WriterProxy| w.remote_writer_guid.guid_prefix.guid_prefix@ == p.guid_prefix@
}

/// Whether a proxy is of a writer of another participant than `p`.
pub open spec fn not_of_prefix(p: GuidPrefix) -> spec_fn(WriterProxy) -> bool {
    |w: WriterProxy| w.remote_writer_guid.guid_prefix.guid_prefix@ != p.guid_prefix@
}

/// The statuses reported while the matched writers of `s` that belong to
/// participant `p` are forgotten one by one, in order, from `m` matched and
/// `u` unmatched writers: for each, liveliness and subscription.
pub open spec fn matched_removal_notes(s: Seq<WriterProxy>, p: GuidPrefix, m: int, u: int) -> Seq<
    DataReaderStatusChanged,
>
    decreases s.len(),
{
    if s.len() == 0 {
        Seq::empty()
    } else {
        let before = matched_removal_notes(s.drop_last(), p, m, u);
        if of_prefix(p)(s.last()) {
            let left = m - select(s, of_prefix(p)).len();
            let g = s.last().remote_writer_guid;
            before + seq![liveliness_note(left, u, -1i32, 1, g), unmatch_note(left, u, g)]
        } else {
            before
        }
    }
}

/// The statuses reported while the unmatched writers of `s` that belong to
/// participant `p` are forgotten one by one, in order, with `m` matched and
/// from `u` unmatched writers.
pub open spec fn unmatched_removal_notes(s: Seq<WriterProxy>, p: GuidPrefix, m: int, u: int) -> Seq<
    DataReaderStatusChanged,
>
    decreases s.len(),
{
    if s.len() == 0 {
        Seq::empty()
    } else {
        let before = unmatched_removal_notes(s.drop_last(), p, m, u);
        if of_prefix(p)(s.last()) {
            let left = u - select(s, of_prefix(p)).len();
            before + seq![unmatch_note(m, left, s.last().remote_writer_guid)]
        } else {
            before
        }
    }
}

/// Whether some proxy of `s` of participant `p` is of the writer ranked `r`.
pub open spec fn removed_rank(s: Seq<WriterProxy>, p: GuidPrefix, r: int) -> bool {
    exists|i: int| 0 <= i < s.len() && of_prefix(p)(#[trigger] s[i]) && wgk()(s[i]) == r
}

/// The shortest lease of the writers of `s`, or the infinite one.
pub open spec fn min_lease(s: Seq<WriterProxy>) -> Duration
    decreases s.len(),
{
    if s.len() == 0 {
        Duration::spec_infinite()
    } else {
        let m = min_lease(s.drop_last());
        let w = s.last().qos.liveliness.0.lease_duration;
        if w.ticks() < m.ticks() {
            w
        } else {
            m
        }
    }
}

/// A delivery state as values: the waiting list as a sequence.
pub enum ReaderStateView {
    Initial,
    Waiting(Seq<SequenceNumber>),
    Expect(SequenceNumber),
}

impl ReaderState {
    pub open spec fn view(&self) -> ReaderStateView {
        match self {
            ReaderState::Initial => ReaderStateView::Initial,
            ReaderState::Waiting(w) => ReaderStateView::Waiting(w@),
            ReaderState::Expect(s) => ReaderStateView::Expect(*s),
        }
    }
}

/// The delivery state kept for the writer ranked `r`, as values.
pub open spec fn sview(v: Seq<(GUID, ReaderState)>, r: int) -> Option<ReaderStateView> {
    match find_by(v, sgk(), r) {
        Some(p) => Some(p.1@),
        None => None,
    }
}

/// Whether a gap from `start` to below `base`, plus the numbers of `set`,
/// covers the number `m`.
pub open spec fn gap_covers(start: int, base: int, set: Seq<int>, m: int) -> bool {
    (start <= m < base) || set.contains(m)
}

/// Keeps the numbers a gap does not cover.
pub open spec fn not_covered(start: int, base: int, set: Seq<int>) -> spec_fn(SequenceNumber) -> bool {
    |x: SequenceNumber| !gap_covers(start, base, set, x.0 as int)
}

/// The state of a change the writer will not send: received, irrelevant.
pub open spec fn irrelevant_entry(m: int) -> ChangeFromWriter {
    ChangeFromWriter {
        _seq_num: SequenceNumber(m as i64),
        _is_relevant: false,
        status: ChangeFromWriterStatusKind::Received,
    }
}

/// Drops from a waiting list the numbers a gap covers.
fn drop_covered(w: &Vec<SequenceNumber>, start: i64, base: i64, set: &Vec<SequenceNumber>) -> (r: Vec<
    SequenceNumber,
>)
    ensures
        r@ == select(w@, not_covered(start as int, base as int, sn_values(set@))),
{
    let ghost p = not_covered(start as int, base as int, sn_values(set@));
    let mut r: Vec<SequenceNumber> = Vec::new();
    let mut i: usize = 0;
    proof {
        assert(w@.take(0) =~= Seq::<SequenceNumber>::empty());
    }
    while i < w.len()
        invariant
            0 <= i <= w@.len(),
            p == not_covered(start as int, base as int, sn_values(set@)),
            r@ == select(w@.take(i as int), p),
        decreases w@.len() - i,
    {
        let x = w[i];
        let mut in_set = false;
        let mut j: usize = 0;
        while j < set.len()
            invariant
                0 <= j <= set@.len(),
                in_set == sn_values(set@).take(j as int).contains(x.0 as int),
            decreases set@.len() - j,
        {
            proof {
                assert(sn_values(set@).take(j + 1) =~= sn_values(set@).take(j as int).push(set@[j as int].0 as int));
                lemma_contains_push(sn_values(set@).take(j as int), set@[j as int].0 as int);
            }
            if set[j].0 == x.0 {
                in_set = true;
            }
            j = j + 1;
        }
        proof {
            assert(sn_values(set@).take(j as int) =~= sn_values(set@));
            assert(w@.take(i + 1).drop_last() =~= w@.take(i as int));
        }
        if !((start <= x.0 && x.0 < base) || in_set) {
            r.push(x);
        }
        i = i + 1;
    }
    proof {
        assert(w@.take(i as int) =~= w@);
    }
    r
}

/// The sequence numbers of the changes still missing from a writer, in
/// increasing order.
pub open spec fn missing_of(wp: WriterProxy) -> Seq<SequenceNumber> {
    writer_seq_nums(select(wp.cache_state@, writer_status_is(ChangeFromWriterStatusKind::Missing)))
}

/// The base of the acknowledgement for a writer: the first missing change,
/// or the one after the last received or lost when none is missing.
pub open spec fn ack_base(wp: WriterProxy) -> int {
    if missing_of(wp).len() == 0 {
        available_max(wp.cache_state@) + 1
    } else {
        missing_of(wp)[0].0 as int
    }
}

/// Whether an acknowledgement can be built for a writer: the next number
/// fits in 64 bits, and the missing changes lie within 2^32 - 1 of the
/// first.
pub open spec fn ack_fits(wp: WriterProxy) -> bool {
    &&& missing_of(wp).len() == 0 ==> available_max(wp.cache_state@) < i64::MAX
    &&& forall|i: int|
        0 <= i < missing_of(wp).len() ==> (#[trigger] missing_of(wp)[i]).0 - missing_of(wp)[0].0
            < u32::MAX
}

/// The acknowledgement the reader sends a writer: to the writer's
/// participant, from this reader to that writer, the missing changes (as
/// `from_vec` marks them from `ack_base`), count 1, not final, and the
/// locators to send it to.
pub struct AckNackRequest {
    pub dst_guid_prefix: GuidPrefix,
    pub writer_id: EntityId,
    pub reader_id: EntityId,
    pub reader_sn_state: SequenceNumberSet,
    pub count: i32,
    pub final_flag: bool,
    pub locators: Vec<Locator>,
}

/// What answering the writer `g` after a heartbeat does, from the reader
/// `pre` and its cache `pre_hc`: the delivery state of a writer it keeps one
/// for becomes "expect `ack_base`" when nothing is missing (and the cache
/// is flushed to the application, reported when it held changes), or
/// "waiting for the missing changes"; the acknowledgement is built unless
/// the writer has no locator. Nothing else changes.
pub open spec fn answered(
    pre: Reader,
    post: Reader,
    pre_hc: HistoryCache,
    post_hc: HistoryCache,
    pre_notes: Seq<DataReaderStatusChanged>,
    post_notes: Seq<DataReaderStatusChanged>,
    ack: Option<AckNackRequest>,
    g: GUID,
) -> bool {
    &&& post.guid == pre.guid
    &&& post.reliability_level == pre.reliability_level
    &&& post.heartbeat_response_delay == pre.heartbeat_response_delay
    &&& post.qos == pre.qos
    &&& post.matched_writers@ == pre.matched_writers@
    &&& post.unmatched_writers@ == pre.unmatched_writers@
    &&& forall|m: int|
        m != g.rank() ==> #[trigger] find_by(post.writer_communication_state@, sgk(), m) == find_by(
            pre.writer_communication_state@,
            sgk(),
            m,
        )
    &&& match pre.matched(g) {
        None => {
            &&& ack is None
            &&& post.writer_communication_state@ == pre.writer_communication_state@
            &&& post_hc == pre_hc
            &&& post_notes == pre_notes
        },
        Some(wp) => {
            let missing = missing_of(wp);
            let flushed = missing.len() == 0 && sview(pre.writer_communication_state@, g.rank()) is Some;
            &&& sview(post.writer_communication_state@, g.rank()) == match sview(
                pre.writer_communication_state@,
                g.rank(),
            ) {
                Some(_) => Some(
                    if missing.len() == 0 {
                        ReaderStateView::Expect(SequenceNumber(ack_base(wp) as i64))
                    } else {
                        ReaderStateView::Waiting(missing)
                    },
                ),
                None => None,
            }
            &&& flushed ==> {
                &&& post_hc.changes == pre_hc.changes
                &&& keys_by(post_hc.ready_key@, hkf()) == pre_hc.keys()
                &&& post_hc.taken_key == pre_hc.taken_key
                &&& post_hc.hc_type == pre_hc.hc_type
                &&& post_notes == if pre_hc.changes@.len() > 0 {
                    pre_notes.push(DataReaderStatusChanged::DataAvailable)
                } else {
                    pre_notes
                }
            }
            &&& !flushed ==> post_hc == pre_hc && post_notes == pre_notes
            &&& match ack {
                None => unicast_of(wp).len() == 0 && multicast_of(wp).len() == 0,
                Some(a) => {
                    &&& a.dst_guid_prefix == wp.remote_writer_guid.guid_prefix
                    &&& a.writer_id == g.entity_id
                    &&& a.reader_id == pre.guid.entity_id
                    &&& a.reader_sn_state.bitmap_base.0 == ack_base(wp)
                    &&& (a.reader_sn_state.num_bits as int, a.reader_sn_state.bitmap@)
                        == from_vec_state(ack_base(wp), missing)
                    &&& a.count == 1
                    &&& !a.final_flag
                    &&& a.locators@ == if unicast_of(wp).len() > 0 {
                        unicast_of(wp)
                    } else {
                        multicast_of(wp)
                    }
                    &&& a.locators@.len() > 0
                },
            }
        },
    }
}

fn copy_seq_nums(v: &Vec<SequenceNumber>) -> (r: Vec<SequenceNumber>)
    ensures
        r@ == v@,
{
    let mut r: Vec<SequenceNumber> = Vec::new();
    let mut i: usize = 0;
    while i < v.len()
        invariant
            0 <= i <= v@.len(),
            r@ == v@.take(i as int),
        decreases v@.len() - i,
    {
        r.push(v[i]);
        i = i + 1;
        assert(r@ =~= v@.take(i as int));
    }
    assert(r@ =~= v@);
    r
}

/// The flag of a heartbeat that says no answer is needed.
pub open spec fn final_flag_set(flags: u8) -> bool {
    flags & 0x02u8 != 0
}

/// The flag of a heartbeat that only asserts the writer's liveliness.
pub open spec fn liveliness_flag_set(flags: u8) -> bool {
    flags & 0x04u8 != 0
}

/// Whether the reader took the change `m` of the writer ranked `r` among
/// the taken keys `taken`, and it comes before `first`.
pub open spec fn taken_below(taken: Seq<HCKey>, r: int, first: int, m: int) -> bool {
    exists|i: int|
        0 <= i < taken.len() && taken_before(r, first)(#[trigger] taken[i]) && taken[i].seq_num.0 == m
}

/// What a heartbeat announcing `first..=last` makes of the state of change
/// `m`: a change the application took before `first` is forgotten, an
/// announced one is known as missing (see `announced_entry`), and one not
/// received before `first` is lost.
pub open spec fn hb_entry(
    e: Option<ChangeFromWriter>,
    m: int,
    first: int,
    last: int,
    taken: bool,
) -> Option<ChangeFromWriter> {
    let e1 = if taken {
        None
    } else {
        e
    };
    let e2 = if first <= m <= last {
        Some(announced_entry(e1, m))
    } else {
        e1
    };
    match e2 {
        Some(c) => Some(lose_before(first)(c)),
        None => None,
    }
}

/// The proxy of `g` a reader has once `g` is heard from: the unmatched one
/// if there is one, else the matched one.
pub open spec fn heard_proxy(r: Reader, g: GUID) -> WriterProxy {
    match r.unmatched(g) {
        Some(w) => w,
        None => r.matched(g).unwrap(),
    }
}

/// The change state a heartbeat leaves for `m` (see `hb_entry`), from the
/// reader `r` and its cache `hc`.
pub open spec fn hb_after(r: Reader, hc: HistoryCache, g: GUID, first: int, last: int, m: int) -> Option<
    ChangeFromWriter,
> {
    hb_entry(
        find_by(heard_proxy(r, g).cache_state@, wsn(), m),
        m,
        first,
        last,
        taken_below(hc.taken_key@, g.rank(), first, m),
    )
}

/// Whether the acknowledgement a heartbeat may call for can be built (see
/// `ack_fits`): after the heartbeat, no received or lost change is numbered
/// `i64::MAX`, and the missing changes lie within 2^32 - 1 of each other.
pub open spec fn hb_ack_fits(r: Reader, hc: HistoryCache, g: GUID, first: int, last: int) -> bool {
    &&& forall|m: int|
        #[trigger] hb_after(r, hc, g, first, last, m) matches Some(c) && (c.status
            == ChangeFromWriterStatusKind::Received || c.status == ChangeFromWriterStatusKind::Lost)
            ==> m < i64::MAX
    &&& forall|m1: int, m2: int|
        #[trigger] hb_after(r, hc, g, first, last, m1) matches Some(c1) && c1.status
            == ChangeFromWriterStatusKind::Missing && (#[trigger] hb_after(r, hc, g, first, last, m2) matches Some(c2)
            && c2.status == ChangeFromWriterStatusKind::Missing) && m1 <= m2 ==> m2 - m1 < u32::MAX
}

/// Whether two readers are the same in all they hold.
pub open spec fn same_reader(a: Reader, b: Reader) -> bool {
    &&& a.guid == b.guid
    &&& a.reliability_level == b.reliability_level
    &&& a.unicast_locator_list@ == b.unicast_locator_list@
    &&& a.multicast_locator_list@ == b.multicast_locator_list@
    &&& a.expectsinline_qos == b.expectsinline_qos
    &&& a.heartbeat_response_delay == b.heartbeat_response_delay
    &&& a.qos == b.qos
    &&& a.matched_writers@ == b.matched_writers@
    &&& a.unmatched_writers@ == b.unmatched_writers@
    &&& a.writer_communication_state@ == b.writer_communication_state@
}

/// What a heartbeat from a known writer `g` announcing `first..=last` does
/// before the reader decides to answer: `g` is matched (taken out of the
/// unmatched writers), its proxy's change states are those of `hb_after`,
/// and the cache forgets the keys the application took from `g` before
/// `first`.
pub open spec fn hb_updated(
    pre: Reader,
    mid: Reader,
    pre_hc: HistoryCache,
    mid_hc: HistoryCache,
    g: GUID,
    first: int,
    last: int,
) -> bool {
    &&& mid.wf()
    &&& mid_hc.wf()
    &&& mid.guid == pre.guid
    &&& mid.reliability_level == pre.reliability_level
    &&& mid.heartbeat_response_delay == pre.heartbeat_response_delay
    &&& mid.qos == pre.qos
    &&& mid.writer_communication_state@ == pre.writer_communication_state@
    &&& forall|m: int|
        m != g.rank() ==> #[trigger] find_by(mid.matched_writers@, wgk(), m) == find_by(
            pre.matched_writers@,
            wgk(),
            m,
        )
    &&& forall|m: int|
        m != g.rank() ==> #[trigger] find_by(mid.unmatched_writers@, wgk(), m) == find_by(
            pre.unmatched_writers@,
            wgk(),
            m,
        )
    &&& mid.unmatched(g) is None
    &&& pre.unmatched(g) is None ==> mid.unmatched_writers@ == pre.unmatched_writers@
    &&& mid.matched(g) matches Some(wp) && same_but_states(wp, heard_proxy(pre, g)) && forall|m: int|
        #[trigger] find_by(wp.cache_state@, wsn(), m) == hb_after(pre, pre_hc, g, first, last, m)
    &&& mid_hc.changes == pre_hc.changes
    &&& mid_hc.hc_type == pre_hc.hc_type
    &&& mid_hc.ready_key == pre_hc.ready_key
    &&& mid_hc.taken_key@ == select(pre_hc.taken_key@, not_taken_before(g.rank(), first))
    &&& mid_hc.unprocessed_seqnum == pre_hc.unprocessed_seqnum
    &&& mid_hc.last_added == pre_hc.last_added
    &&& mid_hc.next_ih == pre_hc.next_ih
    &&& mid_hc.kh2ih == pre_hc.kh2ih
}

/// What a heartbeat from a known writer `g` does, in full: the update of
/// `hb_updated`, the rematching report when `g` was unmatched, and then the
/// answer. The reader answers when the heartbeat is not final, or when it is
/// final, not only about liveliness, and changes are missing; with a zero
/// response delay it answers at once (`answered`), otherwise it asks for the
/// heartbeat timer.
pub open spec fn heartbeat_answered(
    pre: Reader,
    post: Reader,
    pre_hc: HistoryCache,
    post_hc: HistoryCache,
    pre_notes: Seq<DataReaderStatusChanged>,
    post_notes: Seq<DataReaderStatusChanged>,
    r: (Option<ReaderTimer>, Option<AckNackRequest>),
    g: GUID,
    flags: u8,
    first: int,
    last: int,
) -> bool {
    exists|mid: Reader, mid_hc: HistoryCache|
        #[trigger] hb_updated(pre, mid, pre_hc, mid_hc, g, first, last) && {
            let mid_notes = if pre.unmatched(g) is Some {
                pre_notes.push(
                    liveliness_note(
                        mid.matched_writers@.len() as int,
                        mid.unmatched_writers@.len() as int,
                        1,
                        -1i32,
                        g,
                    ),
                )
            } else {
                pre_notes
            };
            let wp = mid.matched(g).unwrap();
            let must = !final_flag_set(flags) || (!liveliness_flag_set(flags) && missing_of(wp).len() > 0);
            &&& must && pre.heartbeat_response_delay == Duration::spec_zero() ==> r.0 is None && answered(
                mid,
                post,
                mid_hc,
                post_hc,
                mid_notes,
                post_notes,
                r.1,
                g,
            )
            &&& must && pre.heartbeat_response_delay != Duration::spec_zero() ==> r == (
                Some(ReaderTimer::Heartbeat(pre.guid.entity_id, g)),
                None::<AckNackRequest>,
            ) && same_reader(post, mid) && post_hc == mid_hc && post_notes == mid_notes
            &&& !must ==> r == (None::<ReaderTimer>, None::<AckNackRequest>) && same_reader(post, mid)
                && post_hc == mid_hc && post_notes == mid_notes
        }
}

/// A cache flushed to the application from `pre`: every change it holds is
/// ready to be taken, and nothing else changes.
pub open spec fn flushed(pre: HistoryCache, post: HistoryCache) -> bool {
    &&& post.changes == pre.changes
    &&& keys_by(post.ready_key@, hkf()) == pre.keys()
    &&& post.hc_type == pre.hc_type
    &&& post.unprocessed_seqnum == pre.unprocessed_seqnum
    &&& post.taken_key == pre.taken_key
    &&& post.last_added == pre.last_added
    &&& post.next_ih == pre.next_ih
    &&& post.kh2ih == pre.kh2ih
}

/// Keeps the numbers other than `n`.
pub open spec fn ne_seq(n: int) -> spec_fn(SequenceNumber) -> bool {
    |x: SequenceNumber| x.0 != n
}

/// Whether receiving change `n` completes what the reader waited for or
/// expected next from a writer.
pub open spec fn completes(st: Option<ReaderStateView>, n: int) -> bool {
    match st {
        Some(ReaderStateView::Waiting(w)) => select(w, ne_seq(n)).len() == 0,
        Some(ReaderStateView::Expect(x)) => x.0 == n,
        _ => false,
    }
}

/// The delivery state after change `n` is received: it is no longer waited
/// for, and when it was the one expected, the next one is.
pub open spec fn state_after_receive(st: Option<ReaderStateView>, n: int) -> Option<ReaderStateView> {
    match st {
        Some(ReaderStateView::Waiting(w)) => Some(ReaderStateView::Waiting(select(w, ne_seq(n)))),
        Some(ReaderStateView::Expect(x)) => Some(
            ReaderStateView::Expect(
                if x.0 == n {
                    SequenceNumber((x.0 + 1) as i64)
                } else {
                    x
                },
            ),
        ),
        other => other,
    }
}

/// The proxy `post` is `pre` after change `n` was received.
pub open spec fn received(post: WriterProxy, pre: WriterProxy, n: SequenceNumber) -> bool {
    &&& same_but_states(post, pre)
    &&& forall|m: int|
        #[trigger] find_by(post.cache_state@, wsn(), m) == if m == n.0 {
            Some(received_entry(find_by(pre.cache_state@, wsn(), m), n))
        } else {
            find_by(pre.cache_state@, wsn(), m)
        }
}

/// Whether the application took change `m` of the writer ranked `r`.
pub open spec fn taken_of(taken: Seq<HCKey>, r: int, m: int) -> bool {
    exists|i: int| 0 <= i < taken.len() && (#[trigger] taken[i]).guid.rank() == r && taken[i].seq_num.0 == m
}

/// The proxy `post` is `pre` without the states of the changes the
/// application took.
pub open spec fn taken_dropped(post: WriterProxy, pre: WriterProxy, taken: Seq<HCKey>) -> bool {
    &&& same_but_states(post, pre)
    &&& forall|m: int|
        #[trigger] find_by(post.cache_state@, wsn(), m) == if taken_of(taken, wgk()(pre), m) {
            None
        } else {
            find_by(pre.cache_state@, wsn(), m)
        }
}

/// Whether the number after an expected change `n` fits in 64 bits.
pub open spec fn expect_fits(st: Option<ReaderStateView>, n: int) -> bool {
    match st {
        Some(ReaderStateView::Expect(x)) => x.0 == n ==> x.0 < i64::MAX,
        _ => true,
    }
}

/// Drops `n` from a waiting list.
fn drop_seq(w: &Vec<SequenceNumber>, n: i64) -> (r: Vec<SequenceNumber>)
    ensures
        r@ == select(w@, ne_seq(n as int)),
{
    let mut r: Vec<SequenceNumber> = Vec::new();
    let mut i: usize = 0;
    proof {
        assert(w@.take(0) =~= Seq::<SequenceNumber>::empty());
    }
    while i < w.len()
        invariant
            0 <= i <= w@.len(),
            r@ == select(w@.take(i as int), ne_seq(n as int)),
        decreases w@.len() - i,
    {
        proof {
            assert(w@.take(i + 1).drop_last() =~= w@.take(i as int));
        }
        if w[i].0 != n {
            r.push(w[i]);
        }
        i = i + 1;
    }
    proof {
        assert(w@.take(i as int) =~= w@);
    }
    r
}

/// Whether a proxy's largest received or lost number stays below
/// `i64::MAX` once the states of the changes the application took are
/// dropped.
pub open spec fn drop_fits(wp: WriterProxy, taken: Seq<HCKey>) -> bool {
    forall|i: int|
        0 <= i < wp.cache_state@.len() && ((#[trigger] wp.cache_state@[i]).status
            == ChangeFromWriterStatusKind::Received || wp.cache_state@[i].status
            == ChangeFromWriterStatusKind::Lost) && wp.cache_state@[i]._seq_num.0 == i64::MAX
            ==> taken_of(taken, wgk()(wp), i64::MAX as int)
}

/// The cache `post` is `pre` once the taken keys were handed out.
pub open spec fn taken_cleared(pre: HistoryCache, post: HistoryCache) -> bool {
    &&& post.wf()
    &&& post.taken_key@.len() == 0
    &&& post.changes == pre.changes
    &&& post.hc_type == pre.hc_type
    &&& post.unprocessed_seqnum == pre.unprocessed_seqnum
    &&& post.ready_key == pre.ready_key
    &&& post.last_added == pre.last_added
    &&& post.next_ih == pre.next_ih
    &&& post.kh2ih == pre.kh2ih
}

/// The proxy `post` is `pre` after a best-effort reader received change
/// `n` while expecting `expected`: the change is received, and when it
/// comes after the expected one, every change before it not received is
/// lost.
pub open spec fn be_received(post: WriterProxy, pre: WriterProxy, n: SequenceNumber, expected: int) -> bool {
    &&& same_but_states(post, pre)
    &&& forall|m: int|
        #[trigger] find_by(post.cache_state@, wsn(), m) == {
            let e = if m == n.0 {
                Some(received_entry(find_by(pre.cache_state@, wsn(), m), n))
            } else {
                find_by(pre.cache_state@, wsn(), m)
            };
            if n.0 > expected {
                match e {
                    Some(c) => Some(lose_before(n.0 as int)(c)),
                    None => None,
                }
            } else {
                e
            }
        }
}

/// What hearing from the writer `g` first does (see `Reader::rematch`): a
/// writer that was unmatched is matched again, and the liveliness status
/// reports it.
pub open spec fn rematched(
    pre: Reader,
    post: Reader,
    pre_notes: Seq<DataReaderStatusChanged>,
    post_notes: Seq<DataReaderStatusChanged>,
    g: GUID,
) -> bool {
    &&& post.wf()
    &&& post.guid == pre.guid
    &&& post.reliability_level == pre.reliability_level
    &&& post.heartbeat_response_delay == pre.heartbeat_response_delay
    &&& post.qos == pre.qos
    &&& post.writer_communication_state == pre.writer_communication_state
    &&& match pre.unmatched(g) {
        Some(wp) => {
            &&& forall|m: int|
                #[trigger] find_by(post.matched_writers@, wgk(), m) == if m == g.rank() {
                    Some(wp)
                } else {
                    find_by(pre.matched_writers@, wgk(), m)
                }
            &&& forall|m: int|
                #[trigger] find_by(post.unmatched_writers@, wgk(), m) == if m == g.rank() {
                    None
                } else {
                    find_by(pre.unmatched_writers@, wgk(), m)
                }
            &&& post_notes == pre_notes.push(
                liveliness_note(
                    post.matched_writers@.len() as int,
                    post.unmatched_writers@.len() as int,
                    1,
                    -1i32,
                    g,
                ),
            )
        },
        None => {
            &&& post.matched_writers@ == pre.matched_writers@
            &&& post.unmatched_writers@ == pre.unmatched_writers@
            &&& post_notes == pre_notes
        },
    }
}

/// The timers a change from the matched writer `wg` (with proxy `wp`)
/// asks for: the end of its lifespan when the writer's lifespan is finite,
/// and the reader's deadline for the writer when it is finite.
pub open spec fn change_timers(r: Reader, wp: WriterProxy, wg: GUID, change: CacheChange) -> Seq<ReaderTimer> {
    let ls = wp.qos.lifespan.0.0;
    let dl = r.qos.deadline.0.period;
    (if ls != Duration::spec_infinite() {
        seq![
            ReaderTimer::Lifespan(
                r.guid.entity_id,
                HCKey { guid: wg, seq_num: change.sequence_number },
                change.timestamp,
                ls,
            ),
        ]
    } else {
        Seq::empty()
    }) + (if dl != Duration::spec_infinite() {
        seq![ReaderTimer::Deadline(r.guid.entity_id, wg, dl)]
    } else {
        Seq::empty()
    })
}

/// The GUID of the writer of a change received from the participant
/// `prefix`.
pub open spec fn source_writer(prefix: GuidPrefix, change: CacheChange) -> GUID {
    GUID { guid_prefix: prefix, entity_id: change.writer_guid.entity_id }
}

/// What taking in `change` from the matched writer `wg` reliably does
/// (see `Reader::add_change`).
pub open spec fn reliably_received(
    pre: Reader,
    post: Reader,
    pre_hc: HistoryCache,
    post_hc: HistoryCache,
    pre_notes: Seq<DataReaderStatusChanged>,
    post_notes: Seq<DataReaderStatusChanged>,
    wg: GUID,
    change: CacheChange,
) -> bool {
    let st = sview(pre.writer_communication_state@, wg.rank());
    let n = change.sequence_number.0 as int;
    &&& post.wf()
    &&& post_hc.wf()
    &&& post.guid == pre.guid
    &&& post.reliability_level == pre.reliability_level
    &&& post.heartbeat_response_delay == pre.heartbeat_response_delay
    &&& post.qos == pre.qos
    &&& post.unmatched_writers@ == pre.unmatched_writers@
    &&& exists|mid: HistoryCache|
        #[trigger] spec_added(
            pre_hc,
            mid,
            change,
            true,
            pre.qos.resource_limits.0.max_samples,
            pre.qos.history.0,
        ) && if completes(st, n) {
            flushed(mid, post_hc)
        } else {
            post_hc == mid
        }
    &&& forall|m: int|
        m != wg.rank() ==> #[trigger] find_by(post.writer_communication_state@, sgk(), m) == find_by(
            pre.writer_communication_state@,
            sgk(),
            m,
        )
    &&& sview(post.writer_communication_state@, wg.rank()) == state_after_receive(st, n)
    &&& post_notes == if completes(st, n) {
        pre_notes.push(DataReaderStatusChanged::DataAvailable)
    } else {
        pre_notes
    }
    &&& forall|m: int|
        m != wg.rank() ==> #[trigger] find_by(post.matched_writers@, wgk(), m) == find_by(
            pre.matched_writers@,
            wgk(),
            m,
        )
    &&& match pre.matched(wg) {
        Some(wp) => post.matched(wg) matches Some(w) && received(w, wp, change.sequence_number),
        None => post.matched(wg) is None,
    }
}

/// What taking in `change` from writer `wg` as a best-effort reader does
/// (see `Reader::add_change`).
pub open spec fn best_effort_received(
    pre: Reader,
    post: Reader,
    pre_hc: HistoryCache,
    post_hc: HistoryCache,
    pre_notes: Seq<DataReaderStatusChanged>,
    post_notes: Seq<DataReaderStatusChanged>,
    wg: GUID,
    change: CacheChange,
) -> bool {
    &&& post.wf()
    &&& post_hc.wf()
    &&& post.guid == pre.guid
    &&& post.reliability_level == pre.reliability_level
    &&& post.heartbeat_response_delay == pre.heartbeat_response_delay
    &&& post.qos == pre.qos
    &&& post.unmatched_writers@ == pre.unmatched_writers@
    &&& post.writer_communication_state@ == pre.writer_communication_state@
    &&& post_hc.taken_key@.len() == 0
    &&& forall|r: int|
        r != wg.rank() ==> match (#[trigger] find_by(post.matched_writers@, wgk(), r), find_by(
            pre.matched_writers@,
            wgk(),
            r,
        )) {
            (Some(a), Some(b)) => taken_dropped(a, b, pre_hc.taken_key@),
            (None, None) => true,
            _ => false,
        }
    &&& exists|hc1: HistoryCache|
        #[trigger] taken_cleared(pre_hc, hc1) && match pre.matched(wg) {
            None => post.matched(wg) is None && post_hc == hc1 && post_notes == pre_notes,
            Some(wp) => exists|wp1: WriterProxy|
                #[trigger] taken_dropped(wp1, wp, pre_hc.taken_key@) && wp1.wf() && {
                    let expected = available_max(wp1.cache_state@) + 1;
                    if change.sequence_number.0 >= expected {
                        &&& exists|mid: HistoryCache|
                            #[trigger] spec_added(
                                hc1,
                                mid,
                                change,
                                false,
                                pre.qos.resource_limits.0.max_samples,
                                pre.qos.history.0,
                            ) && flushed(mid, post_hc)
                        &&& post_notes == pre_notes.push(DataReaderStatusChanged::DataAvailable)
                        &&& post.matched(wg) matches Some(w) && be_received(
                            w,
                            wp1,
                            change.sequence_number,
                            expected,
                        )
                    } else {
                        &&& post_hc == hc1
                        &&& post_notes == pre_notes
                        &&& post.matched(wg) == Some(wp1)
                    }
                },
        }
}

/// The reliable, stateful reader: what it knows of each remote writer.
pub struct Reader {
    pub guid: GUID,
    pub reliability_level: ReliabilityQosKind,
    pub unicast_locator_list: Vec<Locator>,
    pub multicast_locator_list: Vec<Locator>,
    pub expectsinline_qos: bool,
    pub heartbeat_response_delay: Duration,
    /// The writers the reader matches, in the order of their GUIDs.
    pub matched_writers: Vec<WriterProxy>,
    /// Matched writers whose liveliness was lost, in the order of their GUIDs.
    pub unmatched_writers: Vec<WriterProxy>,
    pub qos: DataReaderQosPolicies,
    /// The delivery state of each writer, in the order of their GUIDs.
    pub writer_communication_state: Vec<(GUID, ReaderState)>,
    /// The name of the reader's topic.
    pub topic_name: String,
    /// The name of the type of the reader's topic.
    pub type_desc: String,
    /// Whether the data of the reader's topic carry a key.
    pub topic_kind: TopicKind,
}

impl Reader {
    /// The proxy of the matched writer `g`.
    pub open spec fn matched(self, g: GUID) -> Option<WriterProxy> {
        find_by(self.matched_writers@, wgk(), g.rank())
    }

    /// The proxy of the unmatched writer `g`.
    pub open spec fn unmatched(self, g: GUID) -> Option<WriterProxy> {
        find_by(self.unmatched_writers@, wgk(), g.rank())
    }

    /// The delivery state kept for the writer `g`.
    pub open spec fn state_of(self, g: GUID) -> Option<(GUID, ReaderState)> {
        find_by(self.writer_communication_state@, sgk(), g.rank())
    }

    /// The reader's invariant: each list is ordered by GUID (so no writer
    /// occurs twice in it) and every proxy keeps its change states ordered.
    pub open spec fn wf(self) -> bool {
        &&& sorted_by(self.matched_writers@, wgk())
        &&& sorted_by(self.unmatched_writers@, wgk())
        &&& sorted_by(self.writer_communication_state@, sgk())
        &&& all_wf(self.matched_writers@)
        &&& all_wf(self.unmatched_writers@)
    }

    /// A reader that matches no writer yet.
    pub fn new(
        guid: GUID,
        reliability_level: ReliabilityQosKind,
        unicast_locator_list: Vec<Locator>,
        multicast_locator_list: Vec<Locator>,
        expectsinline_qos: bool,
        heartbeat_response_delay: Duration,
        qos: DataReaderQosPolicies,
        topic_name: String,
        type_desc: String,
        topic_kind: TopicKind,
    ) -> (r: Reader)
        ensures
            r.topic_name == topic_name,
            r.type_desc == type_desc,
            r.topic_kind == topic_kind,
            r.wf(),
            r.guid == guid,
            r.reliability_level == reliability_level,
            r.unicast_locator_list == unicast_locator_list,
            r.multicast_locator_list == multicast_locator_list,
            r.expectsinline_qos == expectsinline_qos,
            r.heartbeat_response_delay == heartbeat_response_delay,
            r.qos == qos,
            r.matched_writers@.len() == 0,
            r.unmatched_writers@.len() == 0,
            r.writer_communication_state@.len() == 0,
    {
        Reader {
            guid,
            reliability_level,
            unicast_locator_list,
            multicast_locator_list,
            expectsinline_qos,
            heartbeat_response_delay,
            matched_writers: Vec::new(),
            unmatched_writers: Vec::new(),
            qos,
            writer_communication_state: Vec::new(),
            topic_name,
            type_desc,
            topic_kind,
        }
    }

    pub fn topic_kind(&self) -> (k: TopicKind)
        ensures
            k == self.topic_kind,
    {
        self.topic_kind
    }

    /// Whether a writer on the topic `topic_name` of type `data_type` is on
    /// this reader's topic.
    pub fn is_writer_match(&self, topic_name: &String, data_type: &String) -> (r: bool)
        ensures
            r == (self.topic_name@ == topic_name@ && self.type_desc@ == data_type@),
    {
        self.topic_name == *topic_name && self.type_desc == *data_type
    }

    pub fn get_guid(&self) -> (g: GUID)
        ensures
            g == self.guid,
    {
        self.guid
    }

    /// Whether the reader is reliable.
    pub fn is_reliable(&self) -> (r: bool)
        ensures
            r == (self.reliability_level == ReliabilityQosKind::Reliable),
    {
        match self.reliability_level {
            ReliabilityQosKind::Reliable => true,
            ReliabilityQosKind::BestEffort => false,
        }
    }

    /// Whether the reader knows the writer `g`, matched or not.
    pub fn is_contain_writer(&self, writer_guid: GUID) -> (r: bool)
        requires
            self.wf(),
        ensures
            r == (self.matched(writer_guid) is Some || self.unmatched(writer_guid) is Some),
    {
        proxy_index(&self.matched_writers, &writer_guid).is_some() || proxy_index(
            &self.unmatched_writers,
            &writer_guid,
        ).is_some()
    }

    /// The QoS of the writer `g`, matched or not; the reader must know it.
    pub fn get_matched_writer_qos(&self, writer_guid: GUID) -> (q: &DataWriterQosPolicies)
        requires
            self.wf(),
            self.matched(writer_guid) is Some || self.unmatched(writer_guid) is Some,
        ensures
            *q == match self.matched(writer_guid) {
                Some(wp) => wp.qos,
                None => self.unmatched(writer_guid).unwrap().qos,
            },
    {
        match proxy_index(&self.matched_writers, &writer_guid) {
            Some(i) => &self.matched_writers[i].qos,
            None => {
                let j = proxy_index(&self.unmatched_writers, &writer_guid).unwrap();
                &self.unmatched_writers[j].qos
            },
        }
    }

    /// A writer that was unmatched and is heard from again becomes matched,
    /// and the liveliness status says so.
    fn rematch(&mut self, writer_guid: GUID, notes: &mut Vec<DataReaderStatusChanged>)
        requires
            old(self).wf(),
        ensures
            final(self).wf(),
            final(self).guid == old(self).guid,
            final(self).reliability_level == old(self).reliability_level,
            final(self).heartbeat_response_delay == old(self).heartbeat_response_delay,
            final(self).qos == old(self).qos,
            final(self).unicast_locator_list == old(self).unicast_locator_list,
            final(self).multicast_locator_list == old(self).multicast_locator_list,
            final(self).expectsinline_qos == old(self).expectsinline_qos,
            final(self).writer_communication_state == old(self).writer_communication_state,
            match old(self).unmatched(writer_guid) {
                Some(wp) => {
                    &&& forall|m: int|
                        #[trigger] find_by(final(self).matched_writers@, wgk(), m) == if m
                            == writer_guid.rank() {
                            Some(wp)
                        } else {
                            find_by(old(self).matched_writers@, wgk(), m)
                        }
                    &&& forall|m: int|
                        #[trigger] find_by(final(self).unmatched_writers@, wgk(), m) == if m
                            == writer_guid.rank() {
                            None
                        } else {
                            find_by(old(self).unmatched_writers@, wgk(), m)
                        }
                    &&& final(notes)@ == old(notes)@.push(
                        liveliness_note(
                            final(self).matched_writers@.len() as int,
                            final(self).unmatched_writers@.len() as int,
                            1,
                            -1i32,
                            writer_guid,
                        ),
                    )
                },
                None => {
                    &&& final(self).matched_writers@ == old(self).matched_writers@
                    &&& final(self).unmatched_writers@ == old(self).unmatched_writers@
                    &&& final(notes)@ == old(notes)@
                },
            },
    {
        match take_proxy(&mut self.unmatched_writers, &writer_guid) {
            Some(wp) => {
                put_proxy(&mut self.matched_writers, wp);
                let a = count_of(self.matched_writers.len());
                let n = count_of(self.unmatched_writers.len());
                notes.push(
                    DataReaderStatusChanged::LivelinessChanged(
                        LivelinessChangedStatus::new(a, n, 1, -1, writer_guid),
                    ),
                );
            },
            None => {},
        }
    }
    /// The subscription status says the writer `g` is forgotten.
    fn send_sub_unmatch(&self, g: GUID, notes: &mut Vec<DataReaderStatusChanged>)
        ensures
            final(notes)@ == old(notes)@.push(
                unmatch_note(
                    self.matched_writers@.len() as int,
                    self.unmatched_writers@.len() as int,
                    g,
                ),
            ),
    {
        let t = count_of_sum(self.matched_writers.len(), self.unmatched_writers.len());
        let c = count_of(self.matched_writers.len());
        notes.push(
            DataReaderStatusChanged::SubscriptionMatched(
                SubscriptionMatchedStatus::new(t, 0, c, -1, g),
            ),
        );
    }

    /// A matched writer whose liveliness was lost becomes unmatched, and the
    /// liveliness status says so.
    pub fn matched_writer_unmatch(&mut self, g: GUID, notes: &mut Vec<DataReaderStatusChanged>)
        requires
            old(self).wf(),
        ensures
            final(self).wf(),
            final(self).guid == old(self).guid,
            final(self).reliability_level == old(self).reliability_level,
            final(self).heartbeat_response_delay == old(self).heartbeat_response_delay,
            final(self).qos == old(self).qos,
            final(self).writer_communication_state == old(self).writer_communication_state,
            match old(self).matched(g) {
                Some(wp) => {
                    &&& forall|m: int|
                        #[trigger] find_by(final(self).unmatched_writers@, wgk(), m) == if m
                            == g.rank() {
                            Some(wp)
                        } else {
                            find_by(old(self).unmatched_writers@, wgk(), m)
                        }
                    &&& forall|m: int|
                        #[trigger] find_by(final(self).matched_writers@, wgk(), m) == if m
                            == g.rank() {
                            None
                        } else {
                            find_by(old(self).matched_writers@, wgk(), m)
                        }
                    &&& final(notes)@ == old(notes)@.push(
                        liveliness_note(
                            final(self).matched_writers@.len() as int,
                            final(self).unmatched_writers@.len() as int,
                            -1i32,
                            1,
                            g,
                        ),
                    )
                },
                None => {
                    &&& final(self).matched_writers@ == old(self).matched_writers@
                    &&& final(self).unmatched_writers@ == old(self).unmatched_writers@
                    &&& final(notes)@ == old(notes)@
                },
            },
    {
        match take_proxy(&mut self.matched_writers, &g) {
            Some(wp) => {
                put_proxy(&mut self.unmatched_writers, wp);
                let a = count_of(self.matched_writers.len());
                let n = count_of(self.unmatched_writers.len());
                notes.push(
                    DataReaderStatusChanged::LivelinessChanged(
                        LivelinessChangedStatus::new(a, n, -1, 1, g),
                    ),
                );
            },
            None => {},
        }
    }

    /// Forgets the unmatched writer `g` and its delivery state; the
    /// subscription status says so.
    pub fn unmatched_writer_remove(&mut self, g: GUID, notes: &mut Vec<DataReaderStatusChanged>)
        requires
            old(self).wf(),
        ensures
            final(self).wf(),
            final(self).guid == old(self).guid,
            final(self).reliability_level == old(self).reliability_level,
            final(self).heartbeat_response_delay == old(self).heartbeat_response_delay,
            final(self).qos == old(self).qos,
            final(self).matched_writers@ == old(self).matched_writers@,
            old(self).unmatched(g) is Some ==> {
                &&& forall|m: int|
                    #[trigger] find_by(final(self).unmatched_writers@, wgk(), m) == if m == g.rank() {
                        None
                    } else {
                        find_by(old(self).unmatched_writers@, wgk(), m)
                    }
                &&& final(self).unmatched_writers@.len() == old(self).unmatched_writers@.len() - 1
                &&& forall|m: int|
                    #[trigger] find_by(final(self).writer_communication_state@, sgk(), m) == if m
                        == g.rank() {
                        None
                    } else {
                        find_by(old(self).writer_communication_state@, sgk(), m)
                    }
                &&& final(notes)@ == old(notes)@.push(
                    unmatch_note(
                        final(self).matched_writers@.len() as int,
                        final(self).unmatched_writers@.len() as int,
                        g,
                    ),
                )
            },
            old(self).unmatched(g) is None ==> {
                &&& final(self).unmatched_writers@ == old(self).unmatched_writers@
                &&& final(self).writer_communication_state@ == old(self).writer_communication_state@
                &&& final(notes)@ == old(notes)@
            },
    {
        match take_proxy(&mut self.unmatched_writers, &g) {
            Some(_) => {
                drop_state(&mut self.writer_communication_state, &g);
                self.send_sub_unmatch(g, notes);
            },
            None => {},
        }
    }

    /// Forgets the matched writer `g`, its changes in the reader's cache and
    /// its delivery state; the liveliness and subscription statuses say so.
    pub fn matched_writer_remove(
        &mut self,
        g: GUID,
        hc: &mut HistoryCache,
        notes: &mut Vec<DataReaderStatusChanged>,
    )
        requires
            old(self).wf(),
            old(hc).wf(),
        ensures
            final(self).wf(),
            final(hc).wf(),
            final(self).guid == old(self).guid,
            final(self).reliability_level == old(self).reliability_level,
            final(self).heartbeat_response_delay == old(self).heartbeat_response_delay,
            final(self).qos == old(self).qos,
            final(self).unmatched_writers@ == old(self).unmatched_writers@,
            old(self).matched(g) is Some ==> {
                &&& forall|m: int|
                    #[trigger] find_by(final(self).matched_writers@, wgk(), m) == if m == g.rank() {
                        None
                    } else {
                        find_by(old(self).matched_writers@, wgk(), m)
                    }
                &&& final(self).matched_writers@.len() == old(self).matched_writers@.len() - 1
                &&& forall|m: int|
                    #[trigger] find_by(final(self).writer_communication_state@, sgk(), m) == if m
                        == g.rank() {
                        None
                    } else {
                        find_by(old(self).writer_communication_state@, sgk(), m)
                    }
                &&& final(hc).hc_type == old(hc).hc_type
                &&& old(hc).hc_type == HistoryCacheType::Reader ==> forall|x: (int, int)|
                    final(hc).holds(x) <==> (old(hc).holds(x) && x.1 != g.rank())
                &&& old(hc).hc_type != HistoryCacheType::Reader ==> *final(hc) == *old(hc)
                &&& final(notes)@ == old(notes)@ + seq![
                    liveliness_note(
                        final(self).matched_writers@.len() as int,
                        final(self).unmatched_writers@.len() as int,
                        -1i32,
                        1,
                        g,
                    ),
                    unmatch_note(
                        final(self).matched_writers@.len() as int,
                        final(self).unmatched_writers@.len() as int,
                        g,
                    ),
                ]
            },
            old(self).matched(g) is None ==> {
                &&& final(self).matched_writers@ == old(self).matched_writers@
                &&& final(self).writer_communication_state@ == old(self).writer_communication_state@
                &&& *final(hc) == *old(hc)
                &&& final(notes)@ == old(notes)@
            },
    {
        match take_proxy(&mut self.matched_writers, &g) {
            Some(_) => {
                hc.remove_change_from_writer(&g);
                drop_state(&mut self.writer_communication_state, &g);
                let a = count_of(self.matched_writers.len());
                let n = count_of(self.unmatched_writers.len());
                notes.push(
                    DataReaderStatusChanged::LivelinessChanged(
                        LivelinessChangedStatus::new(a, n, -1, 1, g),
                    ),
                );
                self.send_sub_unmatch(g, notes);
                assert(notes@ =~= old(notes)@ + seq![
                    liveliness_note(a as int, n as int, -1i32, 1, g),
                    unmatch_note(self.matched_writers@.len() as int, self.unmatched_writers@.len() as int, g),
                ]);
            },
            None => {},
        }
    }

    /// Filters the matched writers of participant `p` out, forgetting their
    /// changes and delivery states and reporting each.
    fn remove_matched_of(
        &mut self,
        p: &GuidPrefix,
        hc: &mut HistoryCache,
        notes: &mut Vec<DataReaderStatusChanged>,
    )
        requires
            old(self).wf(),
            old(hc).wf(),
        ensures
            final(self).wf(),
            final(hc).wf(),
            final(self).guid == old(self).guid,
            final(self).reliability_level == old(self).reliability_level,
            final(self).heartbeat_response_delay == old(self).heartbeat_response_delay,
            final(self).qos == old(self).qos,
            final(self).unmatched_writers@ == old(self).unmatched_writers@,
            final(self).matched_writers@ == select(old(self).matched_writers@, not_of_prefix(*p)),
            forall|m: int|
                #[trigger] find_by(final(self).writer_communication_state@, sgk(), m) == if removed_rank(
                    old(self).matched_writers@,
                    *p,
                    m,
                ) {
                    None
                } else {
                    find_by(old(self).writer_communication_state@, sgk(), m)
                },
            final(hc).hc_type == old(hc).hc_type,
            old(hc).hc_type == HistoryCacheType::Reader ==> forall|x: (int, int)|
                final(hc).holds(x) <==> (old(hc).holds(x) && !removed_rank(
                    old(self).matched_writers@,
                    *p,
                    x.1,
                )),
            old(hc).hc_type != HistoryCacheType::Reader ==> final(hc).changes@ == old(hc).changes@,
            final(notes)@ == old(notes)@ + matched_removal_notes(
                old(self).matched_writers@,
                *p,
                old(self).matched_writers@.len() as int,
                old(self).unmatched_writers@.len() as int,
            ),
    {
        let ghost orig = self.matched_writers@;
        let ghost m0 = orig.len() as int;
        let ghost u0 = self.unmatched_writers@.len() as int;
        let total = self.matched_writers.len();
        let mut rest: Vec<WriterProxy> = Vec::new();
        core::mem::swap(&mut rest, &mut self.matched_writers);
        let mut removed: usize = 0;
        let mut i: usize = 0;
        proof {
            assert(orig.take(0) =~= Seq::<WriterProxy>::empty());
            assert(rest@ =~= orig.skip(0));
        }
        while rest.len() > 0
            invariant
                0 <= i <= orig.len(),
                total == orig.len(),
                rest@ == orig.skip(i as int),
                self.matched_writers@ == select(orig.take(i as int), not_of_prefix(*p)),
                removed == select(orig.take(i as int), of_prefix(*p)).len(),
                sorted_by(orig, wgk()),
                all_wf(orig),
                sorted_by(self.writer_communication_state@, sgk()),
                sorted_by(self.unmatched_writers@, wgk()),
                all_wf(self.unmatched_writers@),
                self.unmatched_writers@.len() == u0,
                m0 == orig.len(),
                hc.wf(),
                hc.hc_type == old(hc).hc_type,
                forall|m: int|
                    #[trigger] find_by(self.writer_communication_state@, sgk(), m) == if removed_rank(
                        orig.take(i as int),
                        *p,
                        m,
                    ) {
                        None
                    } else {
                        find_by(old(self).writer_communication_state@, sgk(), m)
                    },
                old(hc).hc_type == HistoryCacheType::Reader ==> forall|x: (int, int)|
                    hc.holds(x) <==> (old(hc).holds(x) && !removed_rank(orig.take(i as int), *p, x.1)),
                old(hc).hc_type != HistoryCacheType::Reader ==> hc.changes@ == old(hc).changes@,
                notes@ == old(notes)@ + matched_removal_notes(orig.take(i as int), *p, m0, u0),
                self.guid == old(self).guid,
                self.reliability_level == old(self).reliability_level,
                self.heartbeat_response_delay == old(self).heartbeat_response_delay,
                self.qos == old(self).qos,
                self.unmatched_writers@ == old(self).unmatched_writers@,
            decreases rest@.len(),
        {
            let ghost pre_hc = *hc;
            let ghost pre_states = self.writer_communication_state@;
            let w = rest.remove(0);
            proof {
                assert(w == orig[i as int]);
                assert(rest@ =~= orig.skip(i + 1));
                assert(orig.take(i + 1).drop_last() =~= orig.take(i as int));
                assert(orig.take(i + 1).last() == w);
                lemma_select_len_step(orig, i as int, of_prefix(*p));
                lemma_removed_rank_step(orig, i as int, *p);
                lemma_select_members(orig.take(i + 1), of_prefix(*p));
            }
            let g = w.remote_writer_guid;
            if g.guid_prefix == *p {
                hc.remove_change_from_writer(&g);
                drop_state(&mut self.writer_communication_state, &g);
                removed = removed + 1;
                let a = count_of(total - removed);
                let n = count_of(self.unmatched_writers.len());
                notes.push(
                    DataReaderStatusChanged::LivelinessChanged(
                        LivelinessChangedStatus::new(a, n, -1, 1, g),
                    ),
                );
                let t = count_of_sum(total - removed, self.unmatched_writers.len());
                notes.push(
                    DataReaderStatusChanged::SubscriptionMatched(
                        SubscriptionMatchedStatus::new(t, 0, a, -1, g),
                    ),
                );
                proof {
                    assert(select(orig.take(i + 1), not_of_prefix(*p)) =~= select(orig.take(i as int), not_of_prefix(*p)));
                    assert(notes@ =~= old(notes)@ + matched_removal_notes(orig.take(i + 1), *p, m0, u0));
                }
            } else {
                proof {
                    assert(select(orig.take(i + 1), not_of_prefix(*p)) =~= select(orig.take(i as int), not_of_prefix(*p)).push(w));
                    assert(matched_removal_notes(orig.take(i + 1), *p, m0, u0) == matched_removal_notes(orig.take(i as int), *p, m0, u0));
                }
                self.matched_writers.push(w);
            }
            i = i + 1;
        }
        proof {
            assert(orig.take(i as int) =~= orig);
            lemma_select_sorted_wf(orig, not_of_prefix(*p));
        }
    }

    /// Filters the unmatched writers of participant `p` out, forgetting their
    /// delivery states and reporting each.
    fn remove_unmatched_of(&mut self, p: &GuidPrefix, notes: &mut Vec<DataReaderStatusChanged>)
        requires
            old(self).wf(),
        ensures
            final(self).wf(),
            final(self).guid == old(self).guid,
            final(self).reliability_level == old(self).reliability_level,
            final(self).heartbeat_response_delay == old(self).heartbeat_response_delay,
            final(self).qos == old(self).qos,
            final(self).matched_writers@ == old(self).matched_writers@,
            final(self).unmatched_writers@ == select(old(self).unmatched_writers@, not_of_prefix(*p)),
            forall|m: int|
                #[trigger] find_by(final(self).writer_communication_state@, sgk(), m) == if removed_rank(
                    old(self).unmatched_writers@,
                    *p,
                    m,
                ) {
                    None
                } else {
                    find_by(old(self).writer_communication_state@, sgk(), m)
                },
            final(notes)@ == old(notes)@ + unmatched_removal_notes(
                old(self).unmatched_writers@,
                *p,
                old(self).matched_writers@.len() as int,
                old(self).unmatched_writers@.len() as int,
            ),
    {
        let ghost orig = self.unmatched_writers@;
        let ghost m0 = self.matched_writers@.len() as int;
        let ghost u0 = orig.len() as int;
        let total = self.unmatched_writers.len();
        let mut rest: Vec<WriterProxy> = Vec::new();
        core::mem::swap(&mut rest, &mut self.unmatched_writers);
        let mut removed: usize = 0;
        let mut i: usize = 0;
        proof {
            assert(orig.take(0) =~= Seq::<WriterProxy>::empty());
            assert(rest@ =~= orig.skip(0));
        }
        while rest.len() > 0
            invariant
                0 <= i <= orig.len(),
                total == orig.len(),
                rest@ == orig.skip(i as int),
                self.unmatched_writers@ == select(orig.take(i as int), not_of_prefix(*p)),
                removed == select(orig.take(i as int), of_prefix(*p)).len(),
                sorted_by(orig, wgk()),
                all_wf(orig),
                sorted_by(self.writer_communication_state@, sgk()),
                sorted_by(self.matched_writers@, wgk()),
                all_wf(self.matched_writers@),
                self.matched_writers@.len() == m0,
                u0 == orig.len(),
                forall|m: int|
                    #[trigger] find_by(self.writer_communication_state@, sgk(), m) == if removed_rank(
                        orig.take(i as int),
                        *p,
                        m,
                    ) {
                        None
                    } else {
                        find_by(old(self).writer_communication_state@, sgk(), m)
                    },
                notes@ == old(notes)@ + unmatched_removal_notes(orig.take(i as int), *p, m0, u0),
                self.guid == old(self).guid,
                self.reliability_level == old(self).reliability_level,
                self.heartbeat_response_delay == old(self).heartbeat_response_delay,
                self.qos == old(self).qos,
                self.matched_writers@ == old(self).matched_writers@,
            decreases rest@.len(),
        {
            let w = rest.remove(0);
            proof {
                assert(w == orig[i as int]);
                assert(rest@ =~= orig.skip(i + 1));
                assert(orig.take(i + 1).drop_last() =~= orig.take(i as int));
                assert(orig.take(i + 1).last() == w);
                lemma_select_len_step(orig, i as int, of_prefix(*p));
                lemma_removed_rank_step(orig, i as int, *p);
                lemma_select_members(orig.take(i + 1), of_prefix(*p));
            }
            let g = w.remote_writer_guid;
            if g.guid_prefix == *p {
                drop_state(&mut self.writer_communication_state, &g);
                removed = removed + 1;
                let t = count_of_sum(self.matched_writers.len(), total - removed);
                let c = count_of(self.matched_writers.len());
                notes.push(
                    DataReaderStatusChanged::SubscriptionMatched(
                        SubscriptionMatchedStatus::new(t, 0, c, -1, g),
                    ),
                );
                proof {
                    assert(select(orig.take(i + 1), not_of_prefix(*p)) =~= select(orig.take(i as int), not_of_prefix(*p)));
                    assert(notes@ =~= old(notes)@ + unmatched_removal_notes(orig.take(i + 1), *p, m0, u0));
                }
            } else {
                proof {
                    assert(select(orig.take(i + 1), not_of_prefix(*p)) =~= select(orig.take(i as int), not_of_prefix(*p)).push(w));
                    assert(unmatched_removal_notes(orig.take(i + 1), *p, m0, u0) == unmatched_removal_notes(orig.take(i as int), *p, m0, u0));
                }
                self.unmatched_writers.push(w);
            }
            i = i + 1;
        }
        proof {
            assert(orig.take(i as int) =~= orig);
            lemma_select_sorted_wf(orig, not_of_prefix(*p));
        }
    }

    /// Forgets every writer of the participant `guid_prefix`: first the
    /// matched ones (with their changes in the reader's cache), then the
    /// unmatched ones, each in the order of their GUIDs, reporting each as
    /// `matched_writer_remove` and `unmatched_writer_remove` do.
    pub fn delete_writer_proxy(
        &mut self,
        guid_prefix: GuidPrefix,
        hc: &mut HistoryCache,
        notes: &mut Vec<DataReaderStatusChanged>,
    )
        requires
            old(self).wf(),
            old(hc).wf(),
        ensures
            final(self).wf(),
            final(hc).wf(),
            final(self).guid == old(self).guid,
            final(self).qos == old(self).qos,
            final(self).matched_writers@ == select(old(self).matched_writers@, not_of_prefix(guid_prefix)),
            final(self).unmatched_writers@ == select(
                old(self).unmatched_writers@,
                not_of_prefix(guid_prefix),
            ),
            forall|m: int|
                #[trigger] find_by(final(self).writer_communication_state@, sgk(), m) == if removed_rank(
                    old(self).matched_writers@,
                    guid_prefix,
                    m,
                ) || removed_rank(old(self).unmatched_writers@, guid_prefix, m) {
                    None
                } else {
                    find_by(old(self).writer_communication_state@, sgk(), m)
                },
            final(hc).hc_type == old(hc).hc_type,
            old(hc).hc_type == HistoryCacheType::Reader ==> forall|x: (int, int)|
                final(hc).holds(x) <==> (old(hc).holds(x) && !removed_rank(
                    old(self).matched_writers@,
                    guid_prefix,
                    x.1,
                )),
            old(hc).hc_type != HistoryCacheType::Reader ==> final(hc).changes@ == old(hc).changes@,
            final(notes)@ == old(notes)@ + matched_removal_notes(
                old(self).matched_writers@,
                guid_prefix,
                old(self).matched_writers@.len() as int,
                old(self).unmatched_writers@.len() as int,
            ) + unmatched_removal_notes(
                old(self).unmatched_writers@,
                guid_prefix,
                final(self).matched_writers@.len() as int,
                old(self).unmatched_writers@.len() as int,
            ),
    {
        self.remove_matched_of(&guid_prefix, hc, notes);
        self.remove_unmatched_of(&guid_prefix, notes);
    }

    /// The shortest lease among the matched writers, as a host duration;
    /// ten seconds when no matched writer has a finite lease. The lease's
    /// fraction is passed on as nanoseconds, as it is counted in the
    /// reader's timers.
    pub fn get_min_remote_writer_lease_duration(&self) -> (d: CoreDuration)
        requires
            min_lease(self.matched_writers@) == Duration::spec_infinite()
                || (min_lease(self.matched_writers@).seconds as u64) + min_lease(
                self.matched_writers@,
            ).fraction / 1_000_000_000 <= u64::MAX,
        ensures
            min_lease(self.matched_writers@) == Duration::spec_infinite() ==> d.total_nanos()
                == 10_000_000_000,
            min_lease(self.matched_writers@) != Duration::spec_infinite() ==> d.total_nanos() == (
            min_lease(self.matched_writers@).seconds as u64) * 1_000_000_000 + min_lease(
                self.matched_writers@,
            ).fraction,
    {
        let mut min_ld = Duration::infinite();
        let mut i: usize = 0;
        proof {
            assert(self.matched_writers@.take(0) =~= Seq::<WriterProxy>::empty());
        }
        while i < self.matched_writers.len()
            invariant
                0 <= i <= self.matched_writers@.len(),
                min_ld == min_lease(self.matched_writers@.take(i as int)),
            decreases self.matched_writers@.len() - i,
        {
            proof {
                assert(self.matched_writers@.take(i + 1).drop_last() =~= self.matched_writers@.take(i as int));
            }
            let wld = self.matched_writers[i].qos.liveliness.0.lease_duration;
            if wld.lt(&min_ld) {
                min_ld = wld;
            }
            i = i + 1;
        }
        proof {
            assert(self.matched_writers@.take(i as int) =~= self.matched_writers@);
        }
        if min_ld.is_infinite() {
            CoreDuration::new(10, 0)
        } else {
            CoreDuration::new(min_ld.seconds as u64, min_ld.fraction)
        }
    }

    /// Removes the change `key` from the reader's cache, if it is there.
    pub fn remove_change_if_exist(&self, key: HCKey, hc: &mut HistoryCache)
        requires
            old(hc).wf(),
        ensures
            final(hc).wf(),
            old(hc).holds(crate::rtps::cache::key_of(key)) ==> crate::rtps::cache::spec_removed(
                *old(hc),
                *final(hc),
                crate::rtps::cache::key_of(key),
                key.seq_num.0 as int,
                false,
            ),
            !old(hc).holds(crate::rtps::cache::key_of(key)) ==> *final(hc) == *old(hc),
    {
        hc.remove_change_if_exist(&key);
    }

    /// Matches the writer `remote_writer_guid` as discovery announced it.
    ///
    /// A new writer whose offered QoS does not satisfy the reader's is not
    /// matched: the status reports the incompatibility. A new compatible
    /// writer gets a proxy and an initial delivery state, the subscription
    /// and liveliness statuses report it, and a deadline timer is asked for
    /// when the reader's deadline is finite. A writer matched before gets
    /// the announced QoS, locators and largest serialized size.
    pub fn matched_writer_add_with_default_locator(
        &mut self,
        remote_writer_guid: GUID,
        unicast_locator_list: Vec<Locator>,
        multicast_locator_list: Vec<Locator>,
        default_unicast_locator_list: Vec<Locator>,
        default_multicast_locator_list: Vec<Locator>,
        data_max_size_serialized: i32,
        qos: DataWriterQosPolicies,
        notes: &mut Vec<DataReaderStatusChanged>,
    ) -> (rt: Option<ReaderTimer>)
        requires
            old(self).wf(),
            old(self).matched(remote_writer_guid) is None && spec_compatible(qos, old(self).qos)
                ==> has_locator(
                unicast_locator_list@,
                multicast_locator_list@,
                default_unicast_locator_list@,
                default_multicast_locator_list@,
            ),
        ensures
            final(self).wf(),
            final(self).guid == old(self).guid,
            final(self).reliability_level == old(self).reliability_level,
            final(self).heartbeat_response_delay == old(self).heartbeat_response_delay,
            final(self).qos == old(self).qos,
            final(self).unmatched_writers@ == old(self).unmatched_writers@,
            old(self).matched(remote_writer_guid) is None && !spec_compatible(qos, old(self).qos) ==> {
                &&& rt is None
                &&& final(self).matched_writers@ == old(self).matched_writers@
                &&& final(self).writer_communication_state@ == old(self).writer_communication_state@
                &&& final(notes)@.len() == old(notes)@.len() + 1
                &&& final(notes)@.drop_last() == old(notes)@
                &&& final(notes)@.last() matches DataReaderStatusChanged::RequestedIncompatibleQos(m)
                    && m@ == compat_message(qos, old(self).qos, false)
            },
            old(self).matched(remote_writer_guid) is None && spec_compatible(qos, old(self).qos) ==> {
                &&& forall|m: int|
                    #[trigger] find_by(final(self).matched_writers@, wgk(), m) == if m
                        == remote_writer_guid.rank() {
                        Some(
                            WriterProxy {
                                remote_writer_guid,
                                unicast_locator_list,
                                multicast_locator_list,
                                default_unicast_locator_list,
                                default_multicast_locator_list,
                                data_max_size_serialized,
                                qos,
                                cache_state: final(self).matched(remote_writer_guid).unwrap().cache_state,
                            },
                        )
                    } else {
                        find_by(old(self).matched_writers@, wgk(), m)
                    }
                &&& final(self).matched(remote_writer_guid).unwrap().cache_state@.len() == 0
                &&& final(self).matched_writers@.len() == old(self).matched_writers@.len() + 1
                &&& forall|m: int|
                    #[trigger] find_by(final(self).writer_communication_state@, sgk(), m) == if m
                        == remote_writer_guid.rank() {
                        Some((remote_writer_guid, ReaderState::Initial))
                    } else {
                        find_by(old(self).writer_communication_state@, sgk(), m)
                    }
                &&& final(notes)@ == old(notes)@ + seq![
                    DataReaderStatusChanged::SubscriptionMatched(
                        SubscriptionMatchedStatus {
                            total_count: count32(
                                (final(self).matched_writers@.len() + final(self).unmatched_writers@.len()) as int,
                            ),
                            total_count_change: 1,
                            current_count: count32(final(self).matched_writers@.len() as int),
                            current_count_change: 1,
                            guid: remote_writer_guid,
                        },
                    ),
                    liveliness_note(
                        final(self).matched_writers@.len() as int,
                        final(self).unmatched_writers@.len() as int,
                        1,
                        0,
                        remote_writer_guid,
                    ),
                ]
                &&& rt == if old(self).qos.deadline.0.period != Duration::spec_infinite() {
                    Some(
                        ReaderTimer::Deadline(
                            old(self).guid.entity_id,
                            remote_writer_guid,
                            old(self).qos.deadline.0.period,
                        ),
                    )
                } else {
                    None
                }
            },
            old(self).matched(remote_writer_guid) matches Some(wp) ==> {
                &&& rt is None
                &&& forall|m: int|
                    #[trigger] find_by(final(self).matched_writers@, wgk(), m) == if m
                        == remote_writer_guid.rank() {
                        Some(
                            WriterProxy {
                                unicast_locator_list,
                                multicast_locator_list,
                                default_unicast_locator_list,
                                default_multicast_locator_list,
                                data_max_size_serialized,
                                qos,
                                ..wp
                            },
                        )
                    } else {
                        find_by(old(self).matched_writers@, wgk(), m)
                    }
                &&& final(self).writer_communication_state@ == old(self).writer_communication_state@
                &&& final(notes)@ == old(notes)@
            },
    {
        match take_proxy(&mut self.matched_writers, &remote_writer_guid) {
            None => {
                match self.qos.is_compatible(&qos) {
                    Err(e) => {
                        notes.push(DataReaderStatusChanged::RequestedIncompatibleQos(e));
                        return None;
                    },
                    Ok(()) => {},
                }
                let wp = WriterProxy::new(
                    remote_writer_guid,
                    unicast_locator_list,
                    multicast_locator_list,
                    default_unicast_locator_list,
                    default_multicast_locator_list,
                    data_max_size_serialized,
                    qos,
                );
                put_proxy(&mut self.matched_writers, wp);
                put_state(&mut self.writer_communication_state, remote_writer_guid, ReaderState::Initial);
                let t = count_of_sum(self.matched_writers.len(), self.unmatched_writers.len());
                let c = count_of(self.matched_writers.len());
                notes.push(
                    DataReaderStatusChanged::SubscriptionMatched(
                        SubscriptionMatchedStatus::new(t, 1, c, 1, remote_writer_guid),
                    ),
                );
                let n = count_of(self.unmatched_writers.len());
                notes.push(
                    DataReaderStatusChanged::LivelinessChanged(
                        LivelinessChangedStatus::new(c, n, 1, 0, remote_writer_guid),
                    ),
                );
                let period = self.qos.deadline().period;
                if !period.is_infinite() {
                    Some(ReaderTimer::Deadline(self.guid.entity_id, remote_writer_guid, period))
                } else {
                    None
                }
            },
            Some(mut wp) => {
                wp.qos = qos;
                wp.unicast_locator_list = unicast_locator_list;
                wp.multicast_locator_list = multicast_locator_list;
                wp.default_unicast_locator_list = default_unicast_locator_list;
                wp.default_multicast_locator_list = default_multicast_locator_list;
                wp.data_max_size_serialized = data_max_size_serialized;
                put_proxy(&mut self.matched_writers, wp);
                None
            },
        }
    }

    /// Matches a writer announced without default locators.
    pub fn matched_writer_add(
        &mut self,
        remote_writer_guid: GUID,
        unicast_locator_list: Vec<Locator>,
        multicast_locator_list: Vec<Locator>,
        data_max_size_serialized: i32,
        qos: DataWriterQosPolicies,
        notes: &mut Vec<DataReaderStatusChanged>,
    )
        requires
            old(self).wf(),
            old(self).matched(remote_writer_guid) is None && spec_compatible(qos, old(self).qos)
                ==> unicast_locator_list@.len() + multicast_locator_list@.len() > 0,
        ensures
            final(self).wf(),
            final(self).guid == old(self).guid,
            final(self).qos == old(self).qos,
            final(self).unmatched_writers@ == old(self).unmatched_writers@,
            old(self).matched(remote_writer_guid) is None && !spec_compatible(qos, old(self).qos)
                ==> final(self).matched_writers@ == old(self).matched_writers@,
            old(self).matched(remote_writer_guid) is None && spec_compatible(qos, old(self).qos)
                ==> (final(self).matched(remote_writer_guid) matches Some(wp) && wp.qos == qos
                && wp.unicast_locator_list == unicast_locator_list && wp.multicast_locator_list
                == multicast_locator_list && wp.default_unicast_locator_list@.len() == 0
                && wp.default_multicast_locator_list@.len() == 0 && wp.data_max_size_serialized
                == data_max_size_serialized && wp.cache_state@.len() == 0),
            old(self).matched(remote_writer_guid) matches Some(wp) ==> final(self).matched(
                remote_writer_guid,
            ) == Some(
                WriterProxy {
                    unicast_locator_list,
                    multicast_locator_list,
                    default_unicast_locator_list: final(self).matched(remote_writer_guid).unwrap().default_unicast_locator_list,
                    default_multicast_locator_list: final(self).matched(remote_writer_guid).unwrap().default_multicast_locator_list,
                    data_max_size_serialized,
                    qos,
                    ..wp
                },
            ) && final(self).matched(remote_writer_guid).unwrap().default_unicast_locator_list@.len() == 0
                && final(self).matched(remote_writer_guid).unwrap().default_multicast_locator_list@.len() == 0,
            old(self).matched(remote_writer_guid) is Some ==> final(notes)@ == old(notes)@,
    {
        let _ = self.matched_writer_add_with_default_locator(
            remote_writer_guid,
            unicast_locator_list,
            multicast_locator_list,
            Vec::new(),
            Vec::new(),
            data_max_size_serialized,
            qos,
            notes,
        );
    }

    /// Drops the numbers a gap covers from the waiting list of writer `g`,
    /// if the reader waits for it.
    fn forget_covered(&mut self, g: &GUID, start: i64, base: i64, set: &Vec<SequenceNumber>)
        requires
            old(self).wf(),
        ensures
            final(self).wf(),
            final(self).guid == old(self).guid,
            final(self).reliability_level == old(self).reliability_level,
            final(self).heartbeat_response_delay == old(self).heartbeat_response_delay,
            final(self).qos == old(self).qos,
            final(self).matched_writers@ == old(self).matched_writers@,
            final(self).unmatched_writers@ == old(self).unmatched_writers@,
            forall|m: int|
                m != g.rank() ==> #[trigger] find_by(final(self).writer_communication_state@, sgk(), m)
                    == find_by(old(self).writer_communication_state@, sgk(), m),
            sview(final(self).writer_communication_state@, g.rank()) == match sview(
                old(self).writer_communication_state@,
                g.rank(),
            ) {
                Some(ReaderStateView::Waiting(w)) => Some(
                    ReaderStateView::Waiting(
                        select(w, not_covered(start as int, base as int, sn_values(set@))),
                    ),
                ),
                other => other,
            },
    {
        match state_index(&self.writer_communication_state, g) {
            Some(i) => {
                let waiting = match &self.writer_communication_state[i].1 {
                    ReaderState::Waiting(w) => Some(drop_covered(w, start, base, set)),
                    _ => None,
                };
                match waiting {
                    Some(nw) => {
                        let ghost before = self.writer_communication_state@;
                        let gg = self.writer_communication_state[i].0;
                        let ghost e = (gg, ReaderState::Waiting(nw));
                        proof {
                            lemma_update_find(before, sgk(), i as int, e);
                        }
                        self.writer_communication_state.set(i, (gg, ReaderState::Waiting(nw)));
                    },
                    None => {},
                }
            },
            None => {},
        }
    }

    /// Answers a GAP from the writer `writer_guid`: the changes from
    /// `gap_start` up to the base of `gap_list`, and those `gap_list` marks,
    /// will not be sent. A writer that was unmatched becomes matched again
    /// (see `rematch`); for a matched writer each of those changes is
    /// recorded as received and irrelevant, and dropped from the list the
    /// reader waits for. A gap from an unknown writer changes nothing.
    pub fn handle_gap(
        &mut self,
        writer_guid: GUID,
        gap_start: SequenceNumber,
        gap_list: &SequenceNumberSet,
        notes: &mut Vec<DataReaderStatusChanged>,
    )
        requires
            old(self).wf(),
            gap_list.spec_listable(),
        ensures
            final(self).wf(),
            final(self).guid == old(self).guid,
            final(self).qos == old(self).qos,
            ({
                let matched = old(self).matched(writer_guid) is Some || old(self).unmatched(writer_guid) is Some;
                let wp0 = match old(self).unmatched(writer_guid) {
                    Some(w) => w,
                    None => old(self).matched(writer_guid).unwrap(),
                };
                let cover = |m: int| gap_covers(gap_start.0 as int, gap_list.bitmap_base.0 as int, gap_list.spec_set(), m);
                &&& old(self).unmatched(writer_guid) is Some ==> final(self).unmatched(writer_guid) is None
                    && final(notes)@.len() == old(notes)@.len() + 1
                    && final(notes)@.last() == liveliness_note(
                        final(self).matched_writers@.len() as int,
                        final(self).unmatched_writers@.len() as int,
                        1,
                        -1i32,
                        writer_guid,
                    )
                &&& old(self).unmatched(writer_guid) is None ==> final(notes)@ == old(notes)@
                    && final(self).unmatched_writers@ == old(self).unmatched_writers@
                &&& forall|m: int|
                    m != writer_guid.rank() ==> #[trigger] find_by(final(self).matched_writers@, wgk(), m)
                        == find_by(old(self).matched_writers@, wgk(), m)
                &&& forall|m: int|
                    m != writer_guid.rank() ==> #[trigger] find_by(final(self).unmatched_writers@, wgk(), m)
                        == find_by(old(self).unmatched_writers@, wgk(), m)
                &&& forall|m: int|
                    m != writer_guid.rank() ==> #[trigger] find_by(final(self).writer_communication_state@, sgk(), m)
                        == find_by(old(self).writer_communication_state@, sgk(), m)
                &&& matched ==> {
                    &&& final(self).matched(writer_guid) matches Some(wp) && same_but_states(wp, wp0)
                        && forall|m: int|
                        #[trigger] find_by(wp.cache_state@, wsn(), m) == if cover(m) {
                            Some(irrelevant_entry(m))
                        } else {
                            find_by(wp0.cache_state@, wsn(), m)
                        }
                    &&& sview(final(self).writer_communication_state@, writer_guid.rank()) == match sview(
                        old(self).writer_communication_state@,
                        writer_guid.rank(),
                    ) {
                        Some(ReaderStateView::Waiting(w)) => Some(
                            ReaderStateView::Waiting(
                                select(
                                    w,
                                    not_covered(
                                        gap_start.0 as int,
                                        gap_list.bitmap_base.0 as int,
                                        gap_list.spec_set(),
                                    ),
                                ),
                            ),
                        ),
                        other => other,
                    }
                }
                &&& !matched ==> final(self).matched_writers@ == old(self).matched_writers@
                    && final(self).writer_communication_state@ == old(self).writer_communication_state@
            }),
    {
        self.rematch(writer_guid, notes);
        match take_proxy(&mut self.matched_writers, &writer_guid) {
            Some(mut wp) => {
                let ghost wp0 = wp;
                let base = gap_list.base();
                let mut seq_num = gap_start.0;
                while seq_num < base.0
                    invariant
                        wp.wf(),
                        same_but_states(wp, wp0),
                        gap_start.0 <= seq_num,
                        seq_num <= base.0 || seq_num == gap_start.0,
                        forall|m: int|
                            #[trigger] find_by(wp.cache_state@, wsn(), m) == if gap_start.0 <= m < seq_num {
                                Some(irrelevant_entry(m))
                            } else {
                                find_by(wp0.cache_state@, wsn(), m)
                            },
                    decreases base.0 - seq_num,
                {
                    wp.irrelevant_change_set(SequenceNumber(seq_num));
                    seq_num = seq_num + 1;
                }
                let set = gap_list.set();
                let ghost mid = wp;
                let mut j: usize = 0;
                while j < set.len()
                    invariant
                        0 <= j <= set@.len(),
                        wp.wf(),
                        same_but_states(wp, wp0),
                        forall|m: int|
                            #[trigger] find_by(wp.cache_state@, wsn(), m) == if sn_values(set@).take(j as int).contains(m) {
                                Some(irrelevant_entry(m))
                            } else {
                                find_by(mid.cache_state@, wsn(), m)
                            },
                    decreases set@.len() - j,
                {
                    proof {
                        assert(sn_values(set@).take(j + 1) =~= sn_values(set@).take(j as int).push(set@[j as int].0 as int));
                        lemma_contains_push(sn_values(set@).take(j as int), set@[j as int].0 as int);
                    }
                    wp.irrelevant_change_set(set[j]);
                    j = j + 1;
                }
                proof {
                    assert(sn_values(set@).take(j as int) =~= sn_values(set@));
                    assert forall|m: int|
                        #[trigger] find_by(wp.cache_state@, wsn(), m) == if gap_covers(
                            gap_start.0 as int,
                            gap_list.bitmap_base.0 as int,
                            gap_list.spec_set(),
                            m,
                        ) {
                            Some(irrelevant_entry(m))
                        } else {
                            find_by(wp0.cache_state@, wsn(), m)
                        } by {
                        assert(find_by(mid.cache_state@, wsn(), m) == if gap_start.0 <= m < base.0 {
                            Some(irrelevant_entry(m))
                        } else {
                            find_by(wp0.cache_state@, wsn(), m)
                        });
                    }
                }
                put_proxy(&mut self.matched_writers, wp);
                self.forget_covered(&writer_guid, gap_start.0, base.0, &set);
            },
            None => {},
        }
    }

    /// Answers the writer `writer_guid` once the heartbeat response delay is
    /// over: see `answered`. The acknowledgement is to be sent to each of
    /// its locators.
    pub fn handle_hb_response_timeout(
        &mut self,
        writer_guid: GUID,
        hc: &mut HistoryCache,
        notes: &mut Vec<DataReaderStatusChanged>,
    ) -> (ack: Option<AckNackRequest>)
        requires
            old(self).wf(),
            old(hc).wf(),
            old(hc).hc_type == HistoryCacheType::Reader,
            old(self).matched(writer_guid) matches Some(wp) ==> ack_fits(wp),
        ensures
            final(self).wf(),
            final(hc).wf(),
            answered(*old(self), *final(self), *old(hc), *final(hc), old(notes)@, final(notes)@, ack, writer_guid),
    {
        let i = match proxy_index(&self.matched_writers, &writer_guid) {
            Some(i) => i,
            None => return None,
        };
        let ghost wp = self.matched_writers@[i as int];
        proof {
            lemma_missing_sorted(wp);
        }
        let missing = self.matched_writers[i].missing_changes();
        let base = if missing.len() == 0 {
            let base = SequenceNumber(self.matched_writers[i].available_changes_max().0 + 1);
            match state_index(&self.writer_communication_state, &writer_guid) {
                Some(k) => {
                    let ghost before = self.writer_communication_state@;
                    let gg = self.writer_communication_state[k].0;
                    proof {
                        lemma_update_find(before, sgk(), k as int, (gg, ReaderState::Expect(base)));
                    }
                    self.writer_communication_state.set(k, (gg, ReaderState::Expect(base)));
                    if hc.flush() {
                        notes.push(DataReaderStatusChanged::DataAvailable);
                    }
                },
                None => {},
            }
            base
        } else {
            match state_index(&self.writer_communication_state, &writer_guid) {
                Some(k) => {
                    let ghost before = self.writer_communication_state@;
                    let gg = self.writer_communication_state[k].0;
                    let waiting = copy_seq_nums(&missing);
                    proof {
                        lemma_update_find(before, sgk(), k as int, (gg, ReaderState::Waiting(waiting)));
                    }
                    self.writer_communication_state.set(k, (gg, ReaderState::Waiting(waiting)));
                },
                None => {},
            }
            missing[0]
        };
        let reader_sn_state = SequenceNumberSet::from_vec(base, missing);
        let wp_ref = &self.matched_writers[i];
        let ll = match Self::get_unicast_ll_from_proxy(wp_ref) {
            Some(ll) => copy_locators(ll),
            None => return None,
        };
        Some(
            AckNackRequest {
                dst_guid_prefix: wp_ref.remote_writer_guid.guid_prefix,
                writer_id: writer_guid.entity_id,
                reader_id: self.guid.entity_id,
                reader_sn_state,
                count: 1,
                final_flag: false,
                locators: ll,
            },
        )
    }

    /// Answers a heartbeat of the writer `writer_guid` announcing the
    /// changes `first_sn..=last_sn`.
    ///
    /// A writer that was unmatched becomes matched again (see `rematch`). For
    /// a matched writer, the changes the application took before `first_sn`
    /// are forgotten by the cache and the proxy, and the proxy learns what
    /// the heartbeat announces (see `hb_entry`). The reader must answer when
    /// the heartbeat is not final, or when it is final, not only about
    /// liveliness, and changes are missing: with no response delay it
    /// answers at once (see `handle_hb_response_timeout`), otherwise it asks
    /// for the heartbeat timer. A heartbeat from an unknown writer changes
    /// nothing.
    #[verifier::spinoff_prover]
    pub fn handle_heartbeat(
        &mut self,
        writer_guid: GUID,
        hb_flag: u8,
        first_sn: SequenceNumber,
        last_sn: SequenceNumber,
        hc: &mut HistoryCache,
        notes: &mut Vec<DataReaderStatusChanged>,
    ) -> (r: (Option<ReaderTimer>, Option<AckNackRequest>))
        requires
            old(self).wf(),
            old(hc).wf(),
            old(hc).hc_type == HistoryCacheType::Reader,
            old(self).heartbeat_response_delay == Duration::spec_zero() ==> hb_ack_fits(
                *old(self),
                *old(hc),
                writer_guid,
                first_sn.0 as int,
                last_sn.0 as int,
            ),
        ensures
            final(self).wf(),
            final(hc).wf(),
            final(self).guid == old(self).guid,
            final(self).qos == old(self).qos,
            final(self).heartbeat_response_delay == old(self).heartbeat_response_delay,
            forall|m: int|
                m != writer_guid.rank() ==> #[trigger] find_by(final(self).matched_writers@, wgk(), m)
                    == find_by(old(self).matched_writers@, wgk(), m),
            forall|m: int|
                m != writer_guid.rank() ==> #[trigger] find_by(final(self).unmatched_writers@, wgk(), m)
                    == find_by(old(self).unmatched_writers@, wgk(), m),
            old(self).unmatched(writer_guid) is Some ==> final(self).unmatched(writer_guid) is None,
            old(self).unmatched(writer_guid) is None ==> final(self).unmatched_writers@
                == old(self).unmatched_writers@,
            old(self).matched(writer_guid) is None && old(self).unmatched(writer_guid) is None ==> {
                &&& r == (None::<ReaderTimer>, None::<AckNackRequest>)
                &&& final(self).matched_writers@ == old(self).matched_writers@
                &&& final(self).writer_communication_state@ == old(self).writer_communication_state@
                &&& *final(hc) == *old(hc)
                &&& final(notes)@ == old(notes)@
            },
            old(self).matched(writer_guid) is Some || old(self).unmatched(writer_guid) is Some ==> heartbeat_answered(
                *old(self),
                *final(self),
                *old(hc),
                *final(hc),
                old(notes)@,
                final(notes)@,
                r,
                writer_guid,
                hb_flag,
                first_sn.0 as int,
                last_sn.0 as int,
            ),
    {
        self.rematch(writer_guid, notes);
        let ghost mid_notes = notes@;
        let mut wp = match take_proxy(&mut self.matched_writers, &writer_guid) {
            Some(wp) => wp,
            None => return (None, None),
        };
        let ghost wp0 = wp;
        let ghost hc0 = *hc;
        let taken = hc.get_taken_less_than(writer_guid, first_sn);
        let mut j: usize = 0;
        while j < taken.len()
            invariant
                0 <= j <= taken@.len(),
                wp.wf(),
                same_but_states(wp, wp0),
                taken@ == select(hc0.taken_key@, taken_before(writer_guid.rank(), first_sn.0 as int)),
                forall|m: int|
                    #[trigger] find_by(wp.cache_state@, wsn(), m) == if exists|i: int|
                        0 <= i < j && (#[trigger] taken@[i]).seq_num.0 == m {
                        None
                    } else {
                        find_by(wp0.cache_state@, wsn(), m)
                    },
            decreases taken@.len() - j,
        {
            wp.remove_cache_state(&taken[j].seq_num);
            proof {
                assert forall|m: int|
                    #[trigger] find_by(wp.cache_state@, wsn(), m) == if exists|i: int|
                        0 <= i < j + 1 && (#[trigger] taken@[i]).seq_num.0 == m {
                        None
                    } else {
                        find_by(wp0.cache_state@, wsn(), m)
                    } by {
                    if m == taken@[j as int].seq_num.0 {
                        assert(taken@[j as int].seq_num.0 == m);
                    }
                }
            }
            j = j + 1;
        }
        let ghost wp1 = wp;
        wp.missing_changes_update(first_sn, last_sn);
        let ghost wp2 = wp;
        wp.lost_changes_update(first_sn);
        proof {
            lemma_map_find(wp2.cache_state@, wsn(), lose_before(first_sn.0 as int));
            lemma_select_members(hc0.taken_key@, taken_before(writer_guid.rank(), first_sn.0 as int));
            assert forall|m: int|
                #[trigger] find_by(wp.cache_state@, wsn(), m) == hb_entry(
                    find_by(wp0.cache_state@, wsn(), m),
                    m,
                    first_sn.0 as int,
                    last_sn.0 as int,
                    taken_below(hc0.taken_key@, writer_guid.rank(), first_sn.0 as int, m),
                ) by {
                let tk = taken_below(hc0.taken_key@, writer_guid.rank(), first_sn.0 as int, m);
                let ex = exists|i: int| 0 <= i < taken@.len() && (#[trigger] taken@[i]).seq_num.0 == m;
                if ex {
                    let i = choose|i: int| 0 <= i < taken@.len() && (#[trigger] taken@[i]).seq_num.0 == m;
                    assert(taken@.contains(taken@[i]));
                    let k = choose|k: int| 0 <= k < hc0.taken_key@.len() && hc0.taken_key@[k] == taken@[i];
                    assert(taken_before(writer_guid.rank(), first_sn.0 as int)(hc0.taken_key@[k]));
                }
                if tk {
                    let k = choose|k: int|
                        0 <= k < hc0.taken_key@.len() && taken_before(writer_guid.rank(), first_sn.0 as int)(
                            #[trigger] hc0.taken_key@[k],
                        ) && hc0.taken_key@[k].seq_num.0 == m;
                    assert(hc0.taken_key@.contains(hc0.taken_key@[k]));
                    assert(taken@.contains(hc0.taken_key@[k]));
                    let i = choose|i: int| 0 <= i < taken@.len() && taken@[i] == hc0.taken_key@[k];
                    assert(taken@[i].seq_num.0 == m);
                }
                assert(find_by(wp1.cache_state@, wsn(), m) == if tk {
                    None
                } else {
                    find_by(wp0.cache_state@, wsn(), m)
                });
            }
        }
        let final_flag = hb_flag & 0x02u8 != 0;
        let liveliness_flag = hb_flag & 0x04u8 != 0;
        let must_answer = if !final_flag {
            true
        } else if !liveliness_flag {
            let missing = wp.missing_changes();
            missing.len() > 0
        } else {
            false
        };
        put_proxy(&mut self.matched_writers, wp);
        let ghost mid = *self;
        let ghost mid_hc = *hc;
        if must_answer {
            if self.heartbeat_response_delay.seconds == 0 && self.heartbeat_response_delay.fraction == 0 {
                proof {
                    let wpf = self.matched(writer_guid).unwrap();
                    lemma_ack_fits_from(wpf, *old(self), hc0, writer_guid, first_sn.0 as int, last_sn.0 as int);
                }
                let ack = self.handle_hb_response_timeout(writer_guid, hc, notes);
                proof {
                    assert(hb_updated(*old(self), mid, hc0, mid_hc, writer_guid, first_sn.0 as int, last_sn.0 as int));
                }
                (None, ack)
            } else {
                proof {
                    assert(hb_updated(*old(self), mid, hc0, mid_hc, writer_guid, first_sn.0 as int, last_sn.0 as int));
                }
                (Some(ReaderTimer::Heartbeat(self.guid.entity_id, writer_guid)), None)
            }
        } else {
            proof {
                assert(hb_updated(*old(self), mid, hc0, mid_hc, writer_guid, first_sn.0 as int, last_sn.0 as int));
            }
            (None, None)
        }
    }

    /// The reliable way to take in a change from the matched writer `wg`:
    /// the cache adds it; the delivery state moves on (see
    /// `state_after_receive`), and when that completes what was waited for
    /// or expected the cache is flushed and data is reported available; the
    /// proxy records the change as received.
    fn reliable_receive(
        &mut self,
        wg: GUID,
        change: CacheChange,
        hc: &mut HistoryCache,
        notes: &mut Vec<DataReaderStatusChanged>,
    )
        requires
            old(self).wf(),
            old(hc).wf(),
            old(hc).hc_type == HistoryCacheType::Reader,
            can_add(*old(hc), change, true, old(self).qos.resource_limits.0.max_samples),
            expect_fits(sview(old(self).writer_communication_state@, wg.rank()), change.sequence_number.0 as int),
        ensures
            reliably_received(*old(self), *final(self), *old(hc), *final(hc), old(notes)@, final(notes)@, wg, change),
    {
        let seq = change.sequence_number;
        let limits = self.qos.resource_limits();
        let history = self.qos.history();
        let ghost hc0 = *hc;
        let _ = hc.add_change(change, true, limits, history);
        let ghost mid = *hc;
        match state_index(&self.writer_communication_state, &wg) {
            Some(k) => {
                let upd = match &self.writer_communication_state[k].1 {
                    ReaderState::Waiting(w) => {
                        let nw = drop_seq(w, seq.0);
                        let done = nw.len() == 0;
                        Some((ReaderState::Waiting(nw), done))
                    },
                    ReaderState::Expect(x) => {
                        if x.0 == seq.0 {
                            Some((ReaderState::Expect(SequenceNumber(x.0 + 1)), true))
                        } else {
                            None
                        }
                    },
                    ReaderState::Initial => None,
                };
                match upd {
                    Some((ns, done)) => {
                        let ghost before = self.writer_communication_state@;
                        let gg = self.writer_communication_state[k].0;
                        proof {
                            lemma_update_find(before, sgk(), k as int, (gg, ns));
                        }
                        self.writer_communication_state.set(k, (gg, ns));
                        if done {
                            let _ = hc.flush();
                            notes.push(DataReaderStatusChanged::DataAvailable);
                        }
                    },
                    None => {},
                }
            },
            None => {},
        }
        proof {
            assert(spec_added(hc0, mid, change, true, limits.max_samples, history));
        }
        match take_proxy(&mut self.matched_writers, &wg) {
            Some(mut wp) => {
                wp.received_change_set(seq);
                put_proxy(&mut self.matched_writers, wp);
            },
            None => {},
        }
    }

    /// Drops from the matched proxies the states of the changes the
    /// application took.
    fn drop_taken_states(&mut self, taken: &Vec<HCKey>)
        requires
            old(self).wf(),
        ensures
            final(self).wf(),
            final(self).guid == old(self).guid,
            final(self).reliability_level == old(self).reliability_level,
            final(self).heartbeat_response_delay == old(self).heartbeat_response_delay,
            final(self).qos == old(self).qos,
            final(self).unmatched_writers@ == old(self).unmatched_writers@,
            final(self).writer_communication_state@ == old(self).writer_communication_state@,
            forall|r: int|
                match (#[trigger] find_by(final(self).matched_writers@, wgk(), r), find_by(
                    old(self).matched_writers@,
                    wgk(),
                    r,
                )) {
                    (Some(a), Some(b)) => taken_dropped(a, b, taken@),
                    (None, None) => true,
                    _ => false,
                },
    {
        let mut j: usize = 0;
        while j < taken.len()
            invariant
                0 <= j <= taken@.len(),
                self.wf(),
                self.guid == old(self).guid,
                self.reliability_level == old(self).reliability_level,
                self.heartbeat_response_delay == old(self).heartbeat_response_delay,
                self.qos == old(self).qos,
                self.unmatched_writers@ == old(self).unmatched_writers@,
                self.writer_communication_state@ == old(self).writer_communication_state@,
                forall|r: int|
                    match (#[trigger] find_by(self.matched_writers@, wgk(), r), find_by(
                        old(self).matched_writers@,
                        wgk(),
                        r,
                    )) {
                        (Some(a), Some(b)) => taken_dropped(a, b, taken@.take(j as int)),
                        (None, None) => true,
                        _ => false,
                    },
            decreases taken@.len() - j,
        {
            let key = taken[j];
            let ghost pre = self.matched_writers@;
            match take_proxy(&mut self.matched_writers, &key.guid) {
                Some(mut wp) => {
                    let ghost w0 = wp;
                    wp.remove_cache_state(&key.seq_num);
                    put_proxy(&mut self.matched_writers, wp);
                    proof {
                        assert forall|r: int|
                            match (#[trigger] find_by(self.matched_writers@, wgk(), r), find_by(
                                old(self).matched_writers@,
                                wgk(),
                                r,
                            )) {
                                (Some(a), Some(b)) => taken_dropped(a, b, taken@.take(j + 1)),
                                (None, None) => true,
                                _ => false,
                            } by {
                            if r == key.guid.rank() {
                                let b = find_by(old(self).matched_writers@, wgk(), r).unwrap();
                                assert(find_by(pre, wgk(), r) == Some(w0));
                                assert forall|m: int|
                                    #[trigger] find_by(wp.cache_state@, wsn(), m) == if taken_of(
                                        taken@.take(j + 1),
                                        wgk()(b),
                                        m,
                                    ) {
                                        None
                                    } else {
                                        find_by(b.cache_state@, wsn(), m)
                                    } by {
                                    lemma_taken_of_step2(taken@, j as int, r, m);
                                }
                            } else {
                                match find_by(old(self).matched_writers@, wgk(), r) {
                                    Some(b) => {
                                        let a = find_by(self.matched_writers@, wgk(), r).unwrap();
                                        assert forall|m: int|
                                            #[trigger] find_by(a.cache_state@, wsn(), m) == if taken_of(
                                                taken@.take(j + 1),
                                                wgk()(b),
                                                m,
                                            ) {
                                                None
                                            } else {
                                                find_by(b.cache_state@, wsn(), m)
                                            } by {
                                            lemma_taken_of_step2(taken@, j as int, r, m);
                                        }
                                    },
                                    None => {},
                                }
                            }
                        }
                    }
                },
                None => {
                    proof {
                        assert forall|r: int|
                            match (#[trigger] find_by(self.matched_writers@, wgk(), r), find_by(
                                old(self).matched_writers@,
                                wgk(),
                                r,
                            )) {
                                (Some(a), Some(b)) => taken_dropped(a, b, taken@.take(j + 1)),
                                (None, None) => true,
                                _ => false,
                            } by {
                            match find_by(old(self).matched_writers@, wgk(), r) {
                                Some(b) => {
                                    let a = find_by(self.matched_writers@, wgk(), r).unwrap();
                                    assert(r != key.guid.rank());
                                    assert forall|m: int|
                                        #[trigger] find_by(a.cache_state@, wsn(), m) == if taken_of(
                                            taken@.take(j + 1),
                                            wgk()(b),
                                            m,
                                        ) {
                                            None
                                        } else {
                                            find_by(b.cache_state@, wsn(), m)
                                        } by {
                                        lemma_taken_of_step2(taken@, j as int, r, m);
                                    }
                                },
                                None => {},
                            }
                        }
                    }
                },
            }
            j = j + 1;
        }
        proof {
            assert(taken@.take(j as int) =~= taken@);
        }
    }

    /// The best-effort way to take in a change from writer `wg`: the states
    /// of the changes the application took are dropped from the matched
    /// proxies; a change from a matched writer numbered at least one past
    /// the largest received or lost is added to the cache, the cache is
    /// flushed, data is reported available, and the proxy records the change
    /// (and, for one beyond the next, the changes before it as lost). An
    /// older change is ignored.
    fn best_effort_receive(
        &mut self,
        wg: GUID,
        change: CacheChange,
        hc: &mut HistoryCache,
        notes: &mut Vec<DataReaderStatusChanged>,
    )
        requires
            old(self).wf(),
            old(hc).wf(),
            old(hc).hc_type == HistoryCacheType::Reader,
            can_add(*old(hc), change, false, old(self).qos.resource_limits.0.max_samples),
            old(self).matched(wg) matches Some(wp) ==> drop_fits(wp, old(hc).taken_key@),
        ensures
            best_effort_received(*old(self), *final(self), *old(hc), *final(hc), old(notes)@, final(notes)@, wg, change),
    {
        let ghost hc_old = *hc;
        let taken = hc.get_taken();
        let ghost hc1 = *hc;
        self.drop_taken_states(&taken);
        let limits = self.qos.resource_limits();
        let history = self.qos.history();
        let seq = change.sequence_number;
        let ghost before = self.matched_writers@;
        match take_proxy(&mut self.matched_writers, &wg) {
            Some(mut wp) => {
                let ghost wp1 = wp;
                proof {
                    let wp_old = old(self).matched(wg).unwrap();
                    lemma_drop_fits(wp1, wp_old, taken@);
                }
                let expected = wp.available_changes_max().0 + 1;
                if seq.0 >= expected {
                    let _ = hc.add_change(change, false, limits, history);
                    let ghost mid = *hc;
                    let _ = hc.flush();
                    notes.push(DataReaderStatusChanged::DataAvailable);
                    wp.received_change_set(seq);
                    let ghost wp2 = wp;
                    if seq.0 > expected {
                        wp.lost_changes_update(seq);
                        proof {
                            lemma_map_find(wp2.cache_state@, wsn(), lose_before(seq.0 as int));
                        }
                    }
                    put_proxy(&mut self.matched_writers, wp);
                    proof {
                        assert(spec_added(hc1, mid, change, false, limits.max_samples, history));
                        assert(be_received(self.matched(wg).unwrap(), wp1, seq, expected as int));
                        assert(taken_dropped(wp1, old(self).matched(wg).unwrap(), hc_old.taken_key@));
                        assert(taken_cleared(hc_old, hc1));
                    }
                } else {
                    put_proxy(&mut self.matched_writers, wp);
                    proof {
                        assert(taken_dropped(wp1, old(self).matched(wg).unwrap(), hc_old.taken_key@));
                        assert(taken_cleared(hc_old, hc1));
                    }
                }
            },
            None => {
                proof {
                    assert(taken_cleared(hc_old, hc1));
                }
            },
        }
    }

    /// Takes in a change received from the participant `source_guid_prefix`.
    ///
    /// The writer is the participant's entity that wrote the change. A
    /// writer that was unmatched is matched again (see `rematch`); a change
    /// from a writer the reader does not match is ignored. Otherwise the
    /// change asks for the timers of `change_timers`, and a reliable reader
    /// takes it in as `reliably_received` says, a best-effort one as
    /// `best_effort_received` says.
    pub fn add_change(
        &mut self,
        source_guid_prefix: GuidPrefix,
        change: CacheChange,
        hc: &mut HistoryCache,
        notes: &mut Vec<DataReaderStatusChanged>,
    ) -> (rt: Option<Vec<ReaderTimer>>)
        requires
            old(self).wf(),
            old(hc).wf(),
            old(hc).hc_type == HistoryCacheType::Reader,
            ({
                let wg = source_writer(source_guid_prefix, change);
                let known = old(self).matched(wg) is Some || old(self).unmatched(wg) is Some;
                &&& known ==> (change.data_value matches Some(p) ==> spec_endianness_of(
                    p.representation_identifier.bytes@,
                ) is Some)
                &&& known && old(self).reliability_level == ReliabilityQosKind::Reliable ==> can_add(
                    *old(hc),
                    change,
                    true,
                    old(self).qos.resource_limits.0.max_samples,
                ) && expect_fits(
                    sview(old(self).writer_communication_state@, wg.rank()),
                    change.sequence_number.0 as int,
                )
                &&& known && old(self).reliability_level != ReliabilityQosKind::Reliable ==> can_add(
                    *old(hc),
                    change,
                    false,
                    old(self).qos.resource_limits.0.max_samples,
                ) && drop_fits(heard_proxy(*old(self), wg), old(hc).taken_key@)
            }),
        ensures
            final(self).wf(),
            final(hc).wf(),
            ({
                let wg = source_writer(source_guid_prefix, change);
                let known = old(self).matched(wg) is Some || old(self).unmatched(wg) is Some;
                &&& !known ==> {
                    &&& rt is None
                    &&& same_reader(*final(self), *old(self))
                    &&& *final(hc) == *old(hc)
                    &&& final(notes)@ == old(notes)@
                }
                &&& known ==> exists|mid: Reader, mid_notes: Seq<DataReaderStatusChanged>|
                    #[trigger] rematched(*old(self), mid, old(notes)@, mid_notes, wg) && {
                        let timers = change_timers(*old(self), heard_proxy(*old(self), wg), wg, change);
                        &&& rt is None <==> timers.len() == 0
                        &&& rt matches Some(v) ==> v@ == timers
                        &&& old(self).reliability_level == ReliabilityQosKind::Reliable ==> reliably_received(
                            mid,
                            *final(self),
                            *old(hc),
                            *final(hc),
                            mid_notes,
                            final(notes)@,
                            wg,
                            change,
                        )
                        &&& old(self).reliability_level != ReliabilityQosKind::Reliable ==> best_effort_received(
                            mid,
                            *final(self),
                            *old(hc),
                            *final(hc),
                            mid_notes,
                            final(notes)@,
                            wg,
                            change,
                        )
                    }
            }),
    {
        let writer_guid = GUID::new(source_guid_prefix, change.writer_guid.entity_id);
        self.rematch(writer_guid, notes);
        let ghost mid = *self;
        let ghost mid_notes = notes@;
        let lifespan = match proxy_index(&self.matched_writers, &writer_guid) {
            Some(i) => self.matched_writers[i].qos.lifespan(),
            None => return None,
        };
        let deadline_period = self.qos.deadline().period;
        let mut rt: Vec<ReaderTimer> = Vec::new();
        if !lifespan.0.is_infinite() {
            rt.push(
                ReaderTimer::Lifespan(
                    self.guid.entity_id,
                    HCKey::new(writer_guid, change.sequence_number),
                    change.timestamp,
                    lifespan.0,
                ),
            );
        }
        if !deadline_period.is_infinite() {
            rt.push(ReaderTimer::Deadline(self.guid.entity_id, writer_guid, deadline_period));
        }
        proof {
            assert(rt@ =~= change_timers(*old(self), heard_proxy(*old(self), writer_guid), writer_guid, change));
        }
        if self.is_reliable() {
            self.reliable_receive(writer_guid, change, hc, notes);
        } else {
            self.best_effort_receive(writer_guid, change, hc, notes);
        }
        proof {
            assert(rematched(*old(self), mid, old(notes)@, mid_notes, writer_guid));
        }
        if rt.len() == 0 {
            None
        } else {
            Some(rt)
        }
    }

    /// How long the reader waits before answering a heartbeat, as a host
    /// duration; the fraction is passed on as nanoseconds.
    pub fn heartbeat_response_delay(&self) -> (d: CoreDuration)
        requires
            (self.heartbeat_response_delay.seconds as u64) + self.heartbeat_response_delay.fraction
                / 1_000_000_000 <= u64::MAX,
        ensures
            d.total_nanos() == (self.heartbeat_response_delay.seconds as u64) * 1_000_000_000
                + self.heartbeat_response_delay.fraction,
    {
        CoreDuration::new(
            self.heartbeat_response_delay.seconds as u64,
            self.heartbeat_response_delay.fraction,
        )
    }

    /// Tells the application that the writer `g` missed the requested
    /// deadline.
    pub fn notify_reqested_deadline_missed(&self, writer_guid: GUID, notes: &mut Vec<DataReaderStatusChanged>)
        ensures
            final(notes)@ == old(notes)@.push(DataReaderStatusChanged::RequestedDeadlineMissed(writer_guid)),
    {
        notes.push(DataReaderStatusChanged::RequestedDeadlineMissed(writer_guid));
    }

    /// The locators to answer the writer at: its unicast locators, else its
    /// multicast locators; none when it has neither.
    pub fn get_unicast_ll_from_proxy(writer_proxy: &WriterProxy) -> (r: Option<&Vec<Locator>>)
        ensures
            match r {
                Some(l) => l@ == if unicast_of(*writer_proxy).len() > 0 {
                    unicast_of(*writer_proxy)
                } else {
                    multicast_of(*writer_proxy)
                } && l@.len() > 0,
                None => unicast_of(*writer_proxy).len() == 0 && multicast_of(*writer_proxy).len() == 0,
            },
    {
        let ll_u = writer_proxy.get_unicast_locator_list();
        if ll_u.len() == 0 {
            let ll_m = writer_proxy.get_multicast_locator_list();
            if ll_m.len() == 0 {
                None
            } else {
                Some(ll_m)
            }
        } else {
            Some(ll_u)
        }
    }

    /// Whether a locator address holds an IPv4 multicast address
    /// (224.0.0.0 to 239.255.255.255) in its last four octets.
    pub fn is_ipv4_multicast(ipv4_addr: &[u8; 16]) -> (r: bool)
        ensures
            r == (224 <= ipv4_addr@[12] < 240),
    {
        let b = ipv4_addr[12];
        let r = ((b >> 4u8) ^ 0b1110u8) == 0;
        assert(r == (224 <= b < 240)) by (bit_vector)
            requires
                r == (((b >> 4u8) ^ 0b1110u8) == 0),
        ;
        r
    }
}

/// Going one item further adds it to the selection when it is picked.
proof fn lemma_select_len_step(s: Seq<WriterProxy>, i: int, p: spec_fn(WriterProxy) -> bool)
    requires
        0 <= i < s.len(),
    ensures
        select(s.take(i + 1), p) == if p(s[i]) {
            select(s.take(i), p).push(s[i])
        } else {
            select(s.take(i), p)
        },
{
    assert(s.take(i + 1).drop_last() =~= s.take(i));
}

/// Going one item further adds its rank to the removed ones when it is of
/// the participant.
proof fn lemma_removed_rank_step(s: Seq<WriterProxy>, i: int, p: GuidPrefix)
    requires
        0 <= i < s.len(),
    ensures
        forall|r: int|
            removed_rank(s.take(i + 1), p, r) <==> (removed_rank(s.take(i), p, r) || (of_prefix(p)(
                s[i],
            ) && wgk()(s[i]) == r)),
{
    assert forall|r: int|
        removed_rank(s.take(i + 1), p, r) <==> (removed_rank(s.take(i), p, r) || (of_prefix(p)(s[i])
            && wgk()(s[i]) == r)) by {
        if removed_rank(s.take(i + 1), p, r) {
            let j = choose|j: int|
                0 <= j < s.take(i + 1).len() && of_prefix(p)(#[trigger] s.take(i + 1)[j]) && wgk()(
                    s.take(i + 1)[j],
                ) == r;
            if j < i {
                assert(s.take(i)[j] == s.take(i + 1)[j]);
            }
        }
        if removed_rank(s.take(i), p, r) {
            let j = choose|j: int|
                0 <= j < s.take(i).len() && of_prefix(p)(#[trigger] s.take(i)[j]) && wgk()(s.take(i)[j])
                    == r;
            assert(s.take(i + 1)[j] == s.take(i)[j]);
        }
        if of_prefix(p)(s[i]) && wgk()(s[i]) == r {
            assert(s.take(i + 1)[i] == s[i]);
        }
    }
}

/// A selection of an ordered sequence of well-formed proxies is ordered and
/// well formed.
proof fn lemma_select_sorted_wf(s: Seq<WriterProxy>, p: spec_fn(WriterProxy) -> bool)
    requires
        sorted_by(s, wgk()),
        all_wf(s),
    ensures
        sorted_by(select(s, p), wgk()),
        all_wf(select(s, p)),
        forall|i: int| 0 <= i < select(s, p).len() ==> exists|j: int| 0 <= j < s.len() && s[j] == #[trigger] select(s, p)[i],
    decreases s.len(),
{
    if s.len() > 0 {
        let t = s.drop_last();
        lemma_select_sorted_wf(t, p);
        assert forall|i: int| 0 <= i < select(t, p).len() implies wgk()(#[trigger] select(t, p)[i]) < wgk()(s.last()) by {
            let j = choose|j: int| 0 <= j < t.len() && t[j] == select(t, p)[i];
            assert(s[j] == t[j]);
        }
    }
}

/// What a sequence holds after a push.
proof fn lemma_contains_push(s: Seq<int>, v: int)
    ensures
        forall|x: int| #[trigger] s.push(v).contains(x) <==> (s.contains(x) || x == v),
{
    assert forall|x: int| #[trigger] s.push(v).contains(x) <==> (s.contains(x) || x == v) by {
        if s.contains(x) {
            let k = choose|k: int| 0 <= k < s.len() && s[k] == x;
            assert(s.push(v)[k] == x);
        }
        if x == v {
            assert(s.push(v)[s.len() as int] == x);
        }
        if s.push(v).contains(x) {
            let k = choose|k: int| 0 <= k < s.push(v).len() && s.push(v)[k] == x;
            if k < s.len() {
                assert(s[k] == x);
            }
        }
    }
}

/// The missing changes of a well-formed proxy come in strictly increasing
/// order.
proof fn lemma_missing_sorted(wp: WriterProxy)
    requires
        wp.wf(),
    ensures
        forall|i: int, j: int|
            0 <= i < j < missing_of(wp).len() ==> (#[trigger] missing_of(wp)[i]).0 < (#[trigger] missing_of(
                wp,
            )[j]).0,
{
    lemma_select_sorted(wp.cache_state@, wsn(), writer_status_is(ChangeFromWriterStatusKind::Missing));
}

/// Selecting from a strictly increasing sequence keeps it strictly
/// increasing.
proof fn lemma_select_sorted<T>(s: Seq<T>, f: spec_fn(T) -> int, p: spec_fn(T) -> bool)
    requires
        sorted_by(s, f),
    ensures
        sorted_by(select(s, p), f),
        forall|i: int| 0 <= i < select(s, p).len() ==> exists|j: int| 0 <= j < s.len() && s[j] == #[trigger] select(s, p)[i],
    decreases s.len(),
{
    if s.len() > 0 {
        let t = s.drop_last();
        lemma_select_sorted(t, f, p);
        assert forall|i: int| 0 <= i < select(t, p).len() implies f(#[trigger] select(t, p)[i]) < f(s.last()) by {
            let j = choose|j: int| 0 <= j < t.len() && t[j] == select(t, p)[i];
            assert(s[j] == t[j]);
        }
    }
}

/// What is found for a number in a sequence is one of its items.
proof fn lemma_found_in<T>(s: Seq<T>, f: spec_fn(T) -> int, n: int)
    ensures
        find_by(s, f, n) matches Some(x) ==> exists|i: int| 0 <= i < s.len() && s[i] == x && f(x) == n,
{
}

/// The largest received or lost number stays below a bound all such
/// numbers stay below.
proof fn lemma_available_max_below(s: Seq<ChangeFromWriter>, b: int)
    requires
        b > 0,
        forall|i: int|
            0 <= i < s.len() && ((#[trigger] s[i]).status == ChangeFromWriterStatusKind::Received
                || s[i].status == ChangeFromWriterStatusKind::Lost) ==> s[i]._seq_num.0 < b,
    ensures
        available_max(s) < b,
    decreases s.len(),
{
    if s.len() > 0 {
        lemma_available_max_below(s.drop_last(), b);
        assert(s[s.len() - 1] == s.last());
    }
}

/// A proxy whose change states are those a heartbeat leaves, when the
/// heartbeat's acknowledgement can be built, can be acknowledged.
proof fn lemma_ack_fits_from(wp: WriterProxy, r: Reader, hc: HistoryCache, g: GUID, first: int, last: int)
    requires
        wp.wf(),
        forall|m: int| #[trigger] find_by(wp.cache_state@, wsn(), m) == hb_after(r, hc, g, first, last, m),
        hb_ack_fits(r, hc, g, first, last),
    ensures
        ack_fits(wp),
{
    let cs = wp.cache_state@;
    let p = writer_status_is(ChangeFromWriterStatusKind::Missing);
    assert forall|i: int|
        0 <= i < cs.len() && ((#[trigger] cs[i]).status == ChangeFromWriterStatusKind::Received
            || cs[i].status == ChangeFromWriterStatusKind::Lost) implies cs[i]._seq_num.0 < i64::MAX by {
        lemma_find_at(cs, wsn(), i);
        assert(find_by(cs, wsn(), cs[i]._seq_num.0 as int) == hb_after(r, hc, g, first, last, cs[i]._seq_num.0 as int));
    }
    lemma_available_max_below(cs, i64::MAX as int);
    lemma_missing_sorted(wp);
    lemma_select_sorted(cs, wsn(), p);
    lemma_select_members(cs, p);
    let sel = select(cs, p);
    assert forall|i: int|
        0 <= i < missing_of(wp).len() implies (#[trigger] missing_of(wp)[i]).0 - missing_of(wp)[0].0
            < u32::MAX by {
        assert(sel.contains(sel[i]));
        assert(sel.contains(sel[0]));
        let ji = choose|j: int| 0 <= j < cs.len() && cs[j] == sel[i];
        let j0 = choose|j: int| 0 <= j < cs.len() && cs[j] == sel[0];
        lemma_find_at(cs, wsn(), ji);
        lemma_find_at(cs, wsn(), j0);
        let mi = sel[i]._seq_num.0 as int;
        let m0 = sel[0]._seq_num.0 as int;
        assert(hb_after(r, hc, g, first, last, mi) == Some(cs[ji]));
        assert(hb_after(r, hc, g, first, last, m0) == Some(cs[j0]));
        assert(missing_of(wp)[i] == sel[i]._seq_num);
        assert(missing_of(wp)[0] == sel[0]._seq_num);
        if i > 0 {
            assert(missing_of(wp)[0].0 < missing_of(wp)[i].0);
        }
    }
}

/// Going one key further adds its number for its writer.
proof fn lemma_taken_of_step2(t: Seq<HCKey>, j: int, r: int, m: int)
    requires
        0 <= j < t.len(),
    ensures
        taken_of(t.take(j + 1), r, m) <==> (taken_of(t.take(j), r, m) || (t[j].guid.rank() == r
            && t[j].seq_num.0 == m)),
{
    if taken_of(t.take(j + 1), r, m) {
        let i = choose|i: int|
            0 <= i < t.take(j + 1).len() && (#[trigger] t.take(j + 1)[i]).guid.rank() == r && t.take(
                j + 1,
            )[i].seq_num.0 == m;
        if i < j {
            assert(t.take(j)[i] == t.take(j + 1)[i]);
        }
    }
    if taken_of(t.take(j), r, m) {
        let i = choose|i: int|
            0 <= i < t.take(j).len() && (#[trigger] t.take(j)[i]).guid.rank() == r && t.take(j)[i].seq_num.0
                == m;
        assert(t.take(j + 1)[i] == t.take(j)[i]);
    }
    if t[j].guid.rank() == r && t[j].seq_num.0 == m {
        assert(t.take(j + 1)[j] == t[j]);
    }
}

/// Dropping the states of taken changes keeps a proxy's largest received
/// or lost number below `i64::MAX` when `drop_fits` says so.
proof fn lemma_drop_fits(post: WriterProxy, pre: WriterProxy, taken: Seq<HCKey>)
    requires
        post.wf(),
        pre.wf(),
        taken_dropped(post, pre, taken),
        drop_fits(pre, taken),
    ensures
        available_max(post.cache_state@) < i64::MAX,
{
    let cs = post.cache_state@;
    assert forall|i: int|
        0 <= i < cs.len() && ((#[trigger] cs[i]).status == ChangeFromWriterStatusKind::Received
            || cs[i].status == ChangeFromWriterStatusKind::Lost) implies cs[i]._seq_num.0 < i64::MAX by {
        let m = cs[i]._seq_num.0 as int;
        lemma_find_at(cs, wsn(), i);
        assert(find_by(cs, wsn(), m) == Some(cs[i]));
        assert(!taken_of(taken, wgk()(pre), m));
        assert(find_by(pre.cache_state@, wsn(), m) == Some(cs[i]));
        lemma_found_in(pre.cache_state@, wsn(), m);
        if m == i64::MAX {
            let k = choose|k: int| 0 <= k < pre.cache_state@.len() && pre.cache_state@[k] == cs[i] && wsn()(cs[i]) == m;
            assert(pre.cache_state@[k]._seq_num.0 == i64::MAX);
        }
    }
    lemma_available_max_below(cs, i64::MAX as int);
}

} // verus!
