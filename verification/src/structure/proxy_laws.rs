//! What holds across the operations of reader and writer proxies.
use vstd::prelude::*;
use crate::rtps::cache::{ChangeForReaderStatusKind, ChangeFromWriter, ChangeFromWriterStatusKind};
use crate::rtps::seq_util::{find_by, lemma_find_at, lemma_map_find, lemma_select_members, select, sorted_by};
use crate::structure::proxy::{
    ack_upto, announced_entry, available_max, lose_before, received_entry, rsn, spec_is_acked,
    writer_seq_nums, writer_status_is, wsn, ReaderProxy, WriterProxy,
};

verus! {

/// Once every change up to `commited` is acknowledged, each of them counts as
/// acknowledged.
pub proof fn law_acked_upto(pre: ReaderProxy, post: ReaderProxy, commited: int, n: int)
    requires
        pre.wf(),
        post.cache_state@ == pre.cache_state@.map_values(ack_upto(commited)),
        n <= commited,
    ensures
        spec_is_acked(post.cache_state@, n),
{
    lemma_map_find(pre.cache_state@, rsn(), ack_upto(commited));
    assert(find_by(post.cache_state@, rsn(), n) == match find_by(pre.cache_state@, rsn(), n) {
        Some(x) => Some(ack_upto(commited)(x)),
        None => None,
    });
    if exists|i: int| 0 <= i < pre.cache_state@.len() && rsn()(#[trigger] pre.cache_state@[i]) == n {
        let i = choose|i: int| 0 <= i < pre.cache_state@.len() && rsn()(#[trigger] pre.cache_state@[i]) == n;
        lemma_find_at(pre.cache_state@, rsn(), i);
    }
}

/// A change whose state the writer forgot counts as acknowledged.
pub proof fn law_forgotten_is_acked(pre: ReaderProxy, post: ReaderProxy, n: int)
    requires
        forall|m: int|
            #[trigger] find_by(post.cache_state@, rsn(), m) == if m == n {
                None
            } else {
                find_by(pre.cache_state@, rsn(), m)
            },
    ensures
        spec_is_acked(post.cache_state@, n),
{
    assert(find_by(post.cache_state@, rsn(), n) is None);
}

proof fn lemma_available_max_bound(s: Seq<ChangeFromWriter>, i: int)
    requires
        0 <= i < s.len(),
        s[i].status == ChangeFromWriterStatusKind::Received || s[i].status
            == ChangeFromWriterStatusKind::Lost,
    ensures
        available_max(s) >= s[i]._seq_num.0,
        available_max(s) >= 0,
    decreases s.len(),
{
    if i < s.len() - 1 {
        assert(s.drop_last()[i] == s[i]);
        lemma_available_max_bound(s.drop_last(), i);
    }
    lemma_available_max_nonneg(s);
}

proof fn lemma_available_max_nonneg(s: Seq<ChangeFromWriter>)
    ensures
        available_max(s) >= 0,
    decreases s.len(),
{
    if s.len() > 0 {
        lemma_available_max_nonneg(s.drop_last());
    }
}

/// Once a change is received, it is not missing, and the largest available
/// sequence number is at least its own.
pub proof fn law_received_available(pre: WriterProxy, post: WriterProxy, n: int)
    requires
        post.wf(),
        find_by(post.cache_state@, wsn(), n) == Some(
            received_entry(find_by(pre.cache_state@, wsn(), n), crate::message::element::SequenceNumber(n as i64)),
        ),
        i64::MIN <= n <= i64::MAX,
    ensures
        available_max(post.cache_state@) >= n,
        !writer_seq_nums(
            select(post.cache_state@, writer_status_is(ChangeFromWriterStatusKind::Missing)),
        ).contains(crate::message::element::SequenceNumber(n as i64)),
{
    let s = post.cache_state@;
    let i = choose|i: int| 0 <= i < s.len() && wsn()(#[trigger] s[i]) == n;
    lemma_find_at(s, wsn(), i);
    assert(s[i].status == ChangeFromWriterStatusKind::Received);
    lemma_available_max_bound(s, i);
    let p = writer_status_is(ChangeFromWriterStatusKind::Missing);
    let d = select(s, p);
    lemma_select_members(s, p);
    if writer_seq_nums(d).contains(crate::message::element::SequenceNumber(n as i64)) {
        let a = choose|a: int| 0 <= a < writer_seq_nums(d).len() && writer_seq_nums(d)[a]
            == crate::message::element::SequenceNumber(n as i64);
        assert(writer_seq_nums(d)[a] == d[a]._seq_num);
        assert(d.contains(d[a]));
        assert(s.contains(d[a]) && p(d[a]));
        let b = choose|b: int| 0 <= b < s.len() && s[b] == d[a];
        assert(wsn()(s[b]) == n);
        if b != i {
            if b < i {
                assert(wsn()(s[b]) < wsn()(s[i]));
            } else {
                assert(wsn()(s[i]) < wsn()(s[b]));
            }
        }
    }
}

/// Once the writer says that changes before `first` are gone, no change
/// before `first` is unknown or missing.
pub proof fn law_lost_before(pre: WriterProxy, post: WriterProxy, first: int)
    requires
        post.cache_state@ == pre.cache_state@.map_values(lose_before(first)),
    ensures
        forall|i: int|
            0 <= i < post.cache_state@.len() && (#[trigger] post.cache_state@[i])._seq_num.0 < first
                ==> post.cache_state@[i].status != ChangeFromWriterStatusKind::Missing
                && post.cache_state@[i].status != ChangeFromWriterStatusKind::_Uuknown,
{
}

/// Once the writer announces the changes `first..=last`, each of them has a
/// state and none is unknown.
pub proof fn law_announced_known(pre: WriterProxy, post: WriterProxy, first: int, last: int, n: int)
    requires
        forall|m: int|
            #[trigger] find_by(post.cache_state@, wsn(), m) == if first <= m <= last {
                Some(announced_entry(find_by(pre.cache_state@, wsn(), m), m))
            } else {
                find_by(pre.cache_state@, wsn(), m)
            },
        first <= n <= last,
    ensures
        find_by(post.cache_state@, wsn(), n) matches Some(c) && c.status
            != ChangeFromWriterStatusKind::_Uuknown,
{
    assert(find_by(post.cache_state@, wsn(), n) == Some(
        announced_entry(find_by(pre.cache_state@, wsn(), n), n),
    ));
}

} // verus!
