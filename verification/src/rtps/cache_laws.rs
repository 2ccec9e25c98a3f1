//! What holds across the operations of a history cache.
use vstd::prelude::*;
use crate::dds::key::KeyHash;
use crate::dds::qos::policy::{History, HistoryQosKind};
use crate::message::element::SequenceNumber;
use crate::rtps::cache::{
    among_newest, change_key, ckf, hkf, lookup_handle, seq_nums, spec_handle_given, spec_removed,
    spec_stored, CacheChange, HistoryCache, HistoryCacheType, InstanceHandle,
};
use crate::rtps::seq_util::{
    has_key, keys_by, lemma_drop_key_facts, lemma_select_has_key,
};

verus! {

/// Asking twice for the instance handle of one key hash gives the same handle,
/// and the second time the cache does not change.
pub proof fn law_handle_stable(
    pre: HistoryCache,
    mid: HistoryCache,
    post: HistoryCache,
    keyhash: KeyHash,
    first: InstanceHandle,
    second: InstanceHandle,
)
    requires
        spec_handle_given(pre, mid, keyhash, first),
        spec_handle_given(mid, post, keyhash, second),
    ensures
        second == first,
        post == mid,
{
}

proof fn lemma_lookup_handle_found(v: Seq<(KeyHash, InstanceHandle)>, h: Seq<u8>)
    requires
        lookup_handle(v, h) is Some,
    ensures
        exists|i: int|
            0 <= i < v.len() && (#[trigger] v[i]).0._hash@ == h && v[i].1 == lookup_handle(
                v,
                h,
            )->0,
    decreases v.len(),
{
    if v.last().0._hash@ == h {
        assert(v[v.len() - 1] == v.last());
    } else {
        lemma_lookup_handle_found(v.drop_last(), h);
        let i = choose|i: int|
            0 <= i < v.drop_last().len() && (#[trigger] v.drop_last()[i]).0._hash@ == h
                && v.drop_last()[i].1 == lookup_handle(v.drop_last(), h)->0;
        assert(v[i] == v.drop_last()[i]);
    }
}

/// Two different key hashes never share an instance handle, and no handle
/// given is the nil or the entity handle.
pub proof fn law_handles_distinct(
    hc: HistoryCache,
    h1: Seq<u8>,
    h2: Seq<u8>,
    a: InstanceHandle,
    b: InstanceHandle,
)
    requires
        hc.wf(),
        lookup_handle(hc.kh2ih@, h1) == Some(a),
        lookup_handle(hc.kh2ih@, h2) == Some(b),
        h1 != h2,
    ensures
        a != b,
        a.instance_id >= 0x10,
{
    lemma_lookup_handle_found(hc.kh2ih@, h1);
    lemma_lookup_handle_found(hc.kh2ih@, h2);
    let i = choose|i: int|
        0 <= i < hc.kh2ih@.len() && (#[trigger] hc.kh2ih@[i]).0._hash@ == h1 && hc.kh2ih@[i].1
            == a;
    let j = choose|j: int|
        0 <= j < hc.kh2ih@.len() && (#[trigger] hc.kh2ih@[j]).0._hash@ == h2 && hc.kh2ih@[j].1
            == b;
    if i < j {
        assert(hc.kh2ih@[i].1.instance_id != hc.kh2ih@[j].1.instance_id);
    } else if j < i {
        assert(hc.kh2ih@[j].1.instance_id != hc.kh2ih@[i].1.instance_id);
    }
}

/// Once a change whose sequence number is announced is removed, no change
/// with its key is held, and every other key is held exactly when it was.
pub proof fn law_removed_not_held(
    pre: HistoryCache,
    post: HistoryCache,
    k: (int, int),
    s: int,
    taken: bool,
)
    requires
        pre.wf(),
        spec_removed(pre, post, k, s, taken),
        !seq_nums(pre.unprocessed_seqnum@).contains(s),
    ensures
        !post.holds(k),
        forall|x: (int, int)| x != k ==> (post.holds(x) <==> pre.holds(x)),
{
    lemma_drop_key_facts(pre.changes@, ckf(), k);
}

/// A change stored with a new key is held afterwards, unless a reader cache
/// that keeps the last `depth` changes finds its key outside the `depth`
/// largest; a key held before stays held under the same condition.
pub proof fn law_stored_held(
    pre: HistoryCache,
    post: HistoryCache,
    change: CacheChange,
    history: History,
)
    requires
        pre.wf(),
        !pre.holds(change_key(change)),
        spec_stored(pre, post, change, history),
    ensures
        ({
            let all = pre.changes@.push(change);
            let keep = among_newest(keys_by(all, ckf()), history.depth as int);
            let trims = pre.hc_type == HistoryCacheType::Reader && history.kind
                == HistoryQosKind::KeepLast;
            &&& post.holds(change_key(change)) <==> (!trims || keep(change_key(change)))
            &&& forall|x: (int, int)| pre.holds(x) ==> (post.holds(x) <==> (!trims || keep(x)))
        }),
{
    let all = pre.changes@.push(change);
    let keep = among_newest(keys_by(all, ckf()), history.depth as int);
    lemma_select_has_key(all, ckf(), keep);
    assert(ckf()(all[pre.changes@.len() as int]) == change_key(change));
    assert(has_key(all, ckf(), change_key(change)));
    assert forall|x: (int, int)| pre.holds(x) implies has_key(all, ckf(), x) by {
        let i = choose|i: int| 0 <= i < pre.changes@.len() && ckf()(#[trigger] pre.changes@[i]) == x;
        assert(all[i] == pre.changes@[i]);
    }
}

/// After a reader cache is flushed, the key of every held change is ready.
pub proof fn law_flush_readies_all(pre: HistoryCache, post: HistoryCache)
    requires
        post.changes == pre.changes,
        keys_by(post.ready_key@, hkf()) == pre.keys(),
    ensures
        forall|i: int|
            0 <= i < post.changes@.len() ==> has_key(
                post.ready_key@,
                hkf(),
                change_key(#[trigger] post.changes@[i]),
            ),
{
    assert forall|i: int| 0 <= i < post.changes@.len() implies has_key(
        post.ready_key@,
        hkf(),
        change_key(#[trigger] post.changes@[i]),
    ) by {
        assert(keys_by(post.ready_key@, hkf()).len() == post.ready_key@.len());
        assert(pre.keys().len() == pre.changes@.len());
        assert(keys_by(post.ready_key@, hkf())[i] == pre.keys()[i]);
        assert(keys_by(post.ready_key@, hkf())[i] == hkf()(post.ready_key@[i]));
        assert(pre.keys()[i] == ckf()(pre.changes@[i]));
        assert(hkf()(post.ready_key@[i]) == change_key(post.changes@[i]));
    }
}

} // verus!
