//! What a DataReader hands the application: the ready changes of its cache,
//! taken out of it in the order of their keys.
use vstd::prelude::*;
use crate::dds::qos::policy::copy_octets;
use crate::message::cdr::Endianness;
use crate::message::element::{SerializedPayload, Timestamp};
use crate::rtps::cache::{
    change_key, ckf, hkf, key_lt, key_of, ready_listing, ready_pick, spec_removed, HistoryCacheType, CacheChange, HCKey, HistoryCache, InstanceHandle,
};
use crate::structure::guid::GUID;
use crate::rtps::seq_util::{distinct_by, has_key, keys_by, lemma_drop_key_facts};
use crate::rtps::cache::{law_keep_last_stays_within_depth, lemma_distinct_within, spec_added};
use crate::dds::qos::policy::{History, HistoryQosKind};
use crate::rtps::cache::seq_nums;

verus! {

/// A change taken out of a reader's cache: its data, the time its writer
/// stamped it with, and its instance.
pub struct TakenChange {
    pub data: SerializedPayload,
    pub timestamp: Timestamp,
    pub instance_handle: InstanceHandle,
}

/// The changes among `cs` that carry data, in order.
pub open spec fn with_data(cs: Seq<&CacheChange>) -> Seq<CacheChange>
    decreases cs.len(),
{
    if cs.len() == 0 {
        Seq::empty()
    } else {
        let rest = with_data(cs.drop_last());
        if cs.last().data_value is Some {
            rest.push(*cs.last())
        } else {
            rest
        }
    }
}

/// Whether `t` hands out the change `c`: the same data, timestamp and
/// instance.
pub open spec fn hands_out(t: TakenChange, c: CacheChange) -> bool {
    &&& c.data_value matches Some(d) && t.data.representation_identifier == d.representation_identifier
        && t.data.representation_options == d.representation_options && t.data.value@ == d.value@
    &&& t.timestamp == c.timestamp
    &&& t.instance_handle == c.instance_handle
}

/// Whether each state of `states` is the one before it with the change of
/// the key at the same place in `keys` removed, recorded as taken.
pub open spec fn removal_chain(states: Seq<HistoryCache>, keys: Seq<HCKey>) -> bool {
    &&& states.len() == keys.len() + 1
    &&& forall|i: int|
        0 <= i < keys.len() ==> spec_removed(
            #[trigger] states[i],
            states[i + 1],
            key_of(keys[i]),
            keys[i].seq_num.0 as int,
            true,
        )
}

/// Whether `post` is `pre` with the changes of `keys` removed one after the
/// other, each recorded as taken.
pub open spec fn removed_in_turn(pre: HistoryCache, post: HistoryCache, keys: Seq<HCKey>) -> bool {
    exists|states: Seq<HistoryCache>|
        #[trigger] removal_chain(states, keys) && states[0] == pre && states.last() == post
}

/// What a take does to a cache and hands out: it lists the ready changes
/// (of the instance `ih` when one is given), in the order of their keys;
/// hands out those that carry data, in that order; and removes each listed
/// change in turn, recording it as taken.
pub open spec fn took(pre: HistoryCache, post: HistoryCache, out: Seq<TakenChange>, ih: Option<InstanceHandle>) -> bool {
    exists|keys: Seq<HCKey>, refs: Seq<&CacheChange>|
        #![trigger ready_listing(pre, keys, refs, ih)]
        {
            &&& ready_listing(pre, keys, refs, ih)
            &&& out.len() == with_data(refs).len()
            &&& forall|i: int| 0 <= i < out.len() ==> hands_out(#[trigger] out[i], with_data(refs)[i])
            &&& removed_in_turn(pre, post, keys)
        }
}

impl SerializedPayload {
    /// A copy of the payload.
    pub fn copy(&self) -> (r: SerializedPayload)
        ensures
            r.representation_identifier == self.representation_identifier,
            r.representation_options == self.representation_options,
            r.value@ == self.value@,
    {
        SerializedPayload {
            representation_identifier: self.representation_identifier,
            representation_options: self.representation_options,
            value: copy_octets(&self.value),
        }
    }

    /// The byte order of sample data: plain CDR, little- or big-endian;
    /// `None` for every other encoding.
    pub fn data_endianness(&self) -> (e: Option<Endianness>)
        ensures
            self.representation_identifier.bytes@ == seq![0u8, 1u8] ==> e == Some(Endianness::LittleEndian),
            self.representation_identifier.bytes@ == seq![0u8, 0u8] ==> e == Some(Endianness::BigEndian),
            self.representation_identifier.bytes@ != seq![0u8, 1u8] && self.representation_identifier.bytes@
                != seq![0u8, 0u8] ==> e is None,
    {
        let b = self.representation_identifier.bytes;
        if b[0] == 0 && b[1] == 1 {
            assert(b@ =~= seq![0u8, 1u8]);
            Some(Endianness::LittleEndian)
        } else if b[0] == 0 && b[1] == 0 {
            assert(b@ =~= seq![0u8, 0u8]);
            Some(Endianness::BigEndian)
        } else {
            proof {
                assert(b@ != seq![0u8, 1u8] && b@ != seq![0u8, 0u8]) by {
                    if b@ == seq![0u8, 1u8] {
                        assert(b@[0] == 0 && b@[1] == 1);
                    }
                    if b@ == seq![0u8, 0u8] {
                        assert(b@[0] == 0 && b@[1] == 0);
                    }
                }
            }
            None
        }
    }
}

/// Removes the changes of `keys` from the cache, one after the other, each
/// recorded as taken.
fn remove_taken(hc: &mut HistoryCache, keys: &Vec<HCKey>)
    requires
        old(hc).wf(),
    ensures
        final(hc).wf(),
        removed_in_turn(*old(hc), *final(hc), keys@),
{
    let ghost pre = *hc;
    let ghost mut states: Seq<HistoryCache> = seq![pre];
    let mut i: usize = 0;
    while i < keys.len()
        invariant
            i <= keys@.len(),
            hc.wf(),
            removal_chain(states, keys@.subrange(0, i as int)),
            states[0] == pre,
            states.last() == *hc,
        decreases keys@.len() - i,
    {
        let ghost mid = *hc;
        hc.remove_change(&keys[i], true);
        proof {
            let prev = states;
            states = states.push(*hc);
            let next = keys@.subrange(0, i + 1);
            assert forall|j: int| 0 <= j < next.len() implies spec_removed(
                #[trigger] states[j],
                states[j + 1],
                key_of(next[j]),
                next[j].seq_num.0 as int,
                true,
            ) by {
                if j < i {
                    assert(states[j] == prev[j] && states[j + 1] == prev[j + 1]);
                    assert(next[j] == keys@.subrange(0, i as int)[j]);
                } else {
                    assert(states[j] == mid);
                }
            }
        }
        i = i + 1;
    }
    proof {
        assert(keys@.subrange(0, keys@.len() as int) =~= keys@);
    }
}

/// Hands out the listed changes that carry data, in order.
fn hand_out(refs: &Vec<&CacheChange>) -> (out: Vec<TakenChange>)
    ensures
        out@.len() == with_data(refs@).len(),
        forall|i: int| 0 <= i < out@.len() ==> hands_out(#[trigger] out@[i], with_data(refs@)[i]),
{
    let mut out: Vec<TakenChange> = Vec::new();
    let mut i: usize = 0;
    while i < refs.len()
        invariant
            i <= refs@.len(),
            out@.len() == with_data(refs@.subrange(0, i as int)).len(),
            forall|j: int|
                0 <= j < out@.len() ==> hands_out(#[trigger] out@[j], with_data(refs@.subrange(0, i as int))[j]),
        decreases refs@.len() - i,
    {
        let c: &CacheChange = refs[i];
        proof {
            assert(refs@.subrange(0, i + 1).drop_last() =~= refs@.subrange(0, i as int));
        }
        match &c.data_value {
            Some(d) => {
                out.push(TakenChange { data: d.copy(), timestamp: c.timestamp, instance_handle: c.instance_handle });
            },
            None => {},
        }
        i = i + 1;
    }
    proof {
        assert(refs@.subrange(0, refs@.len() as int) =~= refs@);
    }
    out
}

/// The reader side of the application's access to received data.
pub struct DataReader {
    pub _reader_guid: GUID,
}

impl DataReader {
    pub fn new(reader_guid: GUID) -> (d: DataReader)
        ensures
            d._reader_guid == reader_guid,
    {
        DataReader { _reader_guid: reader_guid }
    }

    /// Takes the ready changes out of the reader's cache and hands out those
    /// that carry data, older keys first. With a history that keeps the last
    /// `depth` changes, at most `depth` come out (see
    /// `law_take_keep_last_at_most_depth`); taking again at once gives nothing.
    pub fn take(&self, hc: &mut HistoryCache) -> (out: Vec<TakenChange>)
        requires
            old(hc).wf(),
        ensures
            final(hc).wf(),
            took(*old(hc), *final(hc), out@, None),
            out@.len() <= old(hc).changes@.len(),
            final(hc).changes@.len() <= old(hc).changes@.len(),
            forall|i: int|
                0 <= i < final(hc).changes@.len() ==> !ready_pick(
                    *final(hc),
                    #[trigger] final(hc).changes@[i],
                    None,
                ),
    {
        let ghost pre = *hc;
        let (keys, refs) = hc.get_ready_changes();
        let out = hand_out(&refs);
        let ghost rs = refs@;
        remove_taken(hc, &keys);
        proof {
            assert(ready_listing(pre, keys@, rs, None));
            lemma_took_facts(pre, *hc, out@, None);
        }
        out
    }

    /// Takes the ready changes of one instance out of the reader's cache and
    /// hands out those that carry data, older keys first.
    pub fn take_instance(&self, hc: &mut HistoryCache, instance_handle: InstanceHandle) -> (out: Vec<TakenChange>)
        requires
            old(hc).wf(),
        ensures
            final(hc).wf(),
            took(*old(hc), *final(hc), out@, Some(instance_handle)),
            out@.len() <= old(hc).changes@.len(),
            final(hc).changes@.len() <= old(hc).changes@.len(),
            forall|i: int|
                0 <= i < final(hc).changes@.len() ==> !ready_pick(
                    *final(hc),
                    #[trigger] final(hc).changes@[i],
                    Some(instance_handle),
                ),
    {
        let ghost pre = *hc;
        let (keys, refs) = hc.get_ready_instance_changes(instance_handle);
        let out = hand_out(&refs);
        let ghost rs = refs@;
        remove_taken(hc, &keys);
        proof {
            assert(ready_listing(pre, keys@, rs, Some(instance_handle)));
            lemma_took_facts(pre, *hc, out@, Some(instance_handle));
        }
        out
    }
}

/// Changes that carry data keep the order of their keys, and each of them
/// is one of the listed changes.
proof fn lemma_with_data_order(refs: Seq<&CacheChange>)
    requires
        forall|a: int, b: int|
            0 <= a < b < refs.len() ==> key_lt(change_key(*#[trigger] refs[a]), change_key(*#[trigger] refs[b])),
    ensures
        forall|a: int|
            #![trigger with_data(refs)[a]]
            0 <= a < with_data(refs).len() ==> exists|i: int|
                #![trigger refs[i]]
                0 <= i < refs.len() && with_data(refs)[a] == *refs[i],
        forall|a: int, b: int|
            0 <= a < b < with_data(refs).len() ==> key_lt(
                change_key(#[trigger] with_data(refs)[a]),
                change_key(#[trigger] with_data(refs)[b]),
            ),
    decreases refs.len(),
{
    if refs.len() > 0 {
        let rest = refs.drop_last();
        lemma_with_data_order(rest);
        let w = with_data(rest);
        if refs.last().data_value is Some {
            let n = refs.len() - 1;
            assert forall|a: int| 0 <= a < w.len() implies key_lt(change_key(w[a]), change_key(*refs.last())) by {
                let i = choose|i: int| #![trigger rest[i]] 0 <= i < rest.len() && w[a] == *rest[i];
                assert(refs[i] == rest[i]);
                assert(key_lt(change_key(*refs[i]), change_key(*refs[n])));
            }
            assert(with_data(refs) == w.push(*refs.last()));
            assert forall|a: int| #![trigger with_data(refs)[a]] 0 <= a < with_data(refs).len() implies exists|i: int|
                #![trigger refs[i]]
                0 <= i < refs.len() && with_data(refs)[a] == *refs[i] by {
                if a == w.len() {
                    assert(with_data(refs)[a] == *refs[n]);
                } else {
                    assert(with_data(refs)[a] == w[a]);
                    let i = choose|i: int| #![trigger rest[i]] 0 <= i < rest.len() && w[a] == *rest[i];
                    assert(refs[i] == rest[i]);
                }
            }
            assert forall|a: int, b: int| 0 <= a < b < with_data(refs).len() implies key_lt(
                change_key(#[trigger] with_data(refs)[a]),
                change_key(#[trigger] with_data(refs)[b]),
            ) by {
                assert(with_data(refs)[a] == w[a]);
                if b < w.len() {
                    assert(with_data(refs)[b] == w[b]);
                }
            }
        } else {
            assert(with_data(refs) == w);
            assert forall|a: int| #![trigger with_data(refs)[a]] 0 <= a < with_data(refs).len() implies exists|i: int|
                #![trigger refs[i]]
                0 <= i < refs.len() && with_data(refs)[a] == *refs[i] by {
                let i = choose|i: int| #![trigger rest[i]] 0 <= i < rest.len() && w[a] == *rest[i];
                assert(refs[i] == rest[i]);
            }
        }
    }
}

/// A take hands out its samples in the order of the changes' keys, which
/// puts sequence numbers first: each sample is no older than the one
/// before it.
pub proof fn law_take_in_key_order(pre: HistoryCache, post: HistoryCache, out: Seq<TakenChange>, ih: Option<InstanceHandle>)
    requires
        took(pre, post, out, ih),
    ensures
        exists|cs: Seq<CacheChange>|
            {
                &&& cs.len() == out.len()
                &&& forall|i: int| 0 <= i < out.len() ==> hands_out(#[trigger] out[i], cs[i])
                &&& forall|a: int, b: int|
                    0 <= a < b < cs.len() ==> key_lt(change_key(#[trigger] cs[a]), change_key(#[trigger] cs[b]))
            },
{
    let (keys, refs) = choose|keys: Seq<HCKey>, refs: Seq<&CacheChange>|
        #![trigger ready_listing(pre, keys, refs, ih)]
        {
            &&& ready_listing(pre, keys, refs, ih)
            &&& out.len() == with_data(refs).len()
            &&& forall|i: int| 0 <= i < out.len() ==> hands_out(#[trigger] out[i], with_data(refs)[i])
            &&& removed_in_turn(pre, post, keys)
        };
    assert forall|a: int, b: int| 0 <= a < b < refs.len() implies key_lt(
        change_key(*#[trigger] refs[a]),
        change_key(*#[trigger] refs[b]),
    ) by {
        assert(key_of(keys[a]) == change_key(*refs[a]));
        assert(key_of(keys[b]) == change_key(*refs[b]));
    }
    lemma_with_data_order(refs);
    let cs = with_data(refs);
    assert(cs.len() == out.len());
}

/// One removal from a reader cache with nothing unannounced: the changes
/// and ready keys only shrink, the removed key is gone, and keys stay
/// distinct.
proof fn lemma_removal_shrinks(a: HistoryCache, b: HistoryCache, k: (int, int), s: int)
    requires
        spec_removed(a, b, k, s, true),
        a.hc_type == HistoryCacheType::Reader,
        a.unprocessed_seqnum@.len() == 0,
        distinct_by(a.changes@, ckf()),
        distinct_by(a.ready_key@, hkf()),
    ensures
        b.hc_type == HistoryCacheType::Reader,
        b.unprocessed_seqnum == a.unprocessed_seqnum,
        distinct_by(b.changes@, ckf()),
        distinct_by(b.ready_key@, hkf()),
        forall|c: CacheChange| #[trigger] b.changes@.contains(c) ==> a.changes@.contains(c) && change_key(c) != k,
        forall|x: (int, int)| #[trigger] has_key(b.ready_key@, hkf(), x) ==> has_key(a.ready_key@, hkf(), x),
{
    assert(!seq_nums(a.unprocessed_seqnum@).contains(s));
    lemma_drop_key_facts(a.changes@, ckf(), k);
    lemma_drop_key_facts(a.ready_key@, hkf(), k);
    assert forall|c: CacheChange| #[trigger] b.changes@.contains(c) implies a.changes@.contains(c) && change_key(c) != k by {
        let i = choose|i: int| 0 <= i < b.changes@.len() && b.changes@[i] == c;
        assert(ckf()(b.changes@[i]) == change_key(c));
        assert(has_key(b.changes@, ckf(), change_key(c)));
    }
}

/// Along a chain of removals from a reader cache, the changes and ready keys
/// only shrink, the removed keys are gone, and keys stay distinct.
proof fn lemma_chain_shrinks(states: Seq<HistoryCache>, keys: Seq<HCKey>, n: int)
    requires
        removal_chain(states, keys),
        0 <= n <= keys.len(),
        states[0].wf(),
        states[0].hc_type == HistoryCacheType::Reader,
    ensures
        states[n].hc_type == HistoryCacheType::Reader,
        states[n].unprocessed_seqnum == states[0].unprocessed_seqnum,
        distinct_by(states[n].changes@, ckf()),
        distinct_by(states[n].ready_key@, hkf()),
        forall|c: CacheChange|
            #[trigger] states[n].changes@.contains(c) ==> states[0].changes@.contains(c) && forall|j: int|
                0 <= j < n ==> change_key(c) != key_of(#[trigger] keys[j]),
        forall|x: (int, int)|
            #[trigger] has_key(states[n].ready_key@, hkf(), x) ==> has_key(states[0].ready_key@, hkf(), x),
    decreases n,
{
    if n > 0 {
        lemma_chain_shrinks(states, keys, n - 1);
        let a = states[n - 1];
        let b = states[n];
        let k = key_of(keys[n - 1]);
        assert(spec_removed(a, b, k, keys[n - 1].seq_num.0 as int, true));
        lemma_removal_shrinks(a, b, k, keys[n - 1].seq_num.0 as int);
        assert forall|c: CacheChange| #[trigger] b.changes@.contains(c) implies states[0].changes@.contains(c)
            && forall|j: int| 0 <= j < n ==> change_key(c) != key_of(#[trigger] keys[j]) by {
            assert(a.changes@.contains(c));
        }
    }
}

/// A take leaves nothing ready to take: taking again at once, of every
/// instance or of one, hands out nothing.
pub proof fn law_take_again_is_empty(
    pre: HistoryCache,
    mid: HistoryCache,
    post: HistoryCache,
    first: Seq<TakenChange>,
    second: Seq<TakenChange>,
    ih: Option<InstanceHandle>,
)
    requires
        pre.wf(),
        pre.hc_type == HistoryCacheType::Reader,
        took(pre, mid, first, None),
        took(mid, post, second, ih),
    ensures
        second.len() == 0,
{
    let (keys, refs) = choose|keys: Seq<HCKey>, refs: Seq<&CacheChange>|
        #![trigger ready_listing(pre, keys, refs, None)]
        {
            &&& ready_listing(pre, keys, refs, None)
            &&& first.len() == with_data(refs).len()
            &&& forall|i: int| 0 <= i < first.len() ==> hands_out(#[trigger] first[i], with_data(refs)[i])
            &&& removed_in_turn(pre, mid, keys)
        };
    let states = choose|states: Seq<HistoryCache>|
        #[trigger] removal_chain(states, keys) && states[0] == pre && states.last() == mid;
    lemma_chain_shrinks(states, keys, keys.len() as int);
    let (keys2, refs2) = choose|keys2: Seq<HCKey>, refs2: Seq<&CacheChange>|
        #![trigger ready_listing(mid, keys2, refs2, ih)]
        {
            &&& ready_listing(mid, keys2, refs2, ih)
            &&& second.len() == with_data(refs2).len()
            &&& forall|i: int| 0 <= i < second.len() ==> hands_out(#[trigger] second[i], with_data(refs2)[i])
            &&& removed_in_turn(mid, post, keys2)
        };
    if refs2.len() > 0 {
        let c = *refs2[0];
        assert(ready_pick(mid, c, ih) && mid.changes@.contains(c));
        assert(states[keys.len() as int] == mid);
        assert(pre.changes@.contains(c));
        assert(has_key(pre.ready_key@, hkf(), change_key(c)));
        let b = choose|b: int| 0 <= b < pre.changes@.len() && pre.changes@[b] == c;
        assert(ready_pick(pre, pre.changes@[b], None));
        assert(has_key(keys, hkf(), change_key(c)));
        let j = choose|j: int| 0 <= j < keys.len() && hkf()(keys[j]) == change_key(c);
        assert(change_key(c) != key_of(keys[j]));
        assert(false);
    }
    assert(refs2 =~= Seq::<&CacheChange>::empty());
    assert(with_data(refs2).len() == 0);
}

/// Only the changes that carry data are kept, so there are no more of them
/// than changes.
proof fn lemma_with_data_len(cs: Seq<&CacheChange>)
    ensures
        with_data(cs).len() <= cs.len(),
    decreases cs.len(),
{
    if cs.len() > 0 {
        lemma_with_data_len(cs.drop_last());
    }
}

/// What a take leaves behind: no more changes than before, none of them
/// ready to be taken again (of the instance `ih` when one is given), and it
/// hands out no more samples than the cache held changes.
proof fn lemma_took_facts(pre: HistoryCache, post: HistoryCache, out: Seq<TakenChange>, ih: Option<InstanceHandle>)
    requires
        pre.wf(),
        took(pre, post, out, ih),
    ensures
        out.len() <= pre.changes@.len(),
        post.changes@.len() <= pre.changes@.len(),
        forall|i: int| 0 <= i < post.changes@.len() ==> !ready_pick(post, #[trigger] post.changes@[i], ih),
{
    law_take_at_most_held(pre, post, out, ih);
    let (keys, refs) = choose|keys: Seq<HCKey>, refs: Seq<&CacheChange>|
        #![trigger ready_listing(pre, keys, refs, ih)]
        {
            &&& ready_listing(pre, keys, refs, ih)
            &&& out.len() == with_data(refs).len()
            &&& forall|i: int| 0 <= i < out.len() ==> hands_out(#[trigger] out[i], with_data(refs)[i])
            &&& removed_in_turn(pre, post, keys)
        };
    let states = choose|states: Seq<HistoryCache>|
        #[trigger] removal_chain(states, keys) && states[0] == pre && states.last() == post;
    if pre.hc_type != HistoryCacheType::Reader {
        if keys.len() > 0 {
            assert(ready_pick(pre, *refs[0], ih));
            assert(false);
        }
        assert(post == pre);
    } else {
        lemma_chain_shrinks(states, keys, keys.len() as int);
        assert(states[keys.len() as int] == post);
        let sp = keys_by(post.changes@, ckf());
        let tp = keys_by(pre.changes@, ckf());
        assert forall|a: int| 0 <= a < sp.len() implies tp.contains(#[trigger] sp[a]) by {
            let c = post.changes@[a];
            assert(post.changes@.contains(c));
            let b = choose|b: int| 0 <= b < pre.changes@.len() && pre.changes@[b] == c;
            assert(tp[b] == sp[a]);
        }
        lemma_distinct_within(sp, tp);
        assert forall|i: int| 0 <= i < post.changes@.len() implies !ready_pick(
            post,
            #[trigger] post.changes@[i],
            ih,
        ) by {
            let c = post.changes@[i];
            if ready_pick(post, c, ih) {
                assert(post.changes@.contains(c));
                assert(pre.changes@.contains(c));
                assert(has_key(pre.ready_key@, hkf(), change_key(c)));
                let b = choose|b: int| 0 <= b < pre.changes@.len() && pre.changes@[b] == c;
                assert(ready_pick(pre, pre.changes@[b], ih));
                assert(has_key(keys, hkf(), change_key(c)));
                let j = choose|j: int| 0 <= j < keys.len() && hkf()(keys[j]) == change_key(c);
                assert(change_key(c) != key_of(keys[j]));
            }
        }
    }
}

/// A take hands out at most as many samples as the cache holds changes.
pub proof fn law_take_at_most_held(
    pre: HistoryCache,
    post: HistoryCache,
    out: Seq<TakenChange>,
    ih: Option<InstanceHandle>,
)
    requires
        took(pre, post, out, ih),
    ensures
        out.len() <= pre.changes@.len(),
{
    let (keys, refs) = choose|keys: Seq<HCKey>, refs: Seq<&CacheChange>|
        #![trigger ready_listing(pre, keys, refs, ih)]
        {
            &&& ready_listing(pre, keys, refs, ih)
            &&& out.len() == with_data(refs).len()
            &&& forall|i: int| 0 <= i < out.len() ==> hands_out(#[trigger] out[i], with_data(refs)[i])
            &&& removed_in_turn(pre, post, keys)
        };
    lemma_with_data_len(refs);
    let s = keys_by(keys, hkf());
    let t = keys_by(pre.changes@, ckf());
    assert(s.no_duplicates()) by {
        assert forall|i: int, j: int| 0 <= i < s.len() && 0 <= j < s.len() && i != j implies s[i]
            != s[j] by {
            if i < j {
                assert(key_lt(key_of(keys[i]), key_of(keys[j])));
            } else {
                assert(key_lt(key_of(keys[j]), key_of(keys[i])));
            }
        }
    }
    assert forall|a: int| 0 <= a < s.len() implies t.contains(#[trigger] s[a]) by {
        assert(key_of(keys[a]) == change_key(*refs[a]));
        assert(pre.changes@.contains(*refs[a]));
        let b = choose|b: int| 0 <= b < pre.changes@.len() && pre.changes@[b] == *refs[a];
        assert(t[b] == s[a]);
    }
    lemma_distinct_within(s, t);
}

/// With a history that keeps the last `depth` changes, a take right after a
/// change is added hands out at most `depth` samples, provided the cache held
/// at most `depth` changes before the add (as every add leaves it).
pub proof fn law_take_keep_last_at_most_depth(
    pre: HistoryCache,
    mid: HistoryCache,
    post: HistoryCache,
    change: CacheChange,
    is_reliable: bool,
    max_samples: i32,
    history: History,
    out: Seq<TakenChange>,
    ih: Option<InstanceHandle>,
)
    requires
        pre.wf(),
        pre.hc_type == HistoryCacheType::Reader,
        history.kind == HistoryQosKind::KeepLast,
        history.depth >= 0,
        pre.changes@.len() <= history.depth,
        spec_added(pre, mid, change, is_reliable, max_samples, history),
        took(mid, post, out, ih),
    ensures
        out.len() <= history.depth,
{
    law_keep_last_stays_within_depth(pre, mid, change, is_reliable, max_samples, history);
    law_take_at_most_held(mid, post, out, ih);
}

} // verus!
