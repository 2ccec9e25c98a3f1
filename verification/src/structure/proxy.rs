//! What a writer knows of each matched remote reader, and a reader of each
//! matched remote writer (RTPS 8.4.7.5, 8.4.10.4): locators, QoS, and the state
//! of every change between the two, kept in increasing order of sequence
//! numbers.
use vstd::prelude::*;
use crate::dds::qos::policy::Durability;
use crate::dds::qos::{DataReaderQosPolicies, DataWriterQosPolicies};
use crate::message::element::{Locator, SequenceNumber};
use crate::rtps::cache::{
    change_key, ckf, ChangeForReader, ChangeForReaderStatusKind, ChangeFromWriter,
    ChangeFromWriterStatusKind, CacheChange, HistoryCache,
};
use crate::rtps::seq_util::{
    find_by, lemma_find_absent, lemma_find_at, lemma_insert_find, lemma_map_find,
    lemma_remove_find, lemma_update_find, select, sorted_by,
};
use crate::structure::entity_id::spec_is_builtin;
use crate::structure::guid::GUID;

verus! {

/// The sequence number of a change's state at a reader.
pub open spec fn rsn() -> spec_fn(ChangeForReader) -> int {
    |c: ChangeForReader| c.seq_num.0 as int
}

/// The sequence number of a change's state from a writer.
pub open spec fn wsn() -> spec_fn(ChangeFromWriter) -> int {
    |c: ChangeFromWriter| c._seq_num.0 as int
}

/// Whether another change of `cs` has the same sequence number as change `j`
/// and a larger writer.
pub open spec fn dominated(cs: Seq<CacheChange>, j: int) -> bool {
    exists|q: int|
        0 <= q < cs.len() && (#[trigger] cs[q]).sequence_number.0 == cs[j].sequence_number.0
            && cs[q].writer_guid.rank() > cs[j].writer_guid.rank()
}

/// Whether a reader that matches late still gets change `j`: never with
/// volatile durability; with transient-local durability a built-in reader
/// gets every change and another reader the last one added.
pub open spec fn initial_relevance(cs: Seq<CacheChange>, j: int, durability: Durability, builtin: bool) -> bool {
    match durability {
        Durability::Volatile => false,
        Durability::TransientLocal => builtin || change_key(cs[j]) == change_key(cs.last()),
    }
}

/// The state a new reader proxy starts with for change `j`.
pub open spec fn initial_entry_at(
    cs: Seq<CacheChange>,
    j: int,
    status: ChangeForReaderStatusKind,
    durability: Durability,
    builtin: bool,
) -> ChangeForReader {
    ChangeForReader {
        seq_num: cs[j].sequence_number,
        status,
        is_relevant: initial_relevance(cs, j, durability, builtin),
    }
}

/// Whether change `j`, among the first `upto`, is the one whose state a new
/// reader proxy keeps for sequence number `n`: of the changes with that
/// number, the one with the largest writer.
pub open spec fn is_initial_source(cs: Seq<CacheChange>, upto: int, j: int, n: int) -> bool {
    0 <= j < upto && j < cs.len() && cs[j].sequence_number.0 == n && !dominated(cs, j)
}

/// The state a new reader proxy keeps for sequence number `n`, from the
/// first `upto` changes.
pub open spec fn initial_entry(
    cs: Seq<CacheChange>,
    upto: int,
    n: int,
    status: ChangeForReaderStatusKind,
    durability: Durability,
    builtin: bool,
) -> Option<ChangeForReader> {
    if exists|j: int| #[trigger] is_initial_source(cs, upto, j, n) {
        Some(
            initial_entry_at(
                cs,
                choose|j: int| #[trigger] is_initial_source(cs, upto, j, n),
                status,
                durability,
                builtin,
            ),
        )
    } else {
        None
    }
}

/// The changes of one kind, in their order.
pub open spec fn reader_status_is(s: ChangeForReaderStatusKind) -> spec_fn(ChangeForReader) -> bool {
    |c: ChangeForReader| c.status == s
}

/// The state of a change once a reader has acknowledged it.
pub open spec fn acked(c: ChangeForReader) -> ChangeForReader {
    ChangeForReader { status: ChangeForReaderStatusKind::Acknowledged, ..c }
}

/// What acknowledging every change up to `commited` does to one state.
pub open spec fn ack_upto(commited: int) -> spec_fn(ChangeForReader) -> ChangeForReader {
    |c: ChangeForReader| if c.seq_num.0 <= commited { acked(c) } else { c }
}

/// What a request for sequence number `n` makes of its state: a known state
/// becomes requested; an unknown number gets a relevant requested state.
pub open spec fn requested_entry(old_entry: Option<ChangeForReader>, n: SequenceNumber) -> ChangeForReader {
    match old_entry {
        Some(c) => ChangeForReader { status: ChangeForReaderStatusKind::Requested, ..c },
        None => ChangeForReader {
            seq_num: n,
            status: ChangeForReaderStatusKind::Requested,
            is_relevant: true,
        },
    }
}

/// Whether a change is acknowledged by the reader, as far as the writer
/// knows: an unknown or irrelevant change counts as acknowledged.
pub open spec fn spec_is_acked(state: Seq<ChangeForReader>, n: int) -> bool {
    match find_by(state, rsn(), n) {
        Some(c) => c.is_relevant ==> c.status == ChangeForReaderStatusKind::Acknowledged,
        None => true,
    }
}

/// The first state of a sequence, if any.
pub open spec fn first_of<T>(s: Seq<T>) -> Option<T> {
    if s.len() > 0 {
        Some(s[0])
    } else {
        None
    }
}

/// Whether one of several locator lists is not empty.
pub open spec fn has_locator(a: Seq<Locator>, b: Seq<Locator>, c: Seq<Locator>, d: Seq<Locator>) -> bool {
    a.len() + b.len() + c.len() + d.len() > 0
}

/// A remote reader as a writer sees it.
pub struct ReaderProxy {
    pub remote_reader_guid: GUID,
    pub expects_inline_qos: bool,
    pub unicast_locator_list: Vec<Locator>,
    pub multicast_locator_list: Vec<Locator>,
    pub default_unicast_locator_list: Vec<Locator>,
    pub default_multicast_locator_list: Vec<Locator>,
    pub qos: DataReaderQosPolicies,
    /// The state of each change, in increasing order of sequence numbers.
    pub cache_state: Vec<ChangeForReader>,
}

/// Where `n` stands among states ordered by sequence number: the first
/// position whose number is not below `n`.
fn reader_position(v: &Vec<ChangeForReader>, n: i64) -> (pos: usize)
    requires
        sorted_by(v@, rsn()),
    ensures
        pos <= v@.len(),
        forall|i: int| 0 <= i < pos ==> (#[trigger] v@[i]).seq_num.0 < n,
        pos < v@.len() ==> v@[pos as int].seq_num.0 >= n,
{
    let mut pos: usize = 0;
    while pos < v.len() && v[pos].seq_num.0 < n
        invariant
            0 <= pos <= v@.len(),
            forall|i: int| 0 <= i < pos ==> (#[trigger] v@[i]).seq_num.0 < n,
        decreases v@.len() - pos,
    {
        pos = pos + 1;
    }
    pos
}

/// Sets the state kept for the sequence number of `e` to `e`.
fn upsert_reader_state(v: &mut Vec<ChangeForReader>, e: ChangeForReader)
    requires
        sorted_by(old(v)@, rsn()),
    ensures
        sorted_by(final(v)@, rsn()),
        forall|m: int|
            #[trigger] find_by(final(v)@, rsn(), m) == if m == e.seq_num.0 {
                Some(e)
            } else {
                find_by(old(v)@, rsn(), m)
            },
{
    let pos = reader_position(v, e.seq_num.0);
    let ghost before = v@;
    if pos < v.len() && v[pos].seq_num.0 == e.seq_num.0 {
        v.set(pos, e);
        proof {
            lemma_update_find(before, rsn(), pos as int, e);
        }
    } else {
        v.insert(pos, e);
        proof {
            assert forall|i: int| 0 <= i < pos implies rsn()(#[trigger] before[i]) < rsn()(e) by {
                assert(before[i].seq_num.0 < e.seq_num.0);
            }
            lemma_insert_find(before, rsn(), pos as int, e);
        }
    }
}

/// The position of the state for `n`, if kept.
fn reader_index(v: &Vec<ChangeForReader>, n: i64) -> (r: Option<usize>)
    requires
        sorted_by(v@, rsn()),
    ensures
        match r {
            Some(i) => i < v@.len() && v@[i as int].seq_num.0 == n && find_by(v@, rsn(), n as int)
                == Some(v@[i as int]),
            None => find_by(v@, rsn(), n as int) is None,
        },
{
    let pos = reader_position(v, n);
    if pos < v.len() && v[pos].seq_num.0 == n {
        proof {
            lemma_find_at(v@, rsn(), pos as int);
        }
        Some(pos)
    } else {
        proof {
            assert forall|i: int| 0 <= i < v@.len() implies rsn()(#[trigger] v@[i]) != n by {
                if i > pos {
                    assert(rsn()(v@[pos as int]) < rsn()(v@[i]));
                }
            }
            lemma_find_absent(v@, rsn(), n as int);
        }
        None
    }
}

/// Whether another change has the sequence number of change `j` and a larger
/// writer.
fn is_dominated(cs: &Vec<CacheChange>, j: usize) -> (r: bool)
    requires
        j < cs@.len(),
    ensures
        r == dominated(cs@, j as int),
{
    let n = cs[j].sequence_number.0;
    let rj = cs[j].writer_guid.rank_value();
    let mut q: usize = 0;
    while q < cs.len()
        invariant
            0 <= q <= cs@.len(),
            j < cs@.len(),
            n == cs@[j as int].sequence_number.0,
            rj == cs@[j as int].writer_guid.rank(),
            forall|p: int|
                0 <= p < q ==> !((#[trigger] cs@[p]).sequence_number.0 == n
                    && cs@[p].writer_guid.rank() > rj),
        decreases cs@.len() - q,
    {
        if cs[q].sequence_number.0 == n && cs[q].writer_guid.rank_value() > rj {
            return true;
        }
        q = q + 1;
    }
    false
}

proof fn lemma_initial_source_unique(cs: Seq<CacheChange>, upto: int, j1: int, j2: int, n: int)
    requires
        crate::rtps::seq_util::distinct_by(cs, ckf()),
        is_initial_source(cs, upto, j1, n),
        is_initial_source(cs, upto, j2, n),
    ensures
        j1 == j2,
{
    if j1 != j2 {
        if j1 < j2 {
            assert(ckf()(cs[j1]) != ckf()(cs[j2]));
        } else {
            assert(ckf()(cs[j2]) != ckf()(cs[j1]));
        }
        assert(cs[j1].writer_guid.rank() != cs[j2].writer_guid.rank());
        if cs[j1].writer_guid.rank() < cs[j2].writer_guid.rank() {
            assert(dominated(cs, j1));
        } else {
            assert(dominated(cs, j2));
        }
    }
}

impl ReaderProxy {
    /// Whether the states are kept in increasing order of sequence numbers.
    pub open spec fn wf(self) -> bool {
        sorted_by(self.cache_state@, rsn())
    }

    /// A proxy for a newly matched reader. It starts with a state for every
    /// sequence number among the changes of the writer's history cache:
    /// unsent in push mode, else unacknowledged, and relevant as
    /// `initial_relevance` says. At least one locator list must be given.
    pub fn new(
        remote_reader_guid: GUID,
        expects_inline_qos: bool,
        unicast_locator_list: Vec<Locator>,
        multicast_locator_list: Vec<Locator>,
        default_unicast_locator_list: Vec<Locator>,
        default_multicast_locator_list: Vec<Locator>,
        qos: DataReaderQosPolicies,
        history_cache: &HistoryCache,
        push_mode: bool,
    ) -> (rp: ReaderProxy)
        requires
            has_locator(
                unicast_locator_list@,
                multicast_locator_list@,
                default_unicast_locator_list@,
                default_multicast_locator_list@,
            ),
            history_cache.wf(),
        ensures
            rp.wf(),
            rp.remote_reader_guid == remote_reader_guid,
            rp.expects_inline_qos == expects_inline_qos,
            rp.unicast_locator_list == unicast_locator_list,
            rp.multicast_locator_list == multicast_locator_list,
            rp.default_unicast_locator_list == default_unicast_locator_list,
            rp.default_multicast_locator_list == default_multicast_locator_list,
            rp.qos == qos,
            forall|n: int|
                #[trigger] find_by(rp.cache_state@, rsn(), n) == initial_entry(
                    history_cache.changes@,
                    history_cache.changes@.len() as int,
                    n,
                    if push_mode {
                        ChangeForReaderStatusKind::Unsent
                    } else {
                        ChangeForReaderStatusKind::Unacknowledged
                    },
                    qos.durability.0,
                    spec_is_builtin(remote_reader_guid.entity_id),
                ),
    {
        let status_kind = if push_mode {
            ChangeForReaderStatusKind::Unsent
        } else {
            ChangeForReaderStatusKind::Unacknowledged
        };
        let durability = qos.durability();
        let builtin = remote_reader_guid.entity_id.is_builtin();
        let cs = &history_cache.changes;
        let ghost g = cs@;
        let mut cache_state: Vec<ChangeForReader> = Vec::new();
        let mut i: usize = 0;
        while i < cs.len()
            invariant
                0 <= i <= g.len(),
                g == cs@,
                crate::rtps::seq_util::distinct_by(g, ckf()),
                durability == qos.durability.0,
                builtin == spec_is_builtin(remote_reader_guid.entity_id),
                sorted_by(cache_state@, rsn()),
                forall|n: int|
                    #[trigger] find_by(cache_state@, rsn(), n) == initial_entry(
                        g,
                        i as int,
                        n,
                        status_kind,
                        durability,
                        builtin,
                    ),
            decreases g.len() - i,
        {
            let ghost before = cache_state@;
            let n = cs[i].sequence_number.0;
            if !is_dominated(cs, i) {
                let last = cs.len() - 1;
                let is_relevant = match durability {
                    Durability::Volatile => false,
                    Durability::TransientLocal => {
                        builtin || (cs[i].sequence_number.0 == cs[last].sequence_number.0
                            && cs[i].writer_guid.rank_value() == cs[last].writer_guid.rank_value())
                    },
                };
                let e = ChangeForReader::new(cs[i].sequence_number, status_kind, is_relevant);
                upsert_reader_state(&mut cache_state, e);
                proof {
                    assert(e == initial_entry_at(g, i as int, status_kind, durability, builtin));
                    assert forall|m: int|
                        #[trigger] find_by(cache_state@, rsn(), m) == initial_entry(
                            g,
                            i + 1,
                            m,
                            status_kind,
                            durability,
                            builtin,
                        ) by {
                        if m == n {
                            assert(is_initial_source(g, i + 1, i as int, m));
                            let j = choose|j: int| #[trigger] is_initial_source(g, i + 1, j, m);
                            lemma_initial_source_unique(g, i + 1, i as int, j, m);
                        } else {
                            if exists|j: int| #[trigger] is_initial_source(g, i + 1, j, m) {
                                let j = choose|j: int| #[trigger] is_initial_source(g, i + 1, j, m);
                                assert(is_initial_source(g, i as int, j, m));
                                let j2 = choose|j: int| #[trigger] is_initial_source(g, i as int, j, m);
                                lemma_initial_source_unique(g, i + 1, j, j2, m);
                            } else {
                                assert forall|j: int| !is_initial_source(g, i as int, j, m) by {
                                    if is_initial_source(g, i as int, j, m) {
                                        assert(is_initial_source(g, i + 1, j, m));
                                    }
                                }
                            }
                        }
                    }
                }
            } else {
                proof {
                    assert forall|m: int|
                        #[trigger] find_by(cache_state@, rsn(), m) == initial_entry(
                            g,
                            i + 1,
                            m,
                            status_kind,
                            durability,
                            builtin,
                        ) by {
                        if exists|j: int| #[trigger] is_initial_source(g, i + 1, j, m) {
                            let j = choose|j: int| #[trigger] is_initial_source(g, i + 1, j, m);
                            assert(j != i);
                            assert(is_initial_source(g, i as int, j, m));
                            let j2 = choose|j: int| #[trigger] is_initial_source(g, i as int, j, m);
                            lemma_initial_source_unique(g, i + 1, j, j2, m);
                        } else {
                            assert forall|j: int| !is_initial_source(g, i as int, j, m) by {
                                if is_initial_source(g, i as int, j, m) {
                                    assert(is_initial_source(g, i + 1, j, m));
                                }
                            }
                        }
                    }
                }
            }
            i = i + 1;
        }
        ReaderProxy {
            remote_reader_guid,
            expects_inline_qos,
            unicast_locator_list,
            multicast_locator_list,
            default_unicast_locator_list,
            default_multicast_locator_list,
            qos,
            cache_state,
        }
    }

    /// The unicast locators, or the default ones when there are none.
    pub fn get_unicast_locator_list(&self) -> (r: &Vec<Locator>)
        ensures
            r@ == if self.unicast_locator_list@.len() == 0 {
                self.default_unicast_locator_list@
            } else {
                self.unicast_locator_list@
            },
    {
        if self.unicast_locator_list.len() == 0 {
            &self.default_unicast_locator_list
        } else {
            &self.unicast_locator_list
        }
    }

    /// The multicast locators, or the default ones when there are none.
    pub fn get_multicast_locator_list(&self) -> (r: &Vec<Locator>)
        ensures
            r@ == if self.multicast_locator_list@.len() == 0 {
                self.default_multicast_locator_list@
            } else {
                self.multicast_locator_list@
            },
    {
        if self.multicast_locator_list.len() == 0 {
            &self.default_multicast_locator_list
        } else {
            &self.multicast_locator_list
        }
    }

    /// Sets the state of the change `seq_num`.
    pub fn update_cache_state(
        &mut self,
        seq_num: SequenceNumber,
        is_relevant: bool,
        state: ChangeForReaderStatusKind,
    )
        requires
            old(self).wf(),
        ensures
            final(self).wf(),
            forall|m: int|
                #[trigger] find_by(final(self).cache_state@, rsn(), m) == if m == seq_num.0 {
                    Some(ChangeForReader { seq_num, status: state, is_relevant })
                } else {
                    find_by(old(self).cache_state@, rsn(), m)
                },
            final(self).remote_reader_guid == old(self).remote_reader_guid,
            final(self).unicast_locator_list == old(self).unicast_locator_list,
            final(self).multicast_locator_list == old(self).multicast_locator_list,
    {
        let change_for_reader = ChangeForReader::new(seq_num, state, is_relevant);
        upsert_reader_state(&mut self.cache_state, change_for_reader);
    }

    /// Marks every change up to `commited_seq_num` acknowledged.
    pub fn acked_changes_set(&mut self, commited_seq_num: SequenceNumber)
        requires
            old(self).wf(),
        ensures
            final(self).wf(),
            final(self).cache_state@ == old(self).cache_state@.map_values(
                ack_upto(commited_seq_num.0 as int),
            ),
            final(self).remote_reader_guid == old(self).remote_reader_guid,
    {
        let ghost before = self.cache_state@;
        let mut i: usize = 0;
        while i < self.cache_state.len()
            invariant
                0 <= i <= before.len(),
                self.cache_state@.len() == before.len(),
                self.remote_reader_guid == old(self).remote_reader_guid,
                forall|j: int|
                    0 <= j < before.len() ==> #[trigger] self.cache_state@[j] == if j < i {
                        ack_upto(commited_seq_num.0 as int)(before[j])
                    } else {
                        before[j]
                    },
            decreases before.len() - i,
        {
            let c = self.cache_state[i];
            if c.seq_num.0 <= commited_seq_num.0 {
                self.cache_state.set(
                    i,
                    ChangeForReader::new(c.seq_num, ChangeForReaderStatusKind::Acknowledged, c.is_relevant),
                );
            }
            i = i + 1;
        }
        proof {
            assert(self.cache_state@ =~= before.map_values(ack_upto(commited_seq_num.0 as int)));
            lemma_map_find(before, rsn(), ack_upto(commited_seq_num.0 as int));
        }
    }

    /// The states of one kind, in increasing order of sequence numbers.
    fn changes_with_status(&self, s: ChangeForReaderStatusKind) -> (r: Vec<ChangeForReader>)
        ensures
            r@ == select(self.cache_state@, reader_status_is(s)),
    {
        let mut r: Vec<ChangeForReader> = Vec::new();
        let mut i: usize = 0;
        proof {
            assert(self.cache_state@.take(0) =~= Seq::<ChangeForReader>::empty());
        }
        while i < self.cache_state.len()
            invariant
                0 <= i <= self.cache_state@.len(),
                r@ == select(self.cache_state@.take(i as int), reader_status_is(s)),
            decreases self.cache_state@.len() - i,
        {
            proof {
                assert(self.cache_state@.take(i + 1).drop_last() =~= self.cache_state@.take(i as int));
            }
            if self.cache_state[i].status == s {
                r.push(self.cache_state[i]);
            }
            i = i + 1;
        }
        proof {
            assert(self.cache_state@.take(i as int) =~= self.cache_state@);
        }
        r
    }

    /// The requested changes, in increasing order of sequence numbers.
    pub fn requested_changes(&self) -> (r: Vec<ChangeForReader>)
        ensures
            r@ == select(self.cache_state@, reader_status_is(ChangeForReaderStatusKind::Requested)),
    {
        self.changes_with_status(ChangeForReaderStatusKind::Requested)
    }

    /// The unsent changes, in increasing order of sequence numbers.
    pub fn unsent_changes(&self) -> (r: Vec<ChangeForReader>)
        ensures
            r@ == select(self.cache_state@, reader_status_is(ChangeForReaderStatusKind::Unsent)),
    {
        self.changes_with_status(ChangeForReaderStatusKind::Unsent)
    }

    /// The unacknowledged changes, in increasing order of sequence numbers.
    pub fn unacked_changes(&self) -> (r: Vec<ChangeForReader>)
        ensures
            r@ == select(
                self.cache_state@,
                reader_status_is(ChangeForReaderStatusKind::Unacknowledged),
            ),
    {
        self.changes_with_status(ChangeForReaderStatusKind::Unacknowledged)
    }

    /// The requested change with the smallest sequence number, if any.
    pub fn next_requested_change(&self) -> (r: Option<ChangeForReader>)
        ensures
            r == first_of(
                select(self.cache_state@, reader_status_is(ChangeForReaderStatusKind::Requested)),
            ),
    {
        let v = self.requested_changes();
        if v.len() > 0 {
            Some(v[0])
        } else {
            None
        }
    }

    /// The unsent change with the smallest sequence number, if any.
    pub fn next_unsent_change(&self) -> (r: Option<ChangeForReader>)
        ensures
            r == first_of(
                select(self.cache_state@, reader_status_is(ChangeForReaderStatusKind::Unsent)),
            ),
    {
        let v = self.unsent_changes();
        if v.len() > 0 {
            Some(v[0])
        } else {
            None
        }
    }

    /// Marks the changes the reader asked for as requested; a sequence number
    /// not known yet gets a relevant requested state.
    pub fn requested_changes_set(&mut self, req_seq_num_set: Vec<SequenceNumber>)
        requires
            old(self).wf(),
        ensures
            final(self).wf(),
            forall|m: int|
                #[trigger] find_by(final(self).cache_state@, rsn(), m) == if exists|k: int|
                    0 <= k < req_seq_num_set@.len() && (#[trigger] req_seq_num_set@[k]).0 == m {
                    Some(requested_entry(find_by(old(self).cache_state@, rsn(), m), SequenceNumber(m as i64)))
                } else {
                    find_by(old(self).cache_state@, rsn(), m)
                },
            final(self).remote_reader_guid == old(self).remote_reader_guid,
    {
        let mut k: usize = 0;
        while k < req_seq_num_set.len()
            invariant
                0 <= k <= req_seq_num_set@.len(),
                self.wf(),
                self.remote_reader_guid == old(self).remote_reader_guid,
                forall|m: int|
                    #[trigger] find_by(self.cache_state@, rsn(), m) == if exists|q: int|
                        0 <= q < k && (#[trigger] req_seq_num_set@[q]).0 == m {
                        Some(requested_entry(find_by(old(self).cache_state@, rsn(), m), SequenceNumber(m as i64)))
                    } else {
                        find_by(old(self).cache_state@, rsn(), m)
                    },
            decreases req_seq_num_set@.len() - k,
        {
            let seq_num = req_seq_num_set[k];
            let ghost before = self.cache_state@;
            let e = match reader_index(&self.cache_state, seq_num.0) {
                Some(i) => {
                    let c = self.cache_state[i];
                    ChangeForReader::new(c.seq_num, ChangeForReaderStatusKind::Requested, c.is_relevant)
                },
                None => ChangeForReader::new(seq_num, ChangeForReaderStatusKind::Requested, true),
            };
            upsert_reader_state(&mut self.cache_state, e);
            proof {
                assert forall|m: int|
                    #[trigger] find_by(self.cache_state@, rsn(), m) == if exists|q: int|
                        0 <= q < k + 1 && (#[trigger] req_seq_num_set@[q]).0 == m {
                        Some(requested_entry(find_by(old(self).cache_state@, rsn(), m), SequenceNumber(m as i64)))
                    } else {
                        find_by(old(self).cache_state@, rsn(), m)
                    } by {
                    if m == seq_num.0 {
                        assert(req_seq_num_set@[k as int].0 == m);
                        if exists|q: int| 0 <= q < k && (#[trigger] req_seq_num_set@[q]).0 == m {
                        } else {
                            assert forall|q: int| 0 <= q < k + 1 && (#[trigger] req_seq_num_set@[q]).0 == m implies true by {}
                        }
                    } else {
                        if exists|q: int| 0 <= q < k + 1 && (#[trigger] req_seq_num_set@[q]).0 == m {
                            let q = choose|q: int| 0 <= q < k + 1 && (#[trigger] req_seq_num_set@[q]).0 == m;
                            assert(q != k);
                        }
                    }
                }
            }
            k = k + 1;
        }
    }

    /// Whether the reader has acknowledged the change `seq_num`; an unknown
    /// or irrelevant change counts as acknowledged.
    pub fn is_acked(&self, seq_num: SequenceNumber) -> (r: bool)
        requires
            self.wf(),
        ensures
            r == spec_is_acked(self.cache_state@, seq_num.0 as int),
    {
        match reader_index(&self.cache_state, seq_num.0) {
            Some(i) => {
                let c = self.cache_state[i];
                if c.is_relevant {
                    c.status == ChangeForReaderStatusKind::Acknowledged
                } else {
                    true
                }
            },
            None => true,
        }
    }

    /// Forgets the state of the change `seq_num`.
    pub fn remove_cache_state(&mut self, seq_num: &SequenceNumber)
        requires
            old(self).wf(),
        ensures
            final(self).wf(),
            forall|m: int|
                #[trigger] find_by(final(self).cache_state@, rsn(), m) == if m == seq_num.0 {
                    None
                } else {
                    find_by(old(self).cache_state@, rsn(), m)
                },
            final(self).remote_reader_guid == old(self).remote_reader_guid,
    {
        match reader_index(&self.cache_state, seq_num.0) {
            Some(i) => {
                let ghost before = self.cache_state@;
                self.cache_state.remove(i);
                proof {
                    lemma_remove_find(before, rsn(), i as int);
                }
            },
            None => {},
        }
    }
}


/// The states of one kind from a writer, in their order.
pub open spec fn writer_status_is(s: ChangeFromWriterStatusKind) -> spec_fn(ChangeFromWriter) -> bool {
    |c: ChangeFromWriter| c.status == s
}

/// The largest sequence number of a change received or lost, or 0.
pub open spec fn available_max(s: Seq<ChangeFromWriter>) -> int
    decreases s.len(),
{
    if s.len() == 0 {
        0
    } else {
        let m = available_max(s.drop_last());
        let c = s.last();
        if (c.status == ChangeFromWriterStatusKind::Received || c.status
            == ChangeFromWriterStatusKind::Lost) && c._seq_num.0 > m {
            c._seq_num.0 as int
        } else {
            m
        }
    }
}

/// What learning that changes before `first` are gone does to one state:
/// one not yet received becomes lost.
pub open spec fn lose_before(first: int) -> spec_fn(ChangeFromWriter) -> ChangeFromWriter {
    |c: ChangeFromWriter|
        if (c.status == ChangeFromWriterStatusKind::_Uuknown || c.status
            == ChangeFromWriterStatusKind::Missing) && c._seq_num.0 < first {
            ChangeFromWriter { status: ChangeFromWriterStatusKind::Lost, ..c }
        } else {
            c
        }
}

/// The sequence numbers of some states.
pub open spec fn writer_seq_nums(s: Seq<ChangeFromWriter>) -> Seq<SequenceNumber> {
    s.map_values(|c: ChangeFromWriter| c._seq_num)
}

/// What the writer announcing changes `first..=last` makes of the state of
/// one of them: an unknown state becomes missing, any other stays, and a
/// number with no state gets a relevant missing one.
pub open spec fn announced_entry(old_entry: Option<ChangeFromWriter>, n: int) -> ChangeFromWriter {
    match old_entry {
        Some(c) => if c.status == ChangeFromWriterStatusKind::_Uuknown {
            ChangeFromWriter { status: ChangeFromWriterStatusKind::Missing, ..c }
        } else {
            c
        },
        None => ChangeFromWriter {
            _seq_num: SequenceNumber(n as i64),
            _is_relevant: true,
            status: ChangeFromWriterStatusKind::Missing,
        },
    }
}

/// What receiving change `n` makes of its state.
pub open spec fn received_entry(old_entry: Option<ChangeFromWriter>, n: SequenceNumber) -> ChangeFromWriter {
    match old_entry {
        Some(c) => ChangeFromWriter { status: ChangeFromWriterStatusKind::Received, ..c },
        None => ChangeFromWriter {
            _seq_num: n,
            _is_relevant: true,
            status: ChangeFromWriterStatusKind::Received,
        },
    }
}

/// Whether two proxies of a writer differ at most in their change states.
pub open spec fn same_but_states(a: WriterProxy, b: WriterProxy) -> bool {
    &&& a.remote_writer_guid == b.remote_writer_guid
    &&& a.unicast_locator_list == b.unicast_locator_list
    &&& a.multicast_locator_list == b.multicast_locator_list
    &&& a.default_unicast_locator_list == b.default_unicast_locator_list
    &&& a.default_multicast_locator_list == b.default_multicast_locator_list
    &&& a.data_max_size_serialized == b.data_max_size_serialized
    &&& a.qos == b.qos
}

/// A remote writer as a reader sees it.
pub struct WriterProxy {
    pub remote_writer_guid: GUID,
    pub unicast_locator_list: Vec<Locator>,
    pub multicast_locator_list: Vec<Locator>,
    pub default_unicast_locator_list: Vec<Locator>,
    pub default_multicast_locator_list: Vec<Locator>,
    pub data_max_size_serialized: i32,
    pub qos: DataWriterQosPolicies,
    /// The state of each change, in increasing order of sequence numbers.
    pub cache_state: Vec<ChangeFromWriter>,
}

/// Where `n` stands among states ordered by sequence number: the first
/// position whose number is not below `n`.
fn writer_position(v: &Vec<ChangeFromWriter>, n: i64) -> (pos: usize)
    requires
        sorted_by(v@, wsn()),
    ensures
        pos <= v@.len(),
        forall|i: int| 0 <= i < pos ==> (#[trigger] v@[i])._seq_num.0 < n,
        pos < v@.len() ==> v@[pos as int]._seq_num.0 >= n,
{
    let mut pos: usize = 0;
    while pos < v.len() && v[pos]._seq_num.0 < n
        invariant
            0 <= pos <= v@.len(),
            forall|i: int| 0 <= i < pos ==> (#[trigger] v@[i])._seq_num.0 < n,
        decreases v@.len() - pos,
    {
        pos = pos + 1;
    }
    pos
}

/// Sets the state kept for the sequence number of `e` to `e`.
fn upsert_writer_state(v: &mut Vec<ChangeFromWriter>, e: ChangeFromWriter)
    requires
        sorted_by(old(v)@, wsn()),
    ensures
        sorted_by(final(v)@, wsn()),
        forall|m: int|
            #[trigger] find_by(final(v)@, wsn(), m) == if m == e._seq_num.0 {
                Some(e)
            } else {
                find_by(old(v)@, wsn(), m)
            },
{
    let pos = writer_position(v, e._seq_num.0);
    let ghost before = v@;
    if pos < v.len() && v[pos]._seq_num.0 == e._seq_num.0 {
        v.set(pos, e);
        proof {
            lemma_update_find(before, wsn(), pos as int, e);
        }
    } else {
        v.insert(pos, e);
        proof {
            assert forall|i: int| 0 <= i < pos implies wsn()(#[trigger] before[i]) < wsn()(e) by {
                assert(before[i]._seq_num.0 < e._seq_num.0);
            }
            lemma_insert_find(before, wsn(), pos as int, e);
        }
    }
}

/// The position of the state for `n`, if kept.
fn writer_index(v: &Vec<ChangeFromWriter>, n: i64) -> (r: Option<usize>)
    requires
        sorted_by(v@, wsn()),
    ensures
        match r {
            Some(i) => i < v@.len() && v@[i as int]._seq_num.0 == n && find_by(v@, wsn(), n as int)
                == Some(v@[i as int]),
            None => find_by(v@, wsn(), n as int) is None,
        },
{
    let pos = writer_position(v, n);
    if pos < v.len() && v[pos]._seq_num.0 == n {
        proof {
            lemma_find_at(v@, wsn(), pos as int);
        }
        Some(pos)
    } else {
        proof {
            assert forall|i: int| 0 <= i < v@.len() implies wsn()(#[trigger] v@[i]) != n by {
                if i > pos {
                    assert(wsn()(v@[pos as int]) < wsn()(v@[i]));
                }
            }
            lemma_find_absent(v@, wsn(), n as int);
        }
        None
    }
}

impl WriterProxy {
    /// Whether the states are kept in increasing order of sequence numbers.
    pub open spec fn wf(self) -> bool {
        sorted_by(self.cache_state@, wsn())
    }

    /// A proxy for a newly matched writer, with no change states yet. At least
    /// one locator list must be given.
    pub fn new(
        remote_writer_guid: GUID,
        unicast_locator_list: Vec<Locator>,
        multicast_locator_list: Vec<Locator>,
        default_unicast_locator_list: Vec<Locator>,
        default_multicast_locator_list: Vec<Locator>,
        data_max_size_serialized: i32,
        qos: DataWriterQosPolicies,
    ) -> (wp: WriterProxy)
        requires
            has_locator(
                unicast_locator_list@,
                multicast_locator_list@,
                default_unicast_locator_list@,
                default_multicast_locator_list@,
            ),
        ensures
            wp.wf(),
            wp.remote_writer_guid == remote_writer_guid,
            wp.unicast_locator_list == unicast_locator_list,
            wp.multicast_locator_list == multicast_locator_list,
            wp.default_unicast_locator_list == default_unicast_locator_list,
            wp.default_multicast_locator_list == default_multicast_locator_list,
            wp.data_max_size_serialized == data_max_size_serialized,
            wp.qos == qos,
            wp.cache_state@.len() == 0,
    {
        WriterProxy {
            remote_writer_guid,
            unicast_locator_list,
            multicast_locator_list,
            default_unicast_locator_list,
            default_multicast_locator_list,
            data_max_size_serialized,
            qos,
            cache_state: Vec::new(),
        }
    }

    /// The unicast locators, or the default ones when there are none.
    pub fn get_unicast_locator_list(&self) -> (r: &Vec<Locator>)
        ensures
            r@ == if self.unicast_locator_list@.len() == 0 {
                self.default_unicast_locator_list@
            } else {
                self.unicast_locator_list@
            },
    {
        if self.unicast_locator_list.len() == 0 {
            &self.default_unicast_locator_list
        } else {
            &self.unicast_locator_list
        }
    }

    /// The multicast locators, or the default ones when there are none.
    pub fn get_multicast_locator_list(&self) -> (r: &Vec<Locator>)
        ensures
            r@ == if self.multicast_locator_list@.len() == 0 {
                self.default_multicast_locator_list@
            } else {
                self.multicast_locator_list@
            },
    {
        if self.multicast_locator_list.len() == 0 {
            &self.default_multicast_locator_list
        } else {
            &self.multicast_locator_list
        }
    }

    /// Sets the state of the change `seq_num`.
    fn update_cache_state(
        &mut self,
        seq_num: SequenceNumber,
        is_relevant: bool,
        state: ChangeFromWriterStatusKind,
    )
        requires
            old(self).wf(),
        ensures
            final(self).wf(),
            forall|m: int|
                #[trigger] find_by(final(self).cache_state@, wsn(), m) == if m == seq_num.0 {
                    Some(ChangeFromWriter { _seq_num: seq_num, _is_relevant: is_relevant, status: state })
                } else {
                    find_by(old(self).cache_state@, wsn(), m)
                },
            same_but_states(*final(self), *old(self)),
    {
        let change_from_writer = ChangeFromWriter::new(seq_num, state, is_relevant);
        upsert_writer_state(&mut self.cache_state, change_from_writer);
    }

    /// The largest sequence number of a change received or lost, or 0 when
    /// there is none above 0.
    pub fn available_changes_max(&self) -> (r: SequenceNumber)
        ensures
            r.0 == available_max(self.cache_state@),
    {
        let mut max_seq_num: i64 = 0;
        let mut i: usize = 0;
        proof {
            assert(self.cache_state@.take(0) =~= Seq::<ChangeFromWriter>::empty());
        }
        while i < self.cache_state.len()
            invariant
                0 <= i <= self.cache_state@.len(),
                max_seq_num == available_max(self.cache_state@.take(i as int)),
            decreases self.cache_state@.len() - i,
        {
            proof {
                assert(self.cache_state@.take(i + 1).drop_last() =~= self.cache_state@.take(i as int));
            }
            let c = self.cache_state[i];
            match c.status {
                ChangeFromWriterStatusKind::Received | ChangeFromWriterStatusKind::Lost => {
                    if c._seq_num.0 > max_seq_num {
                        max_seq_num = c._seq_num.0;
                    }
                },
                _ => {},
            }
            i = i + 1;
        }
        proof {
            assert(self.cache_state@.take(i as int) =~= self.cache_state@);
        }
        SequenceNumber(max_seq_num)
    }

    /// Records the change `seq_num` as received but irrelevant.
    pub fn irrelevant_change_set(&mut self, seq_num: SequenceNumber)
        requires
            old(self).wf(),
        ensures
            final(self).wf(),
            forall|m: int|
                #[trigger] find_by(final(self).cache_state@, wsn(), m) == if m == seq_num.0 {
                    Some(
                        ChangeFromWriter {
                            _seq_num: seq_num,
                            _is_relevant: false,
                            status: ChangeFromWriterStatusKind::Received,
                        },
                    )
                } else {
                    find_by(old(self).cache_state@, wsn(), m)
                },
            same_but_states(*final(self), *old(self)),
    {
        self.update_cache_state(seq_num, false, ChangeFromWriterStatusKind::Received);
    }

    /// Marks as lost every change before `first_available_seq_num` that was not
    /// received.
    pub fn lost_changes_update(&mut self, first_available_seq_num: SequenceNumber)
        requires
            old(self).wf(),
        ensures
            final(self).wf(),
            final(self).cache_state@ == old(self).cache_state@.map_values(
                lose_before(first_available_seq_num.0 as int),
            ),
            same_but_states(*final(self), *old(self)),
    {
        let ghost before = self.cache_state@;
        let ghost g = lose_before(first_available_seq_num.0 as int);
        let mut i: usize = 0;
        while i < self.cache_state.len()
            invariant
                0 <= i <= before.len(),
                self.cache_state@.len() == before.len(),
                same_but_states(*self, *old(self)),
                g == lose_before(first_available_seq_num.0 as int),
                forall|j: int|
                    0 <= j < before.len() ==> #[trigger] self.cache_state@[j] == if j < i {
                        g(before[j])
                    } else {
                        before[j]
                    },
            decreases before.len() - i,
        {
            let c = self.cache_state[i];
            let unknown_or_missing = match c.status {
                ChangeFromWriterStatusKind::_Uuknown | ChangeFromWriterStatusKind::Missing => true,
                _ => false,
            };
            if unknown_or_missing && c._seq_num.0 < first_available_seq_num.0 {
                self.cache_state.set(
                    i,
                    ChangeFromWriter::new(c._seq_num, ChangeFromWriterStatusKind::Lost, c._is_relevant),
                );
            }
            i = i + 1;
        }
        proof {
            assert(self.cache_state@ =~= before.map_values(g));
            lemma_map_find(before, wsn(), g);
        }
    }

    /// The sequence numbers of the missing changes, in increasing order.
    pub fn missing_changes(&self) -> (r: Vec<SequenceNumber>)
        ensures
            r@ == writer_seq_nums(
                select(self.cache_state@, writer_status_is(ChangeFromWriterStatusKind::Missing)),
            ),
    {
        let mut r: Vec<SequenceNumber> = Vec::new();
        let mut i: usize = 0;
        let ghost p = writer_status_is(ChangeFromWriterStatusKind::Missing);
        proof {
            assert(self.cache_state@.take(0) =~= Seq::<ChangeFromWriter>::empty());
        }
        while i < self.cache_state.len()
            invariant
                0 <= i <= self.cache_state@.len(),
                p == writer_status_is(ChangeFromWriterStatusKind::Missing),
                r@ == writer_seq_nums(select(self.cache_state@.take(i as int), p)),
            decreases self.cache_state@.len() - i,
        {
            proof {
                assert(self.cache_state@.take(i + 1).drop_last() =~= self.cache_state@.take(i as int));
            }
            let c = self.cache_state[i];
            if c.status == ChangeFromWriterStatusKind::Missing {
                r.push(c._seq_num);
                proof {
                    assert(writer_seq_nums(select(self.cache_state@.take(i + 1), p)) =~= writer_seq_nums(
                        select(self.cache_state@.take(i as int), p),
                    ).push(c._seq_num));
                }
            }
            i = i + 1;
        }
        proof {
            assert(self.cache_state@.take(i as int) =~= self.cache_state@);
        }
        r
    }

    /// The writer announces the changes `first..=last`: each unknown one
    /// becomes missing, and one with no state gets a relevant missing state.
    pub fn missing_changes_update(
        &mut self,
        first_available_seq_num: SequenceNumber,
        last_available_seq_num: SequenceNumber,
    )
        requires
            old(self).wf(),
        ensures
            final(self).wf(),
            forall|m: int|
                #[trigger] find_by(final(self).cache_state@, wsn(), m) == if first_available_seq_num.0
                    <= m <= last_available_seq_num.0 {
                    Some(announced_entry(find_by(old(self).cache_state@, wsn(), m), m))
                } else {
                    find_by(old(self).cache_state@, wsn(), m)
                },
            same_but_states(*final(self), *old(self)),
    {
        let first = first_available_seq_num.0;
        let last = last_available_seq_num.0;
        if first > last {
            return;
        }
        let mut sn: i64 = first;
        loop
            invariant_except_break
                forall|m: int|
                    #[trigger] find_by(self.cache_state@, wsn(), m) == if first <= m < sn {
                        Some(announced_entry(find_by(old(self).cache_state@, wsn(), m), m))
                    } else {
                        find_by(old(self).cache_state@, wsn(), m)
                    },
            invariant
                first <= sn <= last,
                first == first_available_seq_num.0,
                last == last_available_seq_num.0,
                self.wf(),
                same_but_states(*self, *old(self)),
            ensures
                self.wf(),
                same_but_states(*self, *old(self)),
                forall|m: int|
                    #[trigger] find_by(self.cache_state@, wsn(), m) == if first <= m <= last {
                        Some(announced_entry(find_by(old(self).cache_state@, wsn(), m), m))
                    } else {
                        find_by(old(self).cache_state@, wsn(), m)
                    },
            decreases last - sn,
        {
            let ghost prev = self.cache_state@;
            match writer_index(&self.cache_state, sn) {
                Some(i) => {
                    let c = self.cache_state[i];
                    if c.status == ChangeFromWriterStatusKind::_Uuknown {
                        let e = ChangeFromWriter::new(c._seq_num, ChangeFromWriterStatusKind::Missing, c._is_relevant);
                        self.cache_state.set(i, e);
                        proof {
                            lemma_update_find(prev, wsn(), i as int, e);
                        }
                    } else {
                        proof {
                            assert forall|m: int| #[trigger] find_by(self.cache_state@, wsn(), m) == if m == sn {
                                Some(c)
                            } else {
                                find_by(prev, wsn(), m)
                            } by {}
                        }
                    }
                },
                None => {
                    self.update_cache_state(SequenceNumber(sn), true, ChangeFromWriterStatusKind::Missing);
                },
            }
            proof {
                assert forall|m: int|
                    #[trigger] find_by(self.cache_state@, wsn(), m) == if first <= m <= sn {
                        Some(announced_entry(find_by(old(self).cache_state@, wsn(), m), m))
                    } else {
                        find_by(old(self).cache_state@, wsn(), m)
                    } by {
                    if m == sn {
                        assert(find_by(prev, wsn(), m) == find_by(old(self).cache_state@, wsn(), m));
                    } else {
                        assert(find_by(self.cache_state@, wsn(), m) == find_by(prev, wsn(), m));
                    }
                }
            }
            if sn == last {
                break;
            }
            sn = sn + 1;
        }
    }

    /// Records the change `seq_num` as received; a change with no state gets a
    /// relevant received state.
    pub fn received_change_set(&mut self, seq_num: SequenceNumber)
        requires
            old(self).wf(),
        ensures
            final(self).wf(),
            forall|m: int|
                #[trigger] find_by(final(self).cache_state@, wsn(), m) == if m == seq_num.0 {
                    Some(received_entry(find_by(old(self).cache_state@, wsn(), m), seq_num))
                } else {
                    find_by(old(self).cache_state@, wsn(), m)
                },
            same_but_states(*final(self), *old(self)),
    {
        match writer_index(&self.cache_state, seq_num.0) {
            Some(i) => {
                let c = self.cache_state[i];
                let ghost before = self.cache_state@;
                let e = ChangeFromWriter::new(c._seq_num, ChangeFromWriterStatusKind::Received, c._is_relevant);
                self.cache_state.set(i, e);
                proof {
                    lemma_update_find(before, wsn(), i as int, e);
                }
            },
            None => {
                self.update_cache_state(seq_num, true, ChangeFromWriterStatusKind::Received);
            },
        }
    }

    /// Forgets the state of the change `seq_num`.
    pub fn remove_cache_state(&mut self, seq_num: &SequenceNumber)
        requires
            old(self).wf(),
        ensures
            final(self).wf(),
            forall|m: int|
                #[trigger] find_by(final(self).cache_state@, wsn(), m) == if m == seq_num.0 {
                    None
                } else {
                    find_by(old(self).cache_state@, wsn(), m)
                },
            same_but_states(*final(self), *old(self)),
    {
        match writer_index(&self.cache_state, seq_num.0) {
            Some(i) => {
                let ghost before = self.cache_state@;
                self.cache_state.remove(i);
                proof {
                    lemma_remove_find(before, wsn(), i as int);
                }
            },
            None => {},
        }
    }
}

} // verus!
