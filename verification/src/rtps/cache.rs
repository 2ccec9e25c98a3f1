//! Cache changes and the history cache that holds them for a writer or a
//! reader (RTPS 8.2.2, 8.2.3).
use vstd::prelude::*;
use crate::dds::key::KeyHash;
use crate::message::element::{ParameterList, SequenceNumber, SerializedPayload, Timestamp, payload_bytes};
use crate::structure::guid::GUID;
use crate::dds::qos::policy::{History, HistoryQosKind, ResourceLimits};
use vstd::string::StringExecFns;
use crate::rtps::seq_util::{
    by_key, distinct_by, drop_key, has_key, keys_by, lemma_drop_key_facts,
    lemma_has_key_take_member, lemma_has_key_take_step, lemma_remove_is_drop_key,
    lemma_select_distinct, lemma_select_has_key, lemma_select_members, select,
};

verus! {

#[derive(Clone, Copy, Debug, PartialEq, Eq, Structural)]
pub enum ChangeKind {
    Alive,
    _AliveFiltered,
    _NotAlive,
    _NotAliveDisposed,
    _NotAliveUnregistered,
}

/// Identifies an instance within a history cache.
#[derive(Clone, Copy, Debug, PartialEq, Eq, Structural)]
pub struct InstanceHandle {
    pub instance_id: u32,
}

impl InstanceHandle {
    /// The handle that is less than every valid handle (DDS 2.2.2.5.3.16).
    pub fn handle_nil() -> (h: InstanceHandle)
        ensures
            h.instance_id == 0,
    {
        InstanceHandle { instance_id: 0 }
    }

    pub fn handle_entity() -> (h: InstanceHandle)
        ensures
            h.instance_id == 1,
    {
        InstanceHandle { instance_id: 1 }
    }

    /// A valid handle; the id must be above that of the nil handle.
    pub fn new(id: u32) -> (h: InstanceHandle)
        requires
            id > 0,
        ensures
            h.instance_id == id,
    {
        InstanceHandle { instance_id: id }
    }
}

/// The key of a change in a history cache: the writer's GUID and the
/// sequence number.
#[derive(Clone, Copy, Debug)]
pub struct HCKey {
    pub guid: GUID,
    pub seq_num: SequenceNumber,
}

/// A key as numbers: the sequence number, then the rank of the GUID. Keys
/// are ordered by sequence number first, then by GUID.
pub open spec fn key_of(k: HCKey) -> (int, int) {
    (k.seq_num.0 as int, k.guid.rank())
}

/// The order of keys.
pub open spec fn key_lt(a: (int, int), b: (int, int)) -> bool {
    a.0 < b.0 || (a.0 == b.0 && a.1 < b.1)
}

impl HCKey {
    pub fn new(guid: GUID, seq_num: SequenceNumber) -> (k: HCKey)
        ensures
            k.guid == guid,
            k.seq_num == seq_num,
    {
        HCKey { guid, seq_num }
    }

    /// Whether both keys name the same change.
    pub fn same(&self, other: &HCKey) -> (r: bool)
        ensures
            r == (key_of(*self) == key_of(*other)),
    {
        self.seq_num.0 == other.seq_num.0 && self.guid.rank_value() == other.guid.rank_value()
    }

    /// Whether `self` orders before `other`.
    pub fn lt(&self, other: &HCKey) -> (r: bool)
        ensures
            r == key_lt(key_of(*self), key_of(*other)),
    {
        self.seq_num.0 < other.seq_num.0 || (self.seq_num.0 == other.seq_num.0
            && self.guid.rank_value() < other.guid.rank_value())
    }
}

/// One change to the data of a topic, as a history cache holds it.
#[derive(Clone, Debug)]
pub struct CacheChange {
    pub kind: ChangeKind,
    pub writer_guid: GUID,
    pub sequence_number: SequenceNumber,
    pub timestamp: Timestamp,
    pub data_value: Option<SerializedPayload>,
    pub inline_qos: Option<ParameterList>,
    pub instance_handle: InstanceHandle,
}

/// The key of a change.
pub open spec fn change_key(c: CacheChange) -> (int, int) {
    (c.sequence_number.0 as int, c.writer_guid.rank())
}

/// Whether two optional payloads hold the same octets.
pub open spec fn same_payload(a: Option<SerializedPayload>, b: Option<SerializedPayload>) -> bool {
    match (a, b) {
        (None, None) => true,
        (Some(x), Some(y)) => payload_bytes(x) == payload_bytes(y),
        _ => false,
    }
}

/// Whether two optional payloads hold the same octets.
pub fn payload_eq(a: &Option<SerializedPayload>, b: &Option<SerializedPayload>) -> (r: bool)
    ensures
        r == same_payload(*a, *b),
{
    match (a, b) {
        (None, None) => true,
        (Some(x), Some(y)) => {
            let bx = x.to_bytes();
            let by = y.to_bytes();
            crate::dds::qos::policy::same_octets(&bx, &by)
        },
        _ => false,
    }
}

impl CacheChange {
    pub fn new(
        kind: ChangeKind,
        writer_guid: GUID,
        sequence_number: SequenceNumber,
        timestamp: Timestamp,
        data_value: Option<SerializedPayload>,
        inline_qos: Option<ParameterList>,
        instance_handle: InstanceHandle,
    ) -> (c: CacheChange)
        ensures
            c == (CacheChange {
                kind,
                writer_guid,
                sequence_number,
                timestamp,
                data_value,
                inline_qos,
                instance_handle,
            }),
    {
        CacheChange {
            kind,
            writer_guid,
            sequence_number,
            timestamp,
            data_value,
            inline_qos,
            instance_handle,
        }
    }

    pub fn data_value(&self) -> (d: Option<&SerializedPayload>)
        ensures
            match self.data_value {
                None => d is None,
                Some(p) => d == Some(&p),
            },
    {
        self.data_value.as_ref()
    }
}

/// A change as received, before it has an instance handle.
#[derive(Clone, Debug)]
pub struct CacheChangeIng {
    pub kind: ChangeKind,
    pub writer_guid: GUID,
    pub sequence_number: SequenceNumber,
    pub timestamp: Timestamp,
    pub data_value: Option<SerializedPayload>,
    pub inline_qos: Option<ParameterList>,
    pub key_hash: Option<KeyHash>,
}

impl CacheChangeIng {
    pub fn new(
        kind: ChangeKind,
        writer_guid: GUID,
        sequence_number: SequenceNumber,
        timestamp: Timestamp,
        data_value: Option<SerializedPayload>,
        inline_qos: Option<ParameterList>,
        key_hash: Option<KeyHash>,
    ) -> (c: CacheChangeIng)
        ensures
            c == (CacheChangeIng {
                kind,
                writer_guid,
                sequence_number,
                timestamp,
                data_value,
                inline_qos,
                key_hash,
            }),
    {
        CacheChangeIng {
            kind,
            writer_guid,
            sequence_number,
            timestamp,
            data_value,
            inline_qos,
            key_hash,
        }
    }

    pub fn data_value(&self) -> (d: Option<&SerializedPayload>)
        ensures
            match self.data_value {
                None => d is None,
                Some(p) => d == Some(&p),
            },
    {
        self.data_value.as_ref()
    }

    /// The change with the given instance handle.
    pub fn gen_cache_change(self, instance_handle: InstanceHandle) -> (c: CacheChange)
        ensures
            c == (CacheChange {
                kind: self.kind,
                writer_guid: self.writer_guid,
                sequence_number: self.sequence_number,
                timestamp: self.timestamp,
                data_value: self.data_value,
                inline_qos: self.inline_qos,
                instance_handle,
            }),
    {
        CacheChange::new(
            self.kind,
            self.writer_guid,
            self.sequence_number,
            self.timestamp,
            self.data_value,
            self.inline_qos,
            instance_handle,
        )
    }
}

/// Where a change stands in its delivery to one remote reader.
#[derive(Clone, Copy, Debug, PartialEq, Eq, Structural)]
pub enum ChangeForReaderStatusKind {
    Unsent,
    Unacknowledged,
    Requested,
    Acknowledged,
    Underway,
}

/// Where a change from one remote writer stands at the reader.
#[derive(Clone, Copy, Debug, PartialEq, Eq, Structural)]
pub enum ChangeFromWriterStatusKind {
    Lost,
    Missing,
    Received,
    _Uuknown,
}

#[derive(Clone, Copy, Debug, PartialEq, Eq, Structural)]
pub struct ChangeForReader {
    pub seq_num: SequenceNumber,
    pub status: ChangeForReaderStatusKind,
    pub is_relevant: bool,
}

impl ChangeForReader {
    pub fn new(
        seq_num: SequenceNumber,
        status: ChangeForReaderStatusKind,
        is_relevant: bool,
    ) -> (c: ChangeForReader)
        ensures
            c == (ChangeForReader { seq_num, status, is_relevant }),
    {
        ChangeForReader { seq_num, status, is_relevant }
    }
}

#[derive(Clone, Copy, Debug, PartialEq, Eq, Structural)]
pub struct ChangeFromWriter {
    pub _seq_num: SequenceNumber,
    pub _is_relevant: bool,
    pub status: ChangeFromWriterStatusKind,
}

impl ChangeFromWriter {
    pub fn new(
        seq_num: SequenceNumber,
        status: ChangeFromWriterStatusKind,
        _is_relevant: bool,
    ) -> (c: ChangeFromWriter)
        ensures
            c == (ChangeFromWriter { _seq_num: seq_num, _is_relevant, status }),
    {
        ChangeFromWriter { _seq_num: seq_num, status, _is_relevant }
    }
}

/// Whose changes a history cache holds.
#[derive(Clone, Copy, Debug, PartialEq, Eq, Structural)]
pub enum HistoryCacheType {
    Reader,
    Writer,
    Dummy,
}

/// Why a change was not added.
#[derive(Debug)]
pub enum AddChangeErr {
    /// A reliable writer's cache is full; adding would have to wait until a
    /// change is removed.
    WouldBlock(String),
}

/// The key of a change, as a function.
pub open spec fn ckf() -> spec_fn(CacheChange) -> (int, int) {
    |c: CacheChange| change_key(c)
}

/// The key of a key, as a function.
pub open spec fn hkf() -> spec_fn(HCKey) -> (int, int) {
    |k: HCKey| key_of(k)
}

/// The numbers of some sequence numbers.
pub open spec fn seq_nums(v: Seq<SequenceNumber>) -> Seq<int> {
    v.map_values(|s: SequenceNumber| s.0 as int)
}

/// The last time recorded for the writer of rank `r`, if any.
pub open spec fn lookup_last(v: Seq<(GUID, Timestamp)>, r: int) -> Option<Timestamp>
    decreases v.len(),
{
    if v.len() == 0 {
        None
    } else if v.last().0.rank() == r {
        Some(v.last().1)
    } else {
        lookup_last(v.drop_last(), r)
    }
}

/// The instance handle recorded for the key hash `h`, if any.
pub open spec fn lookup_handle(v: Seq<(KeyHash, InstanceHandle)>, h: Seq<u8>) -> Option<InstanceHandle>
    decreases v.len(),
{
    if v.len() == 0 {
        None
    } else if v.last().0._hash@ == h {
        Some(v.last().1)
    } else {
        lookup_handle(v.drop_last(), h)
    }
}

/// The changes of one writer or reader. Changes are kept in the order they
/// were added; their keys differ.
pub struct HistoryCache {
    pub changes: Vec<CacheChange>,
    pub hc_type: HistoryCacheType,
    /// Writer caches: sequence numbers of changes the writer has not yet
    /// announced.
    pub unprocessed_seqnum: Vec<SequenceNumber>,
    /// Reader caches: keys of changes the application has taken, in
    /// increasing key order.
    pub taken_key: Vec<HCKey>,
    /// Reader caches: keys of changes the application may take.
    pub ready_key: Vec<HCKey>,
    /// The time of the last change added from each writer.
    pub last_added: Vec<(GUID, Timestamp)>,
    pub next_ih: u32,
    pub kh2ih: Vec<(KeyHash, InstanceHandle)>,
}

impl HistoryCache {
    /// The keys of the changes, in the order they were added.
    pub open spec fn keys(self) -> Seq<(int, int)> {
        keys_by(self.changes@, ckf())
    }

    /// Whether a change with key `k` is held.
    pub open spec fn holds(self, k: (int, int)) -> bool {
        has_key(self.changes@, ckf(), k)
    }

    /// The cache's invariant: keys of changes, unannounced sequence numbers,
    /// taken and ready keys, writers and key hashes occur once each; every
    /// ready key is held; instance handles are distinct and below `next_ih`;
    /// only writer caches have unannounced changes and only reader caches
    /// have taken or ready keys.
    pub open spec fn wf(self) -> bool {
        &&& distinct_by(self.changes@, ckf())
        &&& seq_nums(self.unprocessed_seqnum@).no_duplicates()
        &&& distinct_by(self.taken_key@, hkf())
        &&& sorted_by_key(self.taken_key@)
        &&& distinct_by(self.ready_key@, hkf())
        &&& forall|i: int|
            0 <= i < self.ready_key@.len() ==> self.holds(key_of(#[trigger] self.ready_key@[i]))
        &&& forall|i: int, j: int|
            0 <= i < j < self.last_added@.len() ==> (#[trigger] self.last_added@[i]).0.rank()
                != (#[trigger] self.last_added@[j]).0.rank()
        &&& forall|i: int, j: int|
            0 <= i < j < self.kh2ih@.len() ==> (#[trigger] self.kh2ih@[i]).0._hash@
                != (#[trigger] self.kh2ih@[j]).0._hash@ && self.kh2ih@[i].1.instance_id
                != self.kh2ih@[j].1.instance_id
        &&& forall|i: int|
            0 <= i < self.kh2ih@.len() ==> 0x10 <= (#[trigger] self.kh2ih@[i]).1.instance_id
                < self.next_ih
        &&& self.next_ih >= 0x10
        &&& self.hc_type == HistoryCacheType::Reader ==> self.unprocessed_seqnum@.len() == 0
        &&& self.hc_type != HistoryCacheType::Reader ==> self.taken_key@.len() == 0
            && self.ready_key@.len() == 0
    }

    /// An empty cache of the given kind; instance handles start at 0x10.
    pub fn new(hc_type: HistoryCacheType) -> (hc: HistoryCache)
        ensures
            hc.wf(),
            hc.hc_type == hc_type,
            hc.changes@.len() == 0,
            hc.unprocessed_seqnum@.len() == 0,
            hc.taken_key@.len() == 0,
            hc.ready_key@.len() == 0,
            hc.last_added@.len() == 0,
            hc.kh2ih@.len() == 0,
            hc.next_ih == 0x10,
    {
        HistoryCache {
            changes: Vec::new(),
            hc_type,
            unprocessed_seqnum: Vec::new(),
            taken_key: Vec::new(),
            ready_key: Vec::new(),
            last_added: Vec::new(),
            next_ih: 0x10,
            kh2ih: Vec::new(),
        }
    }

    /// The instance handle of a key hash: the one given before, or the next
    /// fresh handle, which is then recorded.
    pub fn key_hash2instance_handle(&mut self, keyhash: KeyHash) -> (ih: InstanceHandle)
        requires
            old(self).wf(),
            lookup_handle(old(self).kh2ih@, keyhash._hash@) is None ==> old(self).next_ih
                < u32::MAX,
        ensures
            final(self).wf(),
            spec_handle_given(*old(self), *final(self), keyhash, ih),
    {
        let mut i: usize = self.kh2ih.len();
        proof {
            assert(self.kh2ih@.take(i as int) =~= self.kh2ih@);
        }
        while i > 0
            invariant
                0 <= i <= self.kh2ih@.len(),
                self.wf(),
                *self == *old(self),
                lookup_handle(self.kh2ih@, keyhash._hash@) == lookup_handle(
                    self.kh2ih@.take(i as int),
                    keyhash._hash@,
                ),
            decreases i,
        {
            proof {
                assert(self.kh2ih@.take(i as int).drop_last() =~= self.kh2ih@.take(i - 1));
            }
            if self.kh2ih[i - 1].0.same(&keyhash) {
                return self.kh2ih[i - 1].1;
            }
            i = i - 1;
        }
        let ih = InstanceHandle::new(self.next_ih);
        proof {
            assert(self.kh2ih@.take(0) =~= Seq::<(KeyHash, InstanceHandle)>::empty());
            lemma_lookup_handle_absent(self.kh2ih@, keyhash._hash@);
        }
        self.kh2ih.push((keyhash, ih));
        self.next_ih = self.next_ih + 1;
        proof {
            assert(self.kh2ih@.drop_last() =~= old(self).kh2ih@);
        }
        ih
    }

    /// Records `now` as the time of the last change from `guid`.
    pub fn add_empty_change(&mut self, guid: GUID, now: Timestamp)
        requires
            old(self).wf(),
        ensures
            final(self).wf(),
            lookup_last(final(self).last_added@, guid.rank()) == Some(now),
            forall|r: int|
                r != guid.rank() ==> lookup_last(final(self).last_added@, r) == lookup_last(
                    old(self).last_added@,
                    r,
                ),
            final(self).changes == old(self).changes,
            final(self).hc_type == old(self).hc_type,
            final(self).unprocessed_seqnum == old(self).unprocessed_seqnum,
            final(self).taken_key == old(self).taken_key,
            final(self).ready_key == old(self).ready_key,
            final(self).next_ih == old(self).next_ih,
            final(self).kh2ih == old(self).kh2ih,
    {
        self.record_last_added(guid, now);
    }

    /// Sets the time of the last change from `guid`.
    fn record_last_added(&mut self, guid: GUID, ts: Timestamp)
        requires
            old(self).wf(),
        ensures
            final(self).wf(),
            lookup_last(final(self).last_added@, guid.rank()) == Some(ts),
            forall|r: int|
                r != guid.rank() ==> lookup_last(final(self).last_added@, r) == lookup_last(
                    old(self).last_added@,
                    r,
                ),
            final(self).changes == old(self).changes,
            final(self).hc_type == old(self).hc_type,
            final(self).unprocessed_seqnum == old(self).unprocessed_seqnum,
            final(self).taken_key == old(self).taken_key,
            final(self).ready_key == old(self).ready_key,
            final(self).next_ih == old(self).next_ih,
            final(self).kh2ih == old(self).kh2ih,
    {
        let r = guid.rank_value();
        let mut i: usize = 0;
        while i < self.last_added.len()
            invariant
                0 <= i <= self.last_added@.len(),
                self.wf(),
                *self == *old(self),
                r == guid.rank(),
                forall|j: int| 0 <= j < i ==> (#[trigger] self.last_added@[j]).0.rank() != r,
            decreases self.last_added@.len() - i,
        {
            if self.last_added[i].0.rank_value() == r {
                let ghost before = self.last_added@;
                self.last_added.set(i, (guid, ts));
                proof {
                    lemma_lookup_last_set(before, i as int, guid, ts);
                    assert(self.last_added@ == before.update(i as int, (guid, ts)));
                    assert forall|a: int, b: int| 0 <= a < b < self.last_added@.len() implies (
                    #[trigger] self.last_added@[a]).0.rank() != (
                    #[trigger] self.last_added@[b]).0.rank() by {
                        assert(before[a].0.rank() != before[b].0.rank());
                    }
                }
                return;
            }
            i = i + 1;
        }
        let ghost before = self.last_added@;
        self.last_added.push((guid, ts));
        proof {
            assert(self.last_added@.drop_last() =~= before);
            assert forall|q: int| q != guid.rank() implies lookup_last(self.last_added@, q)
                == lookup_last(before, q) by {
                assert(self.last_added@.last().0.rank() == guid.rank());
            }
            assert forall|a: int, b: int| 0 <= a < b < self.last_added@.len() implies (
            #[trigger] self.last_added@[a]).0.rank() != (#[trigger] self.last_added@[b]).0.rank() by {
                if b == self.last_added@.len() - 1 {
                    assert(self.last_added@[a] == before[a]);
                } else {
                    assert(before[a].0.rank() != before[b].0.rank());
                }
            }
        }
    }

    /// The change with the given writer and sequence number, if held.
    pub fn get_change(&self, guid: GUID, seq_num: SequenceNumber) -> (c: Option<&CacheChange>)
        requires
            self.wf(),
        ensures
            c is Some <==> self.holds((seq_num.0 as int, guid.rank())),
            c matches Some(ch) ==> self.changes@.contains(*ch) && change_key(*ch) == (
                seq_num.0 as int,
                guid.rank(),
            ),
    {
        match index_of_change(&self.changes, &HCKey::new(guid, seq_num)) {
            Some(i) => Some(&self.changes[i]),
            None => None,
        }
    }

    /// The time of the last change added from `writer_guid`, if any.
    pub fn get_last_added_ts(&self, writer_guid: GUID) -> (t: Option<Timestamp>)
        requires
            self.wf(),
        ensures
            t == lookup_last(self.last_added@, writer_guid.rank()),
    {
        let r = writer_guid.rank_value();
        let mut i: usize = self.last_added.len();
        proof {
            assert(self.last_added@.take(i as int) =~= self.last_added@);
        }
        while i > 0
            invariant
                0 <= i <= self.last_added@.len(),
                r == writer_guid.rank(),
                lookup_last(self.last_added@, r as int) == lookup_last(
                    self.last_added@.take(i as int),
                    r as int,
                ),
            decreases i,
        {
            proof {
                assert(self.last_added@.take(i as int).drop_last() =~= self.last_added@.take(i - 1));
            }
            if self.last_added[i - 1].0.rank_value() == r {
                return Some(self.last_added[i - 1].1);
            }
            i = i - 1;
        }
        proof {
            assert(self.last_added@.take(0) =~= Seq::<(GUID, Timestamp)>::empty());
        }
        None
    }

    /// Writer caches: hands out the sequence numbers of changes not yet
    /// announced and forgets them.
    pub fn get_unprocessed(&mut self) -> (r: Vec<SequenceNumber>)
        requires
            old(self).wf(),
            old(self).hc_type == HistoryCacheType::Writer,
        ensures
            final(self).wf(),
            r@ == old(self).unprocessed_seqnum@,
            final(self).unprocessed_seqnum@.len() == 0,
            final(self).changes == old(self).changes,
            final(self).hc_type == old(self).hc_type,
            final(self).taken_key == old(self).taken_key,
            final(self).ready_key == old(self).ready_key,
            final(self).last_added == old(self).last_added,
            final(self).next_ih == old(self).next_ih,
            final(self).kh2ih == old(self).kh2ih,
    {
        let mut r: Vec<SequenceNumber> = Vec::new();
        core::mem::swap(&mut r, &mut self.unprocessed_seqnum);
        proof {
            assert(seq_nums(self.unprocessed_seqnum@) =~= Seq::<int>::empty());
        }
        r
    }

    /// Reader caches: hands out the keys of changes the application has taken
    /// and forgets them.
    pub fn get_taken(&mut self) -> (r: Vec<HCKey>)
        requires
            old(self).wf(),
            old(self).hc_type == HistoryCacheType::Reader,
        ensures
            final(self).wf(),
            r@ == old(self).taken_key@,
            sorted_by_key(r@),
            final(self).taken_key@.len() == 0,
            final(self).changes == old(self).changes,
            final(self).hc_type == old(self).hc_type,
            final(self).unprocessed_seqnum == old(self).unprocessed_seqnum,
            final(self).ready_key == old(self).ready_key,
            final(self).last_added == old(self).last_added,
            final(self).next_ih == old(self).next_ih,
            final(self).kh2ih == old(self).kh2ih,
    {
        let mut r: Vec<HCKey> = Vec::new();
        core::mem::swap(&mut r, &mut self.taken_key);
        r
    }

    /// Reader caches: marks every held change ready to be taken; tells
    /// whether there was any.
    pub fn flush(&mut self) -> (r: bool)
        requires
            old(self).wf(),
            old(self).hc_type == HistoryCacheType::Reader,
        ensures
            final(self).wf(),
            r == (old(self).changes@.len() > 0),
            keys_by(final(self).ready_key@, hkf()) == old(self).keys(),
            final(self).changes == old(self).changes,
            final(self).hc_type == old(self).hc_type,
            final(self).unprocessed_seqnum == old(self).unprocessed_seqnum,
            final(self).taken_key == old(self).taken_key,
            final(self).last_added == old(self).last_added,
            final(self).next_ih == old(self).next_ih,
            final(self).kh2ih == old(self).kh2ih,
    {
        let mut ready: Vec<HCKey> = Vec::new();
        let mut i: usize = 0;
        while i < self.changes.len()
            invariant
                0 <= i <= self.changes@.len(),
                ready@.len() == i,
                forall|j: int| 0 <= j < i ==> key_of(#[trigger] ready@[j]) == change_key(self.changes@[j]),
            decreases self.changes@.len() - i,
        {
            let c = &self.changes[i];
            ready.push(HCKey::new(c.writer_guid, c.sequence_number));
            i = i + 1;
        }
        self.ready_key = ready;
        proof {
            assert(keys_by(self.ready_key@, hkf()) =~= old(self).keys());
            assert forall|a: int, b: int| 0 <= a < b < self.ready_key@.len() implies hkf()(
                #[trigger] self.ready_key@[a],
            ) != hkf()(#[trigger] self.ready_key@[b]) by {
                assert(ckf()(self.changes@[a]) != ckf()(self.changes@[b]));
            }
            assert forall|a: int| 0 <= a < self.ready_key@.len() implies self.holds(
                key_of(#[trigger] self.ready_key@[a]),
            ) by {
                assert(ckf()(self.changes@[a]) == key_of(self.ready_key@[a]));
            }
        }
        self.changes.len() > 0
    }

    /// Removes the change with the key of `key`, unless its sequence number
    /// is still unannounced. In a reader cache the key stops being ready, and
    /// with `taken` it is recorded as taken by the application.
    pub fn remove_change(&mut self, key: &HCKey, taken: bool)
        requires
            old(self).wf(),
        ensures
            final(self).wf(),
            spec_removed(*old(self), *final(self), key_of(*key), key.seq_num.0 as int, taken),
    {
        if contains_seq(&self.unprocessed_seqnum, key.seq_num) {
            return;
        }
        let ghost k = key_of(*key);
        match index_of_change(&self.changes, key) {
            None => {
                proof {
                    lemma_drop_key_facts(self.changes@, ckf(), k);
                }
            },
            Some(i) => {
                let ghost before = self.changes@;
                let ghost old_ready = self.ready_key@;
                self.changes.remove(i);
                proof {
                    lemma_remove_is_drop_key(before, ckf(), i as int);
                    lemma_drop_key_facts(before, ckf(), k);
                }
                if self.hc_type == HistoryCacheType::Reader {
                    match index_of_key(&self.ready_key, key) {
                        Some(j) => {
                            self.ready_key.remove(j);
                            proof {
                                lemma_remove_is_drop_key(old_ready, hkf(), j as int);
                            }
                        },
                        None => {},
                    }
                    proof {
                        lemma_drop_key_facts(old_ready, hkf(), k);
                        assert forall|a: int| 0 <= a < self.ready_key@.len() implies self.holds(
                            key_of(#[trigger] self.ready_key@[a]),
                        ) by {
                            let x = key_of(self.ready_key@[a]);
                            assert(hkf()(self.ready_key@[a]) == x);
                            assert(has_key(self.ready_key@, hkf(), x));
                            assert(has_key(old_ready, hkf(), x));
                            let b = choose|b: int|
                                0 <= b < old_ready.len() && hkf()(#[trigger] old_ready[b]) == x;
                            assert(old(self).holds(key_of(old_ready[b])));
                        }
                    }
                    if taken {
                        self.add_taken(key);
                    }
                } else {
                    proof {
                        lemma_drop_key_facts(self.ready_key@, hkf(), k);
                    }
                }
            },
        }
    }

    /// Records `key` as taken, once.
    fn add_taken(&mut self, key: &HCKey)
        requires
            old(self).wf(),
            old(self).hc_type == HistoryCacheType::Reader,
        ensures
            final(self).wf(),
            has_key(final(self).taken_key@, hkf(), key_of(*key)),
            forall|x: (int, int)|
                x != key_of(*key) ==> has_key(final(self).taken_key@, hkf(), x) == has_key(
                    old(self).taken_key@,
                    hkf(),
                    x,
                ),
            final(self).changes == old(self).changes,
            final(self).hc_type == old(self).hc_type,
            final(self).unprocessed_seqnum == old(self).unprocessed_seqnum,
            final(self).ready_key == old(self).ready_key,
            final(self).last_added == old(self).last_added,
            final(self).next_ih == old(self).next_ih,
            final(self).kh2ih == old(self).kh2ih,
    {
        match index_of_key(&self.taken_key, key) {
            Some(j) => {
                assert(hkf()(self.taken_key@[j as int]) == key_of(*key));
            },
            None => {
                let ghost before = self.taken_key@;
                let mut i: usize = 0;
                while i < self.taken_key.len() && self.taken_key[i].lt(key)
                    invariant
                        i <= self.taken_key@.len(),
                        self.taken_key@ == before,
                        forall|j: int| 0 <= j < i ==> key_lt(key_of(#[trigger] before[j]), key_of(*key)),
                    decreases self.taken_key@.len() - i,
                {
                    i = i + 1;
                }
                proof {
                    assert forall|j: int| i <= j < before.len() implies key_lt(key_of(*key), key_of(#[trigger] before[j])) by {
                        assert(hkf()(before[i as int]) != key_of(*key));
                        assert(!key_lt(key_of(before[i as int]), key_of(*key)));
                        if j > i {
                            assert(key_lt(key_of(before[i as int]), key_of(before[j])));
                        }
                    }
                    lemma_sorted_insert(before, i as int, *key);
                }
                self.taken_key.insert(i, *key);
            },
        }
    }

    /// Removes the change with the key of `key` if it is held (and its
    /// sequence number is not unannounced).
    pub fn remove_change_if_exist(&mut self, key: &HCKey)
        requires
            old(self).wf(),
        ensures
            final(self).wf(),
            old(self).holds(key_of(*key)) ==> spec_removed(
                *old(self),
                *final(self),
                key_of(*key),
                key.seq_num.0 as int,
                false,
            ),
            !old(self).holds(key_of(*key)) ==> *final(self) == *old(self),
    {
        if index_of_change(&self.changes, key).is_some() {
            self.remove_change(key, false);
        }
    }

    /// Reader caches: removes every change from the writer `guid`. Other
    /// caches are left as they are.
    pub fn remove_change_from_writer(&mut self, guid: &GUID)
        requires
            old(self).wf(),
        ensures
            final(self).wf(),
            old(self).hc_type != HistoryCacheType::Reader ==> *final(self) == *old(self),
            old(self).hc_type == HistoryCacheType::Reader ==> {
                &&& forall|x: (int, int)|
                    final(self).holds(x) <==> (old(self).holds(x) && x.1 != guid.rank())
                &&& forall|x: (int, int)|
                    has_key(final(self).ready_key@, hkf(), x) <==> (has_key(
                        old(self).ready_key@,
                        hkf(),
                        x,
                    ) && x.1 != guid.rank())
                &&& final(self).taken_key == old(self).taken_key
            },
            final(self).hc_type == old(self).hc_type,
            final(self).unprocessed_seqnum == old(self).unprocessed_seqnum,
            final(self).last_added == old(self).last_added,
            final(self).next_ih == old(self).next_ih,
            final(self).kh2ih == old(self).kh2ih,
    {
        if self.hc_type != HistoryCacheType::Reader {
            return;
        }
        let r = guid.rank_value();
        let mut i: usize = self.changes.len();
        proof {
            assert(self.changes@.take(i as int) =~= self.changes@);
            assert forall|x: (int, int)| has_key(self.ready_key@, hkf(), x) implies self.holds(x) by {
                let a = choose|a: int|
                    0 <= a < self.ready_key@.len() && hkf()(#[trigger] self.ready_key@[a]) == x;
                assert(self.holds(key_of(self.ready_key@[a])));
            }
        }
        while i > 0
            invariant
                0 <= i <= self.changes@.len(),
                r == guid.rank(),
                self.wf(),
                self.hc_type == HistoryCacheType::Reader,
                forall|j: int| i <= j < self.changes@.len() ==> (#[trigger] self.changes@[j]).writer_guid.rank() != r,
                forall|x: (int, int)|
                    self.holds(x) <==> (old(self).holds(x) && (x.1 != r || has_key(
                        self.changes@.take(i as int),
                        ckf(),
                        x,
                    ))),
                forall|x: (int, int)|
                    has_key(self.ready_key@, hkf(), x) <==> (has_key(old(self).ready_key@, hkf(), x)
                        && (x.1 != r || has_key(self.changes@.take(i as int), ckf(), x))),
                self.taken_key == old(self).taken_key,
                self.unprocessed_seqnum == old(self).unprocessed_seqnum,
                self.last_added == old(self).last_added,
                self.next_ih == old(self).next_ih,
                self.kh2ih == old(self).kh2ih,
            decreases i,
        {
            i = i - 1;
            if self.changes[i].writer_guid.rank_value() == r {
                let key = HCKey::new(self.changes[i].writer_guid, self.changes[i].sequence_number);
                let ghost pre = *self;
                self.remove_change(&key, false);
                proof {
                    let k = key_of(key);
                    assert(change_key(pre.changes@[i as int]) == k);
                    lemma_remove_is_drop_key(pre.changes@, ckf(), i as int);
                    lemma_drop_key_facts(pre.changes@, ckf(), k);
                    lemma_drop_key_facts(pre.ready_key@, hkf(), k);
                    assert(self.changes@ == pre.changes@.remove(i as int));
                    assert(self.changes@.take(i as int) =~= pre.changes@.take(i as int));
                    assert forall|j: int| i <= j < self.changes@.len() implies (
                    #[trigger] self.changes@[j]).writer_guid.rank() != r by {
                        assert(self.changes@[j] == pre.changes@[j + 1]);
                    }
                    lemma_has_key_take_step(pre.changes@, ckf(), i as int);
                    assert(!has_key(pre.changes@.take(i as int), ckf(), k)) by {
                        if has_key(pre.changes@.take(i as int), ckf(), k) {
                            let a = choose|a: int|
                                0 <= a < i && ckf()(#[trigger] pre.changes@.take(i as int)[a]) == k;
                            assert(pre.changes@.take(i as int)[a] == pre.changes@[a]);
                        }
                    }
                }
            } else {
                proof {
                    lemma_has_key_take_step(self.changes@, ckf(), i as int);
                    assert forall|x: (int, int)| self.holds(x) && x.1 == r implies has_key(
                        self.changes@.take(i as int),
                        ckf(),
                        x,
                    ) by {
                        let a = choose|a: int|
                            0 <= a < self.changes@.len() && ckf()(#[trigger] self.changes@[a]) == x;
                        if a >= i {
                            assert(self.changes@[a].writer_guid.rank() != r);
                        }
                        lemma_has_key_take_member(self.changes@, ckf(), i as int, a);
                    }
                }
            }
        }
        proof {
            assert(self.changes@.take(0) =~= Seq::<CacheChange>::empty());
        }
    }

    /// Reader caches: hands out the taken keys of changes from `guid` with a
    /// sequence number below `seq_num`, and forgets them.
    pub fn get_taken_less_than(&mut self, guid: GUID, seq_num: SequenceNumber) -> (res: Vec<HCKey>)
        requires
            old(self).wf(),
            old(self).hc_type == HistoryCacheType::Reader,
        ensures
            final(self).wf(),
            res@ == crate::rtps::seq_util::select(old(self).taken_key@, taken_before(guid.rank(), seq_num.0 as int)),
            sorted_by_key(res@),
            final(self).taken_key@ == crate::rtps::seq_util::select(old(self).taken_key@, not_taken_before(guid.rank(), seq_num.0 as int)),
            final(self).changes == old(self).changes,
            final(self).hc_type == old(self).hc_type,
            final(self).unprocessed_seqnum == old(self).unprocessed_seqnum,
            final(self).ready_key == old(self).ready_key,
            final(self).last_added == old(self).last_added,
            final(self).next_ih == old(self).next_ih,
            final(self).kh2ih == old(self).kh2ih,
    {
        let r = guid.rank_value();
        let mut res: Vec<HCKey> = Vec::new();
        let mut keep: Vec<HCKey> = Vec::new();
        let mut i: usize = 0;
        let ghost p = taken_before(guid.rank(), seq_num.0 as int);
        let ghost q = not_taken_before(guid.rank(), seq_num.0 as int);
        proof {
            assert(self.taken_key@.take(0) =~= Seq::<HCKey>::empty());
        }
        while i < self.taken_key.len()
            invariant
                0 <= i <= self.taken_key@.len(),
                r == guid.rank(),
                res@ == crate::rtps::seq_util::select(self.taken_key@.take(i as int), p),
                keep@ == crate::rtps::seq_util::select(self.taken_key@.take(i as int), q),
                p == taken_before(guid.rank(), seq_num.0 as int),
                q == not_taken_before(guid.rank(), seq_num.0 as int),
            decreases self.taken_key@.len() - i,
        {
            let k = self.taken_key[i];
            proof {
                assert(self.taken_key@.take(i + 1).drop_last() =~= self.taken_key@.take(i as int));
            }
            if k.guid.rank_value() == r && k.seq_num.0 < seq_num.0 {
                res.push(k);
            } else {
                keep.push(k);
            }
            i = i + 1;
        }
        proof {
            assert(self.taken_key@.take(i as int) =~= self.taken_key@);
            crate::rtps::seq_util::lemma_select_members(self.taken_key@, q);
            crate::rtps::seq_util::lemma_select_distinct(self.taken_key@, hkf(), q);
            lemma_select_sorted(self.taken_key@, q);
            lemma_select_sorted(self.taken_key@, p);
        }
        self.taken_key = keep;
        res
    }

    /// The smallest sequence number of a held change that has been announced,
    /// or 0 when there is none (or the smallest is the largest possible).
    pub fn get_seq_num_min(&self) -> (m: SequenceNumber)
        requires
            self.wf(),
        ensures
            m.0 == (if min_announced(self.changes@, seq_nums(self.unprocessed_seqnum@))
                == i64::MAX {
                0
            } else {
                min_announced(self.changes@, seq_nums(self.unprocessed_seqnum@))
            }),
            m.0 != 0 ==> forall|i: int|
                0 <= i < self.changes@.len() && announced(
                    #[trigger] self.changes@[i],
                    seq_nums(self.unprocessed_seqnum@),
                ) ==> m.0 <= self.changes@[i].sequence_number.0,
            m.0 != 0 ==> exists|i: int|
                0 <= i < self.changes@.len() && announced(
                    #[trigger] self.changes@[i],
                    seq_nums(self.unprocessed_seqnum@),
                ) && self.changes@[i].sequence_number == m,
            !seq_nums(self.unprocessed_seqnum@).contains(m.0 as int) || m.0 == 0,
    {
        let mut min: i64 = i64::MAX;
        let mut i: usize = 0;
        proof {
            assert(self.changes@.take(0) =~= Seq::<CacheChange>::empty());
        }
        while i < self.changes.len()
            invariant
                0 <= i <= self.changes@.len(),
                min == min_announced(self.changes@.take(i as int), seq_nums(self.unprocessed_seqnum@)),
            decreases self.changes@.len() - i,
        {
            let s = self.changes[i].sequence_number;
            let unannounced = contains_seq(&self.unprocessed_seqnum, s);
            if s.0 < min && !unannounced {
                min = s.0;
            }
            proof {
                assert(self.changes@.take(i + 1).drop_last() =~= self.changes@.take(i as int));
            }
            i = i + 1;
        }
        proof {
            assert(self.changes@.take(self.changes@.len() as int) =~= self.changes@);
            law_min_announced(self.changes@, seq_nums(self.unprocessed_seqnum@));
        }
        if min == i64::MAX {
            SequenceNumber(0)
        } else {
            SequenceNumber(min)
        }
    }

    /// The largest sequence number of a held change that has been announced,
    /// or 0 when there is none (or the largest is the smallest possible).
    pub fn get_seq_num_max(&self) -> (m: SequenceNumber)
        requires
            self.wf(),
        ensures
            m.0 == (if max_announced(self.changes@, seq_nums(self.unprocessed_seqnum@))
                == i64::MIN {
                0
            } else {
                max_announced(self.changes@, seq_nums(self.unprocessed_seqnum@))
            }),
            forall|i: int|
                0 <= i < self.changes@.len() && announced(
                    #[trigger] self.changes@[i],
                    seq_nums(self.unprocessed_seqnum@),
                ) ==> self.changes@[i].sequence_number.0 <= m.0,
            m.0 != 0 ==> exists|i: int|
                0 <= i < self.changes@.len() && announced(
                    #[trigger] self.changes@[i],
                    seq_nums(self.unprocessed_seqnum@),
                ) && self.changes@[i].sequence_number == m,
            !seq_nums(self.unprocessed_seqnum@).contains(m.0 as int) || m.0 == 0,
    {
        let mut max: i64 = i64::MIN;
        let mut i: usize = 0;
        proof {
            assert(self.changes@.take(0) =~= Seq::<CacheChange>::empty());
        }
        while i < self.changes.len()
            invariant
                0 <= i <= self.changes@.len(),
                max == max_announced(self.changes@.take(i as int), seq_nums(self.unprocessed_seqnum@)),
            decreases self.changes@.len() - i,
        {
            let s = self.changes[i].sequence_number;
            let unannounced = contains_seq(&self.unprocessed_seqnum, s);
            if s.0 > max && !unannounced {
                max = s.0;
            }
            proof {
                assert(self.changes@.take(i + 1).drop_last() =~= self.changes@.take(i as int));
            }
            i = i + 1;
        }
        proof {
            assert(self.changes@.take(self.changes@.len() as int) =~= self.changes@);
            law_max_announced(self.changes@, seq_nums(self.unprocessed_seqnum@));
        }
        if max == i64::MIN {
            SequenceNumber(0)
        } else {
            SequenceNumber(max)
        }
    }

    /// Writer caches: records `seq_num` as unannounced, once.
    fn insert_unprocessed(&mut self, seq_num: SequenceNumber)
        requires
            old(self).wf(),
            old(self).hc_type != HistoryCacheType::Reader,
        ensures
            final(self).wf(),
            final(self).unprocessed_seqnum@ == if seq_nums(old(self).unprocessed_seqnum@).contains(
                seq_num.0 as int,
            ) {
                old(self).unprocessed_seqnum@
            } else {
                old(self).unprocessed_seqnum@.push(seq_num)
            },
            final(self).changes == old(self).changes,
            final(self).hc_type == old(self).hc_type,
            final(self).taken_key == old(self).taken_key,
            final(self).ready_key == old(self).ready_key,
            final(self).last_added == old(self).last_added,
            final(self).next_ih == old(self).next_ih,
            final(self).kh2ih == old(self).kh2ih,
    {
        if !contains_seq(&self.unprocessed_seqnum, seq_num) {
            let ghost before = self.unprocessed_seqnum@;
            self.unprocessed_seqnum.push(seq_num);
            proof {
                assert(seq_nums(self.unprocessed_seqnum@) =~= seq_nums(before).push(seq_num.0 as int));
            }
        }
    }

    /// Reader caches: keeps only the changes whose keys are among the `depth`
    /// largest (all of them when `depth` is negative), and the ready keys of
    /// those.
    fn retain_newest(&mut self, depth: i32)
        requires
            old(self).wf(),
            old(self).hc_type == HistoryCacheType::Reader,
        ensures
            final(self).wf(),
            final(self).changes@ == select(
                old(self).changes@,
                by_key(ckf(), among_newest(old(self).keys(), depth as int)),
            ),
            final(self).ready_key@ == select(
                old(self).ready_key@,
                by_key(hkf(), among_newest(old(self).keys(), depth as int)),
            ),
            final(self).hc_type == old(self).hc_type,
            final(self).unprocessed_seqnum == old(self).unprocessed_seqnum,
            final(self).taken_key == old(self).taken_key,
            final(self).last_added == old(self).last_added,
            final(self).next_ih == old(self).next_ih,
            final(self).kh2ih == old(self).kh2ih,
    {
        let ghost keep = among_newest(self.keys(), depth as int);
        let ghost pc = by_key(ckf(), keep);
        let ghost ph = by_key(hkf(), keep);
        let mut flags: Vec<bool> = Vec::new();
        let mut i: usize = 0;
        while i < self.changes.len()
            invariant
                0 <= i <= self.changes@.len(),
                *self == *old(self),
                keep == among_newest(self.keys(), depth as int),
                pc == by_key(ckf(), keep),
                flags@.len() == i,
                forall|j: int| 0 <= j < i ==> flags@[j] == pc(#[trigger] self.changes@[j]),
            decreases self.changes@.len() - i,
        {
            let c = &self.changes[i];
            let n = count_greater_keys(&self.changes, &HCKey::new(c.writer_guid, c.sequence_number));
            flags.push(depth < 0 || n < depth as usize);
            i = i + 1;
        }
        let mut ready: Vec<HCKey> = Vec::new();
        let mut j: usize = 0;
        proof {
            assert(self.ready_key@.take(0) =~= Seq::<HCKey>::empty());
        }
        while j < self.ready_key.len()
            invariant
                0 <= j <= self.ready_key@.len(),
                *self == *old(self),
                keep == among_newest(self.keys(), depth as int),
                ph == by_key(hkf(), keep),
                ready@ == select(self.ready_key@.take(j as int), ph),
            decreases self.ready_key@.len() - j,
        {
            proof {
                assert(self.ready_key@.take(j + 1).drop_last() =~= self.ready_key@.take(j as int));
            }
            let k = self.ready_key[j];
            let n = count_greater_keys(&self.changes, &k);
            if depth < 0 || n < depth as usize {
                ready.push(k);
            }
            j = j + 1;
        }
        proof {
            assert(self.ready_key@.take(j as int) =~= self.ready_key@);
        }
        let ghost pre = *self;
        let mut src: Vec<CacheChange> = Vec::new();
        core::mem::swap(&mut src, &mut self.changes);
        let mut kept: Vec<CacheChange> = Vec::new();
        let mut m: usize = 0;
        let n = src.len();
        proof {
            assert(pre.changes@.take(0) =~= Seq::<CacheChange>::empty());
            assert(src@.subrange(0, n as int) =~= src@);
        }
        while m < n
            invariant
                0 <= m <= n,
                n == pre.changes@.len(),
                flags@.len() == n,
                forall|q: int| 0 <= q < n ==> flags@[q] == pc(#[trigger] pre.changes@[q]),
                src@ == pre.changes@.subrange(m as int, n as int),
                kept@ == select(pre.changes@.take(m as int), pc),
            decreases n - m,
        {
            proof {
                assert(pre.changes@.take(m + 1).drop_last() =~= pre.changes@.take(m as int));
                assert(src@[0] == pre.changes@[m as int]);
            }
            let c = src.remove(0);
            if flags[m] {
                kept.push(c);
            }
            proof {
                assert(src@ =~= pre.changes@.subrange(m + 1, n as int));
            }
            m = m + 1;
        }
        proof {
            assert(pre.changes@.take(m as int) =~= pre.changes@);
        }
        self.changes = kept;
        self.ready_key = ready;
        proof {
            lemma_select_distinct(pre.changes@, ckf(), pc);
            lemma_select_distinct(pre.ready_key@, hkf(), ph);
            lemma_select_has_key(pre.changes@, ckf(), keep);
            lemma_select_has_key(pre.ready_key@, hkf(), keep);
            assert forall|a: int| 0 <= a < self.ready_key@.len() implies self.holds(
                key_of(#[trigger] self.ready_key@[a]),
            ) by {
                let x = key_of(self.ready_key@[a]);
                assert(hkf()(self.ready_key@[a]) == x);
                assert(has_key(self.ready_key@, hkf(), x));
                assert(has_key(pre.ready_key@, hkf(), x) && keep(x));
                let b = choose|b: int|
                    0 <= b < pre.ready_key@.len() && hkf()(#[trigger] pre.ready_key@[b]) == x;
                assert(pre.holds(key_of(pre.ready_key@[b])));
            }
        }
    }

    /// Stores a change whose key is not held; see `spec_stored`.
    fn store_new(&mut self, change: CacheChange, history: History)
        requires
            old(self).wf(),
            !old(self).holds(change_key(change)),
        ensures
            final(self).wf(),
            spec_stored(*old(self), *final(self), change, history),
            old(self).hc_type == HistoryCacheType::Reader && history.kind == HistoryQosKind::KeepLast
                && history.depth >= 0 ==> final(self).changes@.len() <= history.depth,
    {
        let guid = change.writer_guid;
        let ts = change.timestamp;
        let seq_num = change.sequence_number;
        self.record_last_added(guid, ts);
        let ghost mid = *self;
        self.changes.push(change);
        proof {
            assert(self.changes@ == mid.changes@.push(change));
            assert forall|a: int, b: int| 0 <= a < b < self.changes@.len() implies ckf()(
                #[trigger] self.changes@[a],
            ) != ckf()(#[trigger] self.changes@[b]) by {
                if b == mid.changes@.len() {
                    assert(self.changes@[a] == mid.changes@[a]);
                    if ckf()(mid.changes@[a]) == change_key(change) {
                        assert(has_key(mid.changes@, ckf(), change_key(change)));
                    }
                } else {
                    assert(ckf()(mid.changes@[a]) != ckf()(mid.changes@[b]));
                }
            }
            assert forall|a: int| 0 <= a < self.ready_key@.len() implies self.holds(
                key_of(#[trigger] self.ready_key@[a]),
            ) by {
                let x = key_of(self.ready_key@[a]);
                assert(mid.holds(x));
                let b = choose|b: int| 0 <= b < mid.changes@.len() && ckf()(#[trigger] mid.changes@[b]) == x;
                assert(self.changes@[b] == mid.changes@[b]);
            }
        }
        if self.hc_type == HistoryCacheType::Reader {
            match history.kind {
                HistoryQosKind::KeepLast => {
                    self.retain_newest(history.depth);
                },
                HistoryQosKind::KeepAll => {},
            }
        }
        if self.hc_type == HistoryCacheType::Writer {
            self.insert_unprocessed(seq_num);
        }
        proof {
            if old(self).hc_type == HistoryCacheType::Reader && history.kind == HistoryQosKind::KeepLast
                && history.depth >= 0 {
                lemma_stored_within_depth(old(self).changes@, change, history.depth as int);
            }
        }
    }

    /// Adds a change. A change whose key is already held only refreshes its
    /// writer's last time (and, in a writer cache, is unannounced again). When
    /// the cache is full (see `is_full`), a reliable writer cache refuses the
    /// change with `WouldBlock`, a reliable reader cache drops it, and a
    /// best-effort cache first removes its oldest change. A reader cache that
    /// keeps the last `depth` changes then drops the older ones.
    pub fn add_change(
        &mut self,
        change: CacheChange,
        is_reliable: bool,
        resource_limits: ResourceLimits,
        history: History,
    ) -> (r: Result<(), AddChangeErr>)
        requires
            old(self).wf(),
            old(self).holds(change_key(change)) ==> old(self).hc_type != HistoryCacheType::Dummy,
            forall|i: int|
                0 <= i < old(self).changes@.len() && change_key(#[trigger] old(self).changes@[i])
                    == change_key(change) ==> same_payload(
                    old(self).changes@[i].data_value,
                    change.data_value,
                ),
            !old(self).holds(change_key(change)) && is_full(
                old(self).changes@.len() as int,
                resource_limits.max_samples as int,
            ) ==> old(self).hc_type != HistoryCacheType::Dummy && (is_reliable
                || old(self).changes@.len() > 0),
        ensures
            final(self).wf(),
            spec_added(
                *old(self),
                *final(self),
                change,
                is_reliable,
                resource_limits.max_samples,
                history,
            ),
            old(self).hc_type == HistoryCacheType::Reader ==> r is Ok,
            old(self).hc_type == HistoryCacheType::Reader && history.kind == HistoryQosKind::KeepLast
                && history.depth >= 0 && !old(self).holds(change_key(change)) && !(is_reliable && is_full(
                old(self).changes@.len() as int,
                resource_limits.max_samples as int,
            )) ==> final(self).changes@.len() <= history.depth,
            old(self).hc_type == HistoryCacheType::Reader && history.kind == HistoryQosKind::KeepLast
                && history.depth >= 0 && old(self).changes@.len() <= history.depth
                ==> final(self).changes@.len() <= history.depth,
            old(self).holds(change_key(change)) ==> r is Ok && spec_readded(
                *old(self),
                *final(self),
                change,
            ),
            !old(self).holds(change_key(change)) && !is_full(
                old(self).changes@.len() as int,
                resource_limits.max_samples as int,
            ) ==> r is Ok && spec_stored(*old(self), *final(self), change, history),
            !old(self).holds(change_key(change)) && is_full(
                old(self).changes@.len() as int,
                resource_limits.max_samples as int,
            ) ==> if is_reliable {
                &&& *final(self) == *old(self)
                &&& old(self).hc_type == HistoryCacheType::Writer ==> (r matches Err(
                    AddChangeErr::WouldBlock(m),
                ) && m@ == "resource_limits.max_samples reached"@)
                &&& old(self).hc_type == HistoryCacheType::Reader ==> r is Ok
            } else {
                &&& r is Ok
                &&& exists|mid: HistoryCache|
                    spec_removed(
                        *old(self),
                        mid,
                        change_key(old(self).changes@[0]),
                        old(self).changes@[0].sequence_number.0 as int,
                        false,
                    ) && spec_stored(mid, *final(self), change, history)
            },
    {
        let seq_num = change.sequence_number;
        let key = HCKey::new(change.writer_guid, seq_num);
        if index_of_change(&self.changes, &key).is_some() {
            self.record_last_added(key.guid, change.timestamp);
            if self.hc_type == HistoryCacheType::Writer {
                self.insert_unprocessed(seq_num);
            }
            return Ok(());
        }
        let max_samples = resource_limits.max_samples;
        if max_samples >= 0 && (max_samples == 0 || self.changes.len() >= (max_samples - 1) as usize) {
            if is_reliable {
                if self.hc_type == HistoryCacheType::Writer {
                    return Err(AddChangeErr::WouldBlock(String::from_str("resource_limits.max_samples reached")));
                } else {
                    return Ok(());
                }
            }
            let oldest = HCKey::new(self.changes[0].writer_guid, self.changes[0].sequence_number);
            let ghost pre = *self;
            self.remove_change(&oldest, false);
            let ghost mid = *self;
            proof {
                lemma_drop_key_facts(pre.changes@, ckf(), key_of(oldest));
            }
            self.store_new(change, history);
            proof {
                assert(spec_removed(pre, mid, change_key(pre.changes@[0]), pre.changes@[0].sequence_number.0 as int, false));
            }
            return Ok(());
        }
        self.store_new(change, history);
        Ok(())
    }

    /// Reader caches: the alive changes whose keys are ready, ordered by key,
    /// with their keys.
    pub fn get_ready_changes(&self) -> (res: (Vec<HCKey>, Vec<&CacheChange>))
        requires
            self.wf(),
        ensures
            ready_listing(*self, res.0@, res.1@, None),
    {
        self.ready_changes_of(None)
    }

    /// Reader caches: the alive changes of one instance whose keys are ready,
    /// ordered by key, with their keys.
    pub fn get_ready_instance_changes(&self, instance_handle: InstanceHandle) -> (res: (
        Vec<HCKey>,
        Vec<&CacheChange>,
    ))
        requires
            self.wf(),
        ensures
            ready_listing(*self, res.0@, res.1@, Some(instance_handle)),
    {
        self.ready_changes_of(Some(instance_handle))
    }

    fn ready_changes_of(&self, ih: Option<InstanceHandle>) -> (res: (Vec<HCKey>, Vec<&CacheChange>))
        requires
            self.wf(),
        ensures
            ready_listing(*self, res.0@, res.1@, ih),
    {
        let mut keys: Vec<HCKey> = Vec::new();
        let mut refs: Vec<&CacheChange> = Vec::new();
        let ghost mut idx: Seq<int> = Seq::empty();
        let mut i: usize = 0;
        while i < self.changes.len()
            invariant
                0 <= i <= self.changes@.len(),
                self.wf(),
                keys@.len() == refs@.len(),
                idx.len() == refs@.len(),
                sorted_by_key(keys@),
                forall|a: int|
                    0 <= a < keys@.len() ==> key_of(#[trigger] keys@[a]) == change_key(*refs@[a]),
                forall|a: int|
                    0 <= a < refs@.len() ==> 0 <= #[trigger] idx[a] < i && *refs@[a]
                        == self.changes@[idx[a]] && ready_pick(*self, *refs@[a], ih),
                forall|b: int|
                    0 <= b < i && ready_pick(*self, #[trigger] self.changes@[b], ih) ==> has_key(
                        keys@,
                        hkf(),
                        change_key(self.changes@[b]),
                    ),
            decreases self.changes@.len() - i,
        {
            let c = &self.changes[i];
            let k = HCKey::new(c.writer_guid, c.sequence_number);
            let wanted = match ih {
                Some(h) => c.instance_handle == h,
                None => true,
            };
            if c.kind == ChangeKind::Alive && wanted && index_of_key(&self.ready_key, &k).is_some() {
                proof {
                    assert forall|a: int| 0 <= a < keys@.len() implies key_of(#[trigger] keys@[a])
                        != key_of(k) by {
                        assert(*refs@[a] == self.changes@[idx[a]]);
                        assert(ckf()(self.changes@[idx[a]]) != ckf()(self.changes@[i as int]));
                    }
                }
                let ghost ok = keys@;
                let ghost orf = refs@;
                let pos = insert_in_order(&mut keys, &mut refs, k, c);
                proof {
                    let oi = idx;
                    idx = oi.insert(pos as int, i as int);
                    assert forall|a: int| 0 <= a < refs@.len() implies 0 <= #[trigger] idx[a] < i + 1
                        && *refs@[a] == self.changes@[idx[a]] && ready_pick(*self, *refs@[a], ih) by {
                        if a < pos {
                            assert(refs@[a] == orf[a] && idx[a] == oi[a]);
                        } else if a > pos {
                            assert(refs@[a] == orf[a - 1] && idx[a] == oi[a - 1]);
                        }
                    }
                    assert forall|b: int|
                        0 <= b < i + 1 && ready_pick(*self, #[trigger] self.changes@[b], ih) implies has_key(
                        keys@,
                        hkf(),
                        change_key(self.changes@[b]),
                    ) by {
                        if b == i {
                            assert(hkf()(keys@[pos as int]) == change_key(self.changes@[b]));
                        } else {
                            let a = choose|a: int|
                                0 <= a < ok.len() && hkf()(#[trigger] ok[a]) == change_key(
                                    self.changes@[b],
                                );
                            if a < pos {
                                assert(keys@[a] == ok[a]);
                            } else {
                                assert(keys@[a + 1] == ok[a]);
                            }
                        }
                    }
                }
            }
            i = i + 1;
        }
        proof {
            assert forall|a: int| 0 <= a < keys@.len() implies key_of(#[trigger] keys@[a])
                == change_key(*refs@[a]) && ready_pick(*self, *refs@[a], ih)
                && self.changes@.contains(*refs@[a]) by {
                assert(0 <= idx[a] < self.changes@.len());
                assert(self.changes@[idx[a]] == *refs@[a]);
            }
        }
        (keys, refs)
    }
}

/// What giving the instance handle `ih` for `keyhash` does: a handle given
/// before for the same key hash is given again and nothing changes;
/// otherwise the next handle is given and recorded.
pub open spec fn spec_handle_given(pre: HistoryCache, post: HistoryCache, keyhash: KeyHash, ih: InstanceHandle) -> bool {
    &&& match lookup_handle(pre.kh2ih@, keyhash._hash@) {
        Some(h) => ih == h && post == pre,
        None => {
            &&& ih.instance_id == pre.next_ih
            &&& post.next_ih == pre.next_ih + 1
            &&& post.kh2ih@ == pre.kh2ih@.push((keyhash, ih))
            &&& post.changes == pre.changes
            &&& post.hc_type == pre.hc_type
            &&& post.unprocessed_seqnum == pre.unprocessed_seqnum
            &&& post.taken_key == pre.taken_key
            &&& post.ready_key == pre.ready_key
            &&& post.last_added == pre.last_added
        },
    }
    &&& lookup_handle(post.kh2ih@, keyhash._hash@) == Some(ih)
}

/// Whether a taken key is from writer `r` with a sequence number below `s`.
pub open spec fn taken_before(r: int, s: int) -> spec_fn(HCKey) -> bool {
    |k: HCKey| k.guid.rank() == r && k.seq_num.0 < s
}

/// Whether a taken key is not from writer `r` with a sequence number below
/// `s`.
pub open spec fn not_taken_before(r: int, s: int) -> spec_fn(HCKey) -> bool {
    |k: HCKey| !(k.guid.rank() == r && k.seq_num.0 < s)
}

/// Whether `add_change` may be asked to add `change`: a change whose key
/// is held again is not offered to a placeholder cache and brings the same
/// payload, and a full cache that must drop its oldest change has one.
pub open spec fn can_add(hc: HistoryCache, change: CacheChange, is_reliable: bool, max_samples: i32) -> bool {
    &&& hc.holds(change_key(change)) ==> hc.hc_type != HistoryCacheType::Dummy
    &&& forall|i: int|
        0 <= i < hc.changes@.len() && change_key(#[trigger] hc.changes@[i]) == change_key(change)
            ==> same_payload(hc.changes@[i].data_value, change.data_value)
    &&& !hc.holds(change_key(change)) && is_full(hc.changes@.len() as int, max_samples as int)
        ==> hc.hc_type != HistoryCacheType::Dummy && (is_reliable || hc.changes@.len() > 0)
}

/// What `add_change` makes of the cache `pre`: a held key is added again; a
/// new change is stored when the cache is not full; a full reliable cache
/// is left as it is, and a full best-effort one drops its oldest change and
/// stores the new one.
pub open spec fn spec_added(
    pre: HistoryCache,
    post: HistoryCache,
    change: CacheChange,
    is_reliable: bool,
    max_samples: i32,
    history: History,
) -> bool {
    &&& pre.holds(change_key(change)) ==> spec_readded(pre, post, change)
    &&& !pre.holds(change_key(change)) && !is_full(pre.changes@.len() as int, max_samples as int)
        ==> spec_stored(pre, post, change, history)
    &&& !pre.holds(change_key(change)) && is_full(pre.changes@.len() as int, max_samples as int)
        ==> if is_reliable {
        post == pre
    } else {
        exists|mid: HistoryCache|
            spec_removed(
                pre,
                mid,
                change_key(pre.changes@[0]),
                pre.changes@[0].sequence_number.0 as int,
                false,
            ) && spec_stored(mid, post, change, history)
    }
}

/// What removing the change with key `k` and sequence number `s` does: with
/// `s` unannounced nothing changes; otherwise the change goes, and in a
/// reader cache that held it the key stops being ready and, when `taken`, is
/// recorded as taken.
pub open spec fn spec_removed(pre: HistoryCache, post: HistoryCache, k: (int, int), s: int, taken: bool) -> bool {
    &&& post.hc_type == pre.hc_type
    &&& post.unprocessed_seqnum == pre.unprocessed_seqnum
    &&& post.last_added == pre.last_added
    &&& post.next_ih == pre.next_ih
    &&& post.kh2ih == pre.kh2ih
    &&& if seq_nums(pre.unprocessed_seqnum@).contains(s) {
        post == pre
    } else {
        &&& post.changes@ == drop_key(pre.changes@, ckf(), k)
        &&& if pre.hc_type == HistoryCacheType::Reader && pre.holds(k) {
            &&& post.ready_key@ == drop_key(pre.ready_key@, hkf(), k)
            &&& taken ==> has_key(post.taken_key@, hkf(), k)
            &&& taken ==> forall|x: (int, int)|
                x != k ==> has_key(post.taken_key@, hkf(), x) == has_key(pre.taken_key@, hkf(), x)
            &&& !taken ==> post.taken_key == pre.taken_key
        } else {
            &&& post.ready_key == pre.ready_key
            &&& post.taken_key == pre.taken_key
        }
    }
}

/// Whether `c` is listed among the ready changes: it is alive, its key is
/// ready, and it is of the instance `ih` when one is given.
pub open spec fn ready_pick(hc: HistoryCache, c: CacheChange, ih: Option<InstanceHandle>) -> bool {
    &&& c.kind == ChangeKind::Alive
    &&& has_key(hc.ready_key@, hkf(), change_key(c))
    &&& ih matches Some(h) ==> c.instance_handle == h
}

/// Putting a key where it belongs keeps keys in increasing order: the key is
/// then among them, and every other key is as before.
pub proof fn lemma_sorted_insert(s: Seq<HCKey>, i: int, k: HCKey)
    requires
        sorted_by_key(s),
        0 <= i <= s.len(),
        forall|j: int| 0 <= j < i ==> key_lt(key_of(#[trigger] s[j]), key_of(k)),
        forall|j: int| i <= j < s.len() ==> key_lt(key_of(k), key_of(#[trigger] s[j])),
    ensures
        sorted_by_key(s.insert(i, k)),
        distinct_by(s.insert(i, k), hkf()),
        has_key(s.insert(i, k), hkf(), key_of(k)),
        forall|x: (int, int)|
            x != key_of(k) ==> has_key(s.insert(i, k), hkf(), x) == has_key(s, hkf(), x),
{
    let t = s.insert(i, k);
    assert forall|a: int| 0 <= a < t.len() implies #[trigger] t[a] == if a < i {
        s[a]
    } else if a == i {
        k
    } else {
        s[a - 1]
    } by {}
    assert forall|a: int, b: int| 0 <= a < b < t.len() implies key_lt(key_of(#[trigger] t[a]), key_of(#[trigger] t[b])) by {
        if a < i && b < i {
        } else if a < i && b == i {
        } else if a < i {
            assert(key_lt(key_of(s[a]), key_of(k)));
            assert(key_lt(key_of(k), key_of(s[b - 1])));
        } else if a == i {
        } else {
        }
    }
    assert forall|a: int, b: int| 0 <= a < b < t.len() implies hkf()(#[trigger] t[a]) != hkf()(#[trigger] t[b]) by {
        assert(key_lt(key_of(t[a]), key_of(t[b])));
    }
    assert(hkf()(t[i]) == key_of(k));
    assert forall|x: (int, int)| x != key_of(k) implies has_key(t, hkf(), x) == has_key(s, hkf(), x) by {
        if has_key(t, hkf(), x) {
            let a = choose|a: int| 0 <= a < t.len() && hkf()(t[a]) == x;
            if a < i {
                assert(hkf()(s[a]) == x);
            } else {
                assert(a != i);
                assert(hkf()(s[a - 1]) == x);
            }
        }
        if has_key(s, hkf(), x) {
            let a = choose|a: int| 0 <= a < s.len() && hkf()(s[a]) == x;
            if a < i {
                assert(hkf()(t[a]) == x);
            } else {
                assert(hkf()(t[a + 1]) == x);
            }
        }
    }
}

/// Keeping some of keys in increasing order keeps them in increasing order.
pub proof fn lemma_select_sorted(s: Seq<HCKey>, p: spec_fn(HCKey) -> bool)
    requires
        sorted_by_key(s),
    ensures
        sorted_by_key(crate::rtps::seq_util::select(s, p)),
    decreases s.len(),
{
    if s.len() > 0 {
        let t = s.drop_last();
        assert(sorted_by_key(t)) by {
            assert forall|a: int, b: int| 0 <= a < b < t.len() implies key_lt(key_of(#[trigger] t[a]), key_of(#[trigger] t[b])) by {
                assert(t[a] == s[a] && t[b] == s[b]);
            }
        }
        lemma_select_sorted(t, p);
        crate::rtps::seq_util::lemma_select_members(t, p);
        let u = crate::rtps::seq_util::select(t, p);
        if p(s.last()) {
            let v = u.push(s.last());
            assert forall|a: int, b: int| 0 <= a < b < v.len() implies key_lt(key_of(#[trigger] v[a]), key_of(#[trigger] v[b])) by {
                if b == u.len() {
                    assert(u.contains(u[a]));
                    let j = choose|j: int| 0 <= j < t.len() && t[j] == u[a];
                    assert(t[j] == s[j]);
                    assert(key_lt(key_of(s[j]), key_of(s[s.len() - 1])));
                } else {
                    assert(v[a] == u[a] && v[b] == u[b]);
                }
            }
        }
    }
}

/// Whether keys are in strictly increasing order.
pub open spec fn sorted_by_key(s: Seq<HCKey>) -> bool {
    forall|a: int, b: int| 0 <= a < b < s.len() ==> key_lt(key_of(#[trigger] s[a]), key_of(#[trigger] s[b]))
}

/// Whether `keys` and `refs` list exactly the held changes picked by
/// `ready_pick`, each change with its key, in increasing order of keys.
pub open spec fn ready_listing(
    hc: HistoryCache,
    keys: Seq<HCKey>,
    refs: Seq<&CacheChange>,
    ih: Option<InstanceHandle>,
) -> bool {
    &&& keys.len() == refs.len()
    &&& sorted_by_key(keys)
    &&& forall|a: int|
        0 <= a < keys.len() ==> key_of(#[trigger] keys[a]) == change_key(*refs[a]) && ready_pick(
            hc,
            *refs[a],
            ih,
        ) && hc.changes@.contains(*refs[a])
    &&& forall|b: int|
        0 <= b < hc.changes@.len() && ready_pick(hc, #[trigger] hc.changes@[b], ih) ==> has_key(
            keys,
            hkf(),
            change_key(hc.changes@[b]),
        )
}

/// How many of the keys `ks` order after `k`.
pub open spec fn count_greater(ks: Seq<(int, int)>, k: (int, int)) -> nat
    decreases ks.len(),
{
    if ks.len() == 0 {
        0
    } else {
        count_greater(ks.drop_last(), k) + if key_lt(k, ks.last()) {
            1nat
        } else {
            0nat
        }
    }
}

/// Whether the key `k` is among the `depth` largest of `ks`; with a negative
/// depth every key is.
pub open spec fn among_newest(ks: Seq<(int, int)>, depth: int) -> spec_fn((int, int)) -> bool {
    |k: (int, int)| depth < 0 || count_greater(ks, k) < depth
}

/// Over keys that occur once each, counting the keys after `k` is taking the
/// size of the set of them.
proof fn lemma_count_greater_set(ks: Seq<(int, int)>, k: (int, int))
    requires
        ks.no_duplicates(),
    ensures
        count_greater(ks, k) == ks.to_set().filter(|x: (int, int)| key_lt(k, x)).len(),
    decreases ks.len(),
{
    let f = |x: (int, int)| key_lt(k, x);
    if ks.len() == 0 {
        assert(ks.to_set().filter(f) =~= Set::empty());
    } else {
        let rest = ks.drop_last();
        lemma_count_greater_set(rest, k);
        assert(ks.to_set() =~= rest.to_set().insert(ks.last())) by {
            broadcast use vstd::seq_lib::group_seq_properties;
        }
        assert(!rest.to_set().contains(ks.last())) by {
            if rest.to_set().contains(ks.last()) {
                let j = choose|j: int| 0 <= j < rest.len() && rest[j] == ks.last();
                assert(ks[j] == ks[ks.len() - 1]);
            }
        }
        if key_lt(k, ks.last()) {
            assert(ks.to_set().filter(f) =~= rest.to_set().filter(f).insert(ks.last()));
        } else {
            assert(ks.to_set().filter(f) =~= rest.to_set().filter(f));
        }
    }
}

/// A nonempty list of keys has a least one: every other key of the list
/// orders after it.
proof fn lemma_least_key(s: Seq<(int, int)>) -> (m: (int, int))
    requires
        s.len() > 0,
    ensures
        s.contains(m),
        forall|i: int| 0 <= i < s.len() && s[i] != m ==> key_lt(m, #[trigger] s[i]),
    decreases s.len(),
{
    if s.len() == 1 {
        assert(s.contains(s[0]));
        s[0]
    } else {
        let rest = s.drop_last();
        let m0 = lemma_least_key(rest);
        let l = s.last();
        let m = if key_lt(l, m0) { l } else { m0 };
        if key_lt(l, m0) {
            assert(s[s.len() - 1] == l);
        } else {
            let j = choose|j: int| 0 <= j < rest.len() && rest[j] == m0;
            assert(s[j] == m0);
        }
        assert forall|i: int| 0 <= i < s.len() && s[i] != m implies key_lt(m, #[trigger] s[i]) by {
            if i < s.len() - 1 {
                assert(s[i] == rest[i]);
            }
        }
        m
    }
}

/// A list of keys that occur once each, all found in `t`, is no longer
/// than `t`.
pub(crate) proof fn lemma_distinct_within(s: Seq<(int, int)>, t: Seq<(int, int)>)
    requires
        s.no_duplicates(),
        forall|i: int| 0 <= i < s.len() ==> t.contains(#[trigger] s[i]),
    ensures
        s.len() <= t.len(),
{
    s.unique_seq_to_set();
    t.lemma_cardinality_of_set();
    assert(s.to_set().subset_of(t.to_set()));
    vstd::set_lib::lemma_len_subset(s.to_set(), t.to_set());
}

/// At most `d` keys, occurring once each, can each be among the `d` largest
/// of `ks` (whose keys occur once each).
proof fn lemma_newest_bound(ks: Seq<(int, int)>, s: Seq<(int, int)>, d: int)
    requires
        d >= 0,
        ks.no_duplicates(),
        s.no_duplicates(),
        forall|i: int| 0 <= i < s.len() ==> ks.contains(#[trigger] s[i]) && count_greater(ks, s[i]) < d,
    ensures
        s.len() <= d,
{
    if s.len() > 0 {
        let m = lemma_least_key(s);
        let f = |x: (int, int)| key_lt(m, x);
        let i = choose|i: int| 0 <= i < s.len() && s[i] == m;
        assert(count_greater(ks, m) < d);
        assert(s.to_set().contains(m));
        lemma_count_greater_set(ks, m);
        s.unique_seq_to_set();
        assert(s.to_set().remove(m).subset_of(ks.to_set().filter(f))) by {
            assert forall|x: (int, int)| #[trigger] s.to_set().remove(m).contains(x) implies ks.to_set().filter(
                f,
            ).contains(x) by {
                let j = choose|j: int| 0 <= j < s.len() && s[j] == x;
                assert(ks.contains(s[j]));
            }
        }
        vstd::set_lib::lemma_len_subset(s.to_set().remove(m), ks.to_set().filter(f));
        assert(ks.to_set().filter(f).len() == count_greater(ks, m));
        assert(s.to_set().remove(m).len() == s.len() - 1);
    }
}

/// Storing `change` (whose key is new) after `base` and then keeping only the
/// changes among the `depth` largest keys keeps at most `depth` changes.
proof fn lemma_stored_within_depth(base: Seq<CacheChange>, change: CacheChange, depth: int)
    requires
        depth >= 0,
        distinct_by(base, ckf()),
        !has_key(base, ckf(), change_key(change)),
    ensures
        select(
            base.push(change),
            by_key(ckf(), among_newest(keys_by(base.push(change), ckf()), depth)),
        ).len() <= depth,
{
    let all = base.push(change);
    let ks = keys_by(all, ckf());
    let p = by_key(ckf(), among_newest(ks, depth));
    assert(distinct_by(all, ckf())) by {
        assert forall|i: int, j: int| 0 <= i < j < all.len() implies ckf()(#[trigger] all[i]) != ckf()(
            #[trigger] all[j],
        ) by {
            if j == all.len() - 1 {
                assert(all[i] == base[i]);
            } else {
                assert(all[i] == base[i] && all[j] == base[j]);
            }
        }
    }
    assert(ks.no_duplicates());
    let kept = select(all, p);
    lemma_select_distinct(all, ckf(), p);
    lemma_select_members(all, p);
    let s = keys_by(kept, ckf());
    assert(s.no_duplicates());
    assert forall|i: int| 0 <= i < s.len() implies ks.contains(#[trigger] s[i]) && count_greater(ks, s[i])
        < depth by {
        let x = kept[i];
        assert(kept.contains(x));
        let j = choose|j: int| 0 <= j < all.len() && all[j] == x;
        assert(ks[j] == s[i]);
    }
    lemma_newest_bound(ks, s, depth);
}

/// A reader cache that keeps the last `depth` changes (`depth` not negative)
/// stays within `depth` changes: when it holds at most `depth` before a
/// change is added, it holds at most `depth` after.
pub proof fn law_keep_last_stays_within_depth(
    pre: HistoryCache,
    post: HistoryCache,
    change: CacheChange,
    is_reliable: bool,
    max_samples: i32,
    history: History,
)
    requires
        pre.wf(),
        pre.hc_type == HistoryCacheType::Reader,
        history.kind == HistoryQosKind::KeepLast,
        history.depth >= 0,
        pre.changes@.len() <= history.depth,
        spec_added(pre, post, change, is_reliable, max_samples, history),
    ensures
        post.changes@.len() <= history.depth,
{
    let d = history.depth as int;
    if !pre.holds(change_key(change)) {
        if !is_full(pre.changes@.len() as int, max_samples as int) {
            lemma_stored_within_depth(pre.changes@, change, d);
        } else if !is_reliable {
            let mid = choose|mid: HistoryCache|
                spec_removed(
                    pre,
                    mid,
                    change_key(pre.changes@[0]),
                    pre.changes@[0].sequence_number.0 as int,
                    false,
                ) && spec_stored(mid, post, change, history);
            let k0 = change_key(pre.changes@[0]);
            lemma_drop_key_facts(pre.changes@, ckf(), k0);
            if seq_nums(pre.unprocessed_seqnum@).contains(pre.changes@[0].sequence_number.0 as int) {
                lemma_stored_within_depth(pre.changes@, change, d);
            } else {
                lemma_stored_within_depth(mid.changes@, change, d);
            }
        }
    }
}

/// Whether adding a change with a new key finds the cache full: a limit is
/// set (not negative) and the cache would then hold that many changes.
pub open spec fn is_full(len: int, max_samples: int) -> bool {
    max_samples >= 0 && len + 1 >= max_samples
}

/// What storing a change with a new key does to `pre`: the change comes
/// last, its writer's last time is its timestamp, a writer cache records its
/// sequence number as unannounced, and a reader cache that keeps the last
/// `depth` changes drops every change (and ready key) outside the `depth`
/// largest keys.
pub open spec fn spec_stored(pre: HistoryCache, post: HistoryCache, change: CacheChange, history: History) -> bool {
    let all = pre.changes@.push(change);
    let keep = among_newest(keys_by(all, ckf()), history.depth as int);
    let trims = pre.hc_type == HistoryCacheType::Reader && history.kind == HistoryQosKind::KeepLast;
    &&& post.hc_type == pre.hc_type
    &&& post.changes@ == if trims { select(all, by_key(ckf(), keep)) } else { all }
    &&& post.ready_key@ == if trims { select(pre.ready_key@, by_key(hkf(), keep)) } else { pre.ready_key@ }
    &&& post.taken_key == pre.taken_key
    &&& lookup_last(post.last_added@, change.writer_guid.rank()) == Some(change.timestamp)
    &&& forall|r: int|
        r != change.writer_guid.rank() ==> lookup_last(post.last_added@, r) == lookup_last(
            pre.last_added@,
            r,
        )
    &&& post.unprocessed_seqnum@ == if pre.hc_type == HistoryCacheType::Writer && !seq_nums(
        pre.unprocessed_seqnum@,
    ).contains(change.sequence_number.0 as int) {
        pre.unprocessed_seqnum@.push(change.sequence_number)
    } else {
        pre.unprocessed_seqnum@
    }
    &&& post.next_ih == pre.next_ih
    &&& post.kh2ih == pre.kh2ih
}

/// What adding a change whose key is already held does: its writer's last
/// time becomes its timestamp and a writer cache records its sequence number
/// as unannounced; the changes stay.
pub open spec fn spec_readded(pre: HistoryCache, post: HistoryCache, change: CacheChange) -> bool {
    &&& post.hc_type == pre.hc_type
    &&& post.changes == pre.changes
    &&& post.ready_key == pre.ready_key
    &&& post.taken_key == pre.taken_key
    &&& lookup_last(post.last_added@, change.writer_guid.rank()) == Some(change.timestamp)
    &&& forall|r: int|
        r != change.writer_guid.rank() ==> lookup_last(post.last_added@, r) == lookup_last(
            pre.last_added@,
            r,
        )
    &&& post.unprocessed_seqnum@ == if pre.hc_type == HistoryCacheType::Writer && !seq_nums(
        pre.unprocessed_seqnum@,
    ).contains(change.sequence_number.0 as int) {
        pre.unprocessed_seqnum@.push(change.sequence_number)
    } else {
        pre.unprocessed_seqnum@
    }
    &&& post.next_ih == pre.next_ih
    &&& post.kh2ih == pre.kh2ih
}

/// How many of the keys of `v` order after `key`.
fn count_greater_keys(v: &Vec<CacheChange>, key: &HCKey) -> (n: usize)
    ensures
        n == count_greater(keys_by(v@, ckf()), key_of(*key)),
{
    let mut n: usize = 0;
    let mut i: usize = 0;
    while i < v.len()
        invariant
            0 <= i <= v@.len(),
            n <= i,
            n == count_greater(keys_by(v@.take(i as int), ckf()), key_of(*key)),
        decreases v@.len() - i,
    {
        proof {
            assert(keys_by(v@.take(i + 1), ckf()).drop_last() =~= keys_by(v@.take(i as int), ckf()));
        }
        let c = &v[i];
        if key.lt(&HCKey::new(c.writer_guid, c.sequence_number)) {
            n = n + 1;
        }
        i = i + 1;
    }
    proof {
        assert(v@.take(i as int) =~= v@);
    }
    n
}

/// The smallest sequence number among the changes whose numbers are not in
/// `unannounced`; the largest 64-bit number when there is none.
pub open spec fn min_announced(cs: Seq<CacheChange>, unannounced: Seq<int>) -> int
    decreases cs.len(),
{
    if cs.len() == 0 {
        i64::MAX as int
    } else {
        let m = min_announced(cs.drop_last(), unannounced);
        let s = cs.last().sequence_number.0 as int;
        if s < m && !unannounced.contains(s) {
            s
        } else {
            m
        }
    }
}

/// The largest sequence number among the changes whose numbers are not in
/// `unannounced`; the smallest 64-bit number when there is none.
pub open spec fn max_announced(cs: Seq<CacheChange>, unannounced: Seq<int>) -> int
    decreases cs.len(),
{
    if cs.len() == 0 {
        i64::MIN as int
    } else {
        let m = max_announced(cs.drop_last(), unannounced);
        let s = cs.last().sequence_number.0 as int;
        if s > m && !unannounced.contains(s) {
            s
        } else {
            m
        }
    }
}

/// Whether the change `c` has been announced: its number is not among
/// `unannounced`.
pub open spec fn announced(c: CacheChange, unannounced: Seq<int>) -> bool {
    !unannounced.contains(c.sequence_number.0 as int)
}

/// The largest announced number is an upper bound of every announced
/// change's number, and unless it is the smallest 64-bit number it is the
/// number of some announced change: a number still unannounced never counts.
pub proof fn law_max_announced(cs: Seq<CacheChange>, unannounced: Seq<int>)
    ensures
        forall|i: int|
            0 <= i < cs.len() && announced(#[trigger] cs[i], unannounced) ==> cs[i].sequence_number.0
                <= max_announced(cs, unannounced),
        max_announced(cs, unannounced) >= i64::MIN,
        max_announced(cs, unannounced) != i64::MIN ==> exists|i: int|
            0 <= i < cs.len() && announced(#[trigger] cs[i], unannounced) && cs[i].sequence_number.0
                == max_announced(cs, unannounced),
        !unannounced.contains(max_announced(cs, unannounced)) || max_announced(cs, unannounced)
            == i64::MIN,
    decreases cs.len(),
{
    if cs.len() > 0 {
        let rest = cs.drop_last();
        law_max_announced(rest, unannounced);
        assert forall|i: int|
            0 <= i < cs.len() && announced(#[trigger] cs[i], unannounced) implies cs[i].sequence_number.0
            <= max_announced(cs, unannounced) by {
            if i < cs.len() - 1 {
                assert(cs[i] == rest[i]);
            }
        }
        if max_announced(cs, unannounced) != i64::MIN {
            if max_announced(cs, unannounced) == cs.last().sequence_number.0 && announced(
                cs.last(),
                unannounced,
            ) {
                assert(cs[cs.len() - 1] == cs.last());
            } else {
                let j = choose|j: int|
                    0 <= j < rest.len() && announced(#[trigger] rest[j], unannounced)
                        && rest[j].sequence_number.0 == max_announced(rest, unannounced);
                assert(cs[j] == rest[j]);
            }
        }
    }
}

/// The smallest announced number is a lower bound of every announced
/// change's number, and unless it is the largest 64-bit number it is the
/// number of some announced change.
pub proof fn law_min_announced(cs: Seq<CacheChange>, unannounced: Seq<int>)
    ensures
        forall|i: int|
            0 <= i < cs.len() && announced(#[trigger] cs[i], unannounced) ==> min_announced(
                cs,
                unannounced,
            ) <= cs[i].sequence_number.0,
        min_announced(cs, unannounced) <= i64::MAX,
        min_announced(cs, unannounced) != i64::MAX ==> exists|i: int|
            0 <= i < cs.len() && announced(#[trigger] cs[i], unannounced) && cs[i].sequence_number.0
                == min_announced(cs, unannounced),
        !unannounced.contains(min_announced(cs, unannounced)) || min_announced(cs, unannounced)
            == i64::MAX,
    decreases cs.len(),
{
    if cs.len() > 0 {
        let rest = cs.drop_last();
        law_min_announced(rest, unannounced);
        assert forall|i: int|
            0 <= i < cs.len() && announced(#[trigger] cs[i], unannounced) implies min_announced(
            cs,
            unannounced,
        ) <= cs[i].sequence_number.0 by {
            if i < cs.len() - 1 {
                assert(cs[i] == rest[i]);
            }
        }
        if min_announced(cs, unannounced) != i64::MAX {
            if min_announced(cs, unannounced) == cs.last().sequence_number.0 && announced(
                cs.last(),
                unannounced,
            ) {
                assert(cs[cs.len() - 1] == cs.last());
            } else {
                let j = choose|j: int|
                    0 <= j < rest.len() && announced(#[trigger] rest[j], unannounced)
                        && rest[j].sequence_number.0 == min_announced(rest, unannounced);
                assert(cs[j] == rest[j]);
            }
        }
    }
}

/// Whether `s` is among `v`.
pub fn contains_seq(v: &Vec<SequenceNumber>, s: SequenceNumber) -> (r: bool)
    ensures
        r == seq_nums(v@).contains(s.0 as int),
{
    let mut i: usize = 0;
    while i < v.len()
        invariant
            0 <= i <= v@.len(),
            forall|j: int| 0 <= j < i ==> v@[j].0 != s.0,
        decreases v@.len() - i,
    {
        if v[i].0 == s.0 {
            assert(seq_nums(v@)[i as int] == s.0);
            return true;
        }
        i = i + 1;
    }
    assert forall|j: int| 0 <= j < seq_nums(v@).len() implies seq_nums(v@)[j] != s.0 by {
        assert(v@[j].0 != s.0);
    }
    false
}

/// The position of the change with the key of `key`, if held.
pub fn index_of_change(v: &Vec<CacheChange>, key: &HCKey) -> (r: Option<usize>)
    ensures
        r is None <==> !has_key(v@, ckf(), key_of(*key)),
        r matches Some(i) ==> i < v@.len() && change_key(v@[i as int]) == key_of(*key),
{
    let s = key.seq_num.0;
    let g = key.guid.rank_value();
    let mut i: usize = 0;
    while i < v.len()
        invariant
            0 <= i <= v@.len(),
            s == key.seq_num.0,
            g == key.guid.rank(),
            forall|j: int| 0 <= j < i ==> change_key(#[trigger] v@[j]) != key_of(*key),
        decreases v@.len() - i,
    {
        if v[i].sequence_number.0 == s && v[i].writer_guid.rank_value() == g {
            return Some(i);
        }
        i = i + 1;
    }
    assert(!has_key(v@, ckf(), key_of(*key))) by {
        if has_key(v@, ckf(), key_of(*key)) {
            let j = choose|j: int| 0 <= j < v@.len() && ckf()(v@[j]) == key_of(*key);
            assert(change_key(v@[j]) != key_of(*key));
        }
    }
    None
}

/// Puts `k` and `c` at the place that keeps `keys` in increasing order and
/// tells where.
fn insert_in_order<'a>(
    keys: &mut Vec<HCKey>,
    refs: &mut Vec<&'a CacheChange>,
    k: HCKey,
    c: &'a CacheChange,
) -> (pos: usize)
    requires
        old(keys)@.len() == old(refs)@.len(),
        sorted_by_key(old(keys)@),
        forall|a: int| 0 <= a < old(keys)@.len() ==> key_of(#[trigger] old(keys)@[a]) != key_of(k),
        forall|a: int|
            0 <= a < old(keys)@.len() ==> key_of(#[trigger] old(keys)@[a]) == change_key(
                *old(refs)@[a],
            ),
        key_of(k) == change_key(*c),
    ensures
        pos <= old(keys)@.len(),
        final(keys)@ == old(keys)@.insert(pos as int, k),
        final(refs)@ == old(refs)@.insert(pos as int, c),
        sorted_by_key(final(keys)@),
        forall|a: int|
            0 <= a < final(keys)@.len() ==> key_of(#[trigger] final(keys)@[a]) == change_key(
                *final(refs)@[a],
            ),
{
    let mut pos: usize = 0;
    while pos < keys.len() && keys[pos].lt(&k)
        invariant
            0 <= pos <= keys@.len(),
            forall|a: int| 0 <= a < pos ==> key_lt(key_of(#[trigger] keys@[a]), key_of(k)),
        decreases keys@.len() - pos,
    {
        pos = pos + 1;
    }
    let ghost ok = keys@;
    let ghost orf = refs@;
    keys.insert(pos, k);
    refs.insert(pos, c);
    proof {
        if pos < ok.len() {
            assert(!key_lt(key_of(ok[pos as int]), key_of(k)));
            assert(key_of(ok[pos as int]) != key_of(k));
        }
        assert forall|a: int, b: int| 0 <= a < b < keys@.len() implies key_lt(
            key_of(#[trigger] keys@[a]),
            key_of(#[trigger] keys@[b]),
        ) by {
            if b < pos {
                assert(keys@[a] == ok[a] && keys@[b] == ok[b]);
            } else if b == pos {
                assert(keys@[a] == ok[a]);
            } else if a < pos {
                assert(keys@[a] == ok[a] && keys@[b] == ok[b - 1]);
                if pos < b - 1 {
                    assert(key_lt(key_of(ok[pos as int]), key_of(ok[b - 1])));
                }
            } else if a == pos {
                assert(keys@[b] == ok[b - 1]);
                if pos < b - 1 {
                    assert(key_lt(key_of(ok[pos as int]), key_of(ok[b - 1])));
                }
            } else {
                assert(keys@[a] == ok[a - 1] && keys@[b] == ok[b - 1]);
            }
        }
        assert forall|a: int| 0 <= a < keys@.len() implies key_of(#[trigger] keys@[a]) == change_key(
            *refs@[a],
        ) by {
            if a < pos {
                assert(keys@[a] == ok[a] && refs@[a] == orf[a]);
            } else if a > pos {
                assert(keys@[a] == ok[a - 1] && refs@[a] == orf[a - 1]);
            }
        }
    }
    pos
}

/// The position of `key` among `v`, if there.
pub fn index_of_key(v: &Vec<HCKey>, key: &HCKey) -> (r: Option<usize>)
    ensures
        r is None <==> !has_key(v@, hkf(), key_of(*key)),
        r matches Some(i) ==> i < v@.len() && key_of(v@[i as int]) == key_of(*key),
{
    let mut i: usize = 0;
    while i < v.len()
        invariant
            0 <= i <= v@.len(),
            forall|j: int| 0 <= j < i ==> key_of(#[trigger] v@[j]) != key_of(*key),
        decreases v@.len() - i,
    {
        if v[i].same(key) {
            return Some(i);
        }
        i = i + 1;
    }
    assert(!has_key(v@, hkf(), key_of(*key))) by {
        if has_key(v@, hkf(), key_of(*key)) {
            let j = choose|j: int| 0 <= j < v@.len() && hkf()(v@[j]) == key_of(*key);
            assert(key_of(v@[j]) != key_of(*key));
        }
    }
    None
}

proof fn lemma_lookup_handle_absent(v: Seq<(KeyHash, InstanceHandle)>, h: Seq<u8>)
    requires
        lookup_handle(v, h) is None,
    ensures
        forall|i: int| 0 <= i < v.len() ==> (#[trigger] v[i]).0._hash@ != h,
    decreases v.len(),
{
    if v.len() > 0 {
        lemma_lookup_handle_absent(v.drop_last(), h);
        assert forall|i: int| 0 <= i < v.len() implies (#[trigger] v[i]).0._hash@ != h by {
            if i < v.len() - 1 {
                assert(v.drop_last()[i] == v[i]);
            }
        }
    }
}

proof fn lemma_lookup_last_set(v: Seq<(GUID, Timestamp)>, i: int, g: GUID, ts: Timestamp)
    requires
        0 <= i < v.len(),
        v[i].0.rank() == g.rank(),
        forall|a: int, b: int|
            0 <= a < b < v.len() ==> (#[trigger] v[a]).0.rank() != (#[trigger] v[b]).0.rank(),
    ensures
        lookup_last(v.update(i, (g, ts)), g.rank()) == Some(ts),
        forall|r: int| r != g.rank() ==> lookup_last(v.update(i, (g, ts)), r) == lookup_last(v, r),
    decreases v.len(),
{
    let u = v.update(i, (g, ts));
    if i == v.len() - 1 {
        assert(u.drop_last() =~= v.drop_last());
        assert forall|r: int| r != g.rank() implies lookup_last(u, r) == lookup_last(v, r) by {
            assert(u.last().0.rank() == g.rank());
            assert(v.last().0.rank() == g.rank());
        }
    } else {
        assert forall|a: int, b: int| 0 <= a < b < v.drop_last().len() implies (
        #[trigger] v.drop_last()[a]).0.rank() != (#[trigger] v.drop_last()[b]).0.rank() by {
            assert(v[a].0.rank() != v[b].0.rank());
        }
        lemma_lookup_last_set(v.drop_last(), i, g, ts);
        assert(u.drop_last() =~= v.drop_last().update(i, (g, ts)));
        assert(v[v.len() - 1].0.rank() != v[i].0.rank());
        assert(u.last() == v.last());
        assert forall|r: int| r != g.rank() implies lookup_last(u, r) == lookup_last(v, r) by {
            if v.last().0.rank() != r {
                assert(lookup_last(v.drop_last().update(i, (g, ts)), r) == lookup_last(
                    v.drop_last(),
                    r,
                ));
                assert(lookup_last(u, r) == lookup_last(u.drop_last(), r));
            }
        }
    }
}

} // verus!
