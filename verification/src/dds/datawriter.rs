//! What a DataWriter does with the data the application writes: it numbers
//! each change and puts it in the writer's cache, and tells when asserting
//! liveliness has an effect.
use vstd::prelude::*;
use crate::dds::qos::policy::{LivelinessQosKind, ReliabilityQosKind};
use crate::dds::qos::DataWriterQosPolicies;
use crate::message::element::{SequenceNumber, SerializedPayload, Timestamp};
use crate::rtps::cache::{
    change_key, index_of_change, is_full, payload_eq, same_payload, spec_added, CacheChange,
    ChangeKind, HCKey, HistoryCache, HistoryCacheType, InstanceHandle,
};
use crate::structure::duration::Duration;
use crate::structure::guid::GUID;

verus! {

/// The sequence number of a writer's next change, after `last`: one more
/// when counting on, else the same one (1 before the first change).
pub open spec fn next_sequence_number(last: i64, inc_seq_num: bool) -> int {
    if inc_seq_num {
        last + 1
    } else if last == 0 {
        1
    } else {
        last as int
    }
}

/// The DataWriter's state that writing reads: its GUID, QoS and the sequence
/// number of its last change.
pub struct DataWriter {
    pub writer_guid: GUID,
    pub qos: DataWriterQosPolicies,
    pub last_change_sequence_number: SequenceNumber,
}

/// Whether `c` is the change a writer makes of `payload` stamped `ts`: alive,
/// with the writer's GUID and last sequence number, the payload, no inline
/// QoS and the nil instance.
pub open spec fn written_change(c: CacheChange, w: DataWriter, ts: Timestamp, payload: SerializedPayload) -> bool {
    &&& c.kind == ChangeKind::Alive
    &&& c.writer_guid == w.writer_guid
    &&& c.sequence_number == w.last_change_sequence_number
    &&& c.timestamp == ts
    &&& c.data_value matches Some(d) && d.representation_identifier == payload.representation_identifier
        && d.representation_options == payload.representation_options && d.value@ == payload.value@
    &&& c.inline_qos is None
    &&& c.instance_handle.instance_id == 0
}

impl DataWriter {
    /// The key the writer's next change is added under.
    pub open spec fn key(self) -> (int, int) {
        (self.last_change_sequence_number.0 as int, self.writer_guid.rank())
    }

    pub open spec fn reliable(self) -> bool {
        self.qos.reliability.0.kind == ReliabilityQosKind::Reliable
    }

    /// Whether the cache `hc` takes the change of `payload`: a change it
    /// already holds under that key holds the same octets, and a full cache
    /// either blocks (reliable) or has a change to drop.
    pub open spec fn writable(self, hc: HistoryCache, payload: SerializedPayload) -> bool {
        &&& hc.hc_type != HistoryCacheType::Dummy
        &&& forall|i: int|
            0 <= i < hc.changes@.len() && change_key(#[trigger] hc.changes@[i]) == self.key()
                ==> same_payload(hc.changes@[i].data_value, Some(payload))
        &&& !hc.holds(self.key()) && is_full(hc.changes@.len() as int, self.qos.resource_limits.0.max_samples as int)
            ==> (self.reliable() || hc.changes@.len() > 0)
    }

    /// Whether a full cache makes the writer wait before the change of its
    /// next key goes in.
    pub open spec fn blocks(self, hc: HistoryCache) -> bool {
        &&& !hc.holds(self.key())
        &&& is_full(hc.changes@.len() as int, self.qos.resource_limits.0.max_samples as int)
        &&& self.reliable()
        &&& hc.hc_type == HistoryCacheType::Writer
    }

    /// A writer that has written nothing yet.
    pub fn new(writer_guid: GUID, qos: DataWriterQosPolicies) -> (w: DataWriter)
        ensures
            w.writer_guid == writer_guid,
            w.qos == qos,
            w.last_change_sequence_number.0 == 0,
    {
        DataWriter { writer_guid, qos, last_change_sequence_number: SequenceNumber(0) }
    }

    pub fn is_reliable(&self) -> (r: bool)
        ensures
            r == self.reliable(),
    {
        match self.qos.reliability.0.kind {
            ReliabilityQosKind::Reliable => true,
            ReliabilityQosKind::BestEffort => false,
        }
    }

    /// Moves to the sequence number of the next change: one more when
    /// `inc_seq_num` is set, else the same one (1 before the first change).
    pub fn advance_sequence_number(&mut self, inc_seq_num: bool)
        requires
            inc_seq_num ==> old(self).last_change_sequence_number.0 < i64::MAX,
        ensures
            final(self).last_change_sequence_number.0 == next_sequence_number(
                old(self).last_change_sequence_number.0,
                inc_seq_num,
            ),
            final(self).writer_guid == old(self).writer_guid,
            final(self).qos == old(self).qos,
    {
        if inc_seq_num {
            self.last_change_sequence_number = SequenceNumber(self.last_change_sequence_number.0 + 1);
        } else if self.last_change_sequence_number.0 == 0 {
            self.last_change_sequence_number = SequenceNumber(1);
        }
    }

    /// Whether the cache takes the change of `payload` now; see `writable`.
    pub fn writable_now(&self, hc: &HistoryCache, payload: &SerializedPayload) -> (r: bool)
        requires
            hc.wf(),
        ensures
            r == self.writable(*hc, *payload),
    {
        if hc.hc_type == HistoryCacheType::Dummy {
            return false;
        }
        let key = HCKey::new(self.writer_guid, self.last_change_sequence_number);
        let same = Some(payload.copy());
        proof {
            assert(crate::message::element::payload_bytes(same.unwrap()) =~= crate::message::element::payload_bytes(*payload));
        }
        let mut i: usize = 0;
        while i < hc.changes.len()
            invariant
                i <= hc.changes@.len(),
                key.seq_num == self.last_change_sequence_number,
                key.guid == self.writer_guid,
                forall|x: Option<SerializedPayload>| same_payload(x, same) == same_payload(x, Some(*payload)),
                forall|j: int|
                    0 <= j < i && change_key(#[trigger] hc.changes@[j]) == self.key() ==> same_payload(
                        hc.changes@[j].data_value,
                        Some(*payload),
                    ),
            decreases hc.changes@.len() - i,
        {
            let c = &hc.changes[i];
            if c.sequence_number.0 == key.seq_num.0 && c.writer_guid.rank_value() == key.guid.rank_value() {
                if !payload_eq(&c.data_value, &same) {
                    return false;
                }
            }
            i = i + 1;
        }
        let held = index_of_change(&hc.changes, &key).is_some();
        let max = self.qos.resource_limits.0.max_samples;
        let full = max >= 0 && (max == 0 || hc.changes.len() >= (max - 1) as usize);
        if !held && full {
            self.is_reliable() || hc.changes.len() > 0
        } else {
            true
        }
    }

    /// Puts the change of `payload` stamped `ts` in the writer's cache under
    /// the writer's last sequence number; false when the cache is full and
    /// the writer must wait (see `blocks`), in which case the cache is left
    /// as it was.
    pub fn add_to_cache(&self, hc: &mut HistoryCache, ts: Timestamp, payload: &SerializedPayload) -> (written: bool)
        requires
            old(hc).wf(),
            self.writable(*old(hc), *payload),
        ensures
            final(hc).wf(),
            written == !self.blocks(*old(hc)),
            exists|c: CacheChange|
                written_change(c, *self, ts, *payload) && #[trigger] spec_added(
                    *old(hc),
                    *final(hc),
                    c,
                    self.reliable(),
                    self.qos.resource_limits.0.max_samples,
                    self.qos.history.0,
                ),
    {
        let change = CacheChange::new(
            ChangeKind::Alive,
            self.writer_guid,
            self.last_change_sequence_number,
            ts,
            Some(payload.copy()),
            None,
            InstanceHandle::handle_nil(),
        );
        proof {
            assert(crate::message::element::payload_bytes(change.data_value.unwrap()) =~= crate::message::element::payload_bytes(*payload));
            assert(change_key(change) == self.key());
        }
        let r = hc.add_change(change, self.is_reliable(), self.qos.resource_limits.0, self.qos.history.0);
        r.is_ok()
    }

    /// Whether asserting liveliness has an effect: only with manual
    /// liveliness, by participant or by topic.
    pub fn assert_liveliness(&self) -> (r: bool)
        ensures
            r == (self.qos.liveliness.0.kind != LivelinessQosKind::Automatic),
    {
        match self.qos.liveliness.0.kind {
            LivelinessQosKind::Automatic => false,
            LivelinessQosKind::ManualByTopic | LivelinessQosKind::ManualByParticipant => true,
        }
    }
}

/// Whether a writer whose liveliness is of kind `kind` with lease `lease`,
/// and that was last known alive `since_live` ago, is due to assert its
/// liveliness: only automatic liveliness with a finite lease is asserted,
/// once more than half the lease has passed.
pub fn liveliness_assert_due(kind: LivelinessQosKind, lease: Duration, since_live: Duration) -> (r: bool)
    ensures
        r == (kind == LivelinessQosKind::Automatic && lease != Duration::spec_infinite() && 2
            * since_live.ticks() > lease.ticks()),
{
    match kind {
        LivelinessQosKind::Automatic => {},
        _ => return false,
    }
    if lease.is_infinite() {
        return false;
    }
    let since: i128 = since_live.seconds as i128 * 0x1_0000_0000 + since_live.fraction as i128;
    let l: i128 = lease.seconds as i128 * 0x1_0000_0000 + lease.fraction as i128;
    2 * since > l
}

} // verus!
