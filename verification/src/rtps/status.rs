//! What a reader reports of its matched writers, and the timers it asks for.
use vstd::prelude::*;
use crate::message::element::Timestamp;
use crate::rtps::cache::HCKey;
use crate::structure::duration::{CoreDuration, Duration};
use crate::structure::entity_id::EntityId;
use crate::structure::guid::GUID;

verus! {

/// A timer a reader asks for: a heartbeat answer to a writer, a deadline
/// for a writer, or the end of a change's lifespan. Periods are given as
/// the QoS states them; the event loop arms the timer with them.
pub enum ReaderTimer {
    Heartbeat(EntityId, GUID),
    Deadline(EntityId, GUID, Duration),
    Lifespan(EntityId, HCKey, Timestamp, Duration),
}

/// A change in the status of a reader.
pub enum DataReaderStatusChanged {
    SampleRejected,
    LivelinessChanged(LivelinessChangedStatus),
    RequestedDeadlineMissed(GUID),
    RequestedIncompatibleQos(String),
    DataAvailable,
    SampleLost,
    SubscriptionMatched(SubscriptionMatchedStatus),
}

/// How many writers a reader matches; `guid` is the remote writer's.
pub struct SubscriptionMatchedStatus {
    pub total_count: i32,
    pub total_count_change: i32,
    pub current_count: i32,
    pub current_count_change: i32,
    pub guid: GUID,
}

impl SubscriptionMatchedStatus {
    pub fn new(
        total_count: i32,
        total_count_change: i32,
        current_count: i32,
        current_count_change: i32,
        guid: GUID,
    ) -> (s: SubscriptionMatchedStatus)
        ensures
            s == (SubscriptionMatchedStatus {
                total_count,
                total_count_change,
                current_count,
                current_count_change,
                guid,
            }),
    {
        SubscriptionMatchedStatus {
            total_count,
            total_count_change,
            current_count,
            current_count_change,
            guid,
        }
    }
}

/// How many matched writers are alive; `guid` is the remote writer's.
pub struct LivelinessChangedStatus {
    pub alive_count: i32,
    pub not_alive_count: i32,
    pub alive_count_change: i32,
    pub not_alive_count_change: i32,
    pub guid: GUID,
}

impl LivelinessChangedStatus {
    pub fn new(
        alive_count: i32,
        not_alive_count: i32,
        alive_count_change: i32,
        not_alive_count_change: i32,
        guid: GUID,
    ) -> (s: LivelinessChangedStatus)
        ensures
            s == (LivelinessChangedStatus {
                alive_count,
                not_alive_count,
                alive_count_change,
                not_alive_count_change,
                guid,
            }),
    {
        LivelinessChangedStatus {
            alive_count,
            not_alive_count,
            alive_count_change,
            not_alive_count_change,
            guid,
        }
    }
}

/// The time `secs` seconds and `nanos` nanoseconds after `t`, as
/// `Timestamp::add` computes it: the nanoseconds become a fraction (rounded
/// down), a fraction that overflows carries one second, and the seconds keep
/// their low 32 bits.
pub open spec fn timestamp_after(t: Timestamp, secs: int, nanos: int) -> Timestamp {
    let added = nanos * 0x1_0000_0000 / 1_000_000_000;
    let carry = if t.fraction + added >= 0x1_0000_0000 { 1int } else { 0int };
    Timestamp {
        fraction: ((t.fraction + added) % 0x1_0000_0000) as u32,
        seconds: ((t.seconds + secs + carry) % 0x1_0000_0000) as u32,
    }
}

/// How long from `now` until the lifespan of a change stamped `ts` ends:
/// the time `lifespan` after `ts`, less `now`, and no less than zero. A
/// lifespan that no host span stands for (infinite or negative) arms no
/// timer.
pub fn lifespan_timeout(ts: Timestamp, lifespan: Duration, now: Timestamp) -> (r: Option<CoreDuration>)
    ensures
        r is None <==> (lifespan == Duration::spec_infinite() || lifespan.seconds < 0),
        r matches Some(d) ==> {
            let end = timestamp_after(
                ts,
                lifespan.seconds as int,
                lifespan.fraction * 1_000_000_000 / 0x1_0000_0000,
            );
            &&& end.spec_nanos() >= now.spec_nanos() ==> d.total_nanos() == end.spec_nanos() - now.spec_nanos()
            &&& end.spec_nanos() < now.spec_nanos() ==> d.total_nanos() == 0
        },
{
    match lifespan.to_core() {
        None => None,
        Some(l) => {
            let end = ts.add(l);
            Some(end.sub(now))
        },
    }
}

} // verus!
