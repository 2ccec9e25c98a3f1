//! How a participant runs its protocols: announcement period, lease, and the
//! periods and delays of reliable exchange.
use vstd::prelude::*;
use crate::structure::duration::CoreDuration;

verus! {

/// Nanoseconds in one second.
pub open spec fn nanos_of_secs(s: int) -> int {
    s * 1_000_000_000
}

/// The default period of participant announcements: 3 seconds.
pub fn default_participant_message_period() -> (d: CoreDuration)
    ensures
        d.total_nanos() == nanos_of_secs(3),
{
    CoreDuration::from_secs(3)
}

/// The default lease of a participant: 20 seconds.
pub fn default_lease_duration() -> (d: CoreDuration)
    ensures
        d.total_nanos() == nanos_of_secs(20),
{
    CoreDuration::from_secs(20)
}

/// The default heartbeat period: 2 seconds.
pub fn default_heartbeat_period() -> (d: CoreDuration)
    ensures
        d.total_nanos() == nanos_of_secs(2),
{
    CoreDuration::from_secs(2)
}

/// The default delay before answering an ACKNACK: none.
pub fn default_nack_response_delay() -> (d: CoreDuration)
    ensures
        d.total_nanos() == 0,
{
    CoreDuration::from_secs(0)
}

/// The default delay before answering a heartbeat: none.
pub fn default_heartbeat_response_delay() -> (d: CoreDuration)
    ensures
        d.total_nanos() == 0,
{
    CoreDuration::from_secs(0)
}

/// The parameters of a participant's protocols. The lease must be longer
/// than the announcement period.
#[derive(Clone, Copy)]
pub struct ParticipantConfig {
    pub participant_message_period: CoreDuration,
    pub lease_duration: CoreDuration,
    pub heartbeat_period: CoreDuration,
    pub nack_response_delay: CoreDuration,
    pub heartbeat_response_delay: CoreDuration,
}

impl Default for ParticipantConfig {
    fn default() -> (c: ParticipantConfig)
        ensures
            c.participant_message_period.total_nanos() == nanos_of_secs(3),
            c.lease_duration.total_nanos() == nanos_of_secs(20),
            c.heartbeat_period.total_nanos() == nanos_of_secs(2),
            c.nack_response_delay.total_nanos() == 0,
            c.heartbeat_response_delay.total_nanos() == 0,
    {
        ParticipantConfig {
            participant_message_period: default_participant_message_period(),
            lease_duration: default_lease_duration(),
            heartbeat_period: default_heartbeat_period(),
            nack_response_delay: default_nack_response_delay(),
            heartbeat_response_delay: default_heartbeat_response_delay(),
        }
    }
}

/// The length of a set span, or the default length in nanoseconds.
pub open spec fn span_or(o: Option<CoreDuration>, default_nanos: int) -> int {
    match o {
        Some(d) => d.total_nanos(),
        None => default_nanos,
    }
}

/// Builds a participant configuration; what is not set takes its default.
pub struct ParticipantConfigBuilder {
    pub participant_message_period: Option<CoreDuration>,
    pub lease_duration: Option<CoreDuration>,
    pub heartbeat_period: Option<CoreDuration>,
    pub nack_response_delay: Option<CoreDuration>,
    pub heartbeat_response_delay: Option<CoreDuration>,
}

impl ParticipantConfigBuilder {
    /// A builder with nothing set.
    pub fn new() -> (b: ParticipantConfigBuilder)
        ensures
            b.participant_message_period is None,
            b.lease_duration is None,
            b.heartbeat_period is None,
            b.nack_response_delay is None,
            b.heartbeat_response_delay is None,
    {
        ParticipantConfigBuilder {
            participant_message_period: None,
            lease_duration: None,
            heartbeat_period: None,
            nack_response_delay: None,
            heartbeat_response_delay: None,
        }
    }

    /// The configuration: each set span, or its default. The announcement
    /// period must be shorter than the lease.
    pub fn build(self) -> (c: ParticipantConfig)
        requires
            span_or(self.participant_message_period, nanos_of_secs(3)) < span_or(
                self.lease_duration,
                nanos_of_secs(20),
            ),
        ensures
            c.participant_message_period.total_nanos() == span_or(
                self.participant_message_period,
                nanos_of_secs(3),
            ),
            c.lease_duration.total_nanos() == span_or(self.lease_duration, nanos_of_secs(20)),
            c.heartbeat_period.total_nanos() == span_or(self.heartbeat_period, nanos_of_secs(2)),
            c.nack_response_delay.total_nanos() == span_or(self.nack_response_delay, 0),
            c.heartbeat_response_delay.total_nanos() == span_or(self.heartbeat_response_delay, 0),
            self.participant_message_period matches Some(d) ==> c.participant_message_period == d,
            self.lease_duration matches Some(d) ==> c.lease_duration == d,
            self.heartbeat_period matches Some(d) ==> c.heartbeat_period == d,
            self.nack_response_delay matches Some(d) ==> c.nack_response_delay == d,
            self.heartbeat_response_delay matches Some(d) ==> c.heartbeat_response_delay == d,
    {
        let participant_message_period = match self.participant_message_period {
            Some(d) => d,
            None => default_participant_message_period(),
        };
        let lease_duration = match self.lease_duration {
            Some(d) => d,
            None => default_lease_duration(),
        };
        ParticipantConfig {
            participant_message_period,
            lease_duration,
            heartbeat_period: match self.heartbeat_period {
                Some(d) => d,
                None => default_heartbeat_period(),
            },
            nack_response_delay: match self.nack_response_delay {
                Some(d) => d,
                None => default_nack_response_delay(),
            },
            heartbeat_response_delay: match self.heartbeat_response_delay {
                Some(d) => d,
                None => default_heartbeat_response_delay(),
            },
        }
    }

    /// Whether `build` may be called: the announcement period (set or
    /// default) is shorter than the lease (set or default).
    pub fn is_buildable(&self) -> (r: bool)
        ensures
            r == (span_or(self.participant_message_period, nanos_of_secs(3)) < span_or(
                self.lease_duration,
                nanos_of_secs(20),
            )),
    {
        let p = match self.participant_message_period {
            Some(d) => d,
            None => default_participant_message_period(),
        };
        let l = match self.lease_duration {
            Some(d) => d,
            None => default_lease_duration(),
        };
        p.lt(&l)
    }

    pub fn participant_period(self, period: CoreDuration) -> (b: ParticipantConfigBuilder)
        ensures
            b == (ParticipantConfigBuilder { participant_message_period: Some(period), ..self }),
    {
        ParticipantConfigBuilder { participant_message_period: Some(period), ..self }
    }

    pub fn lease_duration(self, duration: CoreDuration) -> (b: ParticipantConfigBuilder)
        ensures
            b == (ParticipantConfigBuilder { lease_duration: Some(duration), ..self }),
    {
        ParticipantConfigBuilder { lease_duration: Some(duration), ..self }
    }

    pub fn heartbeat_period(self, period: CoreDuration) -> (b: ParticipantConfigBuilder)
        ensures
            b == (ParticipantConfigBuilder { heartbeat_period: Some(period), ..self }),
    {
        ParticipantConfigBuilder { heartbeat_period: Some(period), ..self }
    }

    pub fn nack_response_delay(self, period: CoreDuration) -> (b: ParticipantConfigBuilder)
        ensures
            b == (ParticipantConfigBuilder { nack_response_delay: Some(period), ..self }),
    {
        ParticipantConfigBuilder { nack_response_delay: Some(period), ..self }
    }

    pub fn heartbeat_response_delay(self, period: CoreDuration) -> (b: ParticipantConfigBuilder)
        ensures
            b == (ParticipantConfigBuilder { heartbeat_response_delay: Some(period), ..self }),
    {
        ParticipantConfigBuilder { heartbeat_response_delay: Some(period), ..self }
    }
}

impl Default for ParticipantConfigBuilder {
    fn default() -> (b: ParticipantConfigBuilder)
        ensures
            b.participant_message_period is None,
            b.lease_duration is None,
            b.heartbeat_period is None,
            b.nack_response_delay is None,
            b.heartbeat_response_delay is None,
    {
        ParticipantConfigBuilder::new()
    }
}

/// A configuration built from a builder with nothing set has the default
/// spans, and building it is allowed.
pub proof fn law_default_config_buildable(b: ParticipantConfigBuilder)
    requires
        b.participant_message_period is None,
        b.lease_duration is None,
    ensures
        span_or(b.participant_message_period, nanos_of_secs(3)) < span_or(
            b.lease_duration,
            nanos_of_secs(20),
        ),
{
}

/// Hands out the keys of a participant's entities one after the other, so
/// that no two of its entities share one (RTPS 9.3.1.2 lets the key be
/// chosen freely otherwise). The count starts at 0x300.
pub struct EntityKeyGenerator {
    pub next: u32,
}

impl EntityKeyGenerator {
    pub fn new() -> (g: EntityKeyGenerator)
        ensures
            g.next == 0x300,
    {
        EntityKeyGenerator { next: 0x300 }
    }

    /// The next key: the low three octets of the count, most significant
    /// first; the count goes on by one, wrapping around.
    pub fn gen_entity_key(&mut self) -> (k: [u8; 3])
        ensures
            k@ == seq![
                ((old(self).next / 0x1_0000) % 0x100) as u8,
                ((old(self).next / 0x100) % 0x100) as u8,
                (old(self).next % 0x100) as u8,
            ],
            final(self).next == (old(self).next + 1) % 0x1_0000_0000,
    {
        let n = self.next;
        self.next = n.wrapping_add(1);
        let k: [u8; 3] = [((n / 0x1_0000) % 0x100) as u8, ((n / 0x100) % 0x100) as u8, (n % 0x100) as u8];
        assert(k@ =~= seq![
            ((n / 0x1_0000) % 0x100) as u8,
            ((n / 0x100) % 0x100) as u8,
            (n % 0x100) as u8,
        ]);
        k
    }
}

} // verus!
