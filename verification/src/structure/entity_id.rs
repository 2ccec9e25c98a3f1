use vstd::prelude::*;

verus! {

/// Whether the data of a topic carries a key.
#[derive(Clone, Copy, Debug, PartialEq, Eq, Structural)]
pub enum TopicKind {
    NoKey,
    WithKey,
}

/// The kind octet of an [`EntityId`] (RTPS 9.3.1.2).
#[derive(Clone, Copy, Debug, PartialEq, Eq, Structural)]
pub struct EntityKind {
    pub value: u8,
}

/// Kind octets defined by RTPS, and the two this implementation adds for
/// publishers and subscribers.
pub const KIND_UNKNOW_USER_DEFIND: u8 = 0x00;
pub const KIND_WRITER_WITH_KEY_USER_DEFIND: u8 = 0x02;
pub const KIND_WRITER_NO_KEY_USER_DEFIND: u8 = 0x03;
pub const KIND_READER_NO_KEY_USER_DEFIND: u8 = 0x04;
pub const KIND_READER_WITH_KEY_USER_DEFIND: u8 = 0x07;
pub const KIND_WRITER_GROUP_USER_DEFIND: u8 = 0x08;
pub const KIND_READER_GROUP_USER_DEFIND: u8 = 0x09;
pub const KIND_UNKNOW_BUILT_IN: u8 = 0xc0;
pub const KIND_PARTICIPANT_BUILT_IN: u8 = 0xc1;
pub const KIND_WRITER_WITH_KEY_BUILT_IN: u8 = 0xc2;
pub const KIND_WRITER_NO_KEY_BUILT_IN: u8 = 0xc3;
pub const KIND_READER_NO_KEY_BUILT_IN: u8 = 0xc4;
pub const KIND_READER_WITH_KEY_BUILT_IN: u8 = 0xc7;
pub const KIND_WRITER_GROUP_BUILT_IN: u8 = 0xc8;
pub const KIND_READER_GROUP_BUILT_IN: u8 = 0xc9;
pub const KIND_PUBLISHER: u8 = 0x40;
pub const KIND_SUBSCRIBER: u8 = 0x41;

/// Whether a kind octet names a reader.
pub open spec fn spec_is_reader_kind(v: u8) -> bool {
    v == KIND_READER_WITH_KEY_BUILT_IN || v == KIND_READER_NO_KEY_BUILT_IN || v
        == KIND_READER_NO_KEY_USER_DEFIND || v == KIND_READER_WITH_KEY_USER_DEFIND
}

/// Whether a kind octet names a writer.
pub open spec fn spec_is_writer_kind(v: u8) -> bool {
    v == KIND_WRITER_WITH_KEY_BUILT_IN || v == KIND_WRITER_NO_KEY_BUILT_IN || v
        == KIND_WRITER_NO_KEY_USER_DEFIND || v == KIND_WRITER_WITH_KEY_USER_DEFIND
}

/// The topic kind that an endpoint kind octet implies, if it names an endpoint.
pub open spec fn spec_topic_kind(v: u8) -> Option<TopicKind> {
    if v == KIND_WRITER_WITH_KEY_USER_DEFIND || v == KIND_WRITER_WITH_KEY_BUILT_IN || v
        == KIND_READER_WITH_KEY_USER_DEFIND || v == KIND_READER_WITH_KEY_BUILT_IN {
        Some(TopicKind::WithKey)
    } else if v == KIND_WRITER_NO_KEY_USER_DEFIND || v == KIND_WRITER_NO_KEY_BUILT_IN || v
        == KIND_READER_NO_KEY_USER_DEFIND || v == KIND_READER_NO_KEY_BUILT_IN {
        Some(TopicKind::NoKey)
    } else {
        None
    }
}

impl EntityKind {
    pub open spec fn spec_value(self) -> u8 {
        self.value
    }

    /// The kind with the given octet.
    pub fn from_value(value: u8) -> (k: EntityKind)
        ensures
            k.spec_value() == value,
    {
        EntityKind { value }
    }

    /// The kind octet.
    pub fn value(&self) -> (v: u8)
        ensures
            v == self.spec_value(),
    {
        self.value
    }

    /// The topic kind this endpoint kind implies; `None` for kinds that are not
    /// readers or writers.
    pub fn topic_kind(&self) -> (t: Option<TopicKind>)
        ensures
            t == spec_topic_kind(self.value),
    {
        let v = self.value;
        if v == KIND_WRITER_WITH_KEY_USER_DEFIND || v == KIND_WRITER_WITH_KEY_BUILT_IN || v
            == KIND_READER_WITH_KEY_USER_DEFIND || v == KIND_READER_WITH_KEY_BUILT_IN {
            Some(TopicKind::WithKey)
        } else if v == KIND_WRITER_NO_KEY_USER_DEFIND || v == KIND_WRITER_NO_KEY_BUILT_IN || v
            == KIND_READER_NO_KEY_USER_DEFIND || v == KIND_READER_NO_KEY_BUILT_IN {
            Some(TopicKind::NoKey)
        } else {
            None
        }
    }
}

/// An entity identifier (RTPS 9.2.2): a three-octet key and a kind octet.
#[derive(Clone, Copy, Debug, PartialEq, Eq, Structural)]
pub struct EntityId {
    pub key0: u8,
    pub key1: u8,
    pub key2: u8,
    pub entity_kind: EntityKind,
}

/// The entity identifier with the given key octets and kind octet.
pub open spec fn spec_entity_id(k0: u8, k1: u8, k2: u8, kind: u8) -> EntityId {
    EntityId { key0: k0, key1: k1, key2: k2, entity_kind: EntityKind { value: kind } }
}

/// The identifiers that RTPS 9.3.1.3 reserves for built-in endpoints.
pub open spec fn spec_is_builtin(e: EntityId) -> bool {
    e == spec_entity_id(0, 0, 2, KIND_WRITER_WITH_KEY_BUILT_IN) || e == spec_entity_id(
        0,
        0,
        2,
        KIND_READER_WITH_KEY_BUILT_IN,
    ) || e == spec_entity_id(0, 0, 3, KIND_WRITER_WITH_KEY_BUILT_IN) || e == spec_entity_id(
        0,
        0,
        3,
        KIND_READER_WITH_KEY_BUILT_IN,
    ) || e == spec_entity_id(0, 0, 4, KIND_WRITER_WITH_KEY_BUILT_IN) || e == spec_entity_id(
        0,
        0,
        4,
        KIND_READER_WITH_KEY_BUILT_IN,
    ) || e == spec_entity_id(0, 1, 0, KIND_WRITER_WITH_KEY_BUILT_IN) || e == spec_entity_id(
        0,
        1,
        0,
        KIND_READER_WITH_KEY_BUILT_IN,
    ) || e == spec_entity_id(0, 2, 0, KIND_WRITER_WITH_KEY_BUILT_IN) || e == spec_entity_id(
        0,
        2,
        0,
        KIND_READER_WITH_KEY_BUILT_IN,
    )
}

impl EntityId {
    pub open spec fn spec_key(self) -> Seq<u8> {
        seq![self.key0, self.key1, self.key2]
    }

    pub open spec fn spec_kind(self) -> u8 {
        self.entity_kind.value
    }

    /// The identifier packed into one number: the three key octets, then the
    /// kind octet, most significant first.
    pub open spec fn spec_as_usize(self) -> int {
        self.key0 * 0x100_0000 + self.key1 * 0x1_0000 + self.key2 * 0x100 + self.entity_kind.value
    }

    /// The identifier that [`EntityId::as_usize`] packed into `n` (only the low
    /// 32 bits of `n` count).
    pub open spec fn spec_from_usize(n: int) -> EntityId {
        spec_entity_id(
            ((n / 0x100_0000) % 0x100) as u8,
            ((n / 0x1_0000) % 0x100) as u8,
            ((n / 0x100) % 0x100) as u8,
            (n % 0x100) as u8,
        )
    }

    // The identifiers RTPS 9.3.1.3 predefines.

    /// The identifier of the unknown entity.
    pub fn unknow() -> (e: EntityId)
        ensures
            e == spec_entity_id(0, 0, 0, KIND_UNKNOW_USER_DEFIND),
    {
        EntityId { key0: 0, key1: 0, key2: 0, entity_kind: EntityKind { value: KIND_UNKNOW_USER_DEFIND } }
    }

    /// The identifier of the participant itself.
    pub fn participant() -> (e: EntityId)
        ensures
            e == spec_entity_id(0, 0, 1, KIND_PARTICIPANT_BUILT_IN),
    {
        EntityId { key0: 0, key1: 0, key2: 1, entity_kind: EntityKind { value: KIND_PARTICIPANT_BUILT_IN } }
    }

    /// The identifier of the built-in topic writer.
    pub fn sedp_builtin_topics_announcer() -> (e: EntityId)
        ensures
            e == spec_entity_id(0, 0, 2, KIND_WRITER_WITH_KEY_BUILT_IN),
    {
        EntityId { key0: 0, key1: 0, key2: 2, entity_kind: EntityKind { value: KIND_WRITER_WITH_KEY_BUILT_IN } }
    }

    /// The identifier of the built-in topic reader.
    pub fn sedp_builtin_topics_detector() -> (e: EntityId)
        ensures
            e == spec_entity_id(0, 0, 2, KIND_READER_WITH_KEY_BUILT_IN),
    {
        EntityId { key0: 0, key1: 0, key2: 2, entity_kind: EntityKind { value: KIND_READER_WITH_KEY_BUILT_IN } }
    }

    /// The identifier of the built-in publication writer.
    pub fn sedp_builtin_publications_announcer() -> (e: EntityId)
        ensures
            e == spec_entity_id(0, 0, 3, KIND_WRITER_WITH_KEY_BUILT_IN),
    {
        EntityId { key0: 0, key1: 0, key2: 3, entity_kind: EntityKind { value: KIND_WRITER_WITH_KEY_BUILT_IN } }
    }

    /// The identifier of the built-in publication reader.
    pub fn sedp_builtin_publications_detector() -> (e: EntityId)
        ensures
            e == spec_entity_id(0, 0, 3, KIND_READER_WITH_KEY_BUILT_IN),
    {
        EntityId { key0: 0, key1: 0, key2: 3, entity_kind: EntityKind { value: KIND_READER_WITH_KEY_BUILT_IN } }
    }

    /// The identifier of the built-in subscription writer.
    pub fn sedp_builtin_subscriptions_announcer() -> (e: EntityId)
        ensures
            e == spec_entity_id(0, 0, 4, KIND_WRITER_WITH_KEY_BUILT_IN),
    {
        EntityId { key0: 0, key1: 0, key2: 4, entity_kind: EntityKind { value: KIND_WRITER_WITH_KEY_BUILT_IN } }
    }

    /// The identifier of the built-in subscription reader.
    pub fn sedp_builtin_subscriptions_detector() -> (e: EntityId)
        ensures
            e == spec_entity_id(0, 0, 4, KIND_READER_WITH_KEY_BUILT_IN),
    {
        EntityId { key0: 0, key1: 0, key2: 4, entity_kind: EntityKind { value: KIND_READER_WITH_KEY_BUILT_IN } }
    }

    /// The identifier of the built-in participant writer.
    pub fn spdp_builtin_participant_announcer() -> (e: EntityId)
        ensures
            e == spec_entity_id(0, 1, 0, KIND_WRITER_WITH_KEY_BUILT_IN),
    {
        EntityId { key0: 0, key1: 1, key2: 0, entity_kind: EntityKind { value: KIND_WRITER_WITH_KEY_BUILT_IN } }
    }

    /// The identifier of the built-in participant reader.
    pub fn spdp_builtin_participant_detector() -> (e: EntityId)
        ensures
            e == spec_entity_id(0, 1, 0, KIND_READER_WITH_KEY_BUILT_IN),
    {
        EntityId { key0: 0, key1: 1, key2: 0, entity_kind: EntityKind { value: KIND_READER_WITH_KEY_BUILT_IN } }
    }

    /// The identifier of the built-in participant message writer.
    pub fn p2p_builtin_participant_message_writer() -> (e: EntityId)
        ensures
            e == spec_entity_id(0, 2, 0, KIND_WRITER_WITH_KEY_BUILT_IN),
    {
        EntityId { key0: 0, key1: 2, key2: 0, entity_kind: EntityKind { value: KIND_WRITER_WITH_KEY_BUILT_IN } }
    }

    /// The identifier of the built-in participant message reader.
    pub fn p2p_builtin_participant_message_reader() -> (e: EntityId)
        ensures
            e == spec_entity_id(0, 2, 0, KIND_READER_WITH_KEY_BUILT_IN),
    {
        EntityId { key0: 0, key1: 2, key2: 0, entity_kind: EntityKind { value: KIND_READER_WITH_KEY_BUILT_IN } }
    }

    pub fn new(entity_key: [u8; 3], entity_kind: EntityKind) -> (e: EntityId)
        ensures
            e.spec_key() == entity_key@,
            e.entity_kind == entity_kind,
    {
        let e = EntityId {
            key0: entity_key[0],
            key1: entity_key[1],
            key2: entity_key[2],
            entity_kind,
        };
        assert(e.spec_key() =~= entity_key@);
        e
    }

    pub fn new_with_entity_kind(entity_key: [u8; 3], entity_kind: EntityKind) -> (e: EntityId)
        ensures
            e.spec_key() == entity_key@,
            e.entity_kind == entity_kind,
    {
        EntityId::new(entity_key, entity_kind)
    }

    /// The identifier whose key is the first three octets and whose kind is the
    /// fourth.
    pub fn from_bits(bits: [u8; 4]) -> (e: EntityId)
        ensures
            e == spec_entity_id(bits@[0], bits@[1], bits@[2], bits@[3]),
    {
        EntityId {
            key0: bits[0],
            key1: bits[1],
            key2: bits[2],
            entity_kind: EntityKind { value: bits[3] },
        }
    }

    /// Whether the kind octet names a reader.
    pub fn is_reader(&self) -> (r: bool)
        ensures
            r == spec_is_reader_kind(self.entity_kind.value),
    {
        let v = self.entity_kind.value;
        v == KIND_READER_WITH_KEY_BUILT_IN || v == KIND_READER_NO_KEY_BUILT_IN || v
            == KIND_READER_NO_KEY_USER_DEFIND || v == KIND_READER_WITH_KEY_USER_DEFIND
    }

    /// Whether the kind octet names a writer.
    pub fn is_writer(&self) -> (r: bool)
        ensures
            r == spec_is_writer_kind(self.entity_kind.value),
    {
        let v = self.entity_kind.value;
        v == KIND_WRITER_WITH_KEY_BUILT_IN || v == KIND_WRITER_NO_KEY_BUILT_IN || v
            == KIND_WRITER_NO_KEY_USER_DEFIND || v == KIND_WRITER_WITH_KEY_USER_DEFIND
    }

    /// Whether this is one of the identifiers reserved for built-in endpoints
    /// (topics, publications, subscriptions, participant and participant
    /// message announcers and detectors).
    pub fn is_builtin(&self) -> (r: bool)
        ensures
            r == spec_is_builtin(*self),
    {
        let v = self.entity_kind.value;
        let endpoint = v == KIND_WRITER_WITH_KEY_BUILT_IN || v == KIND_READER_WITH_KEY_BUILT_IN;
        let k = (self.key0, self.key1, self.key2);
        endpoint && self.key0 == 0 && ((self.key1 == 0 && (self.key2 == 2 || self.key2 == 3
            || self.key2 == 4)) || ((self.key1 == 1 || self.key1 == 2) && self.key2 == 0))
    }

    pub fn topic_kind(&self) -> (t: Option<TopicKind>)
        ensures
            t == spec_topic_kind(self.entity_kind.value),
    {
        self.entity_kind.topic_kind()
    }

    pub fn entity_kind(&self) -> (k: EntityKind)
        ensures
            k == self.entity_kind,
    {
        self.entity_kind
    }

    pub fn entity_key(&self) -> (k: [u8; 3])
        ensures
            k@ == self.spec_key(),
    {
        let k = [self.key0, self.key1, self.key2];
        assert(k@ =~= self.spec_key());
        k
    }

    /// The identifier packed into one number, key octets first; this is the
    /// number the event loop registers the entity under.
    pub fn as_usize(&self) -> (n: usize)
        ensures
            n == self.spec_as_usize(),
    {
        let n: u32 = (self.key0 as u32) * 0x100_0000 + (self.key1 as u32) * 0x1_0000
            + (self.key2 as u32) * 0x100 + (self.entity_kind.value as u32);
        n as usize
    }

    /// The identifier packed into `n` by [`EntityId::as_usize`]; bits above
    /// the low 32 are ignored.
    pub fn from_usize(n: usize) -> (e: EntityId)
        ensures
            e == EntityId::spec_from_usize(n as int),
    {
        EntityId {
            key0: ((n / 0x100_0000) % 0x100) as u8,
            key1: ((n / 0x1_0000) % 0x100) as u8,
            key2: ((n / 0x100) % 0x100) as u8,
            entity_kind: EntityKind { value: (n % 0x100) as u8 },
        }
    }

    /// Packing an identifier into a number and unpacking it gives the
    /// identifier back.
    pub proof fn lemma_usize_roundtrip(e: EntityId)
        ensures
            EntityId::spec_from_usize(e.spec_as_usize()) == e,
    {
        let k0 = e.key0 as int;
        let k1 = e.key1 as int;
        let k2 = e.key2 as int;
        let k3 = e.entity_kind.value as int;
        let n = e.spec_as_usize();
        assert((n / 0x100_0000) % 0x100 == k0 && (n / 0x1_0000) % 0x100 == k1 && (n / 0x100)
            % 0x100 == k2 && n % 0x100 == k3) by (nonlinear_arith)
            requires
                0 <= k0 < 256,
                0 <= k1 < 256,
                0 <= k2 < 256,
                0 <= k3 < 256,
                n == k0 * 0x100_0000 + k1 * 0x1_0000 + k2 * 0x100 + k3,
        ;
    }
}


/// The topic kind an endpoint kind octet tells: with a key exactly for the
/// four keyed endpoint kinds (user-defined writer 0x02 and reader 0x07,
/// built-in writer 0xc2 and reader 0xc7), without a key exactly for the four
/// unkeyed ones (user-defined writer 0x03 and reader 0x04, built-in writer
/// 0xc3 and reader 0xc4), and nothing for every other octet. So a reader and
/// a writer of the same keyedness tell the same topic kind.
pub proof fn law_topic_kind_of_kind(v: u8)
    ensures
        (spec_topic_kind(v) == Some(TopicKind::WithKey)) <==> (v == 0x02u8 || v == 0x07u8 || v
            == 0xc2u8 || v == 0xc7u8),
        (spec_topic_kind(v) == Some(TopicKind::NoKey)) <==> (v == 0x03u8 || v == 0x04u8 || v
            == 0xc3u8 || v == 0xc4u8),
        spec_topic_kind(v) is None <==> !(v == 0x02u8 || v == 0x07u8 || v == 0xc2u8 || v == 0xc7u8
            || v == 0x03u8 || v == 0x04u8 || v == 0xc3u8 || v == 0xc4u8),
        spec_topic_kind(0x07u8) == spec_topic_kind(0x02u8),
        spec_topic_kind(0xc7u8) == spec_topic_kind(0xc2u8),
        spec_topic_kind(0x04u8) == spec_topic_kind(0x03u8),
        spec_topic_kind(0xc4u8) == spec_topic_kind(0xc3u8),
{
}

/// The reader kinds are exactly 0x04, 0x07, 0xc4 and 0xc7 and the writer
/// kinds exactly 0x02, 0x03, 0xc2 and 0xc3; no kind is both.
pub proof fn law_endpoint_kinds(v: u8)
    ensures
        spec_is_reader_kind(v) <==> (v == 0x04u8 || v == 0x07u8 || v == 0xc4u8 || v == 0xc7u8),
        spec_is_writer_kind(v) <==> (v == 0x02u8 || v == 0x03u8 || v == 0xc2u8 || v == 0xc3u8),
        !(spec_is_reader_kind(v) && spec_is_writer_kind(v)),
{
}

/// The identifier with key `(k0, k1, k2)` and kind octet `kind`.
pub open spec fn id_of(k0: u8, k1: u8, k2: u8, kind: u8) -> EntityId {
    EntityId { key0: k0, key1: k1, key2: k2, entity_kind: EntityKind { value: kind } }
}

/// The built-in endpoint identifiers of RTPS 9.3.1.3 are exactly the ten
/// pairs of announcer (kind 0xc2) and detector (kind 0xc7) with keys
/// 0.0.2 (topics), 0.0.3 (publications), 0.0.4 (subscriptions), 0.1.0
/// (participant) and 0.2.0 (participant message). In particular a reader
/// identifier is built-in exactly when the writer identifier with the same
/// key is, and no user-defined identifier (kind octet below 0xc0) is.
pub proof fn law_builtin_ids(e: EntityId, k0: u8, k1: u8, k2: u8)
    ensures
        spec_is_builtin(e) <==> ((e.entity_kind.value == 0xc2u8 || e.entity_kind.value == 0xc7u8)
            && e.key0 == 0 && ((e.key1 == 0 && (e.key2 == 2 || e.key2 == 3 || e.key2 == 4)) || (
        e.key2 == 0 && (e.key1 == 1 || e.key1 == 2)))),
        spec_is_builtin(id_of(k0, k1, k2, 0xc7)) <==> spec_is_builtin(id_of(k0, k1, k2, 0xc2)),
        e.entity_kind.value < 0xc0u8 ==> !spec_is_builtin(e),
        spec_is_builtin(id_of(0, 0, 2, 0xc2)) && spec_is_builtin(id_of(0, 0, 2, 0xc7)),
        spec_is_builtin(id_of(0, 0, 3, 0xc2)) && spec_is_builtin(id_of(0, 0, 3, 0xc7)),
        spec_is_builtin(id_of(0, 0, 4, 0xc2)) && spec_is_builtin(id_of(0, 0, 4, 0xc7)),
        spec_is_builtin(id_of(0, 1, 0, 0xc2)) && spec_is_builtin(id_of(0, 1, 0, 0xc7)),
        spec_is_builtin(id_of(0, 2, 0, 0xc2)) && spec_is_builtin(id_of(0, 2, 0, 0xc7)),
{
}

} // verus!
