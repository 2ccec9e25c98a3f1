//! The bits of the built-in endpoint set a participant announces (RTPS
//! 9.3.2, `BuiltinEndpointSet_t`).
use vstd::prelude::*;

verus! {

pub const DISC_BUILTIN_ENDPOINT_PARTICIPANT_ANNOUNCER: u32 = 0x0000_0001;
pub const DISC_BUILTIN_ENDPOINT_PARTICIPANT_DETECTOR: u32 = 0x0000_0002;
pub const DISC_BUILTIN_ENDPOINT_PUBLICATIONS_ANNOUNCER: u32 = 0x0000_0004;
pub const DISC_BUILTIN_ENDPOINT_PUBLICATIONS_DETECTOR: u32 = 0x0000_0008;
pub const DISC_BUILTIN_ENDPOINT_SUBSCRIPTIONS_ANNOUNCER: u32 = 0x0000_0010;
pub const DISC_BUILTIN_ENDPOINT_SUBSCRIPTIONS_DETECTOR: u32 = 0x0000_0020;
pub const BUILTIN_ENDPOINT_PARTICIPANT_MESSAGE_DATA_WRITER: u32 = 0x0000_0400;
pub const BUILTIN_ENDPOINT_PARTICIPANT_MESSAGE_DATA_READER: u32 = 0x0000_0800;

/// Whether the set `bits` holds the endpoint `flag`.
pub open spec fn has_endpoint(bits: u32, flag: u32) -> bool {
    bits & flag == flag
}

/// Whether the set `bits` holds the endpoint `flag`.
pub fn contains(bits: u32, flag: u32) -> (r: bool)
    ensures
        r == has_endpoint(bits, flag),
{
    bits & flag == flag
}

} // verus!
