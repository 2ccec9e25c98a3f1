//! Discovery data: what participants and endpoints announce of themselves,
//! and how it is written to and read from a parameter list.

pub mod builtin_endpoint;
pub mod builtin_qos;
pub mod data;
pub mod laws;
pub mod parse;
pub mod sedp;
pub mod sedp_laws;
pub mod topic_data;

use vstd::prelude::*;
use crate::discovery::data::ParticipantMessageData;
use crate::structure::guid::GuidPrefix;

verus! {

/// What discovery tells the rest of the participant about its records.
pub enum DiscoveryDBUpdateNotifier {
    DeleteParticipant(GuidPrefix),
}

/// What discovery is asked to send.
pub enum ParticipantMessageCmd {
    SendData(ParticipantMessageData),
}

} // verus!
