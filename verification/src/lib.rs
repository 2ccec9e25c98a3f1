//! A DDS / RTPS middleware core: entity identifiers, QoS policies and their
//! compatibility rules, sequence-number sets, history caches, remote
//! endpoint proxies and the stateful reader, discovery data with the wire
//! encodings it uses, and the decisions a participant takes on what it
//! receives.

pub mod structure;
pub mod dds;
pub mod message;
pub mod rtps;
pub mod discovery;
pub mod text;
