//! RTPS message elements, the decisions a receiver takes on them and on the
//! discovery data they carry.

pub mod cdr;
pub mod element;
pub mod endpoint_discovery;
pub mod receiver;
