//! Identifiers, time spans, and the proxies of remote endpoints.

pub mod duration;
pub mod entity_id;
pub mod guid;
pub mod parameter_id;
pub mod proxy;
pub mod proxy_laws;
