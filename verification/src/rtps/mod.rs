//! The RTPS layer: history caches of changes, the stateful reader that
//! keeps track of its matched writers, and what readers report.

pub mod cache;
pub mod cache_laws;
pub mod reader;
pub mod seq_util;
pub mod status;
