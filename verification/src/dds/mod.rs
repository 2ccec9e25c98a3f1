//! The DDS layer: QoS policies and their combination, keys, samples,
//! participant configuration, and what DataReaders and DataWriters do with
//! their caches.

pub mod announcement;
pub mod datareader;
pub mod datawriter;
pub mod key;
pub mod participant;
pub mod publisher;
pub mod qos;
pub mod sample;
pub mod tokens;
