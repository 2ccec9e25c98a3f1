//! What a reader reports with each sample it hands out.
use vstd::prelude::*;
use crate::message::element::Timestamp;
use crate::rtps::cache::InstanceHandle;

verus! {

/// Whether the application has read a sample before.
#[derive(Clone, Copy, Debug, PartialEq, Eq, Structural)]
pub enum SampleState {
    Read,
    NotRead,
}

/// Whether the instance of a sample is alive.
#[derive(Clone, Copy, Debug, PartialEq, Eq, Structural)]
pub enum InstanceState {
    Alive,
    NotAliveDisposed,
    NotAliveNoWriters,
}

/// Whether the application has seen the instance before.
#[derive(Clone, Copy, Debug, PartialEq, Eq, Structural)]
pub enum ViewState {
    New,
    NotNew,
}

/// What comes with a sample.
pub struct SampleInfo {
    pub sample_state: SampleState,
    pub source_timestamp: Timestamp,
    pub instance_handle: InstanceHandle,
}

impl SampleInfo {
    /// The information of a sample: read or not, its source time, its
    /// instance.
    pub fn new(is_read: bool, source_ts: Timestamp, instance_handle: InstanceHandle) -> (i: SampleInfo)
        ensures
            i.sample_state == (if is_read {
                SampleState::Read
            } else {
                SampleState::NotRead
            }),
            i.source_timestamp == source_ts,
            i.instance_handle == instance_handle,
    {
        SampleInfo {
            sample_state: if is_read {
                SampleState::Read
            } else {
                SampleState::NotRead
            },
            source_timestamp: source_ts,
            instance_handle,
        }
    }
}

} // verus!
