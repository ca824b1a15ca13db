//! What a driver answers, as plain values.
use vstd::prelude::*;

use crate::listing::InfoAnswer;
use crate::selector::SelectorError;

verus! {

/// The answer to a query for the size of a device's memory.
#[derive(Clone, Copy, Debug, PartialEq, Eq, Structural)]
pub enum MemoryInfo {
    /// The size in bytes.
    GlobalMemSize(u64),
    /// An answer to some other question.
    Other,
}

/// The answer to a query for a kernel's work-group size on a device.
#[derive(Clone, Copy, Debug, PartialEq, Eq, Structural)]
pub enum WorkGroupInfo {
    /// The largest number of work items in a group.
    WorkGroupSize(usize),
    /// An answer to some other question.
    Other,
}

/// What came back from the driver.
#[derive(Debug, PartialEq, Eq)]
pub enum Reply {
    /// The number of platforms.
    Platforms(usize),
    /// The number of devices of a platform.
    Devices(usize),
    /// The size of a device's memory.
    Memory(MemoryInfo),
    /// How a device describes itself.
    Description { vendor: InfoAnswer, name: InfoAnswer, compute_units: InfoAnswer },
    /// The work-group size of a kernel that was built for a device.
    WorkGroup(WorkGroupInfo),
    /// All device buffers exist.
    BuffersCreated,
}

/// What leaves a setup no way to go on.
#[derive(Clone, Copy, Debug, PartialEq, Eq, Structural)]
pub enum Fault {
    /// A selector cannot be read.
    Selector(SelectorError),
    /// The memory query was answered with something else.
    MemoryInfo,
    /// No platform stands at the position asked for.
    PlatformIndex,
    /// No device stands at the position asked for.
    DeviceIndex,
    /// The work-group query was answered with something else.
    WorkGroupInfo,
    /// The work-group size is zero.
    WorkGroupSizeZero,
    /// The length of a device buffer does not fit in `usize`.
    BufferLength,
    /// The host buffer is longer than any allocation can be.
    HostBufferLength,
}

/// Takes the work-group size out of the driver's answer.
pub fn get_kernel_work_group_size(info: WorkGroupInfo) -> (size: usize)
    requires
        info is WorkGroupSize,
    ensures
        info == WorkGroupInfo::WorkGroupSize(size),
{
    match info {
        WorkGroupInfo::WorkGroupSize(size) => size,
        WorkGroupInfo::Other => vstd::pervasive::unreached(),
    }
}

} // verus!
