//! The sizes of a GPU context, and setting one up on a device.
use vstd::prelude::*;
use vstd::string::*;

use crate::driver::get_kernel_work_group_size;
use crate::driver::{Fault, Reply, WorkGroupInfo};
use crate::text::append_decimal;
use crate::text::decimal;

verus! {

/// Bytes that one nonce takes up.
pub const NONCE_SIZE: u64 = 262144;

/// Buffers that are created on a device.
pub const NUM_BUFFERS: u64 = 2;

/// The kernel that computes nonces.
pub const KERNEL_NAME: &'static str = "calculate_nonces";

/// The options with which the kernel's program is built.
pub const BUILD_OPTIONS: &'static str = "";

/// The largest multiple of `work_group_size` that is at most `max_nonces`.
pub open spec fn work_size(work_group_size: usize, max_nonces: usize) -> usize {
    (work_group_size * (max_nonces / work_group_size)) as usize
}

/// The bytes that `nonces` nonces take up.
pub open spec fn nonce_bytes(nonces: usize) -> nat {
    NONCE_SIZE as nat * nonces as nat
}

/// What a GPU context is, apart from the handles that a driver gave out.
pub struct ContextModel {
    /// Work items in a group.
    pub work_group_size: usize,
    /// Work items in a run, which is the number of nonces computed at once.
    pub worksize: usize,
    /// Whether the buffers are mapped into host memory.
    pub mapping: bool,
}

impl ContextModel {
    /// Runs are cut into whole groups, and their nonces fit in host memory.
    pub open spec fn valid(self) -> bool {
        &&& self.work_group_size > 0
        &&& self.worksize % self.work_group_size == 0
        &&& nonce_bytes(self.worksize) <= isize::MAX
    }
}

/// A device that is set up for computing nonces: the shape of its runs and the
/// host memory that receives them.
pub struct GpuContext {
    /// Work items in each dimension of a group.
    pub ldim1: [usize; 3],
    /// Work items in each dimension of a run.
    pub gdim1: [usize; 3],
    /// Whether the buffers are mapped into host memory.
    pub mapping: bool,
    /// Host memory for the nonces of a run.
    pub buffer_host_a: Vec<u8>,
    /// Nonces computed in a run.
    pub worksize: usize,
}

impl View for GpuContext {
    type V = ContextModel;

    open spec fn view(&self) -> ContextModel {
        ContextModel {
            work_group_size: self.ldim1[0],
            worksize: self.worksize,
            mapping: self.mapping,
        }
    }
}

impl GpuContext {
    /// The dimensions and the host memory are those of the model: one
    /// dimension is used, and there is room for the nonces of a run, filled
    /// with ones.
    pub open spec fn wf(&self) -> bool {
        &&& self@.valid()
        &&& self.gdim1 == [self@.worksize, 1usize, 1usize]
        &&& self.ldim1 == [self@.work_group_size, 1usize, 1usize]
        &&& self.buffer_host_a@ == Seq::new(nonce_bytes(self@.worksize), |i: int| 1u8)
    }

    /// Starts setting up the device at position `gpu_id` of the platform at
    /// position `gpu_platform`, for at most `max_nonces_per_cache` nonces at
    /// once.
    pub fn new(
        gpu_platform: usize,
        gpu_id: usize,
        max_nonces_per_cache: usize,
        mapping: bool,
    ) -> (setup: ContextSetup)
        ensures
            setup == (ContextSetup {
                gpu_platform,
                gpu_id,
                max_nonces_per_cache,
                mapping,
                stage: ContextStage::Platforms,
            }),
            setup.valid(),
    {
        ContextSetup {
            gpu_platform,
            gpu_id,
            max_nonces_per_cache,
            mapping,
            stage: ContextStage::Platforms,
        }
    }
}

/// How far the setup of a context has come: what it waits for, or its end.
#[derive(Clone, Copy, Debug, PartialEq, Eq, Structural)]
pub enum ContextStage {
    /// The platforms are to be counted.
    Platforms,
    /// The devices of the platform are to be counted.
    Devices,
    /// A context, a queue and the kernel [`KERNEL_NAME`], built with
    /// [`BUILD_OPTIONS`], are to be created on the device, and the kernel's
    /// work-group size is to be asked for.
    WorkGroup,
    /// `count` buffers of `len` bytes each, to be read and written by kernels,
    /// are to be created on the device.
    Buffers { work_group_size: usize, count: u64, len: usize },
    /// All is there.
    Ready { work_group_size: usize },
    /// The setup cannot go on, and the program is to panic.
    Panicked(Fault),
}

/// A context that is being set up.
#[derive(Clone, Copy, Debug, PartialEq, Eq, Structural)]
pub struct ContextSetup {
    pub gpu_platform: usize,
    pub gpu_id: usize,
    pub max_nonces_per_cache: usize,
    pub mapping: bool,
    pub stage: ContextStage,
}

/// What is printed once the work-group size is known.
pub open spec fn nonces_text(max_nonces: usize) -> Seq<char> {
    "Debug: max_nonces_per_cache="@ + decimal(max_nonces as nat) + "\n"@
}

/// What is printed before the buffers are created.
pub open spec fn buffers_text(worksize: usize) -> Seq<char> {
    "Debug: worksize="@ + decimal(worksize as nat) + "\n"@ + "Creating Buffer..."@
}

impl ContextSetup {
    /// What a stage carries agrees with the sizes asked for.
    pub open spec fn valid(self) -> bool {
        match self.stage {
            ContextStage::Buffers { work_group_size, count, len } => {
                &&& work_group_size > 0
                &&& count == NUM_BUFFERS
                &&& len == nonce_bytes(work_size(work_group_size, self.max_nonces_per_cache))
            },
            ContextStage::Ready { work_group_size } => {
                &&& work_group_size > 0
                &&& nonce_bytes(work_size(work_group_size, self.max_nonces_per_cache)) <= isize::MAX
            },
            _ => true,
        }
    }

    /// Whether `reply` is an answer to what the setup waits for.
    pub open spec fn expects(self, reply: Reply) -> bool {
        match self.stage {
            ContextStage::Platforms => reply is Platforms,
            ContextStage::Devices => reply is Devices,
            ContextStage::WorkGroup => reply is WorkGroup,
            ContextStage::Buffers { .. } => reply is BuffersCreated,
            _ => false,
        }
    }

    /// The same setup at another stage.
    pub open spec fn at(self, stage: ContextStage) -> ContextSetup {
        ContextSetup { stage, ..self }
    }

    /// Where the setup stands after `reply`.
    pub open spec fn next_stage(self, reply: Reply) -> ContextStage {
        match (self.stage, reply) {
            (ContextStage::Platforms, Reply::Platforms(count)) => if self.gpu_platform < count {
                ContextStage::Devices
            } else {
                ContextStage::Panicked(Fault::PlatformIndex)
            },
            (ContextStage::Devices, Reply::Devices(count)) => if self.gpu_id < count {
                ContextStage::WorkGroup
            } else {
                ContextStage::Panicked(Fault::DeviceIndex)
            },
            (ContextStage::WorkGroup, Reply::WorkGroup(WorkGroupInfo::Other)) =>
                ContextStage::Panicked(Fault::WorkGroupInfo),
            (ContextStage::WorkGroup, Reply::WorkGroup(WorkGroupInfo::WorkGroupSize(size))) => {
                let len = nonce_bytes(work_size(size, self.max_nonces_per_cache));
                if size == 0 {
                    ContextStage::Panicked(Fault::WorkGroupSizeZero)
                } else if len > usize::MAX {
                    ContextStage::Panicked(Fault::BufferLength)
                } else {
                    ContextStage::Buffers {
                        work_group_size: size,
                        count: NUM_BUFFERS,
                        len: len as usize,
                    }
                }
            },
            (ContextStage::Buffers { work_group_size, len, .. }, Reply::BuffersCreated) => if len
                > isize::MAX {
                ContextStage::Panicked(Fault::HostBufferLength)
            } else {
                ContextStage::Ready { work_group_size }
            },
            _ => self.stage,
        }
    }

    /// The setup after `reply`.
    pub open spec fn after(self, reply: Reply) -> ContextSetup {
        self.at(self.next_stage(reply))
    }

    /// What is printed after `reply`.
    pub open spec fn output(self, reply: Reply) -> Seq<char> {
        match (self.stage, reply) {
            (ContextStage::WorkGroup, Reply::WorkGroup(WorkGroupInfo::WorkGroupSize(size))) =>
                if size == 0 {
                    nonces_text(self.max_nonces_per_cache)
                } else {
                    nonces_text(self.max_nonces_per_cache) + buffers_text(
                        work_size(size, self.max_nonces_per_cache),
                    )
                },
            (ContextStage::Buffers { len, .. }, Reply::BuffersCreated) => if len > isize::MAX {
                Seq::empty()
            } else {
                "OK\n"@
            },
            _ => Seq::empty(),
        }
    }

    /// The context that a setup which is ready stands for.
    pub open spec fn model(self) -> ContextModel
        recommends
            self.stage is Ready,
    {
        let work_group_size = self.stage->Ready_work_group_size;
        ContextModel {
            work_group_size,
            worksize: work_size(work_group_size, self.max_nonces_per_cache),
            mapping: self.mapping,
        }
    }

    /// Whether `reply` answers what the setup waits for.
    pub fn awaits(&self, reply: &Reply) -> (answers: bool)
        ensures
            answers == self.expects(*reply),
    {
        match (self.stage, reply) {
            (ContextStage::Platforms, Reply::Platforms(_)) => true,
            (ContextStage::Devices, Reply::Devices(_)) => true,
            (ContextStage::WorkGroup, Reply::WorkGroup(_)) => true,
            (ContextStage::Buffers { .. }, Reply::BuffersCreated) => true,
            _ => false,
        }
    }

    /// Takes in the driver's answer. The text is to be printed before the
    /// setup goes on.
    pub fn step(self, reply: Reply) -> (next: (ContextSetup, String))
        requires
            self.valid(),
            self.expects(reply),
        ensures
            next.0 == self.after(reply),
            next.0.valid(),
            next.1@ == self.output(reply),
    {
        let mut text: String = String::new();
        let stage: ContextStage = match (self.stage, reply) {
            (ContextStage::Platforms, Reply::Platforms(count)) => if self.gpu_platform < count {
                ContextStage::Devices
            } else {
                ContextStage::Panicked(Fault::PlatformIndex)
            },
            (ContextStage::Devices, Reply::Devices(count)) => if self.gpu_id < count {
                ContextStage::WorkGroup
            } else {
                ContextStage::Panicked(Fault::DeviceIndex)
            },
            (ContextStage::WorkGroup, Reply::WorkGroup(info)) => match info {
                WorkGroupInfo::Other => ContextStage::Panicked(Fault::WorkGroupInfo),
                WorkGroupInfo::WorkGroupSize(_) => {
                    let size: usize = get_kernel_work_group_size(info);
                    self.size_buffers(size, &mut text)
                },
            },
            (ContextStage::Buffers { work_group_size, len, .. }, Reply::BuffersCreated) => if len
                > isize::MAX as usize {
                ContextStage::Panicked(Fault::HostBufferLength)
            } else {
                text.append("OK\n");
                ContextStage::Ready { work_group_size }
            },
            (stage, _) => stage,
        };
        (ContextSetup { stage, ..self }, text)
    }

    /// Computes the length of the device buffers for groups of `size`.
    fn size_buffers(&self, size: usize, text: &mut String) -> (stage: ContextStage)
        requires
            old(text)@ == Seq::<char>::empty(),
            self.stage is WorkGroup,
        ensures
            ({
                let reply = Reply::WorkGroup(WorkGroupInfo::WorkGroupSize(size));
                &&& stage == self.next_stage(reply)
                &&& final(text)@ == self.output(reply)
            }),
    {
        text.append("Debug: max_nonces_per_cache=");
        append_decimal(text, self.max_nonces_per_cache as u64);
        text.append("\n");
        assert(text@ =~= nonces_text(self.max_nonces_per_cache));
        if size == 0 {
            return ContextStage::Panicked(Fault::WorkGroupSizeZero);
        }
        let worksize: usize = fit_work_size(size, self.max_nonces_per_cache);
        text.append("Debug: worksize=");
        append_decimal(text, worksize as u64);
        text.append("\n");
        text.append("Creating Buffer...");
        assert(text@ =~= nonces_text(self.max_nonces_per_cache) + buffers_text(worksize));
        match (NONCE_SIZE as usize).checked_mul(worksize) {
            None => ContextStage::Panicked(Fault::BufferLength),
            Some(len) => ContextStage::Buffers {
                work_group_size: size,
                count: NUM_BUFFERS,
                len,
            },
        }
    }

    /// The context, once all is there.
    pub fn finish(self) -> (context: GpuContext)
        requires
            self.valid(),
            self.stage is Ready,
        ensures
            context.wf(),
            context@ == self.model(),
    {
        match self.stage {
            ContextStage::Ready { work_group_size } => {
                let worksize: usize = fit_work_size(work_group_size, self.max_nonces_per_cache);
                let len: usize = NONCE_SIZE as usize * worksize;
                let buffer_host_a: Vec<u8> = vec![1u8; len];
                assert(buffer_host_a@ =~= Seq::new(nonce_bytes(worksize), |i: int| 1u8));
                GpuContext {
                    ldim1: [work_group_size, 1, 1],
                    gdim1: [worksize, 1, 1],
                    mapping: self.mapping,
                    buffer_host_a,
                    worksize,
                }
            },
            _ => vstd::pervasive::unreached(),
        }
    }
}

/// Cuts `max_nonces` down to whole groups.
pub fn fit_work_size(work_group_size: usize, max_nonces: usize) -> (worksize: usize)
    requires
        work_group_size > 0,
    ensures
        worksize == work_size(work_group_size, max_nonces),
        worksize <= max_nonces < worksize + work_group_size,
        worksize % work_group_size == 0,
{
    proof {
        law_work_size_fits(work_group_size, max_nonces);
    }
    let workgroup_count: usize = max_nonces / work_group_size;
    work_group_size * workgroup_count
}

/// The work size is made of whole groups, never exceeds the nonces asked for,
/// and leaves out less than one group.
pub proof fn law_work_size_fits(work_group_size: usize, max_nonces: usize)
    requires
        work_group_size > 0,
    ensures
        work_size(work_group_size, max_nonces) == work_group_size * (max_nonces / work_group_size),
        work_size(work_group_size, max_nonces) % work_group_size == 0,
        work_size(work_group_size, max_nonces) <= max_nonces,
        max_nonces < work_size(work_group_size, max_nonces) + work_group_size,
{
    let w = work_group_size as int;
    let m = max_nonces as int;
    vstd::arithmetic::div_mod::lemma_fundamental_div_mod(m, w);
    assert(0 <= w * (m / w)) by (nonlinear_arith)
        requires
            w > 0,
            m >= 0,
    ;
    vstd::arithmetic::div_mod::lemma_mod_multiples_basic(m / w, w);
    assert((m / w) * w == w * (m / w)) by (nonlinear_arith);
}

/// Four answers settle a setup. It comes to a context exactly where the platform
/// and the device are listed, groups are not empty, and the nonces of a run fit
/// in host memory; the context then has whole groups of the size that the
/// driver gave, and the mapping that was asked for.
pub proof fn law_context_from_answers(
    setup: ContextSetup,
    platforms: usize,
    devices: usize,
    info: WorkGroupInfo,
)
    requires
        setup.stage is Platforms,
    ensures
        ({
            let last = setup.after(Reply::Platforms(platforms)).after(
                Reply::Devices(devices),
            ).after(Reply::WorkGroup(info)).after(Reply::BuffersCreated);
            &&& last.stage is Ready <==> {
                &&& setup.gpu_platform < platforms
                &&& setup.gpu_id < devices
                &&& info matches WorkGroupInfo::WorkGroupSize(size) && size > 0 && nonce_bytes(
                    work_size(size, setup.max_nonces_per_cache),
                ) <= isize::MAX
            }
            &&& last.stage is Ready ==> last.valid() && last.model() == (ContextModel {
                work_group_size: info->WorkGroupSize_0,
                worksize: work_size(info->WorkGroupSize_0, setup.max_nonces_per_cache),
                mapping: setup.mapping,
            })
            &&& last.stage is Ready || last.stage is Panicked
        }),
{
}

/// A nonce takes up 262144 bytes, and so does each further one.
pub proof fn law_bytes_for_nonces(nonces: usize)
    ensures
        nonce_bytes(nonces) == 262144 * nonces,
        nonce_bytes(0) == 0,
        nonces < usize::MAX ==> nonce_bytes((nonces + 1) as usize) == nonce_bytes(nonces) + 262144,
{
}

/// The kernel and the way in which it is built.
pub proof fn law_kernel()
    ensures
        KERNEL_NAME@ == "calculate_nonces"@,
        BUILD_OPTIONS@ == ""@,
{
}

/// The work size is the only multiple of the group size that is at most the
/// limit and less than one group below it.
pub proof fn law_work_size_unique(work_group_size: usize, max_nonces: usize, worksize: usize)
    requires
        work_group_size > 0,
        worksize % work_group_size == 0,
        worksize <= max_nonces < worksize + work_group_size,
    ensures
        work_size(work_group_size, max_nonces) == worksize,
{
    let w = work_group_size as int;
    let q = worksize as int / w;
    vstd::arithmetic::div_mod::lemma_fundamental_div_mod(worksize as int, w);
    assert(q * w == w * q) by (nonlinear_arith);
    vstd::arithmetic::div_mod::lemma_fundamental_div_mod_converse(
        max_nonces as int,
        w,
        q,
        max_nonces - worksize,
    );
    law_work_size_fits(work_group_size, max_nonces);
}

/// A well-formed context computes as many nonces in a run as it has work items,
/// in one dimension and in whole groups, and holds 262144 bytes of host memory
/// for each of them, all of them one.
pub proof fn law_context_shape(context: GpuContext)
    requires
        context.wf(),
    ensures
        context.gdim1@ == seq![context.worksize, 1usize, 1usize],
        context.ldim1@ == seq![context.ldim1[0], 1usize, 1usize],
        context.ldim1[0] > 0,
        context.worksize % context.ldim1[0] == 0,
        context.buffer_host_a@.len() == 262144 * context.worksize,
        forall|i: int|
            0 <= i < context.buffer_host_a@.len() ==> #[trigger] context.buffer_host_a@[i] == 1,
        context@.work_group_size == context.ldim1[0],
        context@.worksize == context.worksize,
        context@.mapping == context.mapping,
{
    assert(context.gdim1@ =~= seq![context.worksize, 1usize, 1usize]);
    assert(context.ldim1@ =~= seq![context.ldim1[0], 1usize, 1usize]);
}

/// Each stage waits for one kind of answer, and a setup that has ended waits
/// for none.
pub proof fn law_context_waits_for(setup: ContextSetup, reply: Reply)
    ensures
        setup.expects(reply) <==> {
            ||| setup.stage is Platforms && reply is Platforms
            ||| setup.stage is Devices && reply is Devices
            ||| setup.stage is WorkGroup && reply is WorkGroup
            ||| setup.stage is Buffers && reply is BuffersCreated
        },
{
}

/// An answer moves a setup to another stage and changes nothing that was asked
/// for.
pub proof fn law_context_keeps_request(setup: ContextSetup, reply: Reply)
    ensures
        setup.after(reply).gpu_platform == setup.gpu_platform,
        setup.after(reply).gpu_id == setup.gpu_id,
        setup.after(reply).max_nonces_per_cache == setup.max_nonces_per_cache,
        setup.after(reply).mapping == setup.mapping,
{
}

/// The platform, and then the device, have to be among those that are counted.
/// Nothing is printed of that.
pub proof fn law_context_positions(setup: ContextSetup, count: usize)
    ensures
        setup.stage is Platforms ==> {
            let next = setup.after(Reply::Platforms(count));
            &&& setup.gpu_platform < count <==> next.stage == ContextStage::Devices
            &&& setup.gpu_platform >= count <==> next.stage == ContextStage::Panicked(
                Fault::PlatformIndex,
            )
            &&& setup.output(Reply::Platforms(count)).len() == 0
        },
        setup.stage is Devices ==> {
            let next = setup.after(Reply::Devices(count));
            &&& setup.gpu_id < count <==> next.stage == ContextStage::WorkGroup
            &&& setup.gpu_id >= count <==> next.stage == ContextStage::Panicked(Fault::DeviceIndex)
            &&& setup.output(Reply::Devices(count)).len() == 0
        },
{
}

/// Another answer than a group size, or a group size of zero, ends the setup;
/// for zero the limit was printed before.
pub proof fn law_context_without_groups(setup: ContextSetup)
    requires
        setup.stage is WorkGroup,
    ensures
        ({
            let other = Reply::WorkGroup(WorkGroupInfo::Other);
            &&& setup.after(other).stage == ContextStage::Panicked(Fault::WorkGroupInfo)
            &&& setup.output(other).len() == 0
        }),
        ({
            let zero = Reply::WorkGroup(WorkGroupInfo::WorkGroupSize(0));
            &&& setup.after(zero).stage == ContextStage::Panicked(Fault::WorkGroupSizeZero)
            &&& setup.output(zero) == "Debug: max_nonces_per_cache="@ + decimal(
                setup.max_nonces_per_cache as nat,
            ) + "\n"@
        }),
{
}

/// With groups of `size`, and `worksize` the limit cut down to whole groups, two
/// device buffers of 262144 bytes for each work item are asked for, unless that
/// length is out of range; the limit and the work size are printed.
pub proof fn law_context_buffers(setup: ContextSetup, size: usize, worksize: usize)
    requires
        setup.stage is WorkGroup,
        size > 0,
        worksize % size == 0,
        worksize <= setup.max_nonces_per_cache < worksize + size,
    ensures
        ({
            let reply = Reply::WorkGroup(WorkGroupInfo::WorkGroupSize(size));
            let next = setup.after(reply);
            &&& 262144 * worksize <= usize::MAX ==> next.stage == (ContextStage::Buffers {
                work_group_size: size,
                count: 2,
                len: (262144 * worksize) as usize,
            })
            &&& 262144 * worksize > usize::MAX ==> next.stage == ContextStage::Panicked(
                Fault::BufferLength,
            )
            &&& setup.output(reply) == "Debug: max_nonces_per_cache="@ + decimal(
                setup.max_nonces_per_cache as nat,
            ) + "\n"@ + ("Debug: worksize="@ + decimal(worksize as nat) + "\n"@
                + "Creating Buffer..."@)
        }),
{
    law_work_size_unique(size, setup.max_nonces_per_cache, worksize);
}

/// Once the buffers are there, the context is ready, unless the host buffer is
/// longer than any allocation; "OK" is printed for the former only.
pub proof fn law_context_ready(setup: ContextSetup)
    requires
        setup.stage is Buffers,
    ensures
        ({
            let next = setup.after(Reply::BuffersCreated);
            let text = setup.output(Reply::BuffersCreated);
            &&& setup.stage->Buffers_len <= isize::MAX ==> next.stage == (ContextStage::Ready {
                work_group_size: setup.stage->Buffers_work_group_size,
            }) && text == "OK\n"@
            &&& setup.stage->Buffers_len > isize::MAX ==> next.stage == ContextStage::Panicked(
                Fault::HostBufferLength,
            ) && text.len() == 0
        }),
{
}

/// The context of a setup that is ready: groups of the size that the driver
/// gave, the limit cut down to whole groups, the mapping that was asked for,
/// and room for that many nonces.
pub proof fn law_context_model(setup: ContextSetup, worksize: usize)
    requires
        setup.valid(),
        setup.stage is Ready,
        worksize % setup.stage->Ready_work_group_size == 0,
        worksize <= setup.max_nonces_per_cache < worksize + setup.stage->Ready_work_group_size,
    ensures
        setup.model().work_group_size == setup.stage->Ready_work_group_size,
        setup.model().worksize == worksize,
        setup.model().mapping == setup.mapping,
        262144 * worksize <= isize::MAX,
{
    law_work_size_unique(
        setup.stage->Ready_work_group_size,
        setup.max_nonces_per_cache,
        worksize,
    );
}

} // verus!
