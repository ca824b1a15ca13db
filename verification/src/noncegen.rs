//! Computing nonces: the commands that a device is given.
use std::sync::Arc;

use vstd::prelude::*;

use crate::context::GpuContext;

verus! {

/// The number of the last hash of a nonce; the first has number zero.
pub const LAST_HASH: usize = 8192;

/// Hashes that one enqueued kernel computes; the last one computes one more.
pub const HASHES_PER_RUN: usize = 32;

/// A value that is passed to the kernel.
#[derive(Clone, Copy, Debug, PartialEq, Eq)]
pub enum KernelArg {
    /// The first device buffer.
    BufferGpuA,
    /// A number, as the host stores it.
    U64(u64),
    /// Eight bytes, in this order in memory.
    Bytes([u8; 8]),
    /// A number, as the host stores it.
    I32(i32),
}

/// A command to a device.
#[derive(Clone, Copy, Debug, PartialEq, Eq)]
pub enum Command {
    /// Sets the kernel's argument at position `index`.
    SetKernelArg { index: u32, value: KernelArg },
    /// Enqueues the kernel over `work_dims` dimensions, without an offset.
    EnqueueKernel { work_dims: u32, global_work_dims: [usize; 3], local_work_dims: [usize; 3] },
    /// Waits until all that was enqueued is done, whether or not that works.
    Finish,
}

/// The eight bytes of `n`, the most significant first.
pub open spec fn big_endian(n: u64) -> [u8; 8] {
    [
        (n / 0x100_0000_0000_0000) as u8,
        (n / 0x1_0000_0000_0000 % 256) as u8,
        (n / 0x100_0000_0000 % 256) as u8,
        (n / 0x1_0000_0000 % 256) as u8,
        (n / 0x100_0000 % 256) as u8,
        (n / 0x1_0000 % 256) as u8,
        (n / 0x100 % 256) as u8,
        (n % 256) as u8,
    ]
}

/// The number whose bytes are `bytes`, the most significant first.
pub open spec fn big_endian_value(bytes: Seq<u8>) -> nat
    decreases bytes.len(),
{
    if bytes.len() == 0 {
        0
    } else {
        256 * big_endian_value(bytes.drop_last()) + bytes.last() as nat
    }
}

/// The number of kernels that are enqueued.
pub open spec fn run_count() -> nat {
    (LAST_HASH / HASHES_PER_RUN) as nat
}

/// The number of the first hash of a run.
pub open spec fn run_start(run: int) -> int {
    run * HASHES_PER_RUN
}

/// The number of the last hash of a run: the one before the next run, or the
/// last of all.
pub open spec fn run_end(run: int) -> int {
    if run == run_count() - 1 {
        LAST_HASH as int
    } else {
        run_start(run + 1) - 1
    }
}

/// The commands that every run shares, given once before the first.
pub open spec fn opening_commands(numeric_id: u64, local_startnonce: u64) -> Seq<Command> {
    seq![
        Command::SetKernelArg { index: 0, value: KernelArg::BufferGpuA },
        Command::SetKernelArg { index: 1, value: KernelArg::U64(local_startnonce) },
        Command::SetKernelArg { index: 2, value: KernelArg::Bytes(big_endian(numeric_id)) },
    ]
}

/// The commands of a run: its hashes are set, and it is carried through.
pub open spec fn run_commands(run: int, gdim1: [usize; 3], ldim1: [usize; 3]) -> Seq<Command> {
    seq![
        Command::SetKernelArg { index: 3, value: KernelArg::I32(run_start(run) as i32) },
        Command::SetKernelArg { index: 4, value: KernelArg::I32(run_end(run) as i32) },
        Command::EnqueueKernel {
            work_dims: 1,
            global_work_dims: gdim1,
            local_work_dims: ldim1,
        },
        Command::Finish,
    ]
}

/// The commands of the first `runs` runs.
pub open spec fn runs_commands(runs: nat, gdim1: [usize; 3], ldim1: [usize; 3]) -> Seq<Command>
    decreases runs,
{
    if runs == 0 {
        Seq::empty()
    } else {
        runs_commands((runs - 1) as nat, gdim1, ldim1) + run_commands(runs - 1, gdim1, ldim1)
    }
}

/// The bytes of `n`, the most significant first.
fn to_big_endian(n: u64) -> (bytes: [u8; 8])
    ensures
        bytes == big_endian(n),
{
    [
        (n / 0x100_0000_0000_0000) as u8,
        (n / 0x1_0000_0000_0000 % 256) as u8,
        (n / 0x100_0000_0000 % 256) as u8,
        (n / 0x1_0000_0000 % 256) as u8,
        (n / 0x100_0000 % 256) as u8,
        (n / 0x1_0000 % 256) as u8,
        (n / 0x100 % 256) as u8,
        (n % 256) as u8,
    ]
}

/// The commands that have the device of `gpu_context` compute a run's worth of
/// nonces from `local_startnonce` on for the account `numeric_id`.
///
/// The size of the cache, the offset into it and the number of nonces wanted
/// do not change them: as many nonces are computed as the context holds.
pub fn noncegen_gpu(
    cache_size: u64,
    chunk_offset: u64,
    numeric_id: u64,
    local_startnonce: u64,
    local_nonces: u64,
    gpu_context: Arc<GpuContext>,
) -> (commands: Vec<Command>)
    ensures
        commands@ == opening_commands(numeric_id, local_startnonce) + runs_commands(
            run_count(),
            gpu_context.gdim1,
            gpu_context.ldim1,
        ),
        commands@.len() == 1027,
        commands@[1] == (Command::SetKernelArg {
            index: 1,
            value: KernelArg::U64(local_startnonce),
        }),
        commands@[2] matches Command::SetKernelArg { value: KernelArg::Bytes(bytes), .. }
            && big_endian_value(bytes@) == numeric_id,
{
    let numeric_id_be: [u8; 8] = to_big_endian(numeric_id);
    let mut commands: Vec<Command> = Vec::new();
    commands.push(Command::SetKernelArg { index: 0, value: KernelArg::BufferGpuA });
    commands.push(Command::SetKernelArg { index: 1, value: KernelArg::U64(local_startnonce) });
    commands.push(Command::SetKernelArg { index: 2, value: KernelArg::Bytes(numeric_id_be) });
    let ghost opening = opening_commands(numeric_id, local_startnonce);
    let mut i: usize = 0;
    let ghost mut run: nat = 0;
    assert(commands@ =~= opening + runs_commands(0, gpu_context.gdim1, gpu_context.ldim1));
    while i < LAST_HASH
        invariant
            i == run_start(run as int),
            run <= run_count(),
            commands@ == opening + runs_commands(run, gpu_context.gdim1, gpu_context.ldim1),
        decreases LAST_HASH - i,
    {
        let start: usize = i;
        let end: usize = if i + HASHES_PER_RUN < LAST_HASH {
            i + HASHES_PER_RUN - 1
        } else {
            i + HASHES_PER_RUN
        };
        let ghost before = commands@;
        commands.push(Command::SetKernelArg { index: 3, value: KernelArg::I32(start as i32) });
        commands.push(Command::SetKernelArg { index: 4, value: KernelArg::I32(end as i32) });
        commands.push(
            Command::EnqueueKernel {
                work_dims: 1,
                global_work_dims: gpu_context.gdim1,
                local_work_dims: gpu_context.ldim1,
            },
        );
        commands.push(Command::Finish);
        assert(commands@ =~= before + run_commands(
            run as int,
            gpu_context.gdim1,
            gpu_context.ldim1,
        ));
        proof {
            run = run + 1;
        }
        assert(commands@ =~= opening + runs_commands(run, gpu_context.gdim1, gpu_context.ldim1));
        i = i + HASHES_PER_RUN;
    }
    proof {
        law_commands_by_position(run, gpu_context.gdim1, gpu_context.ldim1);
        law_big_endian_round_trip(numeric_id);
    }
    commands
}

/// The runs cover the hashes of a nonce in order: the first run starts at hash
/// zero, each starts at the hash after the last of the one before it, the last
/// run ends at the last hash, and none is empty. So every hash is computed in
/// exactly one run.
pub proof fn law_runs_cover_each_hash_once(hash: int)
    requires
        0 <= hash <= LAST_HASH,
    ensures
        run_start(0) == 0,
        run_end(run_count() - 1) == LAST_HASH,
        forall|run: int|
            0 <= run < run_count() - 1 ==> #[trigger] run_start(run + 1) == run_end(run) + 1,
        forall|run: int| 0 <= run < run_count() ==> #[trigger] run_start(run) < run_end(run),
        exists|run: int|
            0 <= run < run_count() && #[trigger] run_start(run) <= hash <= run_end(run),
        forall|a: int, b: int|
            0 <= a < run_count() && 0 <= b < run_count() && #[trigger] run_start(a) <= hash
                <= run_end(a) && #[trigger] run_start(b) <= hash <= run_end(b) ==> a == b,
{
    let run = if hash == LAST_HASH {
        run_count() - 1
    } else {
        hash / HASHES_PER_RUN as int
    };
    assert(run_start(run) <= hash <= run_end(run));
}

/// The commands come in runs of four after the three that open them, each run
/// with its own hashes, and each kernel is waited for before the next is set
/// up.
pub proof fn law_commands_by_position(runs: nat, gdim1: [usize; 3], ldim1: [usize; 3])
    ensures
        runs_commands(runs, gdim1, ldim1).len() == 4 * runs,
        forall|run: int, k: int|
            0 <= run < runs && 0 <= k < 4 ==> runs_commands(runs, gdim1, ldim1)[4 * run + k]
                == #[trigger] run_commands(run, gdim1, ldim1)[k],
    decreases runs,
{
    if runs > 0 {
        law_commands_by_position((runs - 1) as nat, gdim1, ldim1);
    }
}

/// The bytes of the account number stand for it, the most significant first.
pub proof fn law_big_endian_round_trip(n: u64)
    ensures
        big_endian_value(big_endian(n)@) == n,
{
    let b = big_endian(n)@;
    assert(b.len() == 8);
    assert((n / 0x100_0000_0000_0000) < 256) by (bit_vector);
    assert(n == 256 * (n / 0x100) + n % 256);
    assert(n / 0x100 == 256 * (n / 0x1_0000) + n / 0x100 % 256) by (bit_vector);
    assert(n / 0x1_0000 == 256 * (n / 0x100_0000) + n / 0x1_0000 % 256) by (bit_vector);
    assert(n / 0x100_0000 == 256 * (n / 0x1_0000_0000) + n / 0x100_0000 % 256) by (bit_vector);
    assert(n / 0x1_0000_0000 == 256 * (n / 0x100_0000_0000) + n / 0x1_0000_0000 % 256)
        by (bit_vector);
    assert(n / 0x100_0000_0000 == 256 * (n / 0x1_0000_0000_0000) + n / 0x100_0000_0000 % 256)
        by (bit_vector);
    assert(n / 0x1_0000_0000_0000 == 256 * (n / 0x100_0000_0000_0000) + n / 0x1_0000_0000_0000
        % 256) by (bit_vector);
    assert forall|k: int| 1 <= k <= 8 implies #[trigger] b.take(k).drop_last() == b.take(k - 1) by {
        assert(b.take(k).drop_last() =~= b.take(k - 1));
    }
    assert(b.take(8) =~= b);
    assert(big_endian_value(b.take(0)) == 0);
    assert(big_endian_value(b.take(1)) == n / 0x100_0000_0000_0000);
    assert(big_endian_value(b.take(2)) == n / 0x1_0000_0000_0000);
    assert(big_endian_value(b.take(3)) == n / 0x100_0000_0000);
    assert(big_endian_value(b.take(4)) == n / 0x1_0000_0000);
    assert(big_endian_value(b.take(5)) == n / 0x100_0000);
    assert(big_endian_value(b.take(6)) == n / 0x1_0000);
    assert(big_endian_value(b.take(7)) == n / 0x100);
}

/// What every run shares is set once, before the first kernel is enqueued: the
/// buffer, the start nonce as it is given, and the account number with its most
/// significant byte first.
pub proof fn law_opening(numeric_id: u64, local_startnonce: u64)
    ensures
        ({
            let opening = opening_commands(numeric_id, local_startnonce);
            &&& opening.len() == 3
            &&& opening[0] == (Command::SetKernelArg { index: 0, value: KernelArg::BufferGpuA })
            &&& opening[1] == (Command::SetKernelArg {
                index: 1,
                value: KernelArg::U64(local_startnonce),
            })
            &&& opening[2] matches Command::SetKernelArg { index, value: KernelArg::Bytes(b) }
                && index == 2 && numeric_id == 0x100_0000_0000_0000 * b[0] + 0x1_0000_0000_0000
                * b[1] + 0x100_0000_0000 * b[2] + 0x1_0000_0000 * b[3] + 0x100_0000 * b[4]
                + 0x1_0000 * b[5] + 0x100 * b[6] + b[7]
        }),
{
    let n = numeric_id;
    assert(n == 0x100_0000_0000_0000 * (n / 0x100_0000_0000_0000) + 0x1_0000_0000_0000 * (n
        / 0x1_0000_0000_0000 % 256) + 0x100_0000_0000 * (n / 0x100_0000_0000 % 256)
        + 0x1_0000_0000 * (n / 0x1_0000_0000 % 256) + 0x100_0000 * (n / 0x100_0000 % 256)
        + 0x1_0000 * (n / 0x1_0000 % 256) + 0x100 * (n / 0x100 % 256) + n % 256) by (bit_vector);
    assert((n / 0x100_0000_0000_0000) < 256) by (bit_vector);
}

/// There are 256 runs of 32 hashes, of which the last has one hash more, up to
/// number 8192. Each sets its first and its last hash, is enqueued with the
/// dimensions of the context, and is waited for.
pub proof fn law_runs(run: int, gdim1: [usize; 3], ldim1: [usize; 3])
    requires
        0 <= run < 256,
    ensures
        run_count() == 256,
        run_commands(run, gdim1, ldim1) == seq![
            Command::SetKernelArg { index: 3, value: KernelArg::I32((32 * run) as i32) },
            Command::SetKernelArg {
                index: 4,
                value: KernelArg::I32(
                    if run < 255 {
                        (32 * run + 31) as i32
                    } else {
                        8192
                    },
                ),
            },
            Command::EnqueueKernel {
                work_dims: 1,
                global_work_dims: gdim1,
                local_work_dims: ldim1,
            },
            Command::Finish,
        ],
{
}

/// A run sets no argument but its first and its last hash.
proof fn lemma_arguments_of_runs(runs: nat, gdim1: [usize; 3], ldim1: [usize; 3])
    ensures
        runs_commands(runs, gdim1, ldim1).len() == 4 * runs,
        forall|i: int|
            0 <= i < runs_commands(runs, gdim1, ldim1).len() ==> (#[trigger] runs_commands(
                runs,
                gdim1,
                ldim1,
            )[i] matches Command::SetKernelArg { index, .. } ==> index == 3 || index == 4),
    decreases runs,
{
    if runs > 0 {
        let before = runs_commands((runs - 1) as nat, gdim1, ldim1);
        let last = run_commands(runs - 1, gdim1, ldim1);
        lemma_arguments_of_runs((runs - 1) as nat, gdim1, ldim1);
        assert forall|i: int| 0 <= i < (before + last).len() implies (#[trigger] (before
            + last)[i] matches Command::SetKernelArg { index, .. } ==> index == 3 || index
            == 4) by {
            if i >= before.len() {
                assert((before + last)[i] == last[i - before.len()]);
            }
        }
    }
}

/// The whole list is the opening, of three commands, and 256 runs of four.
/// Nothing but the opening sets the buffer, the start nonce or the account
/// number, so each of them is set once, and before the first kernel is
/// enqueued.
pub proof fn law_whole_list(
    numeric_id: u64,
    local_startnonce: u64,
    gdim1: [usize; 3],
    ldim1: [usize; 3],
)
    ensures
        opening_commands(numeric_id, local_startnonce).len() == 3,
        runs_commands(run_count(), gdim1, ldim1).len() == 1024,
        forall|i: int|
            0 <= i < 1024 ==> (#[trigger] runs_commands(
                run_count(),
                gdim1,
                ldim1,
            )[i] matches Command::SetKernelArg { index, .. } ==> index == 3 || index == 4),
{
    lemma_arguments_of_runs(run_count(), gdim1, ldim1);
}

} // verus!
