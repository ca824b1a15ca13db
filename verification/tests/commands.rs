use std::sync::Arc;

use ocl_plotter::noncegen::{noncegen_gpu, Command, KernelArg, HASHES_PER_RUN, LAST_HASH};
use ocl_plotter::GpuContext;

fn context() -> Arc<GpuContext> {
    Arc::new(GpuContext {
        ldim1: [64, 1, 1],
        gdim1: [128, 1, 1],
        mapping: false,
        buffer_host_a: Vec::new(),
        worksize: 128,
    })
}

fn commands() -> Vec<Command> {
    noncegen_gpu(1, 2, 0x0102030405060708, 77, 5, context())
}

#[test]
fn arguments_shared_by_all_runs() {
    let commands = commands();
    assert_eq!(
        commands[..3],
        [
            Command::SetKernelArg { index: 0, value: KernelArg::BufferGpuA },
            Command::SetKernelArg { index: 1, value: KernelArg::U64(77) },
            Command::SetKernelArg {
                index: 2,
                value: KernelArg::Bytes([1, 2, 3, 4, 5, 6, 7, 8])
            },
        ]
    );
}

#[test]
fn account_numbers_are_passed_big_endian() {
    for id in [0u64, 1, 255, 256, 0xfedcba9876543210, u64::MAX] {
        match noncegen_gpu(0, 0, id, 0, 0, context())[2] {
            Command::SetKernelArg { index: 2, value: KernelArg::Bytes(bytes) } => {
                assert_eq!(u64::from_be_bytes(bytes), id);
                assert_eq!(u64::from_ne_bytes(bytes), id.to_be());
            }
            _ => panic!("no account number"),
        }
    }
}

#[test]
fn runs_of_a_nonce() {
    let commands = commands();
    assert_eq!(commands.len(), 3 + 4 * 256);
    let mut next = 0;
    for run in commands[3..].chunks(4) {
        let start = match run[0] {
            Command::SetKernelArg { index: 3, value: KernelArg::I32(start) } => start,
            _ => panic!("no start"),
        };
        let end = match run[1] {
            Command::SetKernelArg { index: 4, value: KernelArg::I32(end) } => end,
            _ => panic!("no end"),
        };
        assert_eq!(start, next);
        assert!(start < end);
        next = end + 1;
        assert_eq!(
            run[2],
            Command::EnqueueKernel {
                work_dims: 1,
                global_work_dims: [128, 1, 1],
                local_work_dims: [64, 1, 1],
            }
        );
        assert_eq!(run[3], Command::Finish);
    }
    assert_eq!(next, 8193);
}

#[test]
fn first_and_last_run() {
    let commands = commands();
    assert_eq!((HASHES_PER_RUN, LAST_HASH), (32, 8192));
    assert_eq!(commands[3], Command::SetKernelArg { index: 3, value: KernelArg::I32(0) });
    assert_eq!(commands[4], Command::SetKernelArg { index: 4, value: KernelArg::I32(31) });
    assert_eq!(commands[1023], Command::SetKernelArg { index: 3, value: KernelArg::I32(8160) });
    assert_eq!(commands[1024], Command::SetKernelArg { index: 4, value: KernelArg::I32(8192) });
}

#[test]
fn cache_and_nonce_count_do_not_matter() {
    assert_eq!(commands(), noncegen_gpu(9, 8, 0x0102030405060708, 77, 0, context()));
}
