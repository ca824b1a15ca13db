use ocl_plotter::context::{fit_work_size, ContextSetup, ContextStage, NONCE_SIZE, NUM_BUFFERS};
use ocl_plotter::driver::{get_kernel_work_group_size, Fault, MemoryInfo, Reply, WorkGroupInfo};
use ocl_plotter::init::max_nonces;
use ocl_plotter::GpuContext;

fn walk(setup: ContextSetup, replies: Vec<Reply>) -> (ContextSetup, String) {
    let mut setup = setup;
    let mut printed = String::new();
    for reply in replies {
        assert!(setup.awaits(&reply));
        let (next, text) = setup.step(reply);
        setup = next;
        printed.push_str(&text);
    }
    (setup, printed)
}

fn group(size: usize) -> Reply {
    Reply::WorkGroup(WorkGroupInfo::WorkGroupSize(size))
}

#[test]
fn a_nonce_takes_up_256_kibibytes() {
    assert_eq!(NONCE_SIZE, 2 << 17);
}

#[test]
fn work_group_size_of_an_answer() {
    assert_eq!(get_kernel_work_group_size(WorkGroupInfo::WorkGroupSize(256)), 256);
}

#[test]
fn work_sizes_are_whole_groups() {
    assert_eq!(fit_work_size(256, 2048), 2048);
    assert_eq!(fit_work_size(256, 2047), 1792);
    assert_eq!(fit_work_size(100, 250), 200);
    assert_eq!(fit_work_size(256, 255), 0);
    assert_eq!(fit_work_size(1, usize::MAX), usize::MAX);
}

#[test]
fn nonces_for_a_device() {
    assert_eq!(max_nonces(0), 0);
    assert_eq!(max_nonces(2097151), 0);
    assert_eq!(max_nonces(2097152), 1);
    assert_eq!(max_nonces(4 << 30), 2048);
    assert_eq!(max_nonces(8589934592 + 5), 4096);
}

#[test]
fn buffers_take_up_at_most_a_quarter_of_the_memory() {
    for memory in [0u64, 1 << 20, 3 << 30, 6442123264, u64::MAX] {
        for size in [1usize, 64, 100, 256, 1024] {
            let worksize = fit_work_size(size, max_nonces(memory)) as u64;
            assert!(NUM_BUFFERS * NONCE_SIZE * worksize <= memory / 4);
        }
    }
}

#[test]
fn a_context_is_set_up() {
    let setup = GpuContext::new(1, 0, 11, true);
    assert_eq!(setup.stage, ContextStage::Platforms);
    let (setup, printed) = walk(setup, vec![Reply::Platforms(2), Reply::Devices(1), group(4)]);
    assert_eq!(setup.stage, ContextStage::Buffers { work_group_size: 4, count: 2, len: 8 * 262144 });
    assert_eq!(
        printed,
        "Debug: max_nonces_per_cache=11\nDebug: worksize=8\nCreating Buffer..."
    );
    let (setup, printed) = walk(setup, vec![Reply::BuffersCreated]);
    assert_eq!(setup.stage, ContextStage::Ready { work_group_size: 4 });
    assert_eq!(printed, "OK\n");
    let context = setup.finish();
    assert_eq!(context.worksize, 8);
    assert_eq!(context.gdim1, [8, 1, 1]);
    assert_eq!(context.ldim1, [4, 1, 1]);
    assert!(context.mapping);
    assert_eq!(context.buffer_host_a.len(), 8 * 262144);
    assert!(context.buffer_host_a.iter().all(|b| *b == 1));
}

#[test]
fn setups_that_cannot_go_on() {
    let start = GpuContext::new(1, 2, 10, false);
    let (end, printed) = walk(start, vec![Reply::Platforms(1)]);
    assert_eq!(end.stage, ContextStage::Panicked(Fault::PlatformIndex));
    assert_eq!(printed, "");
    let (end, _) = walk(start, vec![Reply::Platforms(2), Reply::Devices(2)]);
    assert_eq!(end.stage, ContextStage::Panicked(Fault::DeviceIndex));
    let listed = |last: Reply| vec![Reply::Platforms(2), Reply::Devices(3), last];
    let (end, printed) = walk(start, listed(Reply::WorkGroup(WorkGroupInfo::Other)));
    assert_eq!(end.stage, ContextStage::Panicked(Fault::WorkGroupInfo));
    assert_eq!(printed, "");
    let (end, printed) = walk(start, listed(group(0)));
    assert_eq!(end.stage, ContextStage::Panicked(Fault::WorkGroupSizeZero));
    assert_eq!(printed, "Debug: max_nonces_per_cache=10\n");
    let huge = GpuContext::new(1, 2, usize::MAX, false);
    let (end, printed) = walk(huge, listed(group(1)));
    assert_eq!(end.stage, ContextStage::Panicked(Fault::BufferLength));
    assert!(printed.ends_with("\nCreating Buffer..."));
    let large = GpuContext::new(1, 2, isize::MAX as usize / 262144 + 1, false);
    let (end, _) = walk(large, listed(group(1)));
    assert_eq!(
        end.stage,
        ContextStage::Buffers { work_group_size: 1, count: 2, len: isize::MAX as usize + 1 }
    );
    let (end, printed) = walk(end, vec![Reply::BuffersCreated]);
    assert_eq!(end.stage, ContextStage::Panicked(Fault::HostBufferLength));
    assert_eq!(printed, "");
}

#[test]
fn only_answers_to_the_question_are_awaited() {
    let setup = GpuContext::new(0, 0, 1, false);
    assert!(setup.awaits(&Reply::Platforms(0)));
    assert!(!setup.awaits(&Reply::Devices(1)));
    assert!(!setup.awaits(&Reply::Memory(MemoryInfo::Other)));
    let (setup, _) = walk(setup, vec![Reply::Platforms(0)]);
    assert!(!setup.awaits(&Reply::Platforms(1)));
}
