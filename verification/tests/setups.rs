use ocl_plotter::driver::{Fault, MemoryInfo, Reply, WorkGroupInfo};
use ocl_plotter::init::{GpuInit, Stage};
use ocl_plotter::listing::InfoAnswer;
use ocl_plotter::selector::{Selector, SelectorError};
use ocl_plotter::gpu_init;

fn gpus(selectors: &[&str]) -> Vec<String> {
    selectors.iter().map(|s| s.to_string()).collect()
}

fn info(s: &str) -> InfoAnswer {
    InfoAnswer::Info(s.to_string())
}

fn feed(init: &mut GpuInit, reply: Reply) -> String {
    assert!(init.awaits(&reply));
    init.step(reply)
}

fn describe() -> Reply {
    Reply::Description { vendor: info("AMD"), name: info("Vega"), compute_units: info("56") }
}

/// Two platforms, the second with two devices of 64 MiB and groups of 8.
fn answer(init: &GpuInit) -> Option<Reply> {
    let replies = vec![
        Reply::Platforms(2),
        Reply::Devices(2),
        Reply::Memory(MemoryInfo::GlobalMemSize(64 << 20)),
        describe(),
        Reply::WorkGroup(WorkGroupInfo::WorkGroupSize(8)),
        Reply::BuffersCreated,
    ];
    replies.into_iter().find(|reply| init.awaits(reply))
}

fn run(init: &mut GpuInit) -> (usize, String) {
    let mut steps = 0;
    let mut printed = String::new();
    while let Some(reply) = answer(init) {
        printed.push_str(&init.step(reply));
        steps += 1;
    }
    (steps, printed)
}

const CONTEXT: &str =
    "Debug: max_nonces_per_cache=32\nDebug: worksize=32\nCreating Buffer...OK\n";

#[test]
fn nothing_selected() {
    let selectors = gpus(&[]);
    let init = gpu_init(&selectors, false);
    assert_eq!(init.stage, Stage::Done);
    assert_eq!(init.contexts.len(), 0);
}

#[test]
fn devices_are_set_up_in_order() {
    let selectors = gpus(&["1:1", "1:0:x"]);
    let mut init = gpu_init(&selectors, false);
    let (steps, printed) = run(&mut init);
    assert_eq!(init.stage, Stage::Done);
    assert_eq!(steps, 16);
    assert_eq!(init.contexts.len(), 2);
    for context in init.contexts.iter() {
        assert_eq!(context.worksize, 32);
        assert_eq!(context.ldim1, [8, 1, 1]);
        assert!(!context.mapping);
    }
    let line = "GPU: AMD - Vega [RAM=64MiB, Cores=56]\n";
    assert_eq!(printed, format!("{}{}{}{}", line, CONTEXT, line, CONTEXT));
}

#[test]
fn quiet_setups_describe_nothing() {
    let selectors = gpus(&["1:1", "1:0"]);
    let mut init = gpu_init(&selectors, true);
    let (steps, printed) = run(&mut init);
    assert_eq!(init.stage, Stage::Done);
    assert_eq!(steps, 14);
    assert_eq!(init.contexts.len(), 2);
    assert_eq!(init.contexts[1].worksize, 32);
    assert_eq!(printed, format!("{}{}", CONTEXT, CONTEXT));
}

#[test]
fn the_selected_device_is_asked() {
    let selectors = gpus(&["3:5"]);
    let selector = Selector { platform: 3, device: 5 };
    let mut init = gpu_init(&selectors, false);
    assert_eq!(init.stage, Stage::Platforms(selector));
    feed(&mut init, Reply::Platforms(4));
    assert_eq!(init.stage, Stage::Devices(selector));
    feed(&mut init, Reply::Devices(6));
    assert_eq!(init.stage, Stage::Memory(selector));
    feed(&mut init, Reply::Memory(MemoryInfo::GlobalMemSize(4194303)));
    assert_eq!(init.stage, Stage::Description { selector, memory: 4194303 });
    let text = feed(
        &mut init,
        Reply::Description {
            vendor: InfoAnswer::Failed { status: Some(-19), message: "m".to_string() },
            name: InfoAnswer::Failed { status: None, message: "no name".to_string() },
            compute_units: info("2"),
        },
    );
    assert_eq!(text, "GPU: Not available - no name [RAM=3MiB, Cores=2]\n");
    match init.stage {
        Stage::Context(setup) => {
            assert_eq!((setup.gpu_platform, setup.gpu_id), (3, 5));
            assert_eq!(setup.max_nonces_per_cache, 1);
            assert!(!setup.mapping);
        }
        _ => panic!("no context is being set up"),
    }
}

#[test]
fn missing_platform() {
    let selectors = gpus(&["2:0"]);
    let mut init = gpu_init(&selectors, false);
    let text = feed(&mut init, Reply::Platforms(2));
    assert_eq!(text, "Error: Selected OpenCL platform doesn't exist.\nShutting down...\n");
    assert_eq!(init.stage, Stage::Exit);
}

#[test]
fn missing_device() {
    let selectors = gpus(&["1:2"]);
    let mut init = gpu_init(&selectors, false);
    feed(&mut init, Reply::Platforms(2));
    let text = feed(&mut init, Reply::Devices(2));
    assert_eq!(text, "Error: Selected OpenCL device doesn't exist\nShutting down...\n");
    assert_eq!(init.stage, Stage::Exit);
}

#[test]
fn the_first_that_fails_ends_the_setup() {
    let selectors = gpus(&["1:0", "0", "1:1"]);
    let mut init = gpu_init(&selectors, true);
    let (steps, printed) = run(&mut init);
    assert_eq!(steps, 7);
    assert_eq!(printed, CONTEXT);
    assert_eq!(init.contexts.len(), 1);
    assert_eq!(init.stage, Stage::Panicked(Fault::Selector(SelectorError::MissingDevice)));
}

#[test]
fn faults_end_the_setup() {
    let selectors = gpus(&["a:0"]);
    let init = gpu_init(&selectors, true);
    assert_eq!(init.stage, Stage::Panicked(Fault::Selector(SelectorError::Platform)));
    assert!(!init.awaits(&Reply::Platforms(1)));

    let selectors = gpus(&["0:0"]);
    let mut init = gpu_init(&selectors, true);
    feed(&mut init, Reply::Platforms(1));
    feed(&mut init, Reply::Devices(1));
    assert_eq!(feed(&mut init, Reply::Memory(MemoryInfo::Other)), "");
    assert_eq!(init.stage, Stage::Panicked(Fault::MemoryInfo));

    let mut init = gpu_init(&selectors, true);
    feed(&mut init, Reply::Platforms(1));
    feed(&mut init, Reply::Devices(1));
    feed(&mut init, Reply::Memory(MemoryInfo::GlobalMemSize(1 << 30)));
    feed(&mut init, Reply::Platforms(0));
    assert_eq!(init.stage, Stage::Panicked(Fault::PlatformIndex));
    assert_eq!(init.contexts.len(), 0);
}
