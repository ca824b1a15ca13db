use ocl_plotter::listing::{
    DeviceEntry, InfoAnswer, PlatformEntry, CL_KERNEL_ARG_INFO_NOT_AVAILABLE,
};
use ocl_plotter::platform_info;

fn info(s: &str) -> InfoAnswer {
    InfoAnswer::Info(s.to_string())
}

fn failed(status: Option<i32>, message: &str) -> InfoAnswer {
    InfoAnswer::Failed { status, message: message.to_string() }
}

#[test]
fn answers_as_shown() {
    assert_eq!(info("GeForce").text(), "GeForce");
    assert_eq!(failed(Some(-30), "invalid value").text(), "invalid value");
    assert_eq!(failed(None, "no string").text(), "no string");
    assert_eq!(CL_KERNEL_ARG_INFO_NOT_AVAILABLE, -19);
    assert_eq!(failed(Some(-19), "kernel arg info").text(), "Not available");
}

#[test]
fn no_platforms() {
    let report = platform_info(&Vec::new());
    assert_eq!(report.lines, Vec::<String>::new());
    assert_eq!(report.failed, None);
}

#[test]
fn platforms_with_their_devices() {
    let platforms = vec![
        PlatformEntry {
            name: info("NVIDIA CUDA"),
            version: info("OpenCL 1.2"),
            devices: Some(vec![
                DeviceEntry { vendor: info("NVIDIA"), name: info("GTX 1080") },
                DeviceEntry { vendor: info("NVIDIA"), name: failed(Some(-19), "x") },
            ]),
        },
        PlatformEntry { name: failed(None, "gone"), version: info("2.0"), devices: Some(vec![]) },
        PlatformEntry {
            name: info("pocl"),
            version: info("3.0"),
            devices: Some(vec![DeviceEntry { vendor: info("a"), name: info("b") }]),
        },
    ];
    let report = platform_info(&platforms);
    assert_eq!(report.failed, None);
    assert_eq!(
        report.lines,
        vec![
            "OCL: platform 0, NVIDIA CUDA - OpenCL 1.2",
            "OCL: device 0, NVIDIA - GTX 1080",
            "OCL: device 1, NVIDIA - Not available",
            "OCL: platform 1, gone - 2.0",
            "OCL: platform 2, pocl - 3.0",
            "OCL: device 0, a - b",
        ]
    );
}

#[test]
fn a_platform_whose_devices_cannot_be_listed_is_the_last() {
    let entry = |name: &str, devices: Option<Vec<DeviceEntry>>| PlatformEntry {
        name: info(name),
        version: info("1.2"),
        devices,
    };
    let device = || DeviceEntry { vendor: info("v"), name: info("n") };
    let platforms = vec![
        entry("p", Some(vec![device()])),
        entry("q", None),
        entry("r", Some(vec![device()])),
    ];
    let report = platform_info(&platforms);
    assert_eq!(report.failed, Some(1));
    assert_eq!(
        report.lines,
        vec!["OCL: platform 0, p - 1.2", "OCL: device 0, v - n", "OCL: platform 1, q - 1.2"]
    );
}
