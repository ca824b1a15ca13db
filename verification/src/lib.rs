//! The decisions behind computing nonces on OpenCL devices.
//!
//! Nothing here talks to a driver. What does is written as plain data: what to
//! ask of the driver next, what its answer leads to, what to print, which
//! commands to give. Whoever holds the driver's handles carries that out.
//!
//! - [`listing`] lists platforms and devices;
//! - [`selector`] reads which device is meant;
//! - [`context`] sizes a context and sets it up on a device;
//! - [`init`] sets up every selected device, and [`session`] says what that
//!   comes to;
//! - [`noncegen`] gives the commands that compute nonces.
pub mod context;
pub mod driver;
pub mod init;
pub mod listing;
pub mod noncegen;
pub mod selector;
pub mod session;
pub mod text;

pub use context::GpuContext;
pub use driver::get_kernel_work_group_size;
pub use init::gpu_init;
pub use listing::platform_info;
pub use noncegen::noncegen_gpu;
