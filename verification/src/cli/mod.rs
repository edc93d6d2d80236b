//! The entry points of the launcher: its command line, the way a kernel is
//! booted, and the kernel that runs.

pub mod kernel;
pub mod options;
pub mod run;

pub use kernel::{try_kernel_lock, window_show, Kernel, KernelLock, RunHandle, Show};
pub use options::{RunOptions, RunOutcome};
pub use run::{parse_args, run_cli, run_with_options, Boot, Started, USAGE};
