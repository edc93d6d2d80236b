//! Child processes: what to start, and what to make of their output.

pub mod capture;
pub mod child;
pub mod command;
pub mod windows;

pub use capture::CommandResult;
pub use child::Output;
pub use command::{with_env, Cmd};
