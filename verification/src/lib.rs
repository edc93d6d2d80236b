//! DSHL, the launcher that prepares a JavaScript runtime, finds or installs
//! DeepSeek Harness, starts it and watches over it.
//!
//! This crate is the launcher's logic: every decision it takes, every command
//! line it builds and every text it reads, each with a contract.

pub mod cli;
pub mod config;
pub mod control;
pub mod debug;
pub mod flow;
pub mod i18n;
pub mod install;
pub mod message;
pub mod mirror;
pub mod native;
pub mod platform;
pub mod probe;
pub mod process;
pub mod progress;
pub mod text;
pub mod version;
