//! Runtime installation and the fallback chain.
//!
//! Importance order (highest first): nodejs, bun, fnm, cargo, nvm.
//!   * nodejs is **required** (dsh runs on Node); min 24.15.0, we install 26.
//!   * bun is installed only when the config's `pm` asks for it.
//!   * node 26 is installed via fnm first, then `cargo install fnm`, then nvm,
//!     then a best-effort fnm auto-install into `~/.cache/bin`; if everything
//!     fails the user is told to install fnm manually.
//!
//! Each installer is a machine: at every stage it says what to do, and the
//! outcome moves it to its next stage.

pub mod bun;
pub mod download;
pub mod node;
pub mod nub;
pub mod pnpm;
pub mod runtime;
pub mod stream;

pub use runtime::Runtime;
