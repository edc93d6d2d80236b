//! Optional runtime logging to the terminal.
//!
//! It is enabled with `--debug`/`--verbose` or a non-empty `DSHL_LOG`
//! environment variable.

use vstd::prelude::*;

verus! {

/// Whether runtime lines are mirrored to the terminal.
#[derive(Debug, Clone, Copy, PartialEq, Eq, Structural)]
pub struct Logging {
    pub on: bool,
}

impl Default for Logging {
    fn default() -> (r: Logging)
        ensures
            !r.on,
    {
        Logging { on: false }
    }
}

/// Switches the logging on or off.
pub fn set_enabled(logging: &mut Logging, value: bool)
    ensures
        final(logging).on == value,
{
    logging.on = value;
}

/// Whether the logging is on.
pub fn enabled(logging: &Logging) -> (r: bool)
    ensures
        r == logging.on,
{
    logging.on
}

} // verus!
