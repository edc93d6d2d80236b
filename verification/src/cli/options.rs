//! Run-time options, and the outcomes of a command line that starts nothing.

use vstd::prelude::*;
use crate::text::opt_view;

verus! {

/// Result of a command line that was understood but did not start the event
/// loop.
#[derive(Debug, Clone, PartialEq, Eq)]
pub enum RunOutcome {
    HelpPrinted,
    VersionPrinted,
    ArgsError(String),
    AlreadyRunning,
}

/// An outcome as plain text.
#[verifier::ext_equal]
pub enum OutcomeView {
    HelpPrinted,
    VersionPrinted,
    ArgsError(Seq<char>),
    AlreadyRunning,
}

impl View for RunOutcome {
    type V = OutcomeView;

    open spec fn view(&self) -> OutcomeView {
        match self {
            RunOutcome::HelpPrinted => OutcomeView::HelpPrinted,
            RunOutcome::VersionPrinted => OutcomeView::VersionPrinted,
            RunOutcome::ArgsError(text) => OutcomeView::ArgsError(text@),
            RunOutcome::AlreadyRunning => OutcomeView::AlreadyRunning,
        }
    }
}

impl RunOutcome {
    /// The exit code of the program: 2 for a command line that was not
    /// understood.
    pub fn exit_code(&self) -> (r: i32)
        ensures
            r == (if *self is ArgsError {
                2i32
            } else {
                0i32
            }),
    {
        match self {
            RunOutcome::HelpPrinted => 0,
            RunOutcome::VersionPrinted => 0,
            RunOutcome::ArgsError(_) => 2,
            RunOutcome::AlreadyRunning => 0,
        }
    }
}

/// Options for launching the full kernel.
#[derive(Debug, Clone)]
pub struct RunOptions {
    pub config: Option<String>,
    pub debug: bool,
    /// When true, the launcher-level single-instance lock is honoured ([ui]
    /// single-instance in dshl.toml).
    pub enable_single_instance: bool,
    /// Start the control plane (`DSHL_CONTROL_URL`).
    pub enable_control_pipe: bool,
    /// When true, install the OS signal handler (Ctrl+C / SIGTERM) that asks
    /// the launcher to shut down cleanly.
    pub install_signal_handler: bool,
}

/// Options as plain values.
#[verifier::ext_equal]
pub struct OptionsView {
    pub config: Option<Seq<char>>,
    pub debug: bool,
    pub enable_single_instance: bool,
    pub enable_control_pipe: bool,
    pub install_signal_handler: bool,
}

impl View for RunOptions {
    type V = OptionsView;

    open spec fn view(&self) -> OptionsView {
        OptionsView {
            config: opt_view(self.config),
            debug: self.debug,
            enable_single_instance: self.enable_single_instance,
            enable_control_pipe: self.enable_control_pipe,
            install_signal_handler: self.install_signal_handler,
        }
    }
}

impl Default for RunOptions {
    fn default() -> (r: RunOptions)
        ensures
            r@ == (OptionsView {
                config: None,
                debug: false,
                enable_single_instance: false,
                enable_control_pipe: false,
                install_signal_handler: false,
            }),
    {
        RunOptions {
            config: None,
            debug: false,
            enable_single_instance: false,
            enable_control_pipe: false,
            install_signal_handler: false,
        }
    }
}

} // verus!
