//! The command line, and what a boot of the kernel does first.

use vstd::prelude::*;
use vstd::string::*;
use super::kernel::{kernel_after, Kernel, KernelEvent, RunHandle};
use super::options::{OptionsView, OutcomeView, RunOptions, RunOutcome};
use crate::debug::{set_enabled, Logging};
use crate::text::{
    all_white, is_white, opt_view, same, trim, trimmed, views, white_space_around_a_text_is_trimmed,
};

verus! {

/// The help text.
pub const USAGE: &'static str = "DSHL — DeepSeek Harness web launcher\n\nUSAGE:\n    dshl [OPTIONS]\n\nOPTIONS:\n    -c, --config <path>    Path to dshl.toml\n    -d, --debug            Print runtime logs to stderr (also DSHL_LOG=1)\n    -V, --version          Print version\n    -h, --help             Print help\n";

/// The options of a command line without arguments: everything that the
/// installed launcher does is on.
pub open spec fn cli_options() -> OptionsView {
    OptionsView {
        config: None,
        debug: false,
        enable_single_instance: true,
        enable_control_pipe: true,
        install_signal_handler: true,
    }
}

pub open spec fn is_help(arg: Seq<char>) -> bool {
    arg == "-h"@ || arg == "--help"@
}

pub open spec fn is_version(arg: Seq<char>) -> bool {
    arg == "-V"@ || arg == "--version"@
}

pub open spec fn is_config(arg: Seq<char>) -> bool {
    arg == "-c"@ || arg == "--config"@
}

pub open spec fn is_debug(arg: Seq<char>) -> bool {
    arg == "-d"@ || arg == "--debug"@ || arg == "-v"@ || arg == "--verbose"@
}

/// What is said of an argument that means nothing.
pub open spec fn unexpected(arg: Seq<char>) -> Seq<char> {
    "unexpected argument '"@ + arg + "'\n\n"@ + USAGE@
}

/// The options that arguments add to `options`, read from left to right, or
/// the outcome of the first argument that ends the reading.
pub open spec fn read_args(args: Seq<Seq<char>>, options: OptionsView) -> Result<
    OptionsView,
    OutcomeView,
>
    decreases args.len(),
{
    if args.len() == 0 {
        Ok(options)
    } else if is_help(args[0]) {
        Err(OutcomeView::HelpPrinted)
    } else if is_version(args[0]) {
        Err(OutcomeView::VersionPrinted)
    } else if is_config(args[0]) {
        if args.len() > 1 {
            read_args(args.skip(2), OptionsView { config: Some(args[1]), ..options })
        } else {
            Err(OutcomeView::ArgsError("--config requires a value"@))
        }
    } else if is_debug(args[0]) {
        read_args(args.skip(1), OptionsView { debug: true, ..options })
    } else {
        Err(OutcomeView::ArgsError(unexpected(args[0])))
    }
}

/// A result as plain values.
pub open spec fn parsed(r: Result<RunOptions, RunOutcome>) -> Result<OptionsView, OutcomeView> {
    match r {
        Ok(options) => Ok(options@),
        Err(outcome) => Err(outcome@),
    }
}

/// Reads the arguments of the program.
pub fn parse_args(args: &Vec<String>) -> (r: Result<RunOptions, RunOutcome>)
    ensures
        parsed(r) == read_args(views(args@), cli_options()),
{
    let ghost all = views(args@);
    let mut cli = RunOptions {
        config: None,
        debug: false,
        enable_single_instance: true,
        enable_control_pipe: true,
        install_signal_handler: true,
    };
    let mut i: usize = 0;
    assert(all.skip(0) =~= all);
    while i < args.len()
        invariant
            0 <= i <= args@.len(),
            i <= args.len(),
            all == views(args@),
            read_args(all, cli_options()) == read_args(all.skip(i as int), cli@),
        decreases args@.len() - i,
    {
        let ghost rest = all.skip(i as int);
        assert(rest[0] == args@[i as int]@);
        let arg = args[i].as_str();
        if same(arg, "-h") || same(arg, "--help") {
            return Err(RunOutcome::HelpPrinted);
        }
        if same(arg, "-V") || same(arg, "--version") {
            return Err(RunOutcome::VersionPrinted);
        }
        if same(arg, "-c") || same(arg, "--config") {
            if i + 1 < args.len() {
                assert(rest[1] == args@[i + 1]@);
                assert(rest.skip(2) =~= all.skip(i + 2));
                cli.config = Some(args[i + 1].clone());
                i += 2;
            } else {
                return Err(RunOutcome::ArgsError("--config requires a value".to_owned()));
            }
        } else if same(arg, "-d") || same(arg, "--debug") || same(arg, "-v") || same(
            arg,
            "--verbose",
        ) {
            assert(rest.skip(1) =~= all.skip(i + 1));
            cli.debug = true;
            i += 1;
        } else {
            let said = "unexpected argument '".to_owned().concat(arg).concat("'\n\n").concat(USAGE);
            return Err(RunOutcome::ArgsError(said));
        }
    }
    Ok(cli)
}

/// Whether runtime lines are mirrored to the terminal: asked for by an option
/// or by a `DSHL_LOG` that is not blank.
pub open spec fn wants_logging(debug: bool, dshl_log: Option<Seq<char>>) -> bool {
    debug || match dshl_log {
        Some(value) => trimmed(value).len() > 0,
        None => false,
    }
}

/// Applies the debug-logging options: whether the logging is on now, and its
/// first line is to be written.
pub fn apply_run_options(logging: &mut Logging, options: &RunOptions, dshl_log: &Option<String>)
    -> (r: bool)
    ensures
        r == wants_logging(options.debug, opt_view(*dshl_log)),
        final(logging).on == r,
{
    let env_debug = match dshl_log {
        Some(value) => !trim(value.as_str()).as_str().is_empty(),
        None => false,
    };
    set_enabled(logging, options.debug || env_debug);
    logging.on
}

/// What a boot does before the window is set up.
#[derive(Debug, Clone, Copy, PartialEq, Eq, Structural)]
pub struct Boot {
    /// Keep the single-instance lock as long as the kernel runs.
    pub hold_lock: bool,
    /// Install the OS signal handler.
    pub signal_handler: bool,
    /// Start the control plane; the boot goes on when that fails.
    pub control_pipe: bool,
}

/// Whether a boot takes the single-instance lock: both the options and the
/// configuration ask for it.
pub open spec fn takes_lock(options: OptionsView, single_instance: bool) -> bool {
    options.enable_single_instance && single_instance
}

/// Whether a boot takes the single-instance lock.
pub fn wants_lock(options: &RunOptions, single_instance: bool) -> (r: bool)
    ensures
        r == takes_lock(options@, single_instance),
{
    options.enable_single_instance && single_instance
}

/// The boot with these options.
pub open spec fn boot(options: OptionsView, single_instance: bool) -> Boot {
    Boot {
        hold_lock: takes_lock(options, single_instance),
        signal_handler: options.install_signal_handler,
        control_pipe: options.enable_control_pipe,
    }
}

/// The boot of the program: what it does first, or that another launcher is
/// running and was told to come forward. `acquired` tells whether the lock
/// could be taken, where the boot takes it.
pub fn run_cli(options: &RunOptions, single_instance: bool, acquired: bool) -> (r: Result<
    Boot,
    RunOutcome,
>)
    ensures
        match r {
            Ok(b) => (takes_lock(options@, single_instance) ==> acquired) && b == boot(
                options@,
                single_instance,
            ),
            Err(outcome) => takes_lock(options@, single_instance) && !acquired && outcome
                == RunOutcome::AlreadyRunning,
        },
{
    let hold_lock = wants_lock(options, single_instance);
    if hold_lock && !acquired {
        return Err(RunOutcome::AlreadyRunning);
    }
    Ok(
        Boot {
            hold_lock,
            signal_handler: options.install_signal_handler,
            control_pipe: options.enable_control_pipe,
        },
    )
}

/// Whether a boot inside another program takes the single-instance lock: one
/// that finds a kernel takes nothing.
pub fn boot_wants_lock(kernel: &Kernel, options: &RunOptions, single_instance: bool) -> (r: bool)
    ensures
        r == (!kernel.alive() && takes_lock(options@, single_instance)),
{
    kernel.existing().is_none() && wants_lock(options, single_instance)
}

/// What a boot inside another program gives.
#[derive(Debug, Clone, Copy, PartialEq, Eq, Structural)]
pub enum Started {
    /// The kernel that is there already. Nothing else is to be done: no second
    /// thread, window, signal handler or lock.
    Existing(RunHandle),
    /// A new kernel, and what its boot does before its thread is started.
    Booted(Boot),
}

/// Whether a boot with these options may go on: it takes no lock, or it could
/// take it.
pub open spec fn may_boot(options: OptionsView, single_instance: bool, acquired: bool) -> bool {
    takes_lock(options, single_instance) ==> acquired
}

/// Whether a boot inside another program gives what it should.
pub open spec fn is_start(
    r: Result<Started, &'static str>,
    kernel: Kernel,
    options: OptionsView,
    single_instance: bool,
    acquired: bool,
) -> bool {
    match r {
        Ok(Started::Existing(handle)) => kernel.handle == Some(handle),
        Ok(Started::Booted(b)) => {
            &&& !kernel.alive()
            &&& may_boot(options, single_instance, acquired)
            &&& b == boot(options, single_instance)
        },
        Err(error) => {
            &&& !kernel.alive()
            &&& !may_boot(options, single_instance, acquired)
            &&& error@ == "another dshl instance is already running"@
        },
    }
}

/// The boot of a kernel inside another program: the kernel that is there
/// already, whatever the options say; or what the boot of a new one does
/// first; or the error when another launcher is running. `acquired` tells
/// whether the lock could be taken, where the boot takes it.
pub fn run_with_options(
    kernel: &mut Kernel,
    options: &RunOptions,
    single_instance: bool,
    acquired: bool,
) -> (r: Result<Started, &'static str>)
    ensures
        is_start(r, *old(kernel), options@, single_instance, acquired),
        old(kernel).handle matches Some(h) ==> r == Ok::<Started, &'static str>(
            Started::Existing(h),
        ) && *final(kernel) == *old(kernel),
        *final(kernel) == kernel_after(
            *old(kernel),
            KernelEvent::Boot(may_boot(options@, single_instance, acquired)),
        ),
        final(kernel).alive() == (r is Ok),
{
    if let Some(handle) = kernel.existing() {
        return Ok(Started::Existing(handle));
    }
    match run_cli(options, single_instance, acquired) {
        Ok(b) => {
            kernel.booted();
            Ok(Started::Booted(b))
        },
        Err(_) => Err("another dshl instance is already running"),
    }
}

/// Help comes before everything that follows it: what stands behind it on the
/// command line is not read.
pub proof fn help_ends_the_reading(args: Seq<Seq<char>>, rest: Seq<Seq<char>>, options: OptionsView)
    requires
        args.len() > 0,
        is_help(args[0]),
    ensures
        read_args(args + rest, options) == Err::<OptionsView, OutcomeView>(
            OutcomeView::HelpPrinted,
        ),
{
}

/// An argument that starts no reading of its own never passes unnoticed: a
/// command line that starts with it is refused, and the refusal names it.
pub proof fn unknown_arguments_are_refused(args: Seq<Seq<char>>, options: OptionsView)
    requires
        args.len() > 0,
        !is_help(args[0]),
        !is_version(args[0]),
        !is_config(args[0]),
        !is_debug(args[0]),
    ensures
        read_args(args, options) == Err::<OptionsView, OutcomeView>(
            OutcomeView::ArgsError(unexpected(args[0])),
        ),
{
}

/// The arguments only ever choose a configuration and switch the logging on:
/// whatever they are, the launcher honours its lock, its control plane and its
/// signal handler.
pub proof fn arguments_keep_the_rest(args: Seq<Seq<char>>, options: OptionsView)
    ensures
        read_args(args, options) matches Ok(o) ==> o.enable_single_instance
            == options.enable_single_instance && o.enable_control_pipe
            == options.enable_control_pipe && o.install_signal_handler
            == options.install_signal_handler && (options.debug ==> o.debug),
    decreases args.len(),
{
    if args.len() == 0 || is_help(args[0]) || is_version(args[0]) {
    } else if is_config(args[0]) {
        if args.len() > 1 {
            arguments_keep_the_rest(
                args.skip(2),
                OptionsView { config: Some(args[1]), ..options },
            );
        }
    } else if is_debug(args[0]) {
        arguments_keep_the_rest(args.skip(1), OptionsView { debug: true, ..options });
    }
}

proof fn lemma_flags()
    ensures
        "-h"@[1] == 'h' && "-h"@.len() == 2,
        "-V"@[1] == 'V' && "-V"@.len() == 2,
        "-c"@[1] == 'c' && "-c"@.len() == 2,
        "-d"@[1] == 'd' && "-d"@.len() == 2,
        "-v"@[1] == 'v' && "-v"@.len() == 2,
        "--help"@.len() == 6,
        "--version"@.len() == 9 && "--version"@[5] == 's',
        "--config"@.len() == 8,
        "--debug"@.len() == 7,
        "--verbose"@.len() == 9 && "--verbose"@[5] == 'b',
{
    reveal_strlit("-h");
    reveal_strlit("-V");
    reveal_strlit("-c");
    reveal_strlit("-d");
    reveal_strlit("-v");
    reveal_strlit("--help");
    reveal_strlit("--version");
    reveal_strlit("--config");
    reveal_strlit("--debug");
    reveal_strlit("--verbose");
}

/// What each argument means: `-h` and `-V`, and their long forms, end the
/// reading; `-c` takes the next argument as the configuration, so that the last
/// one counts; `-d` and `-v` switch the logging on.
pub proof fn what_each_argument_means(
    path: Seq<char>,
    rest: Seq<Seq<char>>,
    options: OptionsView,
)
    ensures
        read_args(seq!["-h"@] + rest, options) == Err::<OptionsView, OutcomeView>(
            OutcomeView::HelpPrinted,
        ),
        read_args(seq!["--help"@] + rest, options) == Err::<OptionsView, OutcomeView>(
            OutcomeView::HelpPrinted,
        ),
        read_args(seq!["-V"@] + rest, options) == Err::<OptionsView, OutcomeView>(
            OutcomeView::VersionPrinted,
        ),
        read_args(seq!["--version"@] + rest, options) == Err::<OptionsView, OutcomeView>(
            OutcomeView::VersionPrinted,
        ),
        read_args(seq!["-c"@, path] + rest, options) == read_args(
            rest,
            OptionsView { config: Some(path), ..options },
        ),
        read_args(seq!["--config"@, path] + rest, options) == read_args(
            rest,
            OptionsView { config: Some(path), ..options },
        ),
        read_args(seq!["-c"@], options) == Err::<OptionsView, OutcomeView>(
            OutcomeView::ArgsError("--config requires a value"@),
        ),
        read_args(seq!["--config"@], options) == Err::<OptionsView, OutcomeView>(
            OutcomeView::ArgsError("--config requires a value"@),
        ),
        read_args(seq!["-d"@] + rest, options) == read_args(
            rest,
            OptionsView { debug: true, ..options },
        ),
        read_args(seq!["--debug"@] + rest, options) == read_args(
            rest,
            OptionsView { debug: true, ..options },
        ),
        read_args(seq!["-v"@] + rest, options) == read_args(
            rest,
            OptionsView { debug: true, ..options },
        ),
        read_args(seq!["--verbose"@] + rest, options) == read_args(
            rest,
            OptionsView { debug: true, ..options },
        ),
        read_args(seq![], options) == Ok::<OptionsView, OutcomeView>(options),
{
    lemma_flags();
    assert((seq!["-c"@, path] + rest).skip(2) =~= rest);
    assert((seq!["--config"@, path] + rest).skip(2) =~= rest);
    assert((seq!["-d"@] + rest).skip(1) =~= rest);
    assert((seq!["--debug"@] + rest).skip(1) =~= rest);
    assert((seq!["-v"@] + rest).skip(1) =~= rest);
    assert((seq!["--verbose"@] + rest).skip(1) =~= rest);
}

/// An argument that means nothing is quoted in the refusal, with the help text
/// behind it.
pub proof fn a_refusal_quotes_the_argument(arg: Seq<char>)
    ensures
        unexpected(arg) == "unexpected argument '"@ + arg + "'\n\n"@ + USAGE@,
        ({
            let start = "unexpected argument '"@.len() as int;
            &&& unexpected(arg).subrange(start, start + arg.len()) == arg
            &&& unexpected(arg)[start + arg.len()] == '\''
        }),
{
    reveal_strlit("'\n\n");
    let start = "unexpected argument '"@.len() as int;
    assert(unexpected(arg).subrange(start, start + arg.len()) =~= arg);
}

/// Without arguments everything is on that the installed launcher does, and
/// neither a configuration is named nor the logging on.
pub proof fn without_arguments_everything_is_on()
    ensures
        cli_options().config is None,
        !cli_options().debug,
        cli_options().enable_single_instance,
        cli_options().enable_control_pipe,
        cli_options().install_signal_handler,
{
}

/// The logging is on where an option asks for it, and where the variable holds
/// more than white space.
pub proof fn a_blank_variable_asks_for_nothing(value: Seq<char>)
    ensures
        wants_logging(true, Some(value)),
        wants_logging(true, None),
        !wants_logging(false, None),
        all_white(value) ==> !wants_logging(false, Some(value)),
        value.len() > 0 && !is_white(value[0]) && !is_white(value.last()) ==> wants_logging(
            false,
            Some(value),
        ),
{
    let none = Seq::<char>::empty();
    if all_white(value) {
        white_space_around_a_text_is_trimmed(value, none, none);
        assert(value + none + none =~= value);
    } else if value.len() > 0 && !is_white(value[0]) && !is_white(value.last()) {
        white_space_around_a_text_is_trimmed(none, value, none);
    }
}

/// A boot takes the lock where both the options and the configuration ask for
/// it; then it needs it, and otherwise it does not.
pub proof fn the_lock_is_taken_where_both_ask_for_it(
    options: OptionsView,
    single_instance: bool,
    acquired: bool,
)
    ensures
        takes_lock(options, single_instance) <==> options.enable_single_instance
            && single_instance,
        may_boot(options, single_instance, true),
        may_boot(options, single_instance, false) <==> !takes_lock(options, single_instance),
        boot(options, single_instance).hold_lock == takes_lock(options, single_instance),
        boot(options, single_instance).signal_handler == options.install_signal_handler,
        boot(options, single_instance).control_pipe == options.enable_control_pipe,
{
}

/// A boot inside another program finds the kernel that is there, boots one
/// where it may, and reports another launcher otherwise.
pub proof fn a_boot_finds_boots_or_reports(
    r: Result<Started, &'static str>,
    kernel: Kernel,
    options: OptionsView,
    single_instance: bool,
    acquired: bool,
)
    requires
        is_start(r, kernel, options, single_instance, acquired),
    ensures
        kernel.handle matches Some(h) ==> (r matches Ok(Started::Existing(x)) && x == h),
        kernel.handle is None && (acquired || !single_instance || !options.enable_single_instance)
            ==> (r matches Ok(Started::Booted(b)) && b.signal_handler
            == options.install_signal_handler && b.control_pipe == options.enable_control_pipe
            && b.hold_lock == (options.enable_single_instance && single_instance)),
        kernel.handle is None && !acquired && single_instance && options.enable_single_instance
            ==> (r matches Err(e) && e@ == "another dshl instance is already running"@),
{
}

} // verus!
