# dshl

DSHL is a small launcher for DeepSeek Harness. It checks the machine, makes
sure of a JavaScript runtime, finds or installs `@deepseek-ai/dsh`, starts it
and watches over it until it ends.

This crate is the launcher's logic, written in Verus: every decision, every
command line and every text it reads has a contract that is proved. Two things
are asked of the machine in `src/`: the random token of the control plane and
the language of the system. All else, the host, the outcome of a command and
the content of a file, comes in as plain values, and what is to be done goes out
as one.

## Layout

| Directory | What it holds |
|-----------|---------------|
| `src/text.rs`, `src/version.rs`, `src/message.rs` | texts, versions and their order, messages by key |
| `src/config.rs`, `src/mirror.rs`, `src/progress.rs` | the configuration, the mirrors, the state of the start-up |
| `src/platform/` | paths, their parts and lookup, OS actions, processes, windows, theme, tray, single instance |
| `src/process/` | commands, the output of a child, graceful stop, command lines of Windows |
| `src/install/` | node, bun, pnpm and nub: when they will do, and how they are installed |
| `src/flow/` | the five flows of the start-up, and what follows when dsh ends |
| `src/control.rs` | the control plane: handshake, requests, profiles |
| `src/cli/`, `src/native.rs` | the command line, the boot, the launcher inside another program |
| `app/` | the program: environment, files, processes, sockets, JSON and TOML |
| `tests/` | tests on concrete values |

## How the pieces meet

An installer, the runtime flow and the preparation of dsh are values with a
stage. The program asks them what is to be done, does it, and reports the
outcome; the library says what comes next.
That such a chain ends, and in which order its ways are tried, is stated and
proved beside it.

Properties that span functions stand in `src/` as public proof functions under
names that say what holds, for example `quoted_arguments_come_back`,
`every_line_is_delivered_in_order`, `a_pinned_version_always_wins` or
`only_the_token_opens_the_door`.

## What is trusted

Five items are believed, each with a doc comment that says what it claims:
`String::push` of std, `regex_find` (the regex crate), `json_member`
(serde_json), `generate_token` (uuid) and `system_locale` (sys-locale). Two
names stand for results that are left to the crates: `regex_match`, what an
expression matches in a text, and `json_member_of`, the member of an object that
a JSON text stands for.
