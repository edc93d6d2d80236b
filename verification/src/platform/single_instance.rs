//! Launcher-level single-instance support (`[ui] single-instance`).
//!
//! A lock file (`<cache>/dshl/instance.lock`) is held as long as the launcher
//! runs. A second launcher fails to lock it and signals the running one
//! through an activation file: the running one then restores its window if it
//! is hidden in the tray, or focuses it if it is visible.

use vstd::prelude::*;
use super::path::unix_paths_are_joined_by_one_slash;
use super::paths::{cache_dir, join, path_in, Host, HostView};
use crate::text::{dec, decimal};

verus! {

impl HostView {
    /// The directory of the launcher's own files.
    pub open spec fn instance_dir(self) -> Seq<char> {
        path_in(self.os, self.cache_dir(), "dshl"@)
    }
}

fn instance_dir(host: &Host) -> (r: String)
    ensures
        r@ == host@.instance_dir(),
{
    join(host.os, cache_dir(host).as_str(), "dshl")
}

/// The file that the running instance holds locked.
pub fn lock_path(host: &Host) -> (r: String)
    ensures
        r@ == path_in(host.os, host@.instance_dir(), "instance.lock"@),
{
    join(host.os, instance_dir(host).as_str(), "instance.lock")
}

/// The file through which a second instance asks the running one to come
/// forward.
pub fn activate_path(host: &Host) -> (r: String)
    ensures
        r@ == path_in(host.os, host@.instance_dir(), "activate"@),
{
    join(host.os, instance_dir(host).as_str(), "activate")
}

/// Whether this process became the single running instance: the lock file
/// could be opened and nobody else holds it locked.
pub fn acquire(opened: bool, locked: bool) -> (r: bool)
    ensures
        r == (opened && locked),
{
    opened && locked
}

/// What the second instance appends to the activation file: the time in
/// milliseconds, or 0 where there is none, on a line of its own.
pub fn notify_activate(millis: Option<u64>) -> (r: String)
    ensures
        r@ == dec(match millis {
            Some(ms) => ms as nat,
            None => 0,
        }).push('\n'),
{
    let ms: u64 = match millis {
        Some(ms) => ms,
        None => 0,
    };
    let mut line = decimal(ms);
    line.push('\n');
    line
}

/// The running instance's view of the activation file: its length when it was
/// last looked at.
#[derive(Debug, Clone, Copy, PartialEq, Eq, Structural)]
pub struct Activation {
    pub last: Option<u64>,
}

impl Default for Activation {
    fn default() -> (r: Activation)
        ensures
            r.last is None,
    {
        Activation { last: None }
    }
}

/// The length of a file; one that cannot be read counts as empty.
pub open spec fn length(len: Option<u64>) -> u64 {
    match len {
        Some(len) => len,
        None => 0,
    }
}

/// Whether a file that now has the length `len` asks for an activation.
pub open spec fn grown(last: Option<u64>, len: Option<u64>) -> bool {
    match last {
        Some(last) => length(len) > last,
        None => false,
    }
}

/// Called periodically by the first instance with the length of the
/// activation file. Returns `true` once when a second instance asked for
/// activation: when the file grew since the last look.
///
/// The first look only takes the length, so that a file left over from an
/// earlier run does not activate anything.
pub fn poll_activate(activation: &mut Activation, len: Option<u64>) -> (r: bool)
    ensures
        r == grown(old(activation).last, len),
        final(activation).last == Some(length(len)),
{
    let now: u64 = match len {
        Some(len) => len,
        None => 0,
    };
    let r = match activation.last {
        Some(last) => now > last,
        None => false,
    };
    activation.last = Some(now);
    r
}

/// One request activates once: looked at again, a file that has not grown
/// since asks for nothing, and neither does a file left over from before the
/// first look.
pub proof fn one_request_activates_once(len: Option<u64>)
    ensures
        !grown(None, len),
        !grown(Some(length(len)), len),
{
}

/// No request is lost: whatever was seen before, a request makes the file
/// longer than it was, and the next look notices.
pub proof fn a_request_is_noticed(seen: Option<u64>, extra: u64)
    requires
        extra > 0,
        length(seen) + extra <= u64::MAX,
    ensures
        grown(Some(length(seen)), Some((length(seen) + extra) as u64)),
{
}

/// A look notices growth and nothing else: a file asks for an activation
/// exactly where it is longer than at the last look, and one that cannot be
/// read counts as empty.
pub proof fn only_growth_activates(last: u64, now: u64)
    ensures
        grown(Some(last), Some(now)) <==> now > last,
        !grown(Some(last), None),
        !grown(None, Some(now)),
        length(Some(now)) == now,
        length(None) == 0,
{
}

/// On Unix the launcher's own files lie in a directory of the cache.
pub proof fn the_launcher_has_a_directory_of_the_cache(host: HostView)
    requires
        host.os != super::detect::Os::Windows,
        host.cache_dir().len() > 0,
        host.cache_dir().last() != '/',
    ensures
        host.instance_dir() == host.cache_dir() + "/dshl"@,
{
    reveal_strlit("dshl");
    reveal_strlit("/dshl");
    unix_paths_are_joined_by_one_slash(host.os, host.cache_dir(), "dshl"@);
    assert(host.instance_dir() =~= host.cache_dir() + "/dshl"@);
}

} // verus!
