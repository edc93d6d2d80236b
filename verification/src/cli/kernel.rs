//! The kernel that runs in this process, and the lock of its boot.

use vstd::prelude::*;
use vstd::string::*;

verus! {

/// A kernel that was booted, and whether its thread has begun.
#[derive(Debug, Clone, Copy, PartialEq, Eq, Structural)]
pub struct RunHandle {
    pub running: bool,
}

impl RunHandle {
    /// Whether the thread of the kernel is running.
    pub fn is_running(&self) -> (r: bool)
        ensures
            r == self.running,
    {
        self.running
    }
}

/// The kernel of this process, if one was booted and has not ended.
#[derive(Debug, Clone, Copy, PartialEq, Eq, Structural)]
pub struct Kernel {
    pub handle: Option<RunHandle>,
}

/// What happens to the kernel of a process.
pub enum KernelEvent {
    /// Someone asks for a kernel; whether one may be booted now.
    Boot(bool),
    /// The thread of the kernel began.
    Began,
    /// The thread of the kernel ended, or could not be started.
    Ended,
}

/// The kernel after an event.
pub open spec fn kernel_after(kernel: Kernel, event: KernelEvent) -> Kernel {
    match event {
        KernelEvent::Boot(allowed) => if kernel.handle is None && allowed {
            Kernel { handle: Some(RunHandle { running: false }) }
        } else {
            kernel
        },
        KernelEvent::Began => match kernel.handle {
            Some(_) => Kernel { handle: Some(RunHandle { running: true }) },
            None => kernel,
        },
        KernelEvent::Ended => Kernel { handle: None },
    }
}

/// The kernel after some events.
pub open spec fn kernel_after_all(kernel: Kernel, events: Seq<KernelEvent>) -> Kernel
    decreases events.len(),
{
    if events.len() == 0 {
        kernel
    } else {
        kernel_after(kernel_after_all(kernel, events.drop_last()), events.last())
    }
}

impl Kernel {
    /// Whether a kernel was booted and has not ended.
    pub open spec fn alive(self) -> bool {
        self.handle is Some
    }

    /// No kernel.
    pub fn new() -> (r: Kernel)
        ensures
            r.handle is None,
    {
        Kernel { handle: None }
    }

    /// The kernel that is there already, if there is one. It counts from its
    /// boot on, before its thread has begun.
    pub fn existing(&self) -> (r: Option<RunHandle>)
        ensures
            r == self.handle,
    {
        self.handle
    }

    /// A kernel was booted, unless there is one; its thread has not begun yet.
    pub fn booted(&mut self)
        ensures
            *final(self) == kernel_after(*old(self), KernelEvent::Boot(true)),
    {
        if self.handle.is_none() {
            self.handle = Some(RunHandle { running: false });
        }
    }

    /// The thread of the kernel began.
    pub fn began(&mut self)
        ensures
            *final(self) == kernel_after(*old(self), KernelEvent::Began),
    {
        if self.handle.is_some() {
            self.handle = Some(RunHandle { running: true });
        }
    }

    /// The thread of the kernel ended, well or by a panic: the next boot
    /// starts a fresh kernel.
    pub fn ended(&mut self)
        ensures
            *final(self) == kernel_after(*old(self), KernelEvent::Ended),
    {
        self.handle = None;
    }

    /// The thread of the kernel could not be started: the error, and the next
    /// boot starts a fresh kernel.
    pub fn spawn_failed(&mut self, err: &str) -> (r: String)
        ensures
            *final(self) == kernel_after(*old(self), KernelEvent::Ended),
            r@ == "failed to spawn kernel thread: "@ + err@,
    {
        self.ended();
        "failed to spawn kernel thread: ".to_owned().concat(err)
    }
}

/// A process has one kernel at a time: from its boot until it ends it stays the
/// one that every further boot finds, whether or not its thread has begun.
pub proof fn a_booted_kernel_stays_until_it_ends(kernel: Kernel, events: Seq<KernelEvent>)
    requires
        kernel.alive(),
        forall|i: int| 0 <= i < events.len() ==> !(#[trigger] events[i] is Ended),
    ensures
        kernel_after_all(kernel, events).alive(),
        kernel_after(kernel_after_all(kernel, events), KernelEvent::Boot(true))
            == kernel_after_all(kernel, events),
    decreases events.len(),
{
    if events.len() > 0 {
        let before = events.drop_last();
        assert forall|i: int| 0 <= i < before.len() implies !(#[trigger] before[i] is Ended) by {
            assert(before[i] == events[i]);
        }
        a_booted_kernel_stays_until_it_ends(kernel, before);
        assert(!(events[events.len() - 1] is Ended));
    }
}

/// The lock that a boot holds while it sets up the window.
#[derive(Debug, Clone, Copy, PartialEq, Eq, Structural)]
pub enum KernelLock {
    /// Nobody holds it.
    Free,
    /// Nobody holds it, and the boot that held it last panicked.
    Poisoned,
    /// A boot holds it.
    Busy,
}

/// Whether the lock of the boot can be taken without waiting. A boot that
/// panicked must not disable window handling forever.
pub fn try_kernel_lock(lock: KernelLock) -> (r: bool)
    ensures
        r == (lock != KernelLock::Busy),
{
    match lock {
        KernelLock::Free => true,
        KernelLock::Poisoned => true,
        KernelLock::Busy => false,
    }
}

/// How long (ms) a window waits for a boot to finish.
pub const SHOW_TIMEOUT_MS: u64 = 10_000;

/// How long (ms) it sleeps before it tries the lock again.
pub const SHOW_TICK_MS: u64 = 50;

/// What is to be done to show the window.
#[derive(Debug, Clone, Copy, PartialEq, Eq, Structural)]
pub enum Show {
    /// Show it.
    Now,
    /// Sleep this long (ms) and try again.
    Retry(u64),
    /// Give up: a boot is still setting up the window.
    Skip,
}

/// What a try to show the window comes to.
pub open spec fn shown(lock: KernelLock, elapsed: u64) -> Show {
    if lock != KernelLock::Busy {
        Show::Now
    } else if elapsed >= SHOW_TIMEOUT_MS {
        Show::Skip
    } else {
        Show::Retry(SHOW_TICK_MS)
    }
}

/// One try to show the window, `elapsed` ms after the first. While a boot is
/// setting up the window a second setup would break it.
pub fn window_show(lock: KernelLock, elapsed: u64) -> (r: Show)
    ensures
        r == shown(lock, elapsed),
{
    if try_kernel_lock(lock) {
        Show::Now
    } else if elapsed >= SHOW_TIMEOUT_MS {
        Show::Skip
    } else {
        Show::Retry(SHOW_TICK_MS)
    }
}

/// A boot that is allowed starts a kernel whose thread has not begun; one that
/// is not starts none; and the end of a kernel makes room for the next.
pub proof fn a_kernel_begins_behind_its_boot(kernel: Kernel, handle: RunHandle)
    ensures
        !kernel.alive() ==> kernel_after(kernel, KernelEvent::Boot(true)).handle == Some(
            RunHandle { running: false },
        ),
        !kernel_after(Kernel { handle: None }, KernelEvent::Boot(false)).alive(),
        kernel_after(Kernel { handle: Some(handle) }, KernelEvent::Began).handle == Some(
            RunHandle { running: true },
        ),
        !kernel_after(Kernel { handle: None }, KernelEvent::Began).alive(),
        !kernel_after(kernel, KernelEvent::Ended).alive(),
        kernel_after(kernel_after(kernel, KernelEvent::Ended), KernelEvent::Boot(true)).alive(),
        forall|allowed: bool| kernel.alive() ==> #[trigger] kernel_after(
            kernel,
            KernelEvent::Boot(allowed),
        ) == kernel,
{
}

/// The window is shown unless a boot holds the lock; then it is tried again
/// every 50 ms until ten seconds have passed.
pub proof fn a_window_waits_for_a_boot(lock: KernelLock, elapsed: u64)
    ensures
        shown(KernelLock::Free, elapsed) == Show::Now,
        shown(KernelLock::Poisoned, elapsed) == Show::Now,
        elapsed < 10_000 ==> shown(KernelLock::Busy, elapsed) == Show::Retry(50),
        elapsed >= 10_000 ==> shown(KernelLock::Busy, elapsed) == Show::Skip,
{
}

} // verus!
