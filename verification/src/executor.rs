//! What the sandboxed executor decides, stated over plain values.
//!
//! Running a compiled module happens in a forked child process with its
//! standard streams wired to in-memory buffers; that part lives outside the
//! library. The watchdog's decision — what to do once the child has been
//! polled against the timeout — is pure logic and is verified here.

use vstd::prelude::*;

verus! {

/// A request or reply payload: the raw bytes a function reads from its
/// standard input or wrote to its standard output.
#[derive(Debug)]
pub struct DataFrame {
    pub body: Vec<u8>,
}

/// Why an invocation failed.
#[derive(Debug)]
pub enum ExecuteError {
    NotFound(String),
    Link(String),
    Start(String),
    Trap(String),
    Timeout,
    Aborted(i32, String),
    Unsupported,
}

/// How long the watchdog waits for the child before killing it, in
/// milliseconds.
pub const EXECUTE_TIMEOUT_MS: u64 = 2000;

/// What the watchdog does after polling the child's process handle.
#[derive(PartialEq, Eq, Structural, Clone, Copy, Debug)]
pub enum WatchdogVerdict {
    /// The process-handle syscall is unavailable: fail the invocation
    /// rather than run without a watchdog.
    Unsupported,
    /// The poll timed out with the child still running: kill it and report
    /// a timeout.
    KillChild,
    /// The child is done (or the poll itself failed): collect its output.
    CollectOutput,
}

/// The watchdog's decision: without a process handle the invocation is
/// unsupported; a successful poll that reports the child not yet done means
/// the timeout elapsed, so the child is killed; otherwise the output is
/// collected.
pub fn watchdog_verdict(pidfd_supported: bool, poll_ok: bool, child_ready: bool) -> (r:
    WatchdogVerdict)
    ensures
        !pidfd_supported ==> r == WatchdogVerdict::Unsupported,
        pidfd_supported && poll_ok && !child_ready ==> r == WatchdogVerdict::KillChild,
        pidfd_supported && (!poll_ok || child_ready) ==> r == WatchdogVerdict::CollectOutput,
{
    if !pidfd_supported {
        WatchdogVerdict::Unsupported
    } else if poll_ok && !child_ready {
        WatchdogVerdict::KillChild
    } else {
        WatchdogVerdict::CollectOutput
    }
}

/// How a finished child's exit maps to the invocation's result: success
/// hands back the captured output, a non-zero exit code aborts with it.
pub fn exit_outcome(exit_code: i32, stdout_bytes: Vec<u8>, stderr_tail: String) -> (r: Result<
    DataFrame,
    ExecuteError,
>)
    ensures
        exit_code == 0 ==> (r matches Ok(f) && f.body@ == stdout_bytes@),
        exit_code != 0 ==> (r matches Err(ExecuteError::Aborted(c, t)) && c == exit_code && t@
            == stderr_tail@),
{
    if exit_code == 0 {
        Ok(DataFrame { body: stdout_bytes })
    } else {
        Err(ExecuteError::Aborted(exit_code, stderr_tail))
    }
}

} // verus!
