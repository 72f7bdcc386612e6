//! Ownership of the one supervised daemon process, the verdict on a fresh start, and
//! the readiness verdict.
//!
//! The handle type is left open: the caller spawns, waits, kills and probes, and hands
//! the outcomes here.
use vstd::prelude::*;
use crate::names::trimmed;

verus! {

/// What a probe of a freshly spawned child found once the grace interval had passed.
#[derive(PartialEq, Eq, Clone, Debug)]
pub enum ChildStatus {
    /// It has not exited.
    Running,
    /// It exited; `status` is the exit status as the platform prints it.
    Exited { success: bool, status: String },
    /// Its state could not be read.
    Unknown(String),
}

/// A filesystem or process operation that failed.
#[derive(PartialEq, Eq, Structural, Clone, Copy, Debug)]
pub enum IoOperation {
    Spawn,
    StatusCheck,
}

/// Why the daemon could not be started.
#[derive(PartialEq, Eq, Clone, Debug)]
pub enum DaemonError {
    /// The operating system blocks the executable until the user allows it.
    SecurityBlocked,
    /// The daemon died within the grace interval with this status.
    ExitedEarly(String),
    Io { operation: IoOperation, cause: String },
}

/// The verdict on a start, given the probe and, for a failed exit, whether the
/// executable is still blocked.
pub open spec fn start_verdict(status: ChildStatus, blocked: bool) -> Result<(), DaemonError> {
    match status {
        ChildStatus::Running => Ok(()),
        ChildStatus::Exited { success, status } => if success {
            Ok(())
        } else if blocked {
            Err(DaemonError::SecurityBlocked)
        } else {
            Err(DaemonError::ExitedEarly(status))
        },
        ChildStatus::Unknown(cause) => Err(
            DaemonError::Io { operation: IoOperation::StatusCheck, cause },
        ),
    }
}

/// Whether the verdict on this probe depends on the executable being blocked.
pub fn needs_block_check(status: &ChildStatus) -> (r: bool)
    ensures
        r == (status matches ChildStatus::Exited { success: false, .. }),
{
    match status {
        ChildStatus::Exited { success, .. } => !*success,
        _ => false,
    }
}

/// The error for a spawn that failed outright.
pub fn spawn_failure(blocked: bool, cause: String) -> (r: DaemonError)
    ensures
        blocked ==> r == DaemonError::SecurityBlocked,
        !blocked ==> r == (DaemonError::Io { operation: IoOperation::Spawn, cause }),
{
    if blocked {
        DaemonError::SecurityBlocked
    } else {
        DaemonError::Io { operation: IoOperation::Spawn, cause }
    }
}

/// Holds at most one running daemon process.
pub struct Supervisor<H> {
    child: Option<H>,
}

impl<H> Supervisor<H> {
    /// The handle held, if any.
    pub closed spec fn held(&self) -> Option<H> {
        self.child
    }

    pub fn new() -> (r: Supervisor<H>)
        ensures
            r.held() is None,
    {
        Supervisor { child: None }
    }

    pub fn is_running(&self) -> (r: bool)
        ensures
            r == self.held() is Some,
    {
        self.child.is_some()
    }

    /// Give up the handle held, for the caller to kill and reap; afterwards none is held.
    /// Stopping with none held does nothing.
    pub fn stop(&mut self) -> (r: Option<H>)
        ensures
            r == old(self).held(),
            final(self).held() is None,
    {
        self.child.take()
    }

    /// Settle a start from the probe of the fresh `child`. A child still running is kept
    /// and the handle it displaces, if any, is handed back; any other child is handed back
    /// to be reaped and the held handle stays as it was.
    pub fn finish_start(&mut self, child: H, status: ChildStatus, blocked: bool) -> (r: (
        Result<(), DaemonError>,
        Option<H>,
    ))
        ensures
            r.0 == start_verdict(status, blocked),
            status is Running ==> final(self).held() == Some(child) && r.1 == old(self).held(),
            !(status is Running) ==> final(self).held() == old(self).held() && r.1 == Some(
                child,
            ),
    {
        match status {
            ChildStatus::Running => {
                let displaced = self.child.take();
                self.child = Some(child);
                (Ok(()), displaced)
            },
            ChildStatus::Exited { success, status } => {
                if success {
                    (Ok(()), Some(child))
                } else if blocked {
                    (Err(DaemonError::SecurityBlocked), Some(child))
                } else {
                    (Err(DaemonError::ExitedEarly(status)), Some(child))
                }
            },
            ChildStatus::Unknown(cause) => (
                Err(DaemonError::Io { operation: IoOperation::StatusCheck, cause }),
                Some(child),
            ),
        }
    }
}

/// What reading the cookie file gave.
#[derive(PartialEq, Eq, Clone, Debug)]
pub enum CookieRead {
    Absent,
    Unreadable,
    Text(String),
}

/// The readiness verdict, and whether the cookie file is to be removed as stale.
#[derive(PartialEq, Eq, Clone, Debug)]
pub struct Readiness {
    pub ready: bool,
    pub remove_cookie: bool,
}

pub open spec fn ready_of(cookie_present: bool, probe_ok: bool) -> bool {
    cookie_present && probe_ok
}

pub open spec fn removes_cookie(cookie_present: bool, probe_ok: bool) -> bool {
    cookie_present && !probe_ok
}

/// The token to probe with: none where there is no cookie (not ready, no probe), the
/// empty token where it could not be read, else its trimmed text.
pub fn probe_token(cookie: &CookieRead) -> (r: Option<String>)
    ensures
        cookie is Absent ==> r is None,
        cookie is Unreadable ==> r is Some && r->0@ == Seq::<char>::empty(),
        cookie matches CookieRead::Text(t) ==> r is Some && r->0@ == trimmed(t@),
{
    match cookie {
        CookieRead::Absent => None,
        CookieRead::Unreadable => Some(String::new()),
        CookieRead::Text(t) => Some(crate::names::trim_text(t.as_str())),
    }
}

/// Ready only with a cookie and a successful probe; a cookie whose probe failed is stale.
pub fn readiness(cookie: &CookieRead, probe_ok: bool) -> (r: Readiness)
    ensures
        r.ready == ready_of(!(cookie is Absent), probe_ok),
        r.remove_cookie == removes_cookie(!(cookie is Absent), probe_ok),
{
    let present = !matches!(cookie, CookieRead::Absent);
    Readiness { ready: present && probe_ok, remove_cookie: present && !probe_ok }
}

/// Once `stop` has run no daemon is supervised, so the status probe cannot succeed:
/// readiness is then false whether a cookie is left or not, and one left is removed.
pub proof fn lemma_stopped_daemon_not_ready<H>(
    running: Supervisor<H>,
    stopped: Supervisor<H>,
    cookie_present: bool,
)
    requires
        running.held() is Some,
        stopped.held() is None,
    ensures
        !ready_of(cookie_present, false),
        removes_cookie(cookie_present, false) == cookie_present,
{
}

/// A child that exits with a failure inside the grace interval yields `SecurityBlocked`
/// when the executable is still blocked, and its exit status otherwise.
pub proof fn lemma_failed_exit_verdict(status: String)
    ensures
        start_verdict(ChildStatus::Exited { success: false, status }, true) == Err::<
            (),
            DaemonError,
        >(DaemonError::SecurityBlocked),
        start_verdict(ChildStatus::Exited { success: false, status }, false) == Err::<
            (),
            DaemonError,
        >(DaemonError::ExitedEarly(status)),
{
}

} // verus!
