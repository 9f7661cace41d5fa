//! The state of the process supervisor that starts one load test at a time
//! as a child process and notices when it has ended.
//!
//! The supervisor reads the clock and asks the operating system whether the
//! child is alive; what it learns is passed in here, and what has to be done
//! comes back. Instants are whole microseconds.

use crate::scenario::find_test;
use crate::scenario::lookup;
use crate::scenario::TestDef;
use crate::summary::MICROS_PER_SECOND;
use vstd::prelude::*;

verus! {

/// How long past its configured duration a test may run before it is taken
/// for stuck, in seconds.
pub const GRACE_SECS: u64 = 10;

/// What the supervisor is doing.
#[derive(Clone, Copy, Debug, PartialEq, Eq, Structural)]
pub enum RunnerStatus {
    Idle,
    Warming,
    Running,
}

/// Why a test is not started.
#[derive(Clone, Copy, Debug, PartialEq, Eq, Structural)]
pub enum StartError {
    /// The identifier names no test of the catalogue.
    UnknownTest,
    /// A test is running already.
    AlreadyRunning,
}

/// How far the current test has come.
#[derive(Clone, Copy, Debug, PartialEq, Eq, Structural)]
pub struct Progress {
    /// Time spent warming up, in microseconds; zero unless warming.
    pub warmup: u64,
    /// Time spent running, in microseconds and at most the configured
    /// duration; zero unless running.
    pub elapsed: u64,
}

/// Everything the supervisor remembers between two requests.
#[derive(Debug)]
pub struct RunnerState {
    pub status: RunnerStatus,
    pub test_name: Option<String>,
    /// The instant the test was started.
    pub started_at: Option<u64>,
    /// Configured duration of the test, in seconds.
    pub configured_duration: Option<u64>,
    pub configured_vus: Option<u64>,
    pub last_error: Option<String>,
    /// Process identifier of the running test.
    pub child_pid: Option<u32>,
}

impl Default for RunnerState {
    /// The state before any test was started.
    fn default() -> (state: RunnerState)
        ensures
            state.status == RunnerStatus::Idle,
            state.test_name is None,
            state.started_at is None,
            state.configured_duration is None,
            state.configured_vus is None,
            state.last_error is None,
            state.child_pid is None,
    {
        RunnerState::new()
    }
}

/// The span from `started_at` to `now`; zero when nothing was started or the
/// clock reads earlier than the start.
pub open spec fn span_since(started_at: Option<u64>, now: u64) -> u64 {
    match started_at {
        Some(start) => if now >= start {
            (now - start) as u64
        } else {
            0
        },
        None => 0,
    }
}

/// The longest a test configured for `duration` seconds may take, in
/// microseconds: its duration and the grace period.
pub open spec fn allowance(duration: u64) -> int {
    (duration + GRACE_SECS) * MICROS_PER_SECOND
}

impl RunnerState {
    /// The child process whose liveness decides the next poll, if there is one.
    pub open spec fn watched(self) -> Option<u32> {
        if self.status == RunnerStatus::Idle {
            None
        } else {
            self.child_pid
        }
    }

    /// The test has used up its duration and the grace period.
    pub open spec fn overdue(self, now: u64) -> bool {
        match (self.started_at, self.configured_duration) {
            (Some(_), Some(duration)) => span_since(self.started_at, now) > allowance(duration),
            _ => false,
        }
    }

    /// The test is over: the supervisor is not idle and either the child is
    /// gone or the test is overdue.
    pub open spec fn finished(self, now: u64, alive: bool) -> bool {
        self.status != RunnerStatus::Idle && ((self.child_pid is Some && !alive) || self.overdue(
            now,
        ))
    }

    /// The child that has to be killed: the one that is still there although
    /// the test is overdue.
    pub open spec fn to_kill(self, now: u64, alive: bool) -> Option<u32> {
        if self.status != RunnerStatus::Idle && !(self.child_pid is Some && !alive) && self.overdue(
            now,
        ) {
            self.child_pid
        } else {
            None
        }
    }

    /// What is reported of the current test at `now`.
    pub open spec fn progress_at(self, now: u64) -> Progress {
        let span = span_since(self.started_at, now);
        Progress {
            warmup: if self.status == RunnerStatus::Warming {
                span
            } else {
                0
            },
            elapsed: if self.status == RunnerStatus::Running {
                match self.configured_duration {
                    Some(duration) => if span <= duration * MICROS_PER_SECOND {
                        span
                    } else {
                        (duration * MICROS_PER_SECOND) as u64
                    },
                    None => span,
                }
            } else {
                0
            },
        }
    }

    /// The state before any test was started.
    pub fn new() -> (state: RunnerState)
        ensures
            state.status == RunnerStatus::Idle,
            state.test_name is None,
            state.started_at is None,
            state.configured_duration is None,
            state.configured_vus is None,
            state.last_error is None,
            state.child_pid is None,
    {
        RunnerState {
            status: RunnerStatus::Idle,
            test_name: None,
            started_at: None,
            configured_duration: None,
            configured_vus: None,
            last_error: None,
            child_pid: None,
        }
    }

    /// The child process that the supervisor has to probe before it polls.
    pub fn watched_pid(&self) -> (pid: Option<u32>)
        ensures
            pid == self.watched(),
    {
        match self.status {
            RunnerStatus::Idle => None,
            _ => self.child_pid,
        }
    }

    fn span(&self, now: u64) -> (span: u64)
        ensures
            span == span_since(self.started_at, now),
    {
        match self.started_at {
            Some(start) => if now >= start {
                now - start
            } else {
                0
            },
            None => 0,
        }
    }

    fn is_overdue(&self, now: u64) -> (late: bool)
        ensures
            late == self.overdue(now),
    {
        match (self.started_at, self.configured_duration) {
            (Some(_), Some(duration)) => {
                assert((duration + GRACE_SECS) * MICROS_PER_SECOND == (duration + 10) * 1_000_000);
                let limit: u128 = (duration as u128 + GRACE_SECS as u128) * MICROS_PER_SECOND as u128;
                self.span(now) as u128 > limit
            },
            _ => false,
        }
    }

    /// Notices whether the test has ended. `alive` tells whether the watched
    /// child still exists; it is ignored when there is none.
    ///
    /// A test ends when its child is gone, or when it is overdue. In both
    /// cases the supervisor becomes idle and forgets the child. The result
    /// names the child to kill: an overdue one that is still there.
    pub fn poll(&mut self, now: u64, alive: bool) -> (kill: Option<u32>)
        ensures
            kill == old(self).to_kill(now, alive),
            final(self).status == (if old(self).finished(now, alive) {
                RunnerStatus::Idle
            } else {
                old(self).status
            }),
            final(self).child_pid == (if old(self).finished(now, alive) {
                None
            } else {
                old(self).child_pid
            }),
            final(self).test_name == old(self).test_name,
            final(self).started_at == old(self).started_at,
            final(self).configured_duration == old(self).configured_duration,
            final(self).configured_vus == old(self).configured_vus,
            final(self).last_error == old(self).last_error,
    {
        if self.status == RunnerStatus::Idle {
            return None;
        }
        let gone = self.child_pid.is_some() && !alive;
        let late = !gone && self.is_overdue(now);
        let kill = if late {
            self.child_pid
        } else {
            None
        };
        if gone || late {
            self.status = RunnerStatus::Idle;
            self.child_pid = None;
        }
        kill
    }

    /// How far the current test has come at `now`.
    pub fn progress(&self, now: u64) -> (progress: Progress)
        ensures
            progress == self.progress_at(now),
    {
        let span = self.span(now);
        let warmup = if self.status == RunnerStatus::Warming {
            span
        } else {
            0
        };
        let elapsed = if self.status == RunnerStatus::Running {
            match self.configured_duration {
                Some(duration) => {
                    assert(duration * MICROS_PER_SECOND == duration * 1_000_000);
                    let cap: u128 = duration as u128 * MICROS_PER_SECOND as u128;
                    if span as u128 <= cap {
                        span
                    } else {
                        cap as u64
                    }
                },
                None => span,
            }
        } else {
            0
        };
        Progress { warmup, elapsed }
    }

    /// Decides whether the test named `test_id` may be started now. The name
    /// is checked first, then whether the supervisor is idle.
    pub fn may_start(&self, test_id: &str) -> (decision: Result<TestDef, StartError>)
        ensures
            match decision {
                Ok(def) => lookup(test_id@) == Some(def) && self.status == RunnerStatus::Idle,
                Err(StartError::UnknownTest) => lookup(test_id@) is None,
                Err(StartError::AlreadyRunning) => lookup(test_id@) is Some && self.status
                    != RunnerStatus::Idle,
            },
    {
        match find_test(test_id) {
            None => Err(StartError::UnknownTest),
            Some(def) => {
                if self.status == RunnerStatus::Idle {
                    Ok(def)
                } else {
                    Err(StartError::AlreadyRunning)
                }
            },
        }
    }

    /// Records that the test `test_id` was started as process `pid` at `now`.
    pub fn started(&mut self, test_id: &str, duration: u64, vus: u64, pid: u32, now: u64)
        ensures
            final(self).status == RunnerStatus::Running,
            final(self).test_name matches Some(name) && name@ == test_id@,
            final(self).started_at == Some(now),
            final(self).configured_duration == Some(duration),
            final(self).configured_vus == Some(vus),
            final(self).last_error is None,
            final(self).child_pid == Some(pid),
    {
        self.status = RunnerStatus::Running;
        self.test_name = Some(test_id.to_owned());
        self.started_at = Some(now);
        self.configured_duration = Some(duration);
        self.configured_vus = Some(vus);
        self.last_error = None;
        self.child_pid = Some(pid);
    }

    /// Records that a test could not be started, and why.
    pub fn start_failed(&mut self, message: &str)
        ensures
            final(self).status == RunnerStatus::Idle,
            final(self).last_error matches Some(text) && text@ == message@,
            final(self).test_name == old(self).test_name,
            final(self).started_at == old(self).started_at,
            final(self).configured_duration == old(self).configured_duration,
            final(self).configured_vus == old(self).configured_vus,
            final(self).child_pid == old(self).child_pid,
    {
        self.status = RunnerStatus::Idle;
        self.last_error = Some(message.to_owned());
    }
}

/// Where the program of a test is started from.
#[derive(Clone, Copy, Debug, PartialEq, Eq, Structural)]
pub enum BinarySource {
    /// The directory of the platform that holds the test programs.
    Root,
    /// Wherever the search path of the system finds it.
    SearchPath,
}

/// Decides where the program of a test is started from: from the directory
/// of the platform if it is there, else from the search path if it is found
/// there. A program that is in neither place cannot be started.
pub fn pick_binary(in_root: bool, in_search_path: bool) -> (source: Option<BinarySource>)
    ensures
        source == (if in_root {
            Some(BinarySource::Root)
        } else if in_search_path {
            Some(BinarySource::SearchPath)
        } else {
            None
        }),
{
    if in_root {
        Some(BinarySource::Root)
    } else if in_search_path {
        Some(BinarySource::SearchPath)
    } else {
        None
    }
}

/// The duration and the number of virtual users a test is started with: the
/// stored setting where there is one, else the default of the catalogue.
pub fn effective_settings(def: &TestDef, duration: Option<u64>, vus: Option<u64>) -> (settings: (
    u64,
    u64,
))
    ensures
        settings.0 == (match duration {
            Some(d) => d,
            None => def.duration,
        }),
        settings.1 == (match vus {
            Some(v) => v,
            None => def.vus,
        }),
{
    let d = match duration {
        Some(d) => d,
        None => def.duration,
    };
    let v = match vus {
        Some(v) => v,
        None => def.vus,
    };
    (d, v)
}

/// A child is killed only when it is overdue, and never after it has been
/// found gone.
pub proof fn lemma_kill_only_overdue(state: RunnerState, now: u64, alive: bool)
    ensures
        state.to_kill(now, alive) is Some ==> state.overdue(now) && state.child_pid
            == state.to_kill(now, alive) && alive && state.finished(now, alive),
        state.status == RunnerStatus::Idle ==> state.to_kill(now, alive) is None
            && !state.finished(now, alive),
{
}

} // verus!
