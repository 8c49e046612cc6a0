//! Scheduled jobs: the decisions of the loop that each job runs.
//!
//! A job computes its next occurrence, sleeps until it arrives, invokes its
//! action, and starts over; it stops for good once its schedule is exhausted.
//! The waiting and the action are the host's business: the host performs each
//! [`Command`] and reports back with an [`Event`], and [`JobState::step`]
//! decides what comes next.

use crate::schedule::{cron_next, is_instant, is_utc_offset, next_occurrence_after, Cron};
use vstd::prelude::*;

verus! {

/// One configured schedule, borrowed from the configuration that owns it.
pub struct Job<'a> {
    cron: &'a Cron,
}

impl<'a> Job<'a> {
    /// The text of the schedule this job follows.
    pub closed spec fn followed(&self) -> Seq<char> {
        self.cron.text()
    }

    pub fn new(cron: &'a Cron) -> (r: Job<'a>)
        ensures
            r.followed() == cron.text(),
    {
        Job { cron }
    }

    pub fn cron(&self) -> (r: &'a Cron)
        ensures
            r.text() == self.followed(),
    {
        self.cron
    }

    /// The next occurrence of this job's schedule after `now`, read in local
    /// time `offset_secs` seconds ahead of UTC: `None` when the schedule is
    /// exhausted, else an instant strictly after `now`.
    pub fn next_after(&self, now: i64, offset_secs: i32) -> (r: Option<i64>)
        requires
            is_instant(now as int),
            is_utc_offset(offset_secs as int),
        ensures
            r == cron_next(self.followed(), now, offset_secs),
            r matches Some(n) ==> now < n && is_instant(n as int),
    {
        next_occurrence_after(self.cron, now, offset_secs)
    }
}

/// One job per configured schedule, in the order of the configuration.
pub fn jobs_for<'a>(crons: &'a Vec<Cron>) -> (r: Vec<Job<'a>>)
    ensures
        r.len() == crons.len(),
        forall|i: int| 0 <= i < r.len() ==> (#[trigger] r[i]).followed() == crons[i].text(),
{
    let mut jobs: Vec<Job<'a>> = Vec::new();
    let mut i: usize = 0;
    while i < crons.len()
        invariant
            i <= crons.len(),
            jobs.len() == i,
            forall|j: int| 0 <= j < i ==> (#[trigger] jobs[j]).followed() == crons[j].text(),
        decreases crons.len() - i,
    {
        jobs.push(Job::new(&crons[i]));
        i = i + 1;
    }
    jobs
}

/// Where a job's loop stands.
#[derive(Clone, Copy, Debug, PartialEq, Eq, Structural)]
pub enum JobState {
    /// About to compute the next occurrence.
    Planning,
    /// Waiting for the occurrence at `due`.
    Sleeping { due: i64 },
    /// The action for the occurrence at `due` is running.
    Acting { due: i64 },
    /// The schedule is exhausted: the job does nothing more.
    Stopped,
}

/// What the host reports to a job.
#[derive(Clone, Copy, Debug, PartialEq, Eq, Structural)]
pub enum Event {
    /// The schedule was asked for its next occurrence; `now` is the clock
    /// when the answer came back.
    Planned { now: i64, next: Option<i64> },
    /// A sleep ended; `now` is the clock on waking.
    Woke { now: i64 },
    /// The action finished, successfully or not.
    ActionDone { succeeded: bool },
}

/// What a job asks of its host.
#[derive(Clone, Copy, Debug, PartialEq, Eq, Structural)]
pub enum Command {
    /// Compute the next occurrence and report it; `report_failure` asks to
    /// report first that the last action failed.
    Plan { report_failure: bool },
    /// Sleep for `millis` milliseconds, then report the clock.
    Sleep { millis: u64 },
    /// Run the action for the occurrence at `due`.
    Invoke { due: i64 },
    /// Report that the schedule is exhausted and end the loop.
    Stop,
    /// The event did not fit the job's state; nothing to do.
    Ignore,
}

/// How long to wait from `now` until `due`: nothing once `due` has passed.
pub open spec fn wait_spec(due: i64, now: i64) -> int {
    if due <= now {
        0
    } else {
        due - now
    }
}

/// The milliseconds to sleep from `now` until `due`, never negative: an
/// occurrence that has already passed is due at once.
pub fn wait_millis(due: i64, now: i64) -> (r: u64)
    ensures
        r == wait_spec(due, now),
{
    if due <= now {
        0
    } else {
        (due as i128 - now as i128) as u64
    }
}

/// One decision of a job: its state after `e`, and what it asks for next.
pub open spec fn next_state(s: JobState, e: Event) -> (JobState, Command) {
    match s {
        JobState::Planning => match e {
            Event::Planned { now, next } => match next {
                None => (JobState::Stopped, Command::Stop),
                Some(due) => (
                    JobState::Sleeping { due },
                    Command::Sleep { millis: wait_spec(due, now) as u64 },
                ),
            },
            _ => (s, Command::Ignore),
        },
        JobState::Sleeping { due } => match e {
            Event::Woke { now } => if due <= now {
                (JobState::Acting { due }, Command::Invoke { due })
            } else {
                (s, Command::Sleep { millis: wait_spec(due, now) as u64 })
            },
            _ => (s, Command::Ignore),
        },
        JobState::Acting { .. } => match e {
            Event::ActionDone { succeeded } => (
                JobState::Planning,
                Command::Plan { report_failure: !succeeded },
            ),
            _ => (s, Command::Ignore),
        },
        JobState::Stopped => (s, Command::Ignore),
    }
}

impl JobState {
    /// A job that has yet to compute its first occurrence; its host starts
    /// with `Command::Plan { report_failure: false }`.
    pub fn new() -> (r: JobState)
        ensures
            r == JobState::Planning,
    {
        JobState::Planning
    }

    /// Takes in what the host reports and says what the job wants next.
    pub fn step(&mut self, e: Event) -> (c: Command)
        ensures
            (*final(self), c) == next_state(*old(self), e),
    {
        match *self {
            JobState::Planning => match e {
                Event::Planned { now, next } => match next {
                    None => {
                        *self = JobState::Stopped;
                        Command::Stop
                    },
                    Some(due) => {
                        *self = JobState::Sleeping { due };
                        Command::Sleep { millis: wait_millis(due, now) }
                    },
                },
                _ => Command::Ignore,
            },
            JobState::Sleeping { due } => match e {
                Event::Woke { now } => if due <= now {
                    *self = JobState::Acting { due };
                    Command::Invoke { due }
                } else {
                    Command::Sleep { millis: wait_millis(due, now) }
                },
                _ => Command::Ignore,
            },
            JobState::Acting { .. } => match e {
                Event::ActionDone { succeeded } => {
                    *self = JobState::Planning;
                    Command::Plan { report_failure: !succeeded }
                },
                _ => Command::Ignore,
            },
            JobState::Stopped => Command::Ignore,
        }
    }

    pub fn is_stopped(&self) -> (r: bool)
        ensures
            r == (*self == JobState::Stopped),
    {
        match self {
            JobState::Stopped => true,
            _ => false,
        }
    }
}

} // verus!
