use beerbot::job::{jobs_for, wait_millis, Command, Event, Job, JobState};
use beerbot::schedule::{parse_crons, Cron};

const MINUTE: i64 = 60_000;

/// The next whole minute strictly after `t`.
fn every_minute(t: i64) -> Option<i64> {
    Some((t.div_euclid(MINUTE) + 1) * MINUTE)
}

/// Drives a job with a virtual clock: one round per outcome, the clock jumping
/// to each occurrence while the job sleeps. Returns the invoked occurrences
/// and every command the job issued.
fn drive(
    state: &mut JobState,
    clock: &mut i64,
    sched: &dyn Fn(i64) -> Option<i64>,
    outcomes: &[bool],
) -> (Vec<i64>, Vec<Command>) {
    let mut fired = Vec::new();
    let mut cmds = Vec::new();
    for ok in outcomes {
        let c = state.step(Event::Planned { now: *clock, next: sched(*clock) });
        cmds.push(c);
        let millis = match c {
            Command::Stop => break,
            Command::Sleep { millis } => millis,
            other => panic!("unexpected command {:?}", other),
        };
        *clock += millis as i64;
        let c = state.step(Event::Woke { now: *clock });
        cmds.push(c);
        match c {
            Command::Invoke { due } => fired.push(due),
            other => panic!("unexpected command {:?}", other),
        }
        let c = state.step(Event::ActionDone { succeeded: *ok });
        cmds.push(c);
        assert_eq!(c, Command::Plan { report_failure: !*ok });
    }
    (fired, cmds)
}

#[test]
fn new_job_starts_planning() {
    assert_eq!(JobState::new(), JobState::Planning);
    assert!(!JobState::new().is_stopped());
}

#[test]
fn wait_is_the_distance_to_a_future_occurrence() {
    assert_eq!(wait_millis(10_000, 4_000), 6_000);
    assert_eq!(wait_millis(1, 0), 1);
}

#[test]
fn wait_is_zero_for_a_passed_or_present_occurrence() {
    assert_eq!(wait_millis(4_000, 4_000), 0);
    assert_eq!(wait_millis(3_600, 4_000), 0);
    assert_eq!(wait_millis(i64::MIN, i64::MAX), 0);
}

#[test]
fn wait_spans_the_whole_range() {
    assert_eq!(wait_millis(i64::MAX, i64::MIN), u64::MAX);
}

#[test]
fn occurrence_just_past_proceeds_at_once() {
    let now: i64 = 1_700_000_000_000;
    let mut s = JobState::new();
    let c = s.step(Event::Planned { now, next: Some(now - 400) });
    assert_eq!(c, Command::Sleep { millis: 0 });
    assert_eq!(s, JobState::Sleeping { due: now - 400 });
    let c = s.step(Event::Woke { now });
    assert_eq!(c, Command::Invoke { due: now - 400 });
    assert_eq!(s, JobState::Acting { due: now - 400 });
}

#[test]
fn early_wake_sleeps_the_rest() {
    let mut s = JobState::Sleeping { due: 10_000 };
    assert_eq!(s.step(Event::Woke { now: 9_250 }), Command::Sleep { millis: 750 });
    assert_eq!(s, JobState::Sleeping { due: 10_000 });
    assert_eq!(s.step(Event::Woke { now: 10_000 }), Command::Invoke { due: 10_000 });
}

#[test]
fn exhausted_schedule_stops_the_job() {
    let mut s = JobState::new();
    assert_eq!(s.step(Event::Planned { now: 5, next: None }), Command::Stop);
    assert!(s.is_stopped());
    assert_eq!(s.step(Event::Woke { now: 6 }), Command::Ignore);
    assert_eq!(s.step(Event::Planned { now: 7, next: Some(9) }), Command::Ignore);
    assert_eq!(s, JobState::Stopped);
}

#[test]
fn events_out_of_turn_are_ignored() {
    let mut s = JobState::new();
    assert_eq!(s.step(Event::Woke { now: 1 }), Command::Ignore);
    assert_eq!(s.step(Event::ActionDone { succeeded: true }), Command::Ignore);
    assert_eq!(s, JobState::Planning);
    let mut s = JobState::Sleeping { due: 3 };
    assert_eq!(s.step(Event::Planned { now: 1, next: None }), Command::Ignore);
    assert_eq!(s, JobState::Sleeping { due: 3 });
    let mut s = JobState::Acting { due: 3 };
    assert_eq!(s.step(Event::Woke { now: 4 }), Command::Ignore);
    assert_eq!(s, JobState::Acting { due: 3 });
}

#[test]
fn fires_once_per_occurrence_in_order() {
    let mut s = JobState::new();
    let mut clock: i64 = 1_700_000_012_345;
    let outcomes = vec![true; 1000];
    let (fired, _) = drive(&mut s, &mut clock, &every_minute, &outcomes);
    assert_eq!(fired.len(), 1000);
    assert_eq!(fired[0], every_minute(1_700_000_012_345).unwrap());
    for w in fired.windows(2) {
        assert!(w[0] < w[1]);
        assert_eq!(Some(w[1]), every_minute(w[0]));
    }
    assert_eq!(s, JobState::Planning);
}

#[test]
fn schedule_exhausted_after_three_occurrences_fires_three_times() {
    let end: i64 = 4 * MINUTE;
    let sched = move |t: i64| every_minute(t).filter(|n| *n < end);
    let mut s = JobState::new();
    let mut clock: i64 = 0;
    let (fired, cmds) = drive(&mut s, &mut clock, &sched, &[true; 10]);
    assert_eq!(fired, vec![MINUTE, 2 * MINUTE, 3 * MINUTE]);
    assert_eq!(cmds.last(), Some(&Command::Stop));
    assert!(s.is_stopped());
    for k in 0..5 {
        let t = clock + k * MINUTE;
        assert_eq!(s.step(Event::Planned { now: t, next: every_minute(t) }), Command::Ignore);
        assert_eq!(s.step(Event::Woke { now: t + MINUTE }), Command::Ignore);
        assert_eq!(s.step(Event::ActionDone { succeeded: true }), Command::Ignore);
    }
    assert!(s.is_stopped());
}

#[test]
fn fixed_date_in_the_past_never_fires() {
    let mut s = JobState::new();
    let mut clock: i64 = 1_700_000_000_000;
    let (fired, cmds) = drive(&mut s, &mut clock, &|_| None, &[true; 3]);
    assert!(fired.is_empty());
    assert_eq!(cmds, vec![Command::Stop]);
}

#[test]
fn failed_action_keeps_the_next_natural_trigger() {
    let start: i64 = 30_000;
    let mut ok_state = JobState::new();
    let mut ok_clock = start;
    let (ok_fired, _) = drive(&mut ok_state, &mut ok_clock, &every_minute, &[true; 6]);
    let mut bad_state = JobState::new();
    let mut bad_clock = start;
    let outcomes = [true, true, false, true, false, false];
    let (bad_fired, bad_cmds) = drive(&mut bad_state, &mut bad_clock, &every_minute, &outcomes);
    assert_eq!(ok_fired, bad_fired);
    assert_eq!(bad_fired[3], 4 * MINUTE);
    assert!(bad_cmds.contains(&Command::Plan { report_failure: true }));
    assert_eq!(bad_state, ok_state);
}

#[test]
fn failure_report_then_plan() {
    let mut s = JobState::Acting { due: 42 };
    assert_eq!(
        s.step(Event::ActionDone { succeeded: false }),
        Command::Plan { report_failure: true }
    );
    assert_eq!(s, JobState::Planning);
}

#[test]
fn jobs_on_identical_schedules_run_independently() {
    let mut a = JobState::new();
    let mut b = JobState::new();
    let mut clock: i64 = 0;
    // the first job sees its schedule exhausted and stops
    assert_eq!(a.step(Event::Planned { now: clock, next: None }), Command::Stop);
    // the second keeps firing on the same schedule
    let (fired, _) = drive(&mut b, &mut clock, &every_minute, &[true; 4]);
    assert_eq!(fired, vec![MINUTE, 2 * MINUTE, 3 * MINUTE, 4 * MINUTE]);
    assert!(a.is_stopped());
    assert_eq!(b, JobState::Planning);
}

#[test]
fn one_job_per_configured_schedule() {
    let texts = vec!["0 0 9 * * *".to_string(), "*/5 * * * * *".to_string()];
    let crons = match parse_crons(&texts) {
        Ok(c) => c,
        Err(e) => panic!("{:?}", e),
    };
    let jobs = jobs_for(&crons);
    assert_eq!(jobs.len(), 2);
    let now: i64 = 1_700_000_000_000;
    assert_eq!(
        jobs[1].next_after(now, 0),
        beerbot::schedule::next_occurrence_after(&crons[1], now, 0)
    );
}

#[test]
fn job_next_occurrence_is_after_now() {
    let cron = Cron::parse("* * * * * *").unwrap();
    let job = Job::new(&cron);
    let now: i64 = 1_700_000_000_250;
    let next = job.next_after(now, 0).unwrap();
    assert!(next > now);
    assert_eq!(next, 1_700_000_001_000);
}

#[test]
fn job_on_past_year_has_no_occurrence() {
    let cron = Cron::parse("0 0 0 1 1 * 1999").unwrap();
    let job = Job::new(&cron);
    assert_eq!(job.next_after(1_700_000_000_000, 0), None);
}
