//! Jobs over time: what a job does over a whole series of events, and the
//! laws that its loop obeys.

use crate::job::{next_state, Command, Event, JobState};
use vstd::prelude::*;

verus! {

/// The state a job ends in, and the commands it issues, when it takes in
/// `events` one after another from state `s`.
pub open spec fn run(s: JobState, events: Seq<Event>) -> (JobState, Seq<Command>)
    decreases events.len(),
{
    if events.len() == 0 {
        (s, seq![])
    } else {
        let first = next_state(s, events[0]);
        let rest = run(first.0, events.drop_first());
        (rest.0, seq![first.1] + rest.1)
    }
}

/// The occurrences for which `cmds` invoke the action, in order.
pub open spec fn invocations(cmds: Seq<Command>) -> Seq<i64>
    decreases cmds.len(),
{
    if cmds.len() == 0 {
        seq![]
    } else {
        let head = match cmds[0] {
            Command::Invoke { due } => seq![due],
            _ => seq![],
        };
        head + invocations(cmds.drop_first())
    }
}

/// The later of two instants: where a virtual clock stands after sleeping
/// from `now` until `due`.
pub open spec fn later(due: i64, now: i64) -> i64 {
    if now < due {
        due
    } else {
        now
    }
}

/// What a host with a virtual clock reports to a job whose schedule answers
/// `sched(t)` for the next occurrence after `t`: the clock starts at `clock`,
/// jumps to each occurrence while the job sleeps, and the action reports
/// `outcomes[k]` in round `k`. There is one round per outcome, fewer if the
/// schedule runs out.
pub open spec fn simulated_events(
    sched: spec_fn(i64) -> Option<i64>,
    clock: i64,
    outcomes: Seq<bool>,
) -> Seq<Event>
    decreases outcomes.len(),
{
    if outcomes.len() == 0 {
        seq![]
    } else {
        match sched(clock) {
            None => seq![Event::Planned { now: clock, next: None }],
            Some(due) => seq![
                Event::Planned { now: clock, next: Some(due) },
                Event::Woke { now: later(due, clock) },
                Event::ActionDone { succeeded: outcomes[0] },
            ] + simulated_events(sched, later(due, clock), outcomes.drop_first()),
        }
    }
}

/// The occurrences that a schedule yields over `rounds` rounds from `clock`,
/// each computed from where the clock stands after the one before.
pub open spec fn natural_triggers(sched: spec_fn(i64) -> Option<i64>, clock: i64, rounds: nat) -> Seq<
    i64,
>
    decreases rounds,
{
    if rounds == 0 {
        seq![]
    } else {
        match sched(clock) {
            None => seq![],
            Some(due) => seq![due] + natural_triggers(sched, later(due, clock), (rounds - 1) as nat),
        }
    }
}

/// Whether the schedule runs out within `rounds` rounds from `clock`.
pub open spec fn exhausts_within(sched: spec_fn(i64) -> Option<i64>, clock: i64, rounds: nat) -> bool
    decreases rounds,
{
    if rounds == 0 {
        false
    } else {
        match sched(clock) {
            None => true,
            Some(due) => exhausts_within(sched, later(due, clock), (rounds - 1) as nat),
        }
    }
}

/// The clock readings that `events` report on waking, in order.
pub open spec fn wake_times(events: Seq<Event>) -> Seq<i64>
    decreases events.len(),
{
    if events.len() == 0 {
        seq![]
    } else {
        let head = match events[0] {
            Event::Woke { now } => seq![now],
            _ => seq![],
        };
        head + wake_times(events.drop_first())
    }
}

/// Where the virtual clock stands when the job wakes for each of the
/// occurrences that `natural_triggers` lists.
pub open spec fn firing_times(sched: spec_fn(i64) -> Option<i64>, clock: i64, rounds: nat) -> Seq<i64>
    decreases rounds,
{
    if rounds == 0 {
        seq![]
    } else {
        match sched(clock) {
            None => seq![],
            Some(due) => seq![later(due, clock)] + firing_times(
                sched,
                later(due, clock),
                (rounds - 1) as nat,
            ),
        }
    }
}

proof fn lemma_run_append(s: JobState, a: Seq<Event>, b: Seq<Event>)
    ensures
        run(s, a + b) == (run(run(s, a).0, b).0, run(s, a).1 + run(run(s, a).0, b).1),
    decreases a.len(),
{
    if a.len() == 0 {
        assert(a + b =~= b);
        assert(run(s, a).1 + run(s, b).1 =~= run(s, b).1);
    } else {
        let first = next_state(s, a[0]);
        assert((a + b)[0] == a[0]);
        assert((a + b).drop_first() =~= a.drop_first() + b);
        lemma_run_append(first.0, a.drop_first(), b);
        let mid = run(first.0, a.drop_first());
        assert(seq![first.1] + (mid.1 + run(mid.0, b).1) =~= (seq![first.1] + mid.1) + run(
            mid.0,
            b,
        ).1);
    }
}

proof fn lemma_run_single(s: JobState, e: Event)
    ensures
        run(s, seq![e]) == (next_state(s, e).0, seq![next_state(s, e).1]),
{
    assert(seq![e].drop_first() =~= Seq::<Event>::empty());
    let first = next_state(s, e);
    assert(run(first.0, Seq::<Event>::empty()).1 == Seq::<Command>::empty());
    assert(seq![first.1] + Seq::<Command>::empty() =~= seq![first.1]);
}

proof fn lemma_invocations_single(c: Command)
    ensures
        invocations(seq![c]) == match c {
            Command::Invoke { due } => seq![due],
            _ => Seq::<i64>::empty(),
        },
{
    assert(seq![c].drop_first() =~= Seq::<Command>::empty());
    assert(invocations(Seq::<Command>::empty()) == Seq::<i64>::empty());
    assert(seq![c][0] == c);
    let head = match c {
        Command::Invoke { due } => seq![due],
        _ => Seq::<i64>::empty(),
    };
    assert(head + Seq::<i64>::empty() =~= head);
}

proof fn lemma_invocations_append(a: Seq<Command>, b: Seq<Command>)
    ensures
        invocations(a + b) == invocations(a) + invocations(b),
    decreases a.len(),
{
    if a.len() == 0 {
        assert(a + b =~= b);
        assert(invocations(a) + invocations(b) =~= invocations(b));
    } else {
        assert((a + b)[0] == a[0]);
        assert((a + b).drop_first() =~= a.drop_first() + b);
        lemma_invocations_append(a.drop_first(), b);
        let head = match a[0] {
            Command::Invoke { due } => seq![due],
            _ => seq![],
        };
        assert(head + (invocations(a.drop_first()) + invocations(b)) =~= (head + invocations(
            a.drop_first(),
        )) + invocations(b));
    }
}

proof fn lemma_wake_times_append(a: Seq<Event>, b: Seq<Event>)
    ensures
        wake_times(a + b) == wake_times(a) + wake_times(b),
    decreases a.len(),
{
    if a.len() == 0 {
        assert(a + b =~= b);
        assert(wake_times(a) + wake_times(b) =~= wake_times(b));
    } else {
        assert((a + b)[0] == a[0]);
        assert((a + b).drop_first() =~= a.drop_first() + b);
        lemma_wake_times_append(a.drop_first(), b);
        let head = match a[0] {
            Event::Woke { now } => seq![now],
            _ => seq![],
        };
        assert(head + (wake_times(a.drop_first()) + wake_times(b)) =~= (head + wake_times(
            a.drop_first(),
        )) + wake_times(b));
    }
}

proof fn lemma_wake_times_single(e: Event)
    ensures
        wake_times(seq![e]) == match e {
            Event::Woke { now } => seq![now],
            _ => Seq::<i64>::empty(),
        },
{
    assert(seq![e].drop_first() =~= Seq::<Event>::empty());
    assert(wake_times(Seq::<Event>::empty()) == Seq::<i64>::empty());
    assert(seq![e][0] == e);
    let head = match e {
        Event::Woke { now } => seq![now],
        _ => Seq::<i64>::empty(),
    };
    assert(head + Seq::<i64>::empty() =~= head);
}

/// In the simulated rounds the job wakes once per occurrence, at the firing
/// times.
proof fn lemma_simulated_wakes(sched: spec_fn(i64) -> Option<i64>, clock: i64, outcomes: Seq<bool>)
    ensures
        wake_times(simulated_events(sched, clock, outcomes)) == firing_times(
            sched,
            clock,
            outcomes.len(),
        ),
    decreases outcomes.len(),
{
    let events = simulated_events(sched, clock, outcomes);
    if outcomes.len() == 0 {
        assert(events =~= Seq::<Event>::empty());
        assert(wake_times(events) =~= Seq::<i64>::empty());
    } else {
        match sched(clock) {
            None => {
                lemma_wake_times_single(Event::Planned { now: clock, next: None });
                assert(events =~= seq![Event::Planned { now: clock, next: None }]);
            },
            Some(due) => {
                let woke = later(due, clock);
                let e0 = Event::Planned { now: clock, next: Some(due) };
                let e1 = Event::Woke { now: woke };
                let e2 = Event::ActionDone { succeeded: outcomes[0] };
                let tail = simulated_events(sched, woke, outcomes.drop_first());
                assert(events =~= seq![e0] + (seq![e1] + (seq![e2] + tail)));
                lemma_wake_times_single(e0);
                lemma_wake_times_single(e1);
                lemma_wake_times_single(e2);
                lemma_wake_times_append(seq![e2], tail);
                lemma_wake_times_append(seq![e1], seq![e2] + tail);
                lemma_wake_times_append(seq![e0], seq![e1] + (seq![e2] + tail));
                lemma_simulated_wakes(sched, woke, outcomes.drop_first());
                assert(Seq::<i64>::empty() + (seq![woke] + (Seq::<i64>::empty() + wake_times(tail)))
                    =~= seq![woke] + wake_times(tail));
            },
        }
    }
}

/// The firing times pair up with the occurrences: as many, none before its
/// occurrence or before the start, and never going backwards.
proof fn lemma_firing_times(sched: spec_fn(i64) -> Option<i64>, clock: i64, rounds: nat)
    ensures
        ({
            let fired = natural_triggers(sched, clock, rounds);
            let times = firing_times(sched, clock, rounds);
            &&& times.len() == fired.len()
            &&& times.len() > 0 ==> clock <= times[0]
            &&& forall|i: int| 0 <= i < times.len() ==> fired[i] <= #[trigger] times[i]
            &&& forall|i: int| 0 <= i < times.len() - 1 ==> #[trigger] times[i] <= times[i + 1]
        }),
    decreases rounds,
{
    if rounds > 0 {
        if let Some(due) = sched(clock) {
            let woke = later(due, clock);
            lemma_firing_times(sched, woke, (rounds - 1) as nat);
            let fired = natural_triggers(sched, clock, rounds);
            let times = firing_times(sched, clock, rounds);
            let rest_f = natural_triggers(sched, woke, (rounds - 1) as nat);
            let rest_t = firing_times(sched, woke, (rounds - 1) as nat);
            assert(fired == seq![due] + rest_f);
            assert(times == seq![woke] + rest_t);
            assert forall|i: int| 0 <= i < times.len() implies fired[i] <= #[trigger] times[i] by {
                if i > 0 {
                    assert(fired[i] == rest_f[i - 1]);
                    assert(times[i] == rest_t[i - 1]);
                }
            }
            assert forall|i: int| 0 <= i < times.len() - 1 implies #[trigger] times[i] <= times[i
                + 1] by {
                if i > 0 {
                    assert(times[i] == rest_t[i - 1]);
                    assert(times[i + 1] == rest_t[i]);
                } else {
                    assert(times[1] == rest_t[0]);
                }
            }
        }
    }
}

/// Once stopped, a job stays stopped and invokes nothing, whatever it is told.
pub proof fn lemma_stopped_stays_stopped(events: Seq<Event>)
    ensures
        run(JobState::Stopped, events).0 == JobState::Stopped,
        invocations(run(JobState::Stopped, events).1) == Seq::<i64>::empty(),
    decreases events.len(),
{
    if events.len() > 0 {
        lemma_stopped_stays_stopped(events.drop_first());
        let rest = run(JobState::Stopped, events.drop_first());
        let cmds = run(JobState::Stopped, events).1;
        assert(cmds == seq![Command::Ignore] + rest.1);
        assert(cmds[0] == Command::Ignore);
        assert(cmds.drop_first() =~= rest.1);
        assert(invocations(cmds) =~= Seq::<i64>::empty());
    }
}

/// What a job does over the simulated rounds: it invokes its action once for
/// each occurrence that its schedule computes, in that order, whatever the
/// action reports; it ends stopped if the schedule ran out, else ready to
/// plan again; and if it stopped, its last command is `Stop`.
pub proof fn lemma_simulated_run(sched: spec_fn(i64) -> Option<i64>, clock: i64, outcomes: Seq<bool>)
    ensures
        invocations(run(JobState::Planning, simulated_events(sched, clock, outcomes)).1)
            == natural_triggers(sched, clock, outcomes.len()),
        run(JobState::Planning, simulated_events(sched, clock, outcomes)).0 == if exhausts_within(
            sched,
            clock,
            outcomes.len(),
        ) {
            JobState::Stopped
        } else {
            JobState::Planning
        },
        exhausts_within(sched, clock, outcomes.len()) ==> {
            let cmds = run(JobState::Planning, simulated_events(sched, clock, outcomes)).1;
            cmds.len() > 0 && cmds.last() == Command::Stop
        },
    decreases outcomes.len(),
{
    let events = simulated_events(sched, clock, outcomes);
    if outcomes.len() == 0 {
        assert(events =~= Seq::<Event>::empty());
        assert(invocations(run(JobState::Planning, events).1) =~= Seq::<i64>::empty());
    } else {
        match sched(clock) {
            None => {
                let r = run(JobState::Planning, events);
                assert(events[0] == Event::Planned { now: clock, next: None });
                assert(events.drop_first() =~= Seq::<Event>::empty());
                assert(run(JobState::Stopped, events.drop_first()).1 == Seq::<Command>::empty());
                assert(r.1 == seq![Command::Stop] + Seq::<Command>::empty());
                assert(r.1 =~= seq![Command::Stop]);
                lemma_invocations_single(Command::Stop);
            },
            Some(due) => {
                let woke = later(due, clock);
                let head = seq![
                    Event::Planned { now: clock, next: Some(due) },
                    Event::Woke { now: woke },
                    Event::ActionDone { succeeded: outcomes[0] },
                ];
                let tail = simulated_events(sched, woke, outcomes.drop_first());
                assert(events == head + tail);
                lemma_run_append(JobState::Planning, head, tail);
                let h = run(JobState::Planning, head);
                // the round itself
                let c0 = Command::Sleep { millis: crate::job::wait_spec(due, clock) as u64 };
                let c1 = Command::Invoke { due };
                let c2 = Command::Plan { report_failure: !outcomes[0] };
                let e0 = Event::Planned { now: clock, next: Some(due) };
                let e1 = Event::Woke { now: woke };
                let e2 = Event::ActionDone { succeeded: outcomes[0] };
                assert(head =~= seq![e0] + (seq![e1] + seq![e2]));
                lemma_run_single(JobState::Planning, e0);
                lemma_run_single(JobState::Sleeping { due }, e1);
                lemma_run_single(JobState::Acting { due }, e2);
                lemma_run_append(JobState::Sleeping { due }, seq![e1], seq![e2]);
                lemma_run_append(JobState::Planning, seq![e0], seq![e1] + seq![e2]);
                assert(h.0 == JobState::Planning);
                assert(h.1 =~= seq![c0] + (seq![c1] + seq![c2]));
                lemma_simulated_run(sched, woke, outcomes.drop_first());
                let t = run(JobState::Planning, tail);
                lemma_invocations_append(h.1, t.1);
                assert(invocations(h.1) =~= seq![due]) by {
                    lemma_invocations_single(c0);
                    lemma_invocations_single(c1);
                    lemma_invocations_single(c2);
                    lemma_invocations_append(seq![c1], seq![c2]);
                    lemma_invocations_append(seq![c0], seq![c1] + seq![c2]);
                }
                assert(natural_triggers(sched, clock, outcomes.len()) == seq![due]
                    + natural_triggers(sched, woke, outcomes.drop_first().len()));
                if exhausts_within(sched, clock, outcomes.len()) {
                    assert((h.1 + t.1).last() == t.1.last());
                }
            },
        }
    }
}

proof fn lemma_never_exhausts(sched: spec_fn(i64) -> Option<i64>, clock: i64, rounds: nat)
    requires
        forall|t: i64| (#[trigger] sched(t)) is Some,
    ensures
        natural_triggers(sched, clock, rounds).len() == rounds,
        !exhausts_within(sched, clock, rounds),
    decreases rounds,
{
    if rounds > 0 {
        let due = sched(clock)->0;
        lemma_never_exhausts(sched, later(due, clock), (rounds - 1) as nat);
    }
}

proof fn lemma_unending_chain(sched: spec_fn(i64) -> Option<i64>, clock: i64, rounds: nat)
    requires
        forall|t: i64| (#[trigger] sched(t)) matches Some(n) && t < n,
    ensures
        ({
            let fired = natural_triggers(sched, clock, rounds);
            &&& fired.len() == rounds
            &&& !exhausts_within(sched, clock, rounds)
            &&& fired.len() > 0 ==> sched(clock) == Some(fired[0])
            &&& forall|i: int|
                0 <= i < fired.len() - 1 ==> sched(#[trigger] fired[i]) == Some(fired[i + 1])
                    && fired[i] < fired[i + 1]
        }),
    decreases rounds,
{
    if rounds > 0 {
        let due = sched(clock)->0;
        assert(later(due, clock) == due);
        lemma_unending_chain(sched, due, (rounds - 1) as nat);
        let rest = natural_triggers(sched, due, (rounds - 1) as nat);
        let fired = natural_triggers(sched, clock, rounds);
        assert(fired == seq![due] + rest);
        assert forall|i: int| 0 <= i < fired.len() - 1 implies sched(#[trigger] fired[i]) == Some(
            fired[i + 1],
        ) && fired[i] < fired[i + 1] by {
            if i > 0 {
                assert(fired[i] == rest[i - 1]);
                assert(fired[i + 1] == rest[i]);
            }
        }
    }
}

proof fn lemma_short_chain_exhausts(sched: spec_fn(i64) -> Option<i64>, clock: i64, rounds: nat)
    ensures
        natural_triggers(sched, clock, rounds).len() < rounds <==> exhausts_within(sched, clock, rounds),
        natural_triggers(sched, clock, rounds).len() <= rounds,
    decreases rounds,
{
    if rounds > 0 {
        if let Some(due) = sched(clock) {
            lemma_short_chain_exhausts(sched, later(due, clock), (rounds - 1) as nat);
        }
    }
}

/// A job whose schedule always has a next occurrence invokes its action once
/// in every round, for exactly the occurrences its schedule computes, and
/// never stops. It wakes once per occurrence, never before it, at times that
/// never go backwards, and it issues no invocation while an action runs.
/// When each occurrence is strictly after the instant it was computed from,
/// as every cron schedule's is, the occurrences follow one from the other,
/// each strictly later than the one before.
pub proof fn lemma_fires_once_per_occurrence(
    sched: spec_fn(i64) -> Option<i64>,
    clock: i64,
    outcomes: Seq<bool>,
)
    requires
        forall|t: i64| (#[trigger] sched(t)) is Some,
    ensures
        ({
            let events = simulated_events(sched, clock, outcomes);
            let r = run(JobState::Planning, events);
            let fired = invocations(r.1);
            let woke = wake_times(events);
            &&& r.0 == JobState::Planning
            &&& fired == natural_triggers(sched, clock, outcomes.len())
            &&& fired.len() == outcomes.len()
            &&& woke.len() == fired.len()
            &&& woke.len() > 0 ==> clock <= woke[0]
            &&& forall|i: int| 0 <= i < woke.len() ==> fired[i] <= #[trigger] woke[i]
            &&& forall|i: int| 0 <= i < woke.len() - 1 ==> #[trigger] woke[i] <= woke[i + 1]
            &&& forall|due: i64, e: Event| (#[trigger] next_state(JobState::Acting { due }, e)).1 !is Invoke
            &&& (forall|t: i64| (#[trigger] sched(t)) matches Some(n) && t < n) ==> {
                &&& fired.len() > 0 ==> sched(clock) == Some(fired[0]) && clock < fired[0]
                &&& forall|i: int|
                    0 <= i < fired.len() - 1 ==> sched(#[trigger] fired[i]) == Some(fired[i + 1])
                        && fired[i] < fired[i + 1]
            }
        }),
{
    lemma_simulated_run(sched, clock, outcomes);
    lemma_simulated_wakes(sched, clock, outcomes);
    lemma_firing_times(sched, clock, outcomes.len());
    lemma_never_exhausts(sched, clock, outcomes.len());
    if forall|t: i64| (#[trigger] sched(t)) matches Some(n) && t < n {
        lemma_unending_chain(sched, clock, outcomes.len());
    }
}

/// A job whose schedule runs out after `n` occurrences invokes its action
/// exactly `n` times, for those occurrences, issues `Stop` last and stays
/// stopped: nothing reported afterwards makes it invoke the action again.
pub proof fn lemma_exhausted_job_stops(
    sched: spec_fn(i64) -> Option<i64>,
    clock: i64,
    outcomes: Seq<bool>,
    n: nat,
    afterwards: Seq<Event>,
)
    requires
        natural_triggers(sched, clock, outcomes.len()).len() == n,
        n < outcomes.len(),
    ensures
        ({
            let r = run(JobState::Planning, simulated_events(sched, clock, outcomes));
            &&& invocations(r.1) == natural_triggers(sched, clock, outcomes.len())
            &&& invocations(r.1).len() == n
            &&& r.0 == JobState::Stopped
            &&& r.1.len() > 0 && r.1.last() == Command::Stop
            &&& run(r.0, afterwards).0 == JobState::Stopped
            &&& invocations(run(r.0, afterwards).1).len() == 0
        }),
{
    lemma_short_chain_exhausts(sched, clock, outcomes.len());
    lemma_simulated_run(sched, clock, outcomes);
    lemma_stopped_stays_stopped(afterwards);
}

/// A failed action does not disturb the schedule: whatever the action
/// reports in each round, the job invokes it for the same occurrences and
/// ends in the same state; right after a failure it plans the next
/// occurrence, asking for the failure to be reported.
pub proof fn lemma_failure_keeps_schedule(
    sched: spec_fn(i64) -> Option<i64>,
    clock: i64,
    outcomes: Seq<bool>,
    other_outcomes: Seq<bool>,
)
    requires
        outcomes.len() == other_outcomes.len(),
    ensures
        invocations(run(JobState::Planning, simulated_events(sched, clock, outcomes)).1)
            == invocations(run(JobState::Planning, simulated_events(sched, clock, other_outcomes)).1),
        run(JobState::Planning, simulated_events(sched, clock, outcomes)).0 == run(
            JobState::Planning,
            simulated_events(sched, clock, other_outcomes),
        ).0,
        forall|due: i64|
            #[trigger] next_state(JobState::Acting { due }, Event::ActionDone { succeeded: false })
                == (JobState::Planning, Command::Plan { report_failure: true }),
{
    lemma_simulated_run(sched, clock, outcomes);
    lemma_simulated_run(sched, clock, other_outcomes);
}

/// Two jobs run side by side: each event is tagged with the job it is for
/// (`true` for the first). Returns both final states and the tagged commands.
pub open spec fn run_pair(a: JobState, b: JobState, events: Seq<(bool, Event)>) -> (
    JobState,
    JobState,
    Seq<(bool, Command)>,
)
    decreases events.len(),
{
    if events.len() == 0 {
        (a, b, seq![])
    } else {
        let (for_first, e) = events[0];
        if for_first {
            let step = next_state(a, e);
            let rest = run_pair(step.0, b, events.drop_first());
            (rest.0, rest.1, seq![(true, step.1)] + rest.2)
        } else {
            let step = next_state(b, e);
            let rest = run_pair(a, step.0, events.drop_first());
            (rest.0, rest.1, seq![(false, step.1)] + rest.2)
        }
    }
}

/// The events, or the commands, tagged for one of the two jobs.
pub open spec fn tagged_for<T>(items: Seq<(bool, T)>, first: bool) -> Seq<T>
    decreases items.len(),
{
    if items.len() == 0 {
        seq![]
    } else {
        let head = if items[0].0 == first {
            seq![items[0].1]
        } else {
            seq![]
        };
        head + tagged_for(items.drop_first(), first)
    }
}

/// Jobs are independent: when two jobs run side by side, for instance on
/// identical schedules, each ends in the state and issues the commands that
/// it would alone on its own events, whatever the other does, stopping for
/// good included.
pub proof fn lemma_jobs_independent(a: JobState, b: JobState, events: Seq<(bool, Event)>)
    ensures
        run_pair(a, b, events).0 == run(a, tagged_for(events, true)).0,
        tagged_for(run_pair(a, b, events).2, true) == run(a, tagged_for(events, true)).1,
        run_pair(a, b, events).1 == run(b, tagged_for(events, false)).0,
        tagged_for(run_pair(a, b, events).2, false) == run(b, tagged_for(events, false)).1,
    decreases events.len(),
{
    if events.len() > 0 {
        let (for_first, e) = events[0];
        let rest_events = events.drop_first();
        if for_first {
            let step = next_state(a, e);
            lemma_jobs_independent(step.0, b, rest_events);
            let rest = run_pair(step.0, b, rest_events);
            let cmds = run_pair(a, b, events).2;
            assert(cmds == seq![(true, step.1)] + rest.2);
            assert(cmds[0] == (true, step.1));
            assert(cmds.drop_first() =~= rest.2);
            let ea = tagged_for(events, true);
            assert(ea == seq![e] + tagged_for(rest_events, true));
            assert(ea[0] == e);
            assert(ea.drop_first() =~= tagged_for(rest_events, true));
            assert(tagged_for(events, false) =~= tagged_for(rest_events, false));
            assert(tagged_for(cmds, false) =~= tagged_for(rest.2, false));
            assert(tagged_for(cmds, true) =~= seq![step.1] + tagged_for(rest.2, true));
        } else {
            let step = next_state(b, e);
            lemma_jobs_independent(a, step.0, rest_events);
            let rest = run_pair(a, step.0, rest_events);
            let cmds = run_pair(a, b, events).2;
            assert(cmds == seq![(false, step.1)] + rest.2);
            assert(cmds[0] == (false, step.1));
            assert(cmds.drop_first() =~= rest.2);
            let eb = tagged_for(events, false);
            assert(eb == seq![e] + tagged_for(rest_events, false));
            assert(eb[0] == e);
            assert(eb.drop_first() =~= tagged_for(rest_events, false));
            assert(tagged_for(events, true) =~= tagged_for(rest_events, true));
            assert(tagged_for(cmds, true) =~= tagged_for(rest.2, true));
            assert(tagged_for(cmds, false) =~= seq![step.1] + tagged_for(rest.2, false));
        }
    }
}

} // verus!
