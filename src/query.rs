//! The answer to "when is the next one?": the soonest next occurrence over
//! all configured schedules, and the reply to the chat command that asks it.

use crate::schedule::{cron_next, is_instant, is_utc_offset, next_occurrence_after, Cron};
use vstd::prelude::*;

verus! {

/// The command that asks how long until the next scheduled message.
pub const WHEN_COMMAND: &'static str = "/when-can-i-drink";

/// The answer when no schedule has an occurrence left.
pub const UNKNOWN_WAIT: &'static str = "in some time";

/// The answer to any other command.
pub const UNKNOWN_COMMAND: &'static str = "Dunno that one";

/// Every occurrence in `nexts` is an instant.
pub open spec fn all_instants(nexts: Seq<Option<i64>>) -> bool {
    forall|i: int| 0 <= i < nexts.len() ==> (#[trigger] nexts[i] matches Some(n) ==> is_instant(n as int))
}

/// Every occurrence in `nexts` lies strictly after `now`, within the instant range.
pub open spec fn all_after(nexts: Seq<Option<i64>>, now: i64) -> bool {
    forall|i: int|
        0 <= i < nexts.len() ==> (#[trigger] nexts[i] matches Some(n) ==> now < n && is_instant(n as int))
}

/// The earlier of two optional occurrences; a missing one does not count.
pub open spec fn earlier(a: Option<i64>, b: Option<i64>) -> Option<i64> {
    match (a, b) {
        (Some(x), Some(y)) => if y < x {
            Some(y)
        } else {
            Some(x)
        },
        (None, _) => b,
        (_, None) => a,
    }
}

/// The soonest of the next occurrences `nexts`, `None` when there is none.
pub open spec fn soonest(nexts: Seq<Option<i64>>) -> Option<i64>
    decreases nexts.len(),
{
    if nexts.len() == 0 {
        None
    } else {
        earlier(soonest(nexts.drop_last()), nexts.last())
    }
}

/// The soonest of the next occurrences `nexts`, as a delay from `now`.
pub open spec fn soonest_delay(nexts: Seq<Option<i64>>, now: i64) -> Option<i64> {
    match soonest(nexts) {
        Some(n) => Some((n - now) as i64),
        None => None,
    }
}

/// The delay from `now` to the soonest of `nexts`, skipping the schedules
/// that have no next occurrence; `None` when none has one.
pub fn min_delay(nexts: &Vec<Option<i64>>, now: i64) -> (r: Option<i64>)
    requires
        is_instant(now as int),
        all_instants(nexts@),
    ensures
        r is None <==> forall|i: int| 0 <= i < nexts.len() ==> nexts[i] is None,
        r matches Some(d) ==> (exists|i: int|
            0 <= i < nexts.len() && nexts[i] is Some && nexts[i]->0 - now == d) && forall|i: int|
            0 <= i < nexts.len() && #[trigger] nexts[i] is Some ==> d <= nexts[i]->0 - now,
        r == soonest_delay(nexts@, now),
{
    let mut best: Option<i64> = None;
    let mut best_at: usize = 0;
    let mut i: usize = 0;
    while i < nexts.len()
        invariant
            i <= nexts.len(),
            is_instant(now as int),
            all_instants(nexts@),
            best == soonest(nexts@.take(i as int)),
            best is None <==> forall|j: int| 0 <= j < i ==> nexts[j] is None,
            best matches Some(b) ==> best_at < i && nexts[best_at as int] == Some(b) && forall|j: int|
                0 <= j < i && #[trigger] nexts[j] is Some ==> b <= nexts[j]->0,
        decreases nexts.len() - i,
    {
        proof {
            assert(nexts@.take(i + 1).drop_last() =~= nexts@.take(i as int));
        }
        if let Some(n) = nexts[i] {
            match best {
                Some(b) => {
                    if n < b {
                        best = Some(n);
                        best_at = i;
                    }
                },
                None => {
                    best = Some(n);
                    best_at = i;
                },
            }
        }
        i = i + 1;
    }
    match best {
        Some(b) => {
            let d: i64 = b - now;
            proof {
                assert(nexts@.take(nexts.len() as int) =~= nexts@);
            }
            Some(d)
        },
        None => {
            proof {
                assert(nexts@.take(nexts.len() as int) =~= nexts@);
            }
            None
        },
    }
}

/// Each schedule's next occurrence after `now`, in order, read in local time
/// `offset_secs` seconds ahead of UTC.
pub open spec fn next_occurrences_of(crons: Seq<Cron>, now: i64, offset_secs: i32) -> Seq<
    Option<i64>,
> {
    crons.map_values(|c: Cron| cron_next(c.text(), now, offset_secs))
}

/// Each schedule's next occurrence after `now`, in order.
fn next_occurrences(crons: &Vec<Cron>, now: i64, offset_secs: i32) -> (r: Vec<Option<i64>>)
    requires
        is_instant(now as int),
        is_utc_offset(offset_secs as int),
    ensures
        r@ == next_occurrences_of(crons@, now, offset_secs),
        all_after(r@, now),
{
    let mut nexts: Vec<Option<i64>> = Vec::new();
    let mut i: usize = 0;
    while i < crons.len()
        invariant
            i <= crons.len(),
            is_instant(now as int),
            is_utc_offset(offset_secs as int),
            nexts@ == next_occurrences_of(crons@.take(i as int), now, offset_secs),
            all_after(nexts@, now),
        decreases crons.len() - i,
    {
        let next = next_occurrence_after(&crons[i], now, offset_secs);
        proof {
            assert(next_occurrences_of(crons@.take(i + 1), now, offset_secs) =~= next_occurrences_of(
                crons@.take(i as int),
                now,
                offset_secs,
            ).push(next));
        }
        nexts.push(next);
        i = i + 1;
    }
    proof {
        assert(crons@.take(crons.len() as int) =~= crons@);
    }
    nexts
}

/// How long until the next occurrence of any of `crons` after `now`, their
/// fields read in local time `offset_secs` seconds ahead of UTC: the soonest
/// of their next occurrences, always positive, or `None` when no schedule has
/// an occurrence left (an empty list included).
pub fn next_delay(crons: &Vec<Cron>, now: i64, offset_secs: i32) -> (r: Option<i64>)
    requires
        is_instant(now as int),
        is_utc_offset(offset_secs as int),
    ensures
        r == soonest_delay(next_occurrences_of(crons@, now, offset_secs), now),
        r matches Some(d) ==> d > 0,
        crons.len() == 0 ==> r is None,
{
    let nexts = next_occurrences(crons, now, offset_secs);
    let r = min_delay(&nexts, now);
    proof {
        if let Some(d) = r {
            let i = choose|i: int| 0 <= i < nexts.len() && nexts[i] is Some && nexts[i]->0 - now == d;
            assert(nexts@[i] is Some);
            assert(now < nexts@[i]->0);
        }
    }
    r
}

/// The rough English phrase that chrono-humanize gives a delay of `millis`
/// milliseconds, such as "in 3 hours".
pub uninterp spec fn humanized(millis: int) -> Seq<char>;

/// Relies on chrono-humanize: `HumanTime::from(delta).to_string()` is the
/// rough English phrase for a delay, which depends on the delay alone;
/// chrono's `TimeDelta::milliseconds` panics on `i64::MIN` only.
#[verifier::external_body]
fn humanize(millis: i64) -> (r: String)
    requires
        millis != i64::MIN,
    ensures
        r@ == humanized(millis as int),
{
    chrono_humanize::HumanTime::from(chrono::TimeDelta::milliseconds(millis)).to_string()
}

/// How a delay until the next occurrence reads in a reply.
pub open spec fn delay_text(delay: Option<i64>) -> Seq<char> {
    match delay {
        Some(d) => humanized(d as int),
        None => UNKNOWN_WAIT@,
    }
}

/// Puts a delay in words; with no delay known, "in some time".
pub fn describe_delay(delay: Option<i64>) -> (r: String)
    requires
        delay matches Some(d) ==> d != i64::MIN,
    ensures
        r@ == delay_text(delay),
{
    match delay {
        Some(d) => humanize(d),
        None => UNKNOWN_WAIT.to_string(),
    }
}

/// The reply to a chat command.
#[derive(Debug)]
pub struct CommandReply {
    pub text: String,
    /// Whether everyone in the channel sees the reply, not only the sender.
    pub in_channel: bool,
}

/// Whether `command` asks how long until the next message.
pub open spec fn asks_when(command: Seq<char>) -> bool {
    command == WHEN_COMMAND@
}

/// The reply to `command`, given the delay until the next message: that
/// delay in words, for the whole channel, when the command asks for it;
/// otherwise a private "Dunno that one".
pub fn reply_with(command: &String, delay: Option<i64>) -> (r: CommandReply)
    requires
        delay matches Some(d) ==> d != i64::MIN,
    ensures
        asks_when(command@) ==> r.text@ == delay_text(delay) && r.in_channel,
        !asks_when(command@) ==> r.text@ == UNKNOWN_COMMAND@ && !r.in_channel,
{
    let when = WHEN_COMMAND.to_string();
    if *command == when {
        CommandReply { text: describe_delay(delay), in_channel: true }
    } else {
        CommandReply { text: UNKNOWN_COMMAND.to_string(), in_channel: false }
    }
}

/// Answers a chat command at `now`, in local time `offset_secs` seconds ahead
/// of UTC: for the "when" command, the delay until the soonest next
/// occurrence of any of `crons`.
pub fn answer_command(command: &String, crons: &Vec<Cron>, now: i64, offset_secs: i32) -> (r:
    CommandReply)
    requires
        is_instant(now as int),
        is_utc_offset(offset_secs as int),
    ensures
        r.in_channel == asks_when(command@),
        !asks_when(command@) ==> r.text@ == UNKNOWN_COMMAND@,
        asks_when(command@) ==> r.text@ == delay_text(
            soonest_delay(next_occurrences_of(crons@, now, offset_secs), now),
        ),
        asks_when(command@) && crons.len() == 0 ==> r.text@ == UNKNOWN_WAIT@,
{
    let when = WHEN_COMMAND.to_string();
    let delay = if *command == when {
        next_delay(crons, now, offset_secs)
    } else {
        None
    };
    reply_with(command, delay)
}

} // verus!
