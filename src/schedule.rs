//! Cron schedules and the instants they produce.
//!
//! Instants are milliseconds since the Unix epoch, held in an `i64`.

use std::str::FromStr;
use vstd::prelude::*;

verus! {

#[verifier::external_type_specification]
#[verifier::external_body]
pub struct ExSchedule(cron::Schedule);

#[verifier::external_type_specification]
#[verifier::external_body]
pub struct ExCronError(cron::error::Error);

/// The largest distance from the epoch, in milliseconds, that an instant of
/// this library may have (about 253,000 years, well inside chrono's range).
pub const INSTANT_LIMIT: i64 = 8_000_000_000_000_000;

/// An instant that chrono can hold, with room to add a day either way.
pub open spec fn is_instant(t: int) -> bool {
    -INSTANT_LIMIT <= t <= INSTANT_LIMIT
}

/// Whether cron accepts `text` as a schedule expression.
pub uninterp spec fn cron_accepts(text: Seq<char>) -> bool;

/// Relies on cron's `Schedule::from_str`: it fails exactly on the texts that
/// its parser rejects, which depends on the text alone.
#[verifier::external_body]
fn parse_expression(text: &str) -> (r: Result<cron::Schedule, cron::error::Error>)
    ensures
        r.is_ok() == cron_accepts(text@),
{
    cron::Schedule::from_str(text)
}

/// An offset from UTC, in seconds, that chrono accepts: less than a day
/// either way.
pub open spec fn is_utc_offset(secs: int) -> bool {
    -86_400 < secs < 86_400
}

/// A schedule expression that failed to parse.
#[derive(Debug)]
pub enum CronError {
    /// The expression at `index` of the list is not valid cron syntax.
    Invalid { index: usize, text: String },
}

/// A parsed schedule, together with the text it was parsed from.
pub struct Cron {
    source: String,
    schedule: cron::Schedule,
}

impl Cron {
    /// The text this schedule was parsed from.
    pub closed spec fn text(&self) -> Seq<char> {
        self.source@
    }

    /// Parses one schedule expression (seconds, minutes, hours, day of month,
    /// month, day of week and an optional year).
    pub fn parse(text: &str) -> (r: Option<Cron>)
        ensures
            r is Some <==> cron_accepts(text@),
            r matches Some(c) ==> c.text() == text@,
    {
        match parse_expression(text) {
            Ok(schedule) => Some(Cron { source: text.to_string(), schedule }),
            Err(_) => None,
        }
    }

    /// The text this schedule was parsed from.
    pub fn source(&self) -> (r: &String)
        ensures
            r@ == self.text(),
    {
        &self.source
    }

}

/// The first occurrence strictly after `t` of the cron expression `text`,
/// its fields read in local time `offset_secs` seconds ahead of UTC; `None`
/// when there is none.
pub uninterp spec fn cron_next(text: Seq<char>, t: i64, offset_secs: i32) -> Option<i64>;

/// Relies on cron's `Schedule::after(..).next()` on a `DateTime<FixedOffset>`,
/// built with chrono's `DateTime::from_timestamp_millis` (defined on all of
/// chrono's range) and `FixedOffset::east_opt` (defined for offsets under a
/// day). The schedule was parsed from `cron.text()`, and the search uses no
/// clock or time zone of the machine, so the result depends on the text, `t`
/// and the offset alone. cron starts its search one second past `t`, yields
/// whole seconds of the offset's local time only, and has no year past 2100:
/// an occurrence lies strictly after `t` and within the instant range, and
/// `None` means the schedule has none left. Under a fixed offset every local
/// time exists exactly once, so cron's lookup of each day cannot fail.
#[verifier::external_body]
fn first_occurrence_after(cron: &Cron, t: i64, offset_secs: i32) -> (r: Option<i64>)
    requires
        is_instant(t as int),
        is_utc_offset(offset_secs as int),
    ensures
        r == cron_next(cron.text(), t, offset_secs),
        r matches Some(n) ==> t < n && is_instant(n as int),
{
    let offset = chrono::FixedOffset::east_opt(offset_secs).unwrap();
    let after = chrono::DateTime::from_timestamp_millis(t).unwrap().with_timezone(&offset);
    cron.schedule.after(&after).next().map(|d| d.timestamp_millis())
}

/// The first occurrence of `cron` strictly after `t`, reading its fields in
/// local time `offset_secs` seconds ahead of UTC; `None` once the schedule is
/// exhausted.
pub fn next_occurrence_after(cron: &Cron, t: i64, offset_secs: i32) -> (r: Option<i64>)
    requires
        is_instant(t as int),
        is_utc_offset(offset_secs as int),
    ensures
        r == cron_next(cron.text(), t, offset_secs),
        r matches Some(n) ==> t < n && is_instant(n as int),
{
    first_occurrence_after(cron, t, offset_secs)
}

/// Parses every configured expression; the first one that does not parse
/// makes the whole list fail.
pub fn parse_crons(texts: &Vec<String>) -> (r: Result<Vec<Cron>, CronError>)
    ensures
        r is Ok <==> forall|i: int| 0 <= i < texts.len() ==> cron_accepts(#[trigger] texts[i]@),
        r matches Ok(v) ==> v.len() == texts.len() && forall|i: int|
            0 <= i < texts.len() ==> (#[trigger] v[i]).text() == texts[i]@,
        r matches Err(CronError::Invalid { index, text }) ==> index < texts.len()
            && !cron_accepts(texts[index as int]@) && text@ == texts[index as int]@
            && forall|i: int| 0 <= i < index ==> cron_accepts(#[trigger] texts[i]@),
{
    let mut crons: Vec<Cron> = Vec::new();
    let mut i: usize = 0;
    while i < texts.len()
        invariant
            i <= texts.len(),
            crons.len() == i,
            forall|j: int| 0 <= j < i ==> cron_accepts(#[trigger] texts[j]@),
            forall|j: int| 0 <= j < i ==> (#[trigger] crons[j]).text() == texts[j]@,
        decreases texts.len() - i,
    {
        match Cron::parse(texts[i].as_str()) {
            Some(c) => crons.push(c),
            None => {
                return Err(CronError::Invalid { index: i, text: texts[i].clone() });
            },
        }
        i = i + 1;
    }
    Ok(crons)
}

} // verus!
