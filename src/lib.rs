//! A chat bot's scheduling core: cron schedules, the loop that each scheduled
//! job runs, the answer to "when is the next one?", and the messages it posts.

pub mod schedule;
pub mod job;
pub mod run;
pub mod query;
pub mod config;
pub mod message;
