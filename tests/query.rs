use beerbot::query::{
    answer_command, describe_delay, min_delay, next_delay, reply_with, UNKNOWN_COMMAND,
    UNKNOWN_WAIT, WHEN_COMMAND,
};
use beerbot::schedule::{parse_crons, Cron};

const NOW: i64 = 1_700_000_000_000;

#[test]
fn soonest_of_three_schedules() {
    let nexts = vec![Some(NOW + 5_000), Some(NOW + 7_200_000), None];
    assert_eq!(min_delay(&nexts, NOW), Some(5_000));
}

#[test]
fn soonest_regardless_of_order() {
    let nexts = vec![None, Some(NOW + 7_200_000), Some(NOW + 5_000), Some(NOW + 60_000)];
    assert_eq!(min_delay(&nexts, NOW), Some(5_000));
}

#[test]
fn soonest_with_equal_occurrences() {
    let nexts = vec![Some(NOW + 1_000), Some(NOW + 1_000)];
    assert_eq!(min_delay(&nexts, NOW), Some(1_000));
}

#[test]
fn no_schedules_gives_none() {
    assert_eq!(min_delay(&Vec::new(), NOW), None);
}

#[test]
fn all_exhausted_gives_none() {
    assert_eq!(min_delay(&vec![None, None, None], NOW), None);
}

#[test]
fn next_delay_of_no_crons_is_none() {
    assert_eq!(next_delay(&Vec::new(), NOW, 0), None);
}

#[test]
fn next_delay_skips_exhausted_crons() {
    let crons = parse_crons(&vec!["0 0 0 1 1 * 2001".to_string()]).unwrap();
    assert_eq!(next_delay(&crons, NOW, 0), None);
    let crons = parse_crons(&vec![
        "0 0 0 1 1 * 2001".to_string(),
        "* * * * * *".to_string(),
    ])
    .unwrap();
    assert_eq!(next_delay(&crons, NOW + 250, 0), Some(750));
}

#[test]
fn describe_unknown_delay() {
    assert_eq!(describe_delay(None), "in some time");
    assert_eq!(UNKNOWN_WAIT, "in some time");
}

#[test]
fn describe_hours() {
    assert_eq!(describe_delay(Some(3 * 3_600_000)), "in 3 hours");
    assert_eq!(describe_delay(Some(7_200_000)), "in 2 hours");
}

#[test]
fn describe_seconds() {
    assert_eq!(describe_delay(Some(30_000)), "in 30 seconds");
    assert_eq!(describe_delay(Some(5_000)), "now");
}

#[test]
fn reply_to_when_command() {
    let r = reply_with(&WHEN_COMMAND.to_string(), Some(3 * 3_600_000));
    assert_eq!(r.text, "in 3 hours");
    assert!(r.in_channel);
    let r = reply_with(&"/when-can-i-drink".to_string(), None);
    assert_eq!(r.text, "in some time");
    assert!(r.in_channel);
}

#[test]
fn reply_to_unknown_command() {
    let r = reply_with(&"/beer".to_string(), Some(1_000));
    assert_eq!(r.text, "Dunno that one");
    assert_eq!(r.text, UNKNOWN_COMMAND);
    assert!(!r.in_channel);
}

#[test]
fn answer_with_no_schedules() {
    let r = answer_command(&WHEN_COMMAND.to_string(), &Vec::new(), NOW, 0);
    assert_eq!(r.text, "in some time");
    assert!(r.in_channel);
}

#[test]
fn answer_with_schedules() {
    let crons: Vec<Cron> = vec![Cron::parse("0 0 0 1 1 * 2001").unwrap()];
    let r = answer_command(&WHEN_COMMAND.to_string(), &crons, NOW, 0);
    assert_eq!(r.text, "in some time");
    let crons: Vec<Cron> = vec![Cron::parse("0 * * * * *").unwrap()];
    let r = answer_command(&WHEN_COMMAND.to_string(), &crons, NOW, 0);
    assert!(r.in_channel);
    // 22:13:20 UTC: the next whole minute is 40 seconds away
    assert_eq!(next_delay(&crons, NOW, 0), Some(40_000));
    assert_eq!(r.text, "in 40 seconds");
    let r = answer_command(&"/help".to_string(), &crons, NOW, 0);
    assert_eq!(r.text, "Dunno that one");
    assert!(!r.in_channel);
}

#[test]
fn answer_names_the_next_morning() {
    let crons: Vec<Cron> = vec![Cron::parse("0 0 9 * * *").unwrap()];
    assert_eq!(next_delay(&crons, NOW, 0), Some(38_800_000));
    let r = answer_command(&WHEN_COMMAND.to_string(), &crons, NOW, 0);
    assert_eq!(r.text, "in 10 hours");
    assert!(r.in_channel);
}
