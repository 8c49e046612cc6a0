use beerbot::schedule::{next_occurrence_after, parse_crons, Cron, CronError};

#[test]
fn parses_six_and_seven_field_expressions() {
    let c = Cron::parse("0 30 9 * * Mon-Fri").unwrap();
    assert_eq!(c.source(), "0 30 9 * * Mon-Fri");
    let c = Cron::parse("0 0 12 1 1 * 2030").unwrap();
    assert_eq!(c.source(), "0 0 12 1 1 * 2030");
}

#[test]
fn rejects_invalid_expressions() {
    assert!(Cron::parse("every day at noon").is_none());
    assert!(Cron::parse("").is_none());
    assert!(Cron::parse("0 0 25 * * *").is_none());
}

#[test]
fn parse_list_fails_on_first_invalid() {
    let texts = vec![
        "0 0 9 * * *".to_string(),
        "nonsense".to_string(),
        "also nonsense".to_string(),
    ];
    match parse_crons(&texts) {
        Err(CronError::Invalid { index, text }) => {
            assert_eq!(index, 1);
            assert_eq!(text, "nonsense");
        }
        Ok(_) => panic!("accepted an invalid expression"),
    }
}

#[test]
fn parse_list_keeps_order() {
    let texts = vec!["0 0 9 * * *".to_string(), "0 0 17 * * Fri".to_string()];
    let crons = parse_crons(&texts).unwrap();
    assert_eq!(crons.len(), 2);
    assert_eq!(crons[0].source(), "0 0 9 * * *");
    assert_eq!(crons[1].source(), "0 0 17 * * Fri");
}

#[test]
fn parse_empty_list() {
    assert_eq!(parse_crons(&Vec::new()).unwrap().len(), 0);
}

#[test]
fn next_occurrence_is_strictly_after() {
    let c = Cron::parse("* * * * * *").unwrap();
    // exactly on a second: the next one, not the same one
    let t: i64 = 1_700_000_000_000;
    assert_eq!(next_occurrence_after(&c, t, 0), Some(t + 1000));
    let t: i64 = 1_700_000_000_999;
    assert_eq!(next_occurrence_after(&c, t, 0), Some(1_700_000_001_000));
}

#[test]
fn every_minute_occurrence_within_a_minute() {
    let c = Cron::parse("0 * * * * *").unwrap();
    let t: i64 = 1_700_000_000_000;
    let n = next_occurrence_after(&c, t, 0).unwrap();
    assert!(n > t && n <= t + 60_000);
    assert_eq!(n % 60_000, 0);
}

#[test]
fn past_only_schedule_is_exhausted() {
    let c = Cron::parse("0 0 0 1 1 * 2001").unwrap();
    assert_eq!(next_occurrence_after(&c, 1_700_000_000_000, 0), None);
}

#[test]
fn fields_are_read_in_the_given_offset() {
    // 2023-11-14T22:13:20Z
    let t: i64 = 1_700_000_000_000;
    let c = Cron::parse("0 0 9 * * *").unwrap();
    // 09:00 UTC the next morning
    assert_eq!(next_occurrence_after(&c, t, 0), Some(1_700_038_800_000));
    // 09:00 at UTC+1 is 08:00 UTC
    assert_eq!(next_occurrence_after(&c, t, 3_600), Some(1_700_035_200_000));
    // 09:00 at UTC-5 is 14:00 UTC
    assert_eq!(next_occurrence_after(&c, t, -18_000), Some(1_700_056_800_000));
}

#[test]
fn extreme_offsets_are_accepted() {
    let c = Cron::parse("* * * * * *").unwrap();
    let t: i64 = 1_700_000_000_000;
    assert_eq!(next_occurrence_after(&c, t, 86_399), Some(t + 1000));
    assert_eq!(next_occurrence_after(&c, t, -86_399), Some(t + 1000));
}
