use mods_easy::clock::{epoch_to_ymdhms, has_calendar_year, is_leap, rfc3339_now};

#[test]
fn the_epoch_is_the_start_of_1970() {
    assert_eq!(epoch_to_ymdhms(0), (1970, 1, 1, 0, 0, 0));
    assert_eq!(rfc3339_now(0), "1970-01-01T00:00:00Z");
}

#[test]
fn leap_days_are_counted() {
    assert_eq!(epoch_to_ymdhms(951_782_400), (2000, 2, 29, 0, 0, 0));
    assert_eq!(epoch_to_ymdhms(951_868_799), (2000, 2, 29, 23, 59, 59));
    assert_eq!(epoch_to_ymdhms(951_868_800), (2000, 3, 1, 0, 0, 0));
    assert_eq!(epoch_to_ymdhms(1_709_164_800), (2024, 2, 29, 0, 0, 0));
    assert_eq!(epoch_to_ymdhms(4_107_542_400), (2100, 3, 1, 0, 0, 0));
}

#[test]
fn times_are_written_as_rfc_3339() {
    assert_eq!(rfc3339_now(1_000_000_000), "2001-09-09T01:46:40Z");
    assert_eq!(rfc3339_now(1_735_689_599), "2024-12-31T23:59:59Z");
    assert_eq!(rfc3339_now(253_402_300_800), "10000-01-01T00:00:00Z");
}

#[test]
fn leap_years_follow_the_gregorian_rule() {
    assert!(is_leap(2000));
    assert!(is_leap(2024));
    assert!(!is_leap(1900));
    assert!(!is_leap(2023));
}

#[test]
fn years_end_where_an_i32_does() {
    assert!(has_calendar_year(1_735_689_599));
    assert!(has_calendar_year(784_351_576_777 * 86_400 - 1));
    assert!(!has_calendar_year(784_351_576_777 * 86_400));
}
