use account_groups::account::{Account, Group};
use account_groups::session::{
    classify, policy, SessionState, Timestamp, MAX_SECONDS, MIN_SECONDS, NANOS_PER_SECOND,
};
use account_groups::text::push_decimal;

fn at(secs: i64, nanos: u32) -> Timestamp {
    Timestamp::new(secs, nanos).unwrap()
}

fn until(valid_until: Option<Timestamp>) -> Account {
    Account { name: "a".to_string(), arn: "arn:role/R".to_string(), valid_until }
}

const NOW: i64 = 1_700_000_000;

#[test]
fn no_session_is_expired() {
    assert_eq!(classify(&until(None), at(NOW, 0)), SessionState::Expired);
}

#[test]
fn session_ending_now_has_zero_minutes() {
    assert_eq!(classify(&until(Some(at(NOW, 0))), at(NOW, 0)), SessionState::Active(0));
    assert_eq!(classify(&until(Some(at(NOW, 5))), at(NOW, 5)), SessionState::Active(0));
}

#[test]
fn one_minute_ahead_is_one_minute() {
    assert_eq!(classify(&until(Some(at(NOW + 60, 0))), at(NOW, 0)), SessionState::Active(1));
    assert_eq!(classify(&until(Some(at(NOW + 60, 250))), at(NOW, 250)), SessionState::Active(1));
}

#[test]
fn minutes_are_rounded_towards_zero() {
    let now = at(NOW, 0);
    assert_eq!(classify(&until(Some(at(NOW + 59, 999_999_999))), now), SessionState::Active(0));
    assert_eq!(classify(&until(Some(at(NOW + 119, 0))), now), SessionState::Active(1));
    assert_eq!(classify(&until(Some(at(NOW + 120, 0))), now), SessionState::Active(2));
    assert_eq!(classify(&until(Some(at(NOW + 3600, 0))), now), SessionState::Active(60));
    assert_eq!(classify(&until(Some(at(NOW - 1, 0))), now), SessionState::Active(0));
    assert_eq!(classify(&until(Some(at(NOW - 59, 0))), now), SessionState::Active(0));
    assert_eq!(classify(&until(Some(at(NOW - 60, 1))), now), SessionState::Active(0));
}

#[test]
fn a_whole_minute_in_the_past_is_expired() {
    let now = at(NOW, 0);
    assert_eq!(classify(&until(Some(at(NOW - 60, 0))), now), SessionState::Expired);
    assert_eq!(classify(&until(Some(at(NOW - 61, 0))), now), SessionState::Expired);
    assert_eq!(classify(&until(Some(at(NOW - 86_400, 0))), now), SessionState::Expired);
}

#[test]
fn nanoseconds_count() {
    assert_eq!(classify(&until(Some(at(NOW + 60, 0))), at(NOW, 1)), SessionState::Active(0));
    assert_eq!(classify(&until(Some(at(NOW - 60, 0))), at(NOW, 0)), SessionState::Expired);
    assert_eq!(classify(&until(Some(at(NOW - 60, 0))), at(NOW - 1, 999_999_999)), SessionState::Active(0));
    assert_eq!(classify(&until(Some(at(NOW - 61, 999_999_999))), at(NOW - 1, 999_999_998)), SessionState::Active(0));
    assert_eq!(classify(&until(Some(at(NOW - 61, 999_999_998))), at(NOW - 1, 999_999_998)), SessionState::Expired);
}

#[test]
fn moments_before_the_epoch_are_classified() {
    assert_eq!(classify(&until(Some(at(-100, 0))), at(-220, 0)), SessionState::Active(2));
    assert_eq!(classify(&until(Some(at(-220, 0))), at(-100, 0)), SessionState::Expired);
    assert_eq!(classify(&until(Some(at(30, 0))), at(-30, 0)), SessionState::Active(1));
}

#[test]
fn the_whole_range_of_timestamps_is_classified() {
    let first = at(MIN_SECONDS, 0);
    let last = at(MAX_SECONDS, NANOS_PER_SECOND - 1);
    let span = MAX_SECONDS - MIN_SECONDS;
    assert_eq!(classify(&until(Some(last)), first), SessionState::Active(span / 60));
    assert_eq!(classify(&until(Some(first)), last), SessionState::Expired);
    assert_eq!(classify(&until(Some(first)), first), SessionState::Active(0));
    assert_eq!(classify(&until(Some(last)), last), SessionState::Active(0));
}

#[test]
fn timestamps_outside_the_range_are_refused() {
    assert!(Timestamp::new(MAX_SECONDS, 0).is_some());
    assert!(Timestamp::new(MAX_SECONDS + 1, 0).is_none());
    assert!(Timestamp::new(MIN_SECONDS, 0).is_some());
    assert!(Timestamp::new(MIN_SECONDS - 1, 0).is_none());
    assert!(Timestamp::new(0, NANOS_PER_SECOND - 1).is_some());
    assert!(Timestamp::new(0, NANOS_PER_SECOND).is_none());
    assert!(Timestamp::new(i64::MAX, 0).is_none());
    assert!(Timestamp::new(i64::MIN, 0).is_none());
}

#[test]
fn timestamps_give_back_their_parts() {
    let t = at(-12, 345);
    assert_eq!(t.secs(), -12);
    assert_eq!(t.nanos(), 345);
}

#[test]
fn policy_is_implicit_or_the_seconds() {
    let group = |session_duration| Group { accounts: Vec::new(), session_duration };
    assert_eq!(policy(&group(None)), "implicit");
    assert_eq!(policy(&group(Some(3600))), "3600 seconds");
    assert_eq!(policy(&group(Some(0))), "0 seconds");
    assert_eq!(policy(&group(Some(-15))), "-15 seconds");
    assert_eq!(policy(&group(Some(i64::MAX))), "9223372036854775807 seconds");
    assert_eq!(policy(&group(Some(i64::MIN))), "-9223372036854775808 seconds");
}

#[test]
fn states_are_described() {
    assert_eq!(SessionState::Expired.describe(), "no valid session");
    assert_eq!(SessionState::Active(0).describe(), "0 minutes left");
    assert_eq!(SessionState::Active(42).describe(), "42 minutes left");
}

#[test]
fn decimal_is_appended() {
    let mut text = String::from("n=");
    push_decimal(&mut text, 1050);
    push_decimal(&mut text, -7);
    assert_eq!(text, "n=1050-7");
    for n in [0i64, 9, 10, 99, 100, 12345, -1, -10, i64::MAX, i64::MIN] {
        let mut text = String::new();
        push_decimal(&mut text, n);
        assert_eq!(text, n.to_string());
    }
}
