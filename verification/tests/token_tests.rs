use exmatrikulator::token::{append_decimal, is_user_verifying, make_challenge_token, parse_challenge_token};

#[test]
fn token_of_forty_two() {
    assert_eq!(make_challenge_token(42), "notabot_42");
}

#[test]
fn token_of_zero() {
    assert_eq!(make_challenge_token(0), "notabot_0");
}

#[test]
fn token_of_a_negative_identity() {
    assert_eq!(make_challenge_token(-1001234567890), "notabot_-1001234567890");
}

#[test]
fn token_of_the_extremes() {
    assert_eq!(make_challenge_token(i64::MAX), "notabot_9223372036854775807");
    assert_eq!(make_challenge_token(i64::MIN), "notabot_-9223372036854775808");
}

#[test]
fn decimal_is_appended_to_what_is_there() {
    let mut out = String::from("id=");
    append_decimal(&mut out, 1907);
    assert_eq!(out, "id=1907");
    append_decimal(&mut out, -3);
    assert_eq!(out, "id=1907-3");
}

#[test]
fn decimal_agrees_with_the_standard_rendering() {
    for i in [0i64, 1, 9, 10, 11, 99, 100, 101, 12345, -1, -9, -10, -100, i64::MAX, i64::MIN, i64::MIN + 1] {
        let mut out = String::new();
        append_decimal(&mut out, i);
        assert_eq!(out, format!("{}", i));
    }
}

#[test]
fn parse_reads_back_what_was_composed() {
    for id in [0i64, 7, 42, 1000, -5, 987654321012, i64::MAX, i64::MIN] {
        assert_eq!(parse_challenge_token(&make_challenge_token(id)), Some(id));
    }
}

#[test]
fn parse_accepts_the_plain_token() {
    assert_eq!(parse_challenge_token("notabot_42"), Some(42));
    assert_eq!(parse_challenge_token("notabot_-42"), Some(-42));
    assert_eq!(parse_challenge_token("notabot_0"), Some(0));
}

#[test]
fn parse_rejects_other_markers() {
    assert_eq!(parse_challenge_token("notabot42"), None);
    assert_eq!(parse_challenge_token("Notabot_42"), None);
    assert_eq!(parse_challenge_token("isabot_42"), None);
    assert_eq!(parse_challenge_token("notabotx_42"), None);
    assert_eq!(parse_challenge_token(" notabot_42"), None);
    assert_eq!(parse_challenge_token(""), None);
    assert_eq!(parse_challenge_token("notabot"), None);
}

#[test]
fn parse_rejects_what_is_not_canonical_decimal() {
    assert_eq!(parse_challenge_token("notabot_"), None);
    assert_eq!(parse_challenge_token("notabot_-"), None);
    assert_eq!(parse_challenge_token("notabot_042"), None);
    assert_eq!(parse_challenge_token("notabot_00"), None);
    assert_eq!(parse_challenge_token("notabot_-0"), None);
    assert_eq!(parse_challenge_token("notabot_+42"), None);
    assert_eq!(parse_challenge_token("notabot_42 "), None);
    assert_eq!(parse_challenge_token("notabot_4_2"), None);
    assert_eq!(parse_challenge_token("notabot_42_7"), None);
    assert_eq!(parse_challenge_token("notabot_4a"), None);
    assert_eq!(parse_challenge_token("notabot_--4"), None);
}

#[test]
fn parse_rejects_what_does_not_fit() {
    assert_eq!(parse_challenge_token("notabot_9223372036854775808"), None);
    assert_eq!(parse_challenge_token("notabot_-9223372036854775809"), None);
    assert_eq!(parse_challenge_token("notabot_18446744073709551616"), None);
    assert_eq!(parse_challenge_token("notabot_99999999999999999999999999"), None);
}

#[test]
fn parse_rejects_text_beyond_ascii() {
    assert_eq!(parse_challenge_token("notabot_４２"), None);
    assert_eq!(parse_challenge_token("nötabot_42"), None);
}

#[test]
fn only_the_bound_member_is_verifying() {
    assert!(is_user_verifying(&String::from("notabot_42"), 42));
    assert!(!is_user_verifying(&String::from("notabot_42"), 7));
    assert!(!is_user_verifying(&String::from("notabot_42"), -42));
    assert!(!is_user_verifying(&String::from("notabot_042"), 42));
    assert!(!is_user_verifying(&String::from("somethingelse"), 42));
}
