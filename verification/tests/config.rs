//! Tests of timeout parsing, invocation planning and argument
//! handling.
use git_wait::invoke::{
    check_args_exec_ready, plan_invocation, rewrite_args, ConfigError, LaunchPlan,
};
use git_wait::timeout::parse_timeout_ms;

#[test]
fn parses_plain_numerals() {
    assert_eq!(parse_timeout_ms("0"), Some(0));
    assert_eq!(parse_timeout_ms("10"), Some(10));
    assert_eq!(parse_timeout_ms("100"), Some(100));
    assert_eq!(parse_timeout_ms("007"), Some(7));
}

#[test]
fn parses_numerals_with_plus_sign() {
    assert_eq!(parse_timeout_ms("+250"), Some(250));
}

#[test]
fn rejects_non_numerals() {
    assert_eq!(parse_timeout_ms(""), None);
    assert_eq!(parse_timeout_ms("+"), None);
    assert_eq!(parse_timeout_ms("ten"), None);
    assert_eq!(parse_timeout_ms("10ms"), None);
    assert_eq!(parse_timeout_ms("-5"), None);
    assert_eq!(parse_timeout_ms("1 0"), None);
}

#[test]
fn rejects_values_out_of_range() {
    assert_eq!(parse_timeout_ms("18446744073709551615"), Some(u64::MAX));
    assert_eq!(parse_timeout_ms("18446744073709551616"), None);
    assert_eq!(parse_timeout_ms("99999999999999999999999"), None);
}

#[test]
fn agrees_with_standard_parsing() {
    for text in ["0", "42", "+42", "", "+", "4x", " 7", "18446744073709551615",
        "18446744073709551616"] {
        assert_eq!(parse_timeout_ms(text), text.parse::<u64>().ok(), "on {:?}", text);
    }
}

#[test]
fn no_metadata_dir_hands_off_at_once() {
    assert_eq!(plan_invocation(false, None, false), Ok(LaunchPlan::HandOff));
    // Without a metadata directory nothing else is even consulted.
    assert_eq!(plan_invocation(false, Some("bogus"), true), Ok(LaunchPlan::HandOff));
}

#[test]
fn no_lock_file_hands_off_at_once() {
    // The Lock Waiter is never invoked when the lock file is absent,
    // and asking again decides the same way.
    assert_eq!(plan_invocation(true, None, false), Ok(LaunchPlan::HandOff));
    assert_eq!(plan_invocation(true, None, false), Ok(LaunchPlan::HandOff));
    assert_eq!(plan_invocation(true, Some("100"), false), Ok(LaunchPlan::HandOff));
}

#[test]
fn lock_file_leads_to_wait() {
    assert_eq!(
        plan_invocation(true, None, true),
        Ok(LaunchPlan::WaitThenHandOff { timeout_ms: None })
    );
    assert_eq!(
        plan_invocation(true, Some("10"), true),
        Ok(LaunchPlan::WaitThenHandOff { timeout_ms: Some(10) })
    );
}

#[test]
fn malformed_timeout_is_fatal_before_any_wait() {
    // A set but unparsable timeout is a configuration error, not "no
    // timeout" — and it is fatal even when no wait would have
    // happened.
    assert_eq!(plan_invocation(true, Some("soon"), true), Err(ConfigError::MalformedTimeout));
    assert_eq!(plan_invocation(true, Some(""), false), Err(ConfigError::MalformedTimeout));
    assert_eq!(plan_invocation(true, Some("-1"), true), Err(ConfigError::MalformedTimeout));
}

#[test]
fn rewrites_leading_argument_only() {
    let mut args: Vec<String> =
        vec!["git-wait".to_string(), "status".to_string(), "--short".to_string()];
    rewrite_args(&mut args);
    assert_eq!(args, vec!["git".to_string(), "status".to_string(), "--short".to_string()]);
}

#[test]
fn rewrites_sole_argument() {
    let mut args: Vec<String> = vec!["/usr/local/bin/git-wait".to_string()];
    rewrite_args(&mut args);
    assert_eq!(args, vec!["git".to_string()]);
}

#[test]
fn args_with_nul_are_not_exec_ready() {
    let good: Vec<String> = vec!["git".to_string(), "status".to_string()];
    assert!(check_args_exec_ready(&good));
    let bad: Vec<String> = vec!["git".to_string(), "sta\0tus".to_string()];
    assert!(!check_args_exec_ready(&bad));
    let empty: Vec<String> = Vec::new();
    assert!(check_args_exec_ready(&empty));
}
