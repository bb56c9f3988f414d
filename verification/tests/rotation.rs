use tokenroller::check_token;
use tokenroller::constant_time_eq;
use tokenroller::current_response;
use tokenroller::parse_async_flag;
use tokenroller::parse_port;
use tokenroller::port_to_string;
use tokenroller::roll;
use tokenroller::roll_token_and_port;
use tokenroller::TokenState;

fn is_lower_hex(s: &str) -> bool {
    s.chars().all(|c| ('0'..='9').contains(&c) || ('a'..='f').contains(&c))
}

#[test]
fn rolled_token_is_64_lower_hex_and_port_in_range() {
    for _ in 0..50 {
        let (token, port) = roll_token_and_port();
        assert_eq!(token.len(), 64);
        assert!(is_lower_hex(&token));
        assert!((30000..50000).contains(&port));
    }
}

#[test]
fn two_consecutive_rolls_differ() {
    let (first, _) = roll_token_and_port();
    let (second, _) = roll_token_and_port();
    assert_ne!(first, second);
}

#[test]
fn roll_without_parameter_is_async() {
    let outcome = roll(None);
    assert!(outcome.is_async);
    assert_eq!(outcome.token.len(), 64);
    assert!(is_lower_hex(&outcome.token));
    assert!((30000..50000).contains(&outcome.port));
}

#[test]
fn roll_with_false_parameter_is_synchronous() {
    assert!(!roll(Some("false")).is_async);
    assert!(!roll(Some("0")).is_async);
    assert!(!roll(Some("no")).is_async);
}

#[test]
fn async_parameter_accepts_exact_truthy_literals() {
    assert!(parse_async_flag(None));
    assert!(parse_async_flag(Some("1")));
    assert!(parse_async_flag(Some("true")));
    assert!(parse_async_flag(Some("yes")));
    assert!(!parse_async_flag(Some("0")));
    assert!(!parse_async_flag(Some("false")));
    assert!(!parse_async_flag(Some("no")));
    assert!(!parse_async_flag(Some("TRUE")));
    assert!(!parse_async_flag(Some("yes ")));
    assert!(!parse_async_flag(Some("")));
}

#[test]
fn current_after_synchronous_roll_returns_the_same_pair() {
    let (token, port) = roll_token_and_port();
    let stored_port = port_to_string(port);
    let read = current_response(&token, &stored_port);
    assert_eq!(read, Some((token, port)));
}

#[test]
fn current_trims_surrounding_whitespace_on_read() {
    let read = current_response("  abc\n", "\t30123 \n");
    assert_eq!(read, Some((String::from("abc"), 30123)));
}

#[test]
fn current_with_empty_state_is_not_found() {
    assert_eq!(current_response("", ""), None);
    assert_eq!(current_response("sometoken", ""), None);
    assert_eq!(current_response("", "30123"), None);
    assert_eq!(current_response("   \n", "30123"), None);
}

#[test]
fn current_surfaces_unparseable_port_as_zero() {
    assert_eq!(
        current_response("tok", "not-a-number"),
        Some((String::from("tok"), 0))
    );
    assert_eq!(current_response("tok", "99999"), Some((String::from("tok"), 0)));
}

#[test]
fn check_accepts_exactly_the_persisted_token() {
    let (token, _) = roll_token_and_port();
    assert!(check_token(&token, &token));
    assert!(!check_token(&token, "somethingelse"));
    let mut altered = token.clone();
    altered.pop();
    altered.push('!');
    assert!(!check_token(&token, &altered));
}

#[test]
fn check_trims_the_stored_text_only() {
    assert!(check_token(" abc \n", "abc"));
    assert!(!check_token("abc", " abc "));
}

#[test]
fn check_with_nothing_persisted_matches_empty_candidate() {
    assert!(check_token("", ""));
    assert!(!check_token("", "x"));
    assert!(!check_token("x", ""));
}

#[test]
fn constant_time_eq_is_string_equality() {
    assert!(constant_time_eq("", ""));
    assert!(constant_time_eq("abc", "abc"));
    assert!(!constant_time_eq("abc", "abd"));
    assert!(!constant_time_eq("abc", "xbc"));
    assert!(!constant_time_eq("aac", "abc"));
}

#[test]
fn constant_time_eq_rejects_different_lengths() {
    assert!(!constant_time_eq("abc", "ab"));
    assert!(!constant_time_eq("ab", "abc"));
    assert!(!constant_time_eq("", "a"));
    assert!(!constant_time_eq("a", ""));
}

#[test]
fn port_renders_as_plain_decimal() {
    assert_eq!(port_to_string(0), "0");
    assert_eq!(port_to_string(7), "7");
    assert_eq!(port_to_string(30000), "30000");
    assert_eq!(port_to_string(49999), "49999");
    assert_eq!(port_to_string(65535), "65535");
}

#[test]
fn port_parsing_follows_u16_rules_with_zero_fallback() {
    assert_eq!(parse_port("30000"), 30000);
    assert_eq!(parse_port("0"), 0);
    assert_eq!(parse_port("65535"), 65535);
    assert_eq!(parse_port("+123"), 123);
    assert_eq!(parse_port("070"), 70);
    assert_eq!(parse_port(""), 0);
    assert_eq!(parse_port("+"), 0);
    assert_eq!(parse_port("abc"), 0);
    assert_eq!(parse_port("12a"), 0);
    assert_eq!(parse_port("-1"), 0);
    assert_eq!(parse_port("65536"), 0);
    assert_eq!(parse_port("999999999999"), 0);
    assert_eq!(parse_port(" 30000"), 0);
}

#[test]
fn port_decimal_text_round_trips() {
    for port in [0u16, 1, 9, 10, 29999, 30000, 42424, 49999, 65535] {
        assert_eq!(parse_port(&port_to_string(port)), port);
    }
}

#[test]
fn token_state_keeps_its_paths() {
    let state = TokenState::new(
        String::from("/var/lib/backend"),
        String::from("/var/lib/backend/token.txt"),
        String::from("/var/lib/backend/port.txt"),
    );
    let copy = state.clone();
    assert_eq!(copy.backend_dir, "/var/lib/backend");
    assert_eq!(copy.token_file, "/var/lib/backend/token.txt");
    assert_eq!(copy.port_file, "/var/lib/backend/port.txt");
}
