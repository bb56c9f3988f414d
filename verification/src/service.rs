//! The rotation service's decision logic.
//!
//! Each HTTP operation splits into reading or writing files — which the
//! caller does — and a decision on plain values, which lives here with a
//! contract: how the `async` query parameter resolves, what a roll
//! returns, what the stored texts mean to `current`, and when `check`
//! accepts a candidate token.

use crate::compare::constant_time_eq;
use crate::ports::decimal_of;
use crate::ports::generate_port;
use crate::ports::parse_port;
use crate::ports::parse_port_or_zero;
use crate::ports::port_in_range;
use crate::store::is_whitespace_char;
use crate::store::lemma_trim_id;
use crate::store::spec_trim;
use crate::store::trim;
use crate::token::generate_token;
use crate::token::is_lower_hex_digit;
use crate::token::is_token;
use vstd::prelude::*;

verus! {

/// The paths the service persists its credential pair under: a backend
/// directory, a token file and a port file, fixed at startup.
#[derive(Clone)]
pub struct TokenState {
    /// The directory the state files live under.
    pub backend_dir: String,
    /// The file holding the current token.
    pub token_file: String,
    /// The file holding the current port, as decimal text.
    pub port_file: String,
}

impl TokenState {
    /// Builds the path configuration the service will use for its
    /// lifetime.
    pub fn new(backend_dir: String, token_file: String, port_file: String) -> (s: TokenState)
        ensures
            s.backend_dir == backend_dir,
            s.token_file == token_file,
            s.port_file == port_file,
    {
        TokenState { backend_dir, token_file, port_file }
    }
}

/// How the `async` query parameter resolves: absent means asynchronous,
/// and only the exact values `1`, `true` and `yes` mean it when present.
pub open spec fn async_flag_of(param: Option<Seq<char>>) -> bool {
    match param {
        Some(v) => v == "1"@ || v == "true"@ || v == "yes"@,
        None => true,
    }
}

/// Resolves the `async` query parameter of a roll request.
pub fn parse_async_flag(param: Option<&str>) -> (r: bool)
    ensures
        param is None ==> r,
        param matches Some(v) ==> r == async_flag_of(Some(v@)),
{
    match param {
        None => true,
        Some(v) => constant_time_eq(v, "1") || constant_time_eq(v, "true") || constant_time_eq(
            v,
            "yes",
        ),
    }
}

/// What a roll returns to the caller: the fresh credential pair and the
/// resolved `async` flag, exactly as generated.
pub struct RollOutcome {
    /// The freshly generated bearer token.
    pub token: String,
    /// The freshly drawn port.
    pub port: u16,
    /// Whether the restart is to be fired without waiting for it.
    pub is_async: bool,
}

/// Decides a roll request: resolves the `async` parameter and generates a
/// fresh credential pair. The caller persists the pair and triggers the
/// restart; neither failure is surfaced, so the outcome here is the
/// response.
pub fn roll(async_param: Option<&str>) -> (r: RollOutcome)
    ensures
        is_token(r.token@),
        port_in_range(r.port),
        async_param is None ==> r.is_async,
        async_param matches Some(v) ==> r.is_async == async_flag_of(Some(v@)),
{
    let is_async = parse_async_flag(async_param);
    let (token, port) = roll_token_and_port();
    RollOutcome { token, port, is_async }
}

/// Generates a fresh credential pair: a 64-character lowercase hex token
/// and a port in [30000, 50000).
pub fn roll_token_and_port() -> (r: (String, u16))
    ensures
        is_token(r.0@),
        port_in_range(r.1),
{
    let token = generate_token();
    let port = generate_port();
    (token, port)
}

/// What the stored texts mean to `current`: both are trimmed; if either
/// is then empty there is no current pair, otherwise the pair is the
/// trimmed token and the port the trimmed text denotes (`0` where it does
/// not parse).
pub open spec fn current_of(token_raw: Seq<char>, port_raw: Seq<char>) -> Option<(Seq<char>, u16)> {
    let t = spec_trim(token_raw);
    let p = spec_trim(port_raw);
    if t.len() == 0 || p.len() == 0 {
        None
    } else {
        Some((t, parse_port_or_zero(p)))
    }
}

/// Decides a `current` request from the raw contents of the two state
/// files. `None` is the not-found condition.
pub fn current_response(token_raw: &str, port_raw: &str) -> (r: Option<(String, u16)>)
    ensures
        (match r {
            Some(p) => current_of(token_raw@, port_raw@) == Some((p.0@, p.1)),
            None => current_of(token_raw@, port_raw@) is None,
        }),
{
    let t = trim(token_raw);
    let p = trim(port_raw);
    if t.as_str().is_empty() || p.as_str().is_empty() {
        None
    } else {
        let port = parse_port(p.as_str());
        Some((t, port))
    }
}

/// Whether `check` accepts a candidate: true exactly when the candidate
/// equals the trimmed stored token text.
pub open spec fn check_of(stored_raw: Seq<char>, candidate: Seq<char>) -> bool {
    candidate == spec_trim(stored_raw)
}

/// Decides a `check` request: compares the candidate against the trimmed
/// stored token in constant time. Never an error: an empty candidate
/// matches an empty store.
pub fn check_token(stored_raw: &str, candidate: &str) -> (r: bool)
    ensures
        r == check_of(stored_raw@, candidate@),
{
    let stored = trim(stored_raw);
    constant_time_eq(stored.as_str(), candidate)
}

/// No character of a well-formed token is whitespace.
proof fn lemma_token_has_no_whitespace(s: Seq<char>)
    requires
        is_token(s),
    ensures
        forall|j: int| 0 <= j < s.len() ==> !is_whitespace_char(s[j]),
{
    assert forall|j: int| 0 <= j < s.len() implies !is_whitespace_char(s[j]) by {
        assert(is_lower_hex_digit(s[j]));
    }
}

/// Read-after-write: after a roll persists its pair — the token text as
/// is, the port as its decimal rendering — an immediately following
/// `current` read returns exactly that pair.
pub proof fn lemma_roll_then_current(token: Seq<char>, port: u16)
    requires
        is_token(token),
        port_in_range(port),
    ensures
        current_of(token, decimal_of(port as int)) == Some((token, port)),
{
    lemma_token_has_no_whitespace(token);
    lemma_trim_id(token);
    let d = decimal_of(port as int);
    crate::ports::lemma_decimal_of_value(port as int);
    assert forall|j: int| 0 <= j < d.len() implies !is_whitespace_char(d[j]) by {
        assert(crate::ports::is_decimal_digit(d[j]));
    }
    lemma_trim_id(d);
    crate::ports::lemma_decimal_round_trip(port);
}

/// `check` accepts a candidate if and only if it equals the persisted
/// token, both for a well-formed stored token and for the empty text left
/// when nothing was ever persisted.
pub proof fn lemma_check_matches_persisted(stored: Seq<char>, candidate: Seq<char>)
    requires
        is_token(stored) || stored == Seq::<char>::empty(),
    ensures
        check_of(stored, candidate) == (candidate == stored),
{
    if is_token(stored) {
        lemma_token_has_no_whitespace(stored);
    }
    lemma_trim_id(stored);
}

/// Before any roll has ever run both state files read back empty, and
/// `current` reports the not-found condition.
pub proof fn lemma_current_before_any_roll()
    ensures
        current_of(Seq::<char>::empty(), Seq::<char>::empty()) is None,
{
    lemma_trim_id(Seq::<char>::empty());
}

} // verus!
