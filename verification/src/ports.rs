//! Port numbers and their on-disk decimal text form.
//!
//! A rotation draws a port uniformly from [30000, 50000) and persists it as
//! its decimal string. Reading back parses that string as an unsigned
//! 16-bit integer; text that does not parse degrades to `0` rather than an
//! error, mirroring the service's silent-degradation policy.

use vstd::prelude::*;
use vstd::string::StringExecFns;
use vstd::string::StrSliceExecFns;

verus! {

/// The lowest port a rotation may draw.
pub const PORT_MIN: u16 = 30000;

/// The exclusive upper bound on ports a rotation may draw.
pub const PORT_MAX: u16 = 50000;

/// A port that a rotation is allowed to produce: in [30000, 50000).
pub open spec fn port_in_range(p: u16) -> bool {
    PORT_MIN <= p < PORT_MAX
}

/// Relies on rand::random_range: a value drawn uniformly from the given
/// nonempty half-open range by the thread-local generator. Nothing more
/// is promised of the value.
#[verifier::external_body]
fn random_in_range(lo: u16, hi: u16) -> (p: u16)
    requires
        lo < hi,
    ensures
        lo <= p < hi,
{
    rand::random_range(lo..hi)
}

/// Draws a fresh port for a rotation, uniformly from [30000, 50000).
pub fn generate_port() -> (p: u16)
    ensures
        port_in_range(p),
{
    random_in_range(PORT_MIN, PORT_MAX)
}

/// The decimal digit character for a value below ten.
pub open spec fn decimal_digit_char(n: int) -> char
    recommends
        0 <= n < 10,
{
    if n == 0 {
        '0'
    } else if n == 1 {
        '1'
    } else if n == 2 {
        '2'
    } else if n == 3 {
        '3'
    } else if n == 4 {
        '4'
    } else if n == 5 {
        '5'
    } else if n == 6 {
        '6'
    } else if n == 7 {
        '7'
    } else if n == 8 {
        '8'
    } else {
        '9'
    }
}

/// The decimal rendering of a nonnegative integer: most significant digit
/// first, no sign, no leading zeros except for `0` itself.
pub open spec fn decimal_of(n: int) -> Seq<char>
    recommends
        n >= 0,
    decreases n,
{
    if n < 10 {
        seq![decimal_digit_char(n)]
    } else {
        decimal_of(n / 10) + seq![decimal_digit_char(n % 10)]
    }
}

/// An ASCII decimal digit `0-9`.
pub open spec fn is_decimal_digit(c: char) -> bool {
    48 <= c as u32 <= 57
}

/// The numeric value of a decimal digit character.
pub open spec fn digit_value(c: char) -> int
    recommends
        is_decimal_digit(c),
{
    c as u32 - 48
}

/// Every character of the sequence is an ASCII decimal digit.
pub open spec fn all_decimal_digits(s: Seq<char>) -> bool {
    forall|i: int| 0 <= i < s.len() ==> is_decimal_digit(s[i])
}

/// The integer a digit sequence denotes, most significant digit first.
pub open spec fn digits_value(s: Seq<char>) -> int
    decreases s.len(),
{
    if s.len() == 0 {
        0
    } else {
        digits_value(s.drop_last()) * 10 + digit_value(s.last())
    }
}

/// What parsing text as an unsigned 16-bit integer yields: an optional
/// leading `+`, then at least one decimal digit, and a value that fits.
/// Anything else fails.
pub open spec fn parse_u16(s: Seq<char>) -> Option<u16> {
    let digits = if s.len() > 0 && s[0] == '+' {
        s.drop_first()
    } else {
        s
    };
    if digits.len() == 0 || !all_decimal_digits(digits) {
        None
    } else if digits_value(digits) > u16::MAX {
        None
    } else {
        Some(digits_value(digits) as u16)
    }
}

/// The port a stored text denotes: its value as an unsigned 16-bit
/// integer, or `0` where the text does not parse as one.
pub open spec fn parse_port_or_zero(s: Seq<char>) -> u16 {
    match parse_u16(s) {
        Some(v) => v,
        None => 0,
    }
}

/// A digit sequence denotes a nonnegative integer.
proof fn lemma_digits_value_nonneg(s: Seq<char>)
    requires
        all_decimal_digits(s),
    ensures
        digits_value(s) >= 0,
    decreases s.len(),
{
    if s.len() > 0 {
        assert(all_decimal_digits(s.drop_last()));
        lemma_digits_value_nonneg(s.drop_last());
    }
}

/// Extending a digit sequence never shrinks its value: any prefix denotes
/// at most what the whole sequence denotes.
proof fn lemma_digits_value_prefix_le(s: Seq<char>, k: int)
    requires
        all_decimal_digits(s),
        0 <= k <= s.len(),
    ensures
        digits_value(s.take(k)) <= digits_value(s),
    decreases s.len() - k,
{
    if k == s.len() {
        assert(s.take(k) =~= s);
    } else {
        assert(s.take(k + 1).drop_last() =~= s.take(k));
        assert(all_decimal_digits(s.take(k)));
        lemma_digits_value_nonneg(s.take(k));
        assert(digits_value(s.take(k + 1)) == digits_value(s.take(k)) * 10 + digit_value(
            s.take(k + 1).last(),
        ));
        assert(digits_value(s.take(k)) <= digits_value(s.take(k + 1)));
        lemma_digits_value_prefix_le(s, k + 1);
    }
}

/// The decimal rendering of a nonnegative integer is nonempty, consists of
/// digits only, and denotes that integer.
pub proof fn lemma_decimal_of_value(n: int)
    requires
        n >= 0,
    ensures
        decimal_of(n).len() >= 1,
        all_decimal_digits(decimal_of(n)),
        digits_value(decimal_of(n)) == n,
    decreases n,
{
    if n < 10 {
        let s = decimal_of(n);
        assert(s =~= seq![decimal_digit_char(n)]);
        assert(is_decimal_digit(decimal_digit_char(n)));
        assert(s.drop_last() =~= Seq::<char>::empty());
        assert(digits_value(Seq::<char>::empty()) == 0);
        assert(s.last() == decimal_digit_char(n));
        assert(digit_value(decimal_digit_char(n)) == n);
        assert(digits_value(s) == digits_value(s.drop_last()) * 10 + digit_value(s.last()));
    } else {
        lemma_decimal_of_value(n / 10);
        let whole = decimal_of(n);
        assert(whole == decimal_of(n / 10) + seq![decimal_digit_char(n % 10)]);
        assert(whole.len() == decimal_of(n / 10).len() + 1);
        assert(whole.drop_last() =~= decimal_of(n / 10));
        assert(whole.last() == decimal_digit_char(n % 10));
        assert(digit_value(decimal_digit_char(n % 10)) == n % 10);
        assert(digits_value(whole) == digits_value(whole.drop_last()) * 10 + digit_value(
            whole.last(),
        ));
        assert(digits_value(whole) == (n / 10) * 10 + n % 10);
        assert((n / 10) * 10 + n % 10 == n);
        assert forall|i: int| 0 <= i < whole.len() implies is_decimal_digit(whole[i]) by {
            if i < whole.len() - 1 {
                assert(whole[i] == decimal_of(n / 10)[i]);
            } else {
                assert(whole[i] == decimal_digit_char(n % 10));
            }
        }
    }
}

/// Rendering a 16-bit value as decimal text and parsing it back yields
/// exactly that value.
pub proof fn lemma_decimal_round_trip(p: u16)
    ensures
        parse_u16(decimal_of(p as int)) == Some(p),
{
    lemma_decimal_of_value(p as int);
    let s = decimal_of(p as int);
    assert(is_decimal_digit(s[0]));
    assert(s[0] as u32 != 43);
    assert(s[0] != '+');
    assert(digits_value(s) == p as int);
    assert(digits_value(s) <= u16::MAX);
}

/// The decimal digit character for a value below ten, as a string slice.
fn decimal_digit_str(d: u16) -> (r: &'static str)
    requires
        d < 10,
    ensures
        r@ =~= seq![decimal_digit_char(d as int)],
{
    if d == 0 {
        proof {
            reveal_strlit("0");
        }
        "0"
    } else if d == 1 {
        proof {
            reveal_strlit("1");
        }
        "1"
    } else if d == 2 {
        proof {
            reveal_strlit("2");
        }
        "2"
    } else if d == 3 {
        proof {
            reveal_strlit("3");
        }
        "3"
    } else if d == 4 {
        proof {
            reveal_strlit("4");
        }
        "4"
    } else if d == 5 {
        proof {
            reveal_strlit("5");
        }
        "5"
    } else if d == 6 {
        proof {
            reveal_strlit("6");
        }
        "6"
    } else if d == 7 {
        proof {
            reveal_strlit("7");
        }
        "7"
    } else if d == 8 {
        proof {
            reveal_strlit("8");
        }
        "8"
    } else {
        proof {
            reveal_strlit("9");
        }
        "9"
    }
}

/// Renders a port as the decimal text that is persisted to the port file.
pub fn port_to_string(p: u16) -> (r: String)
    ensures
        r@ == decimal_of(p as int),
    decreases p,
{
    if p < 10 {
        String::from_str(decimal_digit_str(p))
    } else {
        let mut s = port_to_string(p / 10);
        s.append(decimal_digit_str(p % 10));
        proof {
            assert(s@ =~= decimal_of(p as int));
        }
        s
    }
}

/// Parses stored port text: the value of an unsigned 16-bit decimal
/// (optional leading `+`), or `0` where the text is empty, holds a
/// non-digit, or overflows 16 bits.
pub fn parse_port(s: &str) -> (r: u16)
    ensures
        r == parse_port_or_zero(s@),
{
    let n = s.unicode_len();
    let mut i: usize = 0;
    if n > 0 {
        let c0 = s.get_char(0);
        if c0 == '+' {
            i = 1;
        }
    }
    let ghost start = i as int;
    let ghost digits = if s@.len() > 0 && s@[0] == '+' {
        s@.drop_first()
    } else {
        s@
    };
    proof {
        assert(digits =~= s@.subrange(start, n as int));
    }
    if i == n {
        proof {
            assert(digits.len() == 0);
            assert(parse_u16(s@) is None);
        }
        return 0;
    }
    let mut acc: u32 = 0;
    while i < n
        invariant
            0 <= start <= i <= n,
            n == s@.len(),
            digits == s@.subrange(start, n as int),
            digits == (if s@.len() > 0 && s@[0] == '+' {
                s@.drop_first()
            } else {
                s@
            }),
            acc <= 65535,
            forall|j: int| start <= j < i ==> is_decimal_digit(s@[j]),
            acc == digits_value(s@.subrange(start, i as int)),
        decreases n - i,
    {
        let c = s.get_char(i);
        let cv = c as u32;
        if cv < 48 || cv > 57 {
            proof {
                assert(!is_decimal_digit(s@[i as int]));
                assert(s@.subrange(start, n as int)[i - start] == s@[i as int]);
                assert(digits[i - start] == s@[i as int]);
                assert(!all_decimal_digits(digits));
                assert(parse_u16(s@) is None);
            }
            return 0;
        }
        let next: u32 = acc * 10 + (cv - 48);
        proof {
            assert(is_decimal_digit(s@[i as int]));
            let pref = s@.subrange(start, i + 1);
            assert(pref.drop_last() =~= s@.subrange(start, i as int));
            assert(pref.last() == s@[i as int]);
            assert(digits_value(pref) == digits_value(pref.drop_last()) * 10 + digit_value(
                pref.last(),
            ));
            assert(digits_value(pref) == acc * 10 + digit_value(s@[i as int]));
        }
        if next > 65535 {
            proof {
                let pref = s@.subrange(start, i + 1);
                assert(digits_value(pref) > u16::MAX);
                if all_decimal_digits(digits) {
                    assert(pref =~= digits.take(i + 1 - start));
                    lemma_digits_value_prefix_le(digits, i + 1 - start);
                    assert(digits_value(digits) > u16::MAX);
                }
                assert(parse_u16(s@) is None);
            }
            return 0;
        }
        acc = next;
        i = i + 1;
    }
    proof {
        assert(digits =~= s@.subrange(start, n as int));
        assert forall|j: int| 0 <= j < digits.len() implies is_decimal_digit(digits[j]) by {
            assert(digits[j] == s@.subrange(start, n as int)[j]);
            assert(s@.subrange(start, n as int)[j] == s@[start + j]);
        }
        assert(all_decimal_digits(digits));
        assert(s@.subrange(start, i as int) == digits);
        assert(digits_value(digits) == acc);
        assert(parse_u16(s@) == Some(acc as u16));
    }
    acc as u16
}

} // verus!
