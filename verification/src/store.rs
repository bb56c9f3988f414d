//! Reading persisted state text.
//!
//! The state files hold the token and the port as plain text. A reader
//! trims surrounding whitespace from each file's contents before using it;
//! trimming follows the Unicode white-space property, character for
//! character.

use vstd::prelude::*;
use vstd::string::StrSliceExecFns;
use vstd::string::StringExecFns;

verus! {

/// A character with the Unicode white-space property.
pub open spec fn is_whitespace_char(c: char) -> bool {
    ||| c as u32 == 0x09
    ||| c as u32 == 0x0A
    ||| c as u32 == 0x0B
    ||| c as u32 == 0x0C
    ||| c as u32 == 0x0D
    ||| c as u32 == 0x20
    ||| c as u32 == 0x85
    ||| c as u32 == 0xA0
    ||| c as u32 == 0x1680
    ||| (0x2000 <= c as u32 <= 0x200A)
    ||| c as u32 == 0x2028
    ||| c as u32 == 0x2029
    ||| c as u32 == 0x202F
    ||| c as u32 == 0x205F
    ||| c as u32 == 0x3000
}

/// Decides the Unicode white-space property for one character.
fn is_whitespace(c: char) -> (r: bool)
    ensures
        r == is_whitespace_char(c),
{
    let cv = c as u32;
    (cv == 0x09) || (cv == 0x0A) || (cv == 0x0B) || (cv == 0x0C) || (cv == 0x0D) || (cv == 0x20)
        || (cv == 0x85) || (cv == 0xA0) || (cv == 0x1680) || (0x2000 <= cv && cv <= 0x200A) || (cv
        == 0x2028) || (cv == 0x2029) || (cv == 0x202F) || (cv == 0x205F) || (cv == 0x3000)
}

/// The sequence with its leading whitespace removed.
pub open spec fn trim_front(s: Seq<char>) -> Seq<char>
    decreases s.len(),
{
    if s.len() > 0 && is_whitespace_char(s[0]) {
        trim_front(s.drop_first())
    } else {
        s
    }
}

/// The sequence with its trailing whitespace removed.
pub open spec fn trim_back(s: Seq<char>) -> Seq<char>
    decreases s.len(),
{
    if s.len() > 0 && is_whitespace_char(s.last()) {
        trim_back(s.drop_last())
    } else {
        s
    }
}

/// The sequence with both leading and trailing whitespace removed: what a
/// reader of a state file works with.
pub open spec fn spec_trim(s: Seq<char>) -> Seq<char> {
    trim_back(trim_front(s))
}

/// Removing leading whitespace keeps the suffix that starts at the first
/// non-whitespace character.
proof fn lemma_trim_front_at(s: Seq<char>, k: int)
    requires
        0 <= k <= s.len(),
        forall|j: int| 0 <= j < k ==> is_whitespace_char(s[j]),
        k == s.len() || !is_whitespace_char(s[k]),
    ensures
        trim_front(s) == s.subrange(k, s.len() as int),
    decreases k,
{
    if k == 0 {
        assert(s.subrange(0, s.len() as int) =~= s);
    } else {
        assert(is_whitespace_char(s[0]));
        let t = s.drop_first();
        assert(forall|j: int| 0 <= j < k - 1 ==> t[j] == s[j + 1]);
        lemma_trim_front_at(t, k - 1);
        assert(t.subrange(k - 1, t.len() as int) =~= s.subrange(k, s.len() as int));
    }
}

/// Removing trailing whitespace keeps the prefix that ends after the last
/// non-whitespace character.
proof fn lemma_trim_back_at(s: Seq<char>, k: int)
    requires
        0 <= k <= s.len(),
        forall|j: int| k <= j < s.len() ==> is_whitespace_char(s[j]),
        k == 0 || !is_whitespace_char(s[k - 1]),
    ensures
        trim_back(s) == s.subrange(0, k),
    decreases s.len(),
{
    if k == s.len() {
        assert(s.subrange(0, k) =~= s);
    } else {
        assert(is_whitespace_char(s.last()));
        let t = s.drop_last();
        assert(forall|j: int| 0 <= j < t.len() ==> t[j] == s[j]);
        lemma_trim_back_at(t, k);
        assert(t.subrange(0, k) =~= s.subrange(0, k));
    }
}

/// A string without any whitespace character is left unchanged by
/// trimming. Tokens and decimal port texts are such strings.
pub proof fn lemma_trim_id(s: Seq<char>)
    requires
        forall|j: int| 0 <= j < s.len() ==> !is_whitespace_char(s[j]),
    ensures
        spec_trim(s) == s,
{
    assert(trim_front(s) == s);
    assert(trim_back(s) == s);
}

/// Trims surrounding whitespace from a string, as a reader of a state
/// file does with the file's raw contents.
pub fn trim(s: &str) -> (r: String)
    ensures
        r@ == spec_trim(s@),
{
    let n = s.unicode_len();
    let mut lo: usize = 0;
    while lo < n
        invariant
            lo <= n,
            n == s@.len(),
            forall|j: int| 0 <= j < lo ==> is_whitespace_char(s@[j]),
        ensures
            lo <= n,
            n == s@.len(),
            forall|j: int| 0 <= j < lo ==> is_whitespace_char(s@[j]),
            lo < n ==> !is_whitespace_char(s@[lo as int]),
        decreases n - lo,
    {
        if !is_whitespace(s.get_char(lo)) {
            break ;
        }
        lo = lo + 1;
    }
    let mut hi: usize = n;
    while hi > lo
        invariant
            lo <= hi <= n,
            n == s@.len(),
            forall|j: int| hi <= j < n ==> is_whitespace_char(s@[j]),
        ensures
            lo <= hi <= n,
            n == s@.len(),
            forall|j: int| hi <= j < n ==> is_whitespace_char(s@[j]),
            hi > lo ==> !is_whitespace_char(s@[hi - 1]),
        decreases hi,
    {
        if !is_whitespace(s.get_char(hi - 1)) {
            break ;
        }
        hi = hi - 1;
    }
    let out = s.substring_char(lo, hi);
    proof {
        lemma_trim_front_at(s@, lo as int);
        let t = s@.subrange(lo as int, n as int);
        if hi == lo {
            lemma_trim_back_at(t, 0);
        } else {
            assert(forall|j: int| hi - lo <= j < t.len() ==> t[j] == s@[j + lo]);
            assert(!is_whitespace_char(t[hi - lo - 1]));
            lemma_trim_back_at(t, hi - lo);
        }
        assert(t.subrange(0, hi - lo) =~= s@.subrange(lo as int, hi as int));
    }
    String::from_str(out)
}

} // verus!
