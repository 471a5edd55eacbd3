//! Verified text scanning helpers shared by the login and aggregation flows:
//! substring search, quote trimming, and decimal integer parsing and
//! rendering with the exact semantics of the standard library's `parse`.

use vstd::prelude::*;
use vstd::string::StrSliceExecFns;
use vstd::string::StringExecFns;
use crate::session::exec_base36_char;
use crate::session::push_char;
use crate::session::spec_base36_char;

verus! {

/// The pattern occurs in `s` at position `i`.
pub open spec fn is_match_at(s: Seq<char>, pat: Seq<char>, i: int) -> bool {
    0 <= i && i + pat.len() <= s.len() && s.subrange(i, i + pat.len()) == pat
}

/// The first position at or after `i` where the pattern occurs, if any.
pub open spec fn first_match_from(s: Seq<char>, pat: Seq<char>, i: int) -> Option<int>
    decreases s.len() - i + 1
{
    if i < 0 {
        None
    } else if i + pat.len() > s.len() {
        None
    } else if is_match_at(s, pat, i) {
        Some(i)
    } else {
        first_match_from(s, pat, i + 1)
    }
}

/// The first position at or after `i` holding character `c`, if any.
pub open spec fn first_char_from(s: Seq<char>, c: char, i: int) -> Option<int>
    decreases s.len() - i
{
    if i < 0 || i >= s.len() {
        None
    } else if s[i] == c {
        Some(i)
    } else {
        first_char_from(s, c, i + 1)
    }
}

/// Finds the first occurrence of `pat` in `s` at or after `from`.
pub fn find_substring_from(s: &str, pat: &str, from: usize) -> (r: Option<usize>)
    ensures
        match r {
            Some(j) => first_match_from(s@, pat@, from as int) == Some(j as int),
            None => first_match_from(s@, pat@, from as int) is None,
        },
{
    let n = s.unicode_len();
    let m = pat.unicode_len();
    if from > n {
        proof {
            lemma_first_match_none_past_end(s@, pat@, from as int);
        }
        return None;
    }
    if m == 0 {
        proof {
            assert(s@.subrange(from as int, from as int) =~= pat@);
        }
        return Some(from);
    }
    if m > n || from > n - m {
        proof {
            lemma_first_match_none_past_end(s@, pat@, from as int);
        }
        return None;
    }
    let bound = n - m;
    let mut i = from;
    while i <= bound
        invariant
            from <= i <= bound + 1,
            1 <= m <= n,
            bound == n - m,
            n == s@.len(),
            m == pat@.len(),
            first_match_from(s@, pat@, from as int) == first_match_from(s@, pat@, i as int),
        decreases bound + 1 - i,
    {
        let mut k: usize = 0;
        let mut matched = true;
        while k < m
            invariant
                i <= bound,
                bound == n - m,
                n == s@.len(),
                m == pat@.len(),
                k <= m,
                matched ==> forall|j: int| 0 <= j < k ==> s@[i + j] == pat@[j],
                !matched ==> !is_match_at(s@, pat@, i as int),
            decreases m - k,
        {
            if s.get_char(i + k) != pat.get_char(k) {
                proof {
                    assert(!is_match_at(s@, pat@, i as int)) by {
                        if is_match_at(s@, pat@, i as int) {
                            assert(s@.subrange(i as int, i + pat@.len())[k as int] == pat@[k as int]);
                        }
                    }
                }
                matched = false;
                k = m;
            } else {
                k = k + 1;
            }
        }
        if matched {
            proof {
                assert(s@.subrange(i as int, i + pat@.len()) =~= pat@);
            }
            return Some(i);
        }
        proof {
            assert(first_match_from(s@, pat@, i as int) == first_match_from(s@, pat@, i + 1));
        }
        i = i + 1;
    }
    proof {
        lemma_first_match_none_past_end(s@, pat@, i as int);
    }
    None
}

proof fn lemma_first_match_none_past_end(s: Seq<char>, pat: Seq<char>, i: int)
    requires
        i + pat.len() > s.len() || i < 0,
    ensures
        first_match_from(s, pat, i) is None,
{
}

/// A found match lies within bounds and matches the pattern there.
pub(crate) proof fn lemma_first_match_some(s: Seq<char>, pat: Seq<char>, from: int, j: int)
    requires
        first_match_from(s, pat, from) == Some(j),
    ensures
        from <= j,
        0 <= j,
        j + pat.len() <= s.len(),
        is_match_at(s, pat, j),
    decreases s.len() - from + 1,
{
    if from >= 0 && from + pat.len() <= s.len() && !is_match_at(s, pat, from) {
        lemma_first_match_some(s, pat, from + 1, j);
    }
}

/// A found character lies within bounds and is the one sought.
pub(crate) proof fn lemma_first_char_some(s: Seq<char>, c: char, from: int, j: int)
    requires
        first_char_from(s, c, from) == Some(j),
    ensures
        from <= j < s.len(),
        s[j] == c,
    decreases s.len() - from,
{
    if 0 <= from && from < s.len() && s[from] != c {
        lemma_first_char_some(s, c, from + 1, j);
    }
}

/// Finds the first occurrence of character `c` in `s` at or after `from`.
pub fn find_char_from(s: &str, c: char, from: usize) -> (r: Option<usize>)
    ensures
        match r {
            Some(j) => first_char_from(s@, c, from as int) == Some(j as int),
            None => first_char_from(s@, c, from as int) is None,
        },
{
    let n = s.unicode_len();
    let mut i = from;
    while i < n
        invariant
            n == s@.len(),
            first_char_from(s@, c, from as int) == first_char_from(s@, c, i as int),
        decreases n - i,
    {
        if s.get_char(i) == c {
            return Some(i);
        }
        i = i + 1;
    }
    None
}

/// How many characters at the front of `s` are double quotes.
pub open spec fn leading_quotes(s: Seq<char>) -> int
    decreases s.len()
{
    if s.len() == 0 || s[0] != '"' {
        0
    } else {
        1 + leading_quotes(s.drop_first())
    }
}

/// How many characters at the back of `s` are double quotes.
pub open spec fn trailing_quotes(s: Seq<char>) -> int
    decreases s.len()
{
    if s.len() == 0 || s[s.len() - 1] != '"' {
        0
    } else {
        1 + trailing_quotes(s.drop_last())
    }
}

/// `s` with every leading double quote removed, then every trailing one.
pub open spec fn spec_strip_quotes(s: Seq<char>) -> Seq<char> {
    let t = s.subrange(leading_quotes(s), s.len() as int);
    t.subrange(0, t.len() - trailing_quotes(t))
}

proof fn lemma_leading_quotes_is(s: Seq<char>, i: int)
    requires
        0 <= i <= s.len(),
        forall|j: int| 0 <= j < i ==> s[j] == '"',
        i == s.len() || s[i] != '"',
    ensures
        leading_quotes(s) == i,
    decreases s.len(),
{
    if s.len() == 0 || s[0] != '"' {
    } else {
        lemma_leading_quotes_is(s.drop_first(), i - 1);
    }
}

proof fn lemma_trailing_quotes_is(s: Seq<char>, i: int)
    requires
        0 <= i <= s.len(),
        forall|j: int| s.len() - i <= j < s.len() ==> s[j] == '"',
        i == s.len() || s[s.len() - 1 - i] != '"',
    ensures
        trailing_quotes(s) == i,
    decreases s.len(),
{
    if s.len() == 0 || s[s.len() - 1] != '"' {
    } else {
        lemma_trailing_quotes_is(s.drop_last(), i - 1);
    }
}

/// Removes all leading double quotes, then all trailing ones, as stripping
/// repeated quote prefixes and suffixes does.
pub fn strip_quotes(s: &str) -> (r: String)
    ensures
        r@ == spec_strip_quotes(s@),
{
    let n = s.unicode_len();
    let mut a: usize = 0;
    while a < n && s.get_char(a) == '"'
        invariant
            a <= n,
            n == s@.len(),
            forall|j: int| 0 <= j < a ==> s@[j] == '"',
        decreases n - a,
    {
        a = a + 1;
    }
    proof {
        lemma_leading_quotes_is(s@, a as int);
    }
    let mut b: usize = n;
    while b > a && s.get_char(b - 1) == '"'
        invariant
            a <= b <= n,
            n == s@.len(),
            forall|j: int| b <= j < n ==> s@[j] == '"',
        decreases b,
    {
        b = b - 1;
    }
    let r = s.substring_char(a, b).to_owned();
    proof {
        let t = s@.subrange(a as int, n as int);
        if b > a {
            lemma_trailing_quotes_is(t, n - b);
        } else {
            // everything after the leading quotes was a quote as well, so
            // the remainder consists of quotes only
            assert(forall|j: int| 0 <= j < t.len() ==> t[j] == '"');
            lemma_trailing_quotes_is(t, t.len() as int);
        }
        assert(r@ =~= spec_strip_quotes(s@));
    }
    r
}

/// A decimal digit character.
pub open spec fn is_digit_char(c: char) -> bool {
    '0' <= c && c <= '9'
}

/// The numeric value of a decimal digit character.
pub open spec fn digit_char_val(c: char) -> int {
    c as u32 - '0' as u32
}

/// The ways a decimal integer can fail to parse, mirroring the standard
/// library's error kinds.
#[derive(Debug, Clone, Copy, PartialEq, Eq, Structural)]
pub enum ParseIntFailure {
    Empty,
    InvalidDigit,
    PosOverflow,
    NegOverflow,
}

/// Left-to-right accumulation of decimal digits into a signed value,
/// failing at the first non-digit or at the first step that leaves the
/// 64-bit signed range — exactly as the standard parser behaves.
pub open spec fn parse_digits_rec(digs: Seq<char>, neg: bool, acc: int) -> Result<int, ParseIntFailure>
    decreases digs.len()
{
    if digs.len() == 0 {
        Ok(acc)
    } else if !is_digit_char(digs[0]) {
        Err(ParseIntFailure::InvalidDigit)
    } else {
        let acc2 = if neg {
            acc * 10 - digit_char_val(digs[0])
        } else {
            acc * 10 + digit_char_val(digs[0])
        };
        if acc2 < i64::MIN {
            Err(ParseIntFailure::NegOverflow)
        } else if acc2 > i64::MAX {
            Err(ParseIntFailure::PosOverflow)
        } else {
            parse_digits_rec(digs.drop_first(), neg, acc2)
        }
    }
}

/// What `str::parse::<i64>` returns on `s`: an optional sign, then at least
/// one digit, accumulated with overflow checked step by step.
pub open spec fn spec_parse_i64(s: Seq<char>) -> Result<int, ParseIntFailure> {
    if s.len() == 0 {
        Err(ParseIntFailure::Empty)
    } else if s[0] == '+' {
        if s.len() == 1 {
            Err(ParseIntFailure::InvalidDigit)
        } else {
            parse_digits_rec(s.drop_first(), false, 0)
        }
    } else if s[0] == '-' {
        if s.len() == 1 {
            Err(ParseIntFailure::InvalidDigit)
        } else {
            parse_digits_rec(s.drop_first(), true, 0)
        }
    } else {
        parse_digits_rec(s, false, 0)
    }
}

/// Parses a decimal 64-bit signed integer with the standard library's exact
/// semantics.
pub fn parse_i64(s: &str) -> (r: Result<i64, ParseIntFailure>)
    ensures
        match r {
            Ok(v) => spec_parse_i64(s@) == Ok::<int, ParseIntFailure>(v as int),
            Err(e) => spec_parse_i64(s@) == Err::<int, ParseIntFailure>(e),
        },
{
    let n = s.unicode_len();
    if n == 0 {
        return Err(ParseIntFailure::Empty);
    }
    let first = s.get_char(0);
    let (neg, start): (bool, usize) = if first == '+' {
        (false, 1)
    } else if first == '-' {
        (true, 1)
    } else {
        (false, 0)
    };
    if start == 1 && n == 1 {
        return Err(ParseIntFailure::InvalidDigit);
    }
    proof {
        if start == 1 {
            assert(s@.subrange(1, n as int) =~= s@.drop_first());
        } else {
            assert(s@.subrange(0, n as int) =~= s@);
        }
    }
    let mut acc: i64 = 0;
    let mut i = start;
    while i < n
        invariant
            start <= i <= n,
            n == s@.len(),
            neg ==> acc <= 0,
            !neg ==> acc >= 0,
            spec_parse_i64(s@) == parse_digits_rec(s@.subrange(i as int, n as int), neg, acc as int),
        decreases n - i,
    {
        let ghost digs = s@.subrange(i as int, n as int);
        let c = s.get_char(i);
        proof {
            assert(digs[0] == c);
        }
        if c < '0' || c > '9' {
            return Err(ParseIntFailure::InvalidDigit);
        }
        let d = (c as u32 - '0' as u32) as i64;
        let step: Option<i64> = match acc.checked_mul(10) {
            Some(a) => if neg {
                a.checked_sub(d)
            } else {
                a.checked_add(d)
            },
            None => None,
        };
        proof {
            assert(digs.drop_first() =~= s@.subrange(i + 1, n as int));
        }
        match step {
            Some(a2) => {
                acc = a2;
            },
            None => {
                proof {
                    let acc2 = if neg {
                        acc * 10 - digit_char_val(c)
                    } else {
                        acc * 10 + digit_char_val(c)
                    };
                    assert(acc2 < i64::MIN || acc2 > i64::MAX);
                }
                if neg {
                    return Err(ParseIntFailure::NegOverflow);
                } else {
                    return Err(ParseIntFailure::PosOverflow);
                }
            },
        }
        i = i + 1;
    }
    proof {
        assert(s@.subrange(n as int, n as int) =~= Seq::<char>::empty());
    }
    Ok(acc)
}

/// The decimal digits of `n`, most significant first.
pub open spec fn spec_decimal_digits(n: int) -> Seq<char>
    decreases n when n >= 0
{
    if n < 10 {
        seq![spec_base36_char(n)]
    } else {
        spec_decimal_digits(n / 10).push(spec_base36_char(n % 10))
    }
}

/// How the standard formatter renders a signed 64-bit value in decimal.
pub open spec fn spec_i64_string(v: int) -> Seq<char> {
    if v < 0 {
        seq!['-'] + spec_decimal_digits(-v)
    } else {
        spec_decimal_digits(v)
    }
}

fn u64_decimal(n: u64) -> (r: String)
    ensures
        r@ == spec_decimal_digits(n as int),
    decreases n,
{
    if n < 10 {
        let mut s = String::new();
        push_char(&mut s, exec_base36_char(n as u32));
        proof {
            assert(s@ =~= spec_decimal_digits(n as int));
        }
        s
    } else {
        let mut s = u64_decimal(n / 10);
        push_char(&mut s, exec_base36_char((n % 10) as u32));
        s
    }
}

/// Renders a signed 64-bit value in decimal, as the standard formatter does.
pub fn i64_to_string(v: i64) -> (r: String)
    ensures
        r@ == spec_i64_string(v as int),
{
    if v >= 0 {
        u64_decimal(v as u64)
    } else {
        let mag: u64 = if v == i64::MIN {
            9223372036854775808u64
        } else {
            (-v) as u64
        };
        let mut s = String::new();
        push_char(&mut s, '-');
        let digits = u64_decimal(mag);
        s.append(digits.as_str());
        proof {
            assert(s@ =~= spec_i64_string(v as int));
        }
        s
    }
}

} // verus!
