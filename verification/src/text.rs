//! Character-level helpers for working with `&str` values: equality,
//! substring search and decimal-number parsing, all specified over the
//! `Seq<char>` view of a string.

use vstd::prelude::*;

verus! {

/// True when `c` is a decimal digit.
pub open spec fn is_digit(c: char) -> bool {
    '0' as int <= c as int && c as int <= '9' as int
}

/// Numeric value of a digit character.
pub open spec fn digit_val(c: char) -> int {
    c as int - '0' as int
}

/// Value of a digit string read as a base-ten number.
pub open spec fn digits_val(s: Seq<char>) -> int
    decreases s.len(),
{
    if s.len() == 0 {
        0
    } else {
        digits_val(s.drop_last()) * 10 + digit_val(s.last())
    }
}

/// Compares two string slices character by character.
pub fn str_eq(a: &str, b: &str) -> (r: bool)
    ensures
        r == (a@ == b@),
{
    let a_len = a.unicode_len();
    let b_len = b.unicode_len();
    if a_len != b_len {
        return false;
    }
    for i in 0..a_len
        invariant
            a_len == a@.len(),
            a_len == b@.len(),
            forall|j: int| 0 <= j < i ==> a@[j] == b@[j],
    {
        if a.get_char(i) != b.get_char(i) {
            return false;
        }
    }
    proof {
        assert(a@ =~= b@);
    }
    true
}

/// A digit string never reads as a negative number.
proof fn lemma_digits_val_nonneg(s: Seq<char>)
    requires
        forall|j: int| 0 <= j < s.len() ==> is_digit(s[j]),
    ensures
        digits_val(s) >= 0,
    decreases s.len(),
{
    if s.len() > 0 {
        lemma_digits_val_nonneg(s.drop_last());
    }
}

/// A prefix of an all-digit string reads as a number no larger than the
/// whole string does.
proof fn lemma_digits_val_prefix(s: Seq<char>, k: int)
    requires
        forall|j: int| 0 <= j < s.len() ==> is_digit(s[j]),
        0 <= k <= s.len(),
    ensures
        digits_val(s.take(k)) <= digits_val(s),
    decreases s.len(),
{
    if k < s.len() {
        assert(s.drop_last().take(k) =~= s.take(k));
        lemma_digits_val_prefix(s.drop_last(), k);
        lemma_digits_val_nonneg(s.drop_last());
    } else {
        assert(s.take(k) =~= s);
    }
}

/// Reading of a non-empty all-digit string as a base-ten number that fits
/// in a `u32`.
pub open spec fn spec_parse_digits(d: Seq<char>) -> Option<u32> {
    if d.len() > 0 && (forall|j: int| 0 <= j < d.len() ==> is_digit(d[j])) && digits_val(d)
        <= u32::MAX {
        Some(digits_val(d) as u32)
    } else {
        None
    }
}

/// Base-ten reading of a string, as `str::parse::<u32>` reads it: an
/// optional leading `+`, then at least one digit, with the value required
/// to fit in a `u32`.
pub open spec fn spec_parse_u32(s: Seq<char>) -> Option<u32> {
    if s.len() > 0 && s[0] == '+' {
        spec_parse_digits(s.drop_first())
    } else {
        spec_parse_digits(s)
    }
}

/// Reads a whole string slice as a base-ten `u32`, accepting an optional
/// leading `+`, and rejecting empty input, non-digit characters and values
/// that overflow.
pub fn parse_u32(s: &str) -> (r: Option<u32>)
    ensures
        r == spec_parse_u32(s@),
{
    let n = s.unicode_len();
    if n == 0 {
        return None;
    }
    let start: usize = if s.get_char(0) == '+' {
        1
    } else {
        0
    };
    let ghost d: Seq<char> = if s@[0] == '+' {
        s@.drop_first()
    } else {
        s@
    };
    if start == n {
        // the string is exactly "+"
        return None;
    }
    let mut val: u64 = 0;
    let mut i: usize = start;
    while i < n
        invariant
            start <= i <= n,
            start == 0 || start == 1,
            n == s@.len(),
            start == 1 ==> s@[0] == '+' && d == s@.drop_first(),
            start == 0 ==> !(s@.len() > 0 && s@[0] == '+') && d == s@,
            d.len() == n - start,
            forall|j: int| 0 <= j < d.len() ==> d[j] == s@[j + start],
            forall|j: int| 0 <= j < i - start ==> is_digit(d[j]),
            val == digits_val(d.take(i - start)),
            val <= u32::MAX,
        decreases n - i,
    {
        let c = s.get_char(i);
        let cv = c as u32;
        if cv < 48 || cv > 57 {
            proof {
                assert(!is_digit(d[i - start]));
                assert(spec_parse_digits(d) is None) by {
                    if spec_parse_digits(d) is Some {
                        assert(is_digit(d[i - start]));
                    }
                }
            }
            return None;
        }
        let dv = cv - 48;
        assert(digit_val(d[i - start]) == dv);
        val = val * 10 + (dv as u64);
        proof {
            assert(d.take(i - start + 1).drop_last() =~= d.take(i - start));
            assert(d.take(i - start + 1).last() == d[i - start]);
        }
        i = i + 1;
        if val > u32::MAX as u64 {
            proof {
                assert(spec_parse_digits(d) is None) by {
                    if spec_parse_digits(d) is Some {
                        lemma_digits_val_prefix(d, i - start);
                    }
                }
            }
            return None;
        }
    }
    proof {
        assert(d.take(d.len() as int) =~= d);
    }
    Some(val as u32)
}

/// True when `needle` occurs as a contiguous run of characters inside
/// `haystack`.
pub open spec fn spec_contains(haystack: Seq<char>, needle: Seq<char>) -> bool {
    exists|i: int|
        0 <= i && i + needle.len() <= haystack.len() && #[trigger] haystack.subrange(
            i,
            i + needle.len(),
        ) == needle
}

/// Substring search, character by character.
pub fn str_contains(haystack: &str, needle: &str) -> (r: bool)
    ensures
        r == spec_contains(haystack@, needle@),
{
    let h_len = haystack.unicode_len();
    let n_len = needle.unicode_len();
    if n_len > h_len {
        return false;
    }
    let mut i: usize = 0;
    while i <= h_len - n_len
        invariant
            n_len <= h_len,
            h_len == haystack@.len(),
            n_len == needle@.len(),
            forall|k: int|
                0 <= k < i ==> #[trigger] haystack@.subrange(k, k + needle@.len()) != needle@,
        decreases h_len + 1 - i,
    {
        let mut j: usize = 0;
        let mut matched = true;
        while matched && j < n_len
            invariant
                0 <= j <= n_len,
                i + n_len <= h_len,
                h_len == haystack@.len(),
                n_len == needle@.len(),
                matched ==> forall|m: int| 0 <= m < j ==> haystack@[i + m] == needle@[m],
                !matched ==> exists|m: int|
                    0 <= m < n_len && #[trigger] haystack@[i + m] != needle@[m],
            decreases n_len - j,
        {
            if haystack.get_char(i + j) != needle.get_char(j) {
                matched = false;
            }
            j = j + 1;
        }
        if matched {
            proof {
                assert(haystack@.subrange(i as int, i + needle@.len()) =~= needle@);
            }
            return true;
        }
        proof {
            let m = choose|m: int| 0 <= m < n_len && #[trigger] haystack@[i + m] != needle@[m];
            assert(haystack@.subrange(i as int, i + needle@.len())[m] == haystack@[i + m]);
            assert(haystack@.subrange(i as int, i + needle@.len()) != needle@);
        }
        i = i + 1;
    }
    false
}

} // verus!
