//! An ordered `(major, minor, patch)` version triple, parsed from a
//! version string.
//!
//! A version string is read the way the browser-data feeds write it: an
//! optional range suffix introduced by `-` is ignored (so `4.4.3-4.4.4`
//! reads as `4.4.3`), the part before it is split on `.`, and the first
//! three segments give major, minor and patch, with missing segments
//! defaulting to zero and segments past the third ignored.

use vstd::prelude::*;

use crate::text::{parse_u32, spec_parse_u32};

verus! {

/// A comparable version triple. Comparison is component-wise, most
/// significant component first.
#[derive(Clone, Copy, PartialEq, Eq, Structural, Debug)]
pub struct Version {
    pub major: u32,
    pub minor: u32,
    pub patch: u32,
}

/// Non-strict lexicographic order on version triples.
pub open spec fn spec_version_le(a: Version, b: Version) -> bool {
    a == b || spec_version_lt(a, b)
}

/// Strict lexicographic order on version triples.
pub open spec fn spec_version_lt(a: Version, b: Version) -> bool {
    a.major < b.major || (a.major == b.major && (a.minor < b.minor || (a.minor == b.minor
        && a.patch < b.patch)))
}

/// Index of the first occurrence of `c` in `s`, or `-1` when `c` does not
/// occur.
pub open spec fn find_char(s: Seq<char>, c: char) -> int
    decreases s.len(),
{
    if s.len() == 0 {
        -1
    } else if s[0] == c {
        0
    } else if find_char(s.drop_first(), c) == -1 {
        -1
    } else {
        find_char(s.drop_first(), c) + 1
    }
}

/// `find_char` returns `-1` exactly when `c` is absent, and otherwise the
/// first index holding `c`.
proof fn lemma_find_char(s: Seq<char>, c: char)
    ensures
        find_char(s, c) == -1 ==> forall|j: int| 0 <= j < s.len() ==> s[j] != c,
        find_char(s, c) != -1 ==> {
            let r = find_char(s, c);
            0 <= r < s.len() && s[r] == c && (forall|j: int| 0 <= j < r ==> s[j] != c)
        },
    decreases s.len(),
{
    if s.len() > 0 && s[0] != c {
        lemma_find_char(s.drop_first(), c);
        let rr = find_char(s.drop_first(), c);
        if rr == -1 {
            assert forall|j: int| 0 <= j < s.len() implies s[j] != c by {
                if j > 0 {
                    assert(s.drop_first()[j - 1] == s[j]);
                }
            }
        } else {
            assert(s[rr + 1] == s.drop_first()[rr]);
            assert forall|j: int| 0 <= j < rr + 1 implies s[j] != c by {
                if j > 0 {
                    assert(s.drop_first()[j - 1] == s[j]);
                }
            }
        }
    }
}

/// The part of a version string before the first `-`, or the whole string
/// when there is none.
pub open spec fn spec_version_base(s: Seq<char>) -> Seq<char> {
    if find_char(s, '-') >= 0 {
        s.take(find_char(s, '-'))
    } else {
        s
    }
}

/// Builds the triple out of up to three parsed segments.
pub open spec fn spec_version_of(
    major: Option<u32>,
    minor: Option<u32>,
    patch: Option<u32>,
) -> Option<Version> {
    match (major, minor, patch) {
        (Some(ma), Some(mi), Some(pa)) => Some(Version { major: ma, minor: mi, patch: pa }),
        _ => None,
    }
}

/// Reading of a whole version string: the base split on `.`, the first
/// three segments parsed as numbers, absent segments read as zero.
pub open spec fn spec_parse_version(s: Seq<char>) -> Option<Version> {
    let base = spec_version_base(s);
    let i = find_char(base, '.');
    if i < 0 {
        spec_version_of(spec_parse_u32(base), Some(0u32), Some(0u32))
    } else {
        let seg1 = base.take(i);
        let rest = base.skip(i + 1);
        let j = find_char(rest, '.');
        if j < 0 {
            spec_version_of(spec_parse_u32(seg1), spec_parse_u32(rest), Some(0u32))
        } else {
            let seg2 = rest.take(j);
            let rest2 = rest.skip(j + 1);
            let k = find_char(rest2, '.');
            let seg3 = if k < 0 {
                rest2
            } else {
                rest2.take(k)
            };
            spec_version_of(spec_parse_u32(seg1), spec_parse_u32(seg2), spec_parse_u32(seg3))
        }
    }
}

/// Whatever index `find_in` reports for the first occurrence of `c` is the
/// index `find_char` denotes.
proof fn lemma_find_char_agrees(s: Seq<char>, c: char, r: int)
    requires
        r == -1 ==> forall|j: int| 0 <= j < s.len() ==> s[j] != c,
        r != -1 ==> 0 <= r < s.len() && s[r] == c && (forall|j: int| 0 <= j < r ==> s[j] != c),
    ensures
        find_char(s, c) == r,
{
    lemma_find_char(s, c);
    let f = find_char(s, c);
    if r == -1 {
        if f != -1 {
            assert(s[f] != c);
        }
    } else {
        if f == -1 {
            assert(s[r] != c);
        } else if f < r {
            assert(s[f] != c);
        } else if f > r {
            assert(s[r] != c);
        }
    }
}

/// First occurrence of `c` in `s` within `[from, to)`, scanning left to
/// right.
fn find_in(s: &str, from: usize, to: usize, c: char) -> (r: Option<usize>)
    requires
        from <= to <= s@.len(),
    ensures
        match r {
            Some(i) => from <= i < to && s@[i as int] == c && (forall|j: int|
                from <= j < i ==> s@[j] != c),
            None => forall|j: int| from <= j < to ==> s@[j] != c,
        },
{
    let mut i: usize = from;
    while i < to
        invariant
            from <= i <= to <= s@.len(),
            forall|j: int| from <= j < i ==> s@[j] != c,
        decreases to - i,
    {
        if s.get_char(i) == c {
            return Some(i);
        }
        i = i + 1;
    }
    None
}

impl Version {
    /// Strict component-wise comparison, most significant first.
    pub fn lt(&self, other: &Version) -> (r: bool)
        ensures
            r == spec_version_lt(*self, *other),
    {
        self.major < other.major || (self.major == other.major && (self.minor < other.minor || (
        self.minor == other.minor && self.patch < other.patch)))
    }

    /// Parses a version string into a triple, returning nothing when a
    /// present segment is not a number.
    pub fn from_str(s: &str) -> (r: Option<Version>)
        ensures
            r == spec_parse_version(s@),
    {
        let n = s.unicode_len();
        let end: usize = match find_in(s, 0, n, '-') {
            Some(i) => i,
            None => n,
        };
        proof {
            lemma_find_char_agrees(s@, '-', if end < n { end as int } else { -1 });
            assert(s@.subrange(0, end as int) =~= spec_version_base(s@));
        }
        let base_str = s.substring_char(0, end);
        let (seg1, rest1) = split_first_dot(base_str);
        match rest1 {
            None => {
                match parse_u32(seg1) {
                    Some(ma) => Some(Version { major: ma, minor: 0, patch: 0 }),
                    None => None,
                }
            },
            Some(rest) => {
                let (seg2, rest2) = split_first_dot(rest);
                match rest2 {
                    None => {
                        match (parse_u32(seg1), parse_u32(seg2)) {
                            (Some(ma), Some(mi)) => Some(
                                Version { major: ma, minor: mi, patch: 0 },
                            ),
                            _ => None,
                        }
                    },
                    Some(tail) => {
                        let (seg3, _) = split_first_dot(tail);
                        match (parse_u32(seg1), parse_u32(seg2), parse_u32(seg3)) {
                            (Some(ma), Some(mi), Some(pa)) => Some(
                                Version { major: ma, minor: mi, patch: pa },
                            ),
                            _ => None,
                        }
                    },
                }
            },
        }
    }
}

/// Splits off the part of `t` before its first `.`, together with the part
/// after that `.` when one occurs.
fn split_first_dot<'a>(t: &'a str) -> (r: (&'a str, Option<&'a str>))
    ensures
        ({
            let i = find_char(t@, '.');
            match r.1 {
                None => i == -1 && r.0@ == t@,
                Some(rest) => 0 <= i && r.0@ == t@.take(i) && rest@ == t@.skip(i + 1),
            }
        }),
{
    let n = t.unicode_len();
    match find_in(t, 0, n, '.') {
        None => {
            proof {
                lemma_find_char_agrees(t@, '.', -1);
            }
            (t, None)
        },
        Some(i) => {
            proof {
                lemma_find_char_agrees(t@, '.', i as int);
            }
            let seg = t.substring_char(0, i);
            let rest = t.substring_char(i + 1, n);
            proof {
                assert(seg@ =~= t@.take(i as int));
                assert(rest@ =~= t@.skip(i + 1));
            }
            (seg, Some(rest))
        },
    }
}

} // verus!
