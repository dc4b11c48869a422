//! Semantic-version parsing and ordering.
//!
//! A version string is exactly three dot-separated components, each a
//! non-empty run of decimal digits whose value fits in a `u32`.  Any
//! other shape is unparseable, and comparison deliberately treats an
//! unparseable side as equal, so a malformed tag never looks like an
//! update.

use vstd::prelude::*;
use crate::text::split_chars;
use crate::text::split_list;

verus! {

/// True exactly when `c` is an ASCII decimal digit.
pub open spec fn is_digit(c: char) -> bool {
    '0' <= c && c <= '9'
}

/// The numeric value of a digit character.
pub open spec fn digit_val(c: char) -> int {
    c as int - '0' as int
}

/// True exactly when every character of `s` is a decimal digit.
pub open spec fn all_digits(s: Seq<char>) -> bool {
    forall|i: int| 0 <= i < s.len() ==> is_digit(s[i])
}

/// The value of `s` read as a decimal numeral.
pub open spec fn digits_val(s: Seq<char>) -> int
    decreases s.len(),
{
    if s.len() == 0 {
        0
    } else {
        digits_val(s.drop_last()) * 10 + digit_val(s.last())
    }
}

/// A digit string never has a negative value.
proof fn lemma_digits_val_nonneg(s: Seq<char>)
    requires
        all_digits(s),
    ensures
        digits_val(s) >= 0,
    decreases s.len(),
{
    if s.len() > 0 {
        assert(all_digits(s.drop_last()));
        lemma_digits_val_nonneg(s.drop_last());
    }
}

/// Extending a digit string never shrinks its value.
proof fn lemma_digits_val_mono(s: Seq<char>, k: int)
    requires
        all_digits(s),
        0 <= k <= s.len(),
    ensures
        digits_val(s) >= digits_val(s.take(k)),
    decreases s.len() - k,
{
    if k < s.len() {
        assert(all_digits(s.take(k + 1)));
        assert(s.take(k + 1).drop_last() =~= s.take(k));
        lemma_digits_val_nonneg(s.take(k));
        lemma_digits_val_mono(s, k + 1);
    } else {
        assert(s.take(k) =~= s);
    }
}

/// What a component of a version string parses to: its decimal value,
/// when it is a non-empty digit run whose value fits in a `u32`.
pub open spec fn parse_u32_spec(s: Seq<char>) -> Option<u32> {
    if s.len() > 0 && all_digits(s) && digits_val(s) <= u32::MAX {
        Some(digits_val(s) as u32)
    } else {
        None
    }
}

/// Parse a non-empty run of decimal digits as a `u32`.
pub fn parse_u32_str(s: &str) -> (r: Option<u32>)
    ensures
        r == parse_u32_spec(s@),
{
    let n = s.unicode_len();
    if n == 0 {
        return None;
    }
    let mut val: u64 = 0;
    for i in 0..n
        invariant
            n == s@.len(),
            all_digits(s@.take(i as int)),
            val == digits_val(s@.take(i as int)),
            val <= u32::MAX,
    {
        let c = s.get_char(i);
        let cu = c as u32;
        if cu < 48 || cu > 57 {
            proof {
                assert(!is_digit(s@[i as int]));
            }
            return None;
        }
        let d = cu - 48;
        val = val * 10 + (d as u64);
        proof {
            assert(s@.take(i + 1).drop_last() =~= s@.take(i as int));
            assert(s@.take(i + 1).last() == s@[i as int]);
        }
        if val > u32::MAX as u64 {
            proof {
                if all_digits(s@) {
                    lemma_digits_val_mono(s@, i + 1);
                }
            }
            return None;
        }
    }
    proof {
        assert(s@.take(n as int) =~= s@);
    }
    Some(val as u32)
}

/// What a whole version string parses to: the `(major, minor, patch)`
/// triple, when the string is exactly three parseable components.
pub open spec fn semver_of(s: Seq<char>) -> Option<(u32, u32, u32)> {
    let parts = split_chars(s, '.');
    if parts.len() == 3 {
        match (parse_u32_spec(parts[0]), parse_u32_spec(parts[1]), parse_u32_spec(parts[2])) {
            (Some(a), Some(b), Some(c)) => Some((a, b, c)),
            _ => None,
        }
    } else {
        None
    }
}

/// Parse a semantic version string into its `(major, minor, patch)`
/// triple, or `None` for any other shape.
pub fn parse_semver(version: &str) -> (r: Option<(u32, u32, u32)>)
    ensures
        r == semver_of(version@),
{
    let parts = split_list(version, '.');
    proof {
        assert(parts.deep_view().len() == parts.len());
    }
    if parts.len() != 3 {
        return None;
    }
    proof {
        assert(parts.deep_view()[0] == parts@[0]@);
        assert(parts.deep_view()[1] == parts@[1]@);
        assert(parts.deep_view()[2] == parts@[2]@);
    }
    let major = parse_u32_str(parts[0].as_str());
    let minor = parse_u32_str(parts[1].as_str());
    let patch = parse_u32_str(parts[2].as_str());
    match (major, minor, patch) {
        (Some(a), Some(b), Some(c)) => Some((a, b, c)),
        _ => None,
    }
}

/// Lexicographic order on version triples: `1` for greater, `-1` for
/// less, `0` for equal.
pub open spec fn cmp_triple(a: (u32, u32, u32), b: (u32, u32, u32)) -> int {
    if a.0 != b.0 {
        if a.0 > b.0 {
            1int
        } else {
            -1int
        }
    } else if a.1 != b.1 {
        if a.1 > b.1 {
            1int
        } else {
            -1int
        }
    } else if a.2 != b.2 {
        if a.2 > b.2 {
            1int
        } else {
            -1int
        }
    } else {
        0int
    }
}

/// The order of two version strings; either side failing to parse
/// makes them compare equal.
pub open spec fn compare_versions_spec(a: Seq<char>, b: Seq<char>) -> int {
    match (semver_of(a), semver_of(b)) {
        (Some(x), Some(y)) => cmp_triple(x, y),
        _ => 0,
    }
}

/// Compare two version strings: `1` when `a` is newer than `b`, `-1`
/// when older, `0` when equal or when either fails to parse.
pub fn compare_versions(a: &str, b: &str) -> (r: i32)
    ensures
        r as int == compare_versions_spec(a@, b@),
{
    let pa = parse_semver(a);
    let pb = parse_semver(b);
    match (pa, pb) {
        (Some(x), Some(y)) => {
            if x.0 != y.0 {
                if x.0 > y.0 {
                    1
                } else {
                    -1
                }
            } else if x.1 != y.1 {
                if x.1 > y.1 {
                    1
                } else {
                    -1
                }
            } else if x.2 != y.2 {
                if x.2 > y.2 {
                    1
                } else {
                    -1
                }
            } else {
                0
            }
        },
        _ => 0,
    }
}

} // verus!
