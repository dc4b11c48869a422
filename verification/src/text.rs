//! Verified character-sequence primitives shared by the resolver and the
//! updater: membership of a character, substring containment, suffix
//! testing, separator splitting, and whitespace trimming.

use vstd::prelude::*;

verus! {

/// True exactly when `c` occurs somewhere in `s`.
pub open spec fn contains_char(s: Seq<char>, c: char) -> bool {
    exists|i: int| 0 <= i < s.len() && s[i] == c
}

/// Scan `s` for the character `c`.
pub fn str_contains_char(s: &str, c: char) -> (r: bool)
    ensures
        r == contains_char(s@, c),
{
    let n = s.unicode_len();
    for i in 0..n
        invariant
            n == s@.len(),
            forall|j: int| 0 <= j < i ==> s@[j] != c,
    {
        if s.get_char(i) == c {
            return true;
        }
    }
    false
}

/// True exactly when `sub` occurs in `s` starting at index `i`.
pub open spec fn is_sub_at(s: Seq<char>, sub: Seq<char>, i: int) -> bool {
    0 <= i && i + sub.len() <= s.len() && s.subrange(i, i + sub.len() as int) == sub
}

/// True exactly when `sub` occurs somewhere in `s`.
pub open spec fn contains_sub(s: Seq<char>, sub: Seq<char>) -> bool {
    exists|i: int| is_sub_at(s, sub, i)
}

/// True exactly when `s` ends with `suffix`.
pub open spec fn ends_with(s: Seq<char>, suffix: Seq<char>) -> bool {
    suffix.len() <= s.len() && s.subrange(s.len() - suffix.len(), s.len() as int) == suffix
}

/// Compare `sub` against the characters of `s` starting at `i`.
fn match_at(s: &str, sub: &str, i: usize) -> (r: bool)
    requires
        i + sub@.len() <= s@.len(),
    ensures
        r == is_sub_at(s@, sub@, i as int),
{
    let n = s.unicode_len();
    let m = sub.unicode_len();
    for k in 0..m
        invariant
            n == s@.len(),
            m == sub@.len(),
            i + m <= s@.len(),
            forall|j: int| 0 <= j < k ==> s@[i + j] == sub@[j],
    {
        if s.get_char(i + k) != sub.get_char(k) {
            proof {
                let sr = s@.subrange(i as int, i as int + sub@.len() as int);
                assert(sr[k as int] == s@[i + k]);
                assert(sr != sub@) by {
                    if sr == sub@ {
                        assert(sr[k as int] == sub@[k as int]);
                    }
                }
            }
            return false;
        }
    }
    proof {
        assert(s@.subrange(i as int, i as int + sub@.len() as int) =~= sub@);
    }
    true
}

/// Scan `s` for an occurrence of `sub`.
pub fn str_contains(s: &str, sub: &str) -> (r: bool)
    ensures
        r == contains_sub(s@, sub@),
{
    let n = s.unicode_len();
    let m = sub.unicode_len();
    if m > n {
        proof {
            assert forall|i: int| !is_sub_at(s@, sub@, i) by {}
        }
        return false;
    }
    if m == 0 {
        proof {
            assert(s@.subrange(0, 0) =~= sub@);
            assert(is_sub_at(s@, sub@, 0));
        }
        return true;
    }
    let bound = n - m + 1;
    for i in 0..bound
        invariant
            n == s@.len(),
            m == sub@.len(),
            m <= n,
            bound == n - m + 1,
            forall|j: int| 0 <= j < i ==> !is_sub_at(s@, sub@, j),
    {
        if match_at(s, sub, i) {
            return true;
        }
    }
    proof {
        assert forall|i: int| !is_sub_at(s@, sub@, i) by {
            if i > n - m {
                assert(i + sub@.len() > s@.len());
            }
        }
    }
    false
}

/// Test whether `s` ends with `suffix`.
pub fn str_ends_with(s: &str, suffix: &str) -> (r: bool)
    ensures
        r == ends_with(s@, suffix@),
{
    let n = s.unicode_len();
    let m = suffix.unicode_len();
    if m > n {
        return false;
    }
    let r = match_at(s, suffix, n - m);
    proof {
        assert(is_sub_at(s@, suffix@, n - m) == ends_with(s@, suffix@));
    }
    r
}

/// The pieces of `s` between occurrences of the separator `sep`, in
/// order.  A string without the separator is one piece; every separator
/// adds one piece, so the result is never empty and empty pieces are
/// kept (as `str::split` keeps them).
pub open spec fn split_chars(s: Seq<char>, sep: char) -> Seq<Seq<char>>
    decreases s.len(),
{
    if s.len() == 0 {
        seq![s]
    } else if s[0] == sep {
        seq![Seq::<char>::empty()] + split_chars(s.drop_first(), sep)
    } else {
        let rest = split_chars(s.drop_first(), sep);
        seq![seq![s[0]] + rest[0]] + rest.drop_first()
    }
}

/// Splitting always yields at least one piece.
pub proof fn lemma_split_len(s: Seq<char>, sep: char)
    ensures
        split_chars(s, sep).len() >= 1,
    decreases s.len(),
{
    if s.len() > 0 {
        lemma_split_len(s.drop_first(), sep);
    }
}

/// A string free of the separator splits into itself alone.
pub proof fn lemma_split_no_sep(s: Seq<char>, sep: char)
    requires
        !contains_char(s, sep),
    ensures
        split_chars(s, sep) == seq![s],
    decreases s.len(),
{
    if s.len() == 0 {
        assert(split_chars(s, sep) =~~= seq![s]);
    } else {
        assert(s[0] != sep);
        assert(!contains_char(s.drop_first(), sep)) by {
            if contains_char(s.drop_first(), sep) {
                let i = choose|i: int|
                    0 <= i < s.drop_first().len() && s.drop_first()[i] == sep;
                assert(s[i + 1] == sep);
            }
        }
        lemma_split_no_sep(s.drop_first(), sep);
        assert(seq![s[0]] + s.drop_first() =~= s);
        assert(split_chars(s, sep) =~~= seq![s]);
    }
}

/// Splitting distributes over a separator: the pieces of
/// `a + [sep] + b` are the pieces of `a` followed by the pieces of `b`.
pub proof fn lemma_split_concat(a: Seq<char>, b: Seq<char>, sep: char)
    ensures
        split_chars(a + seq![sep] + b, sep) == split_chars(a, sep) + split_chars(b, sep),
    decreases a.len(),
{
    let s = a + seq![sep] + b;
    if a.len() == 0 {
        assert(s[0] == sep);
        assert(s.drop_first() =~= b);
        assert(split_chars(a, sep) =~~= seq![Seq::<char>::empty()]);
        assert(split_chars(s, sep) =~~= split_chars(a, sep) + split_chars(b, sep));
    } else if a[0] == sep {
        assert(s[0] == sep);
        assert(s.drop_first() =~= a.drop_first() + seq![sep] + b);
        lemma_split_concat(a.drop_first(), b, sep);
        assert(split_chars(s, sep) =~~= split_chars(a, sep) + split_chars(b, sep));
    } else {
        assert(s[0] == a[0] && s[0] != sep);
        assert(s.drop_first() =~= a.drop_first() + seq![sep] + b);
        lemma_split_concat(a.drop_first(), b, sep);
        let ra = split_chars(a.drop_first(), sep);
        let rb = split_chars(b, sep);
        lemma_split_len(a.drop_first(), sep);
        assert((ra + rb)[0] == ra[0]);
        assert((ra + rb).drop_first() =~~= ra.drop_first() + rb);
        assert(split_chars(s, sep) =~~= split_chars(a, sep) + split_chars(b, sep));
    }
}

/// Split `s` at every occurrence of `sep`, keeping empty pieces.
pub fn split_list(s: &str, sep: char) -> (r: Vec<String>)
    ensures
        r.deep_view() == split_chars(s@, sep),
        r.len() >= 1,
{
    let n = s.unicode_len();
    let mut parts: Vec<String> = Vec::new();
    let mut start: usize = 0;
    proof {
        assert(s@.skip(0) =~= s@);
        assert(parts.deep_view() =~~= Seq::<Seq<char>>::empty());
        assert(parts.deep_view() + split_chars(s@.skip(0), sep) =~~= split_chars(s@, sep));
    }
    for i in 0..n
        invariant
            n == s@.len(),
            start <= i,
            forall|j: int| start <= j < i ==> s@[j] != sep,
            split_chars(s@, sep) == parts.deep_view() + split_chars(
                s@.skip(start as int),
                sep,
            ),
    {
        if s.get_char(i) == sep {
            let seg = s.substring_char(start, i);
            let ghost segv = s@.subrange(start as int, i as int);
            let ghost pdv = parts.deep_view();
            proof {
                assert(!contains_char(segv, sep)) by {
                    if contains_char(segv, sep) {
                        let j = choose|j: int| 0 <= j < segv.len() && segv[j] == sep;
                        assert(s@[start + j] == sep);
                    }
                }
                lemma_split_no_sep(segv, sep);
                assert(s@.skip(start as int) =~= segv + seq![sep] + s@.skip(i as int + 1));
                lemma_split_concat(segv, s@.skip(i as int + 1), sep);
            }
            parts.push(String::from_str(seg));
            proof {
                assert(parts.deep_view() =~~= pdv.push(segv));
                assert(pdv.push(segv) =~~= pdv + seq![segv]);
                assert(pdv + (seq![segv] + split_chars(s@.skip(i as int + 1), sep)) =~~= (pdv
                    + seq![segv]) + split_chars(s@.skip(i as int + 1), sep));
            }
            start = i + 1;
        }
    }
    let seg = s.substring_char(start, n);
    let ghost segv = s@.subrange(start as int, n as int);
    let ghost pdv = parts.deep_view();
    proof {
        assert(segv =~= s@.skip(start as int));
        assert(!contains_char(segv, sep)) by {
            if contains_char(segv, sep) {
                let j = choose|j: int| 0 <= j < segv.len() && segv[j] == sep;
                assert(s@[start + j] == sep);
            }
        }
        lemma_split_no_sep(segv, sep);
    }
    parts.push(String::from_str(seg));
    proof {
        assert(parts.deep_view() =~~= pdv.push(segv));
        assert(pdv.push(segv) =~~= pdv + seq![segv]);
        assert(parts.deep_view() =~~= split_chars(s@, sep));
    }
    parts
}

/// True exactly when `c` has the Unicode `White_Space` property, the
/// set `char::is_whitespace` recognises: the ASCII whitespace
/// characters, next line, no-break space, ogham space mark, the
/// en-quad..hair-space run, the line and paragraph separators, narrow
/// no-break space, medium mathematical space, and ideographic space.
pub open spec fn is_space(c: char) -> bool {
    let u = c as u32;
    (0x09 <= u && u <= 0x0D) || u == 0x20 || u == 0x85 || u == 0xA0 || u == 0x1680 || (0x2000
        <= u && u <= 0x200A) || u == 0x2028 || u == 0x2029 || u == 0x202F || u == 0x205F || u
        == 0x3000
}

/// `s` with leading and trailing whitespace removed, one character at a
/// time from either end.
pub open spec fn trimmed(s: Seq<char>) -> Seq<char>
    decreases s.len(),
{
    if s.len() == 0 {
        s
    } else if is_space(s[0]) {
        trimmed(s.drop_first())
    } else if is_space(s[s.len() - 1]) {
        trimmed(s.drop_last())
    } else {
        s
    }
}

/// Whitespace test usable from executable code.
fn is_space_char(c: char) -> (r: bool)
    ensures
        r == is_space(c),
{
    let u = c as u32;
    (0x09 <= u && u <= 0x0D) || u == 0x20 || u == 0x85 || u == 0xA0 || u == 0x1680 || (0x2000
        <= u && u <= 0x200A) || u == 0x2028 || u == 0x2029 || u == 0x202F || u == 0x205F || u
        == 0x3000
}

/// Remove leading and trailing whitespace from `s`.
pub fn trim_str(s: &str) -> (r: String)
    ensures
        r@ == trimmed(s@),
    decreases s@.len(),
{
    let n = s.unicode_len();
    if n == 0 {
        String::new()
    } else if is_space_char(s.get_char(0)) {
        let rest = s.substring_char(1, n);
        proof {
            assert(rest@ =~= s@.drop_first());
        }
        trim_str(rest)
    } else if is_space_char(s.get_char(n - 1)) {
        let rest = s.substring_char(0, n - 1);
        proof {
            assert(rest@ =~= s@.drop_last());
        }
        trim_str(rest)
    } else {
        s.to_owned()
    }
}

} // verus!
