//! The textual patterns that names, versions, groups and ignore rules of a
//! `puzzle.toml` must follow, checked character by character.
use vstd::prelude::*;
use crate::text::chars_of;

verus! {

/// Whether `c` is a decimal digit in the Unicode sense (general category Nd).
pub uninterp spec fn unicode_decimal_digit(c: char) -> bool;

/// Tells whether `c` is matched by the class `\d` of the `regex` crate,
/// which its documentation defines as `\p{Nd}` (Unicode decimal digits).
///
/// Trusted: compiles the pattern `^\d$` with `regex::Regex::new` and calls
/// `is_match` on the one-character string. The contract names the result and
/// states only the ASCII part of Nd: the ten digits `0`..`9` are in it and no
/// other ASCII character is.
#[verifier::external_body]
pub(crate) fn is_unicode_decimal_digit(c: char) -> (r: bool)
    ensures
        r == unicode_decimal_digit(c),
        '0' <= c <= '9' ==> r,
        (c as u32) < 128 && !('0' <= c <= '9') ==> !r,
{
    regex::Regex::new(r"^\d$").unwrap().is_match(&c.to_string())
}

/// `[a-z]`
pub open spec fn is_lower(c: char) -> bool {
    'a' <= c <= 'z'
}

/// `[0-9]`
pub open spec fn is_digit(c: char) -> bool {
    '0' <= c <= '9'
}

/// `[a-z0-9]`
pub open spec fn is_lower_alnum(c: char) -> bool {
    is_lower(c) || is_digit(c)
}

/// `[a-zA-Z]`
pub open spec fn is_letter(c: char) -> bool {
    is_lower(c) || 'A' <= c <= 'Z'
}

/// `[a-zA-Z0-9]`
pub open spec fn is_alnum(c: char) -> bool {
    is_letter(c) || is_digit(c)
}

/// The name pattern `^[a-z][a-z0-9-]*$`.
pub open spec fn valid_name(s: Seq<char>) -> bool {
    &&& s.len() > 0
    &&& is_lower(s[0])
    &&& forall|i: int| 1 <= i < s.len() ==> is_lower_alnum(#[trigger] s[i]) || s[i] == '-'
}

/// One or more Unicode decimal digits: `\d+`.
pub open spec fn digits(s: Seq<char>) -> bool {
    &&& s.len() > 0
    &&& forall|i: int| 0 <= i < s.len() ==> unicode_decimal_digit(#[trigger] s[i])
}

/// The version pattern `^\d+\.\d+\.\d+$`: three runs of digits joined by two dots,
/// the first dot at `a` and the second at `b`, and no other dot (a dot is no
/// decimal digit).
pub open spec fn version_split(s: Seq<char>, a: int, b: int) -> bool {
    &&& 0 < a
    &&& a + 1 < b
    &&& b + 1 < s.len()
    &&& s[a] == '.'
    &&& s[b] == '.'
    &&& forall|i: int| 0 <= i < s.len() && i != a && i != b ==> #[trigger] s[i] != '.'
    &&& digits(s.subrange(0, a))
    &&& digits(s.subrange(a + 1, b))
    &&& digits(s.subrange(b + 1, s.len() as int))
}

/// The version pattern `^\d+\.\d+\.\d+$`.
pub open spec fn valid_version(s: Seq<char>) -> bool {
    exists|a: int, b: int| version_split(s, a, b)
}

/// Identifiers `[a-z][a-z0-9]*` joined by `sep`:
/// `^[a-z][a-z0-9]*(?:SEP[a-z][a-z0-9]*)*$`.
pub open spec fn separated_idents(s: Seq<char>, sep: char) -> bool {
    &&& s.len() > 0
    &&& is_lower(s[0])
    &&& forall|i: int| 0 <= i < s.len() ==> is_lower_alnum(#[trigger] s[i]) || s[i] == sep
    &&& forall|i: int| 0 <= i < s.len() && #[trigger] s[i] == sep ==> i + 1 < s.len() && is_lower(s[i + 1])
}

/// The group pattern `^[a-z][a-z0-9]*(?:\.[a-z][a-z0-9]*)*$`.
pub open spec fn valid_group(s: Seq<char>) -> bool {
    separated_idents(s, '.')
}

/// The directory part of an ignore rule: `(?:[a-z][a-z0-9]*/)*`.
pub open spec fn ignore_dirs(p: Seq<char>) -> bool {
    p.len() == 0 || (p.last() == '/' && separated_idents(p.drop_last(), '/'))
}

/// A source file name `[a-zA-Z][a-zA-Z0-9]*\.pzl`.
pub open spec fn source_file_name(t: Seq<char>) -> bool {
    &&& t.len() >= 5
    &&& is_letter(t[0])
    &&& forall|i: int| 0 <= i < t.len() - 4 ==> is_alnum(#[trigger] t[i])
    &&& t.subrange(t.len() - 4, t.len() as int) == seq!['.', 'p', 'z', 'l']
}

/// The last part of an ignore rule: `(?:\*\*|\*|[a-zA-Z][a-zA-Z0-9]*\.pzl)`.
pub open spec fn ignore_tail(t: Seq<char>) -> bool {
    t == seq!['*', '*'] || t == seq!['*'] || source_file_name(t)
}

/// The ignore pattern `^(?:[a-z][a-z0-9]*/)*(?:\*\*|\*|[a-zA-Z][a-zA-Z0-9]*\.pzl)$`,
/// with the directory part ending at `k`.
pub open spec fn ignore_split(s: Seq<char>, k: int) -> bool {
    &&& 0 <= k <= s.len()
    &&& ignore_dirs(s.take(k))
    &&& ignore_tail(s.skip(k))
}

/// The ignore pattern `^(?:[a-z][a-z0-9]*/)*(?:\*\*|\*|[a-zA-Z][a-zA-Z0-9]*\.pzl)$`.
pub open spec fn valid_ignore(s: Seq<char>) -> bool {
    exists|k: int| ignore_split(s, k)
}

fn is_lower_char(c: char) -> (r: bool)
    ensures
        r == is_lower(c),
{
    'a' <= c && c <= 'z'
}

fn is_lower_alnum_char(c: char) -> (r: bool)
    ensures
        r == is_lower_alnum(c),
{
    ('a' <= c && c <= 'z') || ('0' <= c && c <= '9')
}

fn is_letter_char(c: char) -> (r: bool)
    ensures
        r == is_letter(c),
{
    ('a' <= c && c <= 'z') || ('A' <= c && c <= 'Z')
}

fn is_alnum_char(c: char) -> (r: bool)
    ensures
        r == is_alnum(c),
{
    ('a' <= c && c <= 'z') || ('A' <= c && c <= 'Z') || ('0' <= c && c <= '9')
}

/// Whether `s` follows the name pattern `^[a-z][a-z0-9-]*$`.
pub fn is_valid_name(s: &str) -> (r: bool)
    ensures
        r == valid_name(s@),
{
    let cs = chars_of(s);
    if cs.len() == 0 || !is_lower_char(cs[0]) {
        return false;
    }
    let mut i: usize = 1;
    while i < cs.len()
        invariant
            1 <= i <= cs.len(),
            cs@ == s@,
            forall|j: int| 1 <= j < i ==> is_lower_alnum(#[trigger] cs@[j]) || cs@[j] == '-',
        decreases cs.len() - i,
    {
        if !(is_lower_alnum_char(cs[i]) || cs[i] == '-') {
            return false;
        }
        i = i + 1;
    }
    true
}

/// Whether `cs[from..to]` is one or more decimal digits.
fn is_digits(cs: &Vec<char>, from: usize, to: usize) -> (r: bool)
    requires
        from <= to <= cs.len(),
    ensures
        r == digits(cs@.subrange(from as int, to as int)),
{
    if from == to {
        return false;
    }
    let mut i = from;
    while i < to
        invariant
            from <= i <= to <= cs.len(),
            forall|j: int| from <= j < i ==> unicode_decimal_digit(#[trigger] cs@[j]),
        decreases to - i,
    {
        if !is_unicode_decimal_digit(cs[i]) {
            assert(cs@.subrange(from as int, to as int)[i - from] == cs@[i as int]);
            return false;
        }
        i = i + 1;
    }
    assert forall|j: int| 0 <= j < to - from implies unicode_decimal_digit(
        #[trigger] cs@.subrange(from as int, to as int)[j],
    ) by {
        assert(cs@.subrange(from as int, to as int)[j] == cs@[from + j]);
    }
    true
}

/// Whether `s` follows the version pattern `^\d+\.\d+\.\d+$`.
pub fn is_valid_version(s: &str) -> (r: bool)
    ensures
        r == valid_version(s@),
{
    let cs = chars_of(s);
    let n = cs.len();
    // the first dot
    let mut a: usize = 0;
    while a < n && cs[a] != '.'
        invariant
            a <= n == cs.len(),
            forall|j: int| 0 <= j < a ==> cs@[j] != '.',
        decreases n - a,
    {
        a = a + 1;
    }
    if a >= n {
        proof {
            assert forall|x: int, y: int| !version_split(s@, x, y) by {
                if version_split(s@, x, y) {
                    assert(cs@[x] == '.');
                }
            }
        }
        return false;
    }
    // the second dot
    let mut b: usize = a + 1;
    while b < n && cs[b] != '.'
        invariant
            a < b <= n == cs.len(),
            forall|j: int| a < j < b ==> cs@[j] != '.',
        decreases n - b,
    {
        b = b + 1;
    }
    if b >= n {
        proof {
            assert forall|x: int, y: int| !version_split(s@, x, y) by {
                if version_split(s@, x, y) {
                    assert(cs@[x] == '.');
                    assert(cs@[y] == '.');
                    assert(cs@[a as int] == '.');
                }
            }
        }
        return false;
    }
    // no third dot
    let mut c: usize = b + 1;
    while c < n && cs[c] != '.'
        invariant
            b < c <= n == cs.len(),
            forall|j: int| b < j < c ==> cs@[j] != '.',
        decreases n - c,
    {
        c = c + 1;
    }
    let r = c >= n && is_digits(&cs, 0, a) && is_digits(&cs, a + 1, b) && is_digits(&cs, b + 1, n);
    proof {
        if r {
            assert(version_split(s@, a as int, b as int));
        } else {
            assert forall|x: int, y: int| !version_split(s@, x, y) by {
                if version_split(s@, x, y) {
                    assert(cs@[x] == '.');
                    assert(cs@[y] == '.');
                    assert(cs@[a as int] == '.');
                    assert(cs@[b as int] == '.');
                    if c < n {
                        assert(cs@[c as int] == '.');
                    }
                }
            }
        }
    }
    r
}

/// Whether `cs[from..to]` is a run of identifiers `[a-z][a-z0-9]*` joined by `sep`.
fn is_separated_idents(cs: &Vec<char>, from: usize, to: usize, sep: char) -> (r: bool)
    requires
        from <= to <= cs.len(),
        !is_lower_alnum(sep),
    ensures
        r == separated_idents(cs@.subrange(from as int, to as int), sep),
{
    let ghost t = cs@.subrange(from as int, to as int);
    if from == to || !is_lower_char(cs[from]) {
        return false;
    }
    let mut i = from;
    while i < to
        invariant
            from <= i <= to <= cs.len(),
            t == cs@.subrange(from as int, to as int),
            is_lower(t[0]),
            forall|j: int| 0 <= j < i - from ==> is_lower_alnum(#[trigger] t[j]) || t[j] == sep,
            forall|j: int|
                0 <= j < i - from && #[trigger] t[j] == sep ==> j + 1 < t.len() && is_lower(
                    t[j + 1],
                ),
        decreases to - i,
    {
        let c = cs[i];
        assert(t[i - from] == c);
        if c == sep {
            if i + 1 >= to {
                return false;
            }
            assert(t[i + 1 - from] == cs@[i + 1]);
            if !is_lower_char(cs[i + 1]) {
                return false;
            }
        } else if !is_lower_alnum_char(c) {
            return false;
        }
        i = i + 1;
    }
    true
}

/// Whether `s` follows the group pattern `^[a-z][a-z0-9]*(?:\.[a-z][a-z0-9]*)*$`.
pub fn is_valid_group(s: &str) -> (r: bool)
    ensures
        r == valid_group(s@),
{
    let cs = chars_of(s);
    let r = is_separated_idents(&cs, 0, cs.len(), '.');
    assert(cs@.subrange(0, cs@.len() as int) == s@);
    r
}

/// Whether `cs[from..]` is a source file name `[a-zA-Z][a-zA-Z0-9]*\.pzl`.
fn is_source_file_name(cs: &Vec<char>, from: usize) -> (r: bool)
    requires
        from <= cs.len(),
    ensures
        r == source_file_name(cs@.subrange(from as int, cs@.len() as int)),
{
    let ghost t = cs@.subrange(from as int, cs@.len() as int);
    let n = cs.len();
    if n - from < 5 || !is_letter_char(cs[from]) {
        return false;
    }
    assert(t[0] == cs@[from as int]);
    let e = n - 4;
    if !(cs[e] == '.' && cs[e + 1] == 'p' && cs[e + 2] == 'z' && cs[e + 3] == 'l') {
        proof {
            assert(t.subrange(t.len() - 4, t.len() as int)[0] == cs@[e as int]);
            assert(t.subrange(t.len() - 4, t.len() as int)[1] == cs@[e + 1]);
            assert(t.subrange(t.len() - 4, t.len() as int)[2] == cs@[e + 2]);
            assert(t.subrange(t.len() - 4, t.len() as int)[3] == cs@[e + 3]);
        }
        return false;
    }
    assert(t.subrange(t.len() - 4, t.len() as int) =~= seq!['.', 'p', 'z', 'l']);
    let mut i = from;
    while i < e
        invariant
            from <= i <= e == n - 4,
            n == cs.len(),
            t == cs@.subrange(from as int, n as int),
            forall|j: int| 0 <= j < i - from ==> is_alnum(#[trigger] t[j]),
        decreases e - i,
    {
        assert(t[i - from] == cs@[i as int]);
        if !is_alnum_char(cs[i]) {
            return false;
        }
        i = i + 1;
    }
    true
}

/// An ignore tail holds no `/`.
proof fn lemma_ignore_tail_no_slash(t: Seq<char>, i: int)
    requires
        ignore_tail(t),
        0 <= i < t.len(),
    ensures
        t[i] != '/',
{
    if source_file_name(t) && i >= t.len() - 4 {
        assert(t.subrange(t.len() - 4, t.len() as int)[i - (t.len() - 4)] == t[i]);
    }
}

/// Whether `s` follows the ignore pattern
/// `^(?:[a-z][a-z0-9]*/)*(?:\*\*|\*|[a-zA-Z][a-zA-Z0-9]*\.pzl)$`.
pub fn is_valid_ignore(s: &str) -> (r: bool)
    ensures
        r == valid_ignore(s@),
{
    let cs = chars_of(s);
    let n = cs.len();
    // k: the position just after the last '/'
    let mut k: usize = n;
    while k > 0 && cs[k - 1] != '/'
        invariant
            k <= n == cs.len(),
            forall|j: int| k <= j < n ==> cs@[j] != '/',
        decreases k,
    {
        k = k - 1;
    }
    let dirs_ok = k == 0 || is_separated_idents(&cs, 0, k - 1, '/');
    let tail_len = n - k;
    let tail_ok = (tail_len == 2 && cs[k] == '*' && cs[k + 1] == '*') || (tail_len == 1 && cs[k]
        == '*') || is_source_file_name(&cs, k);
    let r = dirs_ok && tail_ok;
    proof {
        let ghost ku = k as int;
        assert(s@.take(ku) == cs@.subrange(0, ku));
        assert(s@.skip(ku) == cs@.subrange(ku, n as int));
        if ku > 0 {
            assert(s@.take(ku).drop_last() == cs@.subrange(0, ku - 1));
        }
        let ghost tail = s@.skip(ku);
        if tail_len == 2 {
            assert(tail[0] == cs@[ku]);
            assert(tail[1] == cs@[ku + 1]);
            if cs@[ku] == '*' && cs@[ku + 1] == '*' {
                assert(tail =~= seq!['*', '*']);
            }
        }
        if tail_len == 1 {
            assert(tail[0] == cs@[ku]);
            if cs@[ku] == '*' {
                assert(tail =~= seq!['*']);
            }
        }
        if tail == seq!['*', '*'] {
            assert(tail[0] == '*' && tail[1] == '*');
        }
        if tail == seq!['*'] {
            assert(tail[0] == '*');
        }
        assert(tail_ok == ignore_tail(s@.skip(ku)));
        assert(dirs_ok == ignore_dirs(s@.take(ku)));
        if r {
            assert(ignore_split(s@, ku));
        } else {
            assert forall|x: int| !ignore_split(s@, x) by {
                if ignore_split(s@, x) {
                    if x < ku {
                        lemma_ignore_tail_no_slash(s@.skip(x), ku - 1 - x);
                    } else if x > ku {
                        assert(s@.take(x).last() == cs@[x - 1]);
                    }
                }
            }
        }
    }
    r
}

} // verus!
