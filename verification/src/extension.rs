//! Small extensions of `Option`, strings and path strings.
use vstd::prelude::*;
use crate::text::{chars_of, push_char, push_str, str_eq, string_of_chars};

verus! {

/// Wrapping any value into `Some`.
pub trait OptionExt: Sized {
    /// `Some(self)`.
    fn some(self) -> (r: Option<Self>)
        ensures
            r == Some(self),
    ;

    /// `Some(&self)`.
    fn some_ref(&self) -> (r: Option<&Self>)
        ensures
            r == Some(self),
    ;
}

impl<T> OptionExt for T {
    fn some(self) -> (r: Option<Self>) {
        Some(self)
    }

    fn some_ref(&self) -> (r: Option<&Self>) {
        Some(self)
    }
}

/// Whether `pat` occurs in `s` at position `i`.
pub open spec fn occurs_at(s: Seq<char>, pat: Seq<char>, i: int) -> bool {
    0 <= i && i + pat.len() <= s.len() && s.subrange(i, i + pat.len()) == pat
}

/// `rest` with `head` put in front of its first piece.
pub open spec fn prepend_piece(head: Seq<char>, rest: Seq<Seq<char>>) -> Seq<Seq<char>> {
    rest.update(0, head + rest[0])
}

/// The pieces of `s` between the leftmost non-overlapping occurrences of a
/// non-empty pattern `pat`, as `str::split` yields them.
pub open spec fn split_seq(s: Seq<char>, pat: Seq<char>) -> Seq<Seq<char>>
    decreases s.len(),
{
    if s.len() == 0 || pat.len() == 0 {
        seq![s]
    } else if occurs_at(s, pat, 0) {
        seq![Seq::<char>::empty()] + split_seq(s.skip(pat.len() as int), pat)
    } else {
        prepend_piece(seq![s[0]], split_seq(s.drop_first(), pat))
    }
}

/// The pieces of `s` split by the empty pattern: an empty piece, then each
/// character on its own, then an empty piece.
pub open spec fn split_empty(s: Seq<char>) -> Seq<Seq<char>> {
    seq![Seq::<char>::empty()] + Seq::new(s.len(), |i: int| seq![s[i]]) + seq![
        Seq::<char>::empty(),
    ]
}

/// The pieces of `s` split by `pat`, as `str::split(pat)` yields them.
pub open spec fn split_str(s: Seq<char>, pat: Seq<char>) -> Seq<Seq<char>> {
    if pat.len() == 0 {
        split_empty(s)
    } else {
        split_seq(s, pat)
    }
}

/// The views of a sequence of strings.
pub open spec fn string_views(v: Seq<String>) -> Seq<Seq<char>> {
    v.map_values(|x: String| x@)
}

proof fn lemma_split_nonempty(s: Seq<char>, pat: Seq<char>)
    ensures
        split_seq(s, pat).len() >= 1,
    decreases s.len(),
{
    if s.len() == 0 || pat.len() == 0 {
    } else if occurs_at(s, pat, 0) {
        lemma_split_nonempty(s.skip(pat.len() as int), pat);
    } else {
        lemma_split_nonempty(s.drop_first(), pat);
    }
}

/// Whether `pat` occurs in `cs` at `i`.
fn occurs_at_exec(cs: &Vec<char>, pat: &Vec<char>, i: usize) -> (r: bool)
    requires
        i <= cs.len(),
    ensures
        r == occurs_at(cs@, pat@, i as int),
{
    if pat.len() > cs.len() - i {
        return false;
    }
    let mut j: usize = 0;
    while j < pat.len()
        invariant
            j <= pat.len() <= cs.len() - i,
            forall|k: int| 0 <= k < j ==> cs@[i + k] == pat@[k],
        decreases pat.len() - j,
    {
        if cs[i + j] != pat[j] {
            assert(cs@.subrange(i as int, i + pat@.len())[j as int] == cs@[i + j]);
            return false;
        }
        j = j + 1;
    }
    assert(cs@.subrange(i as int, i + pat@.len()) =~= pat@);
    true
}

/// Splitting the rest of a string after a piece is complete.
proof fn lemma_split_step_sep(s: Seq<char>, pat: Seq<char>, i: int)
    requires
        pat.len() > 0,
        0 <= i,
        occurs_at(s, pat, i),
    ensures
        split_seq(s.skip(i), pat) == seq![Seq::<char>::empty()] + split_seq(
            s.skip(i + pat.len()),
            pat,
        ),
{
    let t = s.skip(i);
    assert(t.subrange(0, pat.len() as int) =~= s.subrange(i, i + pat.len()));
    assert(t.skip(pat.len() as int) =~= s.skip(i + pat.len()));
}

proof fn lemma_split_step_char(s: Seq<char>, pat: Seq<char>, i: int)
    requires
        pat.len() > 0,
        0 <= i < s.len(),
        !occurs_at(s, pat, i),
    ensures
        split_seq(s.skip(i), pat) == prepend_piece(seq![s[i]], split_seq(s.skip(i + 1), pat)),
{
    let t = s.skip(i);
    if occurs_at(t, pat, 0) {
        assert(t.subrange(0, pat.len() as int) =~= s.subrange(i, i + pat.len()));
    }
    assert(t.drop_first() =~= s.skip(i + 1));
}

/// Splits `s` by a non-empty pattern.
fn split_nonempty(s: &str, pat: &str) -> (r: Vec<String>)
    requires
        pat@.len() > 0,
    ensures
        string_views(r@) == split_seq(s@, pat@),
{
    let cs = chars_of(s);
    let ps = chars_of(pat);
    let mut done: Vec<String> = Vec::new();
    let mut cur = String::new();
    let mut i: usize = 0;
    proof {
        assert(s@.skip(0) =~= s@);
        lemma_split_nonempty(s@, pat@);
        assert(prepend_piece(cur@, split_seq(s@, pat@)) =~= split_seq(s@, pat@));
        assert(string_views(done@) =~= Seq::<Seq<char>>::empty());
        assert(split_seq(s@, pat@) =~= string_views(done@) + prepend_piece(
            cur@,
            split_seq(s@.skip(0), pat@),
        ));
    }
    while i < cs.len()
        invariant
            i <= cs.len(),
            cs@ == s@,
            ps@ == pat@,
            pat@.len() > 0,
            split_seq(s@, pat@) == string_views(done@) + prepend_piece(
                cur@,
                split_seq(s@.skip(i as int), pat@),
            ),
        decreases cs.len() - i,
    {
        proof {
            lemma_split_nonempty(s@.skip(i as int), pat@);
        }
        if occurs_at_exec(&cs, &ps, i) {
            proof {
                lemma_split_step_sep(s@, pat@, i as int);
                lemma_split_nonempty(s@.skip(i + pat@.len()), pat@);
                let rest = split_seq(s@.skip(i + pat@.len()), pat@);
                assert(prepend_piece(cur@, seq![Seq::<char>::empty()] + rest) =~= seq![cur@]
                    + rest);
                assert(prepend_piece(Seq::<char>::empty(), rest) =~= rest);
            }
            let ghost old_done = done@;
            let piece = cur;
            done.push(piece);
            proof {
                assert(string_views(done@) =~= string_views(old_done).push(piece@));
            }
            cur = String::new();
            i = i + ps.len();
            proof {
                let rest = split_seq(s@.skip(i as int), pat@);
                assert(string_views(old_done) + (seq![piece@] + rest) =~= string_views(done@)
                    + rest);
            }
        } else {
            proof {
                lemma_split_step_char(s@, pat@, i as int);
                lemma_split_nonempty(s@.skip(i + 1), pat@);
                let rest = split_seq(s@.skip(i + 1), pat@);
                assert(cur@ + (seq![s@[i as int]] + rest[0]) =~= cur@.push(s@[i as int])
                    + rest[0]);
                assert(prepend_piece(cur@, prepend_piece(seq![s@[i as int]], rest))
                    =~= prepend_piece(cur@.push(s@[i as int]), rest));
            }
            push_char(&mut cur, cs[i]);
            i = i + 1;
        }
    }
    proof {
        assert(s@.skip(i as int) =~= Seq::<char>::empty());
        assert(prepend_piece(cur@, seq![Seq::<char>::empty()]) =~= seq![cur@]);
    }
    let ghost old_done = done@;
    done.push(cur);
    proof {
        assert(string_views(done@) =~= string_views(old_done).push(cur@));
    }
    done
}

/// Splits `s` by the empty pattern.
fn split_by_empty(s: &str) -> (r: Vec<String>)
    ensures
        string_views(r@) == split_empty(s@),
{
    let cs = chars_of(s);
    let mut r: Vec<String> = Vec::new();
    r.push(String::new());
    let mut i: usize = 0;
    while i < cs.len()
        invariant
            i <= cs.len(),
            cs@ == s@,
            string_views(r@) == seq![Seq::<char>::empty()] + Seq::new(
                i as nat,
                |k: int| seq![s@[k]],
            ),
        decreases cs.len() - i,
    {
        let piece = string_of_chars(&cs, i, i + 1);
        let ghost old_r = r@;
        r.push(piece);
        proof {
            assert(cs@.subrange(i as int, i + 1) =~= seq![s@[i as int]]);
            assert(string_views(r@) =~= string_views(old_r).push(piece@));
            assert(string_views(r@) =~= seq![Seq::<char>::empty()] + Seq::new(
                (i + 1) as nat,
                |k: int| seq![s@[k]],
            ));
        }
        i = i + 1;
    }
    let ghost old_r = r@;
    r.push(String::new());
    proof {
        assert(string_views(r@) =~= string_views(old_r).push(Seq::<char>::empty()));
        assert(string_views(r@) =~= split_empty(s@));
    }
    r
}

/// Splitting a string into owned pieces.
pub trait StringExt {
    /// The pieces of the string between the occurrences of `pat`, as
    /// `str::split` yields them.
    fn split_to_vec(&self, pat: &str) -> Vec<String>;
}

impl StringExt for String {
    fn split_to_vec(&self, pat: &str) -> (r: Vec<String>)
        ensures
            string_views(r@) == split_str(self@, pat@),
    {
        if pat.is_empty() {
            split_by_empty(self.as_str())
        } else {
            split_nonempty(self.as_str(), pat)
        }
    }
}

/// Path pieces that name no file: empty ones (from repeated or trailing `/`)
/// and `.`.
pub open spec fn skipped_component(c: Seq<char>) -> bool {
    c.len() == 0 || c == seq!['.']
}

/// The last piece of `pieces` that is a path component.
pub open spec fn last_component(pieces: Seq<Seq<char>>) -> Option<Seq<char>>
    decreases pieces.len(),
{
    if pieces.len() == 0 {
        None
    } else if skipped_component(pieces.last()) {
        last_component(pieces.drop_last())
    } else {
        Some(pieces.last())
    }
}

/// The final component of a `/`-separated path, as `Path::file_name` gives it:
/// none when the path has no component or ends in `..`.
pub open spec fn path_file_name(p: Seq<char>) -> Option<Seq<char>> {
    match last_component(split_seq(p, seq!['/'])) {
        Some(c) => if c == seq!['.', '.'] {
            None
        } else {
            Some(c)
        },
        None => None,
    }
}

/// `rel` appended to `base` as `PathBuf::join` does on a `/`-separated path:
/// an absolute `rel` replaces `base`, otherwise one `/` is put between them
/// where `base` is not empty and does not end with one.
pub open spec fn path_join(base: Seq<char>, rel: Seq<char>) -> Seq<char> {
    if rel.len() > 0 && rel[0] == '/' {
        rel
    } else if base.len() == 0 || base.last() == '/' {
        base + rel
    } else {
        base.push('/') + rel
    }
}

/// `rel` appended to the path `base`.
pub fn join_path(base: &str, rel: &str) -> (r: String)
    ensures
        r@ == path_join(base@, rel@),
{
    let rs = chars_of(rel);
    if rs.len() > 0 && rs[0] == '/' {
        return string_of_chars(&rs, 0, rs.len());
    }
    let bs = chars_of(base);
    let mut r = string_of_chars(&bs, 0, bs.len());
    proof {
        assert(bs@.subrange(0, bs@.len() as int) =~= base@);
        assert(rs@.subrange(0, rs@.len() as int) =~= rel@);
    }
    if bs.len() > 0 && bs[bs.len() - 1] != '/' {
        push_char(&mut r, '/');
    }
    push_str(&mut r, rel);
    r
}

/// Operations on strings that hold `/`-separated file system paths.
pub trait PathBufExt {
    /// The characters of the path.
    spec fn path_view(&self) -> Seq<char>;

    /// The final component of the path.
    fn file_name_string(&self) -> (r: String)
        requires
            path_file_name(self.path_view()) is Some,
        ensures
            r@ == path_file_name(self.path_view()).unwrap(),
    ;
}

impl PathBufExt for String {
    open spec fn path_view(&self) -> Seq<char> {
        self@
    }

    fn file_name_string(&self) -> (r: String) {
        let pieces = self.split_to_vec("/");
        proof {
            reveal_strlit("/");
            assert("/"@ =~= seq!['/']);
        }
        let ghost ps = string_views(pieces@);
        let mut k = pieces.len();
        proof {
            assert(ps.take(k as int) =~= ps);
        }
        while k > 0 && (pieces[k - 1].as_str().is_empty() || str_eq(pieces[k - 1].as_str(), "."))
            invariant
                k <= pieces.len(),
                ps == string_views(pieces@),
                ps == split_seq(self@, seq!['/']),
                last_component(ps) == last_component(ps.take(k as int)),
            decreases k,
        {
            proof {
                reveal_strlit(".");
                assert("."@ =~= seq!['.']);
                let t = ps.take(k as int);
                assert(t.last() == pieces@[k - 1]@);
                assert(skipped_component(t.last()));
                assert(t.drop_last() =~= ps.take(k - 1));
            }
            k = k - 1;
        }
        proof {
            reveal_strlit(".");
            assert("."@ =~= seq!['.']);
            if k == 0 {
                assert(ps.take(0) =~= Seq::<Seq<char>>::empty());
            } else {
                let t = ps.take(k as int);
                assert(t.last() == pieces@[k - 1]@);
                assert(!skipped_component(t.last()));
            }
        }
        let last = pieces[k - 1].clone();
        last
    }
}

/// Whether a `/`-separated path is absolute.
pub open spec fn path_is_absolute(p: Seq<char>) -> bool {
    p.len() > 0 && p[0] == '/'
}

/// Whether the path `p` is absolute.
pub fn is_absolute_path(p: &str) -> (r: bool)
    ensures
        r == path_is_absolute(p@),
{
    let cs = chars_of(p);
    cs.len() > 0 && cs[0] == '/'
}

/// The pieces joined with `sep` between each two.
pub open spec fn join_seq(pieces: Seq<Seq<char>>, sep: Seq<char>) -> Seq<char>
    decreases pieces.len(),
{
    if pieces.len() == 0 {
        Seq::empty()
    } else if pieces.len() == 1 {
        pieces[0]
    } else {
        pieces[0] + sep + join_seq(pieces.drop_first(), sep)
    }
}

proof fn lemma_join_prepend(head: Seq<char>, rest: Seq<Seq<char>>, sep: Seq<char>)
    requires
        rest.len() >= 1,
    ensures
        join_seq(prepend_piece(head, rest), sep) == head + join_seq(rest, sep),
{
    let r2 = prepend_piece(head, rest);
    if rest.len() == 1 {
    } else {
        assert(r2.drop_first() =~= rest.drop_first());
        assert(head + rest[0] + sep + join_seq(rest.drop_first(), sep) =~= head + (rest[0] + sep
            + join_seq(rest.drop_first(), sep)));
    }
}

/// Splitting by a non-empty pattern loses nothing: joining the pieces with the
/// pattern gives back the string.
pub proof fn lemma_split_join(s: Seq<char>, pat: Seq<char>)
    requires
        pat.len() > 0,
    ensures
        join_seq(split_seq(s, pat), pat) == s,
    decreases s.len(),
{
    if s.len() == 0 {
    } else if occurs_at(s, pat, 0) {
        let rest = s.skip(pat.len() as int);
        lemma_split_join(rest, pat);
        lemma_split_nonempty(rest, pat);
        let r = split_seq(rest, pat);
        let whole = seq![Seq::<char>::empty()] + r;
        assert(whole.drop_first() =~= r);
        assert(s.subrange(0, pat.len() as int) == pat);
        assert(Seq::<char>::empty() + pat + join_seq(r, pat) =~= s);
    } else {
        let tail = s.drop_first();
        lemma_split_join(tail, pat);
        lemma_split_nonempty(tail, pat);
        lemma_join_prepend(seq![s[0]], split_seq(tail, pat), pat);
        assert(seq![s[0]] + tail =~= s);
    }
}

/// The number of leftmost non-overlapping occurrences of a non-empty pattern
/// `pat` in `s`, as `str::matches(pat).count()` counts them.
pub open spec fn match_count(s: Seq<char>, pat: Seq<char>) -> nat
    decreases s.len(),
{
    if s.len() == 0 || pat.len() == 0 {
        0
    } else if occurs_at(s, pat, 0) {
        1 + match_count(s.skip(pat.len() as int), pat)
    } else {
        match_count(s.drop_first(), pat)
    }
}

/// Whether `pat` occurs anywhere in `s`.
pub open spec fn occurs_in(s: Seq<char>, pat: Seq<char>) -> bool {
    exists|j: int| #[trigger] occurs_at(s, pat, j)
}

/// Splitting by a non-empty pattern gives one piece more than the pattern has
/// occurrences, and no piece holds the pattern.
pub proof fn lemma_split_pieces(s: Seq<char>, pat: Seq<char>)
    requires
        pat.len() > 0,
    ensures
        split_seq(s, pat).len() == match_count(s, pat) + 1,
        forall|k: int| 0 <= k < split_seq(s, pat).len() ==> !occurs_in(#[trigger] split_seq(s, pat)[k], pat),
{
    lemma_split_pieces_inner(s, pat);
}

/// The first piece of a split is a prefix of the string.
proof fn lemma_split_first_prefix(s: Seq<char>, pat: Seq<char>)
    requires
        pat.len() > 0,
    ensures
        split_seq(s, pat).len() >= 1,
        split_seq(s, pat)[0].len() <= s.len(),
        split_seq(s, pat)[0] == s.take(split_seq(s, pat)[0].len() as int),
    decreases s.len(),
{
    lemma_split_nonempty(s, pat);
    if s.len() == 0 {
        assert(s.take(0) =~= s);
    } else if occurs_at(s, pat, 0) {
        let r = split_seq(s.skip(pat.len() as int), pat);
        lemma_split_nonempty(s.skip(pat.len() as int), pat);
        assert((seq![Seq::<char>::empty()] + r)[0] == Seq::<char>::empty());
        assert(s.take(0) =~= Seq::<char>::empty());
    } else {
        let tail = s.drop_first();
        lemma_split_first_prefix(tail, pat);
        let r = split_seq(tail, pat);
        let p = seq![s[0]] + r[0];
        assert(prepend_piece(seq![s[0]], r)[0] == p);
        assert(p =~= s.take(p.len() as int));
    }
}

proof fn lemma_split_pieces_inner(s: Seq<char>, pat: Seq<char>)
    requires
        pat.len() > 0,
    ensures
        split_seq(s, pat).len() == match_count(s, pat) + 1,
        forall|k: int| 0 <= k < split_seq(s, pat).len() ==> !occurs_in(#[trigger] split_seq(s, pat)[k], pat),
    decreases s.len(),
{
    let pieces = split_seq(s, pat);
    if s.len() == 0 {
        assert(pieces == seq![s]);
        assert forall|k: int| 0 <= k < pieces.len() implies !occurs_in(#[trigger] pieces[k], pat) by {
            assert(pieces[k] == s);
            if occurs_in(s, pat) {
                let j = choose|j: int| #[trigger] occurs_at(s, pat, j);
            }
        }
    } else if occurs_at(s, pat, 0) {
        let rest = s.skip(pat.len() as int);
        lemma_split_pieces_inner(rest, pat);
        let r = split_seq(rest, pat);
        assert(pieces == seq![Seq::<char>::empty()] + r);
        assert forall|k: int| 0 <= k < pieces.len() implies !occurs_in(#[trigger] pieces[k], pat) by {
            if k == 0 {
                assert(pieces[0] == Seq::<char>::empty());
                if occurs_in(pieces[0], pat) {
                    let j = choose|j: int| #[trigger] occurs_at(pieces[0], pat, j);
                }
            } else {
                assert(pieces[k] == r[k - 1]);
            }
        }
    } else {
        let tail = s.drop_first();
        lemma_split_pieces_inner(tail, pat);
        lemma_split_first_prefix(tail, pat);
        let r = split_seq(tail, pat);
        let p = seq![s[0]] + r[0];
        assert(pieces == prepend_piece(seq![s[0]], r));
        assert forall|k: int| 0 <= k < pieces.len() implies !occurs_in(#[trigger] pieces[k], pat) by {
            if k == 0 {
                assert(pieces[0] == p);
                if occurs_in(p, pat) {
                    let j = choose|j: int| #[trigger] occurs_at(p, pat, j);
                    if j == 0 {
                        assert(p =~= s.take(p.len() as int));
                        assert(s.subrange(0, pat.len() as int) =~= p.subrange(0, pat.len() as int));
                        assert(occurs_at(s, pat, 0));
                    } else {
                        assert(r[0].subrange(j - 1, j - 1 + pat.len()) =~= p.subrange(j, j + pat.len()));
                        assert(occurs_at(r[0], pat, j - 1));
                        assert(!occurs_in(r[0], pat));
                    }
                }
            } else {
                assert(pieces[k] == r[k]);
            }
        }
    }
}

/// A single path component: not empty, without `/`, and neither `.` nor `..`.
pub open spec fn plain_component(c: Seq<char>) -> bool {
    &&& c.len() > 0
    &&& !c.contains('/')
    &&& c != seq!['.']
    &&& c != seq!['.', '.']
}

/// A string without `/` is one piece.
pub proof fn lemma_split_no_slash(c: Seq<char>)
    requires
        !c.contains('/'),
    ensures
        split_seq(c, seq!['/']) == seq![c],
    decreases c.len(),
{
    if c.len() > 0 {
        let t = c.drop_first();
        assert(!t.contains('/')) by {
            if t.contains('/') {
                let k = choose|k: int| 0 <= k < t.len() && t[k] == '/';
                assert(c[k + 1] == '/');
            }
        }
        lemma_split_no_slash(t);
        assert(c.subrange(0, 1)[0] == c[0]);
        assert(!occurs_at(c, seq!['/'], 0)) by {
            if occurs_at(c, seq!['/'], 0) {
                assert(c.subrange(0, 1)[0] == '/');
            }
        }
        assert(seq![c[0]] + t =~= c);
    }
}

/// A piece without `/` after a `/` adds one last piece.
pub proof fn lemma_split_then_piece(x: Seq<char>, c: Seq<char>)
    requires
        !c.contains('/'),
    ensures
        split_seq(x + seq!['/'] + c, seq!['/']) == split_seq(x, seq!['/']) + seq![c],
    decreases x.len(),
{
    let sep = seq!['/'];
    let y = x + sep + c;
    if x.len() == 0 {
        assert(y =~= sep + c);
        assert(y.subrange(0, 1) =~= sep);
        assert(y.skip(1) =~= c);
        lemma_split_no_slash(c);
        assert(occurs_at(y, sep, 0));
        assert(split_seq(y, sep) == seq![Seq::<char>::empty()] + split_seq(y.skip(1), sep));
        assert(split_seq(x, sep) == seq![x]);
        assert(x =~= Seq::<char>::empty());
        assert(split_seq(y, sep) =~= split_seq(x, sep) + seq![c]);
    } else if x[0] == '/' {
        assert(y.subrange(0, 1) =~= sep);
        assert(x.subrange(0, 1) =~= sep);
        assert(y.skip(1) =~= x.skip(1) + sep + c);
        lemma_split_then_piece(x.skip(1), c);
        assert(occurs_at(y, sep, 0));
        assert(occurs_at(x, sep, 0));
        assert(seq![Seq::<char>::empty()] + (split_seq(x.skip(1), sep) + seq![c]) =~= (seq![
            Seq::<char>::empty(),
        ] + split_seq(x.skip(1), sep)) + seq![c]);
        assert(split_seq(y, sep) =~= split_seq(x, sep) + seq![c]);
    } else {
        assert(!occurs_at(y, sep, 0)) by {
            if occurs_at(y, sep, 0) {
                assert(y.subrange(0, 1)[0] == y[0]);
            }
        }
        assert(!occurs_at(x, sep, 0)) by {
            if occurs_at(x, sep, 0) {
                assert(x.subrange(0, 1)[0] == x[0]);
            }
        }
        assert(y.drop_first() =~= x.drop_first() + sep + c);
        lemma_split_then_piece(x.drop_first(), c);
        lemma_split_nonempty(x.drop_first(), sep);
        let r = split_seq(x.drop_first(), sep);
        assert(prepend_piece(seq![x[0]], r + seq![c]) =~= prepend_piece(seq![x[0]], r) + seq![c]);
        assert(y[0] == x[0]);
        assert(split_seq(y, sep) =~= split_seq(x, sep) + seq![c]);
    }
}

/// Joining a plain component onto a path gives a path whose final component
/// is that component.
pub proof fn lemma_file_name_of_join(base: Seq<char>, c: Seq<char>)
    requires
        plain_component(c),
    ensures
        path_file_name(path_join(base, c)) == Some(c),
{
    let sep = seq!['/'];
    if c[0] == '/' {
        assert(c.contains('/'));
    }
    let joined = path_join(base, c);
    let pieces = split_seq(joined, sep);
    if base.len() == 0 {
        assert(joined =~= c);
        lemma_split_no_slash(c);
    } else if base.last() == '/' {
        assert(joined =~= base.drop_last() + sep + c);
        lemma_split_then_piece(base.drop_last(), c);
    } else {
        assert(joined =~= base + sep + c);
        lemma_split_then_piece(base, c);
    }
    assert(pieces.last() == c);
    assert(!skipped_component(c));
}

} // verus!
