//! Text helpers: splitting into lines and fields, and trimming whitespace,
//! stated over strings as sequences of characters.
use vstd::prelude::*;

verus! {

/// The characters of `s`, in order.
pub fn chars_of(s: &str) -> (r: Vec<char>)
    ensures
        r@ == s@,
{
    let mut out: Vec<char> = Vec::new();
    for c in it: s.chars()
        invariant
            out@ == it.seq().take(it.index() as int),
            it.seq() == s@,
    {
        out.push(c);
    }
    out
}

/// The views of a sequence of string slices.
pub open spec fn spec_views(v: Seq<&str>) -> Seq<Seq<char>> {
    v.map_values(|x: &str| x@)
}

/// Unicode white space, as `char::is_whitespace` reads it.
pub open spec fn spec_is_whitespace(c: char) -> bool {
    ||| c == '\t'
    ||| c == '\n'
    ||| c == '\u{0B}'
    ||| c == '\u{0C}'
    ||| c == '\r'
    ||| c == ' '
    ||| c == '\u{85}'
    ||| c == '\u{A0}'
    ||| c == '\u{1680}'
    ||| ('\u{2000}' <= c && c <= '\u{200A}')
    ||| c == '\u{2028}'
    ||| c == '\u{2029}'
    ||| c == '\u{202F}'
    ||| c == '\u{205F}'
    ||| c == '\u{3000}'
}

/// Whether `c` is Unicode white space.
pub fn is_whitespace(c: char) -> (r: bool)
    ensures
        r == spec_is_whitespace(c),
{
    c == '\t' || c == '\n' || c == '\u{0B}' || c == '\u{0C}' || c == '\r' || c == ' ' || c == '\u{85}' || c
        == '\u{A0}' || c == '\u{1680}' || ('\u{2000}' <= c && c <= '\u{200A}') || c == '\u{2028}' || c
        == '\u{2029}' || c == '\u{202F}' || c == '\u{205F}' || c == '\u{3000}'
}

/// `t` without its leading white space.
pub open spec fn spec_trim_start(t: Seq<char>) -> Seq<char>
    decreases t.len(),
{
    if t.len() > 0 && spec_is_whitespace(t[0]) {
        spec_trim_start(t.drop_first())
    } else {
        t
    }
}

/// `t` without its trailing white space.
pub open spec fn spec_trim_end(t: Seq<char>) -> Seq<char>
    decreases t.len(),
{
    if t.len() > 0 && spec_is_whitespace(t.last()) {
        spec_trim_end(t.drop_last())
    } else {
        t
    }
}

/// `t` without its leading and trailing white space.
pub open spec fn spec_trim(t: Seq<char>) -> Seq<char> {
    spec_trim_end(spec_trim_start(t))
}

/// `s` without its leading and trailing white space.
pub fn trim(s: &str) -> (r: &str)
    ensures
        r@ == spec_trim(s@),
{
    let c = chars_of(s);
    let n = c.len();
    let mut a: usize = 0;
    proof {
        assert(s@.subrange(0, n as int) == s@);
    }
    while a < n && is_whitespace(c[a])
        invariant
            n == s@.len(),
            c@ == s@,
            a <= n,
            spec_trim_start(s@) == spec_trim_start(s@.subrange(a as int, n as int)),
        decreases n - a,
    {
        proof {
            assert(s@.subrange(a as int, n as int).drop_first() == s@.subrange(a + 1, n as int));
        }
        a = a + 1;
    }
    let mut b: usize = n;
    while b > a && is_whitespace(c[b - 1])
        invariant
            n == s@.len(),
            c@ == s@,
            a <= b <= n,
            spec_trim_end(s@.subrange(a as int, n as int)) == spec_trim_end(s@.subrange(a as int, b as int)),
        decreases b - a,
    {
        proof {
            assert(s@.subrange(a as int, b as int).drop_last() == s@.subrange(a as int, b - 1));
        }
        b = b - 1;
    }
    s.substring_char(a, b)
}

/// `t` without one trailing carriage return.
pub open spec fn spec_strip_cr(t: Seq<char>) -> Seq<char> {
    if t.len() > 0 && t.last() == '\r' {
        t.drop_last()
    } else {
        t
    }
}

/// `i` is the position of the first line feed in `s`.
pub open spec fn spec_first_newline(s: Seq<char>, i: int) -> bool {
    &&& 0 <= i < s.len()
    &&& s[i] == '\n'
    &&& forall|k: int| 0 <= k < i ==> s[k] != '\n'
}

/// The lines of `s`, as `str::lines` gives them: the text between line
/// feeds, a carriage return before a line feed dropped, and no final empty
/// line after a final line feed.
pub open spec fn spec_lines(s: Seq<char>) -> Seq<Seq<char>>
    decreases s.len(),
{
    if exists|i: int| spec_first_newline(s, i) {
        let i = choose|i: int| spec_first_newline(s, i);
        seq![spec_strip_cr(s.subrange(0, i))] + spec_lines(s.subrange(i + 1, s.len() as int))
    } else if s.len() == 0 {
        Seq::empty()
    } else {
        seq![s]
    }
}

/// The first line feed is unique.
proof fn lemma_first_newline_unique(s: Seq<char>, i: int, j: int)
    requires
        spec_first_newline(s, i),
        spec_first_newline(s, j),
    ensures
        i == j,
{
}

/// Splits `s` into its lines.
pub fn split_lines(s: &str) -> (r: Vec<&str>)
    ensures
        spec_views(r@) == spec_lines(s@),
{
    let c = chars_of(s);
    let n = c.len();
    let mut out: Vec<&str> = Vec::new();
    let mut start: usize = 0;
    let mut j: usize = 0;
    proof {
        assert(s@.subrange(0, n as int) == s@);
        assert(spec_views(out@) == Seq::<Seq<char>>::empty());
        assert(Seq::<Seq<char>>::empty() + spec_lines(s@) == spec_lines(s@));
    }
    while j < n
        invariant
            n == s@.len(),
            c@ == s@,
            start <= j <= n,
            forall|k: int| start <= k < j ==> s@[k] != '\n',
            spec_views(out@) + spec_lines(s@.subrange(start as int, n as int)) == spec_lines(s@),
        decreases n - j,
    {
        if c[j] == '\n' {
            let end = if j > start && c[j - 1] == '\r' {
                j - 1
            } else {
                j
            };
            let line = s.substring_char(start, end);
            proof {
                let rest = s@.subrange(start as int, n as int);
                let i0 = j - start;
                assert(spec_first_newline(rest, i0));
                let i = choose|i: int| spec_first_newline(rest, i);
                lemma_first_newline_unique(rest, i, i0);
                assert(rest.subrange(0, i0) == s@.subrange(start as int, j as int));
                assert(line@ == spec_strip_cr(rest.subrange(0, i0)));
                assert(rest.subrange(i0 + 1, rest.len() as int) == s@.subrange(j + 1, n as int));
                assert(spec_views(out@.push(line)) == spec_views(out@).push(line@));
                assert(spec_views(out@).push(line@) + spec_lines(s@.subrange(j + 1, n as int)) == spec_views(out@)
                    + spec_lines(rest));
            }
            out.push(line);
            start = j + 1;
        }
        j = j + 1;
    }
    proof {
        let rest = s@.subrange(start as int, n as int);
        assert(!exists|i: int| spec_first_newline(rest, i));
    }
    if start < n {
        let line = s.substring_char(start, n);
        proof {
            let rest = s@.subrange(start as int, n as int);
            assert(spec_lines(rest) == seq![rest]);
            assert(spec_views(out@.push(line)) == spec_views(out@).push(line@));
            assert(spec_views(out@) + seq![rest] == spec_views(out@).push(line@));
        }
        out.push(line);
    } else {
        proof {
            let rest = s@.subrange(start as int, n as int);
            assert(rest.len() == 0);
            assert(spec_views(out@) + spec_lines(rest) == spec_views(out@));
        }
    }
    out
}

/// `sep` occurs in `s` at `i`.
pub open spec fn spec_match_at(s: Seq<char>, sep: Seq<char>, i: int) -> bool {
    &&& 0 <= i
    &&& i + sep.len() <= s.len()
    &&& s.subrange(i, i + sep.len()) == sep
}

/// `i` is the first position where the non-empty `sep` occurs in `s`.
pub open spec fn spec_first_match(s: Seq<char>, sep: Seq<char>, i: int) -> bool {
    &&& spec_match_at(s, sep, i)
    &&& forall|k: int| 0 <= k < i ==> !spec_match_at(s, sep, k)
}

/// The pieces of `s` between the occurrences of the non-empty `sep`,
/// found from the left without overlap.
pub open spec fn spec_split_nonempty(s: Seq<char>, sep: Seq<char>) -> Seq<Seq<char>>
    recommends
        sep.len() > 0,
    decreases s.len(),
{
    if sep.len() > 0 && exists|i: int| spec_first_match(s, sep, i) {
        let i = choose|i: int| spec_first_match(s, sep, i);
        seq![s.subrange(0, i)] + spec_split_nonempty(s.subrange(i + sep.len(), s.len() as int), sep)
    } else {
        seq![s]
    }
}

/// The pieces of `s` split at `sep`, as `str::split` gives them: for an
/// empty separator, an empty piece, each character, and an empty piece.
pub open spec fn spec_split(s: Seq<char>, sep: Seq<char>) -> Seq<Seq<char>> {
    if sep.len() == 0 {
        Seq::new(
            s.len() + 2,
            |i: int|
                if i == 0 || i == s.len() + 1 {
                    Seq::<char>::empty()
                } else {
                    s.subrange(i - 1, i)
                },
        )
    } else {
        spec_split_nonempty(s, sep)
    }
}

/// The first match is unique.
proof fn lemma_first_match_unique(s: Seq<char>, sep: Seq<char>, i: int, j: int)
    requires
        spec_first_match(s, sep, i),
        spec_first_match(s, sep, j),
    ensures
        i == j,
{
}

/// Whether `sep` occurs in `c` at `j`.
fn matches_at(c: &Vec<char>, sep: &Vec<char>, j: usize) -> (r: bool)
    ensures
        r == spec_match_at(c@, sep@, j as int),
{
    if j > c.len() || sep.len() > c.len() - j {
        return false;
    }
    let mut k: usize = 0;
    while k < sep.len()
        invariant
            c@.len() == c.len(),
            j + sep@.len() <= c@.len(),
            k <= sep@.len(),
            forall|m: int| 0 <= m < k ==> c@[j + m] == sep@[m],
        decreases sep@.len() - k,
    {
        if c[j + k] != sep[k] {
            proof {
                assert(c@.subrange(j as int, j + sep@.len())[k as int] != sep@[k as int]);
            }
            return false;
        }
        k = k + 1;
    }
    proof {
        assert(c@.subrange(j as int, j + sep@.len()) =~= sep@);
    }
    true
}

/// Splits `s` at `sep`; see `spec_split`.
pub fn split<'a>(s: &'a str, sep: &str) -> (r: Vec<&'a str>)
    ensures
        spec_views(r@) == spec_split(s@, sep@),
{
    let c = chars_of(s);
    let p = chars_of(sep);
    let n = c.len();
    let mut out: Vec<&'a str> = Vec::new();
    if p.len() == 0 {
        let first = s.substring_char(0, 0);
        proof {
            assert(first@ =~= Seq::<char>::empty());
            assert(spec_views(out@.push(first)) == seq![first@]);
            assert(spec_split(s@, sep@).take(1) == seq![Seq::<char>::empty()]);
        }
        out.push(first);
        let mut i: usize = 0;
        while i < n
            invariant
                n == s@.len(),
                sep@.len() == 0,
                i <= n,
                spec_views(out@) == spec_split(s@, sep@).take(i + 1),
            decreases n - i,
        {
            let piece = s.substring_char(i, i + 1);
            proof {
                assert(spec_views(out@.push(piece)) == spec_views(out@).push(piece@));
                assert(spec_split(s@, sep@)[i + 1] == piece@);
                assert(spec_split(s@, sep@).take(i + 2) =~= spec_split(s@, sep@).take(i + 1).push(piece@));
            }
            out.push(piece);
            i = i + 1;
        }
        let last = s.substring_char(n, n);
        proof {
            assert(spec_views(out@.push(last)) == spec_views(out@).push(last@));
            assert(spec_split(s@, sep@)[n + 1] == last@);
            assert(spec_split(s@, sep@) =~= spec_split(s@, sep@).take(n + 1).push(last@));
        }
        out.push(last);
        return out;
    }
    let m = p.len();
    let mut start: usize = 0;
    let mut j: usize = 0;
    proof {
        assert(s@.subrange(0, n as int) == s@);
        assert(spec_views(out@) == Seq::<Seq<char>>::empty());
        assert(Seq::<Seq<char>>::empty() + spec_split_nonempty(s@, sep@) == spec_split_nonempty(s@, sep@));
    }
    while j < n
        invariant
            n == s@.len(),
            c@ == s@,
            p@ == sep@,
            m == sep@.len() > 0,
            start <= j,
            start <= n,
            j <= n + m,
            forall|k: int| 0 <= k < j - start ==> !#[trigger] spec_match_at(s@.subrange(start as int, n as int), sep@, k),
            spec_views(out@) + spec_split_nonempty(s@.subrange(start as int, n as int), sep@) == spec_split(s@, sep@),
        decreases n + m - j,
    {
        let found = matches_at(&c, &p, j);
        proof {
            let rest = s@.subrange(start as int, n as int);
            if found {
                assert(rest.subrange(j - start, j - start + m) == s@.subrange(j as int, j + m));
            }
            if spec_match_at(rest, sep@, j - start) {
                assert(rest.subrange(j - start, j - start + m) == s@.subrange(j as int, j + m));
            }
            assert(found == spec_match_at(rest, sep@, j - start));
        }
        if found {
            let piece = s.substring_char(start, j);
            proof {
                let rest = s@.subrange(start as int, n as int);
                let i0 = j - start;
                assert(spec_first_match(rest, sep@, i0));
                let i = choose|i: int| spec_first_match(rest, sep@, i);
                lemma_first_match_unique(rest, sep@, i, i0);
                assert(rest.subrange(0, i0) == piece@);
                assert(rest.subrange(i0 + m, rest.len() as int) == s@.subrange(j + m, n as int));
                assert(spec_views(out@.push(piece)) == spec_views(out@).push(piece@));
                assert(spec_views(out@).push(piece@) + spec_split_nonempty(s@.subrange(j + m, n as int), sep@)
                    == spec_views(out@) + spec_split_nonempty(rest, sep@));
            }
            out.push(piece);
            start = j + m;
            j = j + m;
        } else {
            j = j + 1;
        }
    }
    let piece = s.substring_char(start, n);
    proof {
        let rest = s@.subrange(start as int, n as int);
        assert(!exists|i: int| spec_first_match(rest, sep@, i)) by {
            if exists|i: int| spec_first_match(rest, sep@, i) {
                let i = choose|i: int| spec_first_match(rest, sep@, i);
                assert(start + i < j);
            }
        }
        assert(spec_split_nonempty(rest, sep@) == seq![rest]);
        assert(spec_views(out@.push(piece)) == spec_views(out@).push(piece@));
        assert(spec_views(out@) + seq![rest] == spec_views(out@).push(piece@));
    }
    out.push(piece);
    out
}

/// `s` split at the first occurrence of the non-empty `sep`: the text
/// before it and, where it occurs, the text after it.
pub open spec fn spec_split_once(s: Seq<char>, sep: Seq<char>) -> (Seq<char>, Option<Seq<char>>) {
    if exists|i: int| spec_first_match(s, sep, i) {
        let i = choose|i: int| spec_first_match(s, sep, i);
        (s.subrange(0, i), Some(s.subrange(i + sep.len(), s.len() as int)))
    } else {
        (s, None)
    }
}

/// Splits `s` at the first occurrence of the non-empty `sep`.
pub fn split_once<'a>(s: &'a str, sep: &str) -> (r: (&'a str, Option<&'a str>))
    requires
        sep@.len() > 0,
    ensures
        r.0@ == spec_split_once(s@, sep@).0,
        r.1 matches Some(x) ==> spec_split_once(s@, sep@).1 == Some(x@),
        r.1.is_none() ==> spec_split_once(s@, sep@).1.is_none(),
{
    let c = chars_of(s);
    let p = chars_of(sep);
    let n = c.len();
    let mut j: usize = 0;
    while j < n
        invariant
            n == s@.len(),
            c@ == s@,
            p@ == sep@,
            sep@.len() > 0,
            j <= n,
            forall|k: int| 0 <= k < j ==> !#[trigger] spec_match_at(s@, sep@, k),
        decreases n - j,
    {
        if matches_at(&c, &p, j) {
            proof {
                assert(spec_first_match(s@, sep@, j as int));
                let i = choose|i: int| spec_first_match(s@, sep@, i);
                lemma_first_match_unique(s@, sep@, i, j as int);
            }
            let before = s.substring_char(0, j);
            let after = s.substring_char(j + p.len(), n);
            return (before, Some(after));
        }
        j = j + 1;
    }
    proof {
        assert(!exists|i: int| spec_first_match(s@, sep@, i)) by {
            if exists|i: int| spec_first_match(s@, sep@, i) {
                let i = choose|i: int| spec_first_match(s@, sep@, i);
                assert(spec_match_at(s@, sep@, i));
                assert(i < n);
            }
        }
    }
    (s.substring_char(0, n), None)
}

/// Whether `s` begins with `prefix`.
pub fn starts_with(s: &str, prefix: &str) -> (r: bool)
    ensures
        r == (prefix@.len() <= s@.len() && s@.subrange(0, prefix@.len() as int) == prefix@),
{
    let c = chars_of(s);
    let p = chars_of(prefix);
    matches_at(&c, &p, 0)
}

/// `s` ends with `suffix`.
pub open spec fn spec_ends_with(s: Seq<char>, suffix: Seq<char>) -> bool {
    suffix.len() <= s.len() && s.subrange(s.len() - suffix.len(), s.len() as int) == suffix
}

/// Whether `s` ends with `suffix`.
pub fn ends_with(s: &str, suffix: &str) -> (r: bool)
    ensures
        r == spec_ends_with(s@, suffix@),
{
    let c = chars_of(s);
    let p = chars_of(suffix);
    if p.len() > c.len() {
        return false;
    }
    matches_at(&c, &p, c.len() - p.len())
}

/// The pieces joined back together with `sep` between each two.
pub open spec fn spec_join(pieces: Seq<Seq<char>>, sep: Seq<char>) -> Seq<char>
    decreases pieces.len(),
{
    if pieces.len() == 0 {
        Seq::empty()
    } else if pieces.len() == 1 {
        pieces[0]
    } else {
        pieces[0] + sep + spec_join(pieces.drop_first(), sep)
    }
}

/// Law: splitting at a non-empty separator loses nothing: joining the pieces
/// with the separator gives the text back, and no piece but the last holds
/// the separator.
pub proof fn lemma_split_join(s: Seq<char>, sep: Seq<char>)
    requires
        sep.len() > 0,
    ensures
        spec_split(s, sep).len() >= 1,
        spec_join(spec_split(s, sep), sep) == s,
        forall|j: int, k: int| 0 <= j < spec_split(s, sep).len() - 1 ==> !#[trigger] spec_match_at(
            spec_split(s, sep)[j],
            sep,
            k,
        ),
    decreases s.len(),
{
    if exists|i: int| spec_first_match(s, sep, i) {
        let i = choose|i: int| spec_first_match(s, sep, i);
        let rest = s.subrange(i + sep.len(), s.len() as int);
        lemma_split_join(rest, sep);
        let pieces = spec_split(s, sep);
        assert(pieces == seq![s.subrange(0, i)] + spec_split(rest, sep));
        assert(pieces.drop_first() == spec_split(rest, sep));
        assert(s.subrange(i, i + sep.len()) == sep);
        assert(s =~= s.subrange(0, i) + sep + rest);
        assert forall|j: int, k: int| 0 <= j < pieces.len() - 1 implies !#[trigger] spec_match_at(pieces[j], sep, k) by {
            if j == 0 {
                if spec_match_at(pieces[0], sep, k) {
                    assert(s.subrange(k, k + sep.len()) =~= pieces[0].subrange(k, k + sep.len()));
                    assert(spec_match_at(s, sep, k));
                }
            } else {
                assert(pieces[j] == spec_split(rest, sep)[j - 1]);
            }
        }
    }
}

/// Leading white space ends at some position `a`: what is left is the rest.
proof fn lemma_trim_start_cut(t: Seq<char>) -> (a: int)
    ensures
        0 <= a <= t.len(),
        spec_trim_start(t) == t.subrange(a, t.len() as int),
        forall|k: int| 0 <= k < a ==> spec_is_whitespace(#[trigger] t[k]),
        a < t.len() ==> !spec_is_whitespace(t[a]),
    decreases t.len(),
{
    if t.len() > 0 && spec_is_whitespace(t[0]) {
        let a0 = lemma_trim_start_cut(t.drop_first());
        assert forall|k: int| 0 <= k < a0 + 1 implies spec_is_whitespace(#[trigger] t[k]) by {
            if k > 0 {
                assert(t[k] == t.drop_first()[k - 1]);
            }
        }
        assert(t.drop_first().subrange(a0, t.drop_first().len() as int) =~= t.subrange(a0 + 1, t.len() as int));
        a0 + 1
    } else {
        assert(t.subrange(0, t.len() as int) =~= t);
        0
    }
}

/// Trailing white space starts at some position `b`: what is left is the
/// part before it.
proof fn lemma_trim_end_cut(t: Seq<char>) -> (b: int)
    ensures
        0 <= b <= t.len(),
        spec_trim_end(t) == t.subrange(0, b),
        forall|k: int| b <= k < t.len() ==> spec_is_whitespace(#[trigger] t[k]),
        b > 0 ==> !spec_is_whitespace(t[b - 1]),
    decreases t.len(),
{
    if t.len() > 0 && spec_is_whitespace(t.last()) {
        let b0 = lemma_trim_end_cut(t.drop_last());
        assert forall|k: int| b0 <= k < t.len() implies spec_is_whitespace(#[trigger] t[k]) by {
            if k < t.len() - 1 {
                assert(t[k] == t.drop_last()[k]);
            }
        }
        assert(t.drop_last().subrange(0, b0) =~= t.subrange(0, b0));
        b0
    } else {
        assert(t.subrange(0, t.len() as int) =~= t);
        t.len() as int
    }
}

/// Law: trimming keeps one contiguous piece `t[a..b]` of the text: all that
/// is cut off before `a` and after `b` is white space, and the piece
/// neither starts nor ends with white space.
pub proof fn lemma_trim_cut(t: Seq<char>) -> (ab: (int, int))
    ensures
        0 <= ab.0 <= ab.1 <= t.len(),
        spec_trim(t) == t.subrange(ab.0, ab.1),
        forall|k: int| 0 <= k < ab.0 ==> spec_is_whitespace(#[trigger] t[k]),
        forall|k: int| ab.1 <= k < t.len() ==> spec_is_whitespace(#[trigger] t[k]),
        spec_trim(t).len() > 0 ==> !spec_is_whitespace(spec_trim(t)[0]) && !spec_is_whitespace(spec_trim(t).last()),
{
    let a = lemma_trim_start_cut(t);
    let u = spec_trim_start(t);
    let b = lemma_trim_end_cut(u);
    assert(u.subrange(0, b) =~= t.subrange(a, a + b));
    assert forall|k: int| a + b <= k < t.len() implies spec_is_whitespace(#[trigger] t[k]) by {
        assert(t[k] == u[k - a]);
    }
    if b > 0 {
        assert(spec_trim(t)[0] == u[0]);
        assert(u[0] == t[a]);
    }
    (a, a + b)
}


/// Law: no line holds a line feed.
pub proof fn lemma_lines_no_newline(s: Seq<char>)
    ensures
        forall|j: int, k: int| 0 <= j < spec_lines(s).len() && 0 <= k < spec_lines(s)[j].len() ==> #[trigger] spec_lines(s)[j][k] != '\n',
    decreases s.len(),
{
    if exists|i: int| spec_first_newline(s, i) {
        let i = choose|i: int| spec_first_newline(s, i);
        let rest = s.subrange(i + 1, s.len() as int);
        lemma_lines_no_newline(rest);
        let first = spec_strip_cr(s.subrange(0, i));
        assert(spec_lines(s) == seq![first] + spec_lines(rest));
        assert forall|j: int, k: int| 0 <= j < spec_lines(s).len() && 0 <= k < spec_lines(s)[j].len() implies #[trigger] spec_lines(s)[j][k] != '\n' by {
            if j == 0 {
                assert(first[k] == s[k]);
            } else {
                assert(spec_lines(s)[j] == spec_lines(rest)[j - 1]);
            }
        }
    } else if s.len() > 0 {
        assert forall|j: int, k: int| 0 <= j < spec_lines(s).len() && 0 <= k < spec_lines(s)[j].len() implies #[trigger] spec_lines(s)[j][k] != '\n' by {
            if s[k] == '\n' {
                lemma_some_first_newline(s, k);
            }
        }
    }
}

/// Where a line feed occurs, there is a first one.
proof fn lemma_some_first_newline(s: Seq<char>, k: int)
    requires
        0 <= k < s.len(),
        s[k] == '\n',
    ensures
        exists|i: int| spec_first_newline(s, i),
    decreases k,
{
    if forall|m: int| 0 <= m < k ==> s[m] != '\n' {
        assert(spec_first_newline(s, k));
    } else {
        let m = choose|m: int| 0 <= m < k && s[m] == '\n';
        lemma_some_first_newline(s, m);
    }
}

/// Law: a text without carriage returns is its lines joined by line feeds,
/// with one more line feed at the end where the text ends with one.
pub proof fn lemma_lines_join(s: Seq<char>)
    requires
        forall|k: int| 0 <= k < s.len() ==> #[trigger] s[k] != '\r',
    ensures
        s.len() == 0 <==> spec_lines(s).len() == 0,
        spec_join(spec_lines(s), seq!['\n']) == s || spec_join(spec_lines(s), seq!['\n']).push('\n') == s,
    decreases s.len(),
{
    if exists|i: int| spec_first_newline(s, i) {
        let i = choose|i: int| spec_first_newline(s, i);
        let rest = s.subrange(i + 1, s.len() as int);
        assert forall|k: int| 0 <= k < rest.len() implies #[trigger] rest[k] != '\r' by {
            assert(rest[k] == s[i + 1 + k]);
        }
        lemma_lines_join(rest);
        let head = s.subrange(0, i);
        if i > 0 {
            assert(head.last() == s[i - 1]);
        }
        assert(spec_strip_cr(head) == head);
        let lines = spec_lines(s);
        assert(lines == seq![head] + spec_lines(rest));
        assert(lines.drop_first() == spec_lines(rest));
        let nl = seq!['\n'];
        if rest.len() == 0 {
            assert(lines.len() == 1);
            assert(spec_join(lines, nl) == head);
            assert(head.push('\n') =~= s);
        } else {
            let jr = spec_join(spec_lines(rest), nl);
            assert(spec_join(lines, nl) == head + nl + jr);
            assert(s =~= head + nl + rest);
            if jr == rest {
                assert(spec_join(lines, nl) =~= s);
            } else {
                assert(jr.push('\n') == rest);
                assert((head + nl + jr).push('\n') =~= head + nl + jr.push('\n'));
            }
        }
    } else if s.len() > 0 {
        assert(spec_lines(s) == seq![s]);
        assert(spec_join(spec_lines(s), seq!['\n']) == s);
    }
}

} // verus!
