//! Character-level text utilities shared by the decoders: whitespace
//! trimming, single-character search, and splitting, each with an exact
//! mathematical model over `Seq<char>`.

use vstd::prelude::*;

verus! {

/// Whitespace as the trimming rules understand it: the Unicode white-space
/// characters, matching what `char::is_whitespace` accepts.
pub open spec fn is_space(c: char) -> bool {
    ||| c == ' '
    ||| c == '\t'
    ||| c == '\n'
    ||| c == '\r'
    ||| c == '\u{000B}'
    ||| c == '\u{000C}'
    ||| c == '\u{0085}'
    ||| c == '\u{00A0}'
    ||| c == '\u{1680}'
    ||| c == '\u{2000}'
    ||| c == '\u{2001}'
    ||| c == '\u{2002}'
    ||| c == '\u{2003}'
    ||| c == '\u{2004}'
    ||| c == '\u{2005}'
    ||| c == '\u{2006}'
    ||| c == '\u{2007}'
    ||| c == '\u{2008}'
    ||| c == '\u{2009}'
    ||| c == '\u{200A}'
    ||| c == '\u{2028}'
    ||| c == '\u{2029}'
    ||| c == '\u{202F}'
    ||| c == '\u{205F}'
    ||| c == '\u{3000}'
}

/// Decides [`is_space`] on a concrete character.
pub fn is_space_char(c: char) -> (b: bool)
    ensures
        b == is_space(c),
{
    c == ' ' || c == '\t' || c == '\n' || c == '\r' || c == '\u{000B}' || c == '\u{000C}'
        || c == '\u{0085}' || c == '\u{00A0}' || c == '\u{1680}' || c == '\u{2000}'
        || c == '\u{2001}' || c == '\u{2002}' || c == '\u{2003}' || c == '\u{2004}'
        || c == '\u{2005}' || c == '\u{2006}' || c == '\u{2007}' || c == '\u{2008}'
        || c == '\u{2009}' || c == '\u{200A}' || c == '\u{2028}' || c == '\u{2029}'
        || c == '\u{202F}' || c == '\u{205F}' || c == '\u{3000}'
}

/// Index of the first occurrence of `c` in `s`, or -1 when absent.
pub open spec fn find_char(s: Seq<char>, c: char) -> int
    decreases s.len(),
{
    if s.len() == 0 {
        -1
    } else if s[0] == c {
        0
    } else {
        let r = find_char(s.drop_first(), c);
        if r < 0 {
            -1
        } else {
            r + 1
        }
    }
}

/// The outcome of [`find_char`] pinned down pointwise: `i` is the first
/// occurrence exactly when nothing before it matches.
pub proof fn lemma_find_char_at(s: Seq<char>, c: char, i: int)
    requires
        0 <= i < s.len(),
        s[i] == c,
        forall|j: int| 0 <= j < i ==> s[j] != c,
    ensures
        find_char(s, c) == i,
    decreases i,
{
    if i == 0 {
    } else {
        assert(s.drop_first()[i - 1] == c);
        assert(forall|j: int| 0 <= j < i - 1 ==> s.drop_first()[j] == s[j + 1] && s[j + 1] != c);
        lemma_find_char_at(s.drop_first(), c, i - 1);
    }
}

/// When no position holds `c`, [`find_char`] reports absence.
pub proof fn lemma_find_char_none(s: Seq<char>, c: char)
    requires
        forall|j: int| 0 <= j < s.len() ==> s[j] != c,
    ensures
        find_char(s, c) == -1,
    decreases s.len(),
{
    if s.len() > 0 {
        lemma_find_char_none(s.drop_first(), c);
    }
}

/// A found index really carries `c`, with nothing matching before it.
pub proof fn lemma_find_char_found(s: Seq<char>, c: char)
    requires
        find_char(s, c) >= 0,
    ensures
        find_char(s, c) < s.len(),
        s[find_char(s, c)] == c,
        forall|j: int| 0 <= j < find_char(s, c) ==> s[j] != c,
    decreases s.len(),
{
    if s.len() > 0 && s[0] != c {
        lemma_find_char_found(s.drop_first(), c);
        assert(forall|j: int| 0 <= j < find_char(s, c) - 1 ==> s.drop_first()[j] != c);
        assert(forall|j: int| 1 <= j < find_char(s, c) ==> s[j] == s.drop_first()[j - 1]);
    }
}

/// Number of leading whitespace characters of `s`.
pub open spec fn leading_spaces(s: Seq<char>) -> int
    decreases s.len(),
{
    if s.len() == 0 {
        0
    } else if is_space(s[0]) {
        1 + leading_spaces(s.drop_first())
    } else {
        0
    }
}

/// One past the last non-whitespace character of `s`, or 0 when all of `s`
/// is whitespace.
pub open spec fn trailing_end(s: Seq<char>) -> int
    decreases s.len(),
{
    if s.len() == 0 {
        0
    } else if is_space(s.last()) {
        trailing_end(s.drop_last())
    } else {
        s.len() as int
    }
}

/// `s` with surrounding whitespace removed.
pub open spec fn trim(s: Seq<char>) -> Seq<char> {
    let a = leading_spaces(s);
    let b = trailing_end(s);
    if a >= b {
        Seq::empty()
    } else {
        s.subrange(a, b)
    }
}

/// [`leading_spaces`] pinned down pointwise.
pub proof fn lemma_leading_spaces_at(s: Seq<char>, a: int)
    requires
        0 <= a <= s.len(),
        forall|j: int| 0 <= j < a ==> is_space(s[j]),
        a < s.len() ==> !is_space(s[a]),
    ensures
        leading_spaces(s) == a,
    decreases a,
{
    if a == 0 {
    } else {
        assert(is_space(s[0]));
        assert(forall|j: int| 0 <= j < a - 1 ==> s.drop_first()[j] == s[j + 1] && is_space(
            s[j + 1],
        ));
        assert(a - 1 < s.drop_first().len() ==> s.drop_first()[a - 1] == s[a]);
        lemma_leading_spaces_at(s.drop_first(), a - 1);
    }
}

/// [`trailing_end`] pinned down pointwise.
pub proof fn lemma_trailing_end_at(s: Seq<char>, b: int)
    requires
        0 <= b <= s.len(),
        forall|j: int| b <= j < s.len() ==> is_space(s[j]),
        b > 0 ==> !is_space(s[b - 1]),
    ensures
        trailing_end(s) == b,
    decreases s.len(),
{
    if b < s.len() {
        assert(is_space(s.last()));
        assert(forall|j: int| b <= j < s.drop_last().len() ==> s.drop_last()[j] == s[j]);
        lemma_trailing_end_at(s.drop_last(), b);
    }
}

/// Copies the slice of `s` between `from` and `to` into an owned string.
pub fn substring_copy(s: &str, from: usize, to: usize) -> (r: String)
    requires
        from <= to <= s@.len(),
    ensures
        r@ == s@.subrange(from as int, to as int),
{
    let piece: &str = s.substring_char(from, to);
    piece.to_owned()
}

/// Removes surrounding whitespace, matching the model [`trim`].
pub fn trim_str(s: &str) -> (r: String)
    ensures
        r@ == trim(s@),
{
    let n: usize = s.unicode_len();
    let mut a: usize = 0;
    while a < n && is_space_char(s.get_char(a))
        invariant
            0 <= a <= n,
            n == s@.len(),
            forall|j: int| 0 <= j < a ==> is_space(s@[j]),
        decreases n - a,
    {
        a = a + 1;
    }
    proof {
        lemma_leading_spaces_at(s@, a as int);
    }
    let mut b: usize = n;
    while b > a && is_space_char(s.get_char(b - 1))
        invariant
            a <= b <= n,
            n == s@.len(),
            forall|j: int| b <= j < n ==> is_space(s@[j]),
        decreases b,
    {
        b = b - 1;
    }
    if a >= b {
        proof {
            // The cursors met, so the whole string is whitespace: had the
            // left cursor stopped short of the end, the character under it
            // would be whitespace by the right cursor's invariant and
            // non-whitespace by the left cursor's exit condition.
            assert(a == b);
            if a < n {
                assert(is_space(s@[a as int]));
                assert(false);
            } else {
                lemma_leading_spaces_at(s@, n as int);
                lemma_trailing_end_at(s@, 0);
            }
        }
        String::new()
    } else {
        proof {
            lemma_trailing_end_at(s@, b as int);
        }
        substring_copy(s, a, b)
    }
}

/// `s` cut at every occurrence of `d`; empty pieces are kept, so the result
/// holds one piece more than `s` holds separators.
pub open spec fn split_plain(s: Seq<char>, d: char) -> Seq<Seq<char>>
    decreases s.len(),
        via split_plain_decreases
{
    let i = find_char(s, d);
    if i < 0 {
        seq![s]
    } else {
        seq![s.take(i)] + split_plain(s.skip(i + 1), d)
    }
}

#[via_fn]
proof fn split_plain_decreases(s: Seq<char>, d: char) {
    if find_char(s, d) >= 0 {
        lemma_find_char_found(s, d);
    }
}

/// The pieces of `ss` that are non-empty, in order.
pub open spec fn drop_empty(ss: Seq<Seq<char>>) -> Seq<Seq<char>>
    decreases ss.len(),
{
    if ss.len() == 0 {
        Seq::empty()
    } else {
        let r = drop_empty(ss.drop_last());
        if ss.last().len() == 0 {
            r
        } else {
            r.push(ss.last())
        }
    }
}

/// Index of the first occurrence of `d` in `s` at or after `from`, or the
/// length of `s` when there is none.
pub fn find_from(s: &str, from: usize, d: char) -> (r: usize)
    requires
        from <= s@.len(),
    ensures
        from <= r <= s@.len(),
        r < s@.len() ==> s@[r as int] == d,
        forall|j: int| from <= j < r ==> s@[j] != d,
{
    let n: usize = s.unicode_len();
    let mut q: usize = from;
    while q < n && s.get_char(q) != d
        invariant
            from <= q <= n,
            n == s@.len(),
            forall|j: int| from <= j < q ==> s@[j] != d,
        decreases n - q,
    {
        q = q + 1;
    }
    q
}

/// Index of the first occurrence of `d` in `s` within `[from, to)`, or
/// `to` when there is none there.
pub fn find_upto(s: &str, from: usize, to: usize, d: char) -> (r: usize)
    requires
        from <= to <= s@.len(),
    ensures
        from <= r <= to,
        r < to ==> s@[r as int] == d,
        forall|j: int| from <= j < r ==> s@[j] != d,
{
    let mut q: usize = from;
    while q < to && s.get_char(q) != d
        invariant
            from <= q <= to <= s@.len(),
            forall|j: int| from <= j < q ==> s@[j] != d,
        decreases to - q,
    {
        q = q + 1;
    }
    q
}

/// Cuts `s` at every occurrence of `d`, matching the model [`split_plain`].
pub fn split_string(s: &str, d: char) -> (r: Vec<String>)
    ensures
        r.deep_view() == split_plain(s@, d),
{
    let n: usize = s.unicode_len();
    let mut out: Vec<String> = Vec::new();
    let mut p: usize = 0;
    let mut q: usize = find_from(s, 0, d);
    proof {
        assert(s@.skip(0) =~= s@);
        assert(out.deep_view() + split_plain(s@, d) =~= split_plain(s@, d));
    }
    while q < n
        invariant
            0 <= p <= q <= n,
            n == s@.len(),
            q < n ==> s@[q as int] == d,
            forall|j: int| p <= j < q ==> s@[j] != d,
            split_plain(s@, d) == out.deep_view() + split_plain(s@.skip(p as int), d),
        decreases n - p,
    {
        let piece = substring_copy(s, p, q);
        out.push(piece);
        proof {
            let rest = s@.skip(p as int);
            assert(forall|j: int| 0 <= j < q - p ==> rest[j] == s@[j + p] && s@[j + p] != d);
            lemma_find_char_at(rest, d, q - p);
            assert(rest.take(q - p) =~= s@.subrange(p as int, q as int));
            assert(rest.skip(q - p + 1) =~= s@.skip(q + 1));
            assert(out.deep_view() =~= out.deep_view().take(out.deep_view().len() - 1).push(
                s@.subrange(p as int, q as int),
            ));
            assert(split_plain(s@, d) == out.deep_view() + split_plain(s@.skip(q + 1), d));
        }
        p = q + 1;
        q = find_from(s, p, d);
    }
    let last = substring_copy(s, p, n);
    out.push(last);
    proof {
        let rest = s@.skip(p as int);
        assert(forall|j: int| 0 <= j < rest.len() ==> rest[j] == s@[j + p] && s@[j + p] != d);
        lemma_find_char_none(rest, d);
        assert(rest =~= s@.subrange(p as int, n as int));
        assert(split_plain(s@.skip(p as int), d) == seq![s@.subrange(p as int, n as int)]);
        assert(out.deep_view() =~= split_plain(s@, d));
    }
    out
}

/// Keeps the non-empty strings of `v`, matching the model [`drop_empty`].
pub fn non_empty_parts(v: &Vec<String>) -> (r: Vec<String>)
    ensures
        r.deep_view() == drop_empty(v.deep_view()),
{
    let mut out: Vec<String> = Vec::new();
    let mut i: usize = 0;
    while i < v.len()
        invariant
            0 <= i <= v.len(),
            out.deep_view() == drop_empty(v.deep_view().take(i as int)),
        decreases v.len() - i,
    {
        proof {
            assert(v.deep_view().take(i + 1).drop_last() =~= v.deep_view().take(i as int));
            assert(v.deep_view().take(i + 1).last() == v@[i as int].deep_view());
        }
        if !v[i].as_str().is_empty() {
            out.push(v[i].clone());
            proof {
                assert(out.deep_view() =~= out.deep_view().take(out.deep_view().len() - 1).push(
                    v@[i as int]@,
                ));
            }
        }
        i = i + 1;
    }
    proof {
        assert(v.deep_view().take(v.deep_view().len() as int) =~= v.deep_view());
    }
    out
}

/// Whether two strings hold the same characters.
pub fn str_eq(a: &str, b: &str) -> (r: bool)
    ensures
        r == (a@ == b@),
{
    let na: usize = a.unicode_len();
    let nb: usize = b.unicode_len();
    if na != nb {
        return false;
    }
    let mut i: usize = 0;
    while i < na
        invariant
            0 <= i <= na,
            na == a@.len(),
            na == b@.len(),
            forall|j: int| 0 <= j < i ==> a@[j] == b@[j],
        decreases na - i,
    {
        if a.get_char(i) != b.get_char(i) {
            return false;
        }
        i = i + 1;
    }
    proof {
        assert(a@ =~= b@);
    }
    true
}

} // verus!
