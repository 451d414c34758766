//! The key/value text decoder: splits a multi-line response body into an
//! ordered mapping from key to value.
//!
//! Lines are cut on the first occurrence of the configured separator; the
//! value reaches to the second occurrence or the end of the line; keys and
//! values are trimmed of surrounding whitespace. A line without a
//! separator-delimited pair is silently skipped, so trailing blank or
//! malformed lines never fail a decode. A duplicate key keeps its first
//! position but takes the later value.

use crate::result::ZK4LWResult;
use crate::text::{
    find_char, find_upto, lemma_find_char_at, lemma_find_char_found, lemma_find_char_none, str_eq,
    trim, trim_str,
};
use vstd::prelude::*;
use vstd::seq_lib::*;

verus! {

/// The key/value pair a single line contributes, if any.
pub open spec fn line_pair(line: Seq<char>, sep: char) -> Option<(Seq<char>, Seq<char>)> {
    let i = find_char(line, sep);
    if i < 0 {
        None
    } else {
        let rest = line.skip(i + 1);
        let j = find_char(rest, sep);
        if j >= 0 {
            Some((trim(line.take(i)), trim(rest.take(j))))
        } else if rest.len() > 0 {
            Some((trim(line.take(i)), trim(rest)))
        } else {
            None
        }
    }
}

/// `m` with `(k, v)` inserted: an existing key keeps its place but takes
/// the new value; a new key is appended.
pub open spec fn kv_insert(
    m: Seq<(Seq<char>, Seq<char>)>,
    k: Seq<char>,
    v: Seq<char>,
) -> Seq<(Seq<char>, Seq<char>)>
    decreases m.len(),
{
    if m.len() == 0 {
        seq![(k, v)]
    } else if m[0].0 == k {
        seq![(k, v)] + m.drop_first()
    } else {
        seq![m[0]] + kv_insert(m.drop_first(), k, v)
    }
}

/// One line folded into the mapping.
pub open spec fn kv_step(
    m: Seq<(Seq<char>, Seq<char>)>,
    line: Seq<char>,
    sep: char,
) -> Seq<(Seq<char>, Seq<char>)> {
    match line_pair(line, sep) {
        None => m,
        Some(p) => kv_insert(m, p.0, p.1),
    }
}

/// The mapping after folding every line of `s`, in order, into `acc`.
pub open spec fn kv_model_from(
    s: Seq<char>,
    sep: char,
    acc: Seq<(Seq<char>, Seq<char>)>,
) -> Seq<(Seq<char>, Seq<char>)>
    decreases s.len(),
        via kv_model_from_decreases
{
    if s.len() == 0 {
        acc
    } else {
        let i = find_char(s, '\n');
        if i < 0 {
            kv_step(acc, s, sep)
        } else {
            kv_model_from(s.skip(i + 1), sep, kv_step(acc, s.take(i), sep))
        }
    }
}

#[via_fn]
proof fn kv_model_from_decreases(s: Seq<char>, sep: char, acc: Seq<(Seq<char>, Seq<char>)>) {
    if s.len() > 0 && find_char(s, '\n') >= 0 {
        lemma_find_char_found(s, '\n');
    }
}

/// The ordered key/value mapping decoded from `s` with line-internal
/// separator `sep`.
pub open spec fn kv_model(s: Seq<char>, sep: char) -> Seq<(Seq<char>, Seq<char>)> {
    kv_model_from(s, sep, Seq::empty())
}

/// The value under key `k` in mapping `m`, searched from the end.
pub open spec fn kv_lookup(m: Seq<(Seq<char>, Seq<char>)>, k: Seq<char>) -> Option<Seq<char>>
    decreases m.len(),
{
    if m.len() == 0 {
        None
    } else if m.last().0 == k {
        Some(m.last().1)
    } else {
        kv_lookup(m.drop_last(), k)
    }
}

/// The keys of mapping `m`, in order.
pub open spec fn kv_keys(m: Seq<(Seq<char>, Seq<char>)>) -> Seq<Seq<char>> {
    m.map_values(|p: (Seq<char>, Seq<char>)| p.0)
}

/// The value contributed for key `k` by the last line of `s` that yields a
/// pair with that key, if any line does.
pub open spec fn lines_last_value(s: Seq<char>, sep: char, k: Seq<char>) -> Option<Seq<char>>
    decreases s.len(),
        via lines_last_value_decreases
{
    if s.len() == 0 {
        None
    } else {
        let i = find_char(s, '\n');
        let line = if i < 0 {
            s
        } else {
            s.take(i)
        };
        let rest_val = if i < 0 {
            None
        } else {
            lines_last_value(s.skip(i + 1), sep, k)
        };
        if rest_val is Some {
            rest_val
        } else {
            match line_pair(line, sep) {
                Some(p) => if p.0 == k {
                    Some(p.1)
                } else {
                    None
                },
                None => None,
            }
        }
    }
}

#[via_fn]
proof fn lines_last_value_decreases(s: Seq<char>, sep: char, k: Seq<char>) {
    if s.len() > 0 && find_char(s, '\n') >= 0 {
        lemma_find_char_found(s, '\n');
    }
}

/// Inserting under key `k` into a distinct-keyed mapping sets `k` and
/// touches no other key.
pub proof fn lemma_kv_insert_lookup(
    m: Seq<(Seq<char>, Seq<char>)>,
    k: Seq<char>,
    v: Seq<char>,
    k2: Seq<char>,
)
    requires
        keys_distinct(m),
    ensures
        kv_lookup(kv_insert(m, k, v), k2) == if k2 == k {
            Some(v)
        } else {
            kv_lookup(m, k2)
        },
    decreases m.len(),
{
    let r = kv_insert(m, k, v);
    if m.len() == 0 {
        assert(r == seq![(k, v)]);
        assert(r.last() == (k, v));
        assert(r.drop_last() =~= Seq::<(Seq<char>, Seq<char>)>::empty());
        assert(kv_lookup(r, k2) == if k2 == k {
            Some(v)
        } else {
            kv_lookup(m, k2)
        }) by {
            reveal_with_fuel(kv_lookup, 3);
            assert(r.last() == (k, v));
            assert(r.drop_last().len() == 0);
        }
    } else if m[0].0 == k {
        assert(r == seq![(k, v)] + m.drop_first());
        assert(m =~= seq![m[0]] + m.drop_first());
        lemma_lookup_prepend(m.drop_first(), (k, v), k2);
        lemma_lookup_prepend(m.drop_first(), m[0], k2);
        // Distinctness: the tail never holds `k` again.
        assert(forall|j: int| 0 <= j < m.drop_first().len() ==> m.drop_first()[j] == m[j + 1]);
        assert forall|j: int| 0 <= j < m.drop_first().len() implies m.drop_first()[j].0 != k by {
            assert(m[0].0 == k);
            assert(m.drop_first()[j] == m[j + 1]);
            assert(m[0].0 != m[j + 1].0);
        }
        lemma_lookup_present(m.drop_first(), k);
        assert(kv_lookup(m.drop_first(), k) is None);
        assert(kv_lookup(r, k2) == if k2 == k {
            Some(v)
        } else {
            kv_lookup(m, k2)
        });
    } else {
        let tail = m.drop_first();
        assert(forall|j: int| 0 <= j < tail.len() ==> tail[j] == m[j + 1]);
        assert(keys_distinct(tail)) by {
            assert(forall|i: int, j: int|
                0 <= i < j < tail.len() ==> tail[i] == m[i + 1] && tail[j] == m[j + 1] && m[i
                    + 1].0 != m[j + 1].0);
        }
        lemma_kv_insert_lookup(tail, k, v, k2);
        let rr = kv_insert(tail, k, v);
        assert(r == seq![m[0]] + rr);
        lemma_lookup_prepend(rr, m[0], k2);
        lemma_lookup_prepend(tail, m[0], k2);
        assert(m =~= seq![m[0]] + m.drop_first());
        if k2 == k {
            assert(kv_lookup(rr, k2) == Some(v));
            assert(kv_lookup(r, k2) == Some(v));
        } else {
            assert(kv_lookup(rr, k2) == kv_lookup(tail, k2));
            assert(kv_lookup(r, k2) == kv_lookup(m, k2));
        }
    }
}

/// Looking a key up in `seq![p] + m` falls back to `p` only when `m` does
/// not hold the key.
proof fn lemma_lookup_prepend(
    m: Seq<(Seq<char>, Seq<char>)>,
    p: (Seq<char>, Seq<char>),
    k: Seq<char>,
)
    ensures
        kv_lookup(seq![p] + m, k) == if kv_lookup(m, k) is Some {
            kv_lookup(m, k)
        } else if p.0 == k {
            Some(p.1)
        } else {
            None
        },
    decreases m.len(),
{
    let c = seq![p] + m;
    if m.len() == 0 {
        assert(c =~= seq![p]);
        assert(c.last() == p);
        assert(c.drop_last() =~= Seq::<(Seq<char>, Seq<char>)>::empty());
    } else {
        assert(c.last() == m.last());
        assert(c.drop_last() =~= seq![p] + m.drop_last());
        lemma_lookup_prepend(m.drop_last(), p, k);
    }
}

/// Whether no two entries of `m` share a key.
pub open spec fn keys_distinct(m: Seq<(Seq<char>, Seq<char>)>) -> bool {
    forall|i: int, j: int| 0 <= i < j < m.len() ==> m[i].0 != m[j].0
}

/// A key is present exactly when lookup finds it.
proof fn lemma_lookup_present(m: Seq<(Seq<char>, Seq<char>)>, k: Seq<char>)
    ensures
        kv_lookup(m, k) is Some <==> exists|i: int| 0 <= i < m.len() && m[i].0 == k,
        kv_lookup(m, k) matches Some(v) ==> exists|i: int|
            0 <= i < m.len() && m[i].0 == k && m[i].1 == v,
    decreases m.len(),
{
    if m.len() > 0 {
        lemma_lookup_present(m.drop_last(), k);
        if m.last().0 == k {
            assert(m[m.len() - 1].0 == k);
        } else {
            assert(forall|i: int|
                0 <= i < m.drop_last().len() ==> m.drop_last()[i] == m[i]);
            if exists|i: int| 0 <= i < m.len() && m[i].0 == k {
                let i = choose|i: int| 0 <= i < m.len() && m[i].0 == k;
                assert(i < m.len() - 1);
                assert(m.drop_last()[i].0 == k);
            }
        }
    }
}

/// Inserting preserves key distinctness.
proof fn lemma_kv_insert_distinct(m: Seq<(Seq<char>, Seq<char>)>, k: Seq<char>, v: Seq<char>)
    requires
        keys_distinct(m),
    ensures
        keys_distinct(kv_insert(m, k, v)),
        kv_insert(m, k, v).len() == if kv_lookup(m, k) is Some {
            m.len()
        } else {
            m.len() + 1
        },
    decreases m.len(),
{
    let r = kv_insert(m, k, v);
    lemma_lookup_present(m, k);
    if m.len() == 0 {
    } else if m[0].0 == k {
        assert(r == seq![(k, v)] + m.drop_first());
        assert(forall|i: int, j: int|
            0 <= i < j < m.drop_first().len() ==> m.drop_first()[i].0 != m.drop_first()[j].0);
        assert(forall|j: int| 0 <= j < m.drop_first().len() ==> m.drop_first()[j] == m[j + 1]);
        assert(forall|j: int| 1 <= j < r.len() ==> r[j].0 != k);
        assert(m[0].0 == k);
    } else {
        assert(forall|i: int, j: int|
            0 <= i < j < m.drop_first().len() ==> m.drop_first()[i].0 != m.drop_first()[j].0);
        lemma_kv_insert_distinct(m.drop_first(), k, v);
        lemma_lookup_present(m.drop_first(), k);
        assert(r == seq![m[0]] + kv_insert(m.drop_first(), k, v));
        let rr = kv_insert(m.drop_first(), k, v);
        // Every key of the inserted tail is either `k` or an old tail key,
        // and `m[0].0` is neither.
        assert forall|j: int| 0 <= j < rr.len() implies rr[j].0 != m[0].0 by {
            lemma_kv_insert_keys_from(m.drop_first(), k, v, j);
        }
        if kv_lookup(m, k) is Some {
            let i = choose|i: int| 0 <= i < m.len() && m[i].0 == k;
            assert(i > 0);
            assert(m.drop_first()[i - 1].0 == k);
        } else {
            if exists|i: int| 0 <= i < m.drop_first().len() && m.drop_first()[i].0 == k {
                let i = choose|i: int| 0 <= i < m.drop_first().len() && m.drop_first()[i].0 == k;
                assert(m[i + 1].0 == k);
            }
        }
    }
}

/// Each key of `kv_insert(m, k, v)` is `k` or a key of `m`.
proof fn lemma_kv_insert_keys_from(
    m: Seq<(Seq<char>, Seq<char>)>,
    k: Seq<char>,
    v: Seq<char>,
    j: int,
)
    requires
        0 <= j < kv_insert(m, k, v).len(),
    ensures
        kv_insert(m, k, v)[j].0 == k || exists|i: int| 0 <= i < m.len() && m[i].0 == #[trigger] kv_insert(
            m,
            k,
            v,
        )[j].0,
    decreases m.len(),
{
    let r = kv_insert(m, k, v);
    if m.len() == 0 {
    } else if m[0].0 == k {
        if j > 0 {
            assert(r[j] == m.drop_first()[j - 1]);
            assert(m[j] == r[j]);
        }
    } else {
        if j > 0 {
            lemma_kv_insert_keys_from(m.drop_first(), k, v, j - 1);
            assert(r[j] == kv_insert(m.drop_first(), k, v)[j - 1]);
            if kv_insert(m.drop_first(), k, v)[j - 1].0 != k {
                let i = choose|i: int|
                    0 <= i < m.drop_first().len() && m.drop_first()[i].0 == kv_insert(
                        m.drop_first(),
                        k,
                        v,
                    )[j - 1].0;
                assert(m[i + 1].0 == r[j].0);
            }
        }
    }
}

/// The decoded mapping never holds two entries with one key, and so holds
/// exactly one entry per distinct key it decodes: this is the sense in
/// which duplicate keys collapse.
pub proof fn lemma_kv_model_distinct(text: Seq<char>, sep: char)
    ensures
        keys_distinct(kv_model(text, sep)),
        kv_keys(kv_model(text, sep)).no_duplicates(),
        kv_model(text, sep).len() == kv_keys(kv_model(text, sep)).to_set().len(),
{
    lemma_kv_model_from_distinct(text, sep, Seq::empty());
    let m = kv_model(text, sep);
    assert(kv_keys(m).no_duplicates()) by {
        assert(forall|i: int| 0 <= i < m.len() ==> kv_keys(m)[i] == m[i].0);
    }
    kv_keys(m).unique_seq_to_set();
}

/// Folding lines preserves key distinctness.
proof fn lemma_kv_model_from_distinct(s: Seq<char>, sep: char, acc: Seq<(Seq<char>, Seq<char>)>)
    requires
        keys_distinct(acc),
    ensures
        keys_distinct(kv_model_from(s, sep, acc)),
    decreases s.len(),
{
    if s.len() > 0 {
        let i = find_char(s, '\n');
        if i < 0 {
            match line_pair(s, sep) {
                None => {},
                Some(p) => {
                    lemma_kv_insert_distinct(acc, p.0, p.1);
                },
            }
        } else {
            lemma_find_char_found(s, '\n');
            match line_pair(s.take(i), sep) {
                None => {},
                Some(p) => {
                    lemma_kv_insert_distinct(acc, p.0, p.1);
                },
            }
            lemma_kv_model_from_distinct(s.skip(i + 1), sep, kv_step(acc, s.take(i), sep));
        }
    }
}

/// What the decoded mapping holds under each key: the value of the last
/// line of the text that yields a pair with that key, with keys the text
/// never pairs absent. Across duplicate keys, the last value wins.
pub proof fn lemma_kv_model_lookup(text: Seq<char>, sep: char, k: Seq<char>)
    ensures
        kv_lookup(kv_model(text, sep), k) == lines_last_value(text, sep, k),
{
    lemma_kv_model_from_lookup(text, sep, Seq::empty(), k);
}

proof fn lemma_kv_model_from_lookup(
    s: Seq<char>,
    sep: char,
    acc: Seq<(Seq<char>, Seq<char>)>,
    k: Seq<char>,
)
    requires
        keys_distinct(acc),
    ensures
        kv_lookup(kv_model_from(s, sep, acc), k) == if lines_last_value(s, sep, k) is Some {
            lines_last_value(s, sep, k)
        } else {
            kv_lookup(acc, k)
        },
    decreases s.len(),
{
    if s.len() > 0 {
        let i = find_char(s, '\n');
        if i < 0 {
            match line_pair(s, sep) {
                None => {},
                Some(p) => {
                    lemma_kv_insert_lookup(acc, p.0, p.1, k);
                },
            }
        } else {
            lemma_find_char_found(s, '\n');
            let acc2 = kv_step(acc, s.take(i), sep);
            match line_pair(s.take(i), sep) {
                None => {},
                Some(p) => {
                    lemma_kv_insert_distinct(acc, p.0, p.1);
                    lemma_kv_insert_lookup(acc, p.0, p.1, k);
                },
            }
            lemma_kv_model_from_lookup(s.skip(i + 1), sep, acc2, k);
        }
    }
}

/// Decoding is a pure function of the response body and separator: any two
/// decodes of one body agree.
pub proof fn lemma_decode_pure(
    body: Seq<char>,
    sep: char,
    m1: Seq<(Seq<char>, Seq<char>)>,
    m2: Seq<(Seq<char>, Seq<char>)>,
)
    requires
        m1 == kv_model(body, sep),
        m2 == kv_model(body, sep),
    ensures
        m1 == m2,
{
}

/// Replacing the entry at a matched position realizes [`kv_insert`] when
/// no earlier entry holds the key.
proof fn lemma_kv_insert_at(m: Seq<(Seq<char>, Seq<char>)>, k: Seq<char>, v: Seq<char>, i: int)
    requires
        0 <= i < m.len(),
        m[i].0 == k,
        forall|j: int| 0 <= j < i ==> m[j].0 != k,
    ensures
        kv_insert(m, k, v) == m.update(i, (k, v)),
    decreases i,
{
    if i == 0 {
        assert(kv_insert(m, k, v) == seq![(k, v)] + m.drop_first());
        assert(seq![(k, v)] + m.drop_first() =~= m.update(0, (k, v)));
    } else {
        assert(m.drop_first()[i - 1].0 == k);
        assert(forall|j: int| 0 <= j < i - 1 ==> m.drop_first()[j] == m[j + 1]);
        lemma_kv_insert_at(m.drop_first(), k, v, i - 1);
        assert(seq![m[0]] + m.drop_first().update(i - 1, (k, v)) =~= m.update(i, (k, v)));
    }
}

/// Appending realizes [`kv_insert`] when no entry holds the key.
proof fn lemma_kv_insert_append(m: Seq<(Seq<char>, Seq<char>)>, k: Seq<char>, v: Seq<char>)
    requires
        forall|j: int| 0 <= j < m.len() ==> m[j].0 != k,
    ensures
        kv_insert(m, k, v) == m.push((k, v)),
    decreases m.len(),
{
    if m.len() == 0 {
        assert(kv_insert(m, k, v) =~= m.push((k, v)));
    } else {
        assert(forall|j: int| 0 <= j < m.drop_first().len() ==> m.drop_first()[j] == m[j + 1]);
        lemma_kv_insert_append(m.drop_first(), k, v);
        assert(seq![m[0]] + m.drop_first().push((k, v)) =~= m.push((k, v)));
    }
}

/// Inserts `(k, v)` into the vector, matching the model [`kv_insert`]: an
/// existing key keeps its place but takes the new value; a new key is
/// appended.
fn vec_kv_insert(m: &mut Vec<(String, String)>, k: String, v: String)
    ensures
        final (m).deep_view() == kv_insert(old(m).deep_view(), k@, v@),
{
    let n = m.len();
    let mut i: usize = 0;
    while i < n
        invariant
            0 <= i <= n,
            n == m.len(),
            *m == *old(m),
            forall|j: int| 0 <= j < i ==> old(m).deep_view()[j].0 != k@,
        decreases n - i,
    {
        if str_eq(m[i].0.as_str(), k.as_str()) {
            proof {
                assert(old(m).deep_view()[i as int].0 == k@);
                lemma_kv_insert_at(old(m).deep_view(), k@, v@, i as int);
            }
            m[i] = (k, v);
            proof {
                assert(m.deep_view() =~= old(m).deep_view().update(i as int, (k@, v@)));
            }
            return ;
        }
        i = i + 1;
    }
    proof {
        lemma_kv_insert_append(m.deep_view(), k@, v@);
    }
    m.push((k, v));
    proof {
        assert(m.deep_view() =~= old(m).deep_view().push((k@, v@)));
    }
}

/// Decodes a multi-line body of `key<sep>value` lines into an ordered
/// mapping, matching the model [`kv_model`].
#[verifier::rlimit(100)]
pub fn bytes_to_key_value(input_utf8: &str, separator: char) -> (r: ZK4LWResult<
    Vec<(String, String)>,
>)
    ensures
        r matches Ok(m) && m.deep_view() == kv_model(input_utf8@, separator),
{
    let s = input_utf8;
    let n: usize = s.unicode_len();
    let mut out: Vec<(String, String)> = Vec::new();
    let mut p: usize = 0;
    proof {
        assert(s@.skip(0) =~= s@);
        assert(out.deep_view() =~= Seq::<(Seq<char>, Seq<char>)>::empty());
    }
    while p < n
        invariant
            0 <= p <= n,
            n == s@.len(),
            kv_model(s@, separator) == kv_model_from(
                s@.skip(p as int),
                separator,
                out.deep_view(),
            ),
        decreases n - p,
    {
        let ghost acc0 = out.deep_view();
        let q = find_upto(s, p, n, '\n');
        let ghost rem = s@.skip(p as int);
        let ghost line = s@.subrange(p as int, q as int);
        proof {
            if q < n {
                assert(forall|j: int|
                    0 <= j < q - p ==> rem[j] == s@[p + j] && s@[p + j] != '\n');
                lemma_find_char_at(rem, '\n', q - p);
                assert(rem.take(q - p) =~= line);
                assert(rem.skip(q - p + 1) =~= s@.skip(q + 1));
            } else {
                assert(forall|j: int|
                    0 <= j < rem.len() ==> rem[j] == s@[p + j] && s@[p + j] != '\n');
                lemma_find_char_none(rem, '\n');
                assert(rem =~= line);
            }
        }
        let i = find_upto(s, p, q, separator);
        proof {
            if i < q {
                assert(forall|j: int|
                    0 <= j < i - p ==> line[j] == s@[p + j] && s@[p + j] != separator);
                lemma_find_char_at(line, separator, i - p);
            } else {
                assert(forall|j: int|
                    0 <= j < line.len() ==> line[j] == s@[p + j] && s@[p + j] != separator);
                lemma_find_char_none(line, separator);
            }
        }
        if i < q {
            let ghost rest = line.skip(i - p + 1);
            let j = find_upto(s, i + 1, q, separator);
            proof {
                assert(forall|jj: int|
                    0 <= jj < rest.len() ==> rest[jj] == s@[i + 1 + jj]);
                if j < q {
                    lemma_find_char_at(rest, separator, j - i - 1);
                } else {
                    lemma_find_char_none(rest, separator);
                }
            }
            if j < q {
                let key = trim_str(s.substring_char(p, i));
                let val = trim_str(s.substring_char(i + 1, j));
                proof {
                    assert(line.take(i - p) =~= s@.subrange(p as int, i as int));
                    assert(rest.take(j - i - 1) =~= s@.subrange(i + 1, j as int));
                    assert(line_pair(line, separator) == Some((key@, val@)));
                }
                vec_kv_insert(&mut out, key, val);
            } else if i + 1 < q {
                let key = trim_str(s.substring_char(p, i));
                let val = trim_str(s.substring_char(i + 1, q));
                proof {
                    assert(line.take(i - p) =~= s@.subrange(p as int, i as int));
                    assert(rest =~= s@.subrange(i + 1, q as int));
                    assert(line_pair(line, separator) == Some((key@, val@)));
                }
                vec_kv_insert(&mut out, key, val);
            } else {
                proof {
                    assert(rest.len() == 0);
                    assert(line_pair(line, separator) is None);
                }
            }
        } else {
            proof {
                assert(line_pair(line, separator) is None);
            }
        }
        proof {
            assert(out.deep_view() == kv_step(acc0, line, separator));
        }
        p = if q < n {
            q + 1
        } else {
            n
        };
    }
    Ok(out)
}

/// Decodes a multi-line body of `key<TAB>value` lines into an ordered
/// mapping, matching the model [`kv_model`] at separator `'\t'`.
pub fn tab_separated_bytes_to_key_value(input_utf8: &str) -> (r: ZK4LWResult<Vec<(String, String)>>)
    ensures
        r matches Ok(m) && m.deep_view() == kv_model(input_utf8@, '\t'),
{
    bytes_to_key_value(input_utf8, '\t')
}

/// Decodes a multi-line body of `key=value` lines into an ordered mapping,
/// matching the model [`kv_model`] at separator `'='`.
pub fn equal_separated_bytes_to_key_value(input_utf8: &str) -> (r: ZK4LWResult<
    Vec<(String, String)>,
>)
    ensures
        r matches Ok(m) && m.deep_view() == kv_model(input_utf8@, '='),
{
    bytes_to_key_value(input_utf8, '=')
}

} // verus!
