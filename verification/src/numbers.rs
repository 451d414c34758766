//! Verified numeric text handling: a signed 64-bit integer parser and a
//! syntax check for floating-point literals, each against an exact
//! mathematical model.
//!
//! Metric values arrive as decimal text. Integer-valued fields are parsed
//! to `i64` here. Fields whose wire value is a floating-point number are
//! kept as their raw text (this crate does no floating-point arithmetic);
//! [`is_float_str`] decides whether such a value is well-formed.

use vstd::prelude::*;

verus! {

/// Whether `c` is a decimal digit.
pub open spec fn is_digit(c: char) -> bool {
    '0' as int <= c as int <= '9' as int
}

/// The numeric value of digit `c`.
pub open spec fn digit_val(c: char) -> int {
    c as int - '0' as int
}

/// Whether every character of `s` is a decimal digit.
pub open spec fn all_digits(s: Seq<char>) -> bool {
    forall|i: int| 0 <= i < s.len() ==> is_digit(s[i])
}

/// The value of `s` read as a decimal numeral.
pub open spec fn digits_val(s: Seq<char>) -> int
    decreases s.len(),
{
    if s.len() == 0 {
        0
    } else {
        digits_val(s.drop_last()) * 10 + digit_val(s.last())
    }
}

/// `s` without its sign character, when one is present.
pub open spec fn sign_stripped(s: Seq<char>) -> Seq<char> {
    if s.len() > 0 && (s[0] == '+' || s[0] == '-') {
        s.drop_first()
    } else {
        s
    }
}

/// Whether `s` begins with a minus sign.
pub open spec fn is_negative_literal(s: Seq<char>) -> bool {
    s.len() > 0 && s[0] == '-'
}

/// Whether `s` is a decimal literal whose value fits in `i64`: an optional
/// sign followed by at least one digit, in range.
pub open spec fn is_i64_literal(s: Seq<char>) -> bool {
    let body = sign_stripped(s);
    &&& body.len() > 0
    &&& all_digits(body)
    &&& (if is_negative_literal(s) {
        digits_val(body) <= 0x8000_0000_0000_0000
    } else {
        digits_val(body) <= 0x7fff_ffff_ffff_ffff
    })
}

/// The value of the decimal literal `s`.
pub open spec fn i64_literal_val(s: Seq<char>) -> int {
    if is_negative_literal(s) {
        -digits_val(sign_stripped(s))
    } else {
        digits_val(sign_stripped(s))
    }
}

/// A digit string has a non-negative value.
pub proof fn lemma_digits_val_nonneg(s: Seq<char>)
    requires
        all_digits(s),
    ensures
        digits_val(s) >= 0,
    decreases s.len(),
{
    if s.len() > 0 {
        assert(forall|i: int| 0 <= i < s.drop_last().len() ==> s.drop_last()[i] == s[i]);
        lemma_digits_val_nonneg(s.drop_last());
    }
}

/// Extending a digit string never lowers its value.
pub proof fn lemma_digits_val_monotone(s: Seq<char>, k: int)
    requires
        0 <= k <= s.len(),
        all_digits(s),
    ensures
        digits_val(s) >= digits_val(s.take(k)),
    decreases s.len() - k,
{
    if k == s.len() {
        assert(s.take(k) =~= s);
    } else {
        assert(s.take(k + 1).drop_last() =~= s.take(k));
        assert(forall|i: int| 0 <= i < s.take(k) .len() ==> s.take(k)[i] == s[i]);
        lemma_digits_val_nonneg(s.take(k));
        assert(digits_val(s.take(k + 1)) == digits_val(s.take(k)) * 10 + digit_val(s[k]));
        lemma_digits_val_monotone(s, k + 1);
    }
}

/// Whether `c` is a decimal digit.
pub fn is_digit_char(c: char) -> (b: bool)
    ensures
        b == is_digit(c),
{
    c >= '0' && c <= '9'
}

/// Whether every character of `s` in `[from, to)` is a decimal digit.
pub fn digits_in_range(s: &str, from: usize, to: usize) -> (b: bool)
    requires
        from <= to <= s@.len(),
    ensures
        b == (forall|j: int| from <= j < to ==> is_digit(s@[j])),
{
    let mut i: usize = from;
    while i < to
        invariant
            from <= i <= to <= s@.len(),
            forall|j: int| from <= j < i ==> is_digit(s@[j]),
        decreases to - i,
    {
        if !is_digit_char(s.get_char(i)) {
            return false;
        }
        i = i + 1;
    }
    true
}

/// Parses `s` as a signed decimal `i64`, returning `None` exactly when `s`
/// is not an in-range literal.
pub fn parse_i64(s: &str) -> (r: Option<i64>)
    ensures
        r matches Some(v) ==> is_i64_literal(s@) && v as int == i64_literal_val(s@),
        r is None ==> !is_i64_literal(s@),
{
    let n: usize = s.unicode_len();
    if n == 0 {
        return None;
    }
    let first = s.get_char(0);
    let neg = first == '-';
    let start: usize = if first == '-' || first == '+' {
        1
    } else {
        0
    };
    let ghost body = s@.skip(start as int);
    proof {
        assert(body =~= sign_stripped(s@));
    }
    if start == n {
        return None;
    }
    let mut mag: u128 = 0;
    let mut i: usize = start;
    while i < n
        invariant
            start <= i <= n,
            n == s@.len(),
            start < n,
            body == s@.skip(start as int),
            body == sign_stripped(s@),
            forall|j: int| start <= j < i ==> is_digit(s@[j]),
            mag == digits_val(body.take(i - start)),
            mag <= 0x8000_0000_0000_0000,
        decreases n - i,
    {
        let c = s.get_char(i);
        if !is_digit_char(c) {
            proof {
                assert(!is_digit(body[i - start]));
            }
            return None;
        }
        let d: u128 = (c as u32 - 48) as u128;
        mag = mag * 10 + d;
        proof {
            assert(body.take(i + 1 - start).drop_last() =~= body.take(i - start));
            assert(body.take(i + 1 - start).last() == s@[i as int]);
            assert(mag == digits_val(body.take(i + 1 - start)));
        }
        if mag > 0x8000_0000_0000_0000u128 {
            proof {
                if is_i64_literal(s@) {
                    lemma_digits_val_monotone(body, i + 1 - start);
                    assert(digits_val(body) >= mag);
                    assert(false);
                }
            }
            return None;
        }
        i = i + 1;
    }
    proof {
        assert(body.take(n - start) =~= body);
        assert(all_digits(body) && body.len() > 0);
    }
    if neg {
        if mag == 0x8000_0000_0000_0000u128 {
            Some(i64::MIN)
        } else {
            Some(-(mag as i64))
        }
    } else {
        if mag > 0x7fff_ffff_ffff_ffffu128 {
            proof {
                assert(!is_i64_literal(s@));
            }
            None
        } else {
            Some(mag as i64)
        }
    }
}

/// `c` with an ASCII capital letter lowered.
pub open spec fn lower_char(c: char) -> char {
    if 'A' as int <= c as int <= 'Z' as int {
        ((c as u8) + 32) as char
    } else {
        c
    }
}

/// `s` with every ASCII capital letter lowered.
pub open spec fn lower_seq(s: Seq<char>) -> Seq<char> {
    s.map_values(|c: char| lower_char(c))
}

/// Whether `t` spells infinity or not-a-number, ignoring ASCII case.
pub open spec fn is_inf_nan(t: Seq<char>) -> bool {
    lower_seq(t) == "inf"@ || lower_seq(t) == "infinity"@ || lower_seq(t) == "nan"@
}

/// Whether `m` is a well-formed mantissa: digits, with at most one point,
/// and at least one digit.
pub open spec fn is_mantissa(m: Seq<char>) -> bool {
    ||| (m.len() > 0 && all_digits(m))
    ||| (exists|d: int|
        0 <= d < m.len() && m[d] == '.' && m.len() >= 2 && all_digits(m.take(d)) && all_digits(
            m.skip(d + 1),
        ))
}

/// Whether `u` is a well-formed exponent part: an optional sign followed by
/// at least one digit.
pub open spec fn is_exponent(u: Seq<char>) -> bool {
    sign_stripped(u).len() > 0 && all_digits(sign_stripped(u))
}

/// Whether `t` (sign already stripped) is a decimal floating-point number,
/// with an optional exponent.
pub open spec fn is_float_body(t: Seq<char>) -> bool {
    ||| is_mantissa(t)
    ||| (exists|e: int|
        0 <= e < t.len() && (t[e] == 'e' || t[e] == 'E') && is_mantissa(t.take(e)) && is_exponent(
            t.skip(e + 1),
        ))
}

/// Whether `s` is a well-formed floating-point literal: an optional sign,
/// followed by a number, infinity, or not-a-number.
pub open spec fn is_float_literal(s: Seq<char>) -> bool {
    is_inf_nan(sign_stripped(s)) || is_float_body(sign_stripped(s))
}

/// A well-formed mantissa holds no exponent marker.
proof fn lemma_mantissa_no_exp(m: Seq<char>, j: int)
    requires
        is_mantissa(m),
        0 <= j < m.len(),
    ensures
        m[j] != 'e' && m[j] != 'E',
{
    if m.len() > 0 && all_digits(m) {
        assert(is_digit(m[j]));
    } else {
        let d = choose|d: int|
            0 <= d < m.len() && m[d] == '.' && m.len() >= 2 && all_digits(m.take(d)) && all_digits(
                m.skip(d + 1),
            );
        if j < d {
            assert(is_digit(m.take(d)[j]));
        } else if j > d {
            assert(is_digit(m.skip(d + 1)[j - d - 1]));
        }
    }
}

/// `c` with an ASCII capital letter lowered.
pub fn ascii_lower(c: char) -> (r: char)
    ensures
        r == lower_char(c),
{
    if c >= 'A' && c <= 'Z' {
        ((c as u8) + 32) as char
    } else {
        c
    }
}

/// Whether `s`, from position `from` on and lowered, spells exactly `lit`.
fn eq_lower(s: &str, from: usize, lit: &str) -> (b: bool)
    requires
        from <= s@.len(),
    ensures
        b == (lower_seq(s@.skip(from as int)) == lit@),
{
    let n: usize = s.unicode_len();
    let m: usize = lit.unicode_len();
    if n - from != m {
        proof {
            assert(lower_seq(s@.skip(from as int)).len() == s@.len() - from);
        }
        return false;
    }
    let mut i: usize = 0;
    while i < m
        invariant
            0 <= i <= m,
            n == s@.len(),
            m == lit@.len(),
            n - from == m,
            forall|j: int| 0 <= j < i ==> lower_char(s@[from + j]) == lit@[j],
        decreases m - i,
    {
        if ascii_lower(s.get_char(from + i)) != lit.get_char(i) {
            proof {
                assert(lower_seq(s@.skip(from as int))[i as int] == lower_char(s@[from + i]));
            }
            return false;
        }
        i = i + 1;
    }
    proof {
        assert(lower_seq(s@.skip(from as int)) =~= lit@);
    }
    true
}

/// Whether `s` in `[a, b)` is a well-formed mantissa.
fn mantissa_in_range(s: &str, a: usize, b: usize) -> (r: bool)
    requires
        a <= b <= s@.len(),
    ensures
        r == is_mantissa(s@.subrange(a as int, b as int)),
{
    let ghost m = s@.subrange(a as int, b as int);
    let mut dq: usize = a;
    while dq < b && s.get_char(dq) != '.'
        invariant
            a <= dq <= b <= s@.len(),
            forall|j: int| a <= j < dq ==> s@[j] != '.',
        decreases b - dq,
    {
        dq = dq + 1;
    }
    if dq == b {
        // No point: the mantissa must be one or more digits.
        let ok = b > a && digits_in_range(s, a, b);
        proof {
            if ok {
                assert(forall|j: int| 0 <= j < m.len() ==> m[j] == s@[a + j] && is_digit(m[j]));
            }
            if !ok && is_mantissa(m) {
                if m.len() > 0 && all_digits(m) {
                    assert(forall|j: int| a <= j < b ==> s@[j] == m[j - a] && is_digit(s@[j]));
                    assert(false);
                } else {
                    let d = choose|d: int| 0 <= d < m.len() && m[d] == '.';
                    assert(s@[a + d] == '.');
                    assert(false);
                }
            }
        }
        ok
    } else {
        // Point at dq: digits on both sides, and at least one digit in all.
        let ok = b - a >= 2 && digits_in_range(s, a, dq) && digits_in_range(s, dq + 1, b);
        proof {
            let d = dq - a;
            assert(m[d] == '.');
            if ok {
                assert(forall|j: int|
                    0 <= j < m.take(d).len() ==> m.take(d)[j] == s@[a + j] && is_digit(
                        m.take(d)[j],
                    ));
                assert(forall|j: int|
                    0 <= j < m.skip(d + 1).len() ==> #[trigger] m.skip(d + 1)[j] == s@[dq + 1 + j]
                        && is_digit(m.skip(d + 1)[j]));
                assert(is_mantissa(m));
            }
            if !ok && is_mantissa(m) {
                if m.len() > 0 && all_digits(m) {
                    assert(is_digit(m[d]));
                    assert(false);
                } else {
                    let d2 = choose|d2: int|
                        0 <= d2 < m.len() && m[d2] == '.' && m.len() >= 2 && all_digits(
                            m.take(d2),
                        ) && all_digits(m.skip(d2 + 1));
                    if d2 < d {
                        assert(s@[a + d2] == '.');
                        assert(false);
                    } else if d2 > d {
                        assert(m.take(d2)[d] == '.');
                        assert(!is_digit(m.take(d2)[d]));
                        assert(false);
                    } else {
                        assert(b - a >= 2);
                        assert forall|j: int| a <= j < dq implies is_digit(s@[j]) by {
                            assert(s@[j] == m[j - a]);
                            assert(m[j - a] == m.take(d2)[j - a]);
                            assert(is_digit(m.take(d2)[j - a]));
                        }
                        assert forall|j: int| dq + 1 <= j < b implies is_digit(s@[j]) by {
                            assert(s@[j] == m[j - a]);
                            assert(m[j - a] == m.skip(d2 + 1)[j - a - d2 - 1]);
                            assert(is_digit(m.skip(d2 + 1)[j - a - d2 - 1]));
                        }
                        assert(false);
                    }
                }
            }
        }
        ok
    }
}

/// Whether `s` is a well-formed floating-point literal, matching the model
/// [`is_float_literal`].
#[verifier::rlimit(60)]
pub fn is_float_str(s: &str) -> (r: bool)
    ensures
        r == is_float_literal(s@),
{
    let n: usize = s.unicode_len();
    let start: usize = if n > 0 && (s.get_char(0) == '+' || s.get_char(0) == '-') {
        1
    } else {
        0
    };
    let ghost t = s@.skip(start as int);
    proof {
        assert(t =~= sign_stripped(s@));
    }
    if eq_lower(s, start, "inf") || eq_lower(s, start, "infinity") || eq_lower(s, start, "nan") {
        return true;
    }
    // Split on the first exponent marker, if any.
    let mut q: usize = start;
    while q < n && s.get_char(q) != 'e' && s.get_char(q) != 'E'
        invariant
            start <= q <= n,
            n == s@.len(),
            forall|j: int| start <= j < q ==> s@[j] != 'e' && s@[j] != 'E',
        decreases n - q,
    {
        q = q + 1;
    }
    if q == n {
        // No exponent: the whole body must be a mantissa.
        let ok = mantissa_in_range(s, start, n);
        proof {
            assert(s@.subrange(start as int, n as int) =~= t);
            if !ok && is_float_body(t) {
                let e = choose|e: int| 0 <= e < t.len() && (t[e] == 'e' || t[e] == 'E');
                assert(s@[start + e] == 'e' || s@[start + e] == 'E');
                assert(false);
            }
        }
        ok
    } else {
        let mantissa_ok = mantissa_in_range(s, start, q);
        // Exponent part: optional sign, then one or more digits.
        let es: usize = if q + 1 < n && (s.get_char(q + 1) == '+' || s.get_char(q + 1) == '-') {
            q + 2
        } else {
            q + 1
        };
        let exp_ok = es < n && digits_in_range(s, es, n);
        let ok = mantissa_ok && exp_ok;
        proof {
            let e = q - start;
            let u = t.skip(e + 1);
            assert(t[e] == 'e' || t[e] == 'E');
            assert(t.take(e) =~= s@.subrange(start as int, q as int));
            assert(forall|j: int| 0 <= j < u.len() ==> u[j] == s@[q + 1 + j]);
            assert(sign_stripped(u) =~= s@.subrange(es as int, n as int));
            assert(exp_ok == is_exponent(u)) by {
                if exp_ok {
                    assert(forall|j: int|
                        0 <= j < sign_stripped(u).len() ==> sign_stripped(u)[j] == s@[es + j]
                            && is_digit(sign_stripped(u)[j]));
                }
                if !exp_ok && is_exponent(u) {
                    assert forall|j: int| es <= j < n implies is_digit(s@[j]) by {
                        assert(s@[j] == sign_stripped(u)[j - es]);
                        assert(is_digit(sign_stripped(u)[j - es]));
                    }
                    assert(false);
                }
            }
            if !ok && is_float_body(t) {
                if is_mantissa(t) {
                    lemma_mantissa_no_exp(t, e);
                    assert(false);
                } else {
                    let e2 = choose|e2: int|
                        0 <= e2 < t.len() && (t[e2] == 'e' || t[e2] == 'E') && is_mantissa(
                            t.take(e2),
                        ) && is_exponent(t.skip(e2 + 1));
                    if e2 < e {
                        assert(s@[start + e2] == 'e' || s@[start + e2] == 'E');
                        assert(false);
                    } else if e2 > e {
                        assert(t.take(e2)[e] == 'e' || t.take(e2)[e] == 'E');
                        lemma_mantissa_no_exp(t.take(e2), e);
                        assert(false);
                    } else {
                        assert(false);
                    }
                }
            }
        }
        ok
    }
}

} // verus!
