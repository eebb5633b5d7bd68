//! A target temperature argument, kept exactly as the number it writes: the
//! text of the JSON number sent to the service.
use vstd::prelude::*;
use crate::temperature::{is_digit, leading_digits, all_digits, unsigned_part, has_sign, lemma_leading_digits_le};

verus! {

/// How many `'0'` characters `s` starts with.
pub open spec fn leading_zeros(s: Seq<char>) -> nat
    decreases s.len(),
{
    if s.len() == 0 || s[0] != '0' {
        0
    } else {
        1 + leading_zeros(s.drop_first())
    }
}

/// Whether the mantissa `u` (the text after the sign) has a decimal point
/// right after its integer digits.
pub open spec fn has_point(u: Seq<char>) -> bool {
    leading_digits(u) < u.len() && u[leading_digits(u) as int] == '.'
}

/// The digits after the decimal point.
pub open spec fn fraction_of(u: Seq<char>) -> Seq<char> {
    if has_point(u) {
        let k = leading_digits(u) as int;
        u.subrange(k + 1, k + 1 + leading_digits(u.skip(k + 1)))
    } else {
        Seq::empty()
    }
}

/// Where the integer digits, the point and the fraction end.
pub open spec fn mantissa_end(u: Seq<char>) -> int {
    if has_point(u) {
        (leading_digits(u) + 1 + fraction_of(u).len()) as int
    } else {
        leading_digits(u) as int
    }
}

/// An exponent: `e` or `E`, a sign or none, and one digit or more.
pub open spec fn is_exponent(e: Seq<char>) -> bool {
    &&& e.len() >= 2
    &&& e[0] == 'e' || e[0] == 'E'
    &&& {
        let d = if e[1] == '+' || e[1] == '-' {
            e.skip(2)
        } else {
            e.skip(1)
        };
        d.len() >= 1 && all_digits(d)
    }
}

/// Number text: a sign or none, digits with a point and digits or not (one
/// digit at least), and an exponent or none.
pub open spec fn is_number_text(s: Seq<char>) -> bool {
    let u = unsigned_part(s);
    &&& leading_digits(u) + fraction_of(u).len() >= 1
    &&& mantissa_end(u) == u.len() || is_exponent(u.skip(mantissa_end(u)))
}

/// The same number as JSON writes it: `-` kept and `+` dropped, no leading
/// zeros (`0` where the integer part has no other digit), the point only before
/// fraction digits, and the exponent as given.
pub open spec fn json_number_of(s: Seq<char>) -> Seq<char> {
    let u = unsigned_part(s);
    let ints = u.take(leading_digits(u) as int);
    let z = leading_zeros(ints);
    let f = fraction_of(u);
    (if s.len() > 0 && s[0] == '-' {
        "-"@
    } else {
        ""@
    }) + (if z == ints.len() {
        "0"@
    } else {
        ints.skip(z as int)
    }) + (if f.len() > 0 {
        "."@ + f
    } else {
        ""@
    }) + u.skip(mantissa_end(u))
}

proof fn lemma_leading_digits_at(s: Seq<char>, i: int)
    requires
        0 <= i <= s.len(),
        forall|j: int| 0 <= j < i ==> is_digit(#[trigger] s[j]),
        i == s.len() || !is_digit(s[i]),
    ensures
        leading_digits(s) == i,
    decreases i,
{
    if i > 0 {
        let t = s.drop_first();
        assert forall|j: int| 0 <= j < i - 1 implies is_digit(#[trigger] t[j]) by {
            assert(t[j] == s[j + 1]);
        }
        lemma_leading_digits_at(t, i - 1);
        assert(is_digit(s[0]));
    }
}

proof fn lemma_leading_zeros_at(s: Seq<char>, i: int)
    requires
        0 <= i <= s.len(),
        forall|j: int| 0 <= j < i ==> #[trigger] s[j] == '0',
        i == s.len() || s[i] != '0',
    ensures
        leading_zeros(s) == i,
    decreases i,
{
    if i > 0 {
        let t = s.drop_first();
        assert forall|j: int| 0 <= j < i - 1 implies #[trigger] t[j] == '0' by {
            assert(t[j] == s[j + 1]);
        }
        lemma_leading_zeros_at(t, i - 1);
    }
}

fn is_digit_char(c: char) -> (r: bool)
    ensures
        r == is_digit(c),
{
    '0' <= c && c <= '9'
}

/// The number of digits of `s` from position `from` on.
fn count_digits(s: &str, from: usize) -> (r: usize)
    requires
        from <= s@.len(),
    ensures
        r == leading_digits(s@.skip(from as int)),
        from + r <= s@.len(),
{
    let n = s.unicode_len();
    let mut i: usize = from;
    while i < n && is_digit_char(s.get_char(i))
        invariant
            from <= i <= n,
            n == s@.len(),
            forall|j: int| from <= j < i ==> is_digit(#[trigger] s@[j]),
        decreases n - i,
    {
        i = i + 1;
    }
    proof {
        let t = s@.skip(from as int);
        assert forall|j: int| 0 <= j < i - from implies is_digit(#[trigger] t[j]) by {
            assert(t[j] == s@[from + j]);
        }
        if i < n {
            assert(t[i - from] == s@[i as int]);
        }
        lemma_leading_digits_at(t, i - from);
    }
    i - from
}

/// The number of `'0'` characters of `s` from `from` on, up to `to`.
fn count_zeros(s: &str, from: usize, to: usize) -> (r: usize)
    requires
        from <= to <= s@.len(),
    ensures
        r == leading_zeros(s@.subrange(from as int, to as int)),
        from + r <= to,
{
    let mut i: usize = from;
    while i < to && s.get_char(i) == '0'
        invariant
            from <= i <= to,
            to <= s@.len(),
            forall|j: int| from <= j < i ==> #[trigger] s@[j] == '0',
        decreases to - i,
    {
        i = i + 1;
    }
    proof {
        let t = s@.subrange(from as int, to as int);
        assert forall|j: int| 0 <= j < i - from implies #[trigger] t[j] == '0' by {
            assert(t[j] == s@[from + j]);
        }
        if i < to {
            assert(t[i - from] == s@[i as int]);
        }
        lemma_leading_zeros_at(t, i - from);
    }
    i - from
}

proof fn lemma_all_digits(d: Seq<char>)
    ensures
        all_digits(d) <==> leading_digits(d) == d.len(),
    decreases d.len(),
{
    if d.len() > 0 {
        let t = d.drop_first();
        lemma_all_digits(t);
        if all_digits(d) {
            assert forall|j: int| 0 <= j < t.len() implies is_digit(#[trigger] t[j]) by {
                assert(t[j] == d[j + 1]);
            }
        }
        if leading_digits(d) == d.len() {
            assert(is_digit(d[0]));
            assert forall|j: int| 0 <= j < d.len() implies is_digit(#[trigger] d[j]) by {
                if j > 0 {
                    assert(d[j] == t[j - 1]);
                }
            }
        }
    }
}

/// Whether `s` from `m` on is an exponent.
fn exponent_ok(s: &str, m: usize) -> (r: bool)
    requires
        m <= s@.len(),
    ensures
        r == is_exponent(s@.skip(m as int)),
{
    let n = s.unicode_len();
    let ghost e = s@.skip(m as int);
    if m >= n || n - m < 2 {
        return false;
    }
    let c = s.get_char(m);
    assert(e[0] == c);
    if !(c == 'e' || c == 'E') {
        return false;
    }
    let c1 = s.get_char(m + 1);
    assert(e[1] == c1);
    let p: usize = if c1 == '+' || c1 == '-' {
        m + 2
    } else {
        m + 1
    };
    let ghost d = s@.skip(p as int);
    assert(d =~= (if e[1] == '+' || e[1] == '-' {
        e.skip(2)
    } else {
        e.skip(1)
    }));
    let dl = count_digits(s, p);
    proof {
        lemma_all_digits(d);
    }
    dl > 0 && p + dl == n
}

/// The JSON text of a number whose sign ends at `start`, integer digits at
/// `start + k` and mantissa at `m`.
fn rebuild(s: &str, start: usize, k: usize, m: usize) -> (r: String)
    requires
        start == (if has_sign(s@) { 1int } else { 0int }),
        k == leading_digits(unsigned_part(s@)),
        m - start == mantissa_end(unsigned_part(s@)),
        start + k <= m <= s@.len(),
    ensures
        r@ == json_number_of(s@),
{
    let ghost u = unsigned_part(s@);
    assert(u =~= s@.skip(start as int));
    let n = s.unicode_len();
    let z = count_zeros(s, start, start + k);
    assert(s@.subrange(start as int, start + k) =~= u.take(k as int));
    let negative = start == 1 && s.get_char(0) == '-';
    let mut out = if negative {
        String::from_str("-")
    } else {
        String::new()
    };
    if z == k {
        out = out.concat("0");
    } else {
        let ints = s.substring_char(start + z, start + k);
        assert(ints@ =~= u.take(k as int).skip(z as int));
        out = out.concat(ints);
    }
    proof {
        if has_point(u) {
            lemma_leading_digits_le(u.skip(k + 1));
        }
    }
    if m - (start + k) > 1 {
        let f = s.substring_char(start + k + 1, m);
        assert(f@ =~= fraction_of(u));
        out = out.concat(".").concat(f);
    } else {
        assert(fraction_of(u).len() == 0);
    }
    let tail = s.substring_char(m, n);
    assert(tail@ =~= u.skip(mantissa_end(u)));
    out = out.concat(tail);
    proof {
        reveal_strlit("");
        reveal_strlit("-");
        assert(out@ =~= json_number_of(s@));
    }
    out
}

/// Reads a target argument as JSON number text; `None` where it is not number
/// text.
pub fn parse_target(s: &str) -> (r: Option<String>)
    ensures
        r is Some <==> is_number_text(s@),
        r matches Some(t) ==> t@ == json_number_of(s@),
{
    let n = s.unicode_len();
    let mut start: usize = 0;
    if n > 0 {
        let c = s.get_char(0);
        if c == '-' || c == '+' {
            start = 1;
        }
    }
    let ghost u = unsigned_part(s@);
    assert(u =~= s@.skip(start as int));
    let k = count_digits(s, start);
    let mut m: usize = start + k;
    let mut frac_len: usize = 0;
    let point = m < n && s.get_char(m) == '.';
    proof {
        if m < n {
            assert(u[k as int] == s@[m as int]);
        }
        assert(point == has_point(u));
    }
    if point {
        frac_len = count_digits(s, m + 1);
        assert(u.skip(k + 1) =~= s@.skip(m + 1));
        proof {
            lemma_leading_digits_le(u.skip(k + 1));
        }
        assert(fraction_of(u).len() == frac_len);
        m = m + 1 + frac_len;
    }
    assert(mantissa_end(u) == m - start);
    if k + frac_len == 0 {
        return None;
    }
    if m < n {
        assert(u.skip(m - start) =~= s@.skip(m as int));
        if !exponent_ok(s, m) {
            return None;
        }
    }
    Some(rebuild(s, start, k, m))
}

} // verus!
