//! Temperatures in tenths of a degree Celsius, read from decimal text such as
//! `21.5`, `-3`, `+19.25` or `.5`.
use vstd::prelude::*;

verus! {

/// The most integer digits a temperature may have.
pub const MAX_INT_DIGITS: usize = 15;

pub open spec fn is_digit(c: char) -> bool {
    '0' <= c && c <= '9'
}

pub open spec fn digit_value(c: char) -> int {
    c as int - '0' as int
}

/// The number that a run of digits writes, most significant first.
pub open spec fn digits_value(s: Seq<char>) -> int
    decreases s.len(),
{
    if s.len() == 0 {
        0
    } else {
        digits_value(s.drop_last()) * 10 + digit_value(s.last())
    }
}

/// How many digits `s` starts with.
pub open spec fn leading_digits(s: Seq<char>) -> nat
    decreases s.len(),
{
    if s.len() == 0 || !is_digit(s[0]) {
        0
    } else {
        1 + leading_digits(s.drop_first())
    }
}

pub open spec fn all_digits(s: Seq<char>) -> bool {
    forall|i: int| 0 <= i < s.len() ==> is_digit(#[trigger] s[i])
}

pub open spec fn has_sign(s: Seq<char>) -> bool {
    s.len() > 0 && (s[0] == '-' || s[0] == '+')
}

/// The text after an optional sign.
pub open spec fn unsigned_part(s: Seq<char>) -> Seq<char> {
    if has_sign(s) {
        s.drop_first()
    } else {
        s
    }
}

pub open spec fn int_digits(s: Seq<char>) -> Seq<char> {
    let u = unsigned_part(s);
    u.take(leading_digits(u) as int)
}

/// The digits after the decimal point (empty without one).
pub open spec fn frac_digits(s: Seq<char>) -> Seq<char> {
    let u = unsigned_part(s);
    let k = leading_digits(u) as int;
    if k < u.len() {
        u.skip(k + 1)
    } else {
        Seq::empty()
    }
}

/// Decimal text: a sign or none, digits, then a point and digits or nothing; at
/// least one digit in all, and at most `MAX_INT_DIGITS` before the point.
pub open spec fn is_decimal(s: Seq<char>) -> bool {
    let u = unsigned_part(s);
    let k = leading_digits(u) as int;
    &&& k < u.len() ==> u[k] == '.' && all_digits(u.skip(k + 1))
    &&& int_digits(s).len() + frac_digits(s).len() >= 1
    &&& int_digits(s).len() <= MAX_INT_DIGITS
}

/// The magnitude in tenths, rounded half away from zero.
pub open spec fn magnitude_tenths(s: Seq<char>) -> int {
    let f = frac_digits(s);
    let tenth = if f.len() >= 1 { digit_value(f[0]) } else { 0 };
    let up = if f.len() >= 2 && digit_value(f[1]) >= 5 { 1int } else { 0int };
    digits_value(int_digits(s)) * 10 + tenth + up
}

/// The value of decimal text in tenths of a degree.
pub open spec fn tenths_of(s: Seq<char>) -> int {
    if s.len() > 0 && s[0] == '-' {
        -magnitude_tenths(s)
    } else {
        magnitude_tenths(s)
    }
}

proof fn lemma_digits_value_bound(s: Seq<char>)
    requires
        all_digits(s),
    ensures
        0 <= digits_value(s) < pow10(s.len()),
    decreases s.len(),
{
    if s.len() > 0 {
        let p = s.drop_last();
        assert(all_digits(p)) by {
            assert forall|i: int| 0 <= i < p.len() implies is_digit(#[trigger] p[i]) by {
                assert(p[i] == s[i]);
            }
        }
        lemma_digits_value_bound(p);
        assert(is_digit(s[s.len() - 1]));
    }
}

pub open spec fn pow10(n: nat) -> int
    decreases n,
{
    if n == 0 {
        1
    } else {
        10 * pow10((n - 1) as nat)
    }
}

proof fn lemma_pow10_mono(a: nat, b: nat)
    requires
        a <= b,
    ensures
        1 <= pow10(a) <= pow10(b),
    decreases b,
{
    if b > 0 {
        if a < b {
            lemma_pow10_mono(a, (b - 1) as nat);
        } else {
            lemma_pow10_mono((a - 1) as nat, (b - 1) as nat);
        }
    }
}

proof fn lemma_leading_digits(s: Seq<char>, i: int)
    requires
        0 <= i <= s.len(),
        forall|j: int| 0 <= j < i ==> is_digit(#[trigger] s[j]),
    ensures
        leading_digits(s) == i + leading_digits(s.skip(i)),
    decreases i,
{
    if i > 0 {
        let t = s.drop_first();
        assert forall|j: int| 0 <= j < i - 1 implies is_digit(#[trigger] t[j]) by {
            assert(t[j] == s[j + 1]);
        }
        lemma_leading_digits(t, i - 1);
        assert(t.skip(i - 1) =~= s.skip(i));
        assert(is_digit(s[0]));
    } else {
        assert(s.skip(0) =~= s);
    }
}

/// Reads decimal text as tenths of a degree; `None` where it is not decimal text.
pub fn parse_tenths(s: &str) -> (r: Option<i64>)
    ensures
        r is Some <==> is_decimal(s@),
        r matches Some(v) ==> v == tenths_of(s@),
{
    let n = s.unicode_len();
    let ghost full = s@;
    let mut start: usize = 0;
    let mut negative = false;
    if n > 0 {
        let c = s.get_char(0);
        if c == '-' || c == '+' {
            start = 1;
            negative = c == '-';
        }
    }
    let ghost u = unsigned_part(full);
    assert(u =~= full.skip(start as int));
    // integer digits
    let mut i: usize = start;
    let mut int_val: i64 = 0;
    let mut scanning = true;
    while scanning && i < n
        invariant
            start <= i <= n,
            n == full.len(),
            u =~= full.skip(start as int),
            u == unsigned_part(full),
            forall|j: int| start <= j < i ==> is_digit(#[trigger] full[j]),
            i - start <= MAX_INT_DIGITS,
            int_val == digits_value(u.take(i - start)),
            0 <= int_val < pow10((i - start) as nat),
            !scanning ==> i < n && !is_digit(full[i as int]),
            s@ == full,
        decreases n - i + (if scanning { 1int } else { 0int }),
    {
        let c = s.get_char(i);
        if '0' <= c && c <= '9' {
            if i - start == MAX_INT_DIGITS {
                proof {
                    assert forall|j: int| 0 <= j < MAX_INT_DIGITS + 1 implies is_digit(
                        #[trigger] u[j],
                    ) by {
                        assert(u[j] == full[start + j]);
                    }
                    lemma_leading_digits(u, MAX_INT_DIGITS as int + 1);
                    lemma_leading_digits_le(u);
                    assert(unsigned_part(full) == u);
                    assert(int_digits(full) == u.take(leading_digits(u) as int));
                    assert(int_digits(full).len() == leading_digits(u));
                }
                return None;
            }
            proof {
                assert(u.take(i - start + 1).drop_last() =~= u.take(i - start));
                assert(u.take(i - start + 1).last() == c);
                assert(pow10((i - start + 1) as nat) == 10 * pow10((i - start) as nat));
                lemma_pow10_mono((i - start) as nat, 14);
                reveal_with_fuel(pow10, 15);
                assert(pow10(14) == 100_000_000_000_000);
            }
            int_val = int_val * 10 + (c as u32 - '0' as u32) as i64;
            i = i + 1;
        } else {
            scanning = false;
        }
    }
    let k: usize = i - start;
    proof {
        lemma_pow10_mono(k as nat, MAX_INT_DIGITS as nat);
        reveal_with_fuel(pow10, 16);
        assert(pow10(15) == 1_000_000_000_000_000);
        lemma_leading_digits(u, k as int);
        if i < n {
            assert(u.skip(k as int)[0] == full[i as int]);
        }
        lemma_leading_digits_le(u);
        assert(leading_digits(u) == k);
    }
    let ghost ip = int_digits(full);
    assert(ip =~= u.take(k as int));
    // fraction
    let mut tenth: i64 = 0;
    let mut up: i64 = 0;
    let mut frac_len: usize = 0;
    if i < n {
        if s.get_char(i) != '.' {
            return None;
        }
        let ghost f = u.skip(k as int + 1);
        assert(f =~= full.skip(i as int + 1));
        let mut j: usize = i + 1;
        while j < n
            invariant
                i + 1 <= j <= n,
                n == full.len(),
                f =~= full.skip(i as int + 1),
                f == u.skip(k as int + 1),
                u == unsigned_part(full),
                leading_digits(u) == k,
                k == i - start,
                i < n,
                u[k as int] == '.',
                u =~= full.skip(start as int),
                forall|m: int| i + 1 <= m < j ==> is_digit(#[trigger] full[m]),
                s@ == full,
            decreases n - j,
        {
            let c = s.get_char(j);
            if !('0' <= c && c <= '9') {
                assert(f[j - i - 1] == full[j as int]);
                assert(!all_digits(f));
                return None;
            }
            j = j + 1;
        }
        assert(all_digits(f)) by {
            assert forall|m: int| 0 <= m < f.len() implies is_digit(#[trigger] f[m]) by {
                assert(f[m] == full[i + 1 + m]);
            }
        }
        frac_len = n - i - 1;
        if frac_len >= 1 {
            let c = s.get_char(i + 1);
            assert(f[0] == c);
            tenth = (c as u32 - '0' as u32) as i64;
        }
        if frac_len >= 2 {
            let c = s.get_char(i + 2);
            assert(f[1] == c);
            if c >= '5' {
                up = 1;
            }
        }
    }
    if k + frac_len == 0 {
        return None;
    }
    assert(frac_digits(full).len() == frac_len);
    let mag = int_val * 10 + tenth + up;
    if negative {
        Some(-mag)
    } else {
        Some(mag)
    }
}

/// A text starts with no more digits than it has characters.
pub proof fn lemma_leading_digits_le(s: Seq<char>)
    ensures
        leading_digits(s) <= s.len(),
    decreases s.len(),
{
    if s.len() > 0 {
        lemma_leading_digits_le(s.drop_first());
    }
}

} // verus!
