//! Text shown to the user and sent to the service for temperatures held in
//! tenths of a degree.
use vstd::prelude::*;

verus! {

pub open spec fn digit_char(d: nat) -> char {
    ((d % 10) + ('0' as nat)) as char
}

/// The decimal digits of `n`, most significant first, with no leading zero.
pub open spec fn int_text(n: nat) -> Seq<char>
    decreases n,
{
    if n < 10 {
        seq![digit_char(n)]
    } else {
        int_text(n / 10).push(digit_char(n % 10))
    }
}

pub open spec fn abs(t: int) -> nat {
    if t < 0 {
        (-t) as nat
    } else {
        t as nat
    }
}

pub open spec fn sign_text(t: int) -> Seq<char> {
    if t < 0 {
        "-"@
    } else {
        ""@
    }
}

/// Tenths with exactly one decimal: `195` is `19.5`, `200` is `20.0`.
pub open spec fn fixed_text(t: int) -> Seq<char> {
    sign_text(t) + int_text(abs(t) / 10) + "."@ + int_text(abs(t) % 10)
}

/// `s` right-aligned in a field of `w` characters.
pub open spec fn pad_left(s: Seq<char>, w: nat) -> Seq<char> {
    if s.len() < w {
        Seq::new((w - s.len()) as nat, |i: int| ' ') + s
    } else {
        s
    }
}

pub open spec fn temperature_line(t: int) -> Seq<char> {
    "Temperature "@ + pad_left(fixed_text(t), 6) + "\u{B0}C"@
}

pub open spec fn target_line(t: int, working: bool) -> Seq<char> {
    "Target     "@ + pad_left(fixed_text(t), 6) + "\u{B0}C"@ + (if working {
        " \u{1F525}"@
    } else {
        ""@
    })
}

/// Relies on `ToString` for `u64`: its decimal digits without leading zeros.
#[verifier::external_body]
fn decimal_text(n: u64) -> (r: String)
    ensures
        r@ == int_text(n as nat),
{
    n.to_string()
}

fn magnitude(t: i64) -> (r: u64)
    ensures
        r == abs(t as int),
{
    if t < 0 {
        ((-(t + 1)) as u64) + 1
    } else {
        t as u64
    }
}

fn sign_of(t: i64) -> (r: String)
    ensures
        r@ == sign_text(t as int),
{
    proof {
        reveal_strlit("");
    }
    if t < 0 {
        String::from_str("-")
    } else {
        String::new()
    }
}

/// Tenths with exactly one decimal.
pub fn fixed_tenths(t: i64) -> (r: String)
    ensures
        r@ == fixed_text(t as int),
{
    let m = magnitude(t);
    let r = sign_of(t).concat(decimal_text(m / 10).as_str()).concat(".").concat(
        decimal_text(m % 10).as_str(),
    );
    r
}

/// `s` right-aligned in a field of `w` characters.
pub fn pad_to(s: &str, w: usize) -> (r: String)
    ensures
        r@ == pad_left(s@, w as nat),
{
    let n = s.unicode_len();
    let mut r = String::new();
    if n < w {
        let mut k: usize = 0;
        proof {
            reveal_strlit(" ");
        }
        while k < w - n
            invariant
                k <= w - n,
                r@ =~= Seq::new(k as nat, |i: int| ' '),
            decreases w - n - k,
        {
            proof {
                reveal_strlit(" ");
            }
            r.append(" ");
            k = k + 1;
        }
    }
    r.append(s);
    proof {
        if n >= w {
            assert(r@ =~= s@);
        }
    }
    r
}

/// The first status line: the measured temperature.
pub fn temperature_report(t: i64) -> (r: String)
    ensures
        r@ == temperature_line(t as int),
{
    let f = fixed_tenths(t);
    String::from_str("Temperature ").concat(pad_to(f.as_str(), 6).as_str()).concat("\u{B0}C")
}

/// The second status line: the target, and the flame while the heating runs.
pub fn target_report(t: i64, working: bool) -> (r: String)
    ensures
        r@ == target_line(t as int, working),
{
    let f = fixed_tenths(t);
    let indicator = if working {
        " \u{1F525}"
    } else {
        ""
    };
    String::from_str("Target     ").concat(pad_to(f.as_str(), 6).as_str()).concat("\u{B0}C").concat(
        indicator,
    )
}

} // verus!
