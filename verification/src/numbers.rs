//! Exact numeric parsing and arithmetic: decimal integers, rate fractions
//! such as `30000/1001`, decimal durations held as rationals, and the
//! rounded frame-count derivation.

use vstd::prelude::*;
use vstd::arithmetic::div_mod::lemma_fundamental_div_mod;
use vstd::arithmetic::div_mod::lemma_fundamental_div_mod_converse;
use vstd::arithmetic::div_mod::lemma_mod_bound;
use vstd::arithmetic::mul::lemma_mul_inequality;
use vstd::arithmetic::mul::lemma_mul_strictly_positive;
use vstd::arithmetic::mul::lemma_mul_upper_bound;
use crate::text::find_char;
use crate::text::first_at;
use crate::text::str_contains_char;

verus! {

/// An exact nonnegative rational, used for frame rates and durations.
/// A valid value has a nonzero denominator.
#[derive(Clone, Copy, PartialEq, Eq, Structural, Debug)]
pub struct Fraction {
    pub num: u64,
    pub den: u64,
}

pub open spec fn is_dec_digit(c: char) -> bool {
    48 <= c as u32 <= 57
}

pub open spec fn digit_val(c: char) -> nat {
    (c as u32 - 48) as nat
}

pub open spec fn all_digits(s: Seq<char>) -> bool {
    forall|i: int| 0 <= i < s.len() ==> is_dec_digit(s[i])
}

/// The value of a digit string, most significant digit first.
pub open spec fn dec_val(s: Seq<char>) -> nat
    decreases s.len(),
{
    if s.len() == 0 {
        0
    } else {
        dec_val(s.drop_last()) * 10 + digit_val(s.last())
    }
}

pub open spec fn pow10(k: nat) -> nat
    decreases k,
{
    if k == 0 {
        1nat
    } else {
        10 * pow10((k - 1) as nat)
    }
}

/// A decimal integer with an optional leading plus sign, rejected on any
/// other character or on overflow.
pub open spec fn spec_parse_u64(s: Seq<char>) -> Option<u64> {
    let ds = if s.len() > 0 && s[0] == '+' {
        s.drop_first()
    } else {
        s
    };
    if ds.len() == 0 || !all_digits(ds) || dec_val(ds) > u64::MAX {
        None
    } else {
        Some(dec_val(ds) as u64)
    }
}

proof fn lemma_mul_add_fits(x: u64, q: u64, a: u64)
    requires
        q > 0,
        x <= (u64::MAX - a) / (q as int),
    ensures
        x * q + a <= u64::MAX,
{
    let m = (u64::MAX - a) as int;
    lemma_fundamental_div_mod(m, q as int);
    lemma_mod_bound(m, q as int);
    lemma_mul_inequality(x as int, m / (q as int), q as int);
    assert((m / (q as int)) * (q as int) == (q as int) * (m / (q as int))) by (nonlinear_arith);
}

proof fn lemma_mul_add_overflows(x: u64, q: u64, a: u64)
    requires
        q > 0,
        x > (u64::MAX - a) / (q as int),
    ensures
        x * q + a > u64::MAX,
{
    let m = (u64::MAX - a) as int;
    lemma_fundamental_div_mod(m, q as int);
    lemma_mod_bound(m, q as int);
    lemma_mul_inequality(m / (q as int) + 1, x as int, q as int);
    assert((m / (q as int) + 1) * (q as int) == (q as int) * (m / (q as int)) + q) by (nonlinear_arith);
}

proof fn lemma_dec_val_take_mono(s: Seq<char>, k: int)
    requires
        0 <= k <= s.len(),
    ensures
        dec_val(s) >= dec_val(s.take(k)),
    decreases s.len() - k,
{
    if k == s.len() {
        assert(s.take(k) =~= s);
    } else {
        let t = s.take(k + 1);
        assert(t.drop_last() =~= s.take(k));
        assert(dec_val(t) == dec_val(s.take(k)) * 10 + digit_val(t.last()));
        lemma_dec_val_take_mono(s, k + 1);
    }
}

/// The value of a concatenation of digit strings.
proof fn lemma_dec_val_concat(x: Seq<char>, y: Seq<char>)
    ensures
        dec_val(x + y) == dec_val(x) * pow10(y.len()) + dec_val(y),
    decreases y.len(),
{
    if y.len() == 0 {
        assert(x + y =~= x);
        assert(dec_val(x) * pow10(0) == dec_val(x)) by (nonlinear_arith)
            requires
                pow10(0) == 1,
        ;
    } else {
        let y1 = y.drop_last();
        assert((x + y).drop_last() =~= x + y1);
        assert((x + y).last() == y.last());
        assert(dec_val(x + y) == dec_val(x + y1) * 10 + digit_val(y.last()));
        lemma_dec_val_concat(x, y1);
        assert(pow10(y.len()) == 10 * pow10(y1.len()));
        assert(dec_val(y) == dec_val(y1) * 10 + digit_val(y.last()));
        assert((dec_val(x) * pow10(y1.len()) + dec_val(y1)) * 10 + digit_val(y.last())
            == dec_val(x) * (10 * pow10(y1.len())) + (dec_val(y1) * 10 + digit_val(y.last())))
            by (nonlinear_arith);
    }
}

proof fn lemma_pow10_pos(k: nat)
    ensures
        pow10(k) >= 1,
    decreases k,
{
    if k > 0 {
        lemma_pow10_pos((k - 1) as nat);
    }
}

proof fn lemma_pow10_mono(k1: nat, k2: nat)
    requires
        k1 <= k2,
    ensures
        pow10(k1) <= pow10(k2),
    decreases k2 - k1,
{
    if k1 < k2 {
        lemma_pow10_mono(k1, (k2 - 1) as nat);
        lemma_pow10_pos((k2 - 1) as nat);
    }
}

/// Scans a bare digit string; `None` on a non-digit or on overflow.
fn scan_digits(s: &str) -> (r: Option<u64>)
    ensures
        match r {
            Some(v) => all_digits(s@) && dec_val(s@) <= u64::MAX && v == dec_val(s@),
            None => !all_digits(s@) || dec_val(s@) > u64::MAX,
        },
{
    let n = s.unicode_len();
    let mut acc: u64 = 0;
    let mut i: usize = 0;
    while i < n
        invariant
            i <= n,
            n == s@.len(),
            all_digits(s@.take(i as int)),
            acc == dec_val(s@.take(i as int)),
        decreases n - i,
    {
        let c = s.get_char(i);
        let u = c as u32;
        if u < 48 || u > 57 {
            proof {
                assert(!is_dec_digit(s@[i as int]));
            }
            return None;
        }
        let d = (u - 48) as u64;
        proof {
            assert(is_dec_digit(s@[i as int]));
            assert(d == digit_val(s@[i as int]));
            assert(s@.take(i + 1).drop_last() =~= s@.take(i as int));
            assert(s@.take(i + 1).last() == s@[i as int]);
        }
        if acc > (u64::MAX - d) / 10 {
            proof {
                lemma_mul_add_overflows(acc, 10, d);
                assert(dec_val(s@.take(i + 1)) > u64::MAX);
                lemma_dec_val_take_mono(s@, i + 1);
            }
            return None;
        }
        proof {
            lemma_mul_add_fits(acc, 10, d);
        }
        acc = acc * 10 + d;
        i += 1;
    }
    proof {
        assert(s@.take(n as int) =~= s@);
    }
    Some(acc)
}

/// Parses a decimal integer, matching `spec_parse_u64`.
pub fn parse_u64_str(s: &str) -> (r: Option<u64>)
    ensures
        r == spec_parse_u64(s@),
{
    let n = s.unicode_len();
    let body: &str = if n > 0 && s.get_char(0) == '+' {
        let t = s.substring_char(1, n);
        proof {
            assert(t@ =~= s@.drop_first());
        }
        t
    } else {
        s
    };
    if body.unicode_len() == 0 {
        return None;
    }
    scan_digits(body)
}

/// A rate fraction `num/den`: the text before the first slash and the text
/// between the first and any second slash, both as decimal integers; a zero
/// denominator (including the degenerate `0/0`) yields nothing.
pub open spec fn spec_parse_fraction(s: Seq<char>) -> Option<Fraction> {
    if !s.contains('/') {
        None
    } else {
        let i = first_at(s, '/');
        let a = s.take(i);
        let rest = s.skip(i + 1);
        let b = if rest.contains('/') {
            rest.take(first_at(rest, '/'))
        } else {
            rest
        };
        match spec_parse_u64(a) {
            None => None,
            Some(num) => match spec_parse_u64(b) {
                None => None,
                Some(den) => if den == 0 {
                    None
                } else {
                    Some(Fraction { num, den })
                },
            },
        }
    }
}

/// Parses a rate fraction, matching `spec_parse_fraction`.
pub fn parse_fraction(s: &str) -> (r: Option<Fraction>)
    ensures
        r == spec_parse_fraction(s@),
{
    let n = s.unicode_len();
    let slash = match find_char(s, '/') {
        None => {
            return None;
        },
        Some(i) => i,
    };
    proof {
        assert(s@.contains('/'));
    }
    let a = s.substring_char(0, slash);
    let rest = s.substring_char(slash + 1, n);
    proof {
        assert(a@ =~= s@.take(slash as int));
        assert(rest@ =~= s@.skip(slash + 1));
    }
    let b: &str = match find_char(rest, '/') {
        None => rest,
        Some(j) => {
            let t = rest.substring_char(0, j);
            proof {
                assert(rest@.contains('/'));
                assert(t@ =~= rest@.take(j as int));
            }
            t
        },
    };
    let num = match parse_u64_str(a) {
        None => {
            return None;
        },
        Some(v) => v,
    };
    let den = match parse_u64_str(b) {
        None => {
            return None;
        },
        Some(v) => v,
    };
    if den == 0 {
        None
    } else {
        Some(Fraction { num, den })
    }
}

/// A plain decimal number (digits with at most one point, not both sides
/// empty) as an exact rational over a power of ten; anything else, or a
/// value too large to represent, yields nothing.
pub open spec fn spec_parse_decimal(s: Seq<char>) -> Option<Fraction> {
    if !s.contains('.') {
        if s.len() == 0 || !all_digits(s) || dec_val(s) > u64::MAX {
            None
        } else {
            Some(Fraction { num: dec_val(s) as u64, den: 1 })
        }
    } else {
        let i = first_at(s, '.');
        let a = s.take(i);
        let b = s.skip(i + 1);
        if b.contains('.') || a.len() + b.len() == 0 || !all_digits(a) || !all_digits(b) {
            None
        } else if dec_val(a + b) > u64::MAX || pow10(b.len()) > u64::MAX {
            None
        } else {
            Some(Fraction { num: dec_val(a + b) as u64, den: pow10(b.len()) as u64 })
        }
    }
}

/// Computes a power of ten, or reports that it does not fit.
fn pow10_u64(k: usize) -> (r: Option<u64>)
    ensures
        match r {
            Some(v) => v == pow10(k as nat) && v >= 1,
            None => pow10(k as nat) > u64::MAX,
        },
{
    let mut den: u64 = 1;
    let mut i: usize = 0;
    while i < k
        invariant
            i <= k,
            den == pow10(i as nat),
            den >= 1,
        decreases k - i,
    {
        if den > u64::MAX / 10 {
            proof {
                lemma_mul_add_overflows(den, 10, 0);
                assert(pow10((i + 1) as nat) == 10 * pow10(i as nat));
                lemma_pow10_mono((i + 1) as nat, k as nat);
            }
            return None;
        }
        proof {
            lemma_mul_add_fits(den, 10, 0);
            assert(pow10((i + 1) as nat) == 10 * pow10(i as nat));
        }
        den = den * 10;
        i += 1;
    }
    Some(den)
}

/// Parses a decimal number, matching `spec_parse_decimal`.
pub fn parse_decimal(s: &str) -> (r: Option<Fraction>)
    ensures
        r == spec_parse_decimal(s@),
{
    let n = s.unicode_len();
    let dot = match find_char(s, '.') {
        None => {
            if n == 0 {
                return None;
            }
            return match scan_digits(s) {
                None => None,
                Some(v) => Some(Fraction { num: v, den: 1 }),
            };
        },
        Some(i) => i,
    };
    proof {
        assert(s@.contains('.'));
    }
    let a = s.substring_char(0, dot);
    let b = s.substring_char(dot + 1, n);
    proof {
        assert(a@ =~= s@.take(dot as int));
        assert(b@ =~= s@.skip(dot + 1));
    }
    if str_contains_char(b, '.') {
        return None;
    }
    if a.unicode_len() == 0 && b.unicode_len() == 0 {
        return None;
    }
    proof {
        lemma_dec_val_concat(a@, b@);
        lemma_pow10_pos(b@.len());
        assert(dec_val(a@) * pow10(b@.len()) >= dec_val(a@)) by (nonlinear_arith)
            requires
                pow10(b@.len()) >= 1,
        ;
    }
    let va = match scan_digits(a) {
        None => {
            return None;
        },
        Some(v) => v,
    };
    let vb = match scan_digits(b) {
        None => {
            return None;
        },
        Some(v) => v,
    };
    let den = match pow10_u64(b.unicode_len()) {
        None => {
            return None;
        },
        Some(v) => v,
    };
    if va > (u64::MAX - vb) / den {
        proof {
            lemma_mul_add_overflows(va, den, vb);
        }
        return None;
    }
    proof {
        lemma_mul_add_fits(va, den, vb);
    }
    let num = va * den + vb;
    Some(Fraction { num, den })
}

/// A parsed decimal always carries a usable denominator: a power of ten
/// is never zero.
pub proof fn lemma_parse_decimal_den_positive(s: Seq<char>)
    ensures
        match spec_parse_decimal(s) {
            Some(f) => f.den >= 1,
            None => true,
        },
{
    if s.contains('.') {
        let i = first_at(s, '.');
        let b = s.skip(i + 1);
        lemma_pow10_pos(b.len());
    }
}

/// The quotient `p / q` rounded to the nearest integer, halves up.
pub open spec fn round_ratio(p: int, q: int) -> int {
    (2 * p + q) / (2 * q)
}

/// The number of whole frames covered by a duration at a rate: the product
/// of the two rationals rounded half-up, saturated to u64::MAX.
pub fn rounded_frame_count(duration: Fraction, fps: Fraction) -> (r: u64)
    requires
        duration.den > 0,
        fps.den > 0,
    ensures
        ({
            let exact = round_ratio(
                duration.num as int * fps.num as int,
                duration.den as int * fps.den as int,
            );
            r == if exact > u64::MAX as int {
                u64::MAX as int
            } else {
                exact
            }
        }),
{
    proof {
        lemma_mul_upper_bound(
            duration.num as int,
            u64::MAX as int,
            fps.num as int,
            u64::MAX as int,
        );
        lemma_mul_upper_bound(
            duration.den as int,
            u64::MAX as int,
            fps.den as int,
            u64::MAX as int,
        );
        lemma_mul_strictly_positive(duration.den as int, fps.den as int);
    }
    let p: u128 = duration.num as u128 * fps.num as u128;
    let q: u128 = duration.den as u128 * fps.den as u128;
    let base = p / q;
    let rem = p % q;
    proof {
        lemma_fundamental_div_mod(p as int, q as int);
        assert(base <= p) by (nonlinear_arith)
            requires
                q >= 1,
                base as int == p as int / q as int,
                p as int == q as int * (base as int) + rem as int,
                rem >= 0,
                base >= 0,
        ;
    }
    let bump: u128 = if rem >= q - rem {
        1
    } else {
        0
    };
    let ghost pi = p as int;
    let ghost qi = q as int;
    let ghost bi = base as int;
    let ghost ri = rem as int;
    proof {
        assert(ri < qi);
        if 2 * ri >= qi {
            assert(2 * pi + qi == (bi + 1) * (2 * qi) + (2 * ri - qi)) by (nonlinear_arith)
                requires
                    pi == qi * bi + ri,
            ;
            lemma_fundamental_div_mod_converse(2 * pi + qi, 2 * qi, bi + 1, 2 * ri - qi);
        } else {
            assert(2 * pi + qi == bi * (2 * qi) + (2 * ri + qi)) by (nonlinear_arith)
                requires
                    pi == qi * bi + ri,
            ;
            lemma_fundamental_div_mod_converse(2 * pi + qi, 2 * qi, bi, 2 * ri + qi);
        }
        assert(round_ratio(pi, qi) == bi + bump);
    }
    let cand = base + bump;
    if cand > u64::MAX as u128 {
        u64::MAX
    } else {
        cand as u64
    }
}

} // verus!
