//! Exact decimal numbers read from text, standing in for the floating-point
//! values that progress lines carry: a value is `mantissa / 10^scale`.
use crate::text::chars_of;
use vstd::prelude::*;

verus! {

/// Mantissas read from text stay below this bound.
pub const MANTISSA_LIMIT: u64 = 1_000_000_000_000_000;

/// At most this many digits may follow the decimal point.
pub const MAX_SCALE: u32 = 15;

/// The number `mantissa / 10^scale`.
#[derive(Debug, Clone, Copy, PartialEq, Eq)]
pub struct Decimal {
    pub mantissa: i128,
    pub scale: u32,
}

/// `10^n`.
pub open spec fn pow10(n: nat) -> int
    decreases n,
{
    if n == 0 {
        1
    } else {
        10 * pow10((n - 1) as nat)
    }
}

pub open spec fn is_digit(c: char) -> bool {
    '0' <= c && c <= '9'
}

pub open spec fn digit_of(c: char) -> int {
    (c as u32) - ('0' as u32)
}

pub open spec fn all_digits(s: Seq<char>) -> bool {
    forall|i: int| 0 <= i < s.len() ==> is_digit(#[trigger] s[i])
}

/// The number that the decimal digits `s` spell.
pub open spec fn digits_value(s: Seq<char>) -> int
    decreases s.len(),
{
    if s.len() == 0 {
        0
    } else {
        10 * digits_value(s.drop_last()) + digit_of(s.last())
    }
}

/// The length of the leading run of decimal digits of `s`.
pub open spec fn digit_run(s: Seq<char>) -> nat
    decreases s.len(),
{
    if s.len() > 0 && is_digit(s[0]) {
        1 + digit_run(s.drop_first())
    } else {
        0
    }
}

/// `s` without a leading `+` or `-`.
pub open spec fn unsigned_part(s: Seq<char>) -> Seq<char> {
    if s.len() > 0 && (s[0] == '+' || s[0] == '-') {
        s.drop_first()
    } else {
        s
    }
}

/// The digits before the decimal point.
pub open spec fn int_part(s: Seq<char>) -> Seq<char> {
    unsigned_part(s).subrange(0, digit_run(unsigned_part(s)) as int)
}

/// What follows the digits before the decimal point.
pub open spec fn after_int(s: Seq<char>) -> Seq<char> {
    let u = unsigned_part(s);
    u.subrange(digit_run(u) as int, u.len() as int)
}

/// Whether a decimal point follows the digits before it.
pub open spec fn has_point(s: Seq<char>) -> bool {
    after_int(s).len() > 0 && after_int(s)[0] == '.'
}

/// What follows the decimal point, or the digits before it where there is none.
pub open spec fn after_point(s: Seq<char>) -> Seq<char> {
    if has_point(s) {
        after_int(s).drop_first()
    } else {
        after_int(s)
    }
}

/// The digits after the decimal point.
pub open spec fn frac_part(s: Seq<char>) -> Seq<char> {
    if has_point(s) {
        after_point(s).subrange(0, digit_run(after_point(s)) as int)
    } else {
        seq![]
    }
}

/// What follows the digits of the number: empty, or an exponent.
pub open spec fn exp_part(s: Seq<char>) -> Seq<char> {
    if has_point(s) {
        after_point(s).subrange(digit_run(after_point(s)) as int, after_point(s).len() as int)
    } else {
        after_int(s)
    }
}

/// What follows the exponent marker of the exponent text `x`.
pub open spec fn exp_signed(x: Seq<char>) -> Seq<char> {
    x.drop_first()
}

pub open spec fn exp_negative(x: Seq<char>) -> bool {
    exp_signed(x).len() > 0 && exp_signed(x)[0] == '-'
}

/// The digits of the exponent text `x`.
pub open spec fn exp_digits(x: Seq<char>) -> Seq<char> {
    if exp_signed(x).len() > 0 && (exp_signed(x)[0] == '+' || exp_signed(x)[0] == '-') {
        exp_signed(x).drop_first()
    } else {
        exp_signed(x)
    }
}

/// Empty, or `e` or `E`, an optional sign and at least one digit.
pub open spec fn exp_text_ok(x: Seq<char>) -> bool {
    x.len() == 0 || ((x[0] == 'e' || x[0] == 'E') && exp_digits(x).len() > 0 && all_digits(
        exp_digits(x),
    ))
}

/// The power of ten that the exponent text `x` gives, zero when it is empty.
pub open spec fn exp_value(x: Seq<char>) -> int {
    if x.len() == 0 {
        0
    } else if exp_negative(x) {
        -digits_value(exp_digits(x))
    } else {
        digits_value(exp_digits(x))
    }
}

pub open spec fn exp_ok(s: Seq<char>) -> bool {
    exp_text_ok(exp_part(s))
}

pub open spec fn exponent(s: Seq<char>) -> int {
    exp_value(exp_part(s))
}

/// Whether `s` is an optional sign, digits, optionally a point and more
/// digits (at least one digit in all), and optionally an exponent: the
/// finite forms that `f64::from_str` reads.
pub open spec fn is_decimal_text(s: Seq<char>) -> bool {
    &&& int_part(s).len() + frac_part(s).len() >= 1
    &&& exp_ok(s)
}

/// The decimal that `s` spells: its digits make a value below
/// `MANTISSA_LIMIT`, and once the exponent is applied the number is written
/// with a mantissa below `MANTISSA_LIMIT` and at most `MAX_SCALE` digits after
/// the point.
pub open spec fn decimal_of(s: Seq<char>) -> Option<Decimal> {
    let v = digits_value(int_part(s) + frac_part(s));
    if !is_decimal_text(s) || v >= MANTISSA_LIMIT {
        None
    } else {
        scaled_decimal(v, exponent(s) - frac_part(s).len(), s.len() > 0 && s[0] == '-')
    }
}

/// The digits' value `v` times `10^shift`, negated when `neg`, where it is
/// written with a mantissa below `MANTISSA_LIMIT` and at most `MAX_SCALE`
/// digits after the point.
pub open spec fn scaled_decimal(v: int, shift: int, neg: bool) -> Option<Decimal> {
    if shift >= 0 {
        let m = v * pow10(shift as nat);
        if m < MANTISSA_LIMIT {
            Some(Decimal { mantissa: (if neg { -m } else { m }) as i128, scale: 0 })
        } else {
            None
        }
    } else if -shift <= MAX_SCALE {
        Some(Decimal { mantissa: (if neg { -v } else { v }) as i128, scale: (-shift) as u32 })
    } else {
        None
    }
}

/// A decimal as read from text: mantissa and scale in range.
pub open spec fn in_range(d: Decimal) -> bool {
    -(MANTISSA_LIMIT as int) < d.mantissa < MANTISSA_LIMIT && d.scale <= MAX_SCALE
}

proof fn lemma_digit_run_bound(s: Seq<char>)
    ensures
        digit_run(s) <= s.len(),
        all_digits(s.subrange(0, digit_run(s) as int)),
        digit_run(s) < s.len() ==> !is_digit(s[digit_run(s) as int]),
    decreases s.len(),
{
    if s.len() > 0 && is_digit(s[0]) {
        lemma_digit_run_bound(s.drop_first());
        assert forall|i: int| 0 <= i < digit_run(s) implies is_digit(
            #[trigger] s.subrange(0, digit_run(s) as int)[i],
        ) by {
            if i > 0 {
                assert(s.subrange(0, digit_run(s) as int)[i] == s.drop_first().subrange(
                    0,
                    digit_run(s.drop_first()) as int,
                )[i - 1]);
            }
        }
    }
}

proof fn lemma_digits_nonneg(s: Seq<char>)
    requires
        all_digits(s),
    ensures
        digits_value(s) >= 0,
    decreases s.len(),
{
    if s.len() > 0 {
        assert(all_digits(s.drop_last()));
        lemma_digits_nonneg(s.drop_last());
    }
}

proof fn lemma_digits_mono(s: Seq<char>, t: Seq<char>)
    requires
        all_digits(s),
        all_digits(t),
    ensures
        digits_value(s) <= digits_value(s + t),
    decreases t.len(),
{
    if t.len() == 0 {
        assert(s + t =~= s);
    } else {
        assert((s + t).drop_last() =~= s + t.drop_last());
        assert(all_digits(t.drop_last()));
        lemma_digits_mono(s, t.drop_last());
        lemma_digits_nonneg(s + t.drop_last());
    }
}

/// The mantissa read from decimal text is never negative before its sign is applied.
pub proof fn lemma_decimal_nonneg(s: Seq<char>)
    requires
        is_decimal_text(s),
    ensures
        digits_value(int_part(s) + frac_part(s)) >= 0,
{
    lemma_digit_run_bound(unsigned_part(s));
    lemma_digit_run_bound(after_point(s));
    let w = int_part(s) + frac_part(s);
    assert forall|i: int| 0 <= i < w.len() implies is_digit(#[trigger] w[i]) by {
        if i < int_part(s).len() {
            assert(w[i] == int_part(s)[i]);
        } else {
            assert(w[i] == frac_part(s)[i - int_part(s).len()]);
        }
    }
    lemma_digits_nonneg(w);
}

/// Reads the decimal digits `v[lo..hi]`; `None` once the value reaches the limit.
fn read_digits(v: &Vec<char>, lo: usize, hi: usize, prefix: Ghost<Seq<char>>, start: u64) -> (r:
    Option<u64>)
    requires
        lo <= hi <= v@.len(),
        all_digits(prefix@),
        all_digits(v@.subrange(lo as int, hi as int)),
        start == digits_value(prefix@),
        start < MANTISSA_LIMIT,
    ensures
        r is Some <==> digits_value(prefix@ + v@.subrange(lo as int, hi as int)) < MANTISSA_LIMIT,
        r matches Some(x) ==> x == digits_value(prefix@ + v@.subrange(lo as int, hi as int)),
{
    let mut m: u64 = start;
    let mut i: usize = lo;
    while i < hi
        invariant
            lo <= i <= hi <= v@.len(),
            all_digits(v@.subrange(lo as int, hi as int)),
            all_digits(prefix@),
            m == digits_value(prefix@ + v@.subrange(lo as int, i as int)),
            m < MANTISSA_LIMIT,
        decreases hi - i,
    {
        let ghost cur = prefix@ + v@.subrange(lo as int, i as int);
        let ghost next = prefix@ + v@.subrange(lo as int, i + 1);
        assert(next.drop_last() =~= cur);
        assert(v@.subrange(lo as int, hi as int)[i - lo] == v@[i as int]);
        let d = (v[i] as u32 - '0' as u32) as u64;
        if m >= (MANTISSA_LIMIT - d) / 10 && (m * 10 + d) >= MANTISSA_LIMIT {
            proof {
                let whole = prefix@ + v@.subrange(lo as int, hi as int);
                assert(whole =~= next + v@.subrange(i + 1, hi as int));
                assert forall|k: int| 0 <= k < next.len() implies is_digit(#[trigger] next[k]) by {
                    if k < prefix@.len() {
                        assert(next[k] == prefix@[k]);
                    } else {
                        assert(next[k] == v@[lo + k - prefix@.len()]);
                        assert(v@.subrange(lo as int, hi as int)[k - prefix@.len()] == v@[lo + k
                            - prefix@.len()]);
                    }
                }
                assert forall|k: int| 0 <= k < hi - (i + 1) implies is_digit(
                    #[trigger] v@.subrange(i + 1, hi as int)[k],
                ) by {
                    assert(v@.subrange(i + 1, hi as int)[k] == v@.subrange(lo as int, hi as int)[k
                        + i + 1 - lo]);
                }
                lemma_digits_mono(next, v@.subrange(i + 1, hi as int));
            }
            return None;
        }
        m = m * 10 + d;
        i = i + 1;
    }
    assert(v@.subrange(lo as int, i as int) =~= v@.subrange(lo as int, hi as int));
    Some(m)
}

/// The length of the run of digits that starts at `lo`.
fn digit_run_at(v: &Vec<char>, lo: usize, hi: usize) -> (r: usize)
    requires
        lo <= hi <= v@.len(),
    ensures
        lo <= r <= hi,
        r - lo == digit_run(v@.subrange(lo as int, hi as int)),
{
    let mut i: usize = lo;
    while i < hi && '0' <= v[i] && v[i] <= '9'
        invariant
            lo <= i <= hi <= v@.len(),
            digit_run(v@.subrange(lo as int, hi as int)) == (i - lo) + digit_run(
                v@.subrange(i as int, hi as int),
            ),
        decreases hi - i,
    {
        assert(v@.subrange(i as int, hi as int).drop_first() =~= v@.subrange(i + 1, hi as int));
        i = i + 1;
    }
    i
}

/// Exponents are read up to this bound; any larger one puts the number out of range.
pub const EXPONENT_CAP: u128 = 36893488147419103232;

/// Reads the exponent digits `v[lo..hi]`, stopping at `EXPONENT_CAP`.
fn read_exponent(v: &Vec<char>, lo: usize, hi: usize) -> (r: u128)
    requires
        lo <= hi <= v@.len(),
        all_digits(v@.subrange(lo as int, hi as int)),
    ensures
        r <= EXPONENT_CAP,
        r < EXPONENT_CAP ==> r == digits_value(v@.subrange(lo as int, hi as int)),
        r == EXPONENT_CAP ==> digits_value(v@.subrange(lo as int, hi as int)) >= EXPONENT_CAP,
{
    let mut e: u128 = 0;
    let mut i: usize = lo;
    assert(v@.subrange(lo as int, lo as int) =~= Seq::<char>::empty());
    while i < hi
        invariant
            lo <= i <= hi <= v@.len(),
            all_digits(v@.subrange(lo as int, hi as int)),
            e <= EXPONENT_CAP,
            e < EXPONENT_CAP ==> e == digits_value(v@.subrange(lo as int, i as int)),
            e == EXPONENT_CAP ==> digits_value(v@.subrange(lo as int, i as int)) >= EXPONENT_CAP,
        decreases hi - i,
    {
        let ghost prev = v@.subrange(lo as int, i as int);
        assert(v@.subrange(lo as int, i + 1).drop_last() =~= prev);
        assert(v@.subrange(lo as int, hi as int)[i - lo] == v@[i as int]);
        assert(all_digits(prev)) by {
            assert forall|k: int| 0 <= k < prev.len() implies is_digit(#[trigger] prev[k]) by {
                assert(prev[k] == v@.subrange(lo as int, hi as int)[k]);
            }
        }
        proof {
            lemma_digits_nonneg(prev);
        }
        let d = (v[i] as u32 - '0' as u32) as u128;
        assert(digits_value(v@.subrange(lo as int, i + 1)) == 10 * digits_value(prev) + d);
        if e < EXPONENT_CAP {
            let next = e * 10 + d;
            if next >= EXPONENT_CAP {
                e = EXPONENT_CAP;
            } else {
                e = next;
            }
        }
        i = i + 1;
    }
    assert(v@.subrange(lo as int, i as int) =~= v@.subrange(lo as int, hi as int));
    e
}

/// Reads the exponent text `v[lo..hi]`: its sign and its digits' value up to
/// `EXPONENT_CAP`; `None` where it is no exponent.
fn exponent_in(v: &Vec<char>, lo: usize, hi: usize) -> (r: Option<(bool, u128)>)
    requires
        lo <= hi <= v@.len(),
    ensures
        r is None <==> !exp_text_ok(v@.subrange(lo as int, hi as int)),
        r matches Some((neg, e)) ==> {
            let x = v@.subrange(lo as int, hi as int);
            &&& e <= EXPONENT_CAP
            &&& e < EXPONENT_CAP ==> exp_value(x) == (if neg { -(e as int) } else { e as int })
            &&& e == EXPONENT_CAP && neg ==> exp_value(x) <= -(EXPONENT_CAP as int)
            &&& e == EXPONENT_CAP && !neg ==> exp_value(x) >= EXPONENT_CAP
        },
{
    let ghost x = v@.subrange(lo as int, hi as int);
    if lo == hi {
        return Some((false, 0));
    }
    if !(v[lo] == 'e' || v[lo] == 'E') {
        return None;
    }
    let mut ds = lo + 1;
    assert(exp_signed(x) =~= v@.subrange(ds as int, hi as int));
    let neg = ds < hi && v[ds] == '-';
    if ds < hi && (v[ds] == '+' || v[ds] == '-') {
        ds = ds + 1;
    }
    assert(exp_digits(x) =~= v@.subrange(ds as int, hi as int));
    let de = digit_run_at(v, ds, hi);
    proof {
        lemma_digit_run_bound(exp_digits(x));
    }
    if de == ds || de != hi {
        return None;
    }
    assert(exp_digits(x).subrange(0, digit_run(exp_digits(x)) as int) =~= exp_digits(x));
    let e = read_exponent(v, ds, hi);
    Some((neg, e))
}

/// Reads `v[lo..hi]` as a decimal.
#[verifier::rlimit(100)]
pub fn decimal_in(v: &Vec<char>, lo: usize, hi: usize) -> (r: Option<Decimal>)
    requires
        lo <= hi <= v@.len(),
    ensures
        r == decimal_of(v@.subrange(lo as int, hi as int)),
{
    let ghost s = v@.subrange(lo as int, hi as int);
    let negative = lo < hi && v[lo] == '-';
    let start = if lo < hi && (v[lo] == '+' || v[lo] == '-') {
        lo + 1
    } else {
        lo
    };
    assert(unsigned_part(s) =~= v@.subrange(start as int, hi as int));
    let p = digit_run_at(v, start, hi);
    proof {
        lemma_digit_run_bound(unsigned_part(s));
        assert(int_part(s) =~= v@.subrange(start as int, p as int));
        assert(after_int(s) =~= v@.subrange(p as int, hi as int));
    }
    let point = p < hi && v[p] == '.';
    let fs = if point {
        p + 1
    } else {
        p
    };
    assert(after_point(s) =~= v@.subrange(fs as int, hi as int));
    let fe = if point {
        digit_run_at(v, fs, hi)
    } else {
        fs
    };
    proof {
        lemma_digit_run_bound(after_point(s));
        assert(frac_part(s) =~= v@.subrange(fs as int, fe as int));
        assert(exp_part(s) =~= v@.subrange(fe as int, hi as int));
    }
    if (p - start) + (fe - fs) == 0 {
        return None;
    }
    let (exp_neg, e) = match exponent_in(v, fe, hi) {
        None => {
            return None;
        },
        Some(x) => x,
    };
    proof {
        lemma_digit_run_bound(unsigned_part(s));
        lemma_digit_run_bound(after_point(s));
    }
    assert(digits_value(Seq::<char>::empty()) == 0);
    let ip = read_digits(v, start, p, Ghost(Seq::<char>::empty()), 0);
    assert(Seq::<char>::empty() + int_part(s) =~= int_part(s));
    let int_value = match ip {
        Some(x) => x,
        None => {
            proof {
                lemma_digits_mono(int_part(s), frac_part(s));
            }
            return None;
        },
    };
    let fp = read_digits(v, fs, fe, Ghost(int_part(s)), int_value);
    let m = match fp {
        Some(x) => x,
        None => {
            return None;
        },
    };
    let ghost shift = exponent(s) - frac_part(s).len();
    scale_by_exponent(m, negative, exp_neg, e, fe - fs, Ghost(shift))
}

/// `m` times ten to the power `±e - frac_len`, as a decimal in range.
fn scale_by_exponent(m: u64, negative: bool, exp_neg: bool, e: u128, frac_len: usize, shift: Ghost<int>) -> (r: Option<Decimal>)
    requires
        m < MANTISSA_LIMIT,
        e <= EXPONENT_CAP,
        e < EXPONENT_CAP ==> shift@ == (if exp_neg { -(e as int) } else { e as int }) - frac_len,
        e == EXPONENT_CAP && exp_neg ==> shift@ <= -(EXPONENT_CAP as int),
        e == EXPONENT_CAP && !exp_neg ==> shift@ >= EXPONENT_CAP - frac_len,
    ensures
        r == scaled_decimal(m as int, shift@, negative),
{
    assert(frac_len as int <= 18446744073709551615);
    if e == EXPONENT_CAP {
        if exp_neg {
            return None;
        }
        if m == 0 {
            return Some(Decimal { mantissa: 0, scale: 0 });
        }
        proof {
            lemma_pow10_mono(16, shift@ as nat);
            reveal_with_fuel(pow10, 17);
            assert(m as int * pow10(shift@ as nat) >= pow10(shift@ as nat)) by (nonlinear_arith)
                requires
                    m >= 1,
                    pow10(shift@ as nat) >= 1,
            ;
        }
        return None;
    }
    let frac = frac_len as i128;
    let sh: i128 = if exp_neg {
        -(e as i128) - frac
    } else {
        e as i128 - frac
    };
    if sh >= 0 {
        if m == 0 {
            return Some(Decimal { mantissa: 0, scale: 0 });
        }
        if sh > 15 {
            proof {
                lemma_pow10_mono(16, sh as nat);
                reveal_with_fuel(pow10, 17);
                assert(m as int * pow10(sh as nat) >= pow10(sh as nat)) by (nonlinear_arith)
                    requires
                        m >= 1,
                        pow10(sh as nat) >= 1,
                ;
            }
            return None;
        }
        let pw = pow10_exec(sh as u32);
        assert(m as int * pw <= 1_000_000_000_000_000 * 1_000_000_000_000_000) by (nonlinear_arith)
            requires
                m < 1_000_000_000_000_000,
                1 <= pw <= 1_000_000_000_000_000,
        ;
        let big = m as i128 * pw;
        if big >= MANTISSA_LIMIT as i128 {
            return None;
        }
        let mantissa: i128 = if negative {
            -big
        } else {
            big
        };
        Some(Decimal { mantissa, scale: 0 })
    } else {
        if sh < -15 {
            return None;
        }
        let mantissa: i128 = if negative {
            -(m as i128)
        } else {
            m as i128
        };
        Some(Decimal { mantissa, scale: (-sh) as u32 })
    }
}

pub fn pow10_exec(n: u32) -> (r: i128)
    requires
        n <= MAX_SCALE,
    ensures
        r == pow10(n as nat),
        1 <= r <= 1_000_000_000_000_000,
{
    let mut r: i128 = 1;
    let mut i: u32 = 0;
    proof {
        lemma_pow10_bound(n as nat);
    }
    while i < n
        invariant
            i <= n <= MAX_SCALE,
            r == pow10(i as nat),
        decreases n - i,
    {
        proof {
            lemma_pow10_bound((i + 1) as nat);
        }
        r = r * 10;
        i = i + 1;
    }
    proof {
        lemma_pow10_bound(n as nat);
    }
    r
}

pub proof fn lemma_pow10_mono(a: nat, b: nat)
    requires
        a <= b,
    ensures
        1 <= pow10(a) <= pow10(b),
    decreases b,
{
    if b > a {
        lemma_pow10_mono(a, (b - 1) as nat);
    } else if a > 0 {
        lemma_pow10_mono((a - 1) as nat, (a - 1) as nat);
    }
}

pub proof fn lemma_pow10_bound(n: nat)
    requires
        n <= MAX_SCALE,
    ensures
        1 <= pow10(n) <= 1_000_000_000_000_000,
{
    reveal_with_fuel(pow10, 16);
    assert(pow10(15) == 1_000_000_000_000_000);
    lemma_pow10_mono(n, 15);
}

/// A decimal read from text is in range.
pub proof fn lemma_decimal_in_range(s: Seq<char>)
    requires
        decimal_of(s) is Some,
    ensures
        in_range(decimal_of(s)->0),
{
    lemma_decimal_nonneg(s);
    let v = digits_value(int_part(s) + frac_part(s));
    let shift = exponent(s) - frac_part(s).len();
    if shift >= 0 {
        lemma_pow10_mono(0, shift as nat);
        assert(v * pow10(shift as nat) >= 0) by (nonlinear_arith)
            requires
                v >= 0,
                pow10(shift as nat) >= 1,
        ;
    }
}

/// Reads `text` as a decimal number: an optional sign, digits, optionally a
/// point and more digits, optionally an exponent. Infinities and NaN have no
/// decimal value.
pub fn parse_decimal(text: &str) -> (r: Option<Decimal>)
    ensures
        r == decimal_of(text@),
{
    let v = chars_of(text);
    assert(v@.subrange(0, v@.len() as int) =~= v@);
    decimal_in(&v, 0, v.len())
}

} // verus!
