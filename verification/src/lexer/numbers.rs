//! Values of decimal number literals.
use vstd::prelude::*;
use crate::chars::{is_digit, str_to_chars};

verus! {

/// Value of the decimal digits `s[a..b]`.
pub open spec fn digits_value(s: Seq<char>, a: int, b: int) -> nat
    decreases b - a,
{
    if a < b {
        digits_value(s, a, b - 1) * 10 + ((s[b - 1] as u32) - 48) as nat
    } else {
        0
    }
}

/// The decimal digits of 2^1024 - 2^970, the midpoint between `f64::MAX`
/// and 2^1024.
pub open spec fn f64_overflow_digits() -> Seq<char> {
    "179769313486231580793728971405303415079934132710037826936173778980444968292764750946649017977587207096330286416692887910946555547851940402630657488671505820681908902000708383676273854845817711531764475730270069855571366959622842914819860834936475292719074168444365510704342711559699508093042880177904174497792"@
}

/// Decimal literals whose integer part is at least this value parse to an
/// infinite `f64` (round to nearest, ties to even).
pub open spec fn f64_overflow() -> nat {
    digits_value(f64_overflow_digits(), 0, 309)
}

pub open spec fn pow10(n: nat) -> nat
    decreases n,
{
    if n == 0 {
        1
    } else {
        10 * pow10((n - 1) as nat)
    }
}

pub open spec fn all_digits(s: Seq<char>, a: int, b: int) -> bool {
    forall|k: int| a <= k < b ==> is_digit(#[trigger] s[k])
}

pub proof fn lemma_pow10_positive(n: nat)
    ensures
        pow10(n) >= 1,
    decreases n,
{
    if n > 0 {
        lemma_pow10_positive((n - 1) as nat);
    }
}

pub proof fn lemma_pow10_monotone(i: nat, j: nat)
    requires
        i <= j,
    ensures
        1 <= pow10(i) <= pow10(j),
    decreases j,
{
    if i < j {
        lemma_pow10_monotone(i, (j - 1) as nat);
        lemma_pow10_positive((j - 1) as nat);
    } else {
        lemma_pow10_positive(i);
    }
}

pub proof fn lemma_digits_value_monotone(s: Seq<char>, a: int, k: int, b: int)
    requires
        a <= k <= b,
    ensures
        digits_value(s, a, k) <= digits_value(s, a, b),
    decreases b - k,
{
    if k < b {
        lemma_digits_value_monotone(s, a, k, b - 1);
    }
}

/// `s[a..b]` is `s[a..k]` followed by `s[k..b]`.
pub proof fn lemma_digits_split(s: Seq<char>, a: int, k: int, b: int)
    requires
        a <= k <= b,
    ensures
        digits_value(s, a, b) == digits_value(s, a, k) * pow10((b - k) as nat) + digits_value(s, k, b),
    decreases b - k,
{
    if k < b {
        lemma_digits_split(s, a, k, b - 1);
        let va = digits_value(s, a, k);
        let p = pow10((b - 1 - k) as nat);
        let r = digits_value(s, k, b - 1);
        let d = ((s[b - 1] as u32) - 48) as nat;
        assert(pow10((b - k) as nat) == 10 * p);
        assert(digits_value(s, a, b) == (va * p + r) * 10 + d);
        assert(digits_value(s, k, b) == r * 10 + d);
        assert((va * p + r) * 10 + d == va * (10 * p) + (r * 10 + d)) by (nonlinear_arith);
    } else {
        assert(pow10(0) == 1);
        assert(digits_value(s, a, k) * 1 == digits_value(s, a, k));
    }
}

/// Digits have a value below 10^n.
pub proof fn lemma_digits_bound(s: Seq<char>, a: int, b: int)
    requires
        a <= b,
        all_digits(s, a, b),
    ensures
        digits_value(s, a, b) < pow10((b - a) as nat),
    decreases b - a,
{
    if a < b {
        lemma_digits_bound(s, a, b - 1);
        let v = digits_value(s, a, b - 1);
        let p = pow10((b - 1 - a) as nat);
        let d = ((s[b - 1] as u32) - 48) as nat;
        assert(is_digit(s[b - 1]));
        assert(d <= 9);
        assert(v * 10 + d < 10 * p) by (nonlinear_arith)
            requires
                v < p,
                d <= 9,
        ;
    }
}

/// Digits that start with a non-zero digit have a value of at least 10^(n-1).
pub proof fn lemma_digits_lower_bound(s: Seq<char>, a: int, b: int)
    requires
        a < b,
        all_digits(s, a, b),
        s[a] != '0',
    ensures
        digits_value(s, a, b) >= pow10((b - a - 1) as nat),
{
    lemma_digits_split(s, a, a + 1, b);
    assert(digits_value(s, a, a) == 0);
    assert(is_digit(s[a]));
    let d = digits_value(s, a, a + 1);
    assert(d >= 1);
    let p = pow10((b - a - 1) as nat);
    assert(d * p >= p) by (nonlinear_arith)
        requires
            d >= 1,
    ;
}

/// Leading zeros do not change the value.
pub proof fn lemma_leading_zeros(s: Seq<char>, a: int, z: int, b: int)
    requires
        a <= z <= b,
        forall|k: int| a <= k < z ==> #[trigger] s[k] == '0',
    ensures
        digits_value(s, a, b) == digits_value(s, z, b),
{
    lemma_zeros_value(s, a, z);
    lemma_digits_split(s, a, z, b);
}

pub proof fn lemma_zeros_value(s: Seq<char>, a: int, z: int)
    requires
        a <= z,
        forall|k: int| a <= k < z ==> #[trigger] s[k] == '0',
    ensures
        digits_value(s, a, z) == 0,
    decreases z - a,
{
    if a < z {
        lemma_zeros_value(s, a, z - 1);
        assert(s[z - 1] == '0');
    }
}

/// Equal digits have equal values.
pub proof fn lemma_same_digits(s: Seq<char>, a: int, t: Seq<char>, c: int, n: int)
    requires
        0 <= n,
        forall|i: int| #![trigger s[a + i]] 0 <= i < n ==> s[a + i] == t[c + i],
    ensures
        digits_value(s, a, a + n) == digits_value(t, c, c + n),
    decreases n,
{
    if n > 0 {
        lemma_same_digits(s, a, t, c, n - 1);
        assert(s[a + (n - 1)] == t[c + (n - 1)]);
    }
}

/// Of two digit strings of the same length, the one with the smaller digit
/// at the first difference has the smaller value.
pub proof fn lemma_first_difference(s: Seq<char>, a: int, t: Seq<char>, c: int, i: int, n: int)
    requires
        0 <= i < n,
        all_digits(s, a, a + n),
        all_digits(t, c, c + n),
        forall|j: int| #![trigger s[a + j]] 0 <= j < i ==> s[a + j] == t[c + j],
        s[a + i] < t[c + i],
    ensures
        digits_value(s, a, a + n) < digits_value(t, c, c + n),
{
    lemma_same_digits(s, a, t, c, i);
    lemma_digits_split(s, a, a + i + 1, a + n);
    lemma_digits_split(t, c, c + i + 1, c + n);
    lemma_digits_bound(s, a + i + 1, a + n);
    assert(all_digits(t, c + i + 1, c + n));
    let v = digits_value(s, a, a + i);
    assert(v == digits_value(t, c, c + i));
    assert(is_digit(s[a + i]) && is_digit(t[c + i]));
    let ds = ((s[a + i] as u32) - 48) as nat;
    let dt = ((t[c + i] as u32) - 48) as nat;
    assert(ds < dt);
    let p = pow10((n - i - 1) as nat);
    let rs = digits_value(s, a + i + 1, a + n);
    let rt = digits_value(t, c + i + 1, c + n);
    assert((v * 10 + ds) * p + rs < (v * 10 + dt) * p + rt) by (nonlinear_arith)
        requires
            ds < dt,
            rs < p,
    ;
}

/// The value of the digits `s[a..b]` if it is at most `limit`.
pub fn parse_digits(s: &Vec<char>, a: usize, b: usize, limit: u64) -> (r: Option<u64>)
    requires
        a <= b <= s.len(),
        forall|k: int| a <= k < b ==> is_digit(#[trigger] s@[k]),
    ensures
        r is Some <==> digits_value(s@, a as int, b as int) <= limit,
        r matches Some(v) ==> v == digits_value(s@, a as int, b as int),
{
    let mut v: u64 = 0;
    let mut k = a;
    while k < b
        invariant
            a <= k <= b <= s.len(),
            forall|j: int| a <= j < b ==> is_digit(#[trigger] s@[j]),
            v == digits_value(s@, a as int, k as int),
            v <= limit,
        decreases b - k,
    {
        let d = (s[k] as u32 - 48) as u64;
        assert(is_digit(s@[k as int]));
        let big: u128 = (v as u128) * 10 + (d as u128);
        assert(big == digits_value(s@, a as int, k + 1));
        if big > limit as u128 {
            proof {
                lemma_digits_value_monotone(s@, a as int, k + 1, b as int);
            }
            return None;
        }
        v = big as u64;
        k += 1;
    }
    Some(v)
}

/// Whether the decimal literal with integer part `s[a..b]` (ASCII digits)
/// parses to a finite `f64`.
pub fn int_part_finite(s: &Vec<char>, a: usize, b: usize) -> (r: bool)
    requires
        a <= b <= s.len(),
        forall|k: int| a <= k < b ==> is_digit(#[trigger] s@[k]),
    ensures
        r == (digits_value(s@, a as int, b as int) < f64_overflow()),
{
    let t = str_to_chars("179769313486231580793728971405303415079934132710037826936173778980444968292764750946649017977587207096330286416692887910946555547851940402630657488671505820681908902000708383676273854845817711531764475730270069855571366959622842914819860834936475292719074168444365510704342711559699508093042880177904174497792");
    proof {
        reveal_strlit("179769313486231580793728971405303415079934132710037826936173778980444968292764750946649017977587207096330286416692887910946555547851940402630657488671505820681908902000708383676273854845817711531764475730270069855571366959622842914819860834936475292719074168444365510704342711559699508093042880177904174497792");
        assert(t@ == f64_overflow_digits());
        assert(t@.len() == 309);
        assert(all_digits(t@, 0, 309));
        assert(t@[0] == '1');
        lemma_digits_bound(t@, 0, 309);
        lemma_digits_lower_bound(t@, 0, 309);
    }
    let mut z = a;
    while z < b && s[z] == '0'
        invariant
            a <= z <= b <= s.len(),
            forall|k: int| a <= k < z ==> #[trigger] s@[k] == '0',
        decreases b - z,
    {
        z += 1;
    }
    proof {
        lemma_leading_zeros(s@, a as int, z as int, b as int);
        assert(all_digits(s@, z as int, b as int));
    }
    let n = b - z;
    if n < 309 {
        proof {
            lemma_digits_bound(s@, z as int, b as int);
            lemma_pow10_monotone(n as nat, 308);
        }
        return true;
    }
    if n > 309 {
        proof {
            lemma_digits_lower_bound(s@, z as int, b as int);
            lemma_pow10_monotone(309, (n - 1) as nat);
        }
        return false;
    }
    let mut i: usize = 0;
    while i < 309
        invariant
            n == 309,
            z + 309 == b <= s.len(),
            t@ == f64_overflow_digits(),
            t@.len() == 309,
            all_digits(t@, 0, 309),
            all_digits(s@, z as int, b as int),
            digits_value(s@, a as int, b as int) == digits_value(s@, z as int, b as int),
            i <= 309,
            forall|j: int| #![trigger s@[z + j]] 0 <= j < i ==> s@[z + j] == t@[0 + j],
        decreases 309 - i,
    {
        let cs = s[z + i];
        let ct = t[i];
        if cs < ct {
            proof {
                lemma_first_difference(s@, z as int, t@, 0, i as int, 309);
            }
            return true;
        }
        if cs > ct {
            proof {
                lemma_first_difference(t@, 0, s@, z as int, i as int, 309);
            }
            return false;
        }
        i += 1;
    }
    proof {
        lemma_same_digits(s@, z as int, t@, 0, 309);
    }
    false
}

} // verus!
