//! Fixed-point decimal numbers: a 96-bit signed mantissa with a power-of-ten
//! scale between 0 and 28. The arithmetic itself is done by `rust_decimal`;
//! this module holds the numbers as plain integers and states what each
//! operation returns over the exact rational values.
use crate::text::nat_text;
use vstd::prelude::*;
use vstd::std_specs::cmp::PartialEqSpecImpl;

verus! {

/// The largest mantissa magnitude a decimal can hold (2^96 - 1).
pub open spec fn max_mantissa() -> int {
    79228162514264337593543950335
}

/// The largest scale a decimal can hold.
pub open spec fn max_scale() -> nat {
    28
}

/// 10 to the power `e`.
pub open spec fn pow10(e: nat) -> int
    decreases e,
{
    if e == 0 {
        1
    } else {
        10 * pow10((e - 1) as nat)
    }
}

/// Powers of ten are positive.
pub proof fn lemma_pow10_positive(e: nat)
    ensures
        pow10(e) > 0,
    decreases e,
{
    if e > 0 {
        lemma_pow10_positive((e - 1) as nat);
    }
}

/// When `x < y`, the exact difference `y - x` is at least zero.
pub proof fn lemma_sub_of_smaller_nonneg(y: (int, nat), x: (int, nat))
    requires
        frac_lt(x, y),
    ensures
        frac_ge_int(frac_sub(y, x), 0),
{
    let d = frac_sub(y, x);
    assert((-x.0) * pow10(y.1) == -(x.0 * pow10(y.1))) by (nonlinear_arith);
    assert(0 * pow10(d.1) == 0);
}

/// `x >= 0` is a sign condition on the mantissa.
pub proof fn lemma_ge_zero(x: (int, nat))
    ensures
        frac_ge_int(x, 0) <==> x.0 >= 0,
        frac_le_int(x, 0) <==> x.0 <= 0,
{
    assert(0 * pow10(x.1) == 0);
}

/// The exact sum of two non-negative values is non-negative.
pub proof fn lemma_add_nonneg(a: (int, nat), b: (int, nat))
    requires
        a.0 >= 0,
        b.0 >= 0,
    ensures
        frac_ge_int(frac_add(a, b), 0),
{
    lemma_pow10_positive(a.1);
    lemma_pow10_positive(b.1);
    assert(a.0 * pow10(b.1) >= 0) by (nonlinear_arith)
        requires
            a.0 >= 0,
            pow10(b.1) > 0,
    ;
    assert(b.0 * pow10(a.1) >= 0) by (nonlinear_arith)
        requires
            b.0 >= 0,
            pow10(a.1) > 0,
    ;
    lemma_ge_zero(frac_add(a, b));
}

/// The exact product of two non-negative values is non-negative.
pub proof fn lemma_mul_nonneg(a: (int, nat), b: (int, nat))
    requires
        a.0 >= 0,
        b.0 >= 0,
    ensures
        frac_ge_int(frac_mul(a, b), 0),
{
    assert(a.0 * b.0 >= 0) by (nonlinear_arith)
        requires
            a.0 >= 0,
            b.0 >= 0,
    ;
    lemma_ge_zero(frac_mul(a, b));
}

/// A non-negative value over a positive one has a non-negative quotient.
pub proof fn lemma_quot_nonneg(a: (int, nat), b: (int, nat))
    requires
        a.0 >= 0,
        b.0 > 0,
    ensures
        quot_ge_int(a, b, 0),
{
    lemma_pow10_positive(b.1);
    assert(a.0 * pow10(b.1) >= 0) by (nonlinear_arith)
        requires
            a.0 >= 0,
            pow10(b.1) > 0,
    ;
    assert(0 * (b.0 * pow10(a.1)) == 0);
}

/// A result that rounds a non-negative exact value is non-negative.
pub proof fn lemma_rounds_nonneg(x: (int, nat), exact: (int, nat))
    requires
        rounds_to(x, exact),
        frac_ge_int(exact, 0),
    ensures
        x.0 >= 0,
{
    assert(frac_ge_int(x, 0));
    lemma_ge_zero(x);
}

/// A result that rounds a non-negative exact quotient is non-negative.
pub proof fn lemma_rounds_quot_nonneg(x: (int, nat), a: (int, nat), b: (int, nat))
    requires
        rounds_to_quot(x, a, b),
        a.0 >= 0,
        b.0 > 0,
    ensures
        x.0 >= 0,
{
    lemma_quot_nonneg(a, b);
    assert(frac_ge_int(x, 0));
    lemma_ge_zero(x);
}

/// A view `(m, s)` of a decimal stands for the rational number `m / 10^s`.
/// The same pair type is used for exact intermediate fractions whose scale is unbounded.
pub open spec fn dv_wf(v: (int, nat)) -> bool {
    -max_mantissa() <= v.0 <= max_mantissa() && v.1 <= max_scale()
}

/// Exact sum of two fractions.
pub open spec fn frac_add(a: (int, nat), b: (int, nat)) -> (int, nat) {
    (a.0 * pow10(b.1) + b.0 * pow10(a.1), a.1 + b.1)
}

/// Exact negation.
pub open spec fn frac_neg(a: (int, nat)) -> (int, nat) {
    (-a.0, a.1)
}

/// Exact difference.
pub open spec fn frac_sub(a: (int, nat), b: (int, nat)) -> (int, nat) {
    frac_add(a, frac_neg(b))
}

/// Exact product.
pub open spec fn frac_mul(a: (int, nat), b: (int, nat)) -> (int, nat) {
    (a.0 * b.0, a.1 + b.1)
}

/// Absolute value.
pub open spec fn frac_abs(a: (int, nat)) -> (int, nat) {
    if a.0 < 0 {
        (-a.0, a.1)
    } else {
        a
    }
}

/// Equality of the rational values.
pub open spec fn frac_eq(a: (int, nat), b: (int, nat)) -> bool {
    a.0 * pow10(b.1) == b.0 * pow10(a.1)
}

/// Strict order of the rational values.
pub open spec fn frac_lt(a: (int, nat), b: (int, nat)) -> bool {
    a.0 * pow10(b.1) < b.0 * pow10(a.1)
}

/// Order of the rational values.
pub open spec fn frac_le(a: (int, nat), b: (int, nat)) -> bool {
    a.0 * pow10(b.1) <= b.0 * pow10(a.1)
}

/// `a >= k` for an integer `k`.
pub open spec fn frac_ge_int(a: (int, nat), k: int) -> bool {
    a.0 >= k * pow10(a.1)
}

/// `a <= k` for an integer `k`.
pub open spec fn frac_le_int(a: (int, nat), k: int) -> bool {
    a.0 <= k * pow10(a.1)
}

/// `|a| < 2^96 - 1`: the value lies strictly inside the decimal range.
pub open spec fn frac_in_range(a: (int, nat)) -> bool {
    -max_mantissa() * pow10(a.1) < a.0 < max_mantissa() * pow10(a.1)
}

/// `x` lies between the same integers as `exact`: rounding never moves a
/// value across an integer.
pub open spec fn rounds_to(x: (int, nat), exact: (int, nat)) -> bool {
    forall|k: int|
        #![trigger frac_ge_int(x, k)]
        #![trigger frac_le_int(x, k)]
        (frac_ge_int(exact, k) ==> frac_ge_int(x, k)) && (frac_le_int(exact, k) ==> frac_le_int(
            x,
            k,
        ))
}

/// `a / b >= k` for an integer `k` (false when `b` is zero).
pub open spec fn quot_ge_int(a: (int, nat), b: (int, nat), k: int) -> bool {
    (b.0 > 0 && a.0 * pow10(b.1) >= k * (b.0 * pow10(a.1))) || (b.0 < 0 && a.0 * pow10(b.1) <= k
        * (b.0 * pow10(a.1)))
}

/// `a / b <= k` for an integer `k` (false when `b` is zero).
pub open spec fn quot_le_int(a: (int, nat), b: (int, nat), k: int) -> bool {
    (b.0 > 0 && a.0 * pow10(b.1) <= k * (b.0 * pow10(a.1))) || (b.0 < 0 && a.0 * pow10(b.1) >= k
        * (b.0 * pow10(a.1)))
}

/// `x` lies between the same integers as the exact quotient `a / b`.
pub open spec fn rounds_to_quot(x: (int, nat), a: (int, nat), b: (int, nat)) -> bool {
    forall|k: int|
        #![trigger frac_ge_int(x, k)]
        #![trigger frac_le_int(x, k)]
        (quot_ge_int(a, b, k) ==> frac_ge_int(x, k)) && (quot_le_int(a, b, k) ==> frac_le_int(
            x,
            k,
        ))
}

/// `|a / b| < 2^96 - 1` with `b` nonzero.
pub open spec fn quot_in_range(a: (int, nat), b: (int, nat)) -> bool {
    b.0 != 0 && -max_mantissa() * (b.0 * pow10(a.1)) < a.0 * pow10(b.1) * (if b.0 > 0 {
        1int
    } else {
        -1int
    }) < max_mantissa() * (if b.0 > 0 {
        b.0
    } else {
        -b.0
    }) * pow10(a.1)
}

/// `x` is exactly the quotient `a / b`, with `b` nonzero.
pub open spec fn is_exact_quot(x: (int, nat), a: (int, nat), b: (int, nat)) -> bool {
    b.0 != 0 && x.0 * (b.0 * pow10(a.1)) == a.0 * pow10(b.1) * pow10(x.1)
}

/// Absolute value of an integer.
pub open spec fn int_abs(i: int) -> int {
    if i < 0 {
        -i
    } else {
        i
    }
}

/// `x` is the quotient `a / b` rounded to its own last place: it lies within half a
/// unit of that place of the exact quotient (`b` nonzero).
pub open spec fn quot_near(x: (int, nat), a: (int, nat), b: (int, nat)) -> bool {
    let n = a.0 * pow10(b.1);
    let d = b.0 * pow10(a.1);
    b.0 != 0 && 2 * int_abs(x.0 * d - n * pow10(x.1)) <= int_abs(d)
}

/// `|a / b|` is at most half a unit of the 28th decimal place: the quotient rounds to
/// zero at the finest scale a decimal has.
pub open spec fn quot_below_finest(a: (int, nat), b: (int, nat)) -> bool {
    2 * int_abs(a.0 * pow10(b.1)) * pow10(max_scale()) <= int_abs(b.0 * pow10(a.1))
}

/// Rounding to the last place of `x` does not depend on how the numerator and the
/// denominator are written: equal values give the same quotient.
pub proof fn lemma_quot_near_congruent(
    x: (int, nat),
    n1: (int, nat),
    d1: (int, nat),
    n2: (int, nat),
    d2: (int, nat),
)
    requires
        quot_near(x, n1, d1),
        frac_eq(n1, n2),
        frac_eq(d1, d2),
    ensures
        quot_near(x, n2, d2),
{
    lemma_pow10_positive(n1.1);
    lemma_pow10_positive(n2.1);
    lemma_pow10_positive(d1.1);
    lemma_pow10_positive(d2.1);
    lemma_pow10_positive(x.1);
    let pn1 = pow10(n1.1);
    let pn2 = pow10(n2.1);
    let pd1 = pow10(d1.1);
    let pd2 = pow10(d2.1);
    let px = pow10(x.1);
    let big_n1 = n1.0 * pd1;
    let big_d1 = d1.0 * pn1;
    let big_n2 = n2.0 * pd2;
    let big_d2 = d2.0 * pn2;
    assert(d2.0 != 0) by (nonlinear_arith)
        requires
            d1.0 * pd2 == d2.0 * pd1,
            d1.0 != 0,
            pd2 > 0,
    ;
    assert(big_n1 * big_d2 == (n1.0 * pn2) * (d2.0 * pd1)) by (nonlinear_arith)
        requires
            big_n1 == n1.0 * pd1,
            big_d2 == d2.0 * pn2,
    ;
    assert(big_n2 * big_d1 == (n2.0 * pn1) * (d1.0 * pd2)) by (nonlinear_arith)
        requires
            big_n2 == n2.0 * pd2,
            big_d1 == d1.0 * pn1,
    ;
    assert((n1.0 * pn2) * (d2.0 * pd1) == (n2.0 * pn1) * (d1.0 * pd2));
    let e1 = x.0 * big_d1 - big_n1 * px;
    let e2 = x.0 * big_d2 - big_n2 * px;
    assert(e2 * big_d1 == e1 * big_d2) by (nonlinear_arith)
        requires
            big_n1 * big_d2 == big_n2 * big_d1,
            e1 == x.0 * big_d1 - big_n1 * px,
            e2 == x.0 * big_d2 - big_n2 * px,
    ;
    assert(big_d1 != 0 && big_d2 != 0) by (nonlinear_arith)
        requires
            d1.0 != 0,
            d2.0 != 0,
            pn1 > 0,
            pn2 > 0,
            big_d1 == d1.0 * pn1,
            big_d2 == d2.0 * pn2,
    ;
    assert(int_abs(e2) * int_abs(big_d1) == int_abs(e1) * int_abs(big_d2)) by (nonlinear_arith)
        requires
            e2 * big_d1 == e1 * big_d2,
    ;
    assert(2 * int_abs(e2) <= int_abs(big_d2)) by (nonlinear_arith)
        requires
            int_abs(e2) * int_abs(big_d1) == int_abs(e1) * int_abs(big_d2),
            2 * int_abs(e1) <= int_abs(big_d1),
            int_abs(big_d1) > 0,
            int_abs(big_d2) > 0,
    ;
}

/// Powers of ten multiply by adding exponents.
pub proof fn lemma_pow10_add(a: nat, b: nat)
    ensures
        pow10(a + b) == pow10(a) * pow10(b),
    decreases b,
{
    if b > 0 {
        lemma_pow10_add(a, (b - 1) as nat);
        assert(pow10(a + b) == 10 * pow10((a + b - 1) as nat));
        assert(pow10(b) == 10 * pow10((b - 1) as nat));
        assert(pow10(a) * (10 * pow10((b - 1) as nat)) == 10 * (pow10(a) * pow10((b - 1) as nat)))
            by (nonlinear_arith);
    }
}

/// Every value equals itself.
pub proof fn lemma_frac_eq_refl(x: (int, nat))
    ensures
        frac_eq(x, x),
{
}

/// Value equality is transitive.
pub proof fn lemma_frac_eq_trans(x: (int, nat), y: (int, nat), z: (int, nat))
    requires
        frac_eq(x, y),
        frac_eq(y, z),
    ensures
        frac_eq(x, z),
{
    lemma_pow10_positive(x.1);
    lemma_pow10_positive(y.1);
    lemma_pow10_positive(z.1);
    let px = pow10(x.1);
    let py = pow10(y.1);
    let pz = pow10(z.1);
    assert(x.0 * pz * py == z.0 * px * py) by (nonlinear_arith)
        requires
            x.0 * py == y.0 * px,
            y.0 * pz == z.0 * py,
    ;
    assert(x.0 * pz == z.0 * px) by (nonlinear_arith)
        requires
            x.0 * pz * py == z.0 * px * py,
            py > 0,
    ;
}

/// Products of equal values are equal.
pub proof fn lemma_frac_mul_congruent(a1: (int, nat), a2: (int, nat), b1: (int, nat), b2: (int, nat))
    requires
        frac_eq(a1, a2),
        frac_eq(b1, b2),
    ensures
        frac_eq(frac_mul(a1, b1), frac_mul(a2, b2)),
{
    lemma_pow10_add(a1.1, b1.1);
    lemma_pow10_add(a2.1, b2.1);
    let (pa1, pa2, pb1, pb2) = (pow10(a1.1), pow10(a2.1), pow10(b1.1), pow10(b2.1));
    assert((a1.0 * b1.0) * (pa2 * pb2) == (a1.0 * pa2) * (b1.0 * pb2)) by (nonlinear_arith);
    assert((a2.0 * b2.0) * (pa1 * pb1) == (a2.0 * pa1) * (b2.0 * pb1)) by (nonlinear_arith);
    assert((a1.0 * pa2) * (b1.0 * pb2) == (a2.0 * pa1) * (b2.0 * pb1));
}

/// `(a * b + c * d) * (e * f) == (a * e) * (b * f) + (c * f) * (d * e)`.
proof fn lemma_spread_sum(a: int, b: int, c: int, d: int, e: int, f: int)
    ensures
        (a * b + c * d) * (e * f) == (a * e) * (b * f) + (c * f) * (d * e),
{
    assert((a * b + c * d) * (e * f) == (a * b) * (e * f) + (c * d) * (e * f)) by (nonlinear_arith);
    assert((a * b) * (e * f) == (a * e) * (b * f)) by (nonlinear_arith);
    assert((c * d) * (e * f) == (c * f) * (d * e)) by (nonlinear_arith);
}

/// Sums of equal values are equal.
pub proof fn lemma_frac_add_congruent(a1: (int, nat), a2: (int, nat), b1: (int, nat), b2: (int, nat))
    requires
        frac_eq(a1, a2),
        frac_eq(b1, b2),
    ensures
        frac_eq(frac_add(a1, b1), frac_add(a2, b2)),
{
    lemma_pow10_add(a1.1, b1.1);
    lemma_pow10_add(a2.1, b2.1);
    let (pa1, pa2, pb1, pb2) = (pow10(a1.1), pow10(a2.1), pow10(b1.1), pow10(b2.1));
    lemma_spread_sum(a1.0, pb1, b1.0, pa1, pa2, pb2);
    lemma_spread_sum(a2.0, pb2, b2.0, pa2, pa1, pb1);
    assert((a2.0 * pa1) * (pb2 * pb1) == (a2.0 * pa1) * (pb1 * pb2)) by (nonlinear_arith);
    assert((b2.0 * pb1) * (pa2 * pa1) == (b2.0 * pb1) * (pa1 * pa2)) by (nonlinear_arith);
    assert((a1.0 * pa2) * (pb1 * pb2) == (a2.0 * pa1) * (pb1 * pb2));
    assert((b1.0 * pb2) * (pa1 * pa2) == (b2.0 * pb1) * (pa1 * pa2));
}

/// The larger of two scales.
pub open spec fn max_nat(a: nat, b: nat) -> nat {
    if a >= b {
        a
    } else {
        b
    }
}

/// The mantissa of `a + b` written at the larger of the two scales, with no rounding.
pub open spec fn aligned_sum(a: (int, nat), b: (int, nat)) -> int {
    let s = max_nat(a.1, b.1);
    a.0 * pow10((s - a.1) as nat) + b.0 * pow10((s - b.1) as nat)
}

/// The view of an optional decimal.
pub open spec fn opt_view(o: Option<Decimal>) -> Option<(int, nat)> {
    match o {
        Some(d) => Some(d@),
        None => None,
    }
}

/// What `rust_decimal`'s checked addition returns, as a function of the operands' views.
pub uninterp spec fn decimal_checked_add(a: (int, nat), b: (int, nat)) -> Option<(int, nat)>;

/// What `rust_decimal`'s checked subtraction returns.
pub uninterp spec fn decimal_checked_sub(a: (int, nat), b: (int, nat)) -> Option<(int, nat)>;

/// What `rust_decimal`'s checked multiplication returns.
pub uninterp spec fn decimal_checked_mul(a: (int, nat), b: (int, nat)) -> Option<(int, nat)>;

/// What `rust_decimal`'s checked division returns.
pub uninterp spec fn decimal_checked_div(a: (int, nat), b: (int, nat)) -> Option<(int, nat)>;

/// `n` zeros.
pub open spec fn zeros(n: nat) -> Seq<char> {
    Seq::new(n, |i: int| '0')
}

/// The digits of a magnitude as `rust_decimal` prints them: none for zero.
pub open spec fn magnitude_digits(n: nat) -> Seq<char> {
    if n == 0 {
        Seq::empty()
    } else {
        nat_text(n)
    }
}

/// The text `rust_decimal` prints for `m / 10^s`: a minus sign for a negative value, then
/// the digits of `|m|` with a point `s` digits from the right (left-padded with zeros to
/// at least `s` digits, and a `0` before a leading point); trailing zeros are kept, and
/// zero at scale 0 is `0`.
#[verifier::opaque]
pub open spec fn decimal_text(a: (int, nat)) -> Seq<char> {
    let mag: nat = if a.0 < 0 {
        (-a.0) as nat
    } else {
        a.0 as nat
    };
    let d = magnitude_digits(mag);
    let padded = if d.len() < a.1 {
        zeros((a.1 - d.len()) as nat) + d
    } else {
        d
    };
    let split = padded.len() - a.1;
    let body = if a.1 == 0 {
        if d.len() == 0 {
            seq!['0']
        } else {
            d
        }
    } else {
        (if split == 0 {
            seq!['0']
        } else {
            padded.subrange(0, split)
        }) + seq!['.'] + padded.subrange(split, padded.len() as int)
    };
    if a.0 < 0 {
        seq!['-'] + body
    } else {
        body
    }
}

/// What `rust_decimal` parses from a string: the value, or the message (`Display` text)
/// of its error.
pub uninterp spec fn decimal_from_str(s: Seq<char>) -> Result<(int, nat), Seq<char>>;

/// The value `rust_decimal` parses from a string, if any.
pub open spec fn decimal_parse(s: Seq<char>) -> Option<(int, nat)> {
    match decimal_from_str(s) {
        Ok(x) => Some(x),
        Err(_) => None,
    }
}

/// The message of the error `rust_decimal` reports for a string it cannot parse.
pub open spec fn decimal_parse_error(s: Seq<char>) -> Seq<char> {
    match decimal_from_str(s) {
        Ok(_) => Seq::empty(),
        Err(e) => e,
    }
}

/// A decimal number `mantissa / 10^scale`.
#[derive(Clone, Copy, Debug)]
pub struct Decimal {
    mantissa: i128,
    scale: u32,
}

impl View for Decimal {
    type V = (int, nat);

    closed spec fn view(&self) -> (int, nat) {
        (self.mantissa as int, self.scale as nat)
    }
}

impl Decimal {
    #[verifier::type_invariant]
    spec fn inv(self) -> bool {
        dv_wf(self@)
    }

    /// Every decimal's view is well formed.
    pub fn check_wf(&self)
        ensures
            dv_wf(self@),
    {
        proof {
            use_type_invariant(self);
        }
    }

    /// `mantissa / 10^scale`, for a mantissa of at most 96 bits and a scale of at most 28.
    pub fn from_parts(mantissa: i128, scale: u32) -> (r: Decimal)
        requires
            dv_wf((mantissa as int, scale as nat)),
        ensures
            r@ == (mantissa as int, scale as nat),
    {
        Decimal { mantissa, scale }
    }

    /// `num / 10^scale`.
    pub fn new(num: i64, scale: u32) -> (r: Decimal)
        requires
            scale <= 28,
        ensures
            r@ == (num as int, scale as nat),
    {
        Decimal { mantissa: num as i128, scale }
    }

    /// The integer `n`.
    pub fn from_int(n: i64) -> (r: Decimal)
        ensures
            r@ == (n as int, 0nat),
    {
        Decimal { mantissa: n as i128, scale: 0 }
    }

    /// The integer `n`.
    pub fn from_u64(n: u64) -> (r: Decimal)
        ensures
            r@ == (n as int, 0nat),
    {
        Decimal { mantissa: n as i128, scale: 0 }
    }

    /// Zero.
    pub fn zero() -> (r: Decimal)
        ensures
            r@ == (0int, 0nat),
    {
        Decimal { mantissa: 0, scale: 0 }
    }

    /// One.
    pub fn one() -> (r: Decimal)
        ensures
            r@ == (1int, 0nat),
    {
        Decimal { mantissa: 1, scale: 0 }
    }

    pub fn mantissa(&self) -> (r: i128)
        ensures
            r == self@.0,
    {
        self.mantissa
    }

    pub fn scale(&self) -> (r: u32)
        ensures
            r == self@.1,
    {
        self.scale
    }

    /// The negated value.
    pub fn neg(&self) -> (r: Decimal)
        ensures
            r@ == frac_neg(self@),
    {
        proof {
            use_type_invariant(self);
        }
        Decimal { mantissa: -self.mantissa, scale: self.scale }
    }

    /// The absolute value.
    pub fn abs(&self) -> (r: Decimal)
        ensures
            r@ == frac_abs(self@),
    {
        proof {
            use_type_invariant(self);
        }
        if self.mantissa < 0 {
            Decimal { mantissa: -self.mantissa, scale: self.scale }
        } else {
            *self
        }
    }

    /// Is the value zero?
    pub fn is_zero(&self) -> (r: bool)
        ensures
            r == (self@.0 == 0),
    {
        self.mantissa == 0
    }

    /// Is the value below zero?
    pub fn is_negative(&self) -> (r: bool)
        ensures
            r == (self@.0 < 0),
    {
        self.mantissa < 0
    }

    /// Is the value above zero?
    pub fn is_positive(&self) -> (r: bool)
        ensures
            r == (self@.0 > 0),
    {
        self.mantissa > 0
    }

    /// Addition; `None` where `rust_decimal` reports an overflow.
    pub fn checked_add(&self, other: &Decimal) -> (r: Option<Decimal>)
        ensures
            opt_view(r) == decimal_checked_add(self@, other@),
            r matches Some(x) ==> rounds_to(x@, frac_add(self@, other@)),
            frac_in_range(frac_add(self@, other@)) ==> r is Some,
            -max_mantissa() <= aligned_sum(self@, other@) <= max_mantissa() ==> r is Some
                && frac_eq(r->0@, frac_add(self@, other@)),
            r is Some <==> decimal_checked_add(other@, self@) is Some,
            r matches Some(x) ==> frac_eq(x@, decimal_checked_add(other@, self@)->0),
    {
        proof {
            use_type_invariant(self);
            use_type_invariant(other);
        }
        add_decimals(self, other)
    }

    /// Subtraction; `None` where `rust_decimal` reports an overflow.
    pub fn checked_sub(&self, other: &Decimal) -> (r: Option<Decimal>)
        ensures
            opt_view(r) == decimal_checked_sub(self@, other@),
            r matches Some(x) ==> rounds_to(x@, frac_sub(self@, other@)),
            frac_in_range(frac_sub(self@, other@)) ==> r is Some,
            -max_mantissa() <= aligned_sum(self@, frac_neg(other@)) <= max_mantissa() ==> r is Some
                && frac_eq(r->0@, frac_sub(self@, other@)),
    {
        proof {
            use_type_invariant(self);
            use_type_invariant(other);
        }
        sub_decimals(self, other)
    }

    /// Multiplication; `None` where `rust_decimal` reports an overflow.
    pub fn checked_mul(&self, other: &Decimal) -> (r: Option<Decimal>)
        ensures
            opt_view(r) == decimal_checked_mul(self@, other@),
            r matches Some(x) ==> rounds_to(x@, frac_mul(self@, other@)),
            frac_in_range(frac_mul(self@, other@)) ==> r is Some,
            self@.1 + other@.1 <= max_scale() && -max_mantissa() <= self@.0 * other@.0
                <= max_mantissa() ==> r is Some && frac_eq(r->0@, frac_mul(self@, other@)),
    {
        proof {
            use_type_invariant(self);
            use_type_invariant(other);
        }
        mul_decimals(self, other)
    }

    /// Division; `None` for a zero divisor or where `rust_decimal` reports an overflow.
    pub fn checked_div(&self, other: &Decimal) -> (r: Option<Decimal>)
        ensures
            opt_view(r) == decimal_checked_div(self@, other@),
            other@.0 == 0 ==> r is None,
            r matches Some(x) ==> rounds_to_quot(x@, self@, other@),
            quot_in_range(self@, other@) ==> r is Some,
            forall|x: (int, nat)|
                #[trigger] is_exact_quot(x, self@, other@) && dv_wf(x) ==> r is Some && frac_eq(
                    r->0@,
                    x,
                ),
            r matches Some(x) ==> quot_near(x@, self@, other@),
            r matches Some(x) && x@.0 == 0 ==> quot_below_finest(self@, other@),
    {
        proof {
            use_type_invariant(self);
            use_type_invariant(other);
        }
        div_decimals(self, other)
    }

    /// `self < other` by value.
    pub fn lt(&self, other: &Decimal) -> (r: bool)
        ensures
            r == frac_lt(self@, other@),
    {
        proof {
            use_type_invariant(self);
            use_type_invariant(other);
        }
        less_than(self, other)
    }

    /// `self <= other` by value.
    pub fn le(&self, other: &Decimal) -> (r: bool)
        ensures
            r == frac_le(self@, other@),
    {
        proof {
            use_type_invariant(self);
            use_type_invariant(other);
        }
        !less_than(other, self)
    }

    /// `self == other` by value (`1.0` equals `1.00`).
    pub fn eq_value(&self, other: &Decimal) -> (r: bool)
        ensures
            r == frac_eq(self@, other@),
    {
        proof {
            use_type_invariant(self);
            use_type_invariant(other);
        }
        equal_values(self, other)
    }

    /// The decimal as `rust_decimal` prints it.
    pub fn to_text(&self) -> (r: String)
        ensures
            r@ == decimal_text(self@),
    {
        proof {
            use_type_invariant(self);
        }
        display_decimal(self)
    }

    /// Parses a decimal as `rust_decimal` does; `None` where it reports an error.
    pub fn parse(s: &str) -> (r: Option<Decimal>)
        ensures
            opt_view(r) == decimal_parse(s@),
    {
        match parse_decimal(s) {
            Ok(x) => Some(x),
            Err(_) => None,
        }
    }

    /// Parses a decimal as `rust_decimal` does; where it cannot, the message of its error.
    pub fn parse_with_error(s: &str) -> (r: Result<Decimal, String>)
        ensures
            match r {
                Ok(x) => decimal_parse(s@) == Some(x@),
                Err(t) => decimal_parse(s@) is None && t@ == decimal_parse_error(s@),
            },
    {
        parse_decimal(s)
    }
}

impl PartialEq for Decimal {
    /// Equality by value: `1.0 == 1.00`.
    fn eq(&self, other: &Self) -> (r: bool) {
        self.eq_value(other)
    }
}

impl PartialEqSpecImpl for Decimal {
    open spec fn obeys_eq_spec() -> bool {
        true
    }

    open spec fn eq_spec(&self, other: &Self) -> bool {
        frac_eq(self@, other@)
    }
}

/// Calls `rust_decimal::Decimal::checked_add`. Claimed: the result is named by
/// `decimal_checked_add`; a result lies between the same integers as the exact sum
/// (it is the exact sum rounded at some scale); there is no overflow when the exact
/// sum lies inside the range; the sum is exact when it fits at the larger scale; and
/// the operands' order changes neither whether it overflows nor the value (the two
/// operands are aligned by scale, not by position; with two zeros only the scale of
/// the zero that comes back differs).
#[verifier::external_body]
fn add_decimals(a: &Decimal, b: &Decimal) -> (r: Option<Decimal>)
    requires
        dv_wf(a@),
        dv_wf(b@),
    ensures
        opt_view(r) == decimal_checked_add(a@, b@),
        r matches Some(x) ==> rounds_to(x@, frac_add(a@, b@)),
        frac_in_range(frac_add(a@, b@)) ==> r is Some,
        -max_mantissa() <= aligned_sum(a@, b@) <= max_mantissa() ==> r is Some && frac_eq(
            r->0@,
            frac_add(a@, b@),
        ),
        r is Some <==> decimal_checked_add(b@, a@) is Some,
        r matches Some(x) ==> frac_eq(x@, decimal_checked_add(b@, a@)->0),
{
    let x = rust_decimal::Decimal::from_i128_with_scale(a.mantissa, a.scale);
    let y = rust_decimal::Decimal::from_i128_with_scale(b.mantissa, b.scale);
    match x.checked_add(y) {
        Some(z) => Some(Decimal { mantissa: z.mantissa(), scale: z.scale() }),
        None => None,
    }
}

/// Calls `rust_decimal::Decimal::checked_sub`. Claimed as for `add_decimals`, of the
/// exact difference.
#[verifier::external_body]
fn sub_decimals(a: &Decimal, b: &Decimal) -> (r: Option<Decimal>)
    requires
        dv_wf(a@),
        dv_wf(b@),
    ensures
        opt_view(r) == decimal_checked_sub(a@, b@),
        r matches Some(x) ==> rounds_to(x@, frac_sub(a@, b@)),
        frac_in_range(frac_sub(a@, b@)) ==> r is Some,
        -max_mantissa() <= aligned_sum(a@, frac_neg(b@)) <= max_mantissa() ==> r is Some
            && frac_eq(r->0@, frac_sub(a@, b@)),
{
    let x = rust_decimal::Decimal::from_i128_with_scale(a.mantissa, a.scale);
    let y = rust_decimal::Decimal::from_i128_with_scale(b.mantissa, b.scale);
    match x.checked_sub(y) {
        Some(z) => Some(Decimal { mantissa: z.mantissa(), scale: z.scale() }),
        None => None,
    }
}

/// Calls `rust_decimal::Decimal::checked_mul`. Claimed: the result is named by
/// `decimal_checked_mul`; it lies between the same integers as the exact product; no
/// overflow when the exact product lies inside the range; exact when the product of the
/// mantissas fits and the scales add up to at most 28.
#[verifier::external_body]
fn mul_decimals(a: &Decimal, b: &Decimal) -> (r: Option<Decimal>)
    requires
        dv_wf(a@),
        dv_wf(b@),
    ensures
        opt_view(r) == decimal_checked_mul(a@, b@),
        r matches Some(x) ==> rounds_to(x@, frac_mul(a@, b@)),
        frac_in_range(frac_mul(a@, b@)) ==> r is Some,
        a@.1 + b@.1 <= max_scale() && -max_mantissa() <= a@.0 * b@.0 <= max_mantissa() ==> r is Some
            && frac_eq(r->0@, frac_mul(a@, b@)),
{
    let x = rust_decimal::Decimal::from_i128_with_scale(a.mantissa, a.scale);
    let y = rust_decimal::Decimal::from_i128_with_scale(b.mantissa, b.scale);
    match x.checked_mul(y) {
        Some(z) => Some(Decimal { mantissa: z.mantissa(), scale: z.scale() }),
        None => None,
    }
}

/// Calls `rust_decimal::Decimal::checked_div`. Claimed: the result is named by
/// `decimal_checked_div`; `None` for a zero divisor; a result lies between the same
/// integers as the exact quotient; no overflow when the exact quotient lies inside the
/// range; a quotient that is itself a decimal (at most 28 places, a 96-bit mantissa)
/// comes back exactly; a result is the exact quotient rounded to its own last place
/// (the long division stops at 28 places or at a full mantissa and rounds half to even,
/// and dropping trailing zeros afterwards keeps the value); and a zero result comes only
/// from a quotient that rounds to zero at 28 places.
#[verifier::external_body]
fn div_decimals(a: &Decimal, b: &Decimal) -> (r: Option<Decimal>)
    requires
        dv_wf(a@),
        dv_wf(b@),
    ensures
        opt_view(r) == decimal_checked_div(a@, b@),
        b@.0 == 0 ==> r is None,
        r matches Some(x) ==> rounds_to_quot(x@, a@, b@),
        quot_in_range(a@, b@) ==> r is Some,
        forall|x: (int, nat)|
            #[trigger] is_exact_quot(x, a@, b@) && dv_wf(x) ==> r is Some && frac_eq(r->0@, x),
        r matches Some(x) ==> quot_near(x@, a@, b@),
        r matches Some(x) && x@.0 == 0 ==> quot_below_finest(a@, b@),
{
    let x = rust_decimal::Decimal::from_i128_with_scale(a.mantissa, a.scale);
    let y = rust_decimal::Decimal::from_i128_with_scale(b.mantissa, b.scale);
    match x.checked_div(y) {
        Some(z) => Some(Decimal { mantissa: z.mantissa(), scale: z.scale() }),
        None => None,
    }
}

/// Calls `<` on `rust_decimal::Decimal`, which orders by numeric value.
#[verifier::external_body]
fn less_than(a: &Decimal, b: &Decimal) -> (r: bool)
    requires
        dv_wf(a@),
        dv_wf(b@),
    ensures
        r == frac_lt(a@, b@),
{
    let x = rust_decimal::Decimal::from_i128_with_scale(a.mantissa, a.scale);
    let y = rust_decimal::Decimal::from_i128_with_scale(b.mantissa, b.scale);
    x < y
}

/// Calls `==` on `rust_decimal::Decimal`, which compares numeric values.
#[verifier::external_body]
fn equal_values(a: &Decimal, b: &Decimal) -> (r: bool)
    requires
        dv_wf(a@),
        dv_wf(b@),
    ensures
        r == frac_eq(a@, b@),
{
    let x = rust_decimal::Decimal::from_i128_with_scale(a.mantissa, a.scale);
    let y = rust_decimal::Decimal::from_i128_with_scale(b.mantissa, b.scale);
    x == y
}

/// Calls `to_string` (the `Display` impl) of `rust_decimal::Decimal`, which prints the
/// text `decimal_text` states (sign, digits, point, trailing zeros kept).
#[verifier::external_body]
fn display_decimal(a: &Decimal) -> (r: String)
    requires
        dv_wf(a@),
    ensures
        r@ == decimal_text(a@),
{
    rust_decimal::Decimal::from_i128_with_scale(a.mantissa, a.scale).to_string()
}

/// Calls `rust_decimal::Decimal::from_str`; the result (the value, or the `Display` text
/// of the error) is named by `decimal_from_str`.
#[verifier::external_body]
fn parse_decimal(s: &str) -> (r: Result<Decimal, String>)
    ensures
        match r {
            Ok(x) => decimal_from_str(s@) == Ok::<(int, nat), Seq<char>>(x@) && dv_wf(x@),
            Err(t) => decimal_from_str(s@) == Err::<(int, nat), Seq<char>>(t@),
        },
{
    match <rust_decimal::Decimal as std::str::FromStr>::from_str(s) {
        Ok(z) => Ok(Decimal { mantissa: z.mantissa(), scale: z.scale() }),
        Err(e) => Err(e.to_string()),
    }
}

} // verus!
