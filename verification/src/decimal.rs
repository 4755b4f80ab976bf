//! `Dec`: the library's own fixed-point decimal, holding exactly what a
//! `rust_decimal::Decimal` holds (a 96-bit signed mantissa and a scale of at
//! most 28), so that contracts can speak of it as plain integers.
//!
//! Every arithmetic operation is computed by `rust_decimal` itself, through
//! the trusted wrappers below; each wrapper's result is named by an
//! uninterpreted spec function over the `(mantissa, scale)` views of its
//! arguments, plus the few facts that `rust_decimal`'s source shows plainly.
use rust_decimal::prelude::ToPrimitive;
use rust_decimal::Decimal;
use rust_decimal::MathematicalOps;
use vstd::arithmetic::power::pow;
use vstd::prelude::*;

verus! {

/// Largest mantissa magnitude a decimal can hold: `2^96 - 1`.
pub const MAX_MANTISSA: i128 = 79228162514264337593543950335;

/// Largest scale (number of digits after the point) a decimal can hold.
pub const MAX_SCALE: u32 = 28;

/// A decimal number `mantissa / 10^scale`.
#[derive(Debug)]
pub struct Dec {
    mantissa: i128,
    scale: u32,
}

/// `10^n`.
pub open spec fn pow10(n: int) -> int {
    pow(10, n as nat)
}

/// `10^n` is positive.
pub proof fn lemma_pow10_pos(n: int)
    ensures
        pow10(n) > 0,
{
    vstd::arithmetic::power::lemma_pow_positive(10, n as nat);
}

/// A `(mantissa, scale)` pair lies in the range a decimal can hold.
pub open spec fn in_range(v: (int, int)) -> bool {
    -MAX_MANTISSA <= v.0 <= MAX_MANTISSA && 0 <= v.1 <= MAX_SCALE
}

/// The numeric value of `a` is strictly below that of `b`.
pub open spec fn value_lt(a: (int, int), b: (int, int)) -> bool {
    a.0 * pow10(b.1) < b.0 * pow10(a.1)
}

/// The numeric value of `a` is at most that of `b`.
pub open spec fn value_le(a: (int, int), b: (int, int)) -> bool {
    !value_lt(b, a)
}

/// `a` and `b` denote the same number (possibly at different scales).
pub open spec fn value_eq(a: (int, int), b: (int, int)) -> bool {
    a.0 * pow10(b.1) == b.0 * pow10(a.1)
}

/// The view of an optional decimal.
pub open spec fn ov(o: Option<Dec>) -> Option<(int, int)> {
    match o {
        Some(d) => Some(d@),
        None => None,
    }
}

impl View for Dec {
    type V = (int, int);

    closed spec fn view(&self) -> (int, int) {
        (self.mantissa as int, self.scale as int)
    }
}

/// The decimal whose view is `v`.
pub closed spec fn dec_of(v: (int, int)) -> Dec {
    Dec { mantissa: v.0 as i128, scale: v.1 as u32 }
}

/// `dec_of` has the view it was given, for an in-range pair.
pub proof fn lemma_dec_of(v: (int, int))
    requires
        in_range(v),
    ensures
        dec_of(v)@ == v,
{
}

impl Dec {
    #[verifier::type_invariant]
    closed spec fn wf(self) -> bool {
        -MAX_MANTISSA <= self.mantissa <= MAX_MANTISSA && self.scale <= MAX_SCALE
    }

    /// Two decimals with the same view are the same decimal.
    pub proof fn lemma_ext(a: Dec, b: Dec)
        requires
            a@ == b@,
        ensures
            a == b,
    {
    }

    /// Builds `mantissa / 10^scale`, or `None` if the pair is out of range.
    pub fn new(mantissa: i128, scale: u32) -> (r: Option<Dec>)
        ensures
            r is Some <==> in_range((mantissa as int, scale as int)),
            r matches Some(d) ==> d@ == (mantissa as int, scale as int),
    {
        if -MAX_MANTISSA <= mantissa && mantissa <= MAX_MANTISSA && scale <= MAX_SCALE {
            Some(Dec { mantissa, scale })
        } else {
            None
        }
    }

    /// Builds `mantissa / 10^scale` from an in-range pair.
    pub fn lit(mantissa: i128, scale: u32) -> (r: Dec)
        requires
            in_range((mantissa as int, scale as int)),
        ensures
            r@ == (mantissa as int, scale as int),
            r == dec_of((mantissa as int, scale as int)),
    {
        Dec { mantissa, scale }
    }

    /// The mantissa.
    pub fn mantissa(&self) -> (r: i128)
        ensures
            r == self@.0,
            -MAX_MANTISSA <= r <= MAX_MANTISSA,
    {
        proof {
            use_type_invariant(self);
        }
        self.mantissa
    }

    /// The scale.
    pub fn scale(&self) -> (r: u32)
        ensures
            r == self@.1,
            r <= MAX_SCALE,
    {
        proof {
            use_type_invariant(self);
        }
        self.scale
    }

    /// Zero.
    pub fn zero() -> (r: Dec)
        ensures
            r@ == (0int, 0int),
    {
        Dec { mantissa: 0, scale: 0 }
    }

    /// One.
    pub fn one() -> (r: Dec)
        ensures
            r@ == (1int, 0int),
    {
        Dec { mantissa: 1, scale: 0 }
    }

    /// Two.
    pub fn two() -> (r: Dec)
        ensures
            r@ == (2int, 0int),
    {
        Dec { mantissa: 2, scale: 0 }
    }

    /// The largest decimal, `2^96 - 1`.
    pub fn max_value() -> (r: Dec)
        ensures
            r@ == (MAX_MANTISSA as int, 0int),
    {
        Dec { mantissa: MAX_MANTISSA, scale: 0 }
    }

    /// The smallest decimal, `-(2^96 - 1)`.
    pub fn min_value() -> (r: Dec)
        ensures
            r@ == (-MAX_MANTISSA as int, 0int),
    {
        Dec { mantissa: -MAX_MANTISSA, scale: 0 }
    }

    /// The integer `n` as a decimal.
    pub fn from_u64(n: u64) -> (r: Dec)
        ensures
            r@ == (n as int, 0int),
    {
        Dec { mantissa: n as i128, scale: 0 }
    }

    /// `self > 0`.
    pub fn is_positive(&self) -> (r: bool)
        ensures
            r == (self@.0 > 0),
    {
        self.mantissa > 0
    }

    /// `self < 0`.
    pub fn is_negative(&self) -> (r: bool)
        ensures
            r == (self@.0 < 0),
    {
        self.mantissa < 0
    }

    /// `self == 0`.
    pub fn is_zero(&self) -> (r: bool)
        ensures
            r == (self@.0 == 0),
    {
        self.mantissa == 0
    }

    /// The absolute value (exact).
    pub fn abs(&self) -> (r: Dec)
        ensures
            r@ == (if self@.0 < 0 { -self@.0 } else { self@.0 }, self@.1),
    {
        proof {
            use_type_invariant(self);
        }
        if self.mantissa < 0 {
            Dec { mantissa: -self.mantissa, scale: self.scale }
        } else {
            Dec { mantissa: self.mantissa, scale: self.scale }
        }
    }

    /// A copy of `self`.
    pub fn copy(&self) -> (r: Dec)
        ensures
            r@ == self@,
    {
        proof {
            use_type_invariant(self);
        }
        Dec { mantissa: self.mantissa, scale: self.scale }
    }

    /// Parses decimal text as `rust_decimal` does; `None` where it fails.
    pub fn parse(s: &str) -> (r: Option<Dec>)
        ensures
            ov(r) == decimal_from_str(s@),
    {
        match dec_from_str(s) {
            Ok(d) => Some(d),
            Err(_) => None,
        }
    }

    /// Parses decimal text as `rust_decimal` does; where it fails, the text
    /// of `rust_decimal`'s error.
    pub fn parse_or_error(s: &str) -> (r: Result<Dec, String>)
        ensures
            match r {
                Ok(d) => decimal_from_str(s@) == Some(d@),
                Err(t) => decimal_from_str(s@) is None && t@ == decimal_parse_error(s@),
            },
    {
        dec_from_str(s)
    }

    /// The decimal's text, as `rust_decimal` writes it.
    pub fn to_text(&self) -> (r: String)
        ensures
            r@ == decimal_to_string(self@),
    {
        dec_to_string(self)
    }

    /// The smaller of `self` and `other` (`self` when they compare equal),
    /// as `Decimal::min` computes it.
    pub fn min(&self, other: &Dec) -> (r: Dec)
        ensures
            r@ == (if value_lt(other@, self@) { other@ } else { self@ }),
    {
        if dec_lt(other, self) {
            other.copy()
        } else {
            self.copy()
        }
    }

    /// The larger of `self` and `other` (`self` when they compare equal),
    /// as `Decimal::max` computes it.
    pub fn max(&self, other: &Dec) -> (r: Dec)
        ensures
            r@ == (if value_lt(self@, other@) { other@ } else { self@ }),
    {
        if dec_lt(self, other) {
            other.copy()
        } else {
            self.copy()
        }
    }
}

impl Clone for Dec {
    fn clone(&self) -> (r: Dec)
        ensures
            r@ == self@,
    {
        self.copy()
    }
}

impl PartialEq for Dec {
    fn eq(&self, other: &Dec) -> (r: bool) {
        dec_eq(self, other)
    }
}

impl vstd::std_specs::cmp::PartialEqSpecImpl for Dec {
    open spec fn obeys_eq_spec() -> bool {
        true
    }

    open spec fn eq_spec(&self, other: &Dec) -> bool {
        value_eq(self@, other@)
    }
}

/// What `rust_decimal`'s `checked_add` returns.
pub uninterp spec fn decimal_add(a: (int, int), b: (int, int)) -> Option<(int, int)>;

/// What `rust_decimal`'s `checked_sub` returns.
pub uninterp spec fn decimal_sub(a: (int, int), b: (int, int)) -> Option<(int, int)>;

/// What `rust_decimal`'s `checked_mul` returns.
pub uninterp spec fn decimal_mul(a: (int, int), b: (int, int)) -> Option<(int, int)>;

/// What `rust_decimal`'s `checked_div` returns.
pub uninterp spec fn decimal_div(a: (int, int), b: (int, int)) -> Option<(int, int)>;

/// The most rounds of the square-root iteration: `rust_decimal`'s `sqrt`
/// gives up (by panicking) on the thousandth.
pub const SQRT_MAX_ROUNDS: u32 = 999;

/// The square-root iteration from `(last, result)`, with at most `rounds`
/// rounds left: while `last` and `result` differ in value, replace them by
/// `result` and `(result + a / result) / 2`. `None` where a step fails or
/// the rounds run out.
pub open spec fn sqrt_loop(a: (int, int), last: (int, int), result: (int, int), rounds: nat) -> Option<
    (int, int),
>
    decreases rounds,
{
    if value_eq(last, result) {
        Some(result)
    } else if rounds == 0 {
        None
    } else {
        match s_div(s_add(Some(result), s_div(Some(a), Some(result))), Some((2, 0))) {
            None => None,
            Some(next) => sqrt_loop(a, result, next, (rounds - 1) as nat),
        }
    }
}

/// The square root as `rust_decimal`'s `sqrt` computes it: `None` for a
/// negative argument, zero for zero, else Newton's iteration from `a / 2`
/// (or `a` itself where `a / 2` is zero), started with `last = result + 1`,
/// stopping when a round changes nothing. `None` where the iteration does
/// not settle within `SQRT_MAX_ROUNDS` rounds, where `rust_decimal` panics.
pub open spec fn decimal_sqrt(a: (int, int)) -> Option<(int, int)> {
    if a.0 < 0 {
        None
    } else if a.0 == 0 {
        Some((0, 0))
    } else {
        match decimal_div(a, (2, 0)) {
            None => None,
            Some(half) => {
                let start = if half.0 == 0 {
                    a
                } else {
                    half
                };
                match decimal_add(start, (1, 0)) {
                    None => None,
                    Some(last) => sqrt_loop(a, last, start, SQRT_MAX_ROUNDS as nat),
                }
            },
        }
    }
}

/// What `rust_decimal`'s `checked_powd` returns.
pub uninterp spec fn decimal_powd(a: (int, int), b: (int, int)) -> Option<(int, int)>;

/// What `rust_decimal`'s `checked_powu` returns.
pub uninterp spec fn decimal_powu(a: (int, int), exp: int) -> Option<(int, int)>;

/// What `rust_decimal`'s `checked_ln` returns.
pub uninterp spec fn decimal_ln(a: (int, int)) -> Option<(int, int)>;

/// The ceiling of `a`, at scale 0: the least integer not below
/// `mantissa / 10^scale`.
pub open spec fn decimal_ceil(a: (int, int)) -> (int, int) {
    (-((-a.0) / pow10(a.1)), 0)
}

/// `a` truncated toward zero to an integer, as a `u32`: `None` for a
/// negative `a` or an integer part above `u32::MAX`.
pub open spec fn decimal_to_u32(a: (int, int)) -> Option<u32> {
    if a.0 < 0 {
        None
    } else if a.0 / pow10(a.1) <= u32::MAX {
        Some((a.0 / pow10(a.1)) as u32)
    } else {
        None
    }
}

/// What `rust_decimal`'s `to_string` returns.
pub uninterp spec fn decimal_to_string(a: (int, int)) -> Seq<char>;

/// What `rust_decimal`'s `from_str` returns: the decimal, or the text its
/// error displays.
pub uninterp spec fn decimal_parse(s: Seq<char>) -> Result<(int, int), Seq<char>>;

/// The decimal that `from_str` reads from `s`, if it reads one.
pub open spec fn decimal_from_str(s: Seq<char>) -> Option<(int, int)> {
    match decimal_parse(s) {
        Ok(v) => Some(v),
        Err(_) => None,
    }
}

/// The text of `rust_decimal`'s error where `from_str` fails on `s`.
pub open spec fn decimal_parse_error(s: Seq<char>) -> Seq<char> {
    match decimal_parse(s) {
        Ok(_) => Seq::empty(),
        Err(t) => t,
    }
}

/// `Decimal::checked_add`. Claims: the result is the named one; adding zero
/// hands the other operand back (its mantissa, and its scale unless it is
/// zero itself), as the early returns in `rust_decimal`'s `add_sub_internal`
/// show.
#[verifier::external_body]
pub(crate) fn dec_add(a: &Dec, b: &Dec) -> (r: Option<Dec>)
    ensures
        ov(r) == decimal_add(a@, b@),
        b@.0 == 0 ==> r is Some && r.unwrap()@.0 == a@.0,
        b@.0 == 0 && a@.0 != 0 ==> r is Some && r.unwrap()@.1 == a@.1,
        a@.0 == 0 ==> r is Some && r.unwrap()@.0 == b@.0,
        a@.0 == 0 && b@.0 != 0 ==> r is Some && r.unwrap()@.1 == b@.1,
{
    let x = Decimal::from_i128_with_scale(a.mantissa, a.scale);
    let y = Decimal::from_i128_with_scale(b.mantissa, b.scale);
    match x.checked_add(y) {
        Some(v) => Some(Dec { mantissa: v.mantissa(), scale: v.scale() }),
        None => None,
    }
}

/// Two non-zero operands whose mantissas are below `2^64` in magnitude and
/// whose scales are at most 19 apart.
pub open spec fn narrow_pair(a: (int, int), b: (int, int)) -> bool {
    a.0 != 0 && b.0 != 0 && -0x1_0000_0000_0000_0000 < a.0 < 0x1_0000_0000_0000_0000
        && -0x1_0000_0000_0000_0000 < b.0 < 0x1_0000_0000_0000_0000 && -19 <= a.1 - b.1 <= 19
}

/// The larger of two scales.
pub open spec fn max_scale(a: (int, int), b: (int, int)) -> int {
    if a.1 < b.1 {
        b.1
    } else {
        a.1
    }
}

/// `a - b` exactly, as a mantissa at the larger of the two scales.
pub open spec fn aligned_diff(a: (int, int), b: (int, int)) -> int {
    a.0 * pow10(max_scale(a, b) - a.1) - b.0 * pow10(max_scale(a, b) - b.1)
}

/// `Decimal::checked_sub`. Claims: the result is the named one;
/// subtracting zero hands the left operand back, and `0 - b` is `b` negated
/// (same scale unless zero), as `rust_decimal`'s `add_sub_internal` shows;
/// and for a narrow pair whose exact difference at the larger scale fits in
/// 96 bits, the result is that difference at that scale (its 32-bit and
/// 64-bit paths align the scales exactly and commit the result whenever it
/// fits).
#[verifier::external_body]
pub(crate) fn dec_sub(a: &Dec, b: &Dec) -> (r: Option<Dec>)
    ensures
        ov(r) == decimal_sub(a@, b@),
        narrow_pair(a@, b@) && -MAX_MANTISSA <= aligned_diff(a@, b@) <= MAX_MANTISSA ==> ov(r)
            == Some((aligned_diff(a@, b@), max_scale(a@, b@))),
        b@.0 == 0 ==> r is Some && r.unwrap()@.0 == a@.0,
        b@.0 == 0 && a@.0 != 0 ==> r is Some && r.unwrap()@.1 == a@.1,
        a@.0 == 0 ==> r is Some && r.unwrap()@.0 == -b@.0,
        a@.0 == 0 && b@.0 != 0 ==> r is Some && r.unwrap()@.1 == b@.1,
{
    let x = Decimal::from_i128_with_scale(a.mantissa, a.scale);
    let y = Decimal::from_i128_with_scale(b.mantissa, b.scale);
    match x.checked_sub(y) {
        Some(v) => Some(Dec { mantissa: v.mantissa(), scale: v.scale() }),
        None => None,
    }
}

/// `Decimal::checked_mul`. Claims: the result is the named one; a zero
/// operand gives `Some(0)`; and when the exact product's mantissa fits in 96
/// bits and its scale (the sum of the scales) is at most 28, the product is
/// exact (`rust_decimal`'s `mul_impl` and `finish_mul` rescale only when one
/// of those bounds is exceeded).
#[verifier::external_body]
pub(crate) fn dec_mul(a: &Dec, b: &Dec) -> (r: Option<Dec>)
    ensures
        ov(r) == decimal_mul(a@, b@),
        a@.0 == 0 || b@.0 == 0 ==> ov(r) == Some((0int, 0int)),
        a@.0 != 0 && b@.0 != 0 && in_range((a@.0 * b@.0, a@.1 + b@.1)) ==> ov(r) == Some(
            (a@.0 * b@.0, a@.1 + b@.1),
        ),
{
    let x = Decimal::from_i128_with_scale(a.mantissa, a.scale);
    let y = Decimal::from_i128_with_scale(b.mantissa, b.scale);
    match x.checked_mul(y) {
        Some(v) => Some(Dec { mantissa: v.mantissa(), scale: v.scale() }),
        None => None,
    }
}

/// `Decimal::checked_div`. Claims: the result is the named one; a zero
/// divisor gives `None`; a zero dividend over a non-zero divisor gives
/// `Some(0)` (the first two checks of `rust_decimal`'s `div_impl`).
#[verifier::external_body]
pub(crate) fn dec_div(a: &Dec, b: &Dec) -> (r: Option<Dec>)
    ensures
        ov(r) == decimal_div(a@, b@),
        b@.0 == 0 ==> r is None,
        a@.0 == 0 && b@.0 != 0 ==> ov(r) == Some((0int, 0int)),
{
    let x = Decimal::from_i128_with_scale(a.mantissa, a.scale);
    let y = Decimal::from_i128_with_scale(b.mantissa, b.scale);
    match x.checked_div(y) {
        Some(v) => Some(Dec { mantissa: v.mantissa(), scale: v.scale() }),
        None => None,
    }
}

/// `Decimal::lt` (`<`). Claims: it compares numeric values exactly, as
/// `rust_decimal`'s `cmp_impl` does.
#[verifier::external_body]
pub(crate) fn dec_lt(a: &Dec, b: &Dec) -> (r: bool)
    ensures
        r == value_lt(a@, b@),
{
    Decimal::from_i128_with_scale(a.mantissa, a.scale) < Decimal::from_i128_with_scale(
        b.mantissa,
        b.scale,
    )
}

/// `Decimal::eq` (`==`). Claims: it compares numeric values exactly.
#[verifier::external_body]
pub(crate) fn dec_eq(a: &Dec, b: &Dec) -> (r: bool)
    ensures
        r == value_eq(a@, b@),
{
    Decimal::from_i128_with_scale(a.mantissa, a.scale) == Decimal::from_i128_with_scale(
        b.mantissa,
        b.scale,
    )
}

/// The square root, computed as `rust_decimal`'s `sqrt` computes it (the
/// same divisions and additions, through the wrappers above), but giving
/// `None` where `rust_decimal` would give up after `SQRT_MAX_ROUNDS` rounds.
pub(crate) fn dec_sqrt(a: &Dec) -> (r: Option<Dec>)
    ensures
        ov(r) == decimal_sqrt(a@),
        a@.0 < 0 ==> r is None,
        a@.0 == 0 ==> ov(r) == Some((0int, 0int)),
{
    if a.is_negative() {
        return None;
    }
    if a.is_zero() {
        return Some(Dec::zero());
    }
    let half = match dec_div(a, &Dec::two()) {
        Some(h) => h,
        None => return None,
    };
    let mut result = if half.is_zero() {
        a.copy()
    } else {
        half
    };
    let mut last = match dec_add(&result, &Dec::one()) {
        Some(l) => l,
        None => return None,
    };
    let ghost av = a@;
    let mut rounds: u32 = SQRT_MAX_ROUNDS;
    while !dec_eq(&last, &result)
        invariant
            av == a@,
            rounds <= SQRT_MAX_ROUNDS,
            decimal_sqrt(av) == sqrt_loop(av, last@, result@, rounds as nat),
        decreases rounds,
    {
        if rounds == 0 {
            return None;
        }
        let next = match o_div(o_add(Some(result.copy()), o_div(Some(a.copy()), Some(result.copy()))), Some(Dec::two())) {
            Some(n) => n,
            None => return None,
        };
        last = result;
        result = next;
        rounds = rounds - 1;
    }
    Some(result)
}

/// `MathematicalOps::checked_powd`. Claims only that the result is the named
/// one.
#[verifier::external_body]
pub(crate) fn dec_powd(a: &Dec, b: &Dec) -> (r: Option<Dec>)
    ensures
        ov(r) == decimal_powd(a@, b@),
{
    let x = Decimal::from_i128_with_scale(a.mantissa, a.scale);
    let y = Decimal::from_i128_with_scale(b.mantissa, b.scale);
    match x.checked_powd(y) {
        Some(v) => Some(Dec { mantissa: v.mantissa(), scale: v.scale() }),
        None => None,
    }
}

/// `MathematicalOps::checked_powu`. Claims only that the result is the named
/// one.
#[verifier::external_body]
pub(crate) fn dec_powu(a: &Dec, exp: u64) -> (r: Option<Dec>)
    ensures
        ov(r) == decimal_powu(a@, exp as int),
{
    match Decimal::from_i128_with_scale(a.mantissa, a.scale).checked_powu(exp) {
        Some(v) => Some(Dec { mantissa: v.mantissa(), scale: v.scale() }),
        None => None,
    }
}

/// `MathematicalOps::checked_ln`. Claims: the result is the named one, and a
/// non-positive argument gives `None` (as its documentation states).
#[verifier::external_body]
pub(crate) fn dec_ln(a: &Dec) -> (r: Option<Dec>)
    ensures
        ov(r) == decimal_ln(a@),
        a@.0 <= 0 ==> r is None,
{
    match Decimal::from_i128_with_scale(a.mantissa, a.scale).checked_ln() {
        Some(v) => Some(Dec { mantissa: v.mantissa(), scale: v.scale() }),
        None => None,
    }
}

/// `Decimal::ceil`. Claims: the result is the ceiling at scale 0. Its
/// source hands back an argument of scale 0 unchanged; otherwise it truncates
/// toward zero to scale 0 and, for a positive argument that lost a non-zero
/// digit, adds one.
#[verifier::external_body]
pub(crate) fn dec_ceil(a: &Dec) -> (r: Dec)
    ensures
        r@ == decimal_ceil(a@),
{
    let v = Decimal::from_i128_with_scale(a.mantissa, a.scale).ceil();
    Dec { mantissa: v.mantissa(), scale: v.scale() }
}

/// `ToPrimitive::to_u32`. Claims: the result is the integer part when the
/// argument is not negative and that part fits in a `u32`, else `None`. Its
/// source (`to_u64`, then `u64`'s own `to_u32`) refuses a negative sign,
/// truncates toward zero, and refuses what does not fit.
#[verifier::external_body]
pub(crate) fn dec_to_u32(a: &Dec) -> (r: Option<u32>)
    ensures
        r == decimal_to_u32(a@),
{
    Decimal::from_i128_with_scale(a.mantissa, a.scale).to_u32()
}

/// `Decimal::to_string`. Claims only that the result is the named one.
#[verifier::external_body]
pub(crate) fn dec_to_string(a: &Dec) -> (r: String)
    ensures
        r@ == decimal_to_string(a@),
{
    Decimal::from_i128_with_scale(a.mantissa, a.scale).to_string()
}

/// `Decimal::from_str`, its error written by the error's `Display`. Claims
/// only that the value, or the error's text, is the named one.
#[verifier::external_body]
pub(crate) fn dec_from_str(s: &str) -> (r: Result<Dec, String>)
    ensures
        match r {
            Ok(d) => decimal_parse(s@) == Ok::<(int, int), Seq<char>>(d@),
            Err(t) => decimal_parse(s@) == Err::<(int, int), Seq<char>>(t@),
        },
{
    match <Decimal as core::str::FromStr>::from_str(s) {
        Ok(v) => Ok(Dec { mantissa: v.mantissa(), scale: v.scale() }),
        Err(e) => Err(e.to_string()),
    }
}

// Chaining: each operation on optional operands is `None` as soon as an
// operand is, so a whole formula can be written as one expression whose
// value is `None` exactly when some step overflowed or was undefined.
/// `a + b` on optional operands.
pub open spec fn s_add(a: Option<(int, int)>, b: Option<(int, int)>) -> Option<(int, int)> {
    match (a, b) {
        (Some(x), Some(y)) => decimal_add(x, y),
        _ => None,
    }
}

/// `a - b` on optional operands.
pub open spec fn s_sub(a: Option<(int, int)>, b: Option<(int, int)>) -> Option<(int, int)> {
    match (a, b) {
        (Some(x), Some(y)) => decimal_sub(x, y),
        _ => None,
    }
}

/// `a * b` on optional operands.
pub open spec fn s_mul(a: Option<(int, int)>, b: Option<(int, int)>) -> Option<(int, int)> {
    match (a, b) {
        (Some(x), Some(y)) => decimal_mul(x, y),
        _ => None,
    }
}

/// `a / b` on optional operands.
pub open spec fn s_div(a: Option<(int, int)>, b: Option<(int, int)>) -> Option<(int, int)> {
    match (a, b) {
        (Some(x), Some(y)) => decimal_div(x, y),
        _ => None,
    }
}

/// `sqrt(a)` on an optional operand.
pub open spec fn s_sqrt(a: Option<(int, int)>) -> Option<(int, int)> {
    match a {
        Some(x) => decimal_sqrt(x),
        None => None,
    }
}

/// `a ^ b` on optional operands.
pub open spec fn s_powd(a: Option<(int, int)>, b: Option<(int, int)>) -> Option<(int, int)> {
    match (a, b) {
        (Some(x), Some(y)) => decimal_powd(x, y),
        _ => None,
    }
}

/// `a + b` on optional operands.
pub(crate) fn o_add(a: Option<Dec>, b: Option<Dec>) -> (r: Option<Dec>)
    ensures
        ov(r) == s_add(ov(a), ov(b)),
        a is Some && b is Some && b.unwrap()@.0 == 0 ==> (r is Some && r.unwrap()@.0 == a.unwrap()@.0
            && (a.unwrap()@.0 != 0 ==> r.unwrap()@.1 == a.unwrap()@.1)),
        a is Some && b is Some && a.unwrap()@.0 == 0 ==> (r is Some && r.unwrap()@.0 == b.unwrap()@.0
            && (b.unwrap()@.0 != 0 ==> r.unwrap()@.1 == b.unwrap()@.1)),
{
    match (a, b) {
        (Some(x), Some(y)) => dec_add(&x, &y),
        _ => None,
    }
}

/// `a - b` on optional operands.
pub(crate) fn o_sub(a: Option<Dec>, b: Option<Dec>) -> (r: Option<Dec>)
    ensures
        ov(r) == s_sub(ov(a), ov(b)),
        a is Some && b is Some && b.unwrap()@.0 == 0 ==> (r is Some && r.unwrap()@.0 == a.unwrap()@.0
            && (a.unwrap()@.0 != 0 ==> r.unwrap()@.1 == a.unwrap()@.1)),
        a is Some && b is Some && a.unwrap()@.0 == 0 ==> (r is Some && r.unwrap()@.0 == -b.unwrap()@.0
            && (b.unwrap()@.0 != 0 ==> r.unwrap()@.1 == b.unwrap()@.1)),
{
    match (a, b) {
        (Some(x), Some(y)) => dec_sub(&x, &y),
        _ => None,
    }
}

/// `a * b` on optional operands.
pub(crate) fn o_mul(a: Option<Dec>, b: Option<Dec>) -> (r: Option<Dec>)
    ensures
        ov(r) == s_mul(ov(a), ov(b)),
        a is Some && b is Some && (a.unwrap()@.0 == 0 || b.unwrap()@.0 == 0) ==> ov(r) == Some(
            (0int, 0int),
        ),
        a is Some && b is Some && a.unwrap()@.0 != 0 && b.unwrap()@.0 != 0 && in_range(
            (a.unwrap()@.0 * b.unwrap()@.0, a.unwrap()@.1 + b.unwrap()@.1),
        ) ==> ov(r) == Some((a.unwrap()@.0 * b.unwrap()@.0, a.unwrap()@.1 + b.unwrap()@.1)),
{
    match (a, b) {
        (Some(x), Some(y)) => dec_mul(&x, &y),
        _ => None,
    }
}

/// `a / b` on optional operands.
pub(crate) fn o_div(a: Option<Dec>, b: Option<Dec>) -> (r: Option<Dec>)
    ensures
        ov(r) == s_div(ov(a), ov(b)),
        b is Some && b.unwrap()@.0 == 0 ==> r is None,
        a is Some && b is Some && a.unwrap()@.0 == 0 && b.unwrap()@.0 != 0 ==> ov(r) == Some(
            (0int, 0int),
        ),
{
    match (a, b) {
        (Some(x), Some(y)) => dec_div(&x, &y),
        _ => None,
    }
}

/// `sqrt(a)` on an optional operand.
pub(crate) fn o_sqrt(a: Option<Dec>) -> (r: Option<Dec>)
    ensures
        ov(r) == s_sqrt(ov(a)),
        a is Some && a.unwrap()@.0 < 0 ==> r is None,
        a is Some && a.unwrap()@.0 == 0 ==> ov(r) == Some((0int, 0int)),
{
    match a {
        Some(x) => dec_sqrt(&x),
        None => None,
    }
}

/// `a ^ b` on optional operands.
pub(crate) fn o_powd(a: Option<Dec>, b: Option<Dec>) -> (r: Option<Dec>)
    ensures
        ov(r) == s_powd(ov(a), ov(b)),
{
    match (a, b) {
        (Some(x), Some(y)) => dec_powd(&x, &y),
        _ => None,
    }
}

/// `Some(d.copy())`.
pub(crate) fn some(d: &Dec) -> (r: Option<Dec>)
    ensures
        ov(r) == Some(d@),
{
    Some(d.copy())
}

} // verus!
