//! The range of time that a query looks back over.
//!
//! A range is a number of hours, given by the bit pattern of a double-precision
//! IEEE 754 number. For numbers that are not negative, the order of the bit
//! patterns is the order of the numbers, and the patterns of infinities, NaNs
//! and negative numbers lie above those of all positive finite numbers: two
//! comparisons of integers decide whether a range is in bounds.

use vstd::arithmetic::div_mod::{
    lemma_div_denominator, lemma_div_is_ordered, lemma_div_is_ordered_by_denominator,
    lemma_div_multiples_vanish_quotient, lemma_fundamental_div_mod,
};
use vstd::arithmetic::power2::{
    lemma2_to64, lemma2_to64_rest, lemma_pow2_adds, lemma_pow2_pos, lemma_pow2_strictly_increases,
    pow2,
};
use vstd::bits::lemma_u128_shr_is_div;
use vstd::prelude::*;

use crate::domain::UnixSecs;
use crate::error::{DomainError, DomainFault};

verus! {

/// A double-precision number: its bit pattern, and how it is shown.
#[derive(Debug)]
pub struct Double {
    pub bits: u64,
    pub shown: String,
}

/// What a [`Double`] says, over plain values.
pub struct DoubleData {
    pub bits: u64,
    pub shown: Seq<char>,
}

impl View for Double {
    type V = DoubleData;

    open spec fn view(&self) -> DoubleData {
        DoubleData { bits: self.bits, shown: self.shown@ }
    }
}

/// The bit pattern without the sign.
pub open spec fn magnitude(bits: u64) -> u64 {
    if bits < 0x8000_0000_0000_0000 {
        bits
    } else {
        (bits - 0x8000_0000_0000_0000) as u64
    }
}

/// Is `bits` the pattern of no number?
pub open spec fn is_nan(bits: u64) -> bool {
    magnitude(bits) > 0x7ff0_0000_0000_0000
}

/// Are `a` and `b` the patterns of equal numbers? A pattern of no number equals
/// nothing, and the two zeros are equal.
pub open spec fn same_number(a: u64, b: u64) -> bool {
    !is_nan(a) && !is_nan(b) && (a == b || (magnitude(a) == 0 && magnitude(b) == 0))
}

fn unsigned(bits: u64) -> (r: u64)
    ensures
        r == magnitude(bits),
{
    if bits < 0x8000_0000_0000_0000 {
        bits
    } else {
        bits - 0x8000_0000_0000_0000
    }
}

impl PartialEq for Double {
    fn eq(&self, other: &Self) -> (r: bool) {
        let a: u64 = unsigned(self.bits);
        let b: u64 = unsigned(other.bits);
        a <= 0x7ff0_0000_0000_0000 && b <= 0x7ff0_0000_0000_0000 && (self.bits == other.bits || (a
            == 0 && b == 0))
    }
}

impl vstd::std_specs::cmp::PartialEqSpecImpl for Double {
    open spec fn obeys_eq_spec() -> bool {
        true
    }

    open spec fn eq_spec(&self, other: &Self) -> bool {
        same_number(self.bits, other.bits)
    }
}

/// A number of hours to look back over, between 0.05 and 720.
#[derive(Debug, Clone, Copy, PartialEq, Eq)]
pub struct LookbackHours(u64);

impl View for LookbackHours {
    type V = u64;

    /// The bit pattern of the number of hours.
    closed spec fn view(&self) -> u64 {
        self.0
    }
}

/// Are `bits` the bit pattern of a number of hours between 0.05 and 720?
pub open spec fn in_bounds(bits: u64) -> bool {
    LookbackHours::MIN <= bits <= LookbackHours::MAX
}

/// Why `hours` is no range; `None` where it is one.
pub open spec fn lookback_fault(hours: Double) -> Option<DomainFault> {
    if in_bounds(hours.bits) {
        None
    } else {
        Some(DomainFault::InvalidLookback { hours: hours@ })
    }
}

/// The fraction of a normal number with the pattern `bits`, as an integer: the
/// number is this times two to the power of its exponent field less 1075.
pub open spec fn significand(bits: u64) -> nat {
    (0x10_0000_0000_0000 + bits % 0x10_0000_0000_0000) as nat
}

/// The exponent field of a number that is not negative.
pub open spec fn exponent(bits: u64) -> nat {
    (bits / 0x10_0000_0000_0000) as nat
}

/// `p / d`, rounded to the nearest integer, and to the even one of two that are
/// equally near.
pub open spec fn rounded(p: nat, d: nat) -> nat {
    let q = p / d;
    let r = p % d;
    if 2 * r > d || (2 * r == d && q % 2 == 1) {
        q + 1
    } else {
        q
    }
}

/// How many of its low bits the product of a significand and 3600 has beyond
/// the 53 that a double-precision number holds.
pub open spec fn excess(p: nat) -> nat {
    if p < 0x1_0000_0000_0000_0000 {
        11
    } else {
        12
    }
}

/// The whole seconds in the number of hours with the pattern `bits`: its
/// double-precision product with 3600, without the fraction.
pub open spec fn whole_secs(bits: u64) -> nat {
    let p = significand(bits) * 3600;
    let k = excess(p);
    rounded(p, pow2(k)) / pow2((1075 - exponent(bits) - k) as nat)
}

/// `now` less the range, but no less than zero.
pub open spec fn looked_back(bits: u64, now: i64) -> int {
    if now < whole_secs(bits) {
        0
    } else {
        now - whole_secs(bits)
    }
}

impl LookbackHours {
    /// The pattern of 0.05, three minutes.
    pub const MIN: u64 = 0x3fa9_9999_9999_999a;

    /// The pattern of 720, thirty days.
    pub const MAX: u64 = 0x4086_8000_0000_0000;

    /// The pattern of 24, one day.
    pub const DEFAULT_24H: u64 = 0x4038_0000_0000_0000;

    /// What holds of every value of this type.
    #[verifier::type_invariant]
    pub open spec fn well_formed(self) -> bool {
        in_bounds(self@)
    }

    /// Checks that a number of hours is in bounds.
    pub fn new(hours: Double) -> (r: Result<Self, DomainError>)
        ensures
            match r {
                Ok(h) => lookback_fault(hours) is None && h@ == hours.bits,
                Err(e) => lookback_fault(hours) == Some(e@),
            },
    {
        if hours.bits < LookbackHours::MIN || LookbackHours::MAX < hours.bits {
            return Err(DomainError::InvalidLookback { hours });
        }
        Ok(LookbackHours(hours.bits))
    }

    /// One day.
    pub fn default_24h() -> (r: Self)
        ensures
            r@ == LookbackHours::DEFAULT_24H,
    {
        LookbackHours(LookbackHours::DEFAULT_24H)
    }

    /// The pattern of the number of hours.
    pub fn hours(self) -> (r: u64)
        ensures
            r == self@,
            in_bounds(r),
    {
        proof {
            use_type_invariant(&self);
        }
        self.0
    }

    /// The range in whole seconds.
    pub fn secs(self) -> (r: i64)
        ensures
            r == whole_secs(self@),
            180 <= r <= 2_592_000,
    {
        proof {
            use_type_invariant(&self);
        }
        let bits: u64 = self.0;
        let m: u128 = 0x10_0000_0000_0000 + (bits % 0x10_0000_0000_0000) as u128;
        let e: u64 = bits / 0x10_0000_0000_0000;
        let p: u128 = m * 3600;
        let (k, d): (u64, u128) = if p < 0x1_0000_0000_0000_0000 {
            (11, 0x800)
        } else {
            (12, 0x1000)
        };
        let q: u128 = p / d;
        let r: u128 = p % d;
        let rounded_up: u128 = if 2 * r > d || (2 * r == d && q % 2 == 1) {
            q + 1
        } else {
            q
        };
        proof {
            lemma2_to64();
            lemma_exponent_bounds(bits);
            lemma_u128_shr_is_div(rounded_up, (1075 - e - k) as u128);
            law_lookback_bounds(bits);
        }
        let shift: u128 = (1075 - e - k) as u128;
        (rounded_up >> shift) as i64
    }

    /// The start of the range that ends at `now`.
    pub fn since(self, now: UnixSecs) -> (r: UnixSecs)
        ensures
            r@ == looked_back(self@, now@),
    {
        let back: i64 = self.secs();
        UnixSecs::new(now.as_i64() - back)
    }
}

proof fn lemma_exponent_bounds(bits: u64)
    requires
        in_bounds(bits),
    ensures
        1018 <= exponent(bits) <= 1032,
        exponent(bits) == 1018 ==> significand(bits) >= 0x19_9999_9999_999a,
        exponent(bits) == 1032 ==> significand(bits) <= 0x16_8000_0000_0000,
{
}

proof fn lemma_quotient_bounds(p: int, q: int, d: int, g: int, lo: int, hi: int)
    requires
        d > 0,
        g > 0,
        q * d <= p + d,
        p < (q + 1) * d,
        lo * (d * g) <= p,
        p + d < (hi + 1) * (d * g),
    ensures
        lo <= q / g <= hi,
{
    assert(lo * g < q + 1) by (nonlinear_arith)
        requires
            d > 0,
            lo * (d * g) <= p,
            p < (q + 1) * d,
    ;
    assert(q < (hi + 1) * g) by (nonlinear_arith)
        requires
            d > 0,
            q * d <= p + d,
            p + d < (hi + 1) * (d * g),
    ;
    assert(lo <= q / g <= hi) by (nonlinear_arith)
        requires
            g > 0,
            lo * g <= q,
            q < (hi + 1) * g,
    ;
}

/// The pattern for one day stands for the seconds of one.
pub proof fn lemma_default_is_one_day()
    ensures
        whole_secs(LookbackHours::DEFAULT_24H) == 86_400,
{
    lemma2_to64();
    lemma2_to64_rest();
    let bits = LookbackHours::DEFAULT_24H;
    assert(exponent(bits) == 1027 && significand(bits) == 0x18_0000_0000_0000);
    let p = significand(bits) * 3600;
    assert(p == 5_937_362_789_990_400 * 0x1000);
    assert(excess(p) == 12);
    assert(rounded(p, 0x1000) == 5_937_362_789_990_400);
    assert(pow2(36) == 0x10_0000_0000);
    assert(5_937_362_789_990_400nat / 0x10_0000_0000 == 86_400);
}

/// Every range reaches back at least three minutes and at most thirty days.
pub proof fn law_lookback_bounds(bits: u64)
    requires
        in_bounds(bits),
    ensures
        180 <= whole_secs(bits) <= 2_592_000,
{
    lemma_exponent_bounds(bits);
    lemma2_to64();
    lemma2_to64_rest();
    let e = exponent(bits);
    let p = significand(bits) * 3600;
    let k = excess(p);
    let shift = (1075 - e - k) as nat;
    let d = pow2(k);
    let g = pow2(shift);
    let unit = pow2((1075 - e) as nat);
    lemma_pow2_adds(k, shift);
    assert(180 * unit <= p) by {
        if e > 1018 {
            if e > 1019 {
                lemma_pow2_strictly_increases((1075 - e) as nat, 56);
            }
        }
    }
    assert(p + d < 2_592_001 * unit) by {
        if e < 1032 {
            if e < 1031 {
                lemma_pow2_strictly_increases(44, (1075 - e) as nat);
            }
        }
    }
    lemma_pow2_pos(shift);
    lemma_quotient_bounds(p as int, rounded(p, d) as int, d as int, g as int, 180, 2_592_000);
}

/// Rounding keeps the order of numbers.
proof fn lemma_rounded_is_ordered(p: nat, q: nat, d: nat)
    requires
        p <= q,
        0 < d,
    ensures
        rounded(p, d) <= rounded(q, d),
{
    lemma_div_is_ordered(p as int, q as int, d as int);
    lemma_fundamental_div_mod(p as int, d as int);
    lemma_fundamental_div_mod(q as int, d as int);
}

/// A multiple of `d` is rounded to itself.
proof fn lemma_rounded_multiple(c: nat, d: nat)
    requires
        0 < d,
    ensures
        rounded(c * d, d) == c,
{
    vstd::arithmetic::div_mod::lemma_div_by_multiple(c as int, d as int);
    vstd::arithmetic::div_mod::lemma_mod_multiples_basic(c as int, d as int);
}

/// The product `p`, rounded to the bits that a double-precision number holds.
spec fn held(p: nat) -> nat {
    rounded(p, pow2(excess(p))) * pow2(excess(p))
}

proof fn lemma_held_is_ordered(p: nat, q: nat)
    requires
        p <= q,
    ensures
        held(p) <= held(q),
{
    lemma2_to64();
    if excess(p) == excess(q) {
        lemma_rounded_is_ordered(p, q, pow2(excess(p)));
        let d = pow2(excess(p));
        let a = rounded(p, d);
        let b = rounded(q, d);
        assert(a * d <= b * d) by (nonlinear_arith)
            requires
                a <= b,
        ;
    } else {
        lemma_rounded_multiple(0x20_0000_0000_0000, 0x800);
        lemma_rounded_is_ordered(p, 0x1_0000_0000_0000_0000, 0x800);
        lemma_rounded_multiple(0x10_0000_0000_0000, 0x1000);
        lemma_rounded_is_ordered(0x1_0000_0000_0000_0000, q, 0x1000);
    }
}

/// The whole seconds of a range, from its rounded product.
proof fn lemma_whole_secs_of_held(bits: u64)
    requires
        in_bounds(bits),
    ensures
        whole_secs(bits) == held(significand(bits) * 3600) / pow2((1075 - exponent(bits)) as nat),
{
    lemma_exponent_bounds(bits);
    let p = significand(bits) * 3600;
    let k = excess(p);
    let shift = (1075 - exponent(bits) - k) as nat;
    let r = rounded(p, pow2(k));
    lemma_pow2_adds(k, shift);
    lemma_pow2_pos(k);
    lemma_pow2_pos(shift);
    lemma_div_multiples_vanish_quotient(pow2(k) as int, r as int, pow2(shift) as int);
    assert(r * pow2(k) == pow2(k) * r) by (nonlinear_arith);
}

/// Of two ranges the longer never reaches back less far. (The order of bit
/// patterns is the order of the numbers.)
pub proof fn law_longer_ranges_reach_further(a: u64, b: u64)
    requires
        in_bounds(a),
        in_bounds(b),
        a <= b,
    ensures
        whole_secs(a) <= whole_secs(b),
{
    lemma_exponent_bounds(a);
    lemma_exponent_bounds(b);
    lemma_whole_secs_of_held(a);
    lemma_whole_secs_of_held(b);
    let p = significand(a) * 3600;
    let q = significand(b) * 3600;
    let e = exponent(a);
    let f = exponent(b);
    let unit = pow2((1075 - f) as nat);
    lemma_pow2_pos((1075 - f) as nat);
    if e == f {
        lemma_held_is_ordered(p, q);
        lemma_div_is_ordered(held(p) as int, held(q) as int, unit as int);
    } else {
        // The larger exponent makes up for any fraction.
        let top: nat = 0x20_0000_0000_0000 * 3600;
        let half: nat = 0x10_0000_0000_0000 * 3600;
        let s = pow2((f - e) as nat);
        lemma_held_is_ordered(p, top);
        lemma_held_is_ordered(half, q);
        assert(held(top) == top && held(half) == half) by {
            lemma2_to64();
            lemma_rounded_multiple(0x200_0000_0000 * 3600, 0x1000);
            lemma_rounded_multiple(0x200_0000_0000 * 3600, 0x800);
        }
        lemma_pow2_adds((f - e) as nat, (1075 - f) as nat);
        lemma2_to64();
        lemma_pow2_strictly_increases(0, (f - e) as nat);
        assert(2 * unit <= s * unit) by (nonlinear_arith)
            requires
                2 <= s,
        ;
        lemma_div_is_ordered(held(p) as int, top as int, (s * unit) as int);
        lemma_div_is_ordered_by_denominator(top as int, (2 * unit) as int, (s * unit) as int);
        lemma_div_denominator(top as int, 2, unit as int);
        lemma_div_is_ordered(half as int, held(q) as int, unit as int);
    }
}

/// The range that ends at `now` starts its whole seconds before, and never
/// before the epoch.
pub proof fn law_range_starts_its_seconds_ago(bits: u64, now: i64)
    requires
        in_bounds(bits),
        0 <= now,
    ensures
        now >= whole_secs(bits) ==> looked_back(bits, now) + whole_secs(bits) == now,
        now < whole_secs(bits) ==> looked_back(bits, now) == 0,
{
}

/// The pattern of a number is its exponent and then its fraction, and the bounds
/// are the patterns of 0.05 and 720.
pub proof fn law_pattern(bits: u64)
    ensures
        bits == exponent(bits) * 0x10_0000_0000_0000 + (significand(bits) - 0x10_0000_0000_0000),
        0x10_0000_0000_0000 <= significand(bits) < 0x20_0000_0000_0000,
        in_bounds(bits) <==> 0x3fa9_9999_9999_999a <= bits <= 0x4086_8000_0000_0000,
{
}

/// A range of a whole number of hours has 3600 seconds for each of them, and
/// starts that long before `now`.
pub proof fn law_whole_hours(bits: u64, n: nat, now: i64)
    requires
        in_bounds(bits),
        significand(bits) == n * pow2((1075 - exponent(bits)) as nat),
        3600 * n <= now,
    ensures
        whole_secs(bits) == 3600 * n,
        looked_back(bits, now) == now - 3600 * n,
{
    lemma_exponent_bounds(bits);
    let p = significand(bits) * 3600;
    let k = excess(p);
    let shift = (1075 - exponent(bits) - k) as nat;
    let d = pow2(k);
    let g = pow2(shift);
    lemma_pow2_adds(k, shift);
    lemma_pow2_pos(k);
    lemma_pow2_pos(shift);
    let c = 3600 * n * g;
    assert(p == c * d) by (nonlinear_arith)
        requires
            p == n * (d * g) * 3600,
            c == 3600 * n * g,
    ;
    lemma_rounded_multiple(c, d);
    vstd::arithmetic::div_mod::lemma_div_by_multiple((3600 * n) as int, g as int);
}

/// The seconds of a range are its hours times 3600, without the fraction, but
/// for the rounding of the product to 53 bits: it never falls a whole second
/// short, and exceeds the product by a tiny part of a second at most.
pub proof fn law_seconds_are_hours_times_3600(bits: u64)
    requires
        in_bounds(bits),
    ensures
        ({
            let unit = pow2((1075 - exponent(bits)) as nat);
            let product = significand(bits) * 3600;
            &&& whole_secs(bits) * unit <= product + 2048
            &&& product < (whole_secs(bits) + 1) * unit
            &&& unit >= 0x800_0000_0000
        }),
{
    lemma_exponent_bounds(bits);
    lemma2_to64();
    lemma2_to64_rest();
    let e = exponent(bits);
    let p = significand(bits) * 3600;
    let k = excess(p);
    let shift = (1075 - e - k) as nat;
    let d = pow2(k);
    let g = pow2(shift);
    let unit = pow2((1075 - e) as nat);
    let r = rounded(p, d);
    let w = whole_secs(bits);
    lemma_pow2_adds(k, shift);
    lemma_pow2_pos(shift);
    if e < 1032 {
        lemma_pow2_strictly_increases(43, (1075 - e) as nat);
    }
    lemma_fundamental_div_mod(p as int, d as int);
    lemma_fundamental_div_mod(r as int, g as int);
    vstd::arithmetic::div_mod::lemma_mod_bound(r as int, g as int);
    vstd::arithmetic::div_mod::lemma_mod_bound(p as int, d as int);
    let q = p / d;
    assert((q + 1) * d == q * d + d) by (nonlinear_arith);
    assert(q * d == d * q) by (nonlinear_arith);
    assert(2 * (r * d) <= 2 * p + d && 2 * p <= 2 * (r * d) + d);
    assert(w * g == g * w && (w + 1) * g == g * w + g) by (nonlinear_arith);
    assert(w * unit <= r * d) by (nonlinear_arith)
        requires
            w * g <= r,
            unit == d * g,
            d > 0,
    ;
    assert(r * d + d <= (w + 1) * unit) by (nonlinear_arith)
        requires
            r + 1 <= (w + 1) * g,
            unit == d * g,
            d > 0,
    ;
}

} // verus!
