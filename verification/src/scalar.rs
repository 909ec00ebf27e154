use vstd::arithmetic::power2::lemma2_to64;
use vstd::arithmetic::power2::lemma2_to64_rest;
use vstd::arithmetic::power2::lemma_pow2_strictly_increases;
use vstd::arithmetic::power2::lemma_pow2_unfold;
use vstd::arithmetic::power2::pow2;
use vstd::prelude::*;

verus! {

/// The weight of the hidden bit: two to the power of 52.
pub const HIDDEN_BIT: u64 = 0x10_0000_0000_0000;

/// Encoding of positive infinity; every larger magnitude encodes a NaN.
pub const INFINITY_BITS: u64 = 0x7FF0_0000_0000_0000;

/// The sign bit of an encoding.
pub const SIGN_BIT: u64 = 0x8000_0000_0000_0000;

/// Encoding of the number one.
pub const ONE_BITS: u64 = 0x3FF0_0000_0000_0000;

/// Encoding of one half.
pub const HALF_BITS: u64 = 0x3FE0_0000_0000_0000;

/// A binary64 number, held by its IEEE-754 encoding.
///
/// The library never does arithmetic on such a number. It classifies and
/// compares: both are decided by the encoding alone.
#[derive(Clone, Copy, Debug)]
pub struct Real {
    pub bits: u64,
}

impl Real {
    /// True when the sign bit is set.
    pub open spec fn negative(self) -> bool {
        self.bits >= SIGN_BIT
    }

    /// The encoding without its sign bit.
    pub open spec fn magnitude(self) -> int {
        if self.bits >= SIGN_BIT {
            self.bits - SIGN_BIT
        } else {
            self.bits as int
        }
    }

    /// Not a number: the exponent is all ones and the fraction is not zero.
    pub open spec fn nan(self) -> bool {
        self.magnitude() > INFINITY_BITS
    }

    /// Neither a NaN nor an infinity.
    pub open spec fn finite(self) -> bool {
        self.magnitude() < INFINITY_BITS
    }

    /// The exponent as it is stored in the encoding.
    pub open spec fn exponent_field(self) -> nat {
        (self.magnitude() / (HIDDEN_BIT as int)) as nat
    }

    /// The fraction as it is stored in the encoding.
    pub open spec fn fraction_field(self) -> nat {
        (self.magnitude() % (HIDDEN_BIT as int)) as nat
    }

    /// The absolute value of a finite number, as a multiple of the smallest
    /// positive number: the value times two to the power of 1074.
    pub open spec fn scaled(self) -> nat {
        if self.exponent_field() == 0 {
            self.fraction_field()
        } else {
            ((HIDDEN_BIT + self.fraction_field()) * pow2((self.exponent_field() - 1) as nat)) as nat
        }
    }

    /// The value of a finite number, as a multiple of the smallest positive
    /// number: the value times two to the power of 1074.
    pub open spec fn scaled_value(self) -> int {
        if self.negative() {
            -(self.scaled() as int)
        } else {
            self.scaled() as int
        }
    }

    /// Position on the number line: for numbers that are not NaN, `a < b`
    /// holds of the values exactly when `a.rank() < b.rank()`. Both zeros
    /// have rank 0.
    pub open spec fn rank(self) -> int {
        if self.negative() {
            -self.magnitude()
        } else {
            self.magnitude()
        }
    }

    /// `self < other` as binary64 numbers; false when either is a NaN.
    pub open spec fn lt_spec(self, other: Real) -> bool {
        !self.nan() && !other.nan() && self.rank() < other.rank()
    }

    /// `self <= other` as binary64 numbers; false when either is a NaN.
    pub open spec fn le_spec(self, other: Real) -> bool {
        !self.nan() && !other.nan() && self.rank() <= other.rank()
    }

    /// A number less than zero.
    pub open spec fn below_zero(self) -> bool {
        !self.nan() && self.rank() < 0
    }

    /// A number greater than zero.
    pub open spec fn above_zero(self) -> bool {
        !self.nan() && self.rank() > 0
    }

    /// The smaller of two numbers, a NaN giving way to the other one.
    pub open spec fn min_spec(self, other: Real) -> Real {
        if self.nan() {
            other
        } else if other.nan() {
            self
        } else if other.rank() < self.rank() {
            other
        } else {
            self
        }
    }

    /// The larger of two numbers, a NaN giving way to the other one.
    pub open spec fn max_spec(self, other: Real) -> Real {
        if self.nan() {
            other
        } else if other.nan() {
            self
        } else if other.rank() > self.rank() {
            other
        } else {
            self
        }
    }

    /// The number itself when it is finite, else positive zero.
    pub open spec fn finite_or_zero_spec(self) -> Real {
        if self.finite() {
            self
        } else {
            Real { bits: 0 }
        }
    }

    pub fn from_bits(bits: u64) -> (r: Real)
        ensures
            r.bits == bits,
    {
        Real { bits }
    }

    pub fn to_bits(&self) -> (bits: u64)
        ensures
            bits == self.bits,
    {
        self.bits
    }

    pub fn zero() -> (r: Real)
        ensures
            r.bits == 0,
            r.rank() == 0,
            r.finite(),
    {
        Real { bits: 0 }
    }

    pub fn one() -> (r: Real)
        ensures
            r.bits == ONE_BITS,
            r.finite(),
            r.rank() == ONE_BITS,
    {
        Real { bits: ONE_BITS }
    }

    pub fn infinity() -> (r: Real)
        ensures
            r.bits == INFINITY_BITS,
            !r.nan(),
            !r.finite(),
            forall|x: Real| !x.nan() ==> #[trigger] x.le_spec(r),
    {
        Real { bits: INFINITY_BITS }
    }

    pub fn neg_infinity() -> (r: Real)
        ensures
            r.bits == INFINITY_BITS + SIGN_BIT,
            !r.nan(),
            !r.finite(),
            forall|x: Real| !x.nan() ==> #[trigger] r.le_spec(x),
    {
        Real { bits: 0xFFF0_0000_0000_0000 }
    }

    fn magnitude_bits(&self) -> (m: u64)
        ensures
            m == self.magnitude(),
    {
        if self.bits >= SIGN_BIT {
            self.bits - SIGN_BIT
        } else {
            self.bits
        }
    }

    pub fn is_nan(&self) -> (r: bool)
        ensures
            r == self.nan(),
    {
        self.magnitude_bits() > INFINITY_BITS
    }

    pub fn is_finite(&self) -> (r: bool)
        ensures
            r == self.finite(),
    {
        self.magnitude_bits() < INFINITY_BITS
    }

    /// The number without its sign.
    pub fn abs(self) -> (r: Real)
        ensures
            r.bits == self.magnitude(),
            r.magnitude() == self.magnitude(),
            !r.negative(),
    {
        Real { bits: self.magnitude_bits() }
    }

    pub fn is_sign_negative(&self) -> (r: bool)
        ensures
            r == self.negative(),
    {
        self.bits >= SIGN_BIT
    }

    /// The rank as a machine integer, or `None` for a NaN.
    pub fn key(&self) -> (k: Option<i64>)
        ensures
            k is None <==> self.nan(),
            k is Some ==> k->0 == self.rank(),
    {
        let m = self.magnitude_bits();
        if m > INFINITY_BITS {
            None
        } else if self.bits >= SIGN_BIT {
            Some(-(m as i64))
        } else {
            Some(m as i64)
        }
    }

    pub fn lt(&self, other: &Real) -> (r: bool)
        ensures
            r == self.lt_spec(*other),
    {
        match (self.key(), other.key()) {
            (Some(a), Some(b)) => a < b,
            _ => false,
        }
    }

    pub fn le(&self, other: &Real) -> (r: bool)
        ensures
            r == self.le_spec(*other),
    {
        match (self.key(), other.key()) {
            (Some(a), Some(b)) => a <= b,
            _ => false,
        }
    }

    pub fn gt(&self, other: &Real) -> (r: bool)
        ensures
            r == other.lt_spec(*self),
    {
        other.lt(self)
    }

    pub fn ge(&self, other: &Real) -> (r: bool)
        ensures
            r == other.le_spec(*self),
    {
        other.le(self)
    }

    pub fn min(self, other: Real) -> (r: Real)
        ensures
            r == self.min_spec(other),
    {
        if self.is_nan() {
            other
        } else if other.lt(&self) {
            other
        } else {
            self
        }
    }

    pub fn max(self, other: Real) -> (r: Real)
        ensures
            r == self.max_spec(other),
    {
        if self.is_nan() {
            other
        } else if other.gt(&self) {
            other
        } else {
            self
        }
    }

    /// The number `k / 2^53`, for `k` below `2^53`: a number in `[0, 1)`.
    /// The conversion is exact.
    pub(crate) fn from_unit_fraction(k: u64) -> (r: Real)
        requires
            k < 2 * HIDDEN_BIT,
        ensures
            r.finite(),
            !r.negative(),
            r.bits < ONE_BITS,
            r.scaled() == k * pow2(1021),
            r.bits < HALF_BITS <==> k < HIDDEN_BIT,
    {
        if k == 0 {
            return Real { bits: 0 };
        }
        let mut m: u64 = k;
        let mut e: u64 = 1022;
        proof {
            lemma2_to64();
            lemma2_to64_rest();
        }
        while m < HIDDEN_BIT
            invariant
                1 <= m < 2 * HIDDEN_BIT,
                1 <= e <= 1022,
                e == 1022 <==> m == k,
                k >= HIDDEN_BIT ==> m == k,
                m >= k,
                m * pow2((e - 1) as nat) == k * pow2(1021),
                1 <= k < 2 * HIDDEN_BIT,
            decreases e,
        {
            proof {
                lemma2_to64();
                lemma2_to64_rest();
                if e <= 970 {
                    if e < 970 {
                        lemma_pow2_strictly_increases((e - 1) as nat, 969);
                    }
                    lemma_pow2_strictly_increases(969, 1021);
                    lemma_pow2_unfold(1021);
                    assert(pow2(1021) == pow2(52) * pow2(969)) by {
                        vstd::arithmetic::power2::lemma_pow2_adds(52, 969);
                    }
                    assert(m * pow2((e - 1) as nat) < k * pow2(1021)) by (nonlinear_arith)
                        requires
                            1 <= m < pow2(52),
                            pow2((e - 1) as nat) <= pow2(969),
                            pow2(1021) == pow2(52) * pow2(969),
                            k >= 1,
                            pow2(969) > 0,
                    ;
                    assert(false);
                }
                lemma_pow2_unfold((e - 1) as nat);
                assert((2 * m) * pow2((e - 2) as nat) == m * pow2((e - 1) as nat)) by (nonlinear_arith)
                    requires
                        pow2((e - 1) as nat) == 2 * pow2((e - 2) as nat),
                ;
            }
            m = 2 * m;
            e = e - 1;
        }
        let r = Real { bits: e * HIDDEN_BIT + (m - HIDDEN_BIT) };
        proof {
            assert(e * HIDDEN_BIT <= 1022 * HIDDEN_BIT) by (nonlinear_arith)
                requires
                    e <= 1022,
            ;
            assert(e <= 1021 ==> e * HIDDEN_BIT <= 1021 * HIDDEN_BIT) by (nonlinear_arith);
            assert(1022 * HIDDEN_BIT == HALF_BITS);
            if k < HIDDEN_BIT {
                assert(m != k);
                assert(e <= 1021);
                assert(r.bits < HALF_BITS);
            } else {
                assert(m == k && e == 1022);
                assert(r.bits >= HALF_BITS);
            }
            assert(r.magnitude() == e * HIDDEN_BIT + (m - HIDDEN_BIT));
            assert(r.exponent_field() == e && r.fraction_field() == m - HIDDEN_BIT) by {
                vstd::arithmetic::div_mod::lemma_fundamental_div_mod_converse(
                    r.magnitude(),
                    HIDDEN_BIT as int,
                    e as int,
                    (m - HIDDEN_BIT) as int,
                );
            }
        }
        r
    }

    /// Replaces a NaN or an infinity by zero, so that what is added up stays
    /// a number.
    pub fn finite_or_zero(self) -> (r: Real)
        ensures
            r == self.finite_or_zero_spec(),
            r.finite(),
    {
        if self.is_finite() {
            self
        } else {
            Real { bits: 0 }
        }
    }
}

/// On numbers, `<` is irreflexive and transitive, and two numbers of which
/// neither is less than the other have the same rank.
pub proof fn lemma_lt_strict_order(a: Real, b: Real, c: Real)
    ensures
        !a.lt_spec(a),
        a.lt_spec(b) && b.lt_spec(c) ==> a.lt_spec(c),
        a.lt_spec(b) ==> !b.lt_spec(a),
        !a.nan() && !b.nan() && !a.lt_spec(b) && !b.lt_spec(a) ==> a.rank() == b.rank(),
        a.le_spec(b) <==> (a.lt_spec(b) || (!a.nan() && !b.nan() && a.rank() == b.rank())),
{
}

/// Of two finite numbers without sign, the one with the smaller encoding
/// has the smaller value.
proof fn lemma_magnitude_orders_values(a: Real, b: Real)
    requires
        a.finite(),
        b.finite(),
        a.magnitude() < b.magnitude(),
    ensures
        a.scaled() < b.scaled(),
{
    lemma2_to64();
    lemma2_to64_rest();
    let h = HIDDEN_BIT as int;
    let ma = a.magnitude();
    let mb = b.magnitude();
    let ea = a.exponent_field() as int;
    let eb = b.exponent_field() as int;
    let fa = a.fraction_field() as int;
    let fb = b.fraction_field() as int;
    vstd::arithmetic::div_mod::lemma_fundamental_div_mod(ma, h);
    vstd::arithmetic::div_mod::lemma_fundamental_div_mod(mb, h);
    assert(ma == h * ea + fa && mb == h * eb + fb);
    assert(0 <= fa < h && 0 <= fb < h);
    assert(ea <= eb) by (nonlinear_arith)
        requires
            ma == h * ea + fa,
            mb == h * eb + fb,
            0 <= fa < h,
            0 <= fb < h,
            ma < mb,
            h > 0,
    ;
    if ea == eb {
        assert(fa < fb);
        if ea > 0 {
            let p = pow2((ea - 1) as nat) as int;
            vstd::arithmetic::power2::lemma_pow2_pos((ea - 1) as nat);
            assert((h + fa) * p < (h + fb) * p) by (nonlinear_arith)
                requires
                    fa < fb,
                    p > 0,
            ;
        }
    } else {
        let q = pow2((eb - 1) as nat) as int;
        vstd::arithmetic::power2::lemma_pow2_pos((eb - 1) as nat);
        assert(h <= (h + fb) * q) by (nonlinear_arith)
            requires
                q >= 1,
                fb >= 0,
                h >= 0,
        ;
        if ea > 0 {
            let p = pow2((ea - 1) as nat) as int;
            vstd::arithmetic::power2::lemma_pow2_pos((ea - 1) as nat);
            lemma_pow2_unfold(ea as nat);
            if ea < eb - 1 {
                lemma_pow2_strictly_increases(ea as nat, (eb - 1) as nat);
            }
            assert(2 * p <= q);
            assert((h + fa) * p < (h + fb) * q) by (nonlinear_arith)
                requires
                    0 <= fa < h,
                    0 <= fb,
                    p > 0,
                    2 * p <= q,
            ;
        }
    }
}

/// The rank orders finite numbers as their values do.
pub proof fn lemma_rank_orders_values(a: Real, b: Real)
    requires
        a.finite(),
        b.finite(),
    ensures
        a.rank() < b.rank() <==> a.scaled_value() < b.scaled_value(),
        a.rank() == b.rank() <==> a.scaled_value() == b.scaled_value(),
{
    lemma2_to64();
    lemma2_to64_rest();
    let zero = Real { bits: 0 };
    assert(zero.scaled() == 0);
    if a.magnitude() < b.magnitude() {
        lemma_magnitude_orders_values(a, b);
    }
    if b.magnitude() < a.magnitude() {
        lemma_magnitude_orders_values(b, a);
    }
    if a.magnitude() == b.magnitude() {
        assert(a.scaled() == b.scaled());
    }
    if a.magnitude() > 0 {
        assert(zero.finite());
        lemma_magnitude_orders_values(zero, a);
    }
    if b.magnitude() > 0 {
        lemma_magnitude_orders_values(zero, b);
    }
}

} // verus!
