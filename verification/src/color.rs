use vstd::arithmetic::power2::lemma2_to64;
use vstd::arithmetic::power2::lemma2_to64_rest;
use vstd::arithmetic::power2::lemma_pow2_adds;
use vstd::arithmetic::power2::lemma_pow2_pos;
use vstd::arithmetic::power2::lemma_pow2_strictly_increases;
use vstd::arithmetic::power2::pow2;
use vstd::prelude::*;
use crate::interval::Interval;
use crate::scalar::Real;
use crate::scalar::HIDDEN_BIT;
use crate::scalar::ONE_BITS;
use crate::vec3::Vec3;

verus! {

pub type Color = Vec3;

/// Encoding of `0.999`, the brightest that a component is shown.
pub const BRIGHTEST_BITS: u64 = 0x3FEF_F7CE_D916_872B;

/// `m` gives the square root that the caller's `sqrt` computes.
pub open spec fn sqrt_model<F: Fn(Real) -> Real>(sqrt: &F, m: spec_fn(Real) -> Real) -> bool {
    forall|x: Real, r: Real| sqrt.ensures((x,), r) ==> r == m(x)
}

/// The display value of a linear component: its square root when it is
/// above zero, and zero otherwise.
pub open spec fn gamma_spec(linear: Real, m: spec_fn(Real) -> Real) -> Real {
    if linear.above_zero() {
        m(linear)
    } else {
        Real { bits: 0 }
    }
}

/// The byte that a number is shown as: `256` times the number, rounded
/// towards zero and held to `0 ..= 255`. A NaN gives 0.
pub open spec fn byte_spec(x: Real) -> int {
    if x.nan() || x.negative() {
        0
    } else if x.bits >= ONE_BITS {
        255
    } else {
        x.scaled() as int / pow2(1066) as int
    }
}

/// The range in which a component is shown.
pub open spec fn intensity() -> Interval {
    Interval { min: Real { bits: 0 }, max: Real { bits: BRIGHTEST_BITS } }
}

/// The byte of one component of a colour: a NaN counts as zero, the
/// display value is held to `[0, 0.999]`, and the result is its byte.
pub open spec fn component_spec(linear: Real, m: spec_fn(Real) -> Real) -> int {
    let c = if linear.nan() {
        Real { bits: 0 }
    } else {
        linear
    };
    byte_spec(intensity().clamp_spec(gamma_spec(c, m)))
}

pub fn linear_to_gamma<F: Fn(Real) -> Real>(linear_component: Real, sqrt: &F) -> (r: Real)
    requires
        forall|x: Real| sqrt.requires((x,)),
    ensures
        !linear_component.above_zero() ==> r.bits == 0,
        forall|m: spec_fn(Real) -> Real| #[trigger]
            sqrt_model(sqrt, m) ==> r == gamma_spec(linear_component, m),
{
    if linear_component.gt(&Real::zero()) {
        sqrt(linear_component)
    } else {
        Real::zero()
    }
}

/// The byte that a number is shown as.
pub fn to_byte(x: Real) -> (b: u8)
    ensures
        b == byte_spec(x),
{
    if x.is_nan() || x.is_sign_negative() {
        return 0;
    }
    if x.bits >= ONE_BITS {
        return 255;
    }
    let e = x.bits / HIDDEN_BIT;
    let f = x.bits % HIDDEN_BIT;
    proof {
        lemma2_to64();
        lemma2_to64_rest();
        assert(x.magnitude() == x.bits);
        assert(e == x.exponent_field() && f == x.fraction_field());
        assert(e <= 1022);
    }
    if e <= 1014 {
        proof {
            lemma_small_is_dark(e as nat, f as nat);
        }
        return 0;
    }
    let m = HIDDEN_BIT + f;
    let shift = 1067 - e;
    let b = m >> shift;
    proof {
        lemma_shift_is_quotient(m, shift, e as nat);
    }
    b as u8
}

/// A number below `2^-8` is shown as 0.
proof fn lemma_small_is_dark(e: nat, f: nat)
    requires
        e <= 1014,
        f < HIDDEN_BIT,
    ensures
        e == 0 ==> (f as int) / (pow2(1066) as int) == 0,
        e > 0 ==> (((HIDDEN_BIT + f) * pow2((e - 1) as nat)) as int) / (pow2(1066) as int) == 0,
{
    lemma2_to64();
    lemma2_to64_rest();
    lemma_pow2_pos(1066);
    lemma_pow2_strictly_increases(52, 1066);
    if e == 0 {
        vstd::arithmetic::div_mod::lemma_basic_div(f as int, pow2(1066) as int);
    } else {
        let p = pow2((e - 1) as nat);
        lemma_pow2_pos((e - 1) as nat);
        lemma_pow2_adds(53, (e - 1) as nat);
        if e + 52 < 1066 {
            lemma_pow2_strictly_increases((e + 52) as nat, 1066);
        }
        assert((HIDDEN_BIT + f) * p < pow2(53) * p) by (nonlinear_arith)
            requires
                HIDDEN_BIT + f < pow2(53),
                p > 0,
        ;
        assert(pow2(53) * p == pow2((e + 52) as nat));
        vstd::arithmetic::div_mod::lemma_basic_div(
            ((HIDDEN_BIT + f) * p) as int,
            pow2(1066) as int,
        );
    }
}

/// Shifting the significand of a number in `[2^-8, 1)` to the right gives
/// `256` times the number, rounded down.
proof fn lemma_shift_is_quotient(m: u64, shift: u64, e: nat)
    requires
        1015 <= e <= 1022,
        shift == 1067 - e,
        HIDDEN_BIT <= m < 2 * HIDDEN_BIT,
    ensures
        (m >> shift) as int == ((m * pow2((e - 1) as nat)) as int) / (pow2(1066) as int),
        (m >> shift) <= 255,
{
    lemma2_to64();
    lemma2_to64_rest();
    let p = pow2((e - 1) as nat) as int;
    let q = pow2(shift as nat) as int;
    let mi = m as int;
    lemma_pow2_pos((e - 1) as nat);
    lemma_pow2_pos(shift as nat);
    lemma_pow2_adds((e - 1) as nat, shift as nat);
    assert(p * q == pow2(1066) as int);
    vstd::bits::lemma_u64_shr_is_div(m, shift);
    assert((m >> shift) as int == mi / q);
    vstd::arithmetic::div_mod::lemma_div_multiples_vanish_quotient(p, mi, q);
    assert((p * mi) / (p * q) == mi / q);
    assert(mi * p == p * mi) by (nonlinear_arith);
    lemma_pow2_adds(45, (shift - 45) as nat);
    lemma_pow2_pos((shift - 45) as nat);
    assert(q >= 0x2000_0000_0000) by (nonlinear_arith)
        requires
            q == 0x2000_0000_0000 * pow2((shift - 45) as nat),
            pow2((shift - 45) as nat) >= 1,
    ;
    assert(mi / q <= 255) by (nonlinear_arith)
        requires
            0 <= mi < 0x20_0000_0000_0000,
            q >= 0x2000_0000_0000,
    ;
}

/// The byte of one component of a colour.
fn component<F: Fn(Real) -> Real>(linear: Real, sqrt: &F) -> (b: u8)
    requires
        forall|x: Real| sqrt.requires((x,)),
    ensures
        forall|m: spec_fn(Real) -> Real| #[trigger]
            sqrt_model(sqrt, m) ==> b == component_spec(linear, m),
{
    let c = if linear.is_nan() {
        Real::zero()
    } else {
        linear
    };
    let shown = linear_to_gamma(c, sqrt);
    let range = Interval::new(Real::zero(), Real::from_bits(BRIGHTEST_BITS));
    to_byte(range.clamp(shown))
}

/// Turns a linear colour into the three bytes of a pixel: red, green,
/// blue. `sqrt` computes the square root.
pub fn write_color<F: Fn(Real) -> Real>(pixel_color: &Color, sqrt: &F) -> (rgb: [u8; 3])
    requires
        forall|x: Real| sqrt.requires((x,)),
    ensures
        forall|m: spec_fn(Real) -> Real| #[trigger]
            sqrt_model(sqrt, m) ==> rgb[0] == component_spec(pixel_color.x, m) && rgb[1]
                == component_spec(pixel_color.y, m) && rgb[2] == component_spec(pixel_color.z, m),
{
    let r = component(pixel_color.x, sqrt);
    let g = component(pixel_color.y, sqrt);
    let b = component(pixel_color.z, sqrt);
    [r, g, b]
}

} // verus!
