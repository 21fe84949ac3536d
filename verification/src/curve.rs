//! BN254 field elements, curve points and the pairing, as computed by the
//! arkworks crates. Every function here that is marked `external_body` is
//! trusted: its contract restates what the arkworks source does and is not
//! proved.

use vstd::prelude::*;
use crate::decimal::{
    decimal_value, is_canonical_decimal, lemma_decimal_value_bounds, lemma_pow10_monotonic,
};
use ark_ec::pairing::Pairing;
use ark_ec::AffineRepr;
use ark_ec::CurveGroup;
use ark_ff::Zero;
use std::str::FromStr;

verus! {

/// The base-field modulus of BN254, as a numeral.
pub const FQ_MODULUS_DECIMAL: &'static str =
    "21888242871839275222246405745257275088696311157297823662689037894645226208583";

/// The scalar-field modulus of BN254 (the order of its groups), as a numeral.
pub const FR_MODULUS_DECIMAL: &'static str =
    "21888242871839275222246405745257275088548364400416034343698204186575808495617";

/// The base-field modulus `q`.
pub open spec fn fq_modulus() -> nat {
    decimal_value(FQ_MODULUS_DECIMAL@)
}

/// The scalar-field modulus `r`.
pub open spec fn fr_modulus() -> nat {
    decimal_value(FR_MODULUS_DECIMAL@)
}

/// A G1 point in affine coordinates, each coordinate a canonical residue.
pub struct G1Value {
    pub x: nat,
    pub y: nat,
    pub infinity: bool,
}

/// A G2 point in affine coordinates over the quadratic extension:
/// `x = x_c0 + x_c1 * u` and `y = y_c0 + y_c1 * u`.
pub struct G2Value {
    pub x_c0: nat,
    pub x_c1: nat,
    pub y_c0: nat,
    pub y_c1: nat,
    pub infinity: bool,
}

/// An element of the base field, held as arkworks holds it.
#[verifier::external_body]
pub struct FqElement {
    inner: ark_bn254::Fq,
}

/// An element of the scalar field, held as arkworks holds it.
#[verifier::external_body]
pub struct FrElement {
    inner: ark_bn254::Fr,
}

/// A point with coordinates in the base field, held as arkworks holds it.
#[verifier::external_body]
pub struct G1Point {
    inner: ark_bn254::G1Affine,
}

/// A point with coordinates in the quadratic extension, held as arkworks holds it.
#[verifier::external_body]
pub struct G2Point {
    inner: ark_bn254::G2Affine,
}

/// The canonical residue that an `FqElement` holds.
pub uninterp spec fn fq_value(e: FqElement) -> nat;

/// The canonical residue that an `FrElement` holds.
pub uninterp spec fn fr_value(e: FrElement) -> nat;

/// The coordinates that a `G1Point` holds.
pub uninterp spec fn g1_value(p: G1Point) -> G1Value;

/// The coordinates that a `G2Point` holds.
pub uninterp spec fn g2_value(p: G2Point) -> G2Value;

/// Whether a G2 point satisfies the twist's curve equation.
pub uninterp spec fn g2_on_curve(p: G2Value) -> bool;

/// Whether a G2 point lies in the subgroup of prime order `r`.
pub uninterp spec fn g2_in_subgroup(p: G2Value) -> bool;

/// The sum of two G1 points under the group law.
pub uninterp spec fn g1_sum(a: G1Value, b: G1Value) -> G1Value;

/// The multiple of a G1 point by a scalar.
pub uninterp spec fn g1_scaled(p: G1Value, s: nat) -> G1Value;

/// Whether the product of the pairings of `g1s[i]` with `g2s[i]` is the
/// identity of the target group.
pub uninterp spec fn pairing_product_is_identity(g1s: Seq<G1Value>, g2s: Seq<G2Value>) -> bool;

impl View for FqElement {
    type V = nat;

    open spec fn view(&self) -> nat {
        fq_value(*self)
    }
}

impl View for FrElement {
    type V = nat;

    open spec fn view(&self) -> nat {
        fr_value(*self)
    }
}

impl View for G1Point {
    type V = G1Value;

    open spec fn view(&self) -> G1Value {
        g1_value(*self)
    }
}

impl View for G2Point {
    type V = G2Value;

    open spec fn view(&self) -> G2Value {
        g2_value(*self)
    }
}

/// The G1 curve equation `y^2 = x^3 + 3` over the base field; the point at
/// infinity counts as on the curve.
pub open spec fn g1_on_curve(p: G1Value) -> bool {
    p.infinity || (p.y * p.y) % fq_modulus() == (p.x * p.x * p.x + 3) % fq_modulus()
}

/// The inverse of a G1 point: the same `x`, and `-y` in the base field.
pub open spec fn g1_negated(p: G1Value) -> G1Value {
    G1Value {
        x: p.x,
        y: ((fq_modulus() - p.y) % (fq_modulus() as int)) as nat,
        infinity: p.infinity,
    }
}

/// The two modulus numerals are canonical, and the moduli are positive.
pub proof fn lemma_modulus_numerals_canonical()
    ensures
        is_canonical_decimal(FQ_MODULUS_DECIMAL@),
        is_canonical_decimal(FR_MODULUS_DECIMAL@),
        fq_modulus() > 0,
        fr_modulus() > 0,
{
    reveal_strlit("21888242871839275222246405745257275088696311157297823662689037894645226208583");
    reveal_strlit("21888242871839275222246405745257275088548364400416034343698204186575808495617");
    lemma_decimal_value_bounds(FQ_MODULUS_DECIMAL@);
    lemma_decimal_value_bounds(FR_MODULUS_DECIMAL@);
    lemma_pow10_monotonic(0, (FQ_MODULUS_DECIMAL@.len() - 1) as nat);
    lemma_pow10_monotonic(0, (FR_MODULUS_DECIMAL@.len() - 1) as nat);
}

/// The inverse of a point of the curve is a point of the curve.
pub proof fn lemma_negation_stays_on_curve(p: G1Value)
    requires
        g1_on_curve(p),
    ensures
        g1_on_curve(g1_negated(p)),
{
    lemma_modulus_numerals_canonical();
    if !p.infinity {
        let q = fq_modulus() as int;
        let y = p.y as int;
        let d = q - y;
        let n = d % q;
        assert(0 <= n < q) by {
            vstd::arithmetic::div_mod::lemma_mod_bound(d, q);
        }
        assert((n * n) % q == (d * d) % q) by {
            vstd::arithmetic::div_mod::lemma_mul_mod_noop_general(d, d, q);
        }
        assert(d * d == y * y + q * (q - 2 * y)) by (nonlinear_arith)
            requires
                d == q - y,
        ;
        assert((y * y + q * (q - 2 * y)) % q == (y * y) % q) by {
            vstd::arithmetic::div_mod::lemma_mod_multiples_vanish(q - 2 * y, y * y, q);
            assert(q * (q - 2 * y) == (q - 2 * y) * q) by (nonlinear_arith);
            assert(y * y + q * (q - 2 * y) == q * (q - 2 * y) + y * y);
        }
        let m = g1_negated(p);
        assert(m.y == n);
        assert(m.y * m.y == n * n);
        assert(p.y * p.y == y * y);
    }
}

/// Calls `<ark_bn254::Fq as FromStr>::from_str`. That function accepts
/// exactly the canonical numerals and reduces the number they denote
/// modulo `q`.
#[verifier::external_body]
pub(crate) fn fq_from_str(s: &str) -> (r: Option<FqElement>)
    ensures
        r is Some <==> is_canonical_decimal(s@),
        r is Some ==> fq_value(r->0) == decimal_value(s@) % fq_modulus(),
{
    match ark_bn254::Fq::from_str(s) {
        Ok(inner) => Some(FqElement { inner }),
        Err(_) => None,
    }
}

/// Calls `<ark_bn254::Fr as FromStr>::from_str`. That function accepts
/// exactly the canonical numerals and reduces the number they denote
/// modulo `r`.
#[verifier::external_body]
pub(crate) fn fr_from_str(s: &str) -> (r: Option<FrElement>)
    ensures
        r is Some <==> is_canonical_decimal(s@),
        r is Some ==> fr_value(r->0) == decimal_value(s@) % fr_modulus(),
{
    match ark_bn254::Fr::from_str(s) {
        Ok(inner) => Some(FrElement { inner }),
        Err(_) => None,
    }
}

/// Calls `G1Affine::new_unchecked`, which stores the two coordinates as
/// they are and marks the point as finite. No curve check is made.
#[verifier::external_body]
pub(crate) fn g1_new_unchecked(x: &FqElement, y: &FqElement) -> (r: G1Point)
    ensures
        g1_value(r) == (G1Value { x: fq_value(*x), y: fq_value(*y), infinity: false }),
{
    G1Point { inner: ark_bn254::G1Affine::new_unchecked(x.inner, y.inner) }
}

/// Calls `Affine::is_on_curve` on a G1 point, which tests `y^2 = x^3 + 3`
/// in the base field and accepts the point at infinity.
#[verifier::external_body]
pub(crate) fn g1_is_on_curve(p: &G1Point) -> (r: bool)
    ensures
        r == g1_on_curve(g1_value(*p)),
{
    p.inner.is_on_curve()
}

/// Calls `G2Affine::new_unchecked` on two extension-field elements built
/// with `Fq2::new(c0, c1)`. The coordinates are stored as they are and the
/// point is marked as finite. No curve or subgroup check is made.
#[verifier::external_body]
pub(crate) fn g2_new_unchecked(
    x_c0: &FqElement,
    x_c1: &FqElement,
    y_c0: &FqElement,
    y_c1: &FqElement,
) -> (r: G2Point)
    ensures
        g2_value(r) == (G2Value {
            x_c0: fq_value(*x_c0),
            x_c1: fq_value(*x_c1),
            y_c0: fq_value(*y_c0),
            y_c1: fq_value(*y_c1),
            infinity: false,
        }),
{
    let x = ark_bn254::Fq2::new(x_c0.inner, x_c1.inner);
    let y = ark_bn254::Fq2::new(y_c0.inner, y_c1.inner);
    G2Point { inner: ark_bn254::G2Affine::new_unchecked(x, y) }
}

/// Calls `Affine::is_on_curve` on a G2 point. The answer depends on the
/// coordinates alone.
#[verifier::external_body]
pub(crate) fn g2_is_on_curve(p: &G2Point) -> (r: bool)
    ensures
        r == g2_on_curve(g2_value(*p)),
{
    p.inner.is_on_curve()
}

/// Calls `Affine::is_in_correct_subgroup_assuming_on_curve` on a G2 point.
/// The answer depends on the coordinates alone.
#[verifier::external_body]
pub(crate) fn g2_is_in_subgroup(p: &G2Point) -> (r: bool)
    ensures
        r == g2_in_subgroup(g2_value(*p)),
{
    p.inner.is_in_correct_subgroup_assuming_on_curve()
}

/// Calls the `Add` of two G1 affine points and normalises the sum with
/// `into_affine`. The sum of two points of the curve is a point of the curve.
#[verifier::external_body]
pub(crate) fn g1_add(a: &G1Point, b: &G1Point) -> (r: G1Point)
    ensures
        g1_value(r) == g1_sum(g1_value(*a), g1_value(*b)),
        g1_on_curve(g1_value(*a)) && g1_on_curve(g1_value(*b)) ==> g1_on_curve(g1_value(r)),
{
    G1Point { inner: (a.inner + b.inner).into_affine() }
}

/// Calls the `Mul` of a G1 point (as a group element) by a scalar and
/// normalises the product with `into_affine`. A multiple of a point of the
/// curve is a point of the curve.
#[verifier::external_body]
pub(crate) fn g1_mul(p: &G1Point, s: &FrElement) -> (r: G1Point)
    ensures
        g1_value(r) == g1_scaled(g1_value(*p), fr_value(*s)),
        g1_on_curve(g1_value(*p)) ==> g1_on_curve(g1_value(r)),
{
    G1Point { inner: (p.inner.into_group() * s.inner).into_affine() }
}

/// Calls the `Neg` of a G1 affine point, which negates `y` in the base
/// field and leaves `x` and the infinity mark alone.
#[verifier::external_body]
pub(crate) fn g1_neg(p: &G1Point) -> (r: G1Point)
    ensures
        g1_value(r) == g1_negated(g1_value(*p)),
{
    G1Point { inner: -p.inner }
}

/// Calls `Bn254::multi_pairing` on four pairs of points, with one final
/// exponentiation, and `is_zero` on its result, which tells whether that
/// result is the identity of the target group. The pairing is defined on
/// points of the curves, those of G2 in the subgroup of prime order.
#[verifier::external_body]
pub(crate) fn pairing_check(g1s: [&G1Point; 4], g2s: [&G2Point; 4]) -> (r: bool)
    requires
        forall|i: int| 0 <= i < 4 ==> g1_on_curve(g1_value(*#[trigger] g1s[i])),
        forall|i: int|
            0 <= i < 4 ==> g2_on_curve(g2_value(*#[trigger] g2s[i])) && g2_in_subgroup(
                g2_value(*g2s[i]),
            ),
    ensures
        r == pairing_product_is_identity(
            Seq::new(4, |i: int| g1_value(*g1s[i])),
            Seq::new(4, |i: int| g2_value(*g2s[i])),
        ),
{
    let a = [g1s[0].inner, g1s[1].inner, g1s[2].inner, g1s[3].inner];
    let b = [g2s[0].inner, g2s[1].inner, g2s[2].inner, g2s[3].inner];
    ark_bn254::Bn254::multi_pairing(a, b).is_zero()
}

} // verus!
