//! Parsing of field elements and curve points from their wire form, and the
//! Groth16 verification equation.

use vstd::prelude::*;
use vstd::string::*;
use crate::curve::{
    fq_from_str, fq_modulus, fr_from_str, fr_modulus, g1_add, g1_is_on_curve, g1_mul, g1_neg,
    g1_negated, g1_new_unchecked, g1_on_curve, g1_scaled, g1_sum, g1_value, g2_in_subgroup,
    g2_is_in_subgroup, g2_is_on_curve, g2_new_unchecked, g2_on_curve, g2_value,
    lemma_modulus_numerals_canonical, lemma_negation_stays_on_curve, pairing_check,
    pairing_product_is_identity, FqElement, FrElement, G1Point, G1Value, G2Point, G2Value,
    FQ_MODULUS_DECIMAL, FR_MODULUS_DECIMAL,
};
use crate::decimal::{
    decimal_digits, decimal_less_than, decimal_value, is_canonical_decimal,
    lemma_decimal_digits_value, u128_to_decimal,
};
use crate::errors::{ContractError, ErrorView};
use crate::types::{text_rows, texts, Groth16Proof, VerificationKey};

verus! {

/// A numeral that is accepted as an element of the base field: canonical,
/// and below the modulus `q`.
pub open spec fn fq_wire_ok(s: Seq<char>) -> bool {
    is_canonical_decimal(s) && decimal_value(s) < fq_modulus()
}

/// A numeral that is accepted as an element of the scalar field: canonical,
/// and below the modulus `r`.
pub open spec fn fr_wire_ok(s: Seq<char>) -> bool {
    is_canonical_decimal(s) && decimal_value(s) < fr_modulus()
}

/// The error for a text that is no field element.
pub open spec fn field_parse_error(s: Seq<char>) -> ErrorView {
    ErrorView::InvalidProofFormat("Cannot parse field element: "@ + s)
}

fn field_error(s: &str) -> (e: ContractError)
    ensures
        e@ == field_parse_error(s@),
{
    let mut msg = String::from_str("Cannot parse field element: ");
    msg.append(s);
    ContractError::InvalidProofFormat(msg)
}

/// Parse a decimal string into an element of the base field.
pub fn parse_fq_element(s: &str) -> (r: Result<FqElement, ContractError>)
    ensures
        r is Ok <==> fq_wire_ok(s@),
        r is Ok ==> (r->Ok_0)@ == decimal_value(s@),
        r is Err ==> (r->Err_0)@ == field_parse_error(s@),
{
    match fq_from_str(s) {
        None => Err(field_error(s)),
        Some(e) => {
            proof {
                lemma_modulus_numerals_canonical();
            }
            if decimal_less_than(s, FQ_MODULUS_DECIMAL) {
                proof {
                    vstd::arithmetic::div_mod::lemma_small_mod(decimal_value(s@), fq_modulus());
                }
                Ok(e)
            } else {
                Err(field_error(s))
            }
        },
    }
}

/// Parse a decimal string into an element of the scalar field.
pub fn parse_fr_element(s: &str) -> (r: Result<FrElement, ContractError>)
    ensures
        r is Ok <==> fr_wire_ok(s@),
        r is Ok ==> (r->Ok_0)@ == decimal_value(s@),
        r is Err ==> (r->Err_0)@ == field_parse_error(s@),
{
    match fr_from_str(s) {
        None => Err(field_error(s)),
        Some(e) => {
            proof {
                lemma_modulus_numerals_canonical();
            }
            if decimal_less_than(s, FR_MODULUS_DECIMAL) {
                proof {
                    vstd::arithmetic::div_mod::lemma_small_mod(decimal_value(s@), fr_modulus());
                }
                Ok(e)
            } else {
                Err(field_error(s))
            }
        },
    }
}

/// The G1 point that a wire form denotes: the first two numerals are `x` and `y`.
pub open spec fn g1_wire_point(coords: Seq<Seq<char>>) -> G1Value {
    G1Value { x: decimal_value(coords[0]), y: decimal_value(coords[1]), infinity: false }
}

/// Why a wire form is no G1 point, or `None` where it is one.
pub open spec fn g1_wire_error(coords: Seq<Seq<char>>) -> Option<ErrorView> {
    if coords.len() < 2 {
        Some(ErrorView::InvalidProofFormat("G1 point requires at least 2 coordinates"@))
    } else if !fq_wire_ok(coords[0]) {
        Some(field_parse_error(coords[0]))
    } else if !fq_wire_ok(coords[1]) {
        Some(field_parse_error(coords[1]))
    } else if !g1_on_curve(g1_wire_point(coords)) {
        Some(ErrorView::InvalidProofFormat("G1 point is not on curve"@))
    } else {
        None
    }
}

/// The G2 point that a wire form denotes. Each pair of the wire form holds
/// the coefficient of `u` first and the constant coefficient second.
pub open spec fn g2_wire_point(coords: Seq<Seq<Seq<char>>>) -> G2Value {
    G2Value {
        x_c0: decimal_value(coords[0][1]),
        x_c1: decimal_value(coords[0][0]),
        y_c0: decimal_value(coords[1][1]),
        y_c1: decimal_value(coords[1][0]),
        infinity: false,
    }
}

/// Why a wire form is no G2 point of the prime-order subgroup, or `None`
/// where it is one.
pub open spec fn g2_wire_error(coords: Seq<Seq<Seq<char>>>) -> Option<ErrorView> {
    if coords.len() < 2 {
        Some(ErrorView::InvalidProofFormat("G2 point requires at least 2 coordinate pairs"@))
    } else if coords[0].len() < 2 || coords[1].len() < 2 {
        Some(ErrorView::InvalidProofFormat("G2 coordinate pair requires 2 elements"@))
    } else if !fq_wire_ok(coords[0][0]) {
        Some(field_parse_error(coords[0][0]))
    } else if !fq_wire_ok(coords[0][1]) {
        Some(field_parse_error(coords[0][1]))
    } else if !fq_wire_ok(coords[1][0]) {
        Some(field_parse_error(coords[1][0]))
    } else if !fq_wire_ok(coords[1][1]) {
        Some(field_parse_error(coords[1][1]))
    } else if !g2_on_curve(g2_wire_point(coords)) {
        Some(ErrorView::InvalidProofFormat("G2 point is not on curve"@))
    } else if !g2_in_subgroup(g2_wire_point(coords)) {
        Some(ErrorView::InvalidProofFormat("G2 point is not in the correct subgroup"@))
    } else {
        None
    }
}

/// The wire form of a finite G1 point: the numerals of `x` and `y`.
pub open spec fn g1_wire_form(p: G1Value) -> Seq<Seq<char>> {
    seq![decimal_digits(p.x), decimal_digits(p.y)]
}

/// The wire form of a finite G2 point: for `x` and for `y` a pair that
/// holds the numeral of the coefficient of `u` first.
pub open spec fn g2_wire_form(p: G2Value) -> Seq<Seq<Seq<char>>> {
    seq![
        seq![decimal_digits(p.x_c1), decimal_digits(p.x_c0)],
        seq![decimal_digits(p.y_c1), decimal_digits(p.y_c0)],
    ]
}

/// Round trip in G1: the wire form of a finite point of the curve is
/// accepted and denotes that point.
pub proof fn lemma_g1_round_trip(p: G1Value)
    requires
        !p.infinity,
        p.x < fq_modulus(),
        p.y < fq_modulus(),
        g1_on_curve(p),
    ensures
        g1_wire_error(g1_wire_form(p)) is None,
        g1_wire_point(g1_wire_form(p)) == p,
{
    lemma_decimal_digits_value(p.x);
    lemma_decimal_digits_value(p.y);
}

/// Round trip in G2: the wire form of a finite point of the curve's
/// prime-order subgroup is accepted and denotes that point, each pair
/// being read as `[c1, c0]`.
pub proof fn lemma_g2_round_trip(p: G2Value)
    requires
        !p.infinity,
        p.x_c0 < fq_modulus(),
        p.x_c1 < fq_modulus(),
        p.y_c0 < fq_modulus(),
        p.y_c1 < fq_modulus(),
        g2_on_curve(p),
        g2_in_subgroup(p),
    ensures
        g2_wire_error(g2_wire_form(p)) is None,
        g2_wire_point(g2_wire_form(p)) == p,
{
    lemma_decimal_digits_value(p.x_c0);
    lemma_decimal_digits_value(p.x_c1);
    lemma_decimal_digits_value(p.y_c0);
    lemma_decimal_digits_value(p.y_c1);
}

/// Parse a G1 affine point from a string array `[x, y, "1"]`. Elements
/// after the second are ignored.
pub fn parse_g1_point(coords: &[String]) -> (r: Result<G1Point, ContractError>)
    ensures
        match r {
            Ok(p) => g1_wire_error(texts(coords@)) is None && p@ == g1_wire_point(texts(coords@)),
            Err(e) => g1_wire_error(texts(coords@)) == Some(e@),
        },
{
    if coords.len() < 2 {
        return Err(
            ContractError::InvalidProofFormat(
                String::from_str("G1 point requires at least 2 coordinates"),
            ),
        );
    }
    let x = match parse_fq_element(coords[0].as_str()) {
        Ok(x) => x,
        Err(e) => {
            return Err(e);
        },
    };
    let y = match parse_fq_element(coords[1].as_str()) {
        Ok(y) => y,
        Err(e) => {
            return Err(e);
        },
    };
    let point = g1_new_unchecked(&x, &y);
    if !g1_is_on_curve(&point) {
        return Err(ContractError::InvalidProofFormat(String::from_str("G1 point is not on curve")));
    }
    Ok(point)
}

/// Parse a G2 affine point from nested string arrays
/// `[[x_c1, x_c0], [y_c1, y_c0], ["1", "0"]]`. Each pair is read in that
/// order and stored as `(c0, c1)`; pairs after the second are ignored. The
/// point must be on the curve and in the subgroup of prime order.
pub fn parse_g2_point(coords: &[Vec<String>]) -> (r: Result<G2Point, ContractError>)
    ensures
        match r {
            Ok(p) => g2_wire_error(text_rows(coords@)) is None && p@ == g2_wire_point(
                text_rows(coords@),
            ),
            Err(e) => g2_wire_error(text_rows(coords@)) == Some(e@),
        },
{
    if coords.len() < 2 {
        return Err(
            ContractError::InvalidProofFormat(
                String::from_str("G2 point requires at least 2 coordinate pairs"),
            ),
        );
    }
    if coords[0].len() < 2 || coords[1].len() < 2 {
        return Err(
            ContractError::InvalidProofFormat(
                String::from_str("G2 coordinate pair requires 2 elements"),
            ),
        );
    }
    let x_c1 = match parse_fq_element(coords[0][0].as_str()) {
        Ok(v) => v,
        Err(e) => {
            return Err(e);
        },
    };
    let x_c0 = match parse_fq_element(coords[0][1].as_str()) {
        Ok(v) => v,
        Err(e) => {
            return Err(e);
        },
    };
    let y_c1 = match parse_fq_element(coords[1][0].as_str()) {
        Ok(v) => v,
        Err(e) => {
            return Err(e);
        },
    };
    let y_c0 = match parse_fq_element(coords[1][1].as_str()) {
        Ok(v) => v,
        Err(e) => {
            return Err(e);
        },
    };
    let point = g2_new_unchecked(&x_c0, &x_c1, &y_c0, &y_c1);
    if !g2_is_on_curve(&point) {
        return Err(ContractError::InvalidProofFormat(String::from_str("G2 point is not on curve")));
    }
    if !g2_is_in_subgroup(&point) {
        return Err(
            ContractError::InvalidProofFormat(
                String::from_str("G2 point is not in the correct subgroup"),
            ),
        );
    }
    Ok(point)
}


/// The error of the first row from `from` on that is no G1 point, if any.
pub open spec fn first_g1_error(rows: Seq<Seq<Seq<char>>>, from: int) -> Option<ErrorView>
    decreases rows.len() - from,
{
    if from < 0 || from >= rows.len() {
        None
    } else if g1_wire_error(rows[from]) is Some {
        g1_wire_error(rows[from])
    } else {
        first_g1_error(rows, from + 1)
    }
}

/// The error of the first signal from `from` on that is no scalar, if any.
pub open spec fn first_signal_error(signals: Seq<Seq<char>>, from: int) -> Option<ErrorView>
    decreases signals.len() - from,
{
    if from < 0 || from >= signals.len() {
        None
    } else if !fr_wire_ok(signals[from]) {
        Some(field_parse_error(signals[from]))
    } else {
        first_signal_error(signals, from + 1)
    }
}

/// `ic[0] + signals[0] * ic[1] + ... + signals[k-1] * ic[k]` in G1.
pub open spec fn linear_combination(
    ic: Seq<Seq<Seq<char>>>,
    signals: Seq<Seq<char>>,
    k: nat,
) -> G1Value
    decreases k,
{
    if k == 0 {
        g1_wire_point(ic[0])
    } else {
        g1_sum(
            linear_combination(ic, signals, (k - 1) as nat),
            g1_scaled(g1_wire_point(ic[k as int]), decimal_value(signals[k - 1])),
        )
    }
}

/// The error for a key with `ic_len` IC points against `n_signals` signals.
pub open spec fn arity_error(ic_len: nat, n_signals: nat) -> ErrorView {
    ErrorView::InvalidPublicSignals(
        "Expected "@ + decimal_digits(
            if ic_len == 0 {
                0
            } else {
                (ic_len - 1) as nat
            },
        ) + " public signals, got "@ + decimal_digits(n_signals),
    )
}

/// Whether the Groth16 equation
/// `e(-A, B) * e(alpha, beta) * e(vk_x, gamma) * e(C, delta) == 1` holds of
/// the points that the wire forms denote.
pub open spec fn groth16_equation_holds(
    vk: VerificationKey,
    proof: Groth16Proof,
    signals: Seq<Seq<char>>,
) -> bool {
    pairing_product_is_identity(
        seq![
            g1_negated(g1_wire_point(texts(proof.pi_a@))),
            g1_wire_point(texts(vk.alpha@)),
            linear_combination(text_rows(vk.ic@), signals, signals.len()),
            g1_wire_point(texts(proof.pi_c@)),
        ],
        seq![
            g2_wire_point(text_rows(proof.pi_b@)),
            g2_wire_point(text_rows(vk.beta@)),
            g2_wire_point(text_rows(vk.gamma@)),
            g2_wire_point(text_rows(vk.delta@)),
        ],
    )
}

/// What verification returns: an arity error first; then the first parse
/// error among the proof's points, the key's points, its IC points and the
/// signals, in that order; else whether the equation holds.
pub open spec fn verification_outcome(
    vk: VerificationKey,
    proof: Groth16Proof,
    signals: Seq<Seq<char>>,
) -> Result<bool, ErrorView> {
    if vk.ic@.len() != signals.len() + 1 {
        Err(arity_error(vk.ic@.len(), signals.len()))
    } else if g1_wire_error(texts(proof.pi_a@)) is Some {
        Err(g1_wire_error(texts(proof.pi_a@))->0)
    } else if g2_wire_error(text_rows(proof.pi_b@)) is Some {
        Err(g2_wire_error(text_rows(proof.pi_b@))->0)
    } else if g1_wire_error(texts(proof.pi_c@)) is Some {
        Err(g1_wire_error(texts(proof.pi_c@))->0)
    } else if g1_wire_error(texts(vk.alpha@)) is Some {
        Err(g1_wire_error(texts(vk.alpha@))->0)
    } else if g2_wire_error(text_rows(vk.beta@)) is Some {
        Err(g2_wire_error(text_rows(vk.beta@))->0)
    } else if g2_wire_error(text_rows(vk.gamma@)) is Some {
        Err(g2_wire_error(text_rows(vk.gamma@))->0)
    } else if g2_wire_error(text_rows(vk.delta@)) is Some {
        Err(g2_wire_error(text_rows(vk.delta@))->0)
    } else if first_g1_error(text_rows(vk.ic@), 0) is Some {
        Err(first_g1_error(text_rows(vk.ic@), 0)->0)
    } else if first_signal_error(signals, 0) is Some {
        Err(first_signal_error(signals, 0)->0)
    } else {
        Ok(groth16_equation_holds(vk, proof, signals))
    }
}

/// The error for a key with `ic_len` IC points against `n_signals` signals.
pub fn signal_count_error(ic_len: usize, n_signals: usize) -> (e: ContractError)
    ensures
        e@ == arity_error(ic_len as nat, n_signals as nat),
{
    let expected: usize = if ic_len == 0 {
        0
    } else {
        ic_len - 1
    };
    let mut msg = String::from_str("Expected ");
    msg.append(u128_to_decimal(expected as u128).as_str());
    msg.append(" public signals, got ");
    msg.append(u128_to_decimal(n_signals as u128).as_str());
    ContractError::InvalidPublicSignals(msg)
}

/// Verify a Groth16 proof against a verification key and public signals.
///
/// Checks the pairing equation
///   e(A, B) == e(alpha, beta) * e(vk_x, gamma) * e(C, delta)
/// in the equivalent form
///   e(-A, B) * e(alpha, beta) * e(vk_x, gamma) * e(C, delta) == 1
/// with one multi-pairing.
#[verifier::loop_isolation(false)]
pub fn verify_groth16_proof(
    vk: &VerificationKey,
    proof: &Groth16Proof,
    public_signals: &[String],
) -> (r: Result<bool, ContractError>)
    ensures
        match r {
            Ok(valid) => verification_outcome(*vk, *proof, texts(public_signals@)) == Ok::<
                bool,
                ErrorView,
            >(valid),
            Err(e) => verification_outcome(*vk, *proof, texts(public_signals@)) == Err::<
                bool,
                ErrorView,
            >(e@),
        },
{
    let n: usize = public_signals.len();
    if vk.ic.len() == 0 || vk.ic.len() - 1 != n {
        return Err(signal_count_error(vk.ic.len(), n));
    }
    let a = match parse_g1_point(proof.pi_a.as_slice()) {
        Ok(p) => p,
        Err(e) => {
            return Err(e);
        },
    };
    let b = match parse_g2_point(proof.pi_b.as_slice()) {
        Ok(p) => p,
        Err(e) => {
            return Err(e);
        },
    };
    let c = match parse_g1_point(proof.pi_c.as_slice()) {
        Ok(p) => p,
        Err(e) => {
            return Err(e);
        },
    };
    let alpha = match parse_g1_point(vk.alpha.as_slice()) {
        Ok(p) => p,
        Err(e) => {
            return Err(e);
        },
    };
    let beta = match parse_g2_point(vk.beta.as_slice()) {
        Ok(p) => p,
        Err(e) => {
            return Err(e);
        },
    };
    let gamma = match parse_g2_point(vk.gamma.as_slice()) {
        Ok(p) => p,
        Err(e) => {
            return Err(e);
        },
    };
    let delta = match parse_g2_point(vk.delta.as_slice()) {
        Ok(p) => p,
        Err(e) => {
            return Err(e);
        },
    };
    let ghost ic = text_rows(vk.ic@);
    let ghost signals = texts(public_signals@);

    let mut vk_x = match parse_g1_point(vk.ic[0].as_slice()) {
        Ok(p) => p,
        Err(e) => {
            return Err(e);
        },
    };
    let mut rest: Vec<G1Point> = Vec::new();
    let mut j: usize = 1;
    while j < vk.ic.len()
        invariant
            1 <= j <= vk.ic.len(),
            ic == text_rows(vk.ic@),
            rest.len() == j - 1,
            first_g1_error(ic, 0) == first_g1_error(ic, j as int),
            forall|k: int| 0 <= k < rest.len() ==> (#[trigger] rest[k])@ == g1_wire_point(ic[k + 1]),
            forall|k: int| 0 <= k < rest.len() ==> g1_on_curve((#[trigger] rest[k])@),
        decreases vk.ic.len() - j,
    {
        assert(ic[j as int] == texts(vk.ic[j as int]@));
        match parse_g1_point(vk.ic[j].as_slice()) {
            Ok(p) => {
                rest.push(p);
            },
            Err(e) => {
                return Err(e);
            },
        }
        j += 1;
    }

    let mut i: usize = 0;
    while i < n
        invariant
            0 <= i <= n,
            n == public_signals.len(),
            n + 1 == vk.ic.len(),
            rest.len() == n,
            ic == text_rows(vk.ic@),
            signals == texts(public_signals@),
            first_signal_error(signals, 0) == first_signal_error(signals, i as int),
            forall|k: int| 0 <= k < rest.len() ==> (#[trigger] rest[k])@ == g1_wire_point(ic[k + 1]),
            forall|k: int| 0 <= k < rest.len() ==> g1_on_curve((#[trigger] rest[k])@),
            vk_x@ == linear_combination(ic, signals, i as nat),
            g1_on_curve(vk_x@),
        decreases n - i,
    {
        assert(signals[i as int] == public_signals[i as int]@);
        let signal = match parse_fr_element(public_signals[i].as_str()) {
            Ok(s) => s,
            Err(e) => {
                return Err(e);
            },
        };
        let term = g1_mul(&rest[i], &signal);
        vk_x = g1_add(&vk_x, &term);
        i += 1;
    }

    let neg_a = g1_neg(&a);
    proof {
        lemma_negation_stays_on_curve(a@);
    }
    let g1s = [&neg_a, &alpha, &vk_x, &c];
    let g2s = [&b, &beta, &gamma, &delta];
    let valid = pairing_check(g1s, g2s);
    proof {
        assert(first_g1_error(ic, 0) is None);
        assert(first_signal_error(signals, 0) is None);
        assert(Seq::new(4, |i: int| g1_value(*g1s[i])) =~= seq![neg_a@, alpha@, vk_x@, c@]);
        assert(Seq::new(4, |i: int| g2_value(*g2s[i])) =~= seq![b@, beta@, gamma@, delta@]);
        assert(valid == groth16_equation_holds(*vk, *proof, signals));
    }
    Ok(valid)
}

} // verus!
