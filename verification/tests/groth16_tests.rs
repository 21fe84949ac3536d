use ark_bn254::{Bn254, Fr, G1Affine, G2Affine};
use ark_ec::{AffineRepr, CurveGroup};
use ark_ff::One;
use ark_groth16::Groth16 as ArkGroth16;
use ark_relations::r1cs::{
    ConstraintSynthesizer, ConstraintSystemRef, LinearCombination, SynthesisError,
};
use ark_snark::SNARK;
use ark_std::rand::rngs::StdRng;
use ark_std::rand::SeedableRng;
use zk_verifier::errors::ContractError;
use zk_verifier::groth16::{
    parse_fq_element, parse_fr_element, parse_g1_point, parse_g2_point, verify_groth16_proof,
};
use zk_verifier::types::{Groth16Proof, VerificationKey};

const FQ_MODULUS: &str =
    "21888242871839275222246405745257275088696311157297823662689037894645226208583";
const FQ_MODULUS_MINUS_ONE: &str =
    "21888242871839275222246405745257275088696311157297823662689037894645226208582";
const FR_MODULUS: &str =
    "21888242871839275222246405745257275088548364400416034343698204186575808495617";
const FR_MODULUS_MINUS_ONE: &str =
    "21888242871839275222246405745257275088548364400416034343698204186575808495616";

/// Trivial circuit: x * x == y  (1 constraint, 1 public input y)
#[derive(Clone)]
struct SquareCircuit {
    x: Option<Fr>,
}

impl ConstraintSynthesizer<Fr> for SquareCircuit {
    fn generate_constraints(self, cs: ConstraintSystemRef<Fr>) -> Result<(), SynthesisError> {
        let x_val = self.x.unwrap_or_default();
        let y_val = x_val * x_val;

        let x_var = cs.new_witness_variable(|| Ok(x_val))?;
        let y_var = cs.new_input_variable(|| Ok(y_val))?;

        let a = LinearCombination::from((Fr::one(), x_var));
        let b = LinearCombination::from((Fr::one(), x_var));
        let c = LinearCombination::from((Fr::one(), y_var));
        cs.enforce_constraint(a, b, c)?;

        Ok(())
    }
}

fn g1_to_strings(point: &G1Affine) -> Vec<String> {
    vec![point.x.to_string(), point.y.to_string()]
}

/// The wire form orders each pair as [c1, c0].
fn g2_to_strings(point: &G2Affine) -> Vec<Vec<String>> {
    vec![
        vec![point.x.c1.to_string(), point.x.c0.to_string()],
        vec![point.y.c1.to_string(), point.y.c0.to_string()],
    ]
}

fn vk_to_contract(vk: &ark_groth16::VerifyingKey<Bn254>) -> VerificationKey {
    VerificationKey {
        alpha: g1_to_strings(&vk.alpha_g1),
        beta: g2_to_strings(&vk.beta_g2),
        gamma: g2_to_strings(&vk.gamma_g2),
        delta: g2_to_strings(&vk.delta_g2),
        ic: vk.gamma_abc_g1.iter().map(g1_to_strings).collect(),
    }
}

fn proof_to_contract(proof: &ark_groth16::Proof<Bn254>) -> Groth16Proof {
    Groth16Proof {
        pi_a: g1_to_strings(&proof.a),
        pi_b: g2_to_strings(&proof.b),
        pi_c: g1_to_strings(&proof.c),
    }
}

/// A key and a proof for the witness `x`.
fn square_fixture(x: u64) -> (VerificationKey, Groth16Proof) {
    let mut rng = StdRng::seed_from_u64(42);
    let circuit = SquareCircuit { x: None };
    let (pk, ark_vk) = ArkGroth16::<Bn254>::circuit_specific_setup(circuit, &mut rng).unwrap();
    let circuit = SquareCircuit {
        x: Some(Fr::from(x)),
    };
    let ark_proof = ArkGroth16::<Bn254>::prove(&pk, circuit, &mut rng).unwrap();
    (vk_to_contract(&ark_vk), proof_to_contract(&ark_proof))
}

fn is_format_error(e: &ContractError) -> bool {
    matches!(e, ContractError::InvalidProofFormat(_))
}

#[test]
fn test_parse_field_element_valid() {
    let result = parse_fr_element("1");
    assert!(result.is_ok());

    let result = parse_fq_element("0");
    assert!(result.is_ok());
}

#[test]
fn test_parse_field_element_invalid() {
    let result = parse_fr_element("not_a_number");
    assert!(result.is_err());
}

#[test]
fn test_parse_g1_point_too_few_coords() {
    let coords = vec!["1".to_string()];
    let result = parse_g1_point(&coords);
    assert!(result.is_err());
}

#[test]
fn test_parse_g2_point_too_few_coords() {
    let coords = vec![vec!["1".to_string()]];
    let result = parse_g2_point(&coords);
    assert!(result.is_err());
}

#[test]
fn test_verify_wrong_signal_count() {
    let vk = VerificationKey {
        alpha: vec!["0".into(), "0".into()],
        beta: vec![vec!["0".into(), "0".into()], vec!["0".into(), "0".into()]],
        gamma: vec![vec!["0".into(), "0".into()], vec!["0".into(), "0".into()]],
        delta: vec![vec!["0".into(), "0".into()], vec!["0".into(), "0".into()]],
        ic: vec![vec!["0".into(), "0".into()], vec!["0".into(), "0".into()]],
    };
    let proof = Groth16Proof {
        pi_a: vec!["0".into(), "0".into(), "1".into()],
        pi_b: vec![
            vec!["0".into(), "0".into()],
            vec!["0".into(), "0".into()],
            vec!["1".into(), "0".into()],
        ],
        pi_c: vec!["0".into(), "0".into(), "1".into()],
    };
    let signals: Vec<String> = vec!["1".into(), "2".into()];
    let result = verify_groth16_proof(&vk, &proof, &signals);
    assert!(result.is_err());
}

#[test]
fn test_real_groth16_proof_valid() {
    let (contract_vk, contract_proof) = square_fixture(3);
    let result = verify_groth16_proof(&contract_vk, &contract_proof, &["9".to_string()]);
    assert!(result.is_ok(), "verification should not error: {:?}", result.err());
    assert!(result.unwrap(), "valid proof should verify as true");
}

#[test]
fn test_real_groth16_proof_wrong_signal() {
    let (contract_vk, contract_proof) = square_fixture(3);
    let result = verify_groth16_proof(&contract_vk, &contract_proof, &["10".to_string()]);
    assert!(result.is_ok());
    assert!(!result.unwrap(), "wrong signal should make proof invalid");
}

#[test]
fn test_real_groth16_proof_tampered() {
    let (contract_vk, mut contract_proof) = square_fixture(3);
    contract_proof.pi_a[0] = "12345".to_string();

    let result = verify_groth16_proof(&contract_vk, &contract_proof, &["9".to_string()]);
    match result {
        Ok(valid) => assert!(!valid, "tampered proof should not verify"),
        Err(_) => {}
    }
}

#[test]
fn wrong_signal_count_message_names_both_counts() {
    let (vk, proof) = square_fixture(3);
    let signals: Vec<String> = vec!["9".into(), "2".into()];
    match verify_groth16_proof(&vk, &proof, &signals) {
        Err(ContractError::InvalidPublicSignals(msg)) => {
            assert_eq!(msg, "Expected 1 public signals, got 2");
        }
        other => panic!("unexpected result: {:?}", other),
    }
}

#[test]
fn empty_ic_is_an_arity_error() {
    let (mut vk, proof) = square_fixture(3);
    vk.ic = vec![];
    let signals: Vec<String> = vec![];
    match verify_groth16_proof(&vk, &proof, &signals) {
        Err(ContractError::InvalidPublicSignals(msg)) => {
            assert_eq!(msg, "Expected 0 public signals, got 0");
        }
        other => panic!("unexpected result: {:?}", other),
    }
}

#[test]
fn field_element_below_modulus_is_accepted() {
    assert!(parse_fq_element(FQ_MODULUS_MINUS_ONE).is_ok());
    assert!(parse_fr_element(FR_MODULUS_MINUS_ONE).is_ok());
    assert!(parse_fq_element(FR_MODULUS).is_ok());
}

#[test]
fn field_element_at_or_above_modulus_is_rejected() {
    assert!(parse_fq_element(FQ_MODULUS).is_err());
    assert!(parse_fr_element(FR_MODULUS).is_err());
    assert!(parse_fr_element(FQ_MODULUS_MINUS_ONE).is_err());
    let longer = format!("{}0", FQ_MODULUS_MINUS_ONE);
    assert!(parse_fq_element(&longer).is_err());
}

#[test]
fn field_element_rejects_what_is_no_canonical_numeral() {
    for s in ["", "007", "00", "-1", "+1", "0x10", "1e5", " 1", "1 ", "١٢"] {
        match parse_fq_element(s) {
            Err(ContractError::InvalidProofFormat(msg)) => {
                assert_eq!(msg, format!("Cannot parse field element: {}", s));
            }
            other => panic!("unexpected result for {:?}: {:?}", s, other.is_ok()),
        }
        assert!(parse_fr_element(s).is_err());
    }
}

#[test]
fn g1_generator_parses_and_extra_coordinate_is_ignored() {
    let two = vec!["1".to_string(), "2".to_string()];
    let three = vec!["1".to_string(), "2".to_string(), "1".to_string()];
    let junk = vec!["1".to_string(), "2".to_string(), "junk".to_string()];
    assert!(parse_g1_point(&two).is_ok());
    assert!(parse_g1_point(&three).is_ok());
    assert!(parse_g1_point(&junk).is_ok());
}

#[test]
fn g1_point_off_curve_is_rejected() {
    let coords = vec!["1".to_string(), "3".to_string()];
    match parse_g1_point(&coords) {
        Err(ContractError::InvalidProofFormat(msg)) => {
            assert_eq!(msg, "G1 point is not on curve");
        }
        _ => panic!("an off-curve point was accepted"),
    }
    let zero = vec!["0".to_string(), "0".to_string()];
    assert!(parse_g1_point(&zero).is_err());
}

#[test]
fn g1_error_messages() {
    let one = vec!["1".to_string()];
    match parse_g1_point(&one) {
        Err(ContractError::InvalidProofFormat(msg)) => {
            assert_eq!(msg, "G1 point requires at least 2 coordinates");
        }
        _ => panic!("a short point was accepted"),
    }
    let bad = vec!["1".to_string(), "x".to_string()];
    match parse_g1_point(&bad) {
        Err(ContractError::InvalidProofFormat(msg)) => {
            assert_eq!(msg, "Cannot parse field element: x");
        }
        _ => panic!("a non-numeral was accepted"),
    }
}

#[test]
fn g2_generator_parses_in_wire_order_only() {
    let g = G2Affine::generator();
    let wire = g2_to_strings(&g);
    assert!(parse_g2_point(&wire).is_ok());

    let swapped = vec![
        vec![g.x.c0.to_string(), g.x.c1.to_string()],
        vec![g.y.c0.to_string(), g.y.c1.to_string()],
    ];
    assert!(parse_g2_point(&swapped).is_err());
}

#[test]
fn g2_error_messages() {
    let g = G2Affine::generator();
    let mut wire = g2_to_strings(&g);
    wire[1] = vec!["1".to_string()];
    match parse_g2_point(&wire) {
        Err(ContractError::InvalidProofFormat(msg)) => {
            assert_eq!(msg, "G2 coordinate pair requires 2 elements");
        }
        _ => panic!("a short pair was accepted"),
    }
    let one_pair = vec![vec!["1".to_string(), "2".to_string()]];
    match parse_g2_point(&one_pair) {
        Err(ContractError::InvalidProofFormat(msg)) => {
            assert_eq!(msg, "G2 point requires at least 2 coordinate pairs");
        }
        _ => panic!("a short point was accepted"),
    }
    let off = vec![
        vec!["1".to_string(), "2".to_string()],
        vec!["3".to_string(), "4".to_string()],
    ];
    match parse_g2_point(&off) {
        Err(ContractError::InvalidProofFormat(msg)) => {
            assert_eq!(msg, "G2 point is not on curve");
        }
        _ => panic!("an off-curve point was accepted"),
    }
}

#[test]
fn round_trip_of_points_generated_by_scalars() {
    for k in [1u64, 2, 3, 7, 123456789] {
        let p = (G1Affine::generator() * Fr::from(k)).into_affine();
        assert!(parse_g1_point(&g1_to_strings(&p)).is_ok());
        let q = (G2Affine::generator() * Fr::from(k)).into_affine();
        assert!(parse_g2_point(&g2_to_strings(&q)).is_ok());
    }
}

#[test]
fn completeness_for_several_witnesses() {
    for x in [0u64, 1, 3, 12] {
        let (vk, proof) = square_fixture(x);
        let good = (x * x).to_string();
        let bad = (x * x + 1).to_string();
        assert_eq!(verify_groth16_proof(&vk, &proof, &[good]).ok(), Some(true));
        assert_eq!(verify_groth16_proof(&vk, &proof, &[bad]).ok(), Some(false));
    }
}

#[test]
fn tampering_with_any_proof_coordinate_is_detected() {
    let (vk, proof) = square_fixture(3);
    let signals = ["9".to_string()];
    let other = G1Affine::generator();
    let other2 = G2Affine::generator();

    let mut p = proof.clone();
    p.pi_a = g1_to_strings(&other);
    assert_ne!(verify_groth16_proof(&vk, &p, &signals).ok(), Some(true));

    let mut p = proof.clone();
    p.pi_c = g1_to_strings(&other);
    assert_ne!(verify_groth16_proof(&vk, &p, &signals).ok(), Some(true));

    let mut p = proof.clone();
    p.pi_b = g2_to_strings(&other2);
    assert_ne!(verify_groth16_proof(&vk, &p, &signals).ok(), Some(true));

    for i in 0..2 {
        let mut p = proof.clone();
        p.pi_a[i] = "12345".to_string();
        assert_ne!(verify_groth16_proof(&vk, &p, &signals).ok(), Some(true));
        let mut p = proof.clone();
        p.pi_c[i] = "12345".to_string();
        assert_ne!(verify_groth16_proof(&vk, &p, &signals).ok(), Some(true));
        for j in 0..2 {
            let mut p = proof.clone();
            p.pi_b[i][j] = "12345".to_string();
            let r = verify_groth16_proof(&vk, &p, &signals);
            assert!(r.is_err() && is_format_error(&r.unwrap_err()));
        }
    }
}

#[test]
fn signal_that_is_no_scalar_is_a_format_error() {
    let (vk, proof) = square_fixture(3);
    let r = verify_groth16_proof(&vk, &proof, &["nine".to_string()]);
    assert!(r.is_err() && is_format_error(&r.unwrap_err()));
    let r = verify_groth16_proof(&vk, &proof, &[FR_MODULUS.to_string()]);
    assert!(r.is_err() && is_format_error(&r.unwrap_err()));
}
