use soroban_sdk::testutils::Ledger;
use soroban_sdk::Env;
use zk_verifier::curve::{g1_is_valid, g2_is_valid, G1Point, G2Point, Scalar, BASE_FIELD_MODULUS};
use zk_verifier::zk::groth16::{
    batch_verify_proofs, batch_verify_proofs_from, check_points, conclude, distribute_gas,
    is_scalar_ge_field_modulus, points_verdict, validate_points, validate_public_inputs,
    verify_proof, verify_proof_from, Groth16Proof, PointChecks, VerificationKey,
    VerificationResult, FIELD_MODULUS, MAX_BATCH_SIZE, MAX_PUBLIC_INPUTS,
};
use zk_verifier::ContractError;

const G1_GENERATOR: [&str; 2] = ["01", "02"];
const G1_TIMES_2: [&str; 2] = [
    "030644e72e131a029b85045b68181585d97816a916871ca8d3c208c16d87cfd3",
    "15ed738c0e0a7c92e7845f96b2ae9c0a68a6a449e3538fc7ff3ebf7a5a18a2c4",
];
const G1_TIMES_4: [&str; 2] = [
    "06a7b64af8f414bcbeef455b1da5208c9b592b83ee6599824caa6d2ee9141a76",
    "08e74e438cee31ac104ce59b94e45fe98a97d8f8a6e75664ce88ef5a41e72fbc",
];
const G1_TIMES_5: [&str; 2] = [
    "17c139df0efee0f766bc0204762b774362e4ded88953a39ce849a8a7fa163fa9",
    "01e0559bacb160664764a357af8a9fe70baa9258e0b959273ffc5718c6d4cc7c",
];
const G2_GENERATOR: [&str; 4] = [
    "198e9393920d483a7260bfb731fb5d25f1aa493335a9e71297e485b7aef312c2",
    "1800deef121f1e76426a00665e5c4479674322d4f75edadd46debd5cd992f6ed",
    "090689d0585ff075ec9e99ad690c3395bc4b313370b38ef355acdadcd122975b",
    "12c85ea5db8c6deb4aab71808dcb408fe3d1e7690c43d37b4ce6cc0166fa7daa",
];
// On the twisted curve, outside the subgroup of prime order.
const G2_OUTSIDE_SUBGROUP: [&str; 4] = [
    "00",
    "01",
    "0d1271953ed9ea0836846e70a1934187998c7f790cb4d7511b7f8da82de048a4",
    "2869111d5381f072f8e2728fdb825a51aadd70e52c9830e9ab4b871c0531f1bb",
];

fn word(hex: &str) -> [u8; 32] {
    let digits: Vec<u8> = hex.bytes().map(|d| (d as char).to_digit(16).unwrap() as u8).collect();
    let mut bytes = [0u8; 32];
    let start = 32 - digits.len() / 2;
    for (i, pair) in digits.chunks(2).enumerate() {
        bytes[start + i] = pair[0] * 16 + pair[1];
    }
    bytes
}

fn g1(coordinates: [&str; 2]) -> G1Point {
    let mut bytes = [0u8; 64];
    for (i, hex) in coordinates.iter().enumerate() {
        bytes[32 * i..32 * (i + 1)].copy_from_slice(&word(hex));
    }
    G1Point { bytes }
}

fn g2(coordinates: [&str; 4]) -> G2Point {
    let mut bytes = [0u8; 128];
    for (i, hex) in coordinates.iter().enumerate() {
        bytes[32 * i..32 * (i + 1)].copy_from_slice(&word(hex));
    }
    G2Point { bytes }
}

fn g1_zero() -> G1Point {
    G1Point { bytes: [0u8; 64] }
}

fn g2_zero() -> G2Point {
    G2Point { bytes: [0u8; 128] }
}

fn scalar(value: u64) -> Scalar {
    let mut bytes = [0u8; 32];
    bytes[24..].copy_from_slice(&value.to_be_bytes());
    Scalar { bytes }
}

fn subtract_from_modulus(coordinate: &mut [u8]) {
    let mut borrow = 0i32;
    for i in (0..32).rev() {
        let digit = BASE_FIELD_MODULUS[i] as i32 - coordinate[i] as i32 - borrow;
        borrow = if digit < 0 { 1 } else { 0 };
        coordinate[i] = (digit + 256 * borrow) as u8;
    }
}

fn g1_inverse(point: G1Point) -> G1Point {
    let mut inverse = point;
    subtract_from_modulus(&mut inverse.bytes[32..64]);
    inverse
}

fn g2_inverse(point: G2Point) -> G2Point {
    let mut inverse = point;
    subtract_from_modulus(&mut inverse.bytes[64..96]);
    subtract_from_modulus(&mut inverse.bytes[96..128]);
    inverse
}

fn is_valid(proof: &Groth16Proof, vkey: &VerificationKey, inputs: Vec<Scalar>) -> bool {
    let env = Env::default();
    verify_proof(&env, proof, vkey, &inputs).unwrap().valid
}

fn generator_proof() -> Groth16Proof {
    Groth16Proof { a: g1(G1_GENERATOR), b: g2(G2_GENERATOR), c: g1(G1_GENERATOR) }
}

fn generator_key(ic_len: usize) -> VerificationKey {
    VerificationKey {
        alpha_beta: g2(G2_GENERATOR),
        gamma: g2(G2_GENERATOR),
        delta: g2(G2_GENERATOR),
        ic: vec![g1(G1_GENERATOR); ic_len],
    }
}

#[test]
fn validate_points_rejects_invalid_points() {
    let env = Env::default();
    env.mock_all_auths();

    let proof = Groth16Proof { a: g1_zero(), b: g2_zero(), c: g1_zero() };
    let vkey = VerificationKey {
        alpha_beta: g2_zero(),
        gamma: g2_zero(),
        delta: g2_zero(),
        ic: vec![g1_zero()],
    };

    let inputs = Vec::new();
    let result = verify_proof(&env, &proof, &vkey, &inputs);
    assert!(result.is_err());
}

#[test]
fn rejects_too_many_public_inputs() {
    let env = Env::default();
    env.mock_all_auths();

    let proof = generator_proof();
    let vkey = generator_key(1);

    let mut inputs = Vec::new();
    for _ in 0..(MAX_PUBLIC_INPUTS + 1) as usize {
        inputs.push(scalar(1));
    }

    let result = verify_proof(&env, &proof, &vkey, &inputs);
    assert_eq!(result, Err(ContractError::InvalidArgument));
}

#[test]
fn rejects_input_length_mismatch() {
    let env = Env::default();
    env.mock_all_auths();

    let proof = generator_proof();
    let vkey = generator_key(1);

    let inputs = vec![scalar(1), scalar(2)];

    let result = verify_proof(&env, &proof, &vkey, &inputs);
    assert_eq!(result, Err(ContractError::InvalidArgument));
}

#[test]
fn batch_verify_limits_number_of_proofs() {
    let env = Env::default();
    env.mock_all_auths();

    let mut proofs = Vec::new();
    for _ in 0..9 {
        proofs.push((generator_proof(), generator_key(1), Vec::new()));
    }

    let result = batch_verify_proofs(&env, &proofs);
    assert_eq!(result, Err(ContractError::InvalidArgument));
}

#[test]
fn validate_public_inputs_rejects_out_of_bounds_scalars() {
    let mut large_input = [0u8; 32];
    large_input[0] = 0xFF;

    let inputs = vec![Scalar { bytes: large_input }];

    let result = validate_public_inputs(&inputs);
    assert_eq!(result, Err(ContractError::InvalidPublicInputs));
}

#[test]
fn validate_public_inputs_rejects_zero_nullifier() {
    let zero_input = [0u8; 32];

    let inputs = vec![Scalar { bytes: zero_input }];

    let result = validate_public_inputs(&inputs);
    assert_eq!(result, Err(ContractError::InvalidPublicInputs));
}

#[test]
fn validate_public_inputs_accepts_valid_inputs() {
    let valid_input = [1u8; 32];

    let inputs = vec![Scalar { bytes: valid_input }];

    let result = validate_public_inputs(&inputs);
    assert!(result.is_ok());
}

#[test]
fn verify_proof_calls_validate_public_inputs_first() {
    let env = Env::default();
    env.mock_all_auths();

    let proof = generator_proof();
    let vkey = generator_key(1);

    let mut large_input = [0u8; 32];
    large_input[0] = 0xFF;

    let inputs = vec![Scalar { bytes: large_input }];

    let result = verify_proof(&env, &proof, &vkey, &inputs);
    assert_eq!(result, Err(ContractError::InvalidPublicInputs));
}

#[test]
fn validate_public_inputs_rejects_an_empty_list() {
    assert_eq!(validate_public_inputs(&Vec::new()), Err(ContractError::InvalidPublicInputs));
}

#[test]
fn validate_public_inputs_rejects_zero_commitment_but_not_a_later_zero() {
    let second = vec![scalar(1), scalar(0)];
    assert_eq!(validate_public_inputs(&second), Err(ContractError::InvalidPublicInputs));
    let third = vec![scalar(1), scalar(1), scalar(0)];
    assert_eq!(validate_public_inputs(&third), Ok(()));
}

#[test]
fn validate_public_inputs_checks_every_input() {
    let inputs = vec![scalar(1), scalar(2), scalar(3), Scalar { bytes: FIELD_MODULUS }];
    assert_eq!(validate_public_inputs(&inputs), Err(ContractError::InvalidPublicInputs));
}

#[test]
fn field_modulus_is_the_documented_number() {
    let hex = "30644e72e131a029b85045b68181585d2833e84879b9709143e1f593f0000001";
    assert_eq!(FIELD_MODULUS, word(hex));
}

#[test]
fn scalars_are_bounded_by_the_field_modulus() {
    assert!(is_scalar_ge_field_modulus(&FIELD_MODULUS));
    assert!(is_scalar_ge_field_modulus(&[0xFF; 32]));
    assert!(!is_scalar_ge_field_modulus(&[0; 32]));
    let mut below = FIELD_MODULUS;
    below[31] = 0;
    assert!(!is_scalar_ge_field_modulus(&below));
    let mut above = FIELD_MODULUS;
    above[31] = 2;
    assert!(is_scalar_ge_field_modulus(&above));
    let mut smaller_lead = [0xFF; 32];
    smaller_lead[0] = 0x2F;
    assert!(!is_scalar_ge_field_modulus(&smaller_lead));
}

#[test]
fn g1_points_are_told_apart() {
    let env = Env::default();
    assert!(g1_is_valid(&env, &g1(G1_GENERATOR)));
    assert!(g1_is_valid(&env, &g1(G1_TIMES_2)));
    assert!(!g1_is_valid(&env, &g1_zero()));
    assert!(!g1_is_valid(&env, &g1(["01", "03"])));
    let mut x_too_large = g1(G1_GENERATOR);
    x_too_large.bytes[..32].copy_from_slice(&BASE_FIELD_MODULUS);
    assert!(!g1_is_valid(&env, &x_too_large));
    let mut y_too_large = g1(G1_GENERATOR);
    y_too_large.bytes[32..].copy_from_slice(&[0xFF; 32]);
    assert!(!g1_is_valid(&env, &y_too_large));
}

#[test]
fn g2_points_are_told_apart() {
    let env = Env::default();
    assert!(g2_is_valid(&env, &g2(G2_GENERATOR)));
    assert!(!g2_is_valid(&env, &g2_zero()));
    assert!(!g2_is_valid(&env, &g2(G2_OUTSIDE_SUBGROUP)));
    let mut off_curve = g2(G2_GENERATOR);
    off_curve.bytes[127] ^= 1;
    assert!(!g2_is_valid(&env, &off_curve));
    assert!(!g2_is_valid(&env, &G2Point { bytes: [0xFF; 128] }));
}

#[test]
fn every_point_is_checked() {
    let env = Env::default();
    let proof = generator_proof();
    let vkey = generator_key(3);
    assert_eq!(validate_points(&env, &proof, &vkey), Ok(()));

    let refused = Err(ContractError::InvalidArgument);
    let mut bad_proof = proof;
    bad_proof.a = g1_zero();
    assert_eq!(validate_points(&env, &bad_proof, &vkey), refused);
    bad_proof = proof;
    bad_proof.b = g2(G2_OUTSIDE_SUBGROUP);
    assert_eq!(validate_points(&env, &bad_proof, &vkey), refused);
    bad_proof = proof;
    bad_proof.c = g1(["01", "03"]);
    assert_eq!(validate_points(&env, &bad_proof, &vkey), refused);

    let mut bad_key = vkey.clone();
    bad_key.alpha_beta = g2_zero();
    assert_eq!(validate_points(&env, &proof, &bad_key), refused);
    bad_key = vkey.clone();
    bad_key.gamma = g2_zero();
    assert_eq!(validate_points(&env, &proof, &bad_key), refused);
    bad_key = vkey.clone();
    bad_key.delta = g2_zero();
    assert_eq!(validate_points(&env, &proof, &bad_key), refused);
    bad_key = vkey.clone();
    bad_key.ic[2] = g1_zero();
    assert_eq!(validate_points(&env, &proof, &bad_key), refused);

    let checks = check_points(&env, &proof, &bad_key);
    assert_eq!(checks.ic, vec![true, true, false]);
    assert!(checks.a && checks.b && checks.c);
}

#[test]
fn one_failed_check_is_enough() {
    let good = PointChecks {
        a: true,
        b: true,
        c: true,
        alpha_beta: true,
        gamma: true,
        delta: true,
        ic: vec![true, true],
    };
    assert_eq!(points_verdict(&good), Ok(()));
    let bad = PointChecks { gamma: false, ..good.clone() };
    assert_eq!(points_verdict(&bad), Err(ContractError::InvalidArgument));
    let bad_ic = PointChecks { ic: vec![true, false], ..good };
    assert_eq!(points_verdict(&bad_ic), Err(ContractError::InvalidArgument));
}

#[test]
fn an_all_zero_proof_is_refused_with_valid_inputs() {
    let env = Env::default();
    let proof = Groth16Proof { a: g1_zero(), b: g2_zero(), c: g1_zero() };
    let vkey = VerificationKey {
        alpha_beta: g2_zero(),
        gamma: g2_zero(),
        delta: g2_zero(),
        ic: vec![g1_zero(), g1_zero()],
    };
    let result = verify_proof(&env, &proof, &vkey, &vec![scalar(1)]);
    assert_eq!(result, Err(ContractError::InvalidArgument));
}

// With every G2 element the generator, the equation holds exactly when A = G + accumulation + C.
#[test]
fn verify_proof_finds_a_balanced_proof_valid() {
    let env = Env::default();
    env.ledger().set_timestamp(1_700_000_000);
    let proof = Groth16Proof { a: g1(G1_TIMES_4), b: g2(G2_GENERATOR), c: g1(G1_GENERATOR) };
    let vkey = generator_key(2);
    let result = verify_proof(&env, &proof, &vkey, &vec![scalar(1)]).unwrap();
    assert!(result.valid);
    assert!(result.gas_used > 0);
    assert_eq!(result.verified_at, 1_700_000_000);

    let other_input = verify_proof(&env, &proof, &vkey, &vec![scalar(2)]).unwrap();
    assert!(!other_input.valid);
    let other_proof = Groth16Proof { a: g1(G1_TIMES_5), ..proof };
    assert!(verify_proof(&env, &other_proof, &vkey, &vec![scalar(2)]).unwrap().valid);
    assert!(!verify_proof(&env, &other_proof, &vkey, &vec![scalar(1)]).unwrap().valid);
}

#[test]
fn verify_proof_pairs_every_input_with_its_own_element() {
    let mut vkey = generator_key(3);
    vkey.ic[2] = g1(G1_TIMES_2);
    // C = -G cancels the generator that is paired with alpha_beta: A must be the accumulation.
    let c = g1_inverse(g1(G1_GENERATOR));
    let four = Groth16Proof { a: g1(G1_TIMES_4), b: g2(G2_GENERATOR), c };
    let five = Groth16Proof { a: g1(G1_TIMES_5), ..four };
    // G + 1 * G + 1 * 2G is 4G.
    assert!(is_valid(&four, &vkey, vec![scalar(1), scalar(1)]));
    assert!(!is_valid(&five, &vkey, vec![scalar(1), scalar(1)]));
    // G + 2 * G + 1 * 2G is 5G.
    assert!(is_valid(&five, &vkey, vec![scalar(2), scalar(1)]));
    assert!(!is_valid(&four, &vkey, vec![scalar(2), scalar(1)]));
    // G + 1 * G + 2 * 2G is 6G.
    assert!(!is_valid(&four, &vkey, vec![scalar(1), scalar(2)]));
    assert!(!is_valid(&five, &vkey, vec![scalar(1), scalar(2)]));
}

#[test]
fn alpha_beta_has_a_part_in_the_verdict() {
    let four = Groth16Proof { a: g1(G1_TIMES_4), b: g2(G2_GENERATOR), c: g1(G1_GENERATOR) };
    let two = Groth16Proof { a: g1(G1_TIMES_2), ..four };
    let mut vkey = generator_key(2);
    // G + 2G + G is 4G.
    assert!(is_valid(&four, &vkey, vec![scalar(1)]));
    assert!(!is_valid(&two, &vkey, vec![scalar(1)]));
    // -G + 2G + G is 2G.
    vkey.alpha_beta = g2_inverse(g2(G2_GENERATOR));
    assert!(!is_valid(&four, &vkey, vec![scalar(1)]));
    assert!(is_valid(&two, &vkey, vec![scalar(1)]));
}

#[test]
fn gamma_and_delta_have_their_own_parts_in_the_verdict() {
    let five = Groth16Proof { a: g1(G1_TIMES_5), b: g2(G2_GENERATOR), c: g1(G1_TIMES_2) };
    let one = Groth16Proof { a: g1(G1_GENERATOR), ..five };
    let vkey = generator_key(2);
    // G + 2G + 2G is 5G.
    assert!(is_valid(&five, &vkey, vec![scalar(1)]));
    assert!(!is_valid(&one, &vkey, vec![scalar(1)]));
    // G - 2G + 2G is G.
    let inverse = g2_inverse(g2(G2_GENERATOR));
    let inverse_gamma = VerificationKey { gamma: inverse, ..vkey.clone() };
    assert!(!is_valid(&five, &inverse_gamma, vec![scalar(1)]));
    assert!(is_valid(&one, &inverse_gamma, vec![scalar(1)]));
    // G + 2G - 2G is G.
    let inverse_delta = VerificationKey { delta: inverse, ..vkey };
    assert!(!is_valid(&five, &inverse_delta, vec![scalar(1)]));
    assert!(is_valid(&one, &inverse_delta, vec![scalar(1)]));
}

#[test]
fn b_has_a_part_in_the_verdict() {
    let proof = Groth16Proof { a: g1(G1_TIMES_4), b: g2(G2_GENERATOR), c: g1(G1_GENERATOR) };
    let vkey = generator_key(2);
    assert!(is_valid(&proof, &vkey, vec![scalar(1)]));
    let inverse_b = Groth16Proof { b: g2_inverse(proof.b), ..proof };
    assert!(!is_valid(&inverse_b, &vkey, vec![scalar(1)]));
    let both_inverse = Groth16Proof { a: g1_inverse(proof.a), ..inverse_b };
    assert!(is_valid(&both_inverse, &vkey, vec![scalar(1)]));
}

// The inputs are paired with gamma alone: elements made from the accumulation do not cancel it.
#[test]
fn the_accumulation_is_not_cancelled_by_the_proof() {
    let vkey = generator_key(2);
    let inverse = g1_inverse(g1(G1_TIMES_2));
    let proof = Groth16Proof { a: inverse, b: vkey.delta, c: inverse };
    assert!(!is_valid(&proof, &vkey, vec![scalar(1)]));
}

#[test]
fn conclude_keeps_the_readings() {
    let result = conclude(true, 500, 120, 77);
    assert_eq!(result, VerificationResult { valid: true, gas_used: 380, verified_at: 77 });
    assert_eq!(conclude(false, 10, 20, 0).gas_used, 0);
}

#[test]
fn gas_is_shared_out_equally() {
    let mut results = vec![conclude(true, 9, 0, 1), conclude(false, 8, 0, 2), conclude(true, 7, 0, 3)];
    distribute_gas(&mut results, 150, 50);
    assert_eq!(
        results,
        vec![
            VerificationResult { valid: true, gas_used: 33, verified_at: 1 },
            VerificationResult { valid: false, gas_used: 33, verified_at: 2 },
            VerificationResult { valid: true, gas_used: 33, verified_at: 3 },
        ]
    );
}

#[test]
fn no_gas_is_shared_out_where_the_meter_went_up() {
    let mut results = vec![conclude(true, 9, 0, 1)];
    distribute_gas(&mut results, 50, 150);
    assert_eq!(results, vec![VerificationResult { valid: true, gas_used: 0, verified_at: 1 }]);
}

#[test]
fn a_batch_agrees_with_single_checks() {
    let env = Env::default();
    env.ledger().set_timestamp(1_700_000_000);
    env.cost_estimate().budget().reset_unlimited();
    let good = Groth16Proof { a: g1(G1_TIMES_4), b: g2(G2_GENERATOR), c: g1(G1_GENERATOR) };
    let bad = Groth16Proof { a: g1(G1_TIMES_5), ..good };
    let proofs = vec![
        (bad, generator_key(2), vec![scalar(1)]),
        (good, generator_key(2), vec![scalar(1)]),
    ];
    let results = batch_verify_proofs(&env, &proofs).unwrap();
    assert_eq!(results.len(), proofs.len());
    for (i, (proof, vkey, inputs)) in proofs.iter().enumerate() {
        let single = verify_proof(&env, proof, vkey, inputs).unwrap();
        assert_eq!(results[i].valid, single.valid);
        assert_eq!(results[i].verified_at, single.verified_at);
    }
}

#[test]
fn a_check_takes_its_readings_as_given() {
    let env = Env::default();
    env.ledger().set_timestamp(1_700_000_000);
    let proof = Groth16Proof { a: g1(G1_TIMES_4), b: g2(G2_GENERATOR), c: g1(G1_GENERATOR) };
    let vkey = generator_key(2);
    let inputs = vec![scalar(1)];
    // A meter that began at zero has nothing to spend.
    let spent = verify_proof_from(&env, &proof, &vkey, &inputs, 0, 42).unwrap();
    assert_eq!(spent, VerificationResult { valid: true, gas_used: 0, verified_at: 42 });
    let full = verify_proof_from(&env, &proof, &vkey, &inputs, u64::MAX, 43).unwrap();
    assert!(full.valid && full.gas_used > 0);
    assert_eq!(full.verified_at, 43);
    let refused = verify_proof_from(&env, &proof, &vkey, &vec![scalar(0)], 0, 42);
    assert_eq!(refused, Err(ContractError::InvalidPublicInputs));
}

#[test]
fn a_batch_takes_its_readings_as_given() {
    let env = Env::default();
    env.ledger().set_timestamp(1_700_000_000);
    env.cost_estimate().budget().reset_unlimited();
    let good = Groth16Proof { a: g1(G1_TIMES_4), b: g2(G2_GENERATOR), c: g1(G1_GENERATOR) };
    let bad = Groth16Proof { a: g1(G1_TIMES_5), ..good };
    let proofs = vec![
        (bad, generator_key(2), vec![scalar(1)]),
        (good, generator_key(2), vec![scalar(1)]),
    ];
    let results = batch_verify_proofs_from(&env, &proofs, 0, 42).unwrap();
    assert_eq!(
        results,
        vec![
            VerificationResult { valid: false, gas_used: 0, verified_at: 42 },
            VerificationResult { valid: true, gas_used: 0, verified_at: 42 },
        ]
    );
    for (i, (proof, vkey, inputs)) in proofs.iter().enumerate() {
        let single = verify_proof_from(&env, proof, vkey, inputs, 0, 42).unwrap();
        assert_eq!(results[i].valid, single.valid);
        assert_eq!(results[i].verified_at, single.verified_at);
    }
    assert_eq!(batch_verify_proofs_from(&env, &Vec::new(), 0, 42), Ok(Vec::new()));
}

#[test]
fn the_results_of_a_batch_are_stamped_by_the_ledger() {
    let env = Env::default();
    env.ledger().set_timestamp(1_700_000_000);
    let proofs = vec![(generator_proof(), generator_key(2), vec![scalar(1)]); 2];
    let results = batch_verify_proofs(&env, &proofs).unwrap();
    assert_eq!(results[0].verified_at, 1_700_000_000);
    assert_eq!(results[1].verified_at, 1_700_000_000);
}

#[test]
fn an_empty_batch_gives_no_results() {
    let env = Env::default();
    assert_eq!(batch_verify_proofs(&env, &Vec::new()), Ok(Vec::new()));
}

#[test]
fn a_batch_reports_each_proof_in_order() {
    let env = Env::default();
    let good = Groth16Proof { a: g1(G1_TIMES_4), b: g2(G2_GENERATOR), c: g1(G1_GENERATOR) };
    let bad = Groth16Proof { a: g1(G1_TIMES_5), ..good };
    let proofs = vec![
        (good, generator_key(2), vec![scalar(1)]),
        (bad, generator_key(2), vec![scalar(1)]),
        (bad, generator_key(2), vec![scalar(2)]),
    ];
    let results = batch_verify_proofs(&env, &proofs).unwrap();
    let valid: Vec<bool> = results.iter().map(|r| r.valid).collect();
    assert_eq!(valid, vec![true, false, true]);
    assert!(results[0].gas_used > 0);
    assert_eq!(results[0].gas_used, results[1].gas_used);
    assert_eq!(results[0].gas_used, results[2].gas_used);
}

#[test]
fn a_full_batch_is_allowed() {
    let env = Env::default();
    env.cost_estimate().budget().reset_unlimited();
    let proofs = vec![(generator_proof(), generator_key(2), vec![scalar(1)]); MAX_BATCH_SIZE];
    assert_eq!(batch_verify_proofs(&env, &proofs).unwrap().len(), 8);
}

#[test]
fn the_first_rejected_proof_rejects_the_batch() {
    let env = Env::default();
    let good = (generator_proof(), generator_key(2), vec![scalar(1)]);
    let mismatch = (generator_proof(), generator_key(2), vec![scalar(1), scalar(1)]);
    let zero_nullifier = (generator_proof(), generator_key(2), vec![scalar(0)]);
    let first = vec![good.clone(), mismatch.clone(), zero_nullifier.clone()];
    assert_eq!(batch_verify_proofs(&env, &first), Err(ContractError::InvalidArgument));
    let second = vec![good, zero_nullifier, mismatch];
    assert_eq!(batch_verify_proofs(&env, &second), Err(ContractError::InvalidPublicInputs));
}
