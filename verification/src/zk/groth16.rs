//! Groth16 proof verifier for private compliance and shielded transfers, run against the Soroban
//! host of a native build.
//!
//! The curve and pairing arithmetic is the host's. What is checked before it, what is handed to
//! it, and what is made of its answers is decided here.

use vstd::prelude::*;
use crate::bytes;
use crate::curve;
use crate::curve::{G1Point, G2Point, Scalar};
use crate::error::ContractError;
use crate::host;

verus! {

/// Maximum number of public inputs allowed to bound computation.
pub const MAX_PUBLIC_INPUTS: u32 = 32;

/// Number of pairings required for Groth16 verification, besides the precomputed one.
pub const G16_PAIRING_COUNT: usize = 3;

/// Maximum number of proofs that are verified in one batch.
pub const MAX_BATCH_SIZE: usize = 8;

/// BN254 scalar field modulus, big-endian:
/// 21888242871839275222246405745257275088548364400416034343698204186575808495617.
pub const FIELD_MODULUS: [u8; 32] = [
    0x30, 0x64, 0x4e, 0x72, 0xe1, 0x31, 0xa0, 0x29,
    0xb8, 0x50, 0x45, 0xb6, 0x81, 0x81, 0x58, 0x5d,
    0x28, 0x33, 0xe8, 0x48, 0x79, 0xb9, 0x70, 0x91,
    0x43, 0xe1, 0xf5, 0x93, 0xf0, 0x00, 0x00, 0x01,
];

/// A Groth16 proof with the three group elements required for verification.
#[derive(Clone, Copy, Debug, PartialEq, Eq)]
pub struct Groth16Proof {
    /// The A element of the proof (G1 group).
    pub a: G1Point,
    /// The B element of the proof (G2 group).
    pub b: G2Point,
    /// The C element of the proof (G1 group).
    pub c: G1Point,
}

/// Verification key for a specific circuit, containing the structured reference
/// string elements needed to verify proofs generated for that circuit.
#[derive(Clone, Debug, PartialEq, Eq)]
pub struct VerificationKey {
    /// Alpha-beta pairing precomputation: the point whose pairing with the generator of G1 is
    /// `e(alpha, beta)`.
    pub alpha_beta: G2Point,
    /// Gamma group element for input verification.
    pub gamma: G2Point,
    /// Delta group element for proof validity.
    pub delta: G2Point,
    /// IC (input commitment) elements for each public input.
    pub ic: Vec<G1Point>,
}

/// Result of a proof verification attempt.
#[derive(Clone, Copy, Debug, PartialEq, Eq)]
pub struct VerificationResult {
    /// Whether the proof is cryptographically valid.
    pub valid: bool,
    /// Gas units consumed during verification.
    pub gas_used: u64,
    /// Timestamp of the verification for audit purposes.
    pub verified_at: u64,
}

/// Which of the points of a proof and a key are valid.
#[derive(Clone, Debug, PartialEq, Eq)]
pub struct PointChecks {
    pub a: bool,
    pub b: bool,
    pub c: bool,
    pub alpha_beta: bool,
    pub gamma: bool,
    pub delta: bool,
    pub ic: Vec<bool>,
}

/// Public inputs that a proof may be checked against: there is at least one, all are elements of
/// the scalar field, and the first two (the nullifier and the commitment) are not zero.
pub open spec fn public_inputs_valid(public_inputs: Seq<Scalar>) -> bool {
    &&& public_inputs.len() > 0
    &&& forall|i: int|
        0 <= i < public_inputs.len() ==> {
            &&& (#[trigger] public_inputs[i]).value() < curve::scalar_field()
            &&& i < 2 ==> public_inputs[i].value() != 0
        }
}

/// All points of the proof and the key are valid.
pub open spec fn points_valid(proof: Groth16Proof, vkey: VerificationKey) -> bool {
    &&& curve::g1_valid(proof.a.bytes@)
    &&& curve::g2_valid(proof.b.bytes@)
    &&& curve::g1_valid(proof.c.bytes@)
    &&& curve::g2_valid(vkey.alpha_beta.bytes@)
    &&& curve::g2_valid(vkey.gamma.bytes@)
    &&& curve::g2_valid(vkey.delta.bytes@)
    &&& forall|i: int| 0 <= i < vkey.ic@.len() ==> curve::g1_valid((#[trigger] vkey.ic@[i]).bytes@)
}

/// All checks came out well.
pub open spec fn all_checks_hold(checks: PointChecks) -> bool {
    &&& checks.a && checks.b && checks.c
    &&& checks.alpha_beta && checks.gamma && checks.delta
    &&& forall|i: int| 0 <= i < checks.ic@.len() ==> #[trigger] checks.ic@[i]
}

/// Why the proof is refused without a pairing check, if it is.
pub open spec fn rejection(
    proof: Groth16Proof,
    vkey: VerificationKey,
    public_inputs: Seq<Scalar>,
) -> Option<ContractError> {
    if !public_inputs_valid(public_inputs) {
        Some(ContractError::InvalidPublicInputs)
    } else if public_inputs.len() > MAX_PUBLIC_INPUTS {
        Some(ContractError::InvalidArgument)
    } else if public_inputs.len() + 1 != vkey.ic@.len() {
        Some(ContractError::InvalidArgument)
    } else if !points_valid(proof, vkey) {
        Some(ContractError::InvalidArgument)
    } else {
        None
    }
}

/// `ic[0] + public_inputs[0] * ic[1] + ... + public_inputs[n - 1] * ic[n]`, added from the left.
pub open spec fn input_accumulation(ic: Seq<G1Point>, public_inputs: Seq<Scalar>, n: nat) -> Seq<u8>
    decreases n,
{
    if n == 0 {
        ic[0].bytes@
    } else {
        host::g1_sum(
            input_accumulation(ic, public_inputs, (n - 1) as nat),
            curve::g1_multiple(ic[n as int].bytes@, public_inputs[n - 1].value()),
        )
    }
}

/// The G1 side of the pairing product: `A`, `-accumulation`, `-C` and `-G`, where `G` is the
/// generator.
pub open spec fn pairing_left(proof: Groth16Proof, accumulation: Seq<u8>) -> Seq<Seq<u8>> {
    seq![
        proof.a.bytes@,
        curve::g1_negated(accumulation),
        curve::g1_negated(proof.c.bytes@),
        curve::g1_negated(curve::G1_GENERATOR@),
    ]
}

/// The G2 side of the pairing product: `B`, `gamma`, `delta` and `alpha_beta`.
pub open spec fn pairing_right(proof: Groth16Proof, vkey: VerificationKey) -> Seq<Seq<u8>> {
    seq![
        proof.b.bytes@,
        vkey.gamma.bytes@,
        vkey.delta.bytes@,
        vkey.alpha_beta.bytes@,
    ]
}

/// The pairing equation of the proof holds:
/// `e(A, B) == e(alpha, beta) * e(accumulation, gamma) * e(C, delta)`. It is checked as
/// `e(A, B) * e(-accumulation, gamma) * e(-C, delta) * e(-G, alpha_beta) == 1`.
pub open spec fn proof_holds(
    proof: Groth16Proof,
    vkey: VerificationKey,
    public_inputs: Seq<Scalar>,
) -> bool {
    host::pairing_product_is_one(
        pairing_left(proof, input_accumulation(vkey.ic@, public_inputs, public_inputs.len())),
        pairing_right(proof, vkey),
    )
}

/// The gas used between two readings of the meter: none where the second is the larger one.
pub open spec fn gas_between(start_gas: u64, end_gas: u64) -> u64 {
    if start_gas >= end_gas {
        (start_gas - end_gas) as u64
    } else {
        0
    }
}

/// The share of each of `n` proofs in the gas used between two readings of the meter.
pub open spec fn gas_share(start_gas: u64, end_gas: u64, n: nat) -> u64 {
    (gas_between(start_gas, end_gas) as nat / n) as u64
}

/// What a check of the proof asks the host to pair.
pub open spec fn pairing_of(
    proof: Groth16Proof,
    vkey: VerificationKey,
    public_inputs: Seq<Scalar>,
) -> (Seq<Seq<u8>>, Seq<Seq<u8>>) {
    (
        pairing_left(proof, input_accumulation(vkey.ic@, public_inputs, public_inputs.len())),
        pairing_right(proof, vkey),
    )
}

/// What the checks of the proofs of a batch ask the host to pair, in order.
pub open spec fn pairings_of(
    proofs: Seq<(Groth16Proof, VerificationKey, Vec<Scalar>)>,
) -> Seq<(Seq<Seq<u8>>, Seq<Seq<u8>>)> {
    Seq::new(proofs.len(), |i: int| pairing_of(proofs[i].0, proofs[i].1, proofs[i].2@))
}

/// `single` is the result of a check of this proof that began at a meter reading of `start_gas`
/// and at the time `now`. What the meter read at the end is left open.
pub open spec fn is_single_result(
    env: soroban_sdk::Env,
    proof: Groth16Proof,
    vkey: VerificationKey,
    public_inputs: Seq<Scalar>,
    start_gas: u64,
    now: u64,
    single: VerificationResult,
) -> bool {
    &&& single.valid == proof_holds(proof, vkey, public_inputs)
    &&& single.verified_at == now
    &&& exists|end_gas: u64|
        host::is_gas_reading(env, end_gas) && single.gas_used == #[trigger] gas_between(
            start_gas,
            end_gas,
        )
}

/// `results` are `singles` but for the gas, of which each has an equal share.
pub open spec fn shares_gas(
    singles: Seq<VerificationResult>,
    results: Seq<VerificationResult>,
    start_gas: u64,
    end_gas: u64,
) -> bool {
    &&& results.len() == singles.len()
    &&& forall|i: int|
        0 <= i < singles.len() ==> #[trigger] results[i] == (VerificationResult {
            gas_used: gas_share(start_gas, end_gas, singles.len()),
            ..singles[i]
        })
}

/// Every result has used `gas`.
pub open spec fn each_used(results: Seq<VerificationResult>, gas: u64) -> bool {
    forall|i: int| 0 <= i < results.len() ==> (#[trigger] results[i]).gas_used == gas
}

/// `results` are the verdicts on the proofs of a batch, given at the time `now`: one for each
/// proof, in order.
pub open spec fn are_verdicts(
    proofs: Seq<(Groth16Proof, VerificationKey, Vec<Scalar>)>,
    now: u64,
    results: Seq<VerificationResult>,
) -> bool {
    &&& results.len() == proofs.len()
    &&& forall|i: int|
        0 <= i < proofs.len() ==> {
            &&& (#[trigger] results[i]).valid == proof_holds(
                proofs[i].0,
                proofs[i].1,
                proofs[i].2@,
            )
            &&& results[i].verified_at == now
        }
}

/// `results` are the results of a batch that began at a meter reading of `start_gas` and at the
/// time `now`: one for each proof, in order. What the meter read at the end is left open.
pub open spec fn is_batch_result(
    env: soroban_sdk::Env,
    proofs: Seq<(Groth16Proof, VerificationKey, Vec<Scalar>)>,
    start_gas: u64,
    now: u64,
    results: Seq<VerificationResult>,
) -> bool {
    &&& are_verdicts(proofs, now, results)
    &&& exists|end_gas: u64|
        host::is_gas_reading(env, end_gas) && each_used(
            results,
            #[trigger] gas_share(start_gas, end_gas, proofs.len()),
        )
}

/// The rejection of the first of the first `n` proofs that is rejected.
pub open spec fn first_rejection(
    proofs: Seq<(Groth16Proof, VerificationKey, Vec<Scalar>)>,
    n: nat,
) -> Option<ContractError>
    decreases n,
{
    if n == 0 {
        None
    } else {
        match first_rejection(proofs, (n - 1) as nat) {
            Some(error) => Some(error),
            None => {
                let (proof, vkey, public_inputs) = proofs[n - 1];
                rejection(proof, vkey, public_inputs@)
            },
        }
    }
}

/// `FIELD_MODULUS` spells the order of the scalar field.
pub proof fn law_field_modulus_is_the_scalar_field_order()
    ensures
        bytes::be_value(FIELD_MODULUS@) == curve::scalar_field(),
{
    reveal_with_fuel(bytes::be_prefix, 33);
}

/// Whether a scalar (in bytes) is out of bounds, that is, at least the field modulus.
pub fn is_scalar_ge_field_modulus(scalar_bytes: &[u8; 32]) -> (out_of_bounds: bool)
    ensures
        out_of_bounds == (bytes::be_value(scalar_bytes@) >= curve::scalar_field()),
{
    proof {
        law_field_modulus_is_the_scalar_field_order();
        assert(scalar_bytes@.subrange(0, 32) =~= scalar_bytes@);
    }
    bytes::be_at_least(scalar_bytes.as_slice(), 0, &FIELD_MODULUS)
}

/// Validate public inputs for structural integrity and field bounds.
pub fn validate_public_inputs(public_inputs: &Vec<Scalar>) -> (result: Result<(), ContractError>)
    ensures
        public_inputs_valid(public_inputs@) ==> result == Ok::<(), ContractError>(()),
        !public_inputs_valid(public_inputs@) ==> result == Err::<(), ContractError>(
            ContractError::InvalidPublicInputs,
        ),
{
    if public_inputs.len() == 0 {
        return Err(ContractError::InvalidPublicInputs);
    }
    let mut index: usize = 0;
    while index < public_inputs.len()
        invariant
            index <= public_inputs@.len(),
            forall|i: int|
                0 <= i < index ==> {
                    &&& (#[trigger] public_inputs@[i]).value() < curve::scalar_field()
                    &&& i < 2 ==> public_inputs@[i].value() != 0
                },
        decreases public_inputs@.len() - index,
    {
        let input = public_inputs[index];
        proof {
            assert(input == public_inputs@[index as int]);
            bytes::lemma_be_value_zero(input.bytes@);
        }
        if is_scalar_ge_field_modulus(&input.bytes) {
            return Err(ContractError::InvalidPublicInputs);
        }
        if index < 2 && bytes::is_all_zero(input.bytes.as_slice()) {
            return Err(ContractError::InvalidPublicInputs);
        }
        index += 1;
    }
    Ok(())
}

/// What the point checks decide: every point must be valid.
pub fn points_verdict(checks: &PointChecks) -> (result: Result<(), ContractError>)
    ensures
        all_checks_hold(*checks) ==> result == Ok::<(), ContractError>(()),
        !all_checks_hold(*checks) ==> result == Err::<(), ContractError>(
            ContractError::InvalidArgument,
        ),
{
    if !checks.a || !checks.b || !checks.c {
        return Err(ContractError::InvalidArgument);
    }
    if !checks.alpha_beta || !checks.gamma || !checks.delta {
        return Err(ContractError::InvalidArgument);
    }
    let mut i: usize = 0;
    while i < checks.ic.len()
        invariant
            i <= checks.ic@.len(),
            forall|j: int| 0 <= j < i ==> #[trigger] checks.ic@[j],
        decreases checks.ic@.len() - i,
    {
        if !checks.ic[i] {
            return Err(ContractError::InvalidArgument);
        }
        i += 1;
    }
    Ok(())
}

/// Checks each point of the proof and of the key.
pub fn check_points(
    env: &soroban_sdk::Env,
    proof: &Groth16Proof,
    vkey: &VerificationKey,
) -> (checks: PointChecks)
    ensures
        checks.a == curve::g1_valid(proof.a.bytes@),
        checks.b == curve::g2_valid(proof.b.bytes@),
        checks.c == curve::g1_valid(proof.c.bytes@),
        checks.alpha_beta == curve::g2_valid(vkey.alpha_beta.bytes@),
        checks.gamma == curve::g2_valid(vkey.gamma.bytes@),
        checks.delta == curve::g2_valid(vkey.delta.bytes@),
        checks.ic@.len() == vkey.ic@.len(),
        forall|i: int|
            0 <= i < vkey.ic@.len() ==> #[trigger] checks.ic@[i] == curve::g1_valid(
                vkey.ic@[i].bytes@,
            ),
{
    let mut ic: Vec<bool> = Vec::new();
    let mut i: usize = 0;
    while i < vkey.ic.len()
        invariant
            i <= vkey.ic@.len(),
            ic@.len() == i,
            forall|j: int|
                0 <= j < i ==> #[trigger] ic@[j] == curve::g1_valid(vkey.ic@[j].bytes@),
        decreases vkey.ic@.len() - i,
    {
        ic.push(curve::g1_is_valid(env, &vkey.ic[i]));
        i += 1;
    }
    PointChecks {
        a: curve::g1_is_valid(env, &proof.a),
        b: curve::g2_is_valid(env, &proof.b),
        c: curve::g1_is_valid(env, &proof.c),
        alpha_beta: curve::g2_is_valid(env, &vkey.alpha_beta),
        gamma: curve::g2_is_valid(env, &vkey.gamma),
        delta: curve::g2_is_valid(env, &vkey.delta),
        ic,
    }
}

/// Validate that all elliptic curve points are valid (on-curve and in correct subgroup).
pub fn validate_points(
    env: &soroban_sdk::Env,
    proof: &Groth16Proof,
    vkey: &VerificationKey,
) -> (result: Result<(), ContractError>)
    ensures
        points_valid(*proof, *vkey) ==> result == Ok::<(), ContractError>(()),
        !points_valid(*proof, *vkey) ==> result == Err::<(), ContractError>(
            ContractError::InvalidArgument,
        ),
{
    let checks = check_points(env, proof, vkey);
    proof {
        if all_checks_hold(checks) {
            assert forall|i: int| 0 <= i < vkey.ic@.len() implies curve::g1_valid(
                (#[trigger] vkey.ic@[i]).bytes@,
            ) by {
                assert(checks.ic@[i]);
            }
        }
    }
    points_verdict(&checks)
}

/// Computes the input accumulation: sum(public_inputs[i] * ic[i+1]) + ic[0].
fn accumulate_inputs(
    env: &soroban_sdk::Env,
    vkey: &VerificationKey,
    public_inputs: &Vec<Scalar>,
) -> (accumulation: [u8; 64])
    requires
        public_inputs@.len() + 1 == vkey.ic@.len(),
        public_inputs_valid(public_inputs@),
        forall|i: int|
            0 <= i < vkey.ic@.len() ==> curve::g1_valid((#[trigger] vkey.ic@[i]).bytes@),
    ensures
        accumulation@ == input_accumulation(vkey.ic@, public_inputs@, public_inputs@.len()),
        curve::g1_on_curve(accumulation@),
{
    let mut accumulation: [u8; 64] = vkey.ic[0].bytes;
    let mut i: usize = 0;
    while i < public_inputs.len()
        invariant
            i <= public_inputs@.len(),
            public_inputs@.len() + 1 == vkey.ic@.len(),
            public_inputs_valid(public_inputs@),
            forall|j: int|
                0 <= j < vkey.ic@.len() ==> curve::g1_valid((#[trigger] vkey.ic@[j]).bytes@),
            accumulation@ == input_accumulation(vkey.ic@, public_inputs@, i as nat),
            curve::g1_on_curve(accumulation@),
        decreases public_inputs@.len() - i,
    {
        let input = public_inputs[i];
        let ic_point = vkey.ic[i + 1];
        assert(input == public_inputs@[i as int]);
        assert(ic_point == vkey.ic@[i + 1]);
        let scaled = host::g1_mul(env, &ic_point.bytes, &input.bytes);
        accumulation = host::g1_add(env, &accumulation, &scaled);
        i += 1;
    }
    accumulation
}

/// Performs the batch pairing check of a proof whose inputs have been accumulated.
fn check_pairings(
    session: &mut host::Session,
    env: &soroban_sdk::Env,
    proof: &Groth16Proof,
    vkey: &VerificationKey,
    accumulation: &[u8; 64],
) -> (holds: bool)
    requires
        points_valid(*proof, *vkey),
        curve::g1_on_curve(accumulation@),
    ensures
        holds == host::pairing_product_is_one(
            pairing_left(*proof, accumulation@),
            pairing_right(*proof, *vkey),
        ),
        final(session).events() == old(session).events().push(
            host::Event::Pairing {
                left: pairing_left(*proof, accumulation@),
                right: pairing_right(*proof, *vkey),
            },
        ),
{
    proof {
        curve::lemma_g1_generator();
        curve::law_negation_stays_on_curve(accumulation@);
        curve::law_negation_stays_on_curve(proof.c.bytes@);
        curve::law_negation_stays_on_curve(curve::G1_GENERATOR@);
    }
    let left: [[u8; 64]; 4] = [
        proof.a.bytes,
        host::g1_negate(env, accumulation),
        host::g1_negate(env, &proof.c.bytes),
        host::g1_negate(env, &curve::G1_GENERATOR),
    ];
    let right: [[u8; 128]; 4] = [
        proof.b.bytes,
        vkey.gamma.bytes,
        vkey.delta.bytes,
        vkey.alpha_beta.bytes,
    ];
    session.check_product(env, &left, &right)
}

/// The result of a check that started and ended with the given readings of the gas meter.
pub fn conclude(valid: bool, start_gas: u64, end_gas: u64, now: u64) -> (result: VerificationResult)
    ensures
        result == (VerificationResult {
            valid,
            gas_used: gas_between(start_gas, end_gas),
            verified_at: now,
        }),
{
    VerificationResult { valid, gas_used: start_gas.saturating_sub(end_gas), verified_at: now }
}

/// Verify a Groth16 proof against the verification key and public inputs.
///
/// The host's meter and clock are read first; `verify_proof_from` says what is made of the
/// readings. What they show rests on the host.
pub fn verify_proof(
    env: &soroban_sdk::Env,
    proof: &Groth16Proof,
    vkey: &VerificationKey,
    public_inputs: &Vec<Scalar>,
) -> (result: Result<VerificationResult, ContractError>)
    ensures
        match rejection(*proof, *vkey, public_inputs@) {
            Some(error) => result == Err::<VerificationResult, ContractError>(error),
            None => {
                &&& result is Ok
                &&& result->Ok_0.valid == proof_holds(*proof, *vkey, public_inputs@)
                &&& host::is_timestamp(*env, result->Ok_0.verified_at)
                &&& exists|start_gas: u64| #[trigger]
                    host::is_gas_reading(*env, start_gas) && is_single_result(
                        *env,
                        *proof,
                        *vkey,
                        public_inputs@,
                        start_gas,
                        result->Ok_0.verified_at,
                        result->Ok_0,
                    )
            },
        },
        exists|start_gas: u64, now: u64, session: host::Session|
            {
                &&& host::is_gas_reading(*env, start_gas)
                &&& host::is_timestamp(*env, now)
                &&& #[trigger] call_ensures(
                    verify_proof_recorded,
                    (env, proof, vkey, public_inputs, start_gas, now),
                    (result, session),
                )
            },
{
    let start_gas: u64 = host::read_gas(env);
    let now: u64 = host::read_clock(env);
    verify_proof_from(env, proof, vkey, public_inputs, start_gas, now)
}

/// Verify a Groth16 proof, where the meter read `start_gas` at the beginning and the time is
/// `now`.
///
/// The result is that of `verify_proof_recorded`, which says when the meter is read at the end.
/// `conclude` says what is made of the reading.
pub fn verify_proof_from(
    env: &soroban_sdk::Env,
    proof: &Groth16Proof,
    vkey: &VerificationKey,
    public_inputs: &Vec<Scalar>,
    start_gas: u64,
    now: u64,
) -> (result: Result<VerificationResult, ContractError>)
    ensures
        match rejection(*proof, *vkey, public_inputs@) {
            Some(error) => result == Err::<VerificationResult, ContractError>(error),
            None => {
                &&& result is Ok
                &&& is_single_result(
                    *env,
                    *proof,
                    *vkey,
                    public_inputs@,
                    start_gas,
                    now,
                    result->Ok_0,
                )
            },
        },
        exists|session: host::Session| #[trigger]
            call_ensures(
                verify_proof_recorded,
                (env, proof, vkey, public_inputs, start_gas, now),
                (result, session),
            ),
{
    let (result, _session) = verify_proof_recorded(
        env,
        proof,
        vkey,
        public_inputs,
        start_gas,
        now,
    );
    result
}

/// Verify a Groth16 proof in a session of its own, where the meter read `start_gas` at the
/// beginning and the time is `now`. The session says what was asked of the host: the pairing
/// product, and then the meter.
pub fn verify_proof_recorded(
    env: &soroban_sdk::Env,
    proof: &Groth16Proof,
    vkey: &VerificationKey,
    public_inputs: &Vec<Scalar>,
    start_gas: u64,
    now: u64,
) -> (recorded: (Result<VerificationResult, ContractError>, host::Session))
    ensures
        match rejection(*proof, *vkey, public_inputs@) {
            Some(error) => {
                &&& recorded.0 == Err::<VerificationResult, ContractError>(error)
                &&& recorded.1.events() == Seq::<host::Event>::empty()
            },
            None => {
                let (left, right) = pairing_of(*proof, *vkey, public_inputs@);
                &&& recorded.0 is Ok
                &&& recorded.0->Ok_0.valid == proof_holds(*proof, *vkey, public_inputs@)
                &&& recorded.0->Ok_0.verified_at == now
                &&& exists|end_gas: u64|
                    {
                        &&& host::is_gas_reading(*env, end_gas)
                        &&& recorded.0->Ok_0.gas_used == #[trigger] gas_between(start_gas, end_gas)
                        &&& recorded.1.events() == seq![
                            host::Event::Pairing { left, right },
                            host::Event::Reading { gas: end_gas },
                        ]
                    }
            },
        },
{
    let mut session = host::Session::open();
    let result = verify_proof_in(
        &mut session,
        env,
        proof,
        vkey,
        public_inputs,
        start_gas,
        now,
    );
    proof {
        if rejection(*proof, *vkey, public_inputs@) is None {
            let (left, right) = pairing_of(*proof, *vkey, public_inputs@);
            let end_gas = choose|end_gas: u64|
                {
                    &&& host::is_gas_reading(*env, end_gas)
                    &&& result->Ok_0.gas_used == #[trigger] gas_between(start_gas, end_gas)
                    &&& session.events() == Seq::empty().push(
                        host::Event::Pairing { left, right },
                    ).push(host::Event::Reading { gas: end_gas })
                };
            assert(session.events() =~= seq![
                host::Event::Pairing { left, right },
                host::Event::Reading { gas: end_gas },
            ]);
        }
    }
    (result, session)
}

/// Verify a Groth16 proof as part of a session, where the meter read `start_gas` at the beginning
/// and the time is `now`.
///
/// The public inputs are checked first, then the sizes, then the points. Only then is anything
/// computed on the curve. The pairing product is checked once, and the meter is read once, after
/// that.
pub fn verify_proof_in(
    session: &mut host::Session,
    env: &soroban_sdk::Env,
    proof: &Groth16Proof,
    vkey: &VerificationKey,
    public_inputs: &Vec<Scalar>,
    start_gas: u64,
    now: u64,
) -> (result: Result<VerificationResult, ContractError>)
    ensures
        match rejection(*proof, *vkey, public_inputs@) {
            Some(error) => {
                &&& result == Err::<VerificationResult, ContractError>(error)
                &&& final(session).events() == old(session).events()
            },
            None => {
                let (left, right) = pairing_of(*proof, *vkey, public_inputs@);
                &&& result is Ok
                &&& result->Ok_0.valid == proof_holds(*proof, *vkey, public_inputs@)
                &&& result->Ok_0.verified_at == now
                &&& exists|end_gas: u64|
                    {
                        &&& host::is_gas_reading(*env, end_gas)
                        &&& result->Ok_0.gas_used == #[trigger] gas_between(start_gas, end_gas)
                        &&& final(session).events() == old(session).events().push(
                            host::Event::Pairing { left, right },
                        ).push(host::Event::Reading { gas: end_gas })
                    }
            },
        },
{
    if let Err(error) = validate_public_inputs(public_inputs) {
        return Err(error);
    }
    if public_inputs.len() > MAX_PUBLIC_INPUTS as usize {
        return Err(ContractError::InvalidArgument);
    }
    if public_inputs.len() + 1 != vkey.ic.len() {
        return Err(ContractError::InvalidArgument);
    }
    if let Err(error) = validate_points(env, proof, vkey) {
        return Err(error);
    }
    let accumulation = accumulate_inputs(env, vkey, public_inputs);
    let pairing_valid: bool = check_pairings(session, env, proof, vkey, &accumulation);
    let end_gas: u64 = session.meter(env);
    Ok(conclude(pairing_valid, start_gas, end_gas, now))
}

/// Gives every result of a batch an equal share of the gas that the whole batch used between
/// two readings of the meter, and leaves the rest of it as it is.
pub fn distribute_gas(results: &mut Vec<VerificationResult>, start_gas: u64, end_gas: u64)
    requires
        old(results)@.len() > 0,
    ensures
        shares_gas(old(results)@, final(results)@, start_gas, end_gas),
{
    let total_gas: u64 = start_gas.saturating_sub(end_gas);
    let share: u64 = total_gas / results.len() as u64;
    let mut i: usize = 0;
    while i < results.len()
        invariant
            i <= results@.len(),
            results@.len() == old(results)@.len(),
            share == gas_share(start_gas, end_gas, old(results)@.len()),
            forall|j: int|
                0 <= j < results@.len() ==> #[trigger] results@[j] == (if j < i {
                    VerificationResult { gas_used: share, ..old(results)@[j] }
                } else {
                    old(results)@[j]
                }),
        decreases results@.len() - i,
    {
        let shared = VerificationResult {
            valid: results[i].valid,
            gas_used: share,
            verified_at: results[i].verified_at,
        };
        results.set(i, shared);
        i += 1;
    }
}

/// Batch verification for multiple proofs in a single transaction.
///
/// The host's meter and clock are read first; `batch_verify_proofs_from` says what is made of
/// the readings. Every result of the batch has the same timestamp and the same share of the gas.
pub fn batch_verify_proofs(
    env: &soroban_sdk::Env,
    proofs: &Vec<(Groth16Proof, VerificationKey, Vec<Scalar>)>,
) -> (result: Result<Vec<VerificationResult>, ContractError>)
    ensures
        proofs@.len() == 0 ==> result is Ok && result->Ok_0@.len() == 0,
        proofs@.len() > MAX_BATCH_SIZE ==> result == Err::<Vec<VerificationResult>, ContractError>(
            ContractError::InvalidArgument,
        ),
        0 < proofs@.len() <= MAX_BATCH_SIZE ==> match first_rejection(proofs@, proofs@.len()) {
            Some(error) => result == Err::<Vec<VerificationResult>, ContractError>(error),
            None => {
                &&& result is Ok
                &&& exists|start_gas: u64, now: u64|
                    {
                        &&& host::is_gas_reading(*env, start_gas)
                        &&& host::is_timestamp(*env, now)
                        &&& #[trigger] is_batch_result(
                            *env,
                            proofs@,
                            start_gas,
                            now,
                            result->Ok_0@,
                        )
                    }
            },
        },
        exists|start_gas: u64, now: u64, session: host::Session|
            {
                &&& host::is_gas_reading(*env, start_gas)
                &&& host::is_timestamp(*env, now)
                &&& #[trigger] call_ensures(
                    batch_verify_proofs_recorded,
                    (env, proofs, start_gas, now),
                    (result, session),
                )
            },
{
    let start_gas: u64 = host::read_gas(env);
    let now: u64 = host::read_clock(env);
    batch_verify_proofs_from(env, proofs, start_gas, now)
}

/// Batch verification, where the meter read `start_gas` at the beginning and the time is `now`.
///
/// The result is that of `batch_verify_proofs_recorded`, which says when the meter is read at the
/// end. `distribute_gas` says what is made of the reading.
pub fn batch_verify_proofs_from(
    env: &soroban_sdk::Env,
    proofs: &Vec<(Groth16Proof, VerificationKey, Vec<Scalar>)>,
    start_gas: u64,
    now: u64,
) -> (result: Result<Vec<VerificationResult>, ContractError>)
    ensures
        proofs@.len() == 0 ==> result is Ok && result->Ok_0@.len() == 0,
        proofs@.len() > MAX_BATCH_SIZE ==> result == Err::<Vec<VerificationResult>, ContractError>(
            ContractError::InvalidArgument,
        ),
        0 < proofs@.len() <= MAX_BATCH_SIZE ==> match first_rejection(proofs@, proofs@.len()) {
            Some(error) => result == Err::<Vec<VerificationResult>, ContractError>(error),
            None => result is Ok && is_batch_result(*env, proofs@, start_gas, now, result->Ok_0@),
        },
        exists|session: host::Session| #[trigger]
            call_ensures(
                batch_verify_proofs_recorded,
                (env, proofs, start_gas, now),
                (result, session),
            ),
{
    let (result, _session) = batch_verify_proofs_recorded(env, proofs, start_gas, now);
    result
}

/// Batch verification in a session of its own, where the meter read `start_gas` at the beginning
/// and the time is `now`. The session says what was asked of the host: the pairing product of
/// every proof, in order, and at the very end the meter.
pub fn batch_verify_proofs_recorded(
    env: &soroban_sdk::Env,
    proofs: &Vec<(Groth16Proof, VerificationKey, Vec<Scalar>)>,
    start_gas: u64,
    now: u64,
) -> (recorded: (Result<Vec<VerificationResult>, ContractError>, host::Session))
    ensures
        proofs@.len() == 0 ==> recorded.0 is Ok && recorded.0->Ok_0@.len() == 0,
        proofs@.len() > MAX_BATCH_SIZE ==> recorded.0 == Err::<Vec<VerificationResult>, ContractError>(
            ContractError::InvalidArgument,
        ),
        0 < proofs@.len() <= MAX_BATCH_SIZE ==> match first_rejection(proofs@, proofs@.len()) {
            Some(error) => recorded.0 == Err::<Vec<VerificationResult>, ContractError>(error),
            None => {
                &&& recorded.0 is Ok
                &&& are_verdicts(proofs@, now, recorded.0->Ok_0@)
                &&& exists|end_gas: u64|
                    {
                        &&& host::is_gas_reading(*env, end_gas)
                        &&& each_used(
                            recorded.0->Ok_0@,
                            #[trigger] gas_share(start_gas, end_gas, proofs@.len()),
                        )
                        &&& recorded.1.events().len() > 0
                        &&& recorded.1.events().last() == (host::Event::Reading {
                            gas: end_gas,
                        })
                        &&& host::pairings(recorded.1.events()) == pairings_of(proofs@)
                    }
            },
        },
{
    let mut session = host::Session::open();
    let result = batch_verify_proofs_in(&mut session, env, proofs, start_gas, now);
    proof {
        assert(host::pairings(Seq::empty()) + pairings_of(proofs@) =~= pairings_of(proofs@));
    }
    (result, session)
}

/// Batch verification as part of a session, where the meter read `start_gas` at the beginning and
/// the time is `now`.
///
/// An empty batch gives no results and a batch that is too long is refused. Otherwise the proofs
/// are verified in order: the first one that is rejected rejects the whole batch. The gas that
/// the batch used is shared out equally; `distribute_gas` says how. The reading that it is shared
/// from is the last thing that the batch asks of the host, after the pairing product of every
/// proof.
pub fn batch_verify_proofs_in(
    session: &mut host::Session,
    env: &soroban_sdk::Env,
    proofs: &Vec<(Groth16Proof, VerificationKey, Vec<Scalar>)>,
    start_gas: u64,
    now: u64,
) -> (result: Result<Vec<VerificationResult>, ContractError>)
    ensures
        proofs@.len() == 0 ==> result is Ok && result->Ok_0@.len() == 0,
        proofs@.len() > MAX_BATCH_SIZE ==> result == Err::<Vec<VerificationResult>, ContractError>(
            ContractError::InvalidArgument,
        ),
        0 < proofs@.len() <= MAX_BATCH_SIZE ==> match first_rejection(proofs@, proofs@.len()) {
            Some(error) => result == Err::<Vec<VerificationResult>, ContractError>(error),
            None => {
                &&& result is Ok
                &&& are_verdicts(proofs@, now, result->Ok_0@)
                &&& exists|end_gas: u64|
                    {
                        &&& host::is_gas_reading(*env, end_gas)
                        &&& each_used(
                            result->Ok_0@,
                            #[trigger] gas_share(start_gas, end_gas, proofs@.len()),
                        )
                        &&& final(session).events().len() > 0
                        &&& final(session).events().last() == (host::Event::Reading {
                            gas: end_gas,
                        })
                        &&& host::pairings(final(session).events()) == host::pairings(
                            old(session).events(),
                        ) + pairings_of(proofs@)
                    }
            },
        },
{
    let mut results: Vec<VerificationResult> = Vec::new();
    if proofs.len() == 0 {
        return Ok(results);
    }
    if proofs.len() > MAX_BATCH_SIZE {
        return Err(ContractError::InvalidArgument);
    }
    let mut i: usize = 0;
    proof {
        assert(host::pairings(session.events()) =~= host::pairings(session.events())
            + pairings_of(proofs@).take(0));
    }
    while i < proofs.len()
        invariant
            i <= proofs@.len() <= MAX_BATCH_SIZE,
            first_rejection(proofs@, i as nat) is None,
            are_verdicts(proofs@.take(i as int), now, results@),
            host::pairings(session.events()) == host::pairings(old(session).events())
                + pairings_of(proofs@).take(i as int),
        decreases proofs@.len() - i,
    {
        let entry = &proofs[i];
        assert(*entry == proofs@[i as int]);
        let ghost verdicts = results@;
        let ghost events = session.events();
        proof {
            if first_rejection(proofs@, (i + 1) as nat) is Some {
                lemma_first_rejection_stays(proofs@, (i + 1) as nat, proofs@.len());
            }
        }
        if let Err(error) = validate_public_inputs(&entry.2) {
            return Err(error);
        }
        let proof_start: u64 = session.meter(env);
        match verify_proof_in(session, env, &entry.0, &entry.1, &entry.2, proof_start, now) {
            Ok(result) => results.push(result),
            Err(error) => return Err(error),
        }
        proof {
            assert(results@.take(i as int) =~= verdicts);
            lemma_verdicts_grow(proofs@, i as int, now, verdicts, results@);
            lemma_pairings_grow(proofs@, i as int, events, proof_start, session.events());
        }
        i += 1;
    }
    let ghost worked = session.events();
    let end_gas: u64 = session.meter(env);
    let ghost singles = results@;
    distribute_gas(&mut results, start_gas, end_gas);
    proof {
        host::law_pairings_are_kept_in_order(worked, Seq::empty(), Seq::empty(), end_gas);
        assert(proofs@.take(proofs@.len() as int) =~= proofs@);
        assert(pairings_of(proofs@).take(proofs@.len() as int) =~= pairings_of(proofs@));
        lemma_is_batch_result(*env, proofs@, singles, results@, start_gas, end_gas, now);
    }
    Ok(results)
}

/// One more verdict on the next proof of a batch.
proof fn lemma_verdicts_grow(
    proofs: Seq<(Groth16Proof, VerificationKey, Vec<Scalar>)>,
    i: int,
    now: u64,
    verdicts: Seq<VerificationResult>,
    more: Seq<VerificationResult>,
)
    requires
        0 <= i < proofs.len(),
        are_verdicts(proofs.take(i), now, verdicts),
        more.len() == i + 1,
        more.take(i) == verdicts,
        more[i].valid == proof_holds(proofs[i].0, proofs[i].1, proofs[i].2@),
        more[i].verified_at == now,
    ensures
        are_verdicts(proofs.take(i + 1), now, more),
{
    assert forall|j: int| 0 <= j < i + 1 implies {
        &&& (#[trigger] more[j]).valid == proof_holds(
            proofs.take(i + 1)[j].0,
            proofs.take(i + 1)[j].1,
            proofs.take(i + 1)[j].2@,
        )
        &&& more[j].verified_at == now
    } by {
        if j < i {
            assert(more.take(i)[j] == more[j]);
            assert(verdicts[j].verified_at == now);
            assert(proofs.take(i)[j] == proofs[j]);
        }
    }
}

/// The check of proof `i` of a batch adds its pairing product to those that were asked for.
proof fn lemma_pairings_grow(
    proofs: Seq<(Groth16Proof, VerificationKey, Vec<Scalar>)>,
    i: int,
    events: Seq<host::Event>,
    start: u64,
    more: Seq<host::Event>,
)
    requires
        0 <= i < proofs.len(),
        ({
            let (left, right) = pairing_of(proofs[i].0, proofs[i].1, proofs[i].2@);
            exists|end: u64|
                more == #[trigger] events.push(host::Event::Reading { gas: start }).push(
                    host::Event::Pairing { left, right },
                ).push(host::Event::Reading { gas: end })
        }),
    ensures
        host::pairings(more) == host::pairings(events).push(pairings_of(proofs)[i]),
        pairings_of(proofs).take(i + 1) == pairings_of(proofs).take(i).push(pairings_of(proofs)[i]),
{
    let (left, right) = pairing_of(proofs[i].0, proofs[i].1, proofs[i].2@);
    let end = choose|end: u64|
        more == #[trigger] events.push(host::Event::Reading { gas: start }).push(
            host::Event::Pairing { left, right },
        ).push(host::Event::Reading { gas: end });
    let started = events.push(host::Event::Reading { gas: start });
    let paired = started.push(host::Event::Pairing { left, right });
    host::law_pairings_are_kept_in_order(events, left, right, start);
    host::law_pairings_are_kept_in_order(started, left, right, start);
    host::law_pairings_are_kept_in_order(paired, left, right, end);
    assert(pairings_of(proofs).take(i + 1) =~= pairings_of(proofs).take(i).push(
        pairings_of(proofs)[i],
    ));
}

/// Sharing out the gas of single results makes them the results of the batch.
proof fn lemma_is_batch_result(
    env: soroban_sdk::Env,
    proofs: Seq<(Groth16Proof, VerificationKey, Vec<Scalar>)>,
    singles: Seq<VerificationResult>,
    results: Seq<VerificationResult>,
    start_gas: u64,
    end_gas: u64,
    now: u64,
)
    requires
        are_verdicts(proofs, now, singles),
        shares_gas(singles, results, start_gas, end_gas),
        host::is_gas_reading(env, end_gas),
    ensures
        is_batch_result(env, proofs, start_gas, now, results),
        each_used(results, gas_share(start_gas, end_gas, proofs.len())),
{
    assert forall|i: int| 0 <= i < proofs.len() implies {
        &&& (#[trigger] results[i]).valid == proof_holds(proofs[i].0, proofs[i].1, proofs[i].2@)
        &&& results[i].verified_at == now
    } by {
        assert(singles[i].verified_at == now);
    }
    assert(each_used(results, gas_share(start_gas, end_gas, proofs.len())));
}

/// Once a proof is rejected, no later proof changes the rejection.
proof fn lemma_first_rejection_stays(
    proofs: Seq<(Groth16Proof, VerificationKey, Vec<Scalar>)>,
    n: nat,
    m: nat,
)
    requires
        n <= m,
        first_rejection(proofs, n) is Some,
    ensures
        first_rejection(proofs, m) == first_rejection(proofs, n),
    decreases m,
{
    if n < m {
        lemma_first_rejection_stays(proofs, n, (m - 1) as nat);
    }
}

/// Public inputs are accepted exactly when there is at least one, the bytes of each spell a number
/// below the order of the scalar field, and those of the first two do not spell zero.
pub proof fn law_public_inputs_by_their_values(public_inputs: Seq<Scalar>)
    ensures
        public_inputs_valid(public_inputs) <==> {
            &&& public_inputs.len() > 0
            &&& forall|i: int|
                0 <= i < public_inputs.len() ==> bytes::be_value(
                    (#[trigger] public_inputs[i]).bytes@,
                ) < curve::scalar_field()
            &&& bytes::be_value(public_inputs[0].bytes@) != 0
            &&& public_inputs.len() > 1 ==> bytes::be_value(public_inputs[1].bytes@) != 0
        },
{
    if public_inputs_valid(public_inputs) {
        assert(public_inputs[0].value() != 0);
        if public_inputs.len() > 1 {
            assert(public_inputs[1].value() != 0);
        }
    }
}

/// The points of a proof and a key are accepted exactly when each single one is, and the key may
/// hold any number of IC elements.
pub proof fn law_points_one_by_one(proof: Groth16Proof, vkey: VerificationKey)
    ensures
        points_valid(proof, vkey) <==> {
            &&& curve::g1_valid(proof.a.bytes@) && curve::g1_valid(proof.c.bytes@)
            &&& curve::g2_valid(proof.b.bytes@)
            &&& curve::g2_valid(vkey.alpha_beta.bytes@)
            &&& curve::g2_valid(vkey.gamma.bytes@)
            &&& curve::g2_valid(vkey.delta.bytes@)
            &&& forall|point: G1Point| #[trigger]
                vkey.ic@.contains(point) ==> curve::g1_valid(point.bytes@)
        },
{
    if points_valid(proof, vkey) {
        assert forall|point: G1Point| #[trigger]
            vkey.ic@.contains(point) implies curve::g1_valid(point.bytes@) by {
            let i = vkey.ic@.index_of(point);
            assert(vkey.ic@[i] == point);
        }
    }
    if forall|point: G1Point| #[trigger]
        vkey.ic@.contains(point) ==> curve::g1_valid(point.bytes@) {
        assert forall|i: int| 0 <= i < vkey.ic@.len() implies curve::g1_valid(
            (#[trigger] vkey.ic@[i]).bytes@,
        ) by {
            assert(vkey.ic@.contains(vkey.ic@[i]));
        }
    }
}

/// The checks of the points hold together exactly when none of them failed.
pub proof fn law_checks_one_by_one(checks: PointChecks)
    ensures
        all_checks_hold(checks) <==> !({
            ||| !checks.a
            ||| !checks.b
            ||| !checks.c
            ||| !checks.alpha_beta
            ||| !checks.gamma
            ||| !checks.delta
            ||| checks.ic@.contains(false)
        }),
{
    if !checks.ic@.contains(false) {
        assert forall|i: int| 0 <= i < checks.ic@.len() implies #[trigger] checks.ic@[i] by {
            if !checks.ic@[i] {
                assert(checks.ic@.contains(false));
            }
        }
    }
}

/// What is refused, and why. Inputs that are not valid come first. Then come more than 32 inputs,
/// a number of IC elements other than one more than the inputs, and points that are not valid.
/// Nothing else is refused.
pub proof fn law_refusals(proof: Groth16Proof, vkey: VerificationKey, public_inputs: Seq<Scalar>)
    ensures
        ({
            let fits = {
                &&& public_inputs.len() <= 32
                &&& vkey.ic@.len() == public_inputs.len() + 1
                &&& points_valid(proof, vkey)
            };
            let inputs_valid = public_inputs_valid(public_inputs);
            let refused = rejection(proof, vkey, public_inputs);
            &&& refused is None <==> inputs_valid && fits
            &&& refused == Some(ContractError::InvalidPublicInputs) <==> !inputs_valid
            &&& refused == Some(ContractError::InvalidArgument) <==> inputs_valid && !fits
        }),
{
}

/// Every public input has its part in the accumulation. With no inputs it is the first IC
/// element, and input `n` adds as many times its own IC element as its bytes spell.
pub proof fn law_every_input_is_accumulated(
    ic: Seq<G1Point>,
    public_inputs: Seq<Scalar>,
    n: nat,
)
    ensures
        input_accumulation(ic, public_inputs, 0) == ic[0].bytes@,
        0 < n <= public_inputs.len() ==> input_accumulation(ic, public_inputs, n) == host::g1_sum(
            input_accumulation(ic, public_inputs, (n - 1) as nat),
            curve::g1_multiple(
                ic[n as int].bytes@,
                bytes::be_value(public_inputs[n - 1].bytes@),
            ),
        ),
{
}

/// The accumulation of `n` inputs rests on these inputs and the first `n + 1` IC elements alone.
pub proof fn law_accumulation_looks_no_further(
    ic: Seq<G1Point>,
    public_inputs: Seq<Scalar>,
    other_ic: Seq<G1Point>,
    other_inputs: Seq<Scalar>,
    n: nat,
)
    requires
        forall|i: int| 0 <= i <= n ==> ic[i] == #[trigger] other_ic[i],
        forall|i: int| 0 <= i < n ==> public_inputs[i] == #[trigger] other_inputs[i],
    ensures
        input_accumulation(ic, public_inputs, n) == input_accumulation(other_ic, other_inputs, n),
    decreases n,
{
    assert(ic[n as int] == other_ic[n as int]);
    if n > 0 {
        assert(public_inputs[n - 1] == other_inputs[n - 1]);
        law_accumulation_looks_no_further(
            ic,
            public_inputs,
            other_ic,
            other_inputs,
            (n - 1) as nat,
        );
    }
}

/// A proof holds exactly when the product of four pairings is one: `A` with `B`, and the inverses
/// of the accumulation of all inputs, of `C` and of the generator (1, 2) with `gamma`, `delta` and
/// `alpha_beta`.
pub proof fn law_proof_holds_by_the_equation(
    proof: Groth16Proof,
    vkey: VerificationKey,
    public_inputs: Seq<Scalar>,
    generator: Seq<u8>,
)
    requires
        generator.len() == 64,
        bytes::be_value(generator.subrange(0, 32)) == 1,
        bytes::be_value(generator.subrange(32, 64)) == 2,
    ensures
        pairing_of(proof, vkey, public_inputs) == (
            seq![
                proof.a.bytes@,
                curve::g1_negated(
                    input_accumulation(vkey.ic@, public_inputs, public_inputs.len()),
                ),
                curve::g1_negated(proof.c.bytes@),
                curve::g1_negated(generator),
            ],
            seq![
                proof.b.bytes@,
                vkey.gamma.bytes@,
                vkey.delta.bytes@,
                vkey.alpha_beta.bytes@,
            ],
        ),
        proof_holds(proof, vkey, public_inputs) == host::pairing_product_is_one(
            pairing_of(proof, vkey, public_inputs).0,
            pairing_of(proof, vkey, public_inputs).1,
        ),
{
    let known = curve::G1_GENERATOR@;
    curve::lemma_g1_generator();
    bytes::lemma_be_bytes_of_value(generator.subrange(0, 32));
    bytes::lemma_be_bytes_of_value(generator.subrange(32, 64));
    bytes::lemma_be_bytes_of_value(known.subrange(0, 32));
    bytes::lemma_be_bytes_of_value(known.subrange(32, 64));
    assert(generator =~= generator.subrange(0, 32) + generator.subrange(32, 64));
    assert(known =~= known.subrange(0, 32) + known.subrange(32, 64));
}

/// The gas used is what the meter went down by, and none where it went up.
pub proof fn law_gas_is_what_the_meter_went_down_by(start_gas: u64, end_gas: u64)
    ensures
        end_gas <= start_gas ==> end_gas + gas_between(start_gas, end_gas) == start_gas,
        end_gas >= start_gas ==> gas_between(start_gas, end_gas) == 0,
{
}

/// The share of each of `n` proofs is the largest that `n` times goes into the gas used.
pub proof fn law_share_is_the_largest_that_fits(start_gas: u64, end_gas: u64, n: nat)
    requires
        n > 0,
    ensures
        n * gas_share(start_gas, end_gas, n) <= gas_between(start_gas, end_gas),
        gas_between(start_gas, end_gas) < n * gas_share(start_gas, end_gas, n) + n,
{
    let total = gas_between(start_gas, end_gas) as int;
    let m = n as int;
    let share = gas_share(start_gas, end_gas, n) as int;
    assert(0 <= total / m <= total) by (nonlinear_arith)
        requires
            total >= 0,
            m > 0,
    ;
    assert(share == total / m);
    assert(m * share <= total < m * share + m) by (nonlinear_arith)
        requires
            m > 0,
            share == total / m,
    ;
}

/// Sharing out the gas gives every result the same share and changes nothing else: no verdict, no
/// timestamp, no order.
pub proof fn law_sharing_changes_the_gas_alone(
    singles: Seq<VerificationResult>,
    results: Seq<VerificationResult>,
    start_gas: u64,
    end_gas: u64,
)
    ensures
        shares_gas(singles, results, start_gas, end_gas) <==> {
            &&& results.len() == singles.len()
            &&& forall|i: int|
                0 <= i < results.len() ==> {
                    &&& (#[trigger] results[i]).valid == singles[i].valid
                    &&& results[i].gas_used == gas_share(start_gas, end_gas, results.len())
                    &&& results[i].verified_at == singles[i].verified_at
                }
        },
{
}

/// The result of a single check: the verdict is whether the proof holds, the timestamp is the
/// time of the check, and the gas is what the meter went down by from its beginning to a reading
/// of the host.
pub proof fn law_single_result_is_determined(
    env: soroban_sdk::Env,
    proof: Groth16Proof,
    vkey: VerificationKey,
    public_inputs: Seq<Scalar>,
    start_gas: u64,
    now: u64,
    single: VerificationResult,
)
    ensures
        is_single_result(env, proof, vkey, public_inputs, start_gas, now, single) <==> exists|
            end_gas: u64,
        | #[trigger]
            host::is_gas_reading(env, end_gas) && single == (VerificationResult {
                valid: proof_holds(proof, vkey, public_inputs),
                gas_used: gas_between(start_gas, end_gas),
                verified_at: now,
            }),
{
    if is_single_result(env, proof, vkey, public_inputs, start_gas, now, single) {
        let end_gas = choose|end_gas: u64|
            host::is_gas_reading(env, end_gas) && single.gas_used == #[trigger] gas_between(
                start_gas,
                end_gas,
            );
        assert(host::is_gas_reading(env, end_gas));
    }
    if exists|end_gas: u64| #[trigger]
        host::is_gas_reading(env, end_gas) && single == (VerificationResult {
            valid: proof_holds(proof, vkey, public_inputs),
            gas_used: gas_between(start_gas, end_gas),
            verified_at: now,
        }) {
        let end_gas = choose|end_gas: u64| #[trigger]
            host::is_gas_reading(env, end_gas) && single == (VerificationResult {
                valid: proof_holds(proof, vkey, public_inputs),
                gas_used: gas_between(start_gas, end_gas),
                verified_at: now,
            });
        assert(single.gas_used == gas_between(start_gas, end_gas));
    }
}

/// The results of a batch: result `i` is the verdict on proof `i` with the time of the batch, and
/// with the share that one of so many proofs has in what the meter went down by from the
/// beginning of the batch to a reading of the host, which is the same for all.
pub proof fn law_batch_result_is_determined(
    env: soroban_sdk::Env,
    proofs: Seq<(Groth16Proof, VerificationKey, Vec<Scalar>)>,
    start_gas: u64,
    now: u64,
    results: Seq<VerificationResult>,
)
    requires
        is_batch_result(env, proofs, start_gas, now, results),
    ensures
        exists|end_gas: u64| #[trigger]
            host::is_gas_reading(env, end_gas) && results == Seq::new(
                proofs.len(),
                |i: int|
                    VerificationResult {
                        valid: proof_holds(proofs[i].0, proofs[i].1, proofs[i].2@),
                        gas_used: gas_share(start_gas, end_gas, proofs.len()),
                        verified_at: now,
                    },
            ),
{
    let end_gas = choose|end_gas: u64|
        host::is_gas_reading(env, end_gas) && each_used(
            results,
            #[trigger] gas_share(start_gas, end_gas, proofs.len()),
        );
    assert(host::is_gas_reading(env, end_gas));
    assert(results =~= Seq::new(
        proofs.len(),
        |i: int|
            VerificationResult {
                valid: proof_holds(proofs[i].0, proofs[i].1, proofs[i].2@),
                gas_used: gas_share(start_gas, end_gas, proofs.len()),
                verified_at: now,
            },
    ));
}

/// The pairing products that a batch asks for are those of its proofs, in order.
pub proof fn law_batch_pairs_every_proof(
    proofs: Seq<(Groth16Proof, VerificationKey, Vec<Scalar>)>,
    i: int,
)
    requires
        0 <= i < proofs.len(),
    ensures
        pairings_of(proofs).len() == proofs.len(),
        pairings_of(proofs)[i] == pairing_of(proofs[i].0, proofs[i].1, proofs[i].2@),
{
}

/// Public inputs that are not valid are reported as such, whatever the proof and the key are.
pub proof fn law_public_inputs_come_first(
    proof: Groth16Proof,
    vkey: VerificationKey,
    public_inputs: Seq<Scalar>,
)
    ensures
        rejection(proof, vkey, public_inputs) == Some(ContractError::InvalidPublicInputs)
            <==> !public_inputs_valid(public_inputs),
{
}

/// Work is bounded: a proof that reaches the pairing check has at least one and at most
/// `MAX_PUBLIC_INPUTS` public inputs, and one more IC element than inputs.
pub proof fn law_work_is_bounded(
    proof: Groth16Proof,
    vkey: VerificationKey,
    public_inputs: Seq<Scalar>,
)
    requires
        rejection(proof, vkey, public_inputs) is None,
    ensures
        1 <= public_inputs.len() <= MAX_PUBLIC_INPUTS,
        vkey.ic@.len() == public_inputs.len() + 1,
{
}

/// The product of a proof has `G16_PAIRING_COUNT` pairings and the precomputed one, whatever the
/// number of its inputs.
pub proof fn law_pairing_count(proof: Groth16Proof, vkey: VerificationKey, accumulation: Seq<u8>)
    ensures
        pairing_left(proof, accumulation).len() == G16_PAIRING_COUNT + 1,
        pairing_right(proof, vkey).len() == G16_PAIRING_COUNT + 1,
{
}

/// No element of the scalar field has two encodings that pass: valid public inputs that agree
/// modulo the field order are the same bytes. A nullifier cannot be shown again in disguise.
pub proof fn law_valid_inputs_are_canonical(left: Seq<Scalar>, right: Seq<Scalar>, i: int, j: int)
    requires
        public_inputs_valid(left),
        public_inputs_valid(right),
        0 <= i < left.len(),
        0 <= j < right.len(),
        left[i].value() % curve::scalar_field() == right[j].value() % curve::scalar_field(),
    ensures
        left[i].bytes@ == right[j].bytes@,
{
    vstd::arithmetic::div_mod::lemma_small_mod(left[i].value(), curve::scalar_field());
    vstd::arithmetic::div_mod::lemma_small_mod(right[j].value(), curve::scalar_field());
    bytes::lemma_be_bytes_of_value(left[i].bytes@);
    bytes::lemma_be_bytes_of_value(right[j].bytes@);
}

/// A batch gives each proof what a single check at the same time gives it, but for the gas: the
/// same validity and the same timestamp, whatever the meter read. None is left out, and their
/// order is kept.
pub proof fn law_batch_agrees_with_single_checks(
    env: soroban_sdk::Env,
    proofs: Seq<(Groth16Proof, VerificationKey, Vec<Scalar>)>,
    batch_start_gas: u64,
    now: u64,
    results: Seq<VerificationResult>,
    i: int,
    single_start_gas: u64,
    single: VerificationResult,
)
    requires
        is_batch_result(env, proofs, batch_start_gas, now, results),
        0 <= i < proofs.len(),
        is_single_result(
            env,
            proofs[i].0,
            proofs[i].1,
            proofs[i].2@,
            single_start_gas,
            now,
            single,
        ),
    ensures
        results.len() == proofs.len(),
        results[i].valid == single.valid,
        results[i].verified_at == single.verified_at,
{
}

/// The gas of a batch is shared out equally and almost in full: where every result has its share
/// of what was used between two readings of the meter, the shares add up to at most that, and
/// fall short of it by less than the number of proofs.
pub proof fn law_gas_shares_cover_the_total(
    results: Seq<VerificationResult>,
    start_gas: u64,
    end_gas: u64,
)
    requires
        results.len() > 0,
        each_used(results, gas_share(start_gas, end_gas, results.len())),
    ensures
        ({
            let total = gas_between(start_gas, end_gas);
            let shared = total_shared(results, results.len());
            shared <= total < shared + results.len()
        }),
{
    let total = gas_between(start_gas, end_gas) as int;
    let n = results.len() as int;
    let share = gas_share(start_gas, end_gas, results.len()) as int;
    assert(0 <= total / n <= total) by (nonlinear_arith)
        requires
            total >= 0,
            n > 0,
    ;
    assert(share == total / n);
    assert(n * share <= total < n * share + n) by (nonlinear_arith)
        requires
            n > 0,
            share == total / n,
    ;
    lemma_total_shared(results, share, results.len());
}

/// The sum of the gas of the first `n` results.
pub open spec fn total_shared(results: Seq<VerificationResult>, n: nat) -> nat
    decreases n,
{
    if n == 0 {
        0
    } else {
        total_shared(results, (n - 1) as nat) + results[n - 1].gas_used as nat
    }
}

proof fn lemma_total_shared(results: Seq<VerificationResult>, share: int, n: nat)
    requires
        n <= results.len(),
        forall|i: int| 0 <= i < results.len() ==> (#[trigger] results[i]).gas_used == share,
    ensures
        total_shared(results, n) == n * share,
    decreases n,
{
    if n > 0 {
        lemma_total_shared(results, share, (n - 1) as nat);
        assert((n - 1) * share + share == n * share) by (nonlinear_arith);
    } else {
        assert(n * share == 0) by (nonlinear_arith)
            requires
                n == 0,
        ;
    }
}

/// A batch is rejected exactly when one of its proofs is, and then for the reason of the first
/// such proof.
pub proof fn law_batch_rejects_like_its_first_rejected_proof(
    proofs: Seq<(Groth16Proof, VerificationKey, Vec<Scalar>)>,
)
    ensures
        first_rejection(proofs, proofs.len()) is None <==> (forall|i: int|
            0 <= i < proofs.len() ==> rejection(
                (#[trigger] proofs[i]).0,
                proofs[i].1,
                proofs[i].2@,
            ) is None),
        forall|i: int|
            0 <= i < proofs.len() && rejection((#[trigger] proofs[i]).0, proofs[i].1, proofs[i].2@)
                is Some && (forall|j: int|
                0 <= j < i ==> rejection((#[trigger] proofs[j]).0, proofs[j].1, proofs[j].2@)
                    is None) ==> first_rejection(proofs, proofs.len()) == rejection(
                proofs[i].0,
                proofs[i].1,
                proofs[i].2@,
            ),
{
    lemma_first_rejection_none(proofs, proofs.len());
    assert forall|i: int|
        0 <= i < proofs.len() && rejection((#[trigger] proofs[i]).0, proofs[i].1, proofs[i].2@)
            is Some && (forall|j: int|
            0 <= j < i ==> rejection((#[trigger] proofs[j]).0, proofs[j].1, proofs[j].2@)
                is None) implies first_rejection(proofs, proofs.len()) == rejection(
        proofs[i].0,
        proofs[i].1,
        proofs[i].2@,
    ) by {
        lemma_first_rejection_none(proofs, i as nat);
        assert(first_rejection(proofs, (i + 1) as nat) is Some);
        lemma_first_rejection_stays(proofs, (i + 1) as nat, proofs.len());
    }
}

proof fn lemma_first_rejection_none(
    proofs: Seq<(Groth16Proof, VerificationKey, Vec<Scalar>)>,
    n: nat,
)
    requires
        n <= proofs.len(),
    ensures
        first_rejection(proofs, n) is None <==> (forall|i: int|
            0 <= i < n ==> rejection((#[trigger] proofs[i]).0, proofs[i].1, proofs[i].2@) is None),
    decreases n,
{
    if n > 0 {
        lemma_first_rejection_none(proofs, (n - 1) as nat);
        if first_rejection(proofs, n) is None {
            assert forall|i: int| 0 <= i < n implies rejection(
                (#[trigger] proofs[i]).0,
                proofs[i].1,
                proofs[i].2@,
            ) is None by {
                assert(first_rejection(proofs, (n - 1) as nat) is None);
            }
        } else {
            assert(!(forall|i: int|
                0 <= i < n ==> rejection((#[trigger] proofs[i]).0, proofs[i].1, proofs[i].2@)
                    is None)) by {
                if first_rejection(proofs, (n - 1) as nat) is None {
                    assert(rejection(proofs[n - 1].0, proofs[n - 1].1, proofs[n - 1].2@) is Some);
                }
            }
        }
    }
}

} // verus!
