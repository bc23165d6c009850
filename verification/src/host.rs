//! What the library has from the Soroban host: BN254 arithmetic, the ledger clock, the
//! instruction meter, and the two types that callers hand in. Nothing is proved of the calls
//! themselves; each contract says what is relied on.
//!
//! What the meter and the clock say is not known here. That a number is one that they gave, and
//! in which order the meter was read and pairings were checked, is kept track of: see
//! `is_gas_reading`, `is_timestamp` and `Session`.
//!
//! Every host call is metered. One that runs out of budget does not return: the host ends the
//! invocation, as it does for any contract. So does one on a ledger whose protocol is too old to
//! have BN254.

use vstd::prelude::*;
use soroban_sdk::crypto::bn254::{Bn254Fr, Bn254G1Affine, Bn254G2Affine};
use soroban_sdk::{BytesN, Env};
use crate::curve;
use crate::bytes;

verus! {

/// The handle through which the host is called.
#[verifier::external_type_specification]
#[verifier::external_body]
pub struct ExEnv(soroban_sdk::Env);

/// The address of an account or a contract.
#[verifier::external_type_specification]
#[verifier::external_body]
pub struct ExAddress(soroban_sdk::Address);

/// The sum of two G1 points.
pub uninterp spec fn g1_sum(left: Seq<u8>, right: Seq<u8>) -> Seq<u8>;

/// The host takes these 128 bytes as a G2 point: they are the point at infinity, or they encode
/// a point of the twisted curve that lies in the subgroup of prime order.
pub uninterp spec fn g2_accepted(point: Seq<u8>) -> bool;

/// The product of the pairings `e(left[0], right[0]) * e(left[1], right[1]) * ...` is one.
pub uninterp spec fn pairing_product_is_one(left: Seq<Seq<u8>>, right: Seq<Seq<u8>>) -> bool;

/// Calls `Bn254::g1_is_on_curve`. The host stops on coordinates outside the base field; on all
/// others it answers whether the point lies on the curve, and says yes to infinity.
#[verifier::external_body]
pub(crate) fn g1_is_on_curve(env: &Env, point: &[u8; 64]) -> (on_curve: bool)
    requires
        curve::g1_in_field(point@),
    ensures
        on_curve == curve::g1_on_curve(point@),
{
    env.crypto().bn254().g1_is_on_curve(&Bn254G1Affine::from_array(env, point))
}

/// Calls `Bn254::g1_add`. The host stops on a point off the curve. The sum depends on the two
/// points alone, and is again the encoding of a point on the curve. Which point that is, is left
/// to the host.
#[verifier::external_body]
pub(crate) fn g1_add(env: &Env, left: &[u8; 64], right: &[u8; 64]) -> (sum: [u8; 64])
    requires
        curve::g1_on_curve(left@),
        curve::g1_on_curve(right@),
    ensures
        sum@ == g1_sum(left@, right@),
        curve::g1_on_curve(sum@),
{
    let p = Bn254G1Affine::from_array(env, left);
    let q = Bn254G1Affine::from_array(env, right);
    env.crypto().bn254().g1_add(&p, &q).to_array()
}

/// Calls `Bn254::g1_mul`. The host stops on a point off the curve. The product is the point added
/// to infinity as many times as the scalar says, and again the encoding of a point on the curve.
#[verifier::external_body]
pub(crate) fn g1_mul(env: &Env, point: &[u8; 64], scalar: &[u8; 32]) -> (product: [u8; 64])
    requires
        curve::g1_on_curve(point@),
        bytes::be_value(scalar@) < curve::scalar_field(),
    ensures
        product@ == curve::g1_multiple(point@, bytes::be_value(scalar@)),
        curve::g1_on_curve(product@),
{
    let p = Bn254G1Affine::from_array(env, point);
    let k = Bn254Fr::from_bytes(BytesN::from_array(env, scalar));
    env.crypto().bn254().g1_mul(&p, &k).to_array()
}

/// Calls `Neg` of `Bn254G1Affine`, which stops on a Y coordinate outside the base field. It
/// keeps X and puts the additive inverse of Y in place of Y.
#[verifier::external_body]
pub(crate) fn g1_negate(env: &Env, point: &[u8; 64]) -> (negated: [u8; 64])
    requires
        curve::g1_in_field(point@),
    ensures
        negated@ == curve::g1_negated(point@),
{
    (-Bn254G1Affine::from_array(env, point)).to_array()
}

/// Calls `bn254_multi_pairing_check` of the host with the point at infinity on the G1 side. The
/// host decodes and checks the G2 point before it pairs, and reports one that it does not take
/// as a crypto error; with infinity as the partner nothing else can be wrong.
#[verifier::external_body]
pub(crate) fn g2_is_accepted(env: &Env, point: &[u8; 128]) -> (accepted: bool)
    ensures
        accepted == g2_accepted(point@),
{
    let infinity = Bn254G1Affine::from_array(env, &[0u8; 64]);
    let left = soroban_sdk::Vec::from_array(env, [infinity]);
    let right = soroban_sdk::Vec::from_array(env, [Bn254G2Affine::from_array(env, point)]);
    let answer = soroban_env_host::Env::bn254_multi_pairing_check(env.host(), left.into(), right.into());
    match answer {
        Ok(_) => true,
        Err(e) if e.error.is_type(soroban_sdk::xdr::ScErrorType::Crypto) => false,
        Err(e) => soroban_sdk::EnvBase::escalate_error_to_panic(env.host(), e),
    }
}

/// Calls `Bn254::pairing_check` on four pairs of points. The host stops on a point that it does
/// not take. Otherwise it answers whether the product of the four pairings is one.
#[verifier::external_body]
pub(crate) fn pairing_check(env: &Env, left: &[[u8; 64]; 4], right: &[[u8; 128]; 4]) -> (holds: bool)
    requires
        forall|i: int| 0 <= i < 4 ==> curve::g1_on_curve((#[trigger] left@[i])@),
        forall|i: int| 0 <= i < 4 ==> g2_accepted((#[trigger] right@[i])@),
    ensures
        holds == pairing_product_is_one(
            seq![left@[0]@, left@[1]@, left@[2]@, left@[3]@],
            seq![right@[0]@, right@[1]@, right@[2]@, right@[3]@],
        ),
{
    let p0 = Bn254G1Affine::from_array(env, &left[0]);
    let p1 = Bn254G1Affine::from_array(env, &left[1]);
    let p2 = Bn254G1Affine::from_array(env, &left[2]);
    let p3 = Bn254G1Affine::from_array(env, &left[3]);
    let q0 = Bn254G2Affine::from_array(env, &right[0]);
    let q1 = Bn254G2Affine::from_array(env, &right[1]);
    let q2 = Bn254G2Affine::from_array(env, &right[2]);
    let q3 = Bn254G2Affine::from_array(env, &right[3]);
    let g1 = soroban_sdk::Vec::from_array(env, [p0, p1, p2, p3]);
    let g2 = soroban_sdk::Vec::from_array(env, [q0, q1, q2, q3]);
    env.crypto().bn254().pairing_check(g1, g2)
}

/// Reads `Budget::get_cpu_insns_remaining` of the host: how many instructions the invocation may
/// still spend. The reading depends on the state of the host, so nothing is said of it.
#[verifier::external_body]
pub(crate) fn gas_remaining(env: &Env) -> u64 {
    env.host().budget_cloned().get_cpu_insns_remaining().unwrap()
}

/// Reads `Ledger::timestamp`: when the current ledger was closed. Nothing is said of it.
#[verifier::external_body]
pub(crate) fn ledger_timestamp(env: &Env) -> u64 {
    env.ledger().timestamp()
}

/// `gas` is an answer of `gas_remaining`: a number that the meter can have shown, and none that
/// was made up.
pub closed spec fn is_gas_reading(env: Env, gas: u64) -> bool {
    call_ensures(gas_remaining, (&env,), gas)
}

/// `now` is an answer of `ledger_timestamp`.
pub closed spec fn is_timestamp(env: Env, now: u64) -> bool {
    call_ensures(ledger_timestamp, (&env,), now)
}

/// Reads the meter.
pub(crate) fn read_gas(env: &Env) -> (gas: u64)
    ensures
        is_gas_reading(*env, gas),
{
    gas_remaining(env)
}

/// Reads the clock.
pub(crate) fn read_clock(env: &Env) -> (now: u64)
    ensures
        is_timestamp(*env, now),
{
    ledger_timestamp(env)
}

/// Readings are answers of the meter and the clock, and nothing else is a reading.
pub(crate) proof fn law_readings_are_answers(env: Env, number: u64)
    ensures
        is_gas_reading(env, number) <==> call_ensures(gas_remaining, (&env,), number),
        is_timestamp(env, number) <==> call_ensures(ledger_timestamp, (&env,), number),
{
}

/// Something that was asked of the host.
pub enum Event {
    /// Whether the product of these pairings is one.
    Pairing { left: Seq<Seq<u8>>, right: Seq<Seq<u8>> },
    /// What the meter shows; it showed `gas`.
    Reading { gas: u64 },
}

/// The pairing products among `events`, in order.
pub open spec fn pairings(events: Seq<Event>) -> Seq<(Seq<Seq<u8>>, Seq<Seq<u8>>)>
    decreases events.len(),
{
    if events.len() == 0 {
        Seq::empty()
    } else {
        match events.last() {
            Event::Pairing { left, right } => pairings(events.drop_last()).push((left, right)),
            Event::Reading { gas } => pairings(events.drop_last()),
        }
    }
}

/// A pairing product that is asked for is the last one so far, and reading the meter asks for
/// none.
pub proof fn law_pairings_are_kept_in_order(
    events: Seq<Event>,
    left: Seq<Seq<u8>>,
    right: Seq<Seq<u8>>,
    gas: u64,
)
    ensures
        pairings(Seq::empty()) == Seq::<(Seq<Seq<u8>>, Seq<Seq<u8>>)>::empty(),
        pairings(events.push(Event::Pairing { left, right })) == pairings(events).push(
            (left, right),
        ),
        pairings(events.push(Event::Reading { gas })) == pairings(events),
{
    assert(events.push(Event::Pairing { left, right }).drop_last() =~= events);
    assert(events.push(Event::Reading { gas }).drop_last() =~= events);
}

/// A record of the pairing checks and the meter readings that were made through it, in order.
/// Nothing but its methods adds to it, and nothing takes from it.
pub struct Session {
    events: Ghost<Seq<Event>>,
}

impl Session {
    /// What was asked, in order.
    pub closed spec fn events(self) -> Seq<Event> {
        self.events@
    }

    /// A session in which nothing has been asked yet.
    pub fn open() -> (session: Session)
        ensures
            session.events() == Seq::<Event>::empty(),
    {
        Session { events: Ghost(Seq::empty()) }
    }

    /// Checks whether the product of four pairings is one.
    pub(crate) fn check_product(
        &mut self,
        env: &Env,
        left: &[[u8; 64]; 4],
        right: &[[u8; 128]; 4],
    ) -> (holds: bool)
        requires
            forall|i: int| 0 <= i < 4 ==> curve::g1_on_curve((#[trigger] left@[i])@),
            forall|i: int| 0 <= i < 4 ==> g2_accepted((#[trigger] right@[i])@),
        ensures
            holds == pairing_product_is_one(
                seq![left@[0]@, left@[1]@, left@[2]@, left@[3]@],
                seq![right@[0]@, right@[1]@, right@[2]@, right@[3]@],
            ),
            final(self).events() == old(self).events().push(
                Event::Pairing {
                    left: seq![left@[0]@, left@[1]@, left@[2]@, left@[3]@],
                    right: seq![right@[0]@, right@[1]@, right@[2]@, right@[3]@],
                },
            ),
    {
        let holds = pairing_check(env, left, right);
        let ghost asked = Event::Pairing {
            left: seq![left@[0]@, left@[1]@, left@[2]@, left@[3]@],
            right: seq![right@[0]@, right@[1]@, right@[2]@, right@[3]@],
        };
        self.events = Ghost(self.events@.push(asked));
        holds
    }

    /// Reads the meter.
    pub(crate) fn meter(&mut self, env: &Env) -> (gas: u64)
        ensures
            is_gas_reading(*env, gas),
            final(self).events() == old(self).events().push(Event::Reading { gas }),
    {
        let gas: u64 = read_gas(env);
        self.events = Ghost(self.events@.push(Event::Reading { gas }));
        gas
    }
}

} // verus!
