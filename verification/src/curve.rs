//! Points and scalars of the BN254 curve as plain bytes, and when they are valid.
//!
//! Coordinates are 32-byte big-endian numbers. A G1 point is `X || Y`, a G2 point is
//! `X || Y` over the quadratic extension, and the point at infinity is all zero bytes.

use vstd::prelude::*;
use crate::bytes;
use crate::host;

verus! {

/// The modulus of the field that the coordinates of G1 points come from, big-endian:
/// 21888242871839275222246405745257275088696311157297823662689037894645226208583.
pub const BASE_FIELD_MODULUS: [u8; 32] = [
    0x30, 0x64, 0x4e, 0x72, 0xe1, 0x31, 0xa0, 0x29,
    0xb8, 0x50, 0x45, 0xb6, 0x81, 0x81, 0x58, 0x5d,
    0x97, 0x81, 0x6a, 0x91, 0x68, 0x71, 0xca, 0x8d,
    0x3c, 0x20, 0x8c, 0x16, 0xd8, 0x7c, 0xfd, 0x47,
];

/// The generator of G1: the point with X = 1 and Y = 2.
pub const G1_GENERATOR: [u8; 64] = [
    0x00, 0x00, 0x00, 0x00, 0x00, 0x00, 0x00, 0x00,
    0x00, 0x00, 0x00, 0x00, 0x00, 0x00, 0x00, 0x00,
    0x00, 0x00, 0x00, 0x00, 0x00, 0x00, 0x00, 0x00,
    0x00, 0x00, 0x00, 0x00, 0x00, 0x00, 0x00, 0x01,
    0x00, 0x00, 0x00, 0x00, 0x00, 0x00, 0x00, 0x00,
    0x00, 0x00, 0x00, 0x00, 0x00, 0x00, 0x00, 0x00,
    0x00, 0x00, 0x00, 0x00, 0x00, 0x00, 0x00, 0x00,
    0x00, 0x00, 0x00, 0x00, 0x00, 0x00, 0x00, 0x02,
];

/// A point of the group G1.
#[derive(Clone, Copy, Debug, PartialEq, Eq)]
pub struct G1Point {
    pub bytes: [u8; 64],
}

/// A point of the group G2.
#[derive(Clone, Copy, Debug, PartialEq, Eq)]
pub struct G2Point {
    pub bytes: [u8; 128],
}

/// A 32-byte big-endian number that is meant as an element of the scalar field. Nothing reduces
/// it: a number that is too large stays as it is, for the checks to find.
#[derive(Clone, Copy, Debug, PartialEq, Eq)]
pub struct Scalar {
    pub bytes: [u8; 32],
}

impl Scalar {
    /// The number that the scalar holds.
    pub open spec fn value(self) -> nat {
        bytes::be_value(self.bytes@)
    }
}

/// The order of the base field.
pub open spec fn base_field() -> nat {
    21888242871839275222246405745257275088696311157297823662689037894645226208583nat
}

/// The order of the scalar field, which is the order of both groups.
pub open spec fn scalar_field() -> nat {
    21888242871839275222246405745257275088548364400416034343698204186575808495617nat
}

/// The X coordinate of an encoded G1 point.
pub open spec fn g1_x(point: Seq<u8>) -> nat {
    bytes::be_value(point.subrange(0, 32))
}

/// The Y coordinate of an encoded G1 point.
pub open spec fn g1_y(point: Seq<u8>) -> nat {
    bytes::be_value(point.subrange(32, 64))
}

/// Both coordinates of an encoded G1 point are elements of the base field.
pub open spec fn g1_in_field(point: Seq<u8>) -> bool {
    &&& point.len() == 64
    &&& g1_x(point) < base_field()
    &&& g1_y(point) < base_field()
}

/// The point lies on `y^2 = x^3 + 3`, or is the point at infinity.
pub open spec fn g1_on_curve(point: Seq<u8>) -> bool {
    let x = g1_x(point);
    let y = g1_y(point);
    &&& g1_in_field(point)
    &&& bytes::all_zero(point) || (y * y) % base_field() == (x * x * x + 3) % base_field()
}

/// A G1 point that a proof or a key may hold: on the curve, and not the point at infinity.
pub open spec fn g1_valid(point: Seq<u8>) -> bool {
    g1_on_curve(point) && !bytes::all_zero(point)
}

/// A G2 point that a proof or a key may hold: on the curve, in the subgroup of the right order,
/// and not the point at infinity.
pub open spec fn g2_valid(point: Seq<u8>) -> bool {
    host::g2_accepted(point) && !bytes::all_zero(point)
}

/// The inverse of a G1 point: `(X, Y)` becomes `(X, -Y)`.
pub open spec fn g1_negated(point: Seq<u8>) -> Seq<u8> {
    let y = (base_field() - g1_y(point)) % (base_field() as int);
    point.subrange(0, 32) + bytes::be_bytes(y as nat, 32)
}

/// `k` times a G1 point: the point added to infinity `k` times.
pub open spec fn g1_multiple(point: Seq<u8>, k: nat) -> Seq<u8>
    decreases k,
{
    if k == 0 {
        Seq::new(64, |i: int| 0u8)
    } else {
        host::g1_sum(g1_multiple(point, (k - 1) as nat), point)
    }
}

/// `BASE_FIELD_MODULUS` spells the order of the base field.
pub proof fn lemma_base_field_modulus()
    ensures
        bytes::be_value(BASE_FIELD_MODULUS@) == base_field(),
{
    reveal_with_fuel(bytes::be_prefix, 33);
}

/// `G1_GENERATOR` is the valid point with X = 1 and Y = 2.
pub proof fn lemma_g1_generator()
    ensures
        g1_x(G1_GENERATOR@) == 1,
        g1_y(G1_GENERATOR@) == 2,
        g1_valid(G1_GENERATOR@),
{
    reveal_with_fuel(bytes::be_prefix, 33);
    assert(g1_x(G1_GENERATOR@) == 1);
    assert(g1_y(G1_GENERATOR@) == 2);
    lemma_all_zero_coordinates(G1_GENERATOR@);
}

/// The coordinates of an inverse: X stays, Y becomes its additive inverse in the base field.
proof fn lemma_negated_coordinates(point: Seq<u8>)
    requires
        g1_in_field(point),
    ensures
        g1_in_field(g1_negated(point)),
        g1_x(g1_negated(point)) == g1_x(point),
        g1_y(point) == 0 ==> g1_y(g1_negated(point)) == 0,
        g1_y(point) > 0 ==> g1_y(g1_negated(point)) == base_field() - g1_y(point),
{
    let y = g1_y(point);
    let p = base_field() as int;
    let neg_y = ((p - y) % p) as nat;
    assert(y == 0 ==> neg_y == 0);
    assert(y > 0 ==> neg_y == p - y);
    assert(neg_y < bytes::byte_range(32)) by {
        reveal_with_fuel(bytes::byte_range, 33);
    }
    bytes::lemma_be_value_of_bytes(neg_y, 32);
    assert(g1_negated(point).subrange(0, 32) =~= point.subrange(0, 32));
    assert(g1_negated(point).subrange(32, 64) =~= bytes::be_bytes(neg_y, 32));
}

/// An encoded G1 point is all zero bytes exactly when both coordinates are zero.
proof fn lemma_all_zero_coordinates(point: Seq<u8>)
    requires
        point.len() == 64,
    ensures
        bytes::all_zero(point) <==> g1_x(point) == 0 && g1_y(point) == 0,
{
    let x = point.subrange(0, 32);
    let y = point.subrange(32, 64);
    bytes::lemma_be_value_zero(x);
    bytes::lemma_be_value_zero(y);
    if bytes::all_zero(x) && bytes::all_zero(y) {
        assert forall|i: int| 0 <= i < point.len() implies point[i] == 0 by {
            if i < 32 {
                assert(x[i] == 0);
            } else {
                assert(y[i - 32] == 0);
            }
        }
    }
}

/// The inverse of a point on the curve is on the curve.
pub proof fn law_negation_stays_on_curve(point: Seq<u8>)
    requires
        g1_on_curve(point),
    ensures
        g1_on_curve(g1_negated(point)),
{
    lemma_negated_coordinates(point);
    lemma_all_zero_coordinates(point);
    lemma_all_zero_coordinates(g1_negated(point));
    let p = base_field() as int;
    let y = g1_y(point) as int;
    let neg_y = p - y;
    if y > 0 {
        assert(neg_y * neg_y == p * (p - 2 * y) + y * y) by (nonlinear_arith)
            requires
                neg_y == p - y,
        ;
        vstd::arithmetic::div_mod::lemma_mod_multiples_vanish(p - 2 * y, y * y, p);
    }
}

/// Inverting a point twice gives the point back, and only the point at infinity inverts to the
/// point at infinity.
pub proof fn law_negation_is_an_involution(point: Seq<u8>)
    requires
        g1_in_field(point),
    ensures
        g1_negated(g1_negated(point)) == point,
        bytes::all_zero(g1_negated(point)) <==> bytes::all_zero(point),
{
    let once = g1_negated(point);
    let twice = g1_negated(once);
    lemma_negated_coordinates(point);
    lemma_negated_coordinates(once);
    lemma_all_zero_coordinates(point);
    lemma_all_zero_coordinates(once);
    bytes::lemma_be_bytes_of_value(point.subrange(32, 64));
    bytes::lemma_be_bytes_of_value(twice.subrange(32, 64));
    assert(once.subrange(0, 32) =~= point.subrange(0, 32));
    assert(twice.subrange(0, 32) =~= point.subrange(0, 32));
    assert(twice.subrange(32, 64) == point.subrange(32, 64));
    assert(point =~= point.subrange(0, 32) + point.subrange(32, 64));
    assert(twice =~= twice.subrange(0, 32) + twice.subrange(32, 64));
}

/// The orders of the two fields are those of the Barreto-Naehrig curve with the parameter
/// `u = 4965661367192848881`.
pub proof fn law_field_orders_come_from_the_parameter()
    ensures
        ({
            let u = 4965661367192848881nat;
            &&& base_field() == 36 * (u * u * u * u) + 36 * (u * u * u) + 24 * (u * u) + 6 * u + 1
            &&& scalar_field() == 36 * (u * u * u * u) + 36 * (u * u * u) + 18 * (u * u) + 6 * u + 1
        }),
{
}

/// A byte string is a valid G1 point exactly when it is 64 bytes long, its two halves spell
/// numbers below the order of the base field, these are not both zero, and they satisfy
/// `y^2 = x^3 + 3`. The point at infinity is on the curve besides.
pub proof fn law_g1_points_by_their_coordinates(point: Seq<u8>)
    ensures
        ({
            let p = base_field() as int;
            let x = bytes::be_value(point.subrange(0, 32)) as int;
            let y = bytes::be_value(point.subrange(32, 64)) as int;
            let in_field = point.len() == 64 && x < p && y < p;
            let solves = (y * y - (x * x * x + 3)) % p == 0;
            &&& g1_in_field(point) <==> in_field
            &&& g1_on_curve(point) <==> in_field && ((x == 0 && y == 0) || solves)
            &&& g1_valid(point) <==> in_field && solves && !(x == 0 && y == 0)
        }),
{
    let p = base_field() as int;
    let x = g1_x(point) as int;
    let y = g1_y(point) as int;
    if point.len() == 64 {
        lemma_all_zero_coordinates(point);
    }
    lemma_mod_difference(y * y, x * x * x + 3, p);
}

proof fn lemma_mod_difference(a: int, b: int, p: int)
    requires
        p > 0,
    ensures
        (a - b) % p == 0 <==> a % p == b % p,
{
    vstd::arithmetic::div_mod::lemma_fundamental_div_mod(a, p);
    vstd::arithmetic::div_mod::lemma_fundamental_div_mod(b, p);
    let q = a / p - b / p;
    let r = a % p - b % p;
    assert(a - b == p * q + r) by (nonlinear_arith)
        requires
            a == p * (a / p) + a % p,
            b == p * (b / p) + b % p,
            q == a / p - b / p,
            r == a % p - b % p,
    ;
    if a % p == b % p {
        vstd::arithmetic::div_mod::lemma_mod_multiples_basic(q, p);
        assert((p * q) % p == 0) by {
            vstd::arithmetic::mul::lemma_mul_is_commutative(p, q);
        }
    }
    if (a - b) % p == 0 {
        vstd::arithmetic::div_mod::lemma_mod_multiples_vanish(q, r, p);
        assert(r % p == 0);
        assert(-p < r < p);
        if r > 0 {
            vstd::arithmetic::div_mod::lemma_small_mod(r as nat, p as nat);
        } else if r < 0 {
            vstd::arithmetic::div_mod::lemma_mod_multiples_vanish(1, r, p);
            vstd::arithmetic::div_mod::lemma_small_mod((r + p) as nat, p as nat);
        }
    }
}

/// A byte string is a valid G2 point exactly when the host takes it and one of its bytes is not
/// zero.
pub proof fn law_g2_points_are_accepted_and_not_infinity(point: Seq<u8>)
    ensures
        g2_valid(point) <==> host::g2_accepted(point) && exists|i: int|
            0 <= i < point.len() && #[trigger] point[i] != 0,
{
}

/// The inverse of a point has its X coordinate, and the two Y coordinates add up to zero in the
/// base field.
pub proof fn law_inverse_by_its_coordinates(point: Seq<u8>)
    requires
        g1_in_field(point),
    ensures
        ({
            let inverse = g1_negated(point);
            let y = bytes::be_value(point.subrange(32, 64)) as int;
            let inverse_y = bytes::be_value(inverse.subrange(32, 64)) as int;
            &&& inverse.len() == 64
            &&& inverse.subrange(0, 32) == point.subrange(0, 32)
            &&& inverse_y < base_field()
            &&& (y + inverse_y) % (base_field() as int) == 0
        }),
{
    lemma_negated_coordinates(point);
    assert(g1_negated(point).subrange(0, 32) =~= point.subrange(0, 32));
}

/// No times a point is infinity, and once more adds the point once more.
pub proof fn law_multiples_are_repeated_sums(point: Seq<u8>, k: nat)
    ensures
        g1_multiple(point, 0).len() == 64,
        bytes::be_value(g1_multiple(point, 0)) == 0,
        g1_multiple(point, k + 1) == host::g1_sum(g1_multiple(point, k), point),
{
    bytes::lemma_be_value_zero(g1_multiple(point, 0));
}

/// Whether `point` is a valid G1 point.
pub fn g1_is_valid(env: &soroban_sdk::Env, point: &G1Point) -> (valid: bool)
    ensures
        valid == g1_valid(point.bytes@),
{
    let encoded = point.bytes.as_slice();
    proof {
        lemma_base_field_modulus();
    }
    if bytes::be_at_least(encoded, 0, &BASE_FIELD_MODULUS)
        || bytes::be_at_least(encoded, 32, &BASE_FIELD_MODULUS) {
        return false;
    }
    if bytes::is_all_zero(encoded) {
        return false;
    }
    host::g1_is_on_curve(env, &point.bytes)
}

/// Whether `point` is a valid G2 point.
pub fn g2_is_valid(env: &soroban_sdk::Env, point: &G2Point) -> (valid: bool)
    ensures
        valid == g2_valid(point.bytes@),
{
    if bytes::is_all_zero(point.bytes.as_slice()) {
        return false;
    }
    host::g2_is_accepted(env, &point.bytes)
}

} // verus!
