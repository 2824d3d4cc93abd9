//! Points and scalars of the BN254 pairing groups as the Soroban host encodes them, and the host
//! operations that the proof verifier calls.
//!
//! A value is held as the bytes that travel between a contract and the host. The host decodes and
//! checks them at every call, and aborts the invocation where they do not encode a group element;
//! [`is_g1`] and [`is_g2`] say which bytes do.

use soroban_sdk::Env;
use vstd::arithmetic::div_mod::*;
use vstd::prelude::*;

verus! {

/// A scalar: 32 big-endian bytes, reduced modulo the group order where it is used.
pub type Bn254Fr = [u8; 32];

/// A point of G1: the big-endian coordinates X and Y, 32 bytes each.
pub type Bn254G1Affine = [u8; 64];

/// A point of G2: the coordinates X and Y, each the big-endian imaginary part and then the
/// big-endian real part, 32 bytes apiece.
pub type Bn254G2Affine = [u8; 128];

/// The first protocol whose host has the BN254 functions.
pub const BN254_PROTOCOL: u32 = 25;

/// The Soroban environment: the handle through which the host is reached.
#[verifier::external_type_specification]
#[verifier::external_body]
pub struct ExEnv(soroban_sdk::Env);

// ---- Encodings ----------------------------------------------------------------------------

/// The modulus of the base field.
pub open spec fn field_modulus() -> int {
    0x30644e72e131a029b85045b68181585d97816a916871ca8d3c208c16d87cfd47int
}

/// The order of G1 and G2.
pub open spec fn group_order() -> nat {
    0x30644e72e131a029b85045b68181585d2833e84879b9709143e1f593f0000001nat
}

/// The number that `bytes` spell in big-endian order.
pub open spec fn be_value(bytes: Seq<u8>) -> int
    decreases bytes.len(),
{
    if bytes.len() == 0 {
        0
    } else {
        be_value(bytes.drop_last()) * 256 + bytes.last()
    }
}

/// The low `width` bytes of `value`, in big-endian order.
pub open spec fn be_bytes(value: int, width: nat) -> Seq<u8>
    decreases width,
{
    if width == 0 {
        Seq::empty()
    } else {
        be_bytes(value / 256, (width - 1) as nat).push((value % 256) as u8)
    }
}

/// Subtraction in the quadratic extension of the base field. An element `c0 + c1·u`, with
/// `u² = -1`, is the pair `(c0, c1)`; an element of the base field has `c1 = 0`.
pub open spec fn fp2_sub(a: (int, int), b: (int, int)) -> (int, int) {
    ((a.0 - b.0) % field_modulus(), (a.1 - b.1) % field_modulus())
}

/// Multiplication in the quadratic extension field.
pub open spec fn fp2_mul(a: (int, int), b: (int, int)) -> (int, int) {
    ((a.0 * b.0 - a.1 * b.1) % field_modulus(), (a.0 * b.1 + a.1 * b.0) % field_modulus())
}

/// The quotient `num / den` in the quadratic extension field, `den` not zero.
pub open spec fn fp2_div(num: (int, int), den: (int, int)) -> (int, int) {
    choose|q: (int, int)|
        0 <= q.0 < field_modulus() && 0 <= q.1 < field_modulus() && #[trigger] fp2_mul(q, den)
            == num
}

/// A point of a curve `y² = x³ + b` in affine coordinates. `None` is the point at infinity.
pub type CurvePoint = Option<((int, int), (int, int))>;

/// The sum of two points of a curve, by chord and tangent.
pub open spec fn curve_add(p: CurvePoint, q: CurvePoint) -> CurvePoint {
    match (p, q) {
        (None, _) => q,
        (_, None) => p,
        (Some((x1, y1)), Some((x2, y2))) => {
            if x1 == x2 && (y1 != y2 || y1 == (0int, 0int)) {
                None
            } else {
                let slope = if x1 == x2 {
                    fp2_div(fp2_mul((3, 0), fp2_mul(x1, x1)), fp2_mul((2, 0), y1))
                } else {
                    fp2_div(fp2_sub(y2, y1), fp2_sub(x2, x1))
                };
                let x3 = fp2_sub(fp2_sub(fp2_mul(slope, slope), x1), x2);
                Some((x3, fp2_sub(fp2_mul(slope, fp2_sub(x1, x3)), y1)))
            }
        },
    }
}

/// The point `n · q`.
pub open spec fn curve_mul(n: nat, q: CurvePoint) -> CurvePoint
    decreases n,
{
    if n == 0 {
        None
    } else {
        curve_add(q, curve_mul((n - 1) as nat, q))
    }
}

/// The point `-q`.
pub open spec fn curve_neg(q: CurvePoint) -> CurvePoint {
    match q {
        None => None,
        Some((x, y)) => Some((x, fp2_sub((0, 0), y))),
    }
}

/// The point that 64 bytes encode: X and Y, zeros standing for the point at infinity.
pub open spec fn g1_point(bytes: Seq<u8>) -> CurvePoint {
    let x = be_value(bytes.subrange(0, 32));
    let y = be_value(bytes.subrange(32, 64));
    if x == 0 && y == 0 {
        None
    } else {
        Some(((x, 0), (y, 0)))
    }
}

/// The 64 bytes that encode a point over the base field.
pub open spec fn g1_bytes(point: CurvePoint) -> Seq<u8> {
    match point {
        None => be_bytes(0, 32) + be_bytes(0, 32),
        Some((x, y)) => be_bytes(x.0, 32) + be_bytes(y.0, 32),
    }
}

/// The point that 128 bytes encode: X and Y, each with its imaginary part first, zeros standing
/// for the point at infinity.
pub open spec fn g2_point(bytes: Seq<u8>) -> CurvePoint {
    let x = (be_value(bytes.subrange(32, 64)), be_value(bytes.subrange(0, 32)));
    let y = (be_value(bytes.subrange(96, 128)), be_value(bytes.subrange(64, 96)));
    if x == (0int, 0int) && y == (0int, 0int) {
        None
    } else {
        Some((x, y))
    }
}

/// Whether `bytes` encode a point of G1: the coordinates are reduced, and the point is at infinity
/// or on the curve `y² = x³ + 3`.
pub open spec fn is_g1(bytes: Seq<u8>) -> bool {
    let p = field_modulus();
    &&& bytes.len() == 64
    &&& be_value(bytes.subrange(0, 32)) < p
    &&& be_value(bytes.subrange(32, 64)) < p
    &&& match g1_point(bytes) {
        None => true,
        Some(((x, _), (y, _))) => (y * y) % p == (x * x * x + 3) % p,
    }
}

/// Whether `bytes` encode a point of G2: the coordinates are reduced, and the point is at infinity
/// or on the curve `y² = x³ + 3 / (9 + u)` and of the right order.
pub open spec fn is_g2(bytes: Seq<u8>) -> bool {
    let p = field_modulus();
    &&& bytes.len() == 128
    &&& be_value(bytes.subrange(0, 32)) < p && be_value(bytes.subrange(32, 64)) < p
    &&& be_value(bytes.subrange(64, 96)) < p && be_value(bytes.subrange(96, 128)) < p
    &&& match g2_point(bytes) {
        None => true,
        Some((x, y)) => {
            &&& fp2_mul((9, 1), fp2_sub(fp2_mul(y, y), fp2_mul(x, fp2_mul(x, x)))) == (3int, 0int)
            &&& curve_mul(group_order(), Some((x, y))) is None
        },
    }
}

/// The number that a scalar stands for.
pub open spec fn scalar_value(scalar: Seq<u8>) -> nat {
    (be_value(scalar) % group_order() as int) as nat
}

// ---- Host operations ----------------------------------------------------------------------

/// A host that has the BN254 functions. [`Bn254Host::connect`] alone makes one.
pub struct Bn254Host<'a> {
    env: &'a Env,
}

/// Calls `Ledger::protocol_version` of soroban-sdk.
///
/// Claimed: nothing of the number, which the ledger behind the environment decides. Every
/// environment has a ledger to ask: the `testutils` feature, which Cargo.toml turns on, gives one
/// to each that is made outside an invocation.
#[allow(deprecated)]
#[verifier::external_body]
fn host_protocol(env: &Env) -> (protocol: u32) {
    env.ledger().protocol_version()
}

/// Whether `protocol` is what the ledger behind `env` answers when it is asked.
pub closed spec fn answers(env: &Env, protocol: u32) -> bool {
    call_ensures(host_protocol, (env,), protocol)
}

/// Asks the ledger behind `env` for its protocol, through `ask`.
fn asked<F: Fn(&Env) -> u32>(ask: F, env: &Env) -> (protocol: u32)
    requires
        call_requires(ask, (env,)),
    ensures
        call_ensures(ask, (env,), protocol),
{
    ask(env)
}

/// Whether a host that runs `protocol` has the BN254 functions.
pub fn has_bn254(protocol: u32) -> (found: bool)
    ensures
        found == (protocol >= BN254_PROTOCOL),
        found == (protocol >= 25),
{
    protocol >= BN254_PROTOCOL
}

impl<'a> Bn254Host<'a> {
    /// The environment whose host this is.
    pub closed spec fn environment(&self) -> Env {
        *self.env
    }

    /// The host behind `env`, whose ledger runs `protocol`, where it has the BN254 functions.
    fn at_protocol(env: &'a Env, protocol: u32) -> (host: Option<Bn254Host<'a>>)
        ensures
            host is Some <==> protocol >= BN254_PROTOCOL,
            host is Some <==> protocol >= 25,
            host matches Some(found) ==> found.environment() == *env,
    {
        if has_bn254(protocol) {
            Some(Bn254Host { env })
        } else {
            None
        }
    }

    /// The host behind `env`, where the protocol that it runs has the BN254 functions; the ledger
    /// decides that. To be called directly before the host is used: the ledger of a test can be
    /// set to another protocol later.
    pub fn connect(env: &'a Env) -> (host: Option<Bn254Host<'a>>)
        ensures
            host matches Some(found) ==> found.environment() == *env,
            exists|protocol: u32| #[trigger]
                answers(env, protocol) && (host is Some <==> protocol >= 25),
    {
        let protocol: u32 = asked(host_protocol, env);
        assert(answers(env, protocol));
        Self::at_protocol(env, protocol)
    }
}

/// What the host's pairing check returns for four pairs: whether
/// `e(p1, q1) · e(p2, q2) · e(p3, q3) · e(p4, q4)` is one.
pub uninterp spec fn pairing_product_is_one(
    p1: Seq<u8>,
    q1: Seq<u8>,
    p2: Seq<u8>,
    q2: Seq<u8>,
    p3: Seq<u8>,
    q3: Seq<u8>,
    p4: Seq<u8>,
    q4: Seq<u8>,
) -> bool;

/// Calls `Bn254::g1_add` of soroban-sdk.
///
/// Claimed: the host adds two points of G1, and answers with the encoding of a point of G1. The
/// environment behind the host only carries the call. The host charges its budget, and an
/// invocation that has used the budget up is aborted.
#[verifier::external_body]
pub(crate) fn g1_add(host: &Bn254Host, p0: &Bn254G1Affine, p1: &Bn254G1Affine) -> (sum:
    Bn254G1Affine)
    requires
        is_g1(p0@),
        is_g1(p1@),
    ensures
        g1_point(sum@) == curve_add(g1_point(p0@), g1_point(p1@)),
        is_g1(sum@),
{
    let p0 = soroban_sdk::crypto::bn254::Bn254G1Affine::from_array(host.env, p0);
    let p1 = soroban_sdk::crypto::bn254::Bn254G1Affine::from_array(host.env, p1);
    host.env.crypto().bn254().g1_add(&p0, &p1).to_array()
}

/// Calls `Bn254::g1_mul` of soroban-sdk.
///
/// Claimed: the host multiplies a point of G1 by any scalar, which it reduces modulo the group
/// order, and answers with the encoding of a point of G1. The environment only carries the call,
/// as in [`g1_add`].
#[verifier::external_body]
pub(crate) fn g1_mul(host: &Bn254Host, point: &Bn254G1Affine, scalar: &Bn254Fr) -> (product:
    Bn254G1Affine)
    requires
        is_g1(point@),
    ensures
        g1_point(product@) == curve_mul(scalar_value(scalar@), g1_point(point@)),
        is_g1(product@),
{
    let point = soroban_sdk::crypto::bn254::Bn254G1Affine::from_array(host.env, point);
    let scalar = soroban_sdk::BytesN::from_array(host.env, scalar);
    let scalar = soroban_sdk::crypto::bn254::Bn254Fr::from_bytes(scalar);
    host.env.crypto().bn254().g1_mul(&point, &scalar).to_array()
}

/// Negates a point through the `Neg` impl of `Bn254G1Affine` of soroban-sdk.
///
/// Claimed: the X coordinate stays, and Y becomes the modulus minus Y, or stays where it is zero.
#[verifier::external_body]
pub(crate) fn g1_neg(host: &Bn254Host, point: &Bn254G1Affine) -> (negated: Bn254G1Affine)
    requires
        is_g1(point@),
    ensures
        g1_point(negated@) == curve_neg(g1_point(point@)),
{
    (-soroban_sdk::crypto::bn254::Bn254G1Affine::from_array(host.env, point)).to_array()
}

/// Calls `Bn254::pairing_check` of soroban-sdk with four pairs.
///
/// Claimed: on points of G1 and G2 the host answers, and the answer depends on the eight encodings
/// alone. The environment only carries the call, as in [`g1_add`].
#[verifier::external_body]
pub(crate) fn pairing_check(
    host: &Bn254Host,
    g1s: (&Bn254G1Affine, &Bn254G1Affine, &Bn254G1Affine, &Bn254G1Affine),
    g2s: (&Bn254G2Affine, &Bn254G2Affine, &Bn254G2Affine, &Bn254G2Affine),
) -> (holds: bool)
    requires
        is_g1(g1s.0@) && is_g1(g1s.1@) && is_g1(g1s.2@) && is_g1(g1s.3@),
        is_g2(g2s.0@) && is_g2(g2s.1@) && is_g2(g2s.2@) && is_g2(g2s.3@),
    ensures
        holds == pairing_product_is_one(
            g1s.0@,
            g2s.0@,
            g1s.1@,
            g2s.1@,
            g1s.2@,
            g2s.2@,
            g1s.3@,
            g2s.3@,
        ),
{
    let g1 = |p| soroban_sdk::crypto::bn254::Bn254G1Affine::from_array(host.env, p);
    let g2 = |q| soroban_sdk::crypto::bn254::Bn254G2Affine::from_array(host.env, q);
    let g1s = [g1(g1s.0), g1(g1s.1), g1(g1s.2), g1(g1s.3)];
    let g2s = [g2(g2s.0), g2(g2s.1), g2(g2s.2), g2(g2s.3)];
    let g1s = soroban_sdk::Vec::from_array(host.env, g1s);
    let g2s = soroban_sdk::Vec::from_array(host.env, g2s);
    host.env.crypto().bn254().pairing_check(g1s, g2s)
}

// ---- Facts about encodings --------------------------------------------------------------------

proof fn lemma_be_round_trip(bytes: Seq<u8>)
    ensures
        be_value(bytes) >= 0,
        be_bytes(be_value(bytes), bytes.len()) == bytes,
    decreases bytes.len(),
{
    if bytes.len() > 0 {
        let high = bytes.drop_last();
        lemma_be_round_trip(high);
        assert(be_value(bytes) / 256 == be_value(high));
        assert(be_value(bytes) % 256 == bytes.last());
        assert(high.push(bytes.last()) =~= bytes);
    } else {
        assert(be_bytes(0, 0) =~= bytes);
    }
}

/// Bytes spell no negative number.
pub proof fn be_value_is_natural(bytes: Seq<u8>)
    ensures
        be_value(bytes) >= 0,
{
    lemma_be_round_trip(bytes);
}

/// A point of G1 has one encoding.
pub proof fn encoding_is_unique(bytes: Seq<u8>)
    requires
        is_g1(bytes),
    ensures
        g1_bytes(g1_point(bytes)) == bytes,
{
    lemma_be_round_trip(bytes.subrange(0, 32));
    lemma_be_round_trip(bytes.subrange(32, 64));
    assert(bytes.subrange(0, 32) + bytes.subrange(32, 64) =~= bytes);
}

proof fn lemma_zeros_spell_zero(bytes: Seq<u8>)
    requires
        forall|i: int| 0 <= i < bytes.len() ==> bytes[i] == 0,
    ensures
        be_value(bytes) == 0,
    decreases bytes.len(),
{
    if bytes.len() > 0 {
        lemma_zeros_spell_zero(bytes.drop_last());
    }
}

/// Zeros encode the point at infinity, which belongs to G1 and to G2.
pub proof fn zeros_encode_infinity(g1: Seq<u8>, g2: Seq<u8>)
    requires
        g1.len() == 64,
        g2.len() == 128,
        forall|i: int| 0 <= i < 64 ==> g1[i] == 0,
        forall|i: int| 0 <= i < 128 ==> g2[i] == 0,
    ensures
        is_g1(g1) && g1_point(g1) is None,
        is_g2(g2) && g2_point(g2) is None,
{
    lemma_zeros_spell_zero(g1.subrange(0, 32));
    lemma_zeros_spell_zero(g1.subrange(32, 64));
    lemma_zeros_spell_zero(g2.subrange(0, 32));
    lemma_zeros_spell_zero(g2.subrange(32, 64));
    lemma_zeros_spell_zero(g2.subrange(64, 96));
    lemma_zeros_spell_zero(g2.subrange(96, 128));
}

/// Bytes that decode to the negation of a point of G1 encode a point of G1.
pub proof fn negation_is_in_g1(bytes: Seq<u8>, negated: Seq<u8>)
    requires
        is_g1(bytes),
        negated.len() == 64,
        g1_point(negated) == curve_neg(g1_point(bytes)),
    ensures
        is_g1(negated),
{
    let p = field_modulus();
    let y = be_value(bytes.subrange(32, 64));
    let neg_y = (0 - y) % p;
    lemma_be_round_trip(bytes.subrange(32, 64));
    assert(0 <= neg_y < p && (y == 0 ==> neg_y == 0) && (y > 0 ==> neg_y == p - y));
    if y > 0 {
        assert((p - y) * (p - y) == p * (p - 2 * y) + y * y) by (nonlinear_arith);
        lemma_mod_multiples_vanish(p - 2 * y, y * y, p);
        assert((p - y) * (p - y) == neg_y * neg_y);
    }
}

} // verus!
