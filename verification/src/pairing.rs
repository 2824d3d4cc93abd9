//! What it means for a proof to be accepted, where the pairing is a bilinear map.
//!
//! The target group of the BN254 pairing is cyclic of the order of G1 and G2. A pairing is
//! therefore given here by exponents: `e(p, q)` is the power of a fixed generator, taken modulo the
//! group order, and a product of pairings is a sum.

use crate::bn254::{
    be_bytes, be_value, be_value_is_natural, curve_add, curve_mul, curve_neg, encoding_is_unique,
    field_modulus, g1_bytes, g1_point, group_order, is_g1, is_g2, negation_is_in_g1,
    pairing_product_is_one, scalar_value, Bn254Fr, Bn254G1Affine, CurvePoint,
};
use crate::contract::{
    groth16_holds, vk_x, AggregatedVerifier, Proof, Revert, VerifierError, VerifyEvent,
    VerifyingKey,
};
use vstd::arithmetic::div_mod::*;
use vstd::arithmetic::power::*;
use vstd::prelude::*;

verus! {

/// Whether a point is one of G1: it has an encoding that the host takes.
#[verifier::opaque]
pub open spec fn in_g1(point: CurvePoint) -> bool {
    is_g1(g1_bytes(point)) && g1_point(g1_bytes(point)) == point
}

/// Whether `x` and `y` are one exponent.
#[verifier::opaque]
pub open spec fn same_exponent(x: int, y: int) -> bool {
    (x - y) % group_order() as int == 0
}

/// Whether `e` is the pairing behind the host's check: G1 is closed under addition, `e` is linear
/// in the points of G1, and the check on four pairs answers whether their exponents add up to
/// zero.
#[verifier::opaque]
pub open spec fn is_pairing(e: spec_fn(CurvePoint, Seq<u8>) -> int) -> bool {
    &&& forall|p: CurvePoint, q: CurvePoint|
        in_g1(p) && in_g1(q) ==> in_g1(#[trigger] curve_add(p, q))
    &&& forall|p: CurvePoint, q: CurvePoint, h: Seq<u8>|
        in_g1(p) && in_g1(q) && is_g2(h) ==> same_exponent(
            #[trigger] e(curve_add(p, q), h),
            e(p, h) + e(q, h),
        )
    &&& forall|
        p1: Seq<u8>,
        q1: Seq<u8>,
        p2: Seq<u8>,
        q2: Seq<u8>,
        p3: Seq<u8>,
        q3: Seq<u8>,
        p4: Seq<u8>,
        q4: Seq<u8>,
    |
        is_g1(p1) && is_g2(q1) && is_g1(p2) && is_g2(q2) && is_g1(p3) && is_g2(q3) && is_g1(p4)
            && is_g2(q4) ==> #[trigger] pairing_product_is_one(p1, q1, p2, q2, p3, q3, p4, q4)
            == same_exponent(
            e(g1_point(p1), q1) + e(g1_point(p2), q2) + e(g1_point(p3), q3) + e(g1_point(p4), q4),
            0,
        )
}

// ---- Exponents --------------------------------------------------------------------------------

proof fn lemma_exponents_add(a: int, b: int, c: int, d: int)
    requires
        same_exponent(a, b),
        same_exponent(c, d),
    ensures
        same_exponent(a + c, b + d),
        same_exponent(a - c, b - d),
{
    reveal(same_exponent);
    let r = group_order() as int;
    lemma_add_mod_noop(a - b, c - d, r);
    lemma_sub_mod_noop(a - b, c - d, r);
    assert((a + c) - (b + d) == (a - b) + (c - d));
    assert((a - c) - (b - d) == (a - b) - (c - d));
}

proof fn lemma_exponents_equal(a: int)
    ensures
        same_exponent(a, a),
{
    reveal(same_exponent);
}

proof fn lemma_exponents_chain(a: int, b: int, c: int)
    requires
        same_exponent(a, b),
    ensures
        same_exponent(b, a),
        same_exponent(b, c) <==> same_exponent(a, c),
{
    reveal(same_exponent);
    let r = group_order() as int;
    lemma_mod_equivalence(a, b, r);
    lemma_mod_equivalence(b, a, r);
    lemma_mod_equivalence(b, c, r);
    lemma_mod_equivalence(a, c, r);
}

/// A scalar and the number that it stands for are one exponent, whatever they multiply.
proof fn lemma_scalar_is_reduced(scalar: Seq<u8>, x: int)
    ensures
        same_exponent(scalar_value(scalar) * x, be_value(scalar) * x),
{
    reveal(same_exponent);
    let r = group_order() as int;
    let full = be_value(scalar);
    let reduced = scalar_value(scalar) as int;
    lemma_fundamental_div_mod(full, r);
    assert(reduced - full == r * (0 - full / r)) by (nonlinear_arith)
        requires
            full == r * (full / r) + full % r,
            reduced == full % r,
    ;
    let quotient = 0 - full / r;
    assert(reduced * x - full * x == (x * quotient) * r) by (nonlinear_arith)
        requires
            reduced - full == r * quotient,
    ;
    lemma_mod_multiples_basic(x * quotient, r);
}

// ---- Points -----------------------------------------------------------------------------------

proof fn lemma_be_bytes_spell(value: int, width: nat)
    requires
        0 <= value < pow(256, width),
    ensures
        be_bytes(value, width).len() == width,
        be_value(be_bytes(value, width)) == value,
    decreases width,
{
    reveal(pow);
    if width > 0 {
        let rest = (width - 1) as nat;
        lemma_be_bytes_spell(value / 256, rest);
        assert(be_bytes(value, width).drop_last() =~= be_bytes(value / 256, rest));
    }
}

proof fn lemma_encoded_point(bytes: Seq<u8>)
    requires
        is_g1(bytes),
    ensures
        in_g1(g1_point(bytes)),
{
    reveal(in_g1);
    encoding_is_unique(bytes);
}

proof fn lemma_negated_point(point: CurvePoint)
    requires
        in_g1(point),
    ensures
        in_g1(curve_neg(point)),
        is_g1(g1_bytes(curve_neg(point))),
        g1_point(g1_bytes(curve_neg(point))) == curve_neg(point),
        curve_add(point, curve_neg(point)) is None,
{
    reveal(in_g1);
    let bytes = g1_bytes(point);
    if let Some((x, y)) = point {
        let p = field_modulus();
        let neg_y = (0 - y.0) % p;
        let high = bytes.subrange(0, 32);
        let low = bytes.subrange(32, 64);
        be_value_is_natural(high);
        be_value_is_natural(low);
        assert(p < pow(256, 32)) by {
            reveal(pow);
            reveal_with_fuel(pow, 33);
        }
        lemma_be_bytes_spell(x.0, 32);
        lemma_be_bytes_spell(neg_y, 32);
        let negated = g1_bytes(curve_neg(point));
        assert(negated.subrange(0, 32) =~= be_bytes(x.0, 32));
        assert(negated.subrange(32, 64) =~= be_bytes(neg_y, 32));
        assert(y.0 == 0 ==> neg_y == 0);
        assert(y.0 > 0 ==> neg_y == p - y.0);
        negation_is_in_g1(bytes, negated);
    }
}

/// Sums of points of G1 are points of G1, and their exponents are sums.
proof fn lemma_sum(
    e: spec_fn(CurvePoint, Seq<u8>) -> int,
    p: CurvePoint,
    q: CurvePoint,
    h: Seq<u8>,
)
    requires
        is_pairing(e),
        in_g1(p),
        in_g1(q),
        is_g2(h),
    ensures
        in_g1(curve_add(p, q)),
        same_exponent(e(curve_add(p, q), h), e(p, h) + e(q, h)),
{
    reveal(is_pairing);
}

proof fn lemma_infinity(e: spec_fn(CurvePoint, Seq<u8>) -> int, point: CurvePoint, h: Seq<u8>)
    requires
        is_pairing(e),
        in_g1(point),
        is_g2(h),
    ensures
        in_g1(None),
        same_exponent(e(None, h), 0),
        same_exponent(e(curve_neg(point), h), 0 - e(point, h)),
{
    let none: CurvePoint = None;
    let negated = curve_neg(point);
    lemma_negated_point(point);
    lemma_sum(e, point, negated, h);
    assert(curve_add(point, negated) == none);
    assert(curve_add(none, none) == none);
    lemma_sum(e, none, none, h);
    let zero = e(none, h);
    lemma_exponents_chain(zero, zero + zero, zero);
    lemma_exponents_add(zero + zero, zero, zero, zero);
    let sum = e(point, h) + e(negated, h);
    lemma_exponents_chain(zero, sum, 0);
    lemma_exponents_equal(e(point, h));
    lemma_exponents_add(sum, 0, e(point, h), e(point, h));
}

proof fn lemma_multiple(
    e: spec_fn(CurvePoint, Seq<u8>) -> int,
    n: nat,
    point: CurvePoint,
    h: Seq<u8>,
)
    requires
        is_pairing(e),
        in_g1(point),
        is_g2(h),
    ensures
        in_g1(curve_mul(n, point)),
        same_exponent(e(curve_mul(n, point), h), n * e(point, h)),
    decreases n,
{
    let once = e(point, h);
    if n == 0 {
        lemma_infinity(e, point, h);
        assert(n * once == 0) by (nonlinear_arith)
            requires
                n == 0,
        ;
    } else {
        let less = (n - 1) as nat;
        let rest = curve_mul(less, point);
        lemma_multiple(e, less, point, h);
        lemma_sum(e, point, rest, h);
        lemma_exponents_equal(once);
        lemma_exponents_add(once, once, e(rest, h), less * once);
        lemma_exponents_chain(e(curve_mul(n, point), h), once + e(rest, h), once + less * once);
        assert(once + less * once == n * once) by (nonlinear_arith)
            requires
                less == n - 1,
        ;
    }
}

/// The exponent of `vk_x` is that of the constant term and of each input times its point.
proof fn lemma_vk_x(
    e: spec_fn(CurvePoint, Seq<u8>) -> int,
    ic: Seq<Bn254G1Affine>,
    inputs: Seq<Bn254Fr>,
    h: Seq<u8>,
    terms: Seq<int>,
    join: spec_fn(int, int) -> int,
)
    requires
        is_pairing(e),
        is_g2(h),
        ic.len() >= inputs.len() + 1,
        forall|i: int| 0 <= i < ic.len() ==> is_g1(#[trigger] ic[i]@),
        terms.len() == inputs.len(),
        forall|i: int|
            0 <= i < inputs.len() ==> #[trigger] terms[i] == be_value(inputs[i]@) * e(
                g1_point(ic[i + 1]@),
                h,
            ),
        forall|x: int, y: int| #[trigger] join(x, y) == x + y,
    ensures
        in_g1(vk_x(ic, inputs)),
        same_exponent(e(vk_x(ic, inputs), h), terms.fold_left(e(g1_point(ic[0]@), h), join)),
    decreases inputs.len(),
{
    let start = e(g1_point(ic[0]@), h);
    lemma_encoded_point(ic[0]@);
    lemma_exponents_equal(start);
    if inputs.len() > 0 {
        let last = inputs.len() - 1;
        let fewer = inputs.drop_last();
        lemma_vk_x(e, ic, fewer, h, terms.drop_last(), join);
        let before = vk_x(ic, fewer);
        let point = g1_point(ic[last + 1]@);
        let factor = scalar_value(inputs.last()@);
        let term = curve_mul(factor, point);
        let sum = terms.drop_last().fold_left(start, join);
        lemma_encoded_point(ic[last + 1]@);
        lemma_multiple(e, factor, point, h);
        lemma_scalar_is_reduced(inputs.last()@, e(point, h));
        lemma_exponents_chain(e(term, h), factor * e(point, h), terms.last());
        lemma_exponents_add(e(before, h), sum, e(term, h), terms.last());
        lemma_sum(e, before, term, h);
        lemma_exponents_chain(
            e(curve_add(before, term), h),
            e(before, h) + e(term, h),
            sum + terms.last(),
        );
        assert(terms.fold_left(start, join) == join(sum, terms.last()));
    }
}

// ---- Laws -------------------------------------------------------------------------------------

/// Whether `e(A, B) = e(α, β) · e(vk_x, γ) · e(C, δ)`, where `vk_x` is the constant term of the key
/// and, for each public input, the input times its point.
pub open spec fn balances(
    e: spec_fn(CurvePoint, Seq<u8>) -> int,
    vk: VerifyingKey,
    proof: Proof,
    inputs: Seq<Bn254Fr>,
) -> bool {
    let vk_x = Seq::new(
        inputs.len(),
        |i: int| be_value(inputs[i]@) * e(g1_point(vk.ic@[i + 1]@), vk.gamma@),
    ).fold_left(e(g1_point(vk.ic@[0]@), vk.gamma@), |sum: int, term: int| sum + term);
    same_exponent(
        e(g1_point(proof.a@), proof.b@),
        e(g1_point(vk.alpha@), vk.beta@) + vk_x + e(g1_point(proof.c@), vk.delta@),
    )
}

proof fn lemma_equation(
    e: spec_fn(CurvePoint, Seq<u8>) -> int,
    vk: VerifyingKey,
    proof: Proof,
    inputs: Seq<Bn254Fr>,
)
    requires
        is_pairing(e),
        vk.is_valid(),
        proof.is_valid(),
        vk.ic@.len() == inputs.len() + 1,
    ensures
        groth16_holds(vk, proof, inputs) == balances(e, vk, proof, inputs),
{
    let point = vk_x(vk.ic@, inputs);
    let terms = Seq::new(
        inputs.len(),
        |i: int| be_value(inputs[i]@) * e(g1_point(vk.ic@[i + 1]@), vk.gamma@),
    );
    let join = |sum: int, term: int| sum + term;
    let folded = terms.fold_left(e(g1_point(vk.ic@[0]@), vk.gamma@), join);
    lemma_vk_x(e, vk.ic@, inputs, vk.gamma@, terms, join);
    let a = g1_point(proof.a@);
    lemma_encoded_point(proof.a@);
    lemma_negated_point(a);
    lemma_infinity(e, a, proof.b@);
    let ab = e(a, proof.b@);
    let neg_ab = e(curve_neg(a), proof.b@);
    let key = e(g1_point(vk.alpha@), vk.beta@);
    let x = e(point, vk.gamma@);
    let c = e(g1_point(proof.c@), vk.delta@);
    lemma_exponents_equal(ab);
    lemma_exponents_equal(key);
    lemma_exponents_equal(c);
    assert(groth16_holds(vk, proof, inputs) == same_exponent(neg_ab + key + x + c, 0)) by {
        reveal(is_pairing);
        reveal(in_g1);
    }
    let sum = neg_ab + key + x + c;
    let spelled = key + folded + c - ab;
    lemma_exponents_add(neg_ab, 0 - ab, key, key);
    lemma_exponents_add(neg_ab + key, key - ab, x, folded);
    lemma_exponents_add(neg_ab + key + x, key - ab + folded, c, c);
    lemma_exponents_chain(sum, spelled, 0);
    if same_exponent(spelled, 0) {
        lemma_exponents_add(ab, ab, spelled, 0);
        lemma_exponents_chain(ab + spelled, ab, ab);
        assert(ab + spelled == key + folded + c);
    }
    if same_exponent(ab, key + folded + c) {
        lemma_exponents_chain(ab, key + folded + c, ab);
        lemma_exponents_add(key + folded + c, ab, ab, ab);
        assert(key + folded + c - ab == spelled);
    }
}

/// A proof is accepted exactly where `e(A, B) = e(α, β) · e(vk_x, γ) · e(C, δ)` under the stored
/// key. It then moves the counter by one, publishes the first public input, and leaves
/// administrator and key as they were. A proof that does not balance is answered with
/// `InvalidProof`; one that does is trapped only where there is nothing to publish or the counter
/// is full.
pub proof fn acceptance_is_the_bilinear_equation(
    e: spec_fn(CurvePoint, Seq<u8>) -> int,
    state: AggregatedVerifier,
    vk: VerifyingKey,
    proof: Proof,
    inputs: Seq<Bn254Fr>,
)
    requires
        is_pairing(e),
        state.vk == Some(vk),
        vk.is_valid(),
        proof.is_valid(),
        vk.ic@.len() == inputs.len() + 1,
    ensures
        match state.after_verify(true, proof, inputs) {
            Ok((next, event)) => {
                &&& balances(e, vk, proof, inputs)
                &&& inputs.len() > 0 && event.n_proofs == inputs[0]
                &&& next.admin == state.admin && next.vk == state.vk
                &&& match state.count {
                    Some(count) => count < u64::MAX && next.count == Some((count + 1) as u64),
                    None => next.count == Some(1u64),
                }
            },
            Err(Revert::Error(error)) => {
                &&& !balances(e, vk, proof, inputs)
                &&& error == VerifierError::InvalidProof
            },
            Err(Revert::Trap) => {
                &&& balances(e, vk, proof, inputs)
                &&& inputs.len() == 0 || state.count == Some(u64::MAX)
            },
        },
{
    lemma_equation(e, vk, proof, inputs);
}

/// A call that does not fit is refused before any pairing: without a key, with another number of
/// public inputs than the key has points for, or on a host without the BN254 functions, in this
/// order.
pub proof fn refusals_come_in_order(
    state: AggregatedVerifier,
    has_bn254: bool,
    proof: Proof,
    inputs: Seq<Bn254Fr>,
)
    ensures
        state.vk is None ==> state.after_verify(has_bn254, proof, inputs) == Err::<
            (AggregatedVerifier, VerifyEvent),
            _,
        >(Revert::Error(VerifierError::VkNotSet)),
        state.vk matches Some(vk) ==> vk.ic@.len() != inputs.len() + 1 ==> state.after_verify(
            has_bn254,
            proof,
            inputs,
        ) == Err::<(AggregatedVerifier, VerifyEvent), _>(
            Revert::Error(VerifierError::PublicInputLengthMismatch),
        ),
        state.vk matches Some(vk) ==> vk.ic@.len() == inputs.len() + 1 ==> !has_bn254
            ==> state.after_verify(has_bn254, proof, inputs) == Err::<
            (AggregatedVerifier, VerifyEvent),
            _,
        >(Revert::Error(VerifierError::UnsupportedHostFunction)),
{
}

/// An initialization goes through exactly where there is no administrator yet and the one named
/// has authorized it. The contract then holds that administrator, that key in every field and a
/// counter of zero, and the next proof is accepted exactly where it balances under that key.
pub proof fn given_key_is_in_force(
    e: spec_fn(CurvePoint, Seq<u8>) -> int,
    state: AggregatedVerifier,
    admin: String,
    vk: VerifyingKey,
    authorized: bool,
    proof: Proof,
    inputs: Seq<Bn254Fr>,
)
    requires
        is_pairing(e),
        vk.is_valid(),
        proof.is_valid(),
        vk.ic@.len() == inputs.len() + 1,
        inputs.len() > 0,
    ensures
        match state.after_initialize(admin, vk, authorized) {
            Ok(next) => {
                &&& state.admin is None && authorized
                &&& next.admin == Some(admin)
                &&& next.count == Some(0u64)
                &&& next.vk matches Some(stored) && {
                    &&& stored.alpha == vk.alpha && stored.beta == vk.beta
                    &&& stored.gamma == vk.gamma && stored.delta == vk.delta
                    &&& stored.ic == vk.ic
                }
                &&& next.after_verify(true, proof, inputs) is Ok <==> balances(
                    e,
                    vk,
                    proof,
                    inputs,
                )
            },
            Err(Revert::Error(error)) => {
                &&& state.admin is Some
                &&& error == VerifierError::Unauthorized
            },
            Err(Revert::Trap) => state.admin is None && !authorized,
        },
{
    lemma_equation(e, vk, proof, inputs);
}

/// A replacement of the key goes through exactly where there is an administrator, who has
/// authorized it. It keeps administrator and counter and stores the new key in every field, and
/// the next proof is accepted exactly where it balances under the new key.
pub proof fn new_key_is_in_force(
    e: spec_fn(CurvePoint, Seq<u8>) -> int,
    state: AggregatedVerifier,
    new_vk: VerifyingKey,
    authorized: bool,
    proof: Proof,
    inputs: Seq<Bn254Fr>,
)
    requires
        is_pairing(e),
        new_vk.is_valid(),
        proof.is_valid(),
        new_vk.ic@.len() == inputs.len() + 1,
        inputs.len() > 0,
    ensures
        match state.after_update_vk(new_vk, authorized) {
            Ok(next) => {
                &&& state.admin is Some && authorized
                &&& next.admin == state.admin
                &&& next.count == state.count
                &&& next.vk matches Some(stored) && {
                    &&& stored.alpha == new_vk.alpha && stored.beta == new_vk.beta
                    &&& stored.gamma == new_vk.gamma && stored.delta == new_vk.delta
                    &&& stored.ic == new_vk.ic
                }
                &&& state.count != Some(u64::MAX) ==> (next.after_verify(true, proof, inputs) is Ok
                    <==> balances(e, new_vk, proof, inputs))
            },
            Err(Revert::Error(error)) => {
                &&& state.admin is None
                &&& error == VerifierError::Unauthorized
            },
            Err(Revert::Trap) => state.admin is Some && !authorized,
        },
{
    lemma_equation(e, new_vk, proof, inputs);
}

/// The numbers of the errors on the ledger.
pub proof fn errors_have_their_codes()
    ensures
        VerifierError::InvalidProof.spec_code() == 1,
        VerifierError::PublicInputLengthMismatch.spec_code() == 2,
        VerifierError::Unauthorized.spec_code() == 3,
        VerifierError::VkNotSet.spec_code() == 4,
        VerifierError::UnsupportedHostFunction.spec_code() == 5,
{
}

} // verus!
