//! What holds of the contract over any sequence of invocations.

use crate::bn254::Bn254Fr;
use crate::contract::{
    groth16_holds, AggregatedVerifier, Proof, Revert, VerifierError, VerifyEvent, VerifyingKey,
};
use vstd::prelude::*;

verus! {

/// One invocation of an entry point that can change the state.
pub enum Call {
    Initialize { admin: String, vk: VerifyingKey, authorized: bool },
    UpdateVk { new_vk: VerifyingKey, authorized: bool },
    Verify { has_bn254: bool, proof: Proof, inputs: Seq<Bn254Fr> },
}

/// Whether an invocation goes through in `state`.
pub open spec fn succeeds(state: AggregatedVerifier, call: Call) -> bool {
    match call {
        Call::Initialize { admin, vk, authorized } => state.after_initialize(
            admin,
            vk,
            authorized,
        ) is Ok,
        Call::UpdateVk { new_vk, authorized } => state.after_update_vk(new_vk, authorized) is Ok,
        Call::Verify { has_bn254, proof, inputs } => state.after_verify(
            has_bn254,
            proof,
            inputs,
        ) is Ok,
    }
}

/// The state after an invocation; one that reverts leaves it as it was.
pub open spec fn step(state: AggregatedVerifier, call: Call) -> AggregatedVerifier {
    match call {
        Call::Initialize { admin, vk, authorized } => match state.after_initialize(
            admin,
            vk,
            authorized,
        ) {
            Ok(next) => next,
            Err(_) => state,
        },
        Call::UpdateVk { new_vk, authorized } => match state.after_update_vk(new_vk, authorized) {
            Ok(next) => next,
            Err(_) => state,
        },
        Call::Verify { has_bn254, proof, inputs } => match state.after_verify(
            has_bn254,
            proof,
            inputs,
        ) {
            Ok((next, _)) => next,
            Err(_) => state,
        },
    }
}

/// The state after a sequence of invocations.
pub open spec fn run(state: AggregatedVerifier, calls: Seq<Call>) -> AggregatedVerifier
    decreases calls.len(),
{
    if calls.len() == 0 {
        state
    } else {
        step(run(state, calls.drop_last()), calls.last())
    }
}

/// How many of the invocations are verifications that go through.
pub open spec fn verifications(state: AggregatedVerifier, calls: Seq<Call>) -> nat
    decreases calls.len(),
{
    if calls.len() == 0 {
        0
    } else {
        let before = run(state, calls.drop_last());
        verifications(state, calls.drop_last()) + if calls.last() is Verify && succeeds(
            before,
            calls.last(),
        ) {
            1nat
        } else {
            0nat
        }
    }
}

/// A contract that was deployed and not yet initialized.
pub open spec fn deployed() -> AggregatedVerifier {
    AggregatedVerifier { admin: None, vk: None, count: None }
}

/// Administrator, key and counter are set together or not at all.
pub open spec fn consistent(state: AggregatedVerifier) -> bool {
    (state.admin is Some <==> state.vk is Some) && (state.admin is Some <==> state.count is Some)
}

/// In every state that a deployed contract reaches, administrator, key and counter are set
/// together or not at all, and the counter is the number of verifications that went through.
pub proof fn counter_counts_verifications(calls: Seq<Call>)
    ensures
        consistent(run(deployed(), calls)),
        run(deployed(), calls).spec_verified_count() == verifications(deployed(), calls),
    decreases calls.len(),
{
    if calls.len() > 0 {
        counter_counts_verifications(calls.drop_last());
    }
}

/// Once set, the administrator never changes.
pub proof fn administrator_is_permanent(state: AggregatedVerifier, calls: Seq<Call>)
    requires
        state.admin is Some,
    ensures
        run(state, calls).admin == state.admin,
    decreases calls.len(),
{
    if calls.len() > 0 {
        administrator_is_permanent(state, calls.drop_last());
    }
}

/// A contract is initialized once: after that every further attempt is answered with
/// `Unauthorized`, whatever else was called in between.
pub proof fn initialization_happens_once(
    state: AggregatedVerifier,
    first: Call,
    calls: Seq<Call>,
    admin: String,
    vk: VerifyingKey,
    authorized: bool,
)
    requires
        first is Initialize,
        succeeds(state, first),
    ensures
        run(step(state, first), calls).after_initialize(admin, vk, authorized) == Err::<
            AggregatedVerifier,
            _,
        >(Revert::Error(VerifierError::Unauthorized)),
{
    administrator_is_permanent(step(state, first), calls);
}

/// Only an invocation that was authorized changes the verifying key, and only it: an
/// initialization, or a replacement that the administrator has authorized.
pub proof fn key_changes_need_authorization(state: AggregatedVerifier, call: Call)
    requires
        step(state, call).vk != state.vk,
    ensures
        match call {
            Call::Initialize { authorized, .. } => authorized && state.admin is None,
            Call::UpdateVk { authorized, .. } => authorized && state.admin is Some,
            Call::Verify { .. } => false,
        },
{
}

/// A replaced key is the one that the next proof is held against.
pub proof fn replaced_key_is_in_force(
    state: AggregatedVerifier,
    new_vk: VerifyingKey,
    proof: Proof,
    inputs: Seq<Bn254Fr>,
)
    requires
        state.admin is Some,
        new_vk.ic@.len() == inputs.len() + 1,
    ensures
        ({
            let replaced = step(state, Call::UpdateVk { new_vk, authorized: true });
            &&& replaced.spec_verified_count() == state.spec_verified_count()
            &&& replaced.after_verify(true, proof, inputs) == replaced.after_pairing(
                inputs,
                groth16_holds(new_vk, proof, inputs),
            )
        }),
{
}

/// A proof whose public inputs fit the stored key is accepted exactly where the Groth16 equation
/// holds; otherwise it is answered with `InvalidProof`. An accepted proof moves the counter by one
/// and publishes the first public input.
pub proof fn acceptance_is_the_groth16_equation(
    state: AggregatedVerifier,
    has_bn254: bool,
    proof: Proof,
    inputs: Seq<Bn254Fr>,
)
    requires
        state.shape_error(has_bn254, inputs.len()) is None,
        inputs.len() > 0,
        state.spec_verified_count() < u64::MAX,
    ensures
        match state.after_verify(has_bn254, proof, inputs) {
            Ok((next, event)) => {
                &&& groth16_holds(state.vk->0, proof, inputs)
                &&& next.spec_verified_count() == state.spec_verified_count() + 1
                &&& event.n_proofs == inputs[0]
            },
            Err(revert) => {
                &&& !groth16_holds(state.vk->0, proof, inputs)
                &&& revert == Revert::Error(VerifierError::InvalidProof)
            },
        },
{
}

/// A host without the BN254 functions accepts no proof: a call that fits the stored key is
/// answered with `UnsupportedHostFunction`.
pub proof fn host_without_bn254_accepts_nothing(
    state: AggregatedVerifier,
    proof: Proof,
    inputs: Seq<Bn254Fr>,
)
    ensures
        state.after_verify(false, proof, inputs) is Err,
        state.vk is Some && state.vk->0.ic@.len() == inputs.len() + 1 ==> state.after_verify(
            false,
            proof,
            inputs,
        ) == Err::<(AggregatedVerifier, VerifyEvent), _>(
            Revert::Error(VerifierError::UnsupportedHostFunction),
        ),
{
}

} // verus!
