//! The on-chain verifier: the rules of the Soroban contract that checks one Groth16 proof for a
//! whole batch of balance claims.
//!
//! [`AggregatedVerifier`] is what the contract keeps in its instance storage. Every entry point is
//! a transition of that state: it either goes through, or reverts and leaves the state as it was.

use crate::bn254::{
    curve_add, curve_mul, curve_neg, encoding_is_unique, g1_add, g1_bytes, g1_mul, g1_neg, g1_point,
    is_g1, is_g2, negation_is_in_g1, pairing_check, pairing_product_is_one, scalar_value, Bn254Fr,
    Bn254G1Affine, Bn254G2Affine, Bn254Host, CurvePoint,
};
use crate::cost::estimated_cost;
use vstd::prelude::*;

verus! {

/// A Groth16 proof.
pub struct Proof {
    pub a: Bn254G1Affine,
    pub b: Bn254G2Affine,
    pub c: Bn254G1Affine,
}

/// The verifying key of the circuit. `ic` holds the constant term and then one point for each
/// public input.
pub struct VerifyingKey {
    pub alpha: Bn254G1Affine,
    pub beta: Bn254G2Affine,
    pub gamma: Bn254G2Affine,
    pub delta: Bn254G2Affine,
    pub ic: Vec<Bn254G1Affine>,
}

impl Proof {
    /// Whether the three fields encode group elements.
    pub open spec fn is_valid(&self) -> bool {
        is_g1(self.a@) && is_g2(self.b@) && is_g1(self.c@)
    }
}

impl VerifyingKey {
    /// Whether all the fields encode group elements.
    pub open spec fn is_valid(&self) -> bool {
        &&& is_g1(self.alpha@)
        &&& is_g2(self.beta@) && is_g2(self.gamma@) && is_g2(self.delta@)
        &&& forall|i: int| 0 <= i < self.ic@.len() ==> is_g1(#[trigger] self.ic@[i]@)
    }
}

/// The error codes of the contract.
#[derive(Clone, Copy, Debug, PartialEq, Eq, Structural)]
pub enum VerifierError {
    InvalidProof,
    PublicInputLengthMismatch,
    Unauthorized,
    VkNotSet,
    UnsupportedHostFunction,
}

impl VerifierError {
    /// The number that stands for the error on the ledger.
    pub open spec fn spec_code(self) -> u32 {
        match self {
            VerifierError::InvalidProof => 1,
            VerifierError::PublicInputLengthMismatch => 2,
            VerifierError::Unauthorized => 3,
            VerifierError::VkNotSet => 4,
            VerifierError::UnsupportedHostFunction => 5,
        }
    }

    /// The number that stands for the error on the ledger.
    pub fn code(self) -> (code: u32)
        ensures
            code == self.spec_code(),
            match self {
                VerifierError::InvalidProof => code == 1,
                VerifierError::PublicInputLengthMismatch => code == 2,
                VerifierError::Unauthorized => code == 3,
                VerifierError::VkNotSet => code == 4,
                VerifierError::UnsupportedHostFunction => code == 5,
            },
    {
        match self {
            VerifierError::InvalidProof => 1,
            VerifierError::PublicInputLengthMismatch => 2,
            VerifierError::Unauthorized => 3,
            VerifierError::VkNotSet => 4,
            VerifierError::UnsupportedHostFunction => 5,
        }
    }
}

/// Why an invocation was undone: with an error code of the contract, or by an abort that carries
/// none.
#[derive(Clone, Copy, Debug, PartialEq, Eq, Structural)]
pub enum Revert {
    Error(VerifierError),
    Trap,
}

/// The event that a verified batch publishes: its first public input, the number of proofs.
#[derive(Clone, Copy, Debug, PartialEq, Eq)]
pub struct VerifyEvent {
    pub n_proofs: Bn254Fr,
}

/// The instance storage of the contract.
pub struct AggregatedVerifier {
    /// Address of the administrator, once set.
    pub admin: Option<String>,
    /// The verifying key, once set.
    pub vk: Option<VerifyingKey>,
    /// The number of batches verified so far, once set.
    pub count: Option<u64>,
}

/// The point `IC[0] + Σ inputs[i] · IC[i + 1]`, summed from the left.
pub open spec fn vk_x(ic: Seq<Bn254G1Affine>, inputs: Seq<Bn254Fr>) -> CurvePoint
    decreases inputs.len(),
{
    if inputs.len() == 0 {
        g1_point(ic[0]@)
    } else {
        curve_add(
            vk_x(ic, inputs.drop_last()),
            curve_mul(scalar_value(inputs.last()@), g1_point(ic[inputs.len() as int]@)),
        )
    }
}

/// The Groth16 equation `e(-A, B) · e(α, β) · e(vk_x, γ) · e(C, δ) = 1`.
pub open spec fn groth16_holds(vk: VerifyingKey, proof: Proof, inputs: Seq<Bn254Fr>) -> bool {
    pairing_product_is_one(
        g1_bytes(curve_neg(g1_point(proof.a@))),
        proof.b@,
        vk.alpha@,
        vk.beta@,
        g1_bytes(vk_x(vk.ic@, inputs)),
        vk.gamma@,
        proof.c@,
        vk.delta@,
    )
}

impl AggregatedVerifier {
    /// The state after `initialize`, or why it reverts.
    pub open spec fn after_initialize(
        self,
        admin: String,
        vk: VerifyingKey,
        authorized: bool,
    ) -> Result<AggregatedVerifier, Revert> {
        if self.admin is Some {
            Err(Revert::Error(VerifierError::Unauthorized))
        } else if !authorized {
            Err(Revert::Trap)
        } else {
            Ok(AggregatedVerifier { admin: Some(admin), vk: Some(vk), count: Some(0) })
        }
    }

    /// The state after `update_vk`, or why it reverts.
    pub open spec fn after_update_vk(self, new_vk: VerifyingKey, authorized: bool) -> Result<
        AggregatedVerifier,
        Revert,
    > {
        if self.admin is None {
            Err(Revert::Error(VerifierError::Unauthorized))
        } else if !authorized {
            Err(Revert::Trap)
        } else {
            Ok(AggregatedVerifier { admin: self.admin, vk: Some(new_vk), count: self.count })
        }
    }

    /// The error that keeps a call with `n_inputs` public inputs from its pairing check.
    /// `has_bn254` says whether the host has the BN254 functions.
    pub open spec fn shape_error(self, has_bn254: bool, n_inputs: nat) -> Option<VerifierError> {
        if self.vk is None {
            Some(VerifierError::VkNotSet)
        } else if self.vk->0.ic@.len() != n_inputs + 1 {
            Some(VerifierError::PublicInputLengthMismatch)
        } else if !has_bn254 {
            Some(VerifierError::UnsupportedHostFunction)
        } else {
            None
        }
    }

    /// The number of batches verified so far.
    pub open spec fn spec_verified_count(self) -> u64 {
        match self.count {
            Some(count) => count,
            None => 0,
        }
    }

    /// The state and the event after a pairing check with the answer `holds`, or why the call
    /// reverts. A call without public inputs has no number of proofs to publish.
    pub open spec fn after_pairing(self, inputs: Seq<Bn254Fr>, holds: bool) -> Result<
        (AggregatedVerifier, VerifyEvent),
        Revert,
    > {
        if !holds {
            Err(Revert::Error(VerifierError::InvalidProof))
        } else if self.spec_verified_count() == u64::MAX || inputs.len() == 0 {
            Err(Revert::Trap)
        } else {
            Ok(
                (
                    AggregatedVerifier {
                        admin: self.admin,
                        vk: self.vk,
                        count: Some((self.spec_verified_count() + 1) as u64),
                    },
                    VerifyEvent { n_proofs: inputs[0] },
                ),
            )
        }
    }

    /// The state and the event after `verify_aggregate`, or why it reverts.
    pub open spec fn after_verify(
        self,
        has_bn254: bool,
        proof: Proof,
        inputs: Seq<Bn254Fr>,
    ) -> Result<(AggregatedVerifier, VerifyEvent), Revert> {
        match self.shape_error(has_bn254, inputs.len()) {
            Some(error) => Err(Revert::Error(error)),
            None => self.after_pairing(inputs, groth16_holds(self.vk->0, proof, inputs)),
        }
    }

    /// A contract that was deployed and not yet initialized.
    pub fn new() -> (state: Self)
        ensures
            state == (AggregatedVerifier { admin: None, vk: None, count: None }),
    {
        AggregatedVerifier { admin: None, vk: None, count: None }
    }

    /// Sets the administrator and the verifying key, once. `authorized` says whether `admin` has
    /// authorized the invocation.
    pub fn initialize(&mut self, admin: String, vk: VerifyingKey, authorized: bool) -> (result:
        Result<(), Revert>)
        ensures
            match result {
                Ok(_) => old(self).after_initialize(admin, vk, authorized) == Ok::<_, Revert>(
                    *final(self),
                ),
                Err(revert) => {
                    &&& old(self).after_initialize(admin, vk, authorized) == Err::<
                        AggregatedVerifier,
                        _,
                    >(revert)
                    &&& *final(self) == *old(self)
                },
            },
            match result {
                Ok(_) => {
                    &&& old(self).admin is None && authorized
                    &&& final(self).admin == Some(admin)
                    &&& final(self).vk == Some(vk)
                    &&& final(self).count == Some(0u64)
                },
                Err(revert) => {
                    &&& *final(self) == *old(self)
                    &&& if old(self).admin is Some {
                        revert == Revert::Error(VerifierError::Unauthorized)
                    } else {
                        !authorized && revert == Revert::Trap
                    }
                },
            },
    {
        if self.admin.is_some() {
            return Err(Revert::Error(VerifierError::Unauthorized));
        }
        if !authorized {
            return Err(Revert::Trap);
        }
        self.admin = Some(admin);
        self.vk = Some(vk);
        self.count = Some(0);
        Ok(())
    }

    /// Replaces the verifying key. `authorized` says whether the stored administrator has
    /// authorized the invocation.
    pub fn update_vk(&mut self, new_vk: VerifyingKey, authorized: bool) -> (result: Result<
        (),
        Revert,
    >)
        ensures
            match result {
                Ok(_) => old(self).after_update_vk(new_vk, authorized) == Ok::<_, Revert>(
                    *final(self),
                ),
                Err(revert) => {
                    &&& old(self).after_update_vk(new_vk, authorized) == Err::<
                        AggregatedVerifier,
                        _,
                    >(revert)
                    &&& *final(self) == *old(self)
                },
            },
            match result {
                Ok(_) => {
                    &&& old(self).admin is Some && authorized
                    &&& final(self).admin == old(self).admin
                    &&& final(self).vk == Some(new_vk)
                    &&& final(self).count == old(self).count
                },
                Err(revert) => {
                    &&& *final(self) == *old(self)
                    &&& if old(self).admin is None {
                        revert == Revert::Error(VerifierError::Unauthorized)
                    } else {
                        !authorized && revert == Revert::Trap
                    }
                },
            },
    {
        if self.admin.is_none() {
            return Err(Revert::Error(VerifierError::Unauthorized));
        }
        if !authorized {
            return Err(Revert::Trap);
        }
        self.vk = Some(new_vk);
        Ok(())
    }

    /// The number of batches verified so far.
    pub fn verified_count(&self) -> (count: u64)
        ensures
            count == self.spec_verified_count(),
            match self.count {
                Some(stored) => count == stored,
                None => count == 0,
            },
    {
        match self.count {
            Some(count) => count,
            None => 0,
        }
    }

    /// Estimates the instructions of verifying `n` claims: one by one, and as one aggregated proof.
    pub fn estimate_cost(n: u32) -> (cost: (u64, u64))
        ensures
            (cost.0 as int, cost.1 as int) == estimated_cost(n as nat),
            cost.0 == 27_500_000 * n,
            cost.1 == 29_000_000,
    {
        let per_proof: u64 = 27_500_000;
        let aggregated: u64 = 29_000_000;
        (per_proof * n as u64, aggregated)
    }

    /// Whether a call with `n_inputs` public inputs comes as far as its pairing check. `has_bn254`
    /// says whether the host has the BN254 functions.
    pub fn check_shape(&self, has_bn254: bool, n_inputs: usize) -> (result: Result<
        (),
        VerifierError,
    >)
        ensures
            match result {
                Ok(_) => self.shape_error(has_bn254, n_inputs as nat) is None,
                Err(error) => self.shape_error(has_bn254, n_inputs as nat) == Some(error),
            },
            match self.vk {
                None => result == Err::<(), _>(VerifierError::VkNotSet),
                Some(vk) => if vk.ic@.len() != n_inputs + 1 {
                    result == Err::<(), _>(VerifierError::PublicInputLengthMismatch)
                } else if !has_bn254 {
                    result == Err::<(), _>(VerifierError::UnsupportedHostFunction)
                } else {
                    result is Ok
                },
            },
    {
        match &self.vk {
            None => Err(VerifierError::VkNotSet),
            Some(vk) => {
                let n_points: usize = vk.ic.len();
                if n_points == 0 || n_points - 1 != n_inputs {
                    Err(VerifierError::PublicInputLengthMismatch)
                } else if !has_bn254 {
                    Err(VerifierError::UnsupportedHostFunction)
                } else {
                    Ok(())
                }
            },
        }
    }

    /// Settles a call whose pairing check has answered `holds`: counts the batch and gives its
    /// event, or reverts.
    pub fn settle(&mut self, pub_inputs: &Vec<Bn254Fr>, holds: bool) -> (result: Result<
        VerifyEvent,
        Revert,
    >)
        ensures
            match result {
                Ok(event) => old(self).after_pairing(pub_inputs@, holds) == Ok::<_, Revert>(
                    (*final(self), event),
                ),
                Err(revert) => {
                    &&& old(self).after_pairing(pub_inputs@, holds) == Err::<
                        (AggregatedVerifier, VerifyEvent),
                        _,
                    >(revert)
                    &&& *final(self) == *old(self)
                },
            },
            match result {
                Ok(event) => {
                    &&& holds && pub_inputs@.len() > 0
                    &&& event.n_proofs == pub_inputs@[0]
                    &&& final(self).admin == old(self).admin
                    &&& final(self).vk == old(self).vk
                    &&& match old(self).count {
                        Some(count) => count < u64::MAX && final(self).count == Some(
                            (count + 1) as u64,
                        ),
                        None => final(self).count == Some(1u64),
                    }
                },
                Err(Revert::Error(error)) => !holds && error == VerifierError::InvalidProof,
                Err(Revert::Trap) => holds && (pub_inputs@.len() == 0 || old(self).count == Some(
                    u64::MAX,
                )),
            },
    {
        if !holds {
            return Err(Revert::Error(VerifierError::InvalidProof));
        }
        let count: u64 = self.verified_count();
        if count == u64::MAX || pub_inputs.len() == 0 {
            return Err(Revert::Trap);
        }
        self.count = Some(count + 1);
        Ok(VerifyEvent { n_proofs: pub_inputs[0] })
    }

    /// Verifies the proof of an aggregated batch against the stored key.
    ///
    /// The public inputs are the number of proofs and then the aggregate hash, as eight scalars of
    /// four little-endian bytes each. `host` is absent where the host lacks the BN254 functions.
    /// Where the call comes as far as its pairing check, the key and the proof must encode group
    /// elements: the host aborts the invocation on any other bytes.
    pub fn verify_aggregate(
        &mut self,
        host: Option<&Bn254Host>,
        proof: &Proof,
        pub_inputs: &Vec<Bn254Fr>,
    ) -> (result: Result<VerifyEvent, Revert>)
        requires
            old(self).shape_error(host is Some, pub_inputs@.len()) is None ==> old(
                self,
            ).vk->0.is_valid() && proof.is_valid(),
        ensures
            match result {
                Ok(event) => old(self).after_verify(host is Some, *proof, pub_inputs@) == Ok::<
                    _,
                    Revert,
                >((*final(self), event)),
                Err(revert) => {
                    &&& old(self).after_verify(host is Some, *proof, pub_inputs@) == Err::<
                        (AggregatedVerifier, VerifyEvent),
                        _,
                    >(revert)
                    &&& *final(self) == *old(self)
                },
            },
            result is Err ==> *final(self) == *old(self),
            match old(self).vk {
                None => result == Err::<VerifyEvent, _>(Revert::Error(VerifierError::VkNotSet)),
                Some(vk) => if vk.ic@.len() != pub_inputs@.len() + 1 {
                    result == Err::<VerifyEvent, _>(
                        Revert::Error(VerifierError::PublicInputLengthMismatch),
                    )
                } else if host is None {
                    result == Err::<VerifyEvent, _>(
                        Revert::Error(VerifierError::UnsupportedHostFunction),
                    )
                } else {
                    let one = pairing_product_is_one(
                        g1_bytes(curve_neg(g1_point(proof.a@))),
                        proof.b@,
                        vk.alpha@,
                        vk.beta@,
                        g1_bytes(vk_x(vk.ic@, pub_inputs@)),
                        vk.gamma@,
                        proof.c@,
                        vk.delta@,
                    );
                    match result {
                        Ok(event) => {
                            &&& one && pub_inputs@.len() > 0
                            &&& event.n_proofs == pub_inputs@[0]
                            &&& final(self).admin == old(self).admin
                            &&& final(self).vk == old(self).vk
                            &&& match old(self).count {
                                Some(count) => count < u64::MAX && final(self).count == Some(
                                    (count + 1) as u64,
                                ),
                                None => final(self).count == Some(1u64),
                            }
                        },
                        Err(Revert::Error(error)) => !one && error == VerifierError::InvalidProof,
                        Err(Revert::Trap) => one && (pub_inputs@.len() == 0 || old(self).count
                            == Some(u64::MAX)),
                    }
                },
            },
    {
        match self.check_shape(host.is_some(), pub_inputs.len()) {
            Err(error) => return Err(Revert::Error(error)),
            Ok(_) => {},
        }
        let holds: bool = match (host, &self.vk) {
            (Some(host), Some(vk)) => check_equation(host, vk, proof, pub_inputs),
            _ => false,
        };
        self.settle(pub_inputs, holds)
    }
}

/// Computes `vk_x` through the host.
fn accumulate_inputs(
    host: &Bn254Host,
    ic: &Vec<Bn254G1Affine>,
    pub_inputs: &Vec<Bn254Fr>,
) -> (sum: Bn254G1Affine)
    requires
        ic@.len() == pub_inputs@.len() + 1,
        forall|i: int| 0 <= i < ic@.len() ==> is_g1(#[trigger] ic@[i]@),
    ensures
        g1_point(sum@) == vk_x(ic@, pub_inputs@),
        is_g1(sum@),
{
    let mut sum: Bn254G1Affine = ic[0];
    let mut i: usize = 0;
    while i < pub_inputs.len()
        invariant
            i <= pub_inputs@.len(),
            ic@.len() == pub_inputs@.len() + 1,
            forall|j: int| 0 <= j < ic@.len() ==> is_g1(#[trigger] ic@[j]@),
            g1_point(sum@) == vk_x(ic@, pub_inputs@.take(i as int)),
            is_g1(sum@),
        decreases pub_inputs@.len() - i,
    {
        let term: Bn254G1Affine = g1_mul(host, &ic[i + 1], &pub_inputs[i]);
        sum = g1_add(host, &sum, &term);
        i += 1;
        assert(pub_inputs@.take(i as int).drop_last() =~= pub_inputs@.take(i - 1));
    }
    assert(pub_inputs@.take(i as int) =~= pub_inputs@);
    sum
}

/// Evaluates the Groth16 equation through the host.
fn check_equation(
    host: &Bn254Host,
    vk: &VerifyingKey,
    proof: &Proof,
    pub_inputs: &Vec<Bn254Fr>,
) -> (holds: bool)
    requires
        vk.ic@.len() == pub_inputs@.len() + 1,
        vk.is_valid(),
        proof.is_valid(),
    ensures
        holds == groth16_holds(*vk, *proof, pub_inputs@),
        holds == pairing_product_is_one(
            g1_bytes(curve_neg(g1_point(proof.a@))),
            proof.b@,
            vk.alpha@,
            vk.beta@,
            g1_bytes(vk_x(vk.ic@, pub_inputs@)),
            vk.gamma@,
            proof.c@,
            vk.delta@,
        ),
{
    let accumulated: Bn254G1Affine = accumulate_inputs(host, &vk.ic, pub_inputs);
    let neg_a: Bn254G1Affine = g1_neg(host, &proof.a);
    proof {
        negation_is_in_g1(proof.a@, neg_a@);
        encoding_is_unique(neg_a@);
        encoding_is_unique(accumulated@);
    }
    pairing_check(
        host,
        (&neg_a, &vk.alpha, &accumulated, &proof.c),
        (&proof.b, &vk.beta, &vk.gamma, &vk.delta),
    )
}

} // verus!
