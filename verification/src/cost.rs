//! The cost model: Soroban instructions for verifying claims one by one and as one batch.

use vstd::prelude::*;

verus! {

/// Instructions for one G1 scalar multiplication.
pub const G1_MUL_INSTRUCTIONS: u64 = 1_500_000;

/// Instructions for a pairing check with four pairs.
pub const PAIRING_CHECK_4_PAIRS_INSTRUCTIONS: u64 = 15_000_000;

/// Instructions that every contract call takes besides.
pub const CALL_OVERHEAD_INSTRUCTIONS: u64 = 500_000;

/// The public inputs of the proof of one claim: its commitment, as eight scalars.
pub const CLAIM_PUBLIC_INPUTS: u32 = 8;

/// The public inputs of an aggregated proof: the number of claims, and the aggregate hash as eight
/// scalars.
pub const AGGREGATE_PUBLIC_INPUTS: u32 = 9;

/// The instructions of one Groth16 verification: one multiplication for each public input, one
/// pairing check, and the call.
pub open spec fn verification_cost(n_pub_inputs: int) -> int {
    CALL_OVERHEAD_INSTRUCTIONS + G1_MUL_INSTRUCTIONS * n_pub_inputs
        + PAIRING_CHECK_4_PAIRS_INSTRUCTIONS
}

/// The instructions for `n` claims one by one.
pub open spec fn individual_cost(n: nat) -> int {
    verification_cost(CLAIM_PUBLIC_INPUTS as int) * n
}

/// The instructions for one aggregated proof, however many claims it covers.
pub open spec fn aggregated_cost() -> int {
    verification_cost(AGGREGATE_PUBLIC_INPUTS as int)
}

/// The instructions of one Groth16 verification with `n_pub_inputs` public inputs.
pub fn groth16_verify_cost(n_pub_inputs: u32) -> (cost: u64)
    ensures
        cost == verification_cost(n_pub_inputs as int),
        cost == 500_000 + 1_500_000 * n_pub_inputs + 15_000_000,
{
    let vk_x_cost: u64 = G1_MUL_INSTRUCTIONS * n_pub_inputs as u64;
    CALL_OVERHEAD_INSTRUCTIONS + vk_x_cost + PAIRING_CHECK_4_PAIRS_INSTRUCTIONS
}

/// The two ways to verify a batch, side by side.
#[derive(Clone, Copy, Debug, PartialEq, Eq, Structural)]
pub struct CostComparison {
    /// Instructions for the claims one by one.
    pub individual_total: u64,
    /// G1 multiplications for the claims one by one.
    pub individual_g1_muls: u32,
    /// Pairing checks for the claims one by one.
    pub individual_pairings: u32,
    /// Instructions for the aggregated proof.
    pub aggregated_total: u64,
    /// G1 multiplications for the aggregated proof.
    pub aggregated_g1_muls: u32,
    /// Pairing checks for the aggregated proof.
    pub aggregated_pairings: u32,
    /// Instructions that aggregation saves.
    pub saved: u64,
}

/// Compares the two ways for a batch of `n` claims. There is a comparison from two claims on,
/// below which aggregation costs more than it saves, and up to the number of claims whose
/// multiplications 32 bits can count.
pub fn compare_costs(n: u32) -> (result: Option<CostComparison>)
    ensures
        result is Some <==> 2 <= n < 0x2000_0000,
        result matches Some(comparison) ==> {
            &&& comparison.individual_total == individual_cost(n as nat)
            &&& comparison.individual_g1_muls == CLAIM_PUBLIC_INPUTS * n
            &&& comparison.individual_pairings == n
            &&& comparison.aggregated_total == aggregated_cost()
            &&& comparison.aggregated_g1_muls == AGGREGATE_PUBLIC_INPUTS
            &&& comparison.aggregated_pairings == 1
            &&& comparison.saved == individual_cost(n as nat) - aggregated_cost()
        },
        result matches Some(comparison) ==> {
            &&& comparison.individual_total == 27_500_000 * n
            &&& comparison.individual_g1_muls == 8 * n
            &&& comparison.individual_pairings == n
            &&& comparison.aggregated_total == 29_000_000
            &&& comparison.aggregated_g1_muls == 9
            &&& comparison.aggregated_pairings == 1
            &&& comparison.saved == 27_500_000 * n - 29_000_000
        },
{
    proof {
        lemma_costs(n as nat);
    }
    let per_claim: u64 = groth16_verify_cost(CLAIM_PUBLIC_INPUTS);
    assert(per_claim == 27_500_000);
    let individual_total: u64 = per_claim * n as u64;
    let aggregated_total: u64 = groth16_verify_cost(AGGREGATE_PUBLIC_INPUTS);
    assert(CLAIM_PUBLIC_INPUTS == 8);
    let individual_g1_muls: u32 = match CLAIM_PUBLIC_INPUTS.checked_mul(n) {
        Some(product) => product,
        None => return None,
    };
    let saved: u64 = match individual_total.checked_sub(aggregated_total) {
        Some(difference) => difference,
        None => return None,
    };
    Some(
        CostComparison {
            individual_total,
            individual_g1_muls,
            individual_pairings: n,
            aggregated_total,
            aggregated_g1_muls: AGGREGATE_PUBLIC_INPUTS,
            aggregated_pairings: 1,
            saved,
        },
    )
}

proof fn lemma_costs(n: nat)
    ensures
        individual_cost(n) == 27_500_000 * n,
        aggregated_cost() == 29_000_000,
{
    let per_claim = verification_cost(CLAIM_PUBLIC_INPUTS as int);
    assert(per_claim == 27_500_000);
    assert(per_claim * n == 27_500_000 * n) by (nonlinear_arith)
        requires
            per_claim == 27_500_000,
    ;
}

/// The cost model in numbers: a verification takes 15,500,000 instructions and 1,500,000 more for
/// each public input, a claim by itself 27,500,000, and an aggregated proof 29,000,000.
pub proof fn costs_in_numbers(n: nat)
    ensures
        verification_cost(n as int) == 15_500_000 + 1_500_000 * n,
        individual_cost(n) == 27_500_000 * n,
        aggregated_cost() == 29_000_000,
        estimated_cost(n) == (27_500_000 * n as int, 29_000_000int),
{
    lemma_costs(n);
}

/// The cost of verifying claims one by one is linear in their number.
pub proof fn individual_cost_is_linear(m: nat, n: nat)
    ensures
        individual_cost(m + n) == individual_cost(m) + individual_cost(n),
        individual_cost(n) == n * individual_cost(1),
{
    lemma_costs(m);
    lemma_costs(n);
    lemma_costs(m + n);
    lemma_costs(1);
    let one = individual_cost(1);
    assert(n * one == 27_500_000 * n) by (nonlinear_arith)
        requires
            one == 27_500_000,
    ;
}

/// Aggregation is strictly cheaper from two claims on, and for no smaller batch.
pub proof fn aggregation_pays_from_two(n: nat)
    ensures
        aggregated_cost() < individual_cost(n) <==> n >= 2,
{
    lemma_costs(n);
}

/// With every further claim, aggregation saves the whole cost of one more verification.
pub proof fn savings_grow_linearly(n: nat)
    ensures
        individual_cost(n + 1) - aggregated_cost() == (individual_cost(n)
            - aggregated_cost()) + individual_cost(1),
{
    lemma_costs(n);
    lemma_costs(n + 1);
    lemma_costs(1);
}

/// The instructions that the contract estimates for `n` claims: one by one, and aggregated.
pub open spec fn estimated_cost(n: nat) -> (int, int) {
    (27_500_000 * n as int, 29_000_000)
}

/// The estimate of the contract is the cost model with eight public inputs for the proof of one
/// claim and nine for the aggregated proof.
pub proof fn estimate_follows_the_model(n: nat)
    ensures
        estimated_cost(n) == (individual_cost(n), aggregated_cost()),
{
    lemma_costs(n);
}

} // verus!
