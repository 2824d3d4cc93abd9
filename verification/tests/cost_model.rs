use stellar_aggregator::contract::AggregatedVerifier;
use stellar_aggregator::cost::{compare_costs, groth16_verify_cost};

#[test]
fn test_cost_estimate_scales_linearly() {
    let (ind_1, agg_1) = AggregatedVerifier::estimate_cost(1_u32);
    let (ind_10, agg_10) = AggregatedVerifier::estimate_cost(10_u32);

    // Individual cost grows linearly with N.
    assert_eq!(ind_10, ind_1 * 10);

    // Aggregated cost is constant (proof covers all N internally).
    assert_eq!(agg_1, agg_10);

    // For N ≥ 2, aggregation is cheaper.
    assert!(
        agg_10 < ind_10,
        "aggregated ({agg_10}) should be cheaper than individual ({ind_10}) for N=10"
    );

    let savings_pct = 100.0 * (1.0 - agg_10 as f64 / ind_10 as f64);
    // At N=10, savings should be close to (1 - 29/275) ≈ 89.5%
    assert!(savings_pct > 85.0, "expected >85% savings at N=10, got {savings_pct:.1}%");
}

#[test]
fn verification_cost_counts_multiplications() {
    assert_eq!(groth16_verify_cost(0), 15_500_000);
    assert_eq!(groth16_verify_cost(8), 27_500_000);
    assert_eq!(groth16_verify_cost(9), 29_000_000);
    assert_eq!(groth16_verify_cost(u32::MAX), 15_500_000 + 1_500_000 * 4_294_967_295);
}

#[test]
fn estimate_agrees_with_the_cost_model() {
    for n in [2, 5, 10, 50, 0x1fff_ffff] {
        let comparison = compare_costs(n).unwrap();
        let estimate = AggregatedVerifier::estimate_cost(n);
        assert_eq!(estimate, (comparison.individual_total, comparison.aggregated_total));
    }
    assert_eq!(AggregatedVerifier::estimate_cost(0), (0, 29_000_000));
    assert_eq!(AggregatedVerifier::estimate_cost(1), (27_500_000, 29_000_000));
    assert_eq!(
        AggregatedVerifier::estimate_cost(u32::MAX),
        (27_500_000 * 4_294_967_295, 29_000_000)
    );
    assert_eq!(AggregatedVerifier::estimate_cost(5), (137_500_000, 29_000_000));
    assert_eq!(AggregatedVerifier::estimate_cost(50), (1_375_000_000, 29_000_000));
}

#[test]
fn comparison_lists_both_ways() {
    let comparison = compare_costs(10).unwrap();
    assert_eq!(comparison.individual_total, 275_000_000);
    assert_eq!(comparison.individual_g1_muls, 80);
    assert_eq!(comparison.individual_pairings, 10);
    assert_eq!(comparison.aggregated_total, 29_000_000);
    assert_eq!(comparison.aggregated_g1_muls, 9);
    assert_eq!(comparison.aggregated_pairings, 1);
    assert_eq!(comparison.saved, 246_000_000);
}

#[test]
fn aggregation_pays_from_two_claims_on() {
    assert_eq!(compare_costs(0), None);
    assert_eq!(compare_costs(1), None);
    assert_eq!(compare_costs(2).unwrap().saved, 26_000_000);
}

#[test]
fn comparison_ends_where_32_bits_cannot_count_multiplications() {
    let largest = compare_costs(0x1fff_ffff).unwrap();
    assert_eq!(largest.individual_g1_muls, 0xffff_fff8);
    assert_eq!(compare_costs(0x2000_0000), None);
    assert_eq!(compare_costs(u32::MAX), None);
}

#[test]
fn every_further_claim_saves_one_verification() {
    let three = compare_costs(3).unwrap().saved;
    let four = compare_costs(4).unwrap().saved;
    assert_eq!(four - three, groth16_verify_cost(8));
}
