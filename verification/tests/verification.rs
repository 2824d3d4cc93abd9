use soroban_sdk::testutils::{EnvTestConfig, Ledger};
use soroban_sdk::{crypto, BytesN, Env};
use stellar_aggregator::bn254::{
    has_bn254, Bn254Fr, Bn254G1Affine, Bn254G2Affine, Bn254Host,
};
use stellar_aggregator::contract::{
    AggregatedVerifier, Proof, Revert, VerifierError, VerifyEvent, VerifyingKey,
};

fn env() -> Env {
    let env = Env::new_with_config(EnvTestConfig { capture_snapshot_at_drop: false });
    env.cost_estimate().budget().reset_unlimited();
    env
}

fn scalar(value: u64) -> Bn254Fr {
    let mut bytes = [0; 32];
    bytes[24..].copy_from_slice(&value.to_be_bytes());
    bytes
}

/// `value` times the generator `(1, 2)` of G1.
fn g1(env: &Env, value: u64) -> Bn254G1Affine {
    let mut generator = [0; 64];
    generator[31] = 1;
    generator[63] = 2;
    let generator = crypto::bn254::Bn254G1Affine::from_array(env, &generator);
    let value = crypto::bn254::Bn254Fr::from_bytes(BytesN::from_array(env, &scalar(value)));
    env.crypto().bn254().g1_mul(&generator, &value).to_array()
}

/// The generator of G2.
fn g2() -> Bn254G2Affine {
    let text = "198e9393920d483a7260bfb731fb5d25f1aa493335a9e71297e485b7aef312c2\
                1800deef121f1e76426a00665e5c4479674322d4f75edadd46debd5cd992f6ed\
                090689d0585ff075ec9e99ad690c3395bc4b313370b38ef355acdadcd122975b\
                12c85ea5db8c6deb4aab71808dcb408fe3d1e7690c43d37b4ce6cc0166fa7daa";
    hex::decode(text).unwrap().try_into().unwrap()
}

/// A key whose points are small multiples of the generators: α = 5 G, IC[i] = (i + 3) G.
fn key(env: &Env, n_inputs: u64) -> VerifyingKey {
    VerifyingKey {
        alpha: g1(env, 5),
        beta: g2(),
        gamma: g2(),
        delta: g2(),
        ic: (0..=n_inputs).map(|i| g1(env, i + 3)).collect(),
    }
}

/// The proof with C = 7 G that satisfies the equation under `key` for these inputs.
fn sample_proof(env: &Env, inputs: &[u64]) -> Proof {
    let vk_x: u64 = 3 + inputs.iter().zip(4..).map(|(x, i)| x * i).sum::<u64>();
    Proof { a: g1(env, 5 + vk_x + 7), b: g2(), c: g1(env, 7) }
}

fn initialized(env: &Env, n_inputs: u64) -> AggregatedVerifier {
    let mut contract = AggregatedVerifier::new();
    assert_eq!(contract.initialize("GADMIN".to_string(), key(env, n_inputs), true), Ok(()));
    contract
}

fn verify(
    contract: &mut AggregatedVerifier,
    env: &Env,
    sample: &Proof,
    pub_inputs: &Vec<Bn254Fr>,
) -> Result<VerifyEvent, Revert> {
    contract.verify_aggregate(Bn254Host::connect(env).as_ref(), sample, pub_inputs)
}

const INPUTS: [u64; 9] = [10, 11, 12, 13, 14, 15, 16, 17, 0xffff_ffff];

#[test]
fn valid_proof_is_counted_and_published() {
    let env = env();
    let mut contract = initialized(&env, 9);
    let pub_inputs: Vec<Bn254Fr> = INPUTS.iter().map(|x| scalar(*x)).collect();
    for count in 1..3 {
        let event = verify(&mut contract, &env, &sample_proof(&env, &INPUTS), &pub_inputs)
            .unwrap();
        assert_eq!(event.n_proofs, scalar(10));
        assert_eq!(contract.verified_count(), count);
    }
}

#[test]
fn proof_for_other_inputs_is_invalid() {
    let env = env();
    let mut contract = initialized(&env, 9);
    for i in 0..9 {
        let mut pub_inputs: Vec<Bn254Fr> = INPUTS.iter().map(|x| scalar(*x)).collect();
        pub_inputs[i][31] ^= 1;
        let sample = sample_proof(&env, &INPUTS);
        assert_eq!(
            verify(&mut contract, &env, &sample, &pub_inputs),
            Err(Revert::Error(VerifierError::InvalidProof))
        );
    }
    assert_eq!(contract.verified_count(), 0);
}

#[test]
fn altered_proof_is_invalid() {
    let env = env();
    let mut contract = initialized(&env, 1);
    let pub_inputs = vec![scalar(4)];
    let good = sample_proof(&env, &[4]);
    let bad_a = Proof { a: g1(&env, 1), b: good.b, c: good.c };
    let bad_c = Proof { a: good.a, b: good.b, c: g1(&env, 8) };
    for bad in [bad_a, bad_c] {
        assert_eq!(
            verify(&mut contract, &env, &bad, &pub_inputs),
            Err(Revert::Error(VerifierError::InvalidProof))
        );
    }
    assert!(verify(&mut contract, &env, &good, &pub_inputs).is_ok());
}

#[test]
fn infinity_satisfies_the_equation() {
    let env = env();
    let mut contract = AggregatedVerifier::new();
    let vk = VerifyingKey {
        alpha: [0; 64],
        beta: [0; 128],
        gamma: [0; 128],
        delta: [0; 128],
        ic: vec![[0; 64], [0; 64]],
    };
    contract.initialize("GADMIN".to_string(), vk, true).unwrap();
    let zeros = Proof { a: [0; 64], b: [0; 128], c: [0; 64] };
    let event = verify(&mut contract, &env, &zeros, &vec![scalar(1)]).unwrap();
    assert_eq!(event.n_proofs, scalar(1));
}

#[test]
fn scalars_are_reduced_modulo_the_group_order() {
    let env = env();
    let mut contract = initialized(&env, 1);
    let one_above: Bn254Fr =
        hex::decode("30644e72e131a029b85045b68181585d2833e84879b9709143e1f593f0000002")
            .unwrap()
            .try_into()
            .unwrap();
    let event = verify(&mut contract, &env, &sample_proof(&env, &[1]), &vec![one_above])
        .unwrap();
    assert_eq!(event.n_proofs, one_above);
}

#[test]
fn proof_without_inputs_has_nothing_to_publish() {
    let env = env();
    let mut contract = initialized(&env, 0);
    assert_eq!(
        verify(&mut contract, &env, &sample_proof(&env, &[]), &vec![]),
        Err(Revert::Trap)
    );
    assert_eq!(contract.verified_count(), 0);
}

#[test]
fn unset_key_is_reported() {
    let env = env();
    let mut contract = AggregatedVerifier::new();
    let sample = sample_proof(&env, &[1]);
    assert_eq!(
        verify(&mut contract, &env, &sample, &vec![scalar(1)]),
        Err(Revert::Error(VerifierError::VkNotSet))
    );
}

#[test]
fn number_of_inputs_must_fit_the_key() {
    let env = env();
    let mut contract = initialized(&env, 2);
    for n in [0, 1, 3] {
        assert_eq!(
            verify(&mut contract, &env, &sample_proof(&env, &[1]),
                &vec![scalar(1); n]
            ),
            Err(Revert::Error(VerifierError::PublicInputLengthMismatch))
        );
    }
}

#[test]
fn host_without_bn254_is_reported_after_the_shape() {
    let env = env();
    let mut contract = initialized(&env, 1);
    let sample = sample_proof(&env, &[1]);
    let pub_inputs = vec![scalar(1)];
    env.ledger().set_protocol_version(24);
    assert!(Bn254Host::connect(&env).is_none());
    assert_eq!(
        verify(&mut contract, &env, &sample, &pub_inputs),
        Err(Revert::Error(VerifierError::UnsupportedHostFunction))
    );
    assert_eq!(
        verify(&mut contract, &env, &sample, &vec![]),
        Err(Revert::Error(VerifierError::PublicInputLengthMismatch))
    );
    assert_eq!(contract.verified_count(), 0);
    env.ledger().set_protocol_version(25);
    assert!(verify(&mut contract, &env, &sample, &pub_inputs).is_ok());
    assert_eq!(contract.check_shape(false, 1), Err(VerifierError::UnsupportedHostFunction));
    assert_eq!(contract.check_shape(true, 1), Ok(()));
}

#[test]
fn bn254_functions_come_with_protocol_25() {
    assert!(!has_bn254(0));
    assert!(!has_bn254(24));
    assert!(has_bn254(25));
    assert!(has_bn254(u32::MAX));
}

#[test]
fn initialization_happens_once() {
    let env = env();
    let mut contract = AggregatedVerifier::new();
    assert_eq!(contract.verified_count(), 0);
    assert_eq!(
        contract.initialize("GADMIN".to_string(), key(&env, 1), false),
        Err(Revert::Trap)
    );
    assert!(contract.admin.is_none());
    assert_eq!(contract.initialize("GADMIN".to_string(), key(&env, 1), true), Ok(()));
    assert_eq!(contract.count, Some(0));
    for authorized in [true, false] {
        assert_eq!(
            contract.initialize("GOTHER".to_string(), key(&env, 2), authorized),
            Err(Revert::Error(VerifierError::Unauthorized))
        );
    }
    assert_eq!(contract.admin, Some("GADMIN".to_string()));
    assert_eq!(contract.vk.unwrap().ic.len(), 2);
}

#[test]
fn key_is_replaced_by_the_administrator_alone() {
    let env = env();
    let mut contract = AggregatedVerifier::new();
    assert_eq!(
        contract.update_vk(key(&env, 1), true),
        Err(Revert::Error(VerifierError::Unauthorized))
    );
    let mut contract = initialized(&env, 1);
    verify(&mut contract, &env, &sample_proof(&env, &[1]), &vec![scalar(1)])
        .unwrap();
    assert_eq!(contract.update_vk(key(&env, 2), false), Err(Revert::Trap));
    assert_eq!(contract.check_shape(true, 1), Ok(()));
    assert_eq!(contract.update_vk(key(&env, 2), true), Ok(()));
    assert_eq!(contract.check_shape(true, 2), Ok(()));
    assert_eq!(contract.verified_count(), 1);
    assert_eq!(contract.admin, Some("GADMIN".to_string()));
    assert!(verify(&mut contract, &env, &sample_proof(&env, &[1, 2]),
            &vec![scalar(1), scalar(2)]
        )
        .is_ok());
    assert_eq!(contract.verified_count(), 2);
}

#[test]
fn settling_follows_the_pairing_check() {
    let mut contract = AggregatedVerifier::new();
    let pub_inputs = vec![scalar(3), scalar(4)];
    assert_eq!(
        contract.settle(&pub_inputs, false),
        Err(Revert::Error(VerifierError::InvalidProof))
    );
    assert_eq!(contract.settle(&pub_inputs, true).unwrap().n_proofs, scalar(3));
    assert_eq!(contract.verified_count(), 1);
    contract.count = Some(u64::MAX);
    assert_eq!(contract.settle(&pub_inputs, true), Err(Revert::Trap));
    assert_eq!(contract.verified_count(), u64::MAX);
}

#[test]
fn errors_have_their_codes() {
    assert_eq!(VerifierError::InvalidProof.code(), 1);
    assert_eq!(VerifierError::PublicInputLengthMismatch.code(), 2);
    assert_eq!(VerifierError::Unauthorized.code(), 3);
    assert_eq!(VerifierError::VkNotSet.code(), 4);
    assert_eq!(VerifierError::UnsupportedHostFunction.code(), 5);
}
