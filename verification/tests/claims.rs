use rand::rngs::StdRng;
use rand::{Rng, SeedableRng};
use sha2::{Digest, Sha256};
use stellar_aggregator::batch::{
    build_stdin, expected_aggregate_hash, run_guest, BatchError, BatchVerifier,
};
use stellar_aggregator::public_inputs::{AggregatedPublicInputs, PublicValuesError};
use stellar_aggregator::stream::{serialize_stdin, StdinItem};
use stellar_aggregator::witness::{
    commitment_of, generate_witnesses, BalanceWitness, MAX_BALANCE,
};

fn batch(n: u64) -> Vec<BalanceWitness> {
    (0..n).map(|i| BalanceWitness::new(i * 1000, 7 + i)).collect()
}

/// The input stream that the prover makes of these claims.
fn stream_of(witnesses: &[BalanceWitness]) -> Vec<Vec<u32>> {
    serialize_stdin(&build_stdin(witnesses))
}

#[test]
fn commitment_is_sha256_of_balance_and_nonce() {
    assert_eq!(
        hex::encode(commitment_of(0, 0)),
        "374708fff7719dd5979ec875d56cd2286f6d3cf7ec317a3b25632aab28ec37bb"
    );
    assert_eq!(
        hex::encode(commitment_of(1000, 42)),
        "08cb1266eb961fa1e4967fddc97535017dff8b354318d4dad8f2fa9909b0cbd0"
    );
}

#[test]
fn commitments_of_different_claims_differ() {
    assert_ne!(commitment_of(1, 2), commitment_of(2, 1));
    assert_ne!(commitment_of(1, 2), commitment_of(1, 3));
}

#[test]
fn listing_shows_four_bytes_of_the_commitment() {
    assert_eq!(BalanceWitness::new(1000, 42).short_commitment(), "08cb1266");
}

#[test]
fn witnesses_follow_the_seed() {
    let seed = 0xdeadbeef_cafebabe;
    let witnesses = generate_witnesses(5, seed);
    let mut rng = StdRng::seed_from_u64(seed);
    assert_eq!(witnesses.len(), 5);
    for w in &witnesses {
        assert_eq!(w.balance, rng.gen_range(1..=1_000_000_000_000_u64));
        assert_eq!(w.nonce, rng.gen::<u64>());
        assert_eq!(w.commitment, commitment_of(w.balance, w.nonce));
    }
    assert!(generate_witnesses(0, seed).is_empty());
    assert_ne!(generate_witnesses(1, 1)[0].nonce, generate_witnesses(1, 2)[0].nonce);
}

#[test]
fn aggregate_hash_covers_count_and_commitments() {
    let witnesses = [BalanceWitness::new(1, 2), BalanceWitness::new(MAX_BALANCE, 3)];
    assert_eq!(
        hex::encode(expected_aggregate_hash(&witnesses)),
        "458e767f59d2c6d72bf2d4232ce84351d331e8378cc3b5075582e2941916fe59"
    );
    let mut hasher = Sha256::new();
    hasher.update(2u32.to_le_bytes());
    hasher.update(witnesses[0].commitment);
    hasher.update(witnesses[1].commitment);
    let expected: [u8; 32] = hasher.finalize().into();
    assert_eq!(expected_aggregate_hash(&witnesses), expected);
}

#[test]
fn aggregate_hash_depends_on_number_and_order() {
    let (a, b) = (BalanceWitness::new(1, 2), BalanceWitness::new(3, 4));
    let hashes = [
        expected_aggregate_hash(&[]),
        expected_aggregate_hash(&[a]),
        expected_aggregate_hash(&[a, a]),
        expected_aggregate_hash(&[a, b]),
        expected_aggregate_hash(&[b, a]),
    ];
    for i in 0..hashes.len() {
        for j in 0..i {
            assert_ne!(hashes[i], hashes[j]);
        }
    }
}

#[test]
fn stdin_lists_count_and_claims() {
    let w = BalanceWitness::new(5, 6);
    assert_eq!(
        build_stdin(&[w]),
        vec![
            StdinItem::U32(1),
            StdinItem::U64(5),
            StdinItem::U64(6),
            StdinItem::Bytes32(w.commitment),
        ]
    );
    assert_eq!(build_stdin(&[]), vec![StdinItem::U32(0)]);
}

#[test]
fn guest_reveals_the_expected_hash() {
    for n in [1, 2, 10, 64] {
        let witnesses = generate_witnesses(n, 99);
        let revealed = run_guest(&stream_of(&witnesses)).unwrap();
        assert_eq!(revealed, expected_aggregate_hash(&witnesses));
        let inputs = AggregatedPublicInputs::from_public_values(&revealed, n as u32).unwrap();
        assert!(inputs.matches_batch(&witnesses));
        assert!(!inputs.matches_batch(&witnesses[1..]));
    }
}

#[test]
fn guest_accepts_the_largest_balance() {
    let witnesses = [BalanceWitness::new(MAX_BALANCE, 1), BalanceWitness::new(0, 1)];
    assert!(run_guest(&stream_of(&witnesses)).is_ok());
}

#[test]
fn guest_refuses_an_empty_batch() {
    assert_eq!(run_guest(&stream_of(&[])), Err(BatchError::EmptyBatch));
    assert!(matches!(BatchVerifier::start(0), Err(BatchError::EmptyBatch)));
}

#[test]
fn guest_refuses_an_oversized_batch() {
    assert_eq!(run_guest(&stream_of(&batch(65))), Err(BatchError::TooManyProofs));
    assert!(matches!(BatchVerifier::start(65), Err(BatchError::TooManyProofs)));
}

#[test]
fn guest_names_the_first_balance_out_of_range() {
    let mut witnesses = batch(4);
    witnesses[2] = BalanceWitness::new(MAX_BALANCE + 1, 0);
    witnesses[3].commitment = [0; 32];
    assert_eq!(
        run_guest(&stream_of(&witnesses)),
        Err(BatchError::BalanceOutOfRange { index: 2 })
    );
}

#[test]
fn guest_names_the_first_wrong_commitment() {
    let mut witnesses = batch(4);
    witnesses[1].commitment[31] ^= 1;
    witnesses[3] = BalanceWitness::new(MAX_BALANCE + 1, 0);
    assert_eq!(
        run_guest(&stream_of(&witnesses)),
        Err(BatchError::CommitmentMismatch { index: 1 })
    );
}

#[test]
fn guest_checks_the_range_before_the_commitment() {
    let mut witnesses = batch(1);
    witnesses[0].balance = MAX_BALANCE + 1;
    assert_eq!(
        run_guest(&stream_of(&witnesses)),
        Err(BatchError::BalanceOutOfRange { index: 0 })
    );
}

#[test]
fn guest_refuses_a_malformed_stream() {
    assert_eq!(run_guest(&[]), Err(BatchError::MalformedInput));
    assert_eq!(run_guest(&[vec![]]), Err(BatchError::MalformedInput));
    assert_eq!(run_guest(&[vec![1]]), Err(BatchError::MalformedInput));
    let good = stream_of(&batch(3));
    let mut stream = good.clone();
    stream.pop();
    assert_eq!(run_guest(&stream), Err(BatchError::MalformedInput));
    // A half of a number, a digest without its last byte, and a byte that is none.
    for at in [1, 5] {
        let mut stream = good.clone();
        stream[at].pop();
        assert_eq!(run_guest(&stream), Err(BatchError::MalformedInput));
    }
    let mut stream = good.clone();
    stream[9].pop();
    assert_eq!(run_guest(&stream), Err(BatchError::MalformedInput));
    let mut stream = good.clone();
    stream[9][31] += 256;
    assert_eq!(run_guest(&stream), Err(BatchError::MalformedInput));
}

#[test]
fn all_values_of_a_claim_are_read_before_it_is_checked() {
    let mut stream = stream_of(&[BalanceWitness::new(MAX_BALANCE + 1, 1)]);
    stream[3].pop();
    assert_eq!(run_guest(&stream), Err(BatchError::MalformedInput));
}

#[test]
fn guest_takes_numbers_by_their_place() {
    let items = [
        StdinItem::U32(1),
        StdinItem::U64(5),
        StdinItem::U64(7),
        StdinItem::Bytes32(commitment_of(5, 7)),
    ];
    let expected = expected_aggregate_hash(&[BalanceWitness::new(5, 7)]);
    assert_eq!(run_guest(&serialize_stdin(&items)), Ok(expected));
    let swapped = [items[0], items[2], items[1], items[3]];
    assert_eq!(
        run_guest(&serialize_stdin(&swapped)),
        Err(BatchError::CommitmentMismatch { index: 0 })
    );
    // The low half of a longer number serves as the count.
    let long_count = [StdinItem::U64(0xffff_0000_0001), items[1], items[2], items[3]];
    assert_eq!(run_guest(&serialize_stdin(&long_count)), Ok(expected));
}

#[test]
fn guest_passes_over_what_is_left() {
    let witnesses = batch(2);
    let mut stream = stream_of(&witnesses);
    for words in stream.iter_mut() {
        words.push(0xffff_ffff);
    }
    stream.push(vec![1, 2, 3]);
    assert_eq!(run_guest(&stream), Ok(expected_aggregate_hash(&witnesses)));
}

#[test]
fn values_become_words() {
    let mut digest = [0; 32];
    digest[0] = 255;
    digest[31] = 7;
    let items = [
        StdinItem::U32(0x0102_0304),
        StdinItem::U64(0x0102_0304_0506_0708),
        StdinItem::Bytes32(digest),
    ];
    let stream = serialize_stdin(&items);
    assert_eq!(stream.len(), 3);
    assert_eq!(stream[0], vec![0x0102_0304]);
    assert_eq!(stream[1], vec![0x0506_0708, 0x0102_0304]);
    assert_eq!(stream[2].len(), 32);
    assert_eq!((stream[2][0], stream[2][1], stream[2][31]), (255, 0, 7));
    assert!(serialize_stdin(&[]).is_empty());
}

#[test]
fn batch_verifier_goes_claim_by_claim() {
    let witnesses = batch(2);
    let mut state = BatchVerifier::start(2).unwrap();
    assert_eq!(state.absorb(&witnesses[0]), Ok(()));
    let mut forged = witnesses[1];
    forged.nonce += 1;
    assert_eq!(state.absorb(&forged), Err(BatchError::CommitmentMismatch { index: 1 }));
    assert_eq!(state.absorb(&witnesses[1]), Ok(()));
    assert_eq!(state.finish(), expected_aggregate_hash(&witnesses));
}

#[test]
fn public_values_hold_the_hash_first() {
    let mut pv = [9u8; 40];
    pv[0] = 0xab;
    pv[31] = 0x0c;
    let inputs = AggregatedPublicInputs::from_public_values(&pv, 7).unwrap();
    assert_eq!(inputs.aggregate_hash, pv[0..32]);
    assert_eq!(inputs.n_proofs, 7);
    let text = inputs.aggregate_hash_hex();
    assert_eq!(text.len(), 64);
    assert!(text.starts_with("ab09"));
    assert!(text.ends_with("090c"));
}

#[test]
fn short_public_values_are_refused() {
    assert!(AggregatedPublicInputs::from_public_values(&[1; 32], 1).is_ok());
    assert_eq!(
        AggregatedPublicInputs::from_public_values(&[1; 31], 1).err(),
        Some(PublicValuesError::TooShort { len: 31 })
    );
    assert_eq!(
        AggregatedPublicInputs::from_public_values(&[], 1).err(),
        Some(PublicValuesError::TooShort { len: 0 })
    );
}

#[test]
fn short_public_values_are_reported_in_words() {
    let message = |n: usize| PublicValuesError::TooShort { len: n }.message();
    let error = AggregatedPublicInputs::from_public_values(&[0; 31], 5).err().unwrap();
    assert_eq!(error.message(), "public values too short (31)");
    assert_eq!(message(0), "public values too short (0)");
    assert_eq!(message(9), "public values too short (9)");
    assert_eq!(message(10), "public values too short (10)");
    assert_eq!(message(usize::MAX), format!("public values too short ({})", usize::MAX));
}
