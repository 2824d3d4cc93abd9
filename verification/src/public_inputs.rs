//! The public inputs of an aggregated proof, as the prover reads them back.

use crate::batch::{
    aggregate_hash_of_claims_by_position, batch_hash, claim_at, commitments_of, count_of,
    expected_aggregate_hash, guest_outcome, revealed_hash_attests_claims, stdin_words,
    written_claims_are_read_back, BatchError,
};
use crate::digest::{sha256_digest, MAX_MESSAGE};
use crate::encoding::{decimal_text, hex_encode, hex_text, push_decimal, same_bytes};
use crate::witness::BalanceWitness;
use vstd::arithmetic::power::pow;
use vstd::prelude::*;

verus! {

/// The public inputs that go on chain.
#[derive(Clone, Copy, Debug)]
pub struct AggregatedPublicInputs {
    /// The digest that the guest program revealed.
    pub aggregate_hash: [u8; 32],
    /// The number of claims in the batch.
    pub n_proofs: u32,
}

/// Why public values cannot be read.
#[derive(Clone, Copy, Debug, PartialEq, Eq, Structural)]
pub enum PublicValuesError {
    /// There are fewer bytes, this many, than a digest has.
    TooShort { len: usize },
}

impl PublicValuesError {
    /// The error in words.
    pub fn message(&self) -> (text: String)
        ensures
            match self {
                PublicValuesError::TooShort { len } => text@ == "public values too short ("@
                    + decimal_text(*len as nat) + ")"@,
            },
    {
        let PublicValuesError::TooShort { len } = *self;
        let mut text: String = String::from_str("public values too short (");
        push_decimal(&mut text, len);
        text.append(")");
        text
    }
}

impl AggregatedPublicInputs {
    /// Whether these are the public inputs that `pv` and the number of claims spell.
    pub open spec fn spelled_by(&self, pv: Seq<u8>, n_proofs: u32) -> bool {
        &&& pv.len() >= 32
        &&& self.aggregate_hash@ == pv.subrange(0, 32)
        &&& self.n_proofs == n_proofs
    }

    /// Reads the public values of a run, whose first 32 bytes are the aggregate hash. The number
    /// of claims is not among them: the caller knows it.
    pub fn from_public_values(pv: &[u8], n_proofs: u32) -> (result: Result<
        Self,
        PublicValuesError,
    >)
        ensures
            match result {
                Ok(inputs) => inputs.spelled_by(pv@, n_proofs),
                Err(PublicValuesError::TooShort { len }) => pv@.len() < 32 && len == pv@.len(),
            },
            result matches Ok(inputs) ==> {
                &&& pv@.len() >= 32
                &&& forall|j: int| 0 <= j < 32 ==> #[trigger] inputs.aggregate_hash@[j] == pv@[j]
                &&& inputs.n_proofs == n_proofs
            },
    {
        if pv.len() < 32 {
            return Err(PublicValuesError::TooShort { len: pv.len() });
        }
        let mut aggregate_hash: [u8; 32] = [0;32];
        let mut i: usize = 0;
        while i < 32
            invariant
                i <= 32,
                pv@.len() >= 32,
                forall|j: int| 0 <= j < i ==> aggregate_hash@[j] == pv@[j],
            decreases 32 - i,
        {
            aggregate_hash[i] = pv[i];
            i += 1;
        }
        assert(aggregate_hash@ =~= pv@.subrange(0, 32));
        Ok(AggregatedPublicInputs { aggregate_hash, n_proofs })
    }

    /// Whether these are the public inputs of a batch with these claims.
    pub open spec fn belongs_to(&self, witnesses: Seq<BalanceWitness>) -> bool {
        &&& self.aggregate_hash@ == batch_hash(
            commitments_of(witnesses),
        )
        &&& self.n_proofs == witnesses.len() % 0x1_0000_0000
    }

    /// Whether a run has revealed what the prover expects for these claims.
    pub fn matches_batch(&self, witnesses: &[BalanceWitness]) -> (matches: bool)
        requires
            4 + 32 * witnesses@.len() <= MAX_MESSAGE,
        ensures
            matches == self.belongs_to(witnesses@),
            matches == (self.n_proofs == witnesses@.len() % 0x1_0000_0000 && self.aggregate_hash@
                == sha256_digest(
                Seq::new(
                    4 + 32 * witnesses@.len(),
                    |k: int|
                        if k < 4 {
                            ((witnesses@.len() as int / pow(256, k as nat)) % 256) as u8
                        } else {
                            witnesses@[(k - 4) / 32].commitment@[(k - 4) % 32]
                        },
                ),
            )),
    {
        let expected: [u8; 32] = expected_aggregate_hash(witnesses);
        let count: u64 = witnesses.len() as u64 % 0x1_0000_0000;
        same_bytes(&self.aggregate_hash, &expected) && self.n_proofs as u64 == count
    }

    /// The aggregate hash as hexadecimal text.
    pub fn aggregate_hash_hex(&self) -> (text: String)
        ensures
            text@ == hex_text(self.aggregate_hash@),
    {
        hex_encode(self.aggregate_hash.as_slice())
    }
}

/// Public values are read by position: the digest is the first 32 bytes, in their order, whatever
/// follows them, and the number of claims is the one that the caller gives.
pub proof fn public_values_by_position(inputs: AggregatedPublicInputs, pv: Seq<u8>, n_proofs: u32)
    ensures
        inputs.spelled_by(pv, n_proofs) <==> {
            &&& pv.len() >= 32
            &&& forall|j: int| 0 <= j < 32 ==> #[trigger] inputs.aggregate_hash@[j] == pv[j]
            &&& inputs.n_proofs == n_proofs
        },
{
    if pv.len() >= 32 {
        if forall|j: int| 0 <= j < 32 ==> #[trigger] inputs.aggregate_hash@[j] == pv[j] {
            assert(inputs.aggregate_hash@ =~= pv.subrange(0, 32));
        }
        if inputs.aggregate_hash@ == pv.subrange(0, 32) {
            assert forall|j: int| 0 <= j < 32 implies #[trigger] inputs.aggregate_hash@[j]
                == pv[j] by {
                assert(pv.subrange(0, 32)[j] == pv[j]);
            }
        }
    }
}

/// Public inputs belong to a batch exactly where their hash is the digest of the number of claims
/// and of the commitments in order, and their count is the number of claims, cut to 32 bits.
pub proof fn belonging_is_hash_and_count(
    inputs: AggregatedPublicInputs,
    witnesses: Seq<BalanceWitness>,
)
    ensures
        inputs.belongs_to(witnesses) <==> inputs.n_proofs == witnesses.len() % 0x1_0000_0000
            && inputs.aggregate_hash@ == sha256_digest(
            Seq::new(
                4 + 32 * witnesses.len(),
                |k: int|
                    if k < 4 {
                        ((witnesses.len() as int / pow(256, k as nat)) % 256) as u8
                    } else {
                        witnesses[(k - 4) / 32].commitment@[(k - 4) % 32]
                    },
            ),
        ),
{
    aggregate_hash_of_claims_by_position(witnesses);
}

/// A batch has one pair of public inputs: what belongs to it has the hash that the prover expects,
/// byte for byte, and a hash or a count that differs is refused.
pub proof fn other_inputs_are_refused(
    inputs: AggregatedPublicInputs,
    witnesses: Seq<BalanceWitness>,
    expected: [u8; 32],
)
    requires
        expected@ == batch_hash(commitments_of(witnesses)),
    ensures
        (exists|j: int| 0 <= j < 32 && #[trigger] inputs.aggregate_hash@[j] != expected@[j])
            ==> !inputs.belongs_to(witnesses),
        inputs.n_proofs != witnesses.len() % 0x1_0000_0000 ==> !inputs.belongs_to(witnesses),
        (forall|j: int| 0 <= j < 32 ==> #[trigger] inputs.aggregate_hash@[j] == expected@[j])
            && inputs.n_proofs == witnesses.len() % 0x1_0000_0000 ==> inputs.belongs_to(witnesses),
{
    if forall|j: int| 0 <= j < 32 ==> #[trigger] inputs.aggregate_hash@[j] == expected@[j] {
        assert(inputs.aggregate_hash@ =~= expected@);
    }
}

/// What the guest reveals for the claims that the prover wrote is what the prover expects: public
/// inputs read from the revealed digest, whatever bytes follow it, belong to the batch.
pub proof fn revealed_hash_is_read_back(
    witnesses: Seq<BalanceWitness>,
    digest: [u8; 32],
    padding: Seq<u8>,
    inputs: AggregatedPublicInputs,
)
    requires
        1 <= witnesses.len() <= u32::MAX,
        guest_outcome(stdin_words(witnesses)) == Ok::<
            _,
            BatchError,
        >(digest@),
        inputs.spelled_by(digest@ + padding, witnesses.len() as u32),
    ensures
        inputs.belongs_to(witnesses),
        forall|i: int| 0 <= i < witnesses.len() ==> (#[trigger] witnesses[i]).is_valid(),
{
    let stream = stdin_words(witnesses);
    revealed_hash_attests_claims(stream);
    written_claims_are_read_back(witnesses, 0);
    let read = Seq::new(
        count_of(stream)->0 as nat,
        |i: int| claim_at(stream, i as nat)->0.commitment,
    );
    assert forall|i: int| 0 <= i < witnesses.len() implies {
        &&& (#[trigger] witnesses[i]).is_valid()
        &&& read[i] == witnesses[i].commitment@
    } by {
        written_claims_are_read_back(witnesses, i as nat);
        assert(claim_at(stream, i as nat) is Some);
    }
    assert(read =~= commitments_of(witnesses));
    assert((digest@ + padding).subrange(0, 32) =~= digest@);
}

} // verus!
