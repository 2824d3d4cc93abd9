//! A batch of balance claims: what the prover writes for the guest program, and what the guest
//! program checks and reveals.
//!
//! The guest reads the number of claims and then, for each claim, its balance, its nonce and its
//! commitment. It stops at the first claim that does not hold. Where all of them hold it reveals
//! one digest, which commits to the number of claims and to every commitment in order.

use crate::digest::{sha256, sha256_digest, MAX_MESSAGE};
use crate::encoding::{
    le_bytes, le_bytes_by_position, le_bytes_length, push_all, push_le, same_bytes,
};
use crate::stream::{
    bytes32_are_read_back, bytes32_at_front, deserialize_bytes32, deserialize_u32,
    deserialize_u64, u32_at_front, u32_is_read_back, u64_at_front, u64_is_read_back, word_lists,
    words_of, StdinItem,
};
use crate::witness::{
    commitment, commitment_by_position, commitment_of, BalanceWitness, Claim, MAX_BALANCE,
};
use vstd::arithmetic::power::pow;
use vstd::prelude::*;

verus! {

/// The largest number of claims in a batch.
pub const MAX_PROOFS: u32 = 64;

/// Why the guest program stops without an output.
#[derive(Clone, Copy, Debug, PartialEq, Eq, Structural)]
pub enum BatchError {
    /// The batch has no claim.
    EmptyBatch,
    /// The batch has more than `MAX_PROOFS` claims.
    TooManyProofs,
    /// An input is missing, or its words do not give the value to be read.
    MalformedInput,
    /// The balance of the claim with this index is above `MAX_BALANCE`.
    BalanceOutOfRange { index: u32 },
    /// The commitment of the claim with this index is not the one to its balance and nonce.
    CommitmentMismatch { index: u32 },
}

// ---- The aggregate hash -------------------------------------------------------------------

/// The commitments one after the other.
pub open spec fn joined(commitments: Seq<Seq<u8>>) -> Seq<u8>
    decreases commitments.len(),
{
    if commitments.len() == 0 {
        Seq::empty()
    } else {
        joined(commitments.drop_last()) + commitments.last()
    }
}

/// The message behind the aggregate hash: the number of claims as four little-endian bytes, and
/// then every commitment.
pub open spec fn batch_message(commitments: Seq<Seq<u8>>) -> Seq<u8> {
    le_bytes(commitments.len() as int, 4) + joined(commitments)
}

/// The aggregate hash of a batch with these commitments.
pub open spec fn batch_hash(commitments: Seq<Seq<u8>>) -> Seq<u8> {
    sha256_digest(batch_message(commitments))
}

/// The commitments of the claims.
pub open spec fn commitments_of(witnesses: Seq<BalanceWitness>) -> Seq<Seq<u8>> {
    Seq::new(witnesses.len(), |i: int| witnesses[i].commitment@)
}

/// The bytes of each digest.
pub open spec fn bytes_of(digests: Seq<[u8; 32]>) -> Seq<Seq<u8>> {
    Seq::new(digests.len(), |i: int| digests[i]@)
}

/// Whether each of these has the length of a digest.
pub open spec fn all_digests(commitments: Seq<Seq<u8>>) -> bool {
    forall|i: int| 0 <= i < commitments.len() ==> (#[trigger] commitments[i]).len() == 32
}

proof fn lemma_joined_length(commitments: Seq<Seq<u8>>)
    requires
        all_digests(commitments),
    ensures
        joined(commitments).len() == 32 * commitments.len(),
    decreases commitments.len(),
{
    if commitments.len() > 0 {
        lemma_joined_length(commitments.drop_last());
    }
}

/// Hashes the commitments of a batch.
fn aggregate_hash(commitments: &Vec<[u8; 32]>) -> (digest: [u8; 32])
    requires
        4 + 32 * commitments@.len() <= MAX_MESSAGE,
    ensures
        digest@ == batch_hash(bytes_of(commitments@)),
        digest@ == sha256_digest(
            Seq::new(
                4 + 32 * commitments@.len(),
                |k: int|
                    if k < 4 {
                        ((commitments@.len() as int / pow(256, k as nat)) % 256) as u8
                    } else {
                        commitments@[(k - 4) / 32]@[(k - 4) % 32]
                    },
            ),
        ),
{
    proof {
        let bytes = bytes_of(commitments@);
        aggregate_hash_by_position(bytes);
        assert(Seq::new(
            4 + 32 * bytes.len(),
            |k: int|
                if k < 4 {
                    ((bytes.len() as int / pow(256, k as nat)) % 256) as u8
                } else {
                    bytes[(k - 4) / 32][(k - 4) % 32]
                },
        ) =~= Seq::new(
            4 + 32 * commitments@.len(),
            |k: int|
                if k < 4 {
                    ((commitments@.len() as int / pow(256, k as nat)) % 256) as u8
                } else {
                    commitments@[(k - 4) / 32]@[(k - 4) % 32]
                },
        ));
    }
    let mut message: Vec<u8> = Vec::new();
    push_le(&mut message, commitments.len() as u64, 4);
    let ghost head = le_bytes(commitments@.len() as int, 4);
    let ghost all = bytes_of(commitments@);
    assert(message@ =~= head);
    assert(all.take(0) =~= Seq::empty());
    assert(message@ =~= head + joined(all.take(0)));
    let mut i: usize = 0;
    while i < commitments.len()
        invariant
            i <= commitments@.len(),
            all == bytes_of(commitments@),
            message@ == head + joined(all.take(i as int)),
        decreases commitments@.len() - i,
    {
        push_all(&mut message, &commitments[i]);
        i += 1;
        let ghost taken = all.take(i as int);
        assert(taken.drop_last() =~= all.take(i - 1));
        assert(message@ =~= head + joined(taken));
    }
    assert(all.take(i as int) =~= all);
    proof {
        lemma_joined_length(all);
        le_bytes_length(commitments@.len() as int, 4);
    }
    sha256(message.as_slice())
}

/// The aggregate hash that the guest program is to reveal for these claims.
pub fn expected_aggregate_hash(witnesses: &[BalanceWitness]) -> (digest: [u8; 32])
    requires
        4 + 32 * witnesses@.len() <= MAX_MESSAGE,
    ensures
        digest@ == batch_hash(commitments_of(witnesses@)),
        digest@ == sha256_digest(
            Seq::new(
                4 + 32 * witnesses@.len(),
                |k: int|
                    if k < 4 {
                        ((witnesses@.len() as int / pow(256, k as nat)) % 256) as u8
                    } else {
                        witnesses@[(k - 4) / 32].commitment@[(k - 4) % 32]
                    },
            ),
        ),
{
    proof {
        aggregate_hash_of_claims_by_position(witnesses@);
    }
    let mut commitments: Vec<[u8; 32]> = Vec::new();
    let mut i: usize = 0;
    while i < witnesses.len()
        invariant
            i <= witnesses@.len(),
            bytes_of(commitments@) == commitments_of(witnesses@).take(i as int),
        decreases witnesses@.len() - i,
    {
        let ghost before = commitments@;
        commitments.push(witnesses[i].commitment);
        i += 1;
        assert(bytes_of(commitments@) =~= bytes_of(before).push(witnesses@[i - 1].commitment@));
        assert(bytes_of(commitments@) =~= commitments_of(witnesses@).take(i as int));
    }
    assert(bytes_of(commitments@) =~= commitments_of(witnesses@));
    aggregate_hash(&commitments)
}

// ---- The input stream -----------------------------------------------------------------------

/// The values that the prover writes for the claims: balance, nonce and commitment of each.
pub open spec fn claim_items(witnesses: Seq<BalanceWitness>) -> Seq<StdinItem>
    decreases witnesses.len(),
{
    if witnesses.len() == 0 {
        Seq::empty()
    } else {
        let last = witnesses.last();
        claim_items(witnesses.drop_last()) + seq![
            StdinItem::U64(last.balance),
            StdinItem::U64(last.nonce),
            StdinItem::Bytes32(last.commitment),
        ]
    }
}

/// All values that the prover writes. The count holds 32 bits; a longer batch has its length cut
/// to them.
pub open spec fn stdin_items(witnesses: Seq<BalanceWitness>) -> Seq<StdinItem> {
    seq![StdinItem::U32((witnesses.len() % 0x1_0000_0000) as u32)] + claim_items(witnesses)
}

/// The input stream that comes of them: the words of each value.
pub open spec fn stdin_words(witnesses: Seq<BalanceWitness>) -> Seq<Seq<u32>> {
    words_of(stdin_items(witnesses))
}

/// Lays the claims out as the values that the prover writes for the guest program.
pub fn build_stdin(witnesses: &[BalanceWitness]) -> (items: Vec<StdinItem>)
    ensures
        items@ == stdin_items(witnesses@),
        items@.len() == 1 + 3 * witnesses@.len(),
        items@[0] == StdinItem::U32((witnesses@.len() % 0x1_0000_0000) as u32),
        forall|i: int|
            0 <= i < witnesses@.len() ==> {
                &&& items@[3 * i + 1] == StdinItem::U64((#[trigger] witnesses@[i]).balance)
                &&& items@[3 * i + 2] == StdinItem::U64(witnesses@[i].nonce)
                &&& items@[3 * i + 3] == StdinItem::Bytes32(witnesses@[i].commitment)
            },
{
    proof {
        written_values_by_position(witnesses@);
    }
    let mut items: Vec<StdinItem> = Vec::new();
    let count: u64 = witnesses.len() as u64 % 0x1_0000_0000;
    items.push(StdinItem::U32(count as u32));
    let ghost head = items@;
    assert(witnesses@.take(0) =~= Seq::empty());
    assert(items@ =~= head + claim_items(witnesses@.take(0)));
    let mut i: usize = 0;
    while i < witnesses.len()
        invariant
            i <= witnesses@.len(),
            items@ == head + claim_items(witnesses@.take(i as int)),
        decreases witnesses@.len() - i,
    {
        items.push(StdinItem::U64(witnesses[i].balance));
        items.push(StdinItem::U64(witnesses[i].nonce));
        items.push(StdinItem::Bytes32(witnesses[i].commitment));
        i += 1;
        let ghost taken = witnesses@.take(i as int);
        assert(taken.drop_last() =~= witnesses@.take(i - 1));
        assert(items@ =~= head + claim_items(taken));
    }
    assert(witnesses@.take(i as int) =~= witnesses@);
    assert(items@ =~= stdin_items(witnesses@));
    items
}

// ---- The guest program ----------------------------------------------------------------------

/// What is wrong with a number of claims.
pub open spec fn size_error(n: u32) -> Option<BatchError> {
    if n == 0 {
        Some(BatchError::EmptyBatch)
    } else if n > MAX_PROOFS {
        Some(BatchError::TooManyProofs)
    } else {
        None
    }
}

/// What is wrong with a claim, the range being checked first.
pub open spec fn claim_error(claim: Claim, index: nat) -> Option<BatchError> {
    if claim.balance > MAX_BALANCE {
        Some(BatchError::BalanceOutOfRange { index: index as u32 })
    } else if claim.commitment != commitment(claim.balance, claim.nonce) {
        Some(BatchError::CommitmentMismatch { index: index as u32 })
    } else {
        None
    }
}

/// The number of claims that an input stream names, where it can be read.
pub open spec fn count_of(stream: Seq<Seq<u32>>) -> Option<u32> {
    if stream.len() > 0 {
        u32_at_front(stream[0])
    } else {
        None
    }
}

/// The claim with this index in an input stream, where its three values can be read.
pub open spec fn claim_at(stream: Seq<Seq<u32>>, index: nat) -> Option<Claim> {
    let at = 1 + 3 * index as int;
    if at + 2 < stream.len() {
        match (
            u64_at_front(stream[at]),
            u64_at_front(stream[at + 1]),
            bytes32_at_front(stream[at + 2]),
        ) {
            (Some(balance), Some(nonce), Some(commitment)) => Some(
                Claim { balance, nonce, commitment },
            ),
            _ => None,
        }
    } else {
        None
    }
}

/// The end of a run that has accepted the claims with the commitments `accepted` and has the
/// claims up to `n` before it.
pub open spec fn run_from(stream: Seq<Seq<u32>>, n: nat, accepted: Seq<Seq<u8>>) -> Result<
    Seq<u8>,
    BatchError,
>
    decreases n - accepted.len(),
{
    if accepted.len() >= n {
        Ok(batch_hash(accepted))
    } else {
        match claim_at(stream, accepted.len()) {
            None => Err(BatchError::MalformedInput),
            Some(claim) => match claim_error(claim, accepted.len()) {
                Some(error) => Err(error),
                None => run_from(stream, n, accepted.push(claim.commitment)),
            },
        }
    }
}

/// What the guest program makes of an input stream: the digest that it reveals, or why it stops.
pub open spec fn guest_outcome(stream: Seq<Seq<u32>>) -> Result<Seq<u8>, BatchError> {
    match count_of(stream) {
        None => Err(BatchError::MalformedInput),
        Some(n) => match size_error(n) {
            Some(error) => Err(error),
            None => run_from(stream, n as nat, Seq::empty()),
        },
    }
}

/// The state of the guest program between two claims.
pub struct BatchVerifier {
    /// The number of claims in the batch.
    pub n: u32,
    /// The commitments of the claims that were read and hold.
    pub accepted: Vec<[u8; 32]>,
}

impl BatchVerifier {
    /// The size of the batch is in bounds, and no more claims were accepted than it has.
    pub open spec fn wf(&self) -> bool {
        size_error(self.n) is None && self.commitments().len() <= self.n
    }

    /// The commitments of the claims that were accepted.
    pub open spec fn commitments(&self) -> Seq<Seq<u8>> {
        bytes_of(self.accepted@)
    }

    /// Starts on a batch of `n` claims.
    pub fn start(n: u32) -> (result: Result<BatchVerifier, BatchError>)
        ensures
            match result {
                Ok(state) => {
                    &&& size_error(n) is None
                    &&& state.wf()
                    &&& state.n == n
                    &&& state.commitments() == Seq::<Seq<u8>>::empty()
                },
                Err(error) => size_error(n) == Some(error),
            },
            match result {
                Ok(state) => 1 <= n <= 64 && state.n == n && state.accepted@.len() == 0,
                Err(error) => {
                    ||| n == 0 && error == BatchError::EmptyBatch
                    ||| n > 64 && error == BatchError::TooManyProofs
                },
            },
    {
        if n == 0 {
            Err(BatchError::EmptyBatch)
        } else if n > MAX_PROOFS {
            Err(BatchError::TooManyProofs)
        } else {
            Ok(BatchVerifier { n, accepted: Vec::new() })
        }
    }

    /// Checks the next claim and takes its commitment in.
    pub fn absorb(&mut self, witness: &BalanceWitness) -> (result: Result<(), BatchError>)
        requires
            old(self).wf(),
            old(self).commitments().len() < old(self).n,
        ensures
            final(self).wf(),
            final(self).n == old(self).n,
            match result {
                Ok(_) => {
                    &&& claim_error(witness@, old(self).commitments().len()) is None
                    &&& final(self).commitments() == old(self).commitments().push(
                        witness.commitment@,
                    )
                },
                Err(error) => {
                    &&& claim_error(witness@, old(self).commitments().len()) == Some(error)
                    &&& final(self).commitments() == old(self).commitments()
                },
            },
            match result {
                Ok(_) => {
                    &&& witness.balance <= 1_000_000_000_000
                    &&& witness.commitment@ == sha256_digest(
                        Seq::new(
                            16,
                            |k: int|
                                if k < 8 {
                                    ((witness.balance as int / pow(256, k as nat)) % 256) as u8
                                } else {
                                    ((witness.nonce as int / pow(256, (k - 8) as nat)) % 256) as u8
                                },
                        ),
                    )
                    &&& final(self).accepted@ == old(self).accepted@.push(witness.commitment)
                },
                Err(BatchError::BalanceOutOfRange { index }) => {
                    &&& witness.balance > 1_000_000_000_000
                    &&& index == old(self).accepted@.len()
                    &&& *final(self) == *old(self)
                },
                Err(BatchError::CommitmentMismatch { index }) => {
                    &&& witness.balance <= 1_000_000_000_000
                    &&& witness.commitment@ != sha256_digest(
                        Seq::new(
                            16,
                            |k: int|
                                if k < 8 {
                                    ((witness.balance as int / pow(256, k as nat)) % 256) as u8
                                } else {
                                    ((witness.nonce as int / pow(256, (k - 8) as nat)) % 256) as u8
                                },
                        ),
                    )
                    &&& index == old(self).accepted@.len()
                    &&& *final(self) == *old(self)
                },
                Err(_) => false,
            },
    {
        let balance: u64 = witness.balance;
        let nonce: u64 = witness.nonce;
        assert(Seq::new(
            16,
            |k: int|
                if k < 8 {
                    ((balance as int / pow(256, k as nat)) % 256) as u8
                } else {
                    ((nonce as int / pow(256, (k - 8) as nat)) % 256) as u8
                },
        ) =~= Seq::new(
            16,
            |k: int|
                if k < 8 {
                    ((witness.balance as int / pow(256, k as nat)) % 256) as u8
                } else {
                    ((witness.nonce as int / pow(256, (k - 8) as nat)) % 256) as u8
                },
        ));
        let index: u32 = self.accepted.len() as u32;
        if witness.balance > MAX_BALANCE {
            return Err(BatchError::BalanceOutOfRange { index });
        }
        let recomputed: [u8; 32] = commitment_of(balance, nonce);
        if !same_bytes(&recomputed, &witness.commitment) {
            return Err(BatchError::CommitmentMismatch { index });
        }
        self.accepted.push(witness.commitment);
        assert(self.commitments() =~= old(self).commitments().push(witness.commitment@));
        Ok(())
    }

    /// The digest to reveal once every claim was accepted.
    pub fn finish(&self) -> (digest: [u8; 32])
        requires
            self.wf(),
            self.commitments().len() == self.n,
        ensures
            digest@ == batch_hash(self.commitments()),
            digest@ == sha256_digest(
                Seq::new(
                    4 + 32 * self.accepted@.len(),
                    |k: int|
                        if k < 4 {
                            ((self.accepted@.len() as int / pow(256, k as nat)) % 256) as u8
                        } else {
                            self.accepted@[(k - 4) / 32]@[(k - 4) % 32]
                        },
                ),
            ),
    {
        let accepted: &Vec<[u8; 32]> = &self.accepted;
        assert(Seq::new(
            4 + 32 * accepted@.len(),
            |k: int|
                if k < 4 {
                    ((accepted@.len() as int / pow(256, k as nat)) % 256) as u8
                } else {
                    accepted@[(k - 4) / 32]@[(k - 4) % 32]
                },
        ) =~= Seq::new(
            4 + 32 * self.accepted@.len(),
            |k: int|
                if k < 4 {
                    ((self.accepted@.len() as int / pow(256, k as nat)) % 256) as u8
                } else {
                    self.accepted@[(k - 4) / 32]@[(k - 4) % 32]
                },
        ));
        aggregate_hash(accepted)
    }
}

/// Reads the claim with this index from an input stream.
fn read_claim(stream: &[Vec<u32>], index: u32) -> (claim: Option<BalanceWitness>)
    requires
        index < MAX_PROOFS,
    ensures
        match claim {
            Some(witness) => claim_at(word_lists(stream@), index as nat) == Some(witness@),
            None => claim_at(word_lists(stream@), index as nat) is None,
        },
{
    let at: usize = 1 + 3 * index as usize;
    if at + 2 >= stream.len() {
        return None;
    }
    let balance: u64 = match deserialize_u64(stream[at].as_slice()) {
        Ok(value) => value,
        Err(_) => return None,
    };
    let nonce: u64 = match deserialize_u64(stream[at + 1].as_slice()) {
        Ok(value) => value,
        Err(_) => return None,
    };
    match deserialize_bytes32(stream[at + 2].as_slice()) {
        Ok(commitment) => Some(BalanceWitness { balance, nonce, commitment }),
        Err(_) => None,
    }
}

/// Reads the number of claims from an input stream.
fn read_count(stream: &[Vec<u32>]) -> (count: Option<u32>)
    ensures
        count == count_of(word_lists(stream@)),
{
    if stream.len() == 0 {
        return None;
    }
    match deserialize_u32(stream[0].as_slice()) {
        Ok(count) => Some(count),
        Err(_) => None,
    }
}

/// Runs the guest program on an input stream, without a proof of the run.
pub fn run_guest(stream: &[Vec<u32>]) -> (result: Result<[u8; 32], BatchError>)
    ensures
        match result {
            Ok(digest) => guest_outcome(word_lists(stream@)) == Ok::<_, BatchError>(digest@),
            Err(error) => guest_outcome(word_lists(stream@)) == Err::<Seq<u8>, _>(error),
        },
{
    let n: u32 = match read_count(stream) {
        Some(n) => n,
        None => return Err(BatchError::MalformedInput),
    };
    let mut state: BatchVerifier = match BatchVerifier::start(n) {
        Ok(state) => state,
        Err(error) => return Err(error),
    };
    let ghost lists = word_lists(stream@);
    let mut index: u32 = 0;
    while index < n
        invariant
            state.wf(),
            state.n == n,
            index <= n <= MAX_PROOFS,
            state.commitments().len() == index,
            lists == word_lists(stream@),
            guest_outcome(lists) == run_from(lists, n as nat, state.commitments()),
        decreases n - index,
    {
        let witness: BalanceWitness = match read_claim(stream, index) {
            Some(witness) => witness,
            None => return Err(BatchError::MalformedInput),
        };
        match state.absorb(&witness) {
            Ok(_) => {},
            Err(error) => return Err(error),
        }
        index += 1;
    }
    Ok(state.finish())
}

// ---- Laws -------------------------------------------------------------------------------------

proof fn lemma_joined_injective(a: Seq<Seq<u8>>, b: Seq<Seq<u8>>)
    requires
        all_digests(a),
        all_digests(b),
        joined(a) == joined(b),
    ensures
        a == b,
    decreases a.len(),
{
    lemma_joined_length(a);
    lemma_joined_length(b);
    if a.len() > 0 {
        let rest_a = joined(a.drop_last());
        let rest_b = joined(b.drop_last());
        lemma_joined_length(a.drop_last());
        lemma_joined_length(b.drop_last());
        let cut = rest_a.len() as int;
        assert(joined(a).take(cut) =~= rest_a);
        assert(joined(b).take(cut) =~= rest_b);
        assert(joined(a).skip(cut) =~= a.last());
        assert(joined(b).skip(cut) =~= b.last());
        lemma_joined_injective(a.drop_last(), b.drop_last());
        assert(a =~= a.drop_last().push(a.last()));
        assert(b =~= b.drop_last().push(b.last()));
    } else {
        assert(a =~= b);
    }
}

proof fn lemma_joined_by_position(commitments: Seq<Seq<u8>>, k: int)
    requires
        all_digests(commitments),
        0 <= k < 32 * commitments.len(),
    ensures
        joined(commitments).len() == 32 * commitments.len(),
        joined(commitments)[k] == commitments[k / 32][k % 32],
    decreases commitments.len(),
{
    let rest = commitments.drop_last();
    lemma_joined_length(commitments);
    lemma_joined_length(rest);
    if k < 32 * rest.len() {
        lemma_joined_by_position(rest, k);
    }
}

/// The aggregate hash is the digest of the number of claims, in four little-endian bytes, and the
/// commitments in the order of the claims: byte `j` of commitment `i` stands at `4 + 32 · i + j`.
pub proof fn aggregate_hash_by_position(commitments: Seq<Seq<u8>>)
    requires
        forall|i: int| 0 <= i < commitments.len() ==> (#[trigger] commitments[i]).len() == 32,
    ensures
        batch_message(commitments).len() == 4 + 32 * commitments.len(),
        forall|k: int|
            0 <= k < 4 ==> #[trigger] batch_message(commitments)[k] == ((commitments.len() as int
                / pow(256, k as nat)) % 256) as u8,
        forall|i: int, j: int|
            0 <= i < commitments.len() && 0 <= j < 32 ==> batch_message(commitments)[4 + 32 * i
                + j] == #[trigger] commitments[i][j],
        batch_hash(commitments) == sha256_digest(
            Seq::new(
                4 + 32 * commitments.len(),
                |k: int|
                    if k < 4 {
                        ((commitments.len() as int / pow(256, k as nat)) % 256) as u8
                    } else {
                        commitments[(k - 4) / 32][(k - 4) % 32]
                    },
            ),
        ),
{
    let message = batch_message(commitments);
    let spelled = Seq::new(
        4 + 32 * commitments.len(),
        |k: int|
            if k < 4 {
                ((commitments.len() as int / pow(256, k as nat)) % 256) as u8
            } else {
                commitments[(k - 4) / 32][(k - 4) % 32]
            },
    );
    lemma_joined_length(commitments);
    le_bytes_length(commitments.len() as int, 4);
    le_bytes_by_position(commitments.len() as int, 4);
    assert forall|k: int| 0 <= k < message.len() implies message[k] == spelled[k] by {
        if k >= 4 {
            lemma_joined_by_position(commitments, k - 4);
        }
    }
    assert(message =~= spelled);
    assert forall|i: int, j: int| 0 <= i < commitments.len() && 0 <= j < 32 implies message[4 + 32
        * i + j] == #[trigger] commitments[i][j] by {
        assert((32 * i + j) / 32 == i && (32 * i + j) % 32 == j);
        assert(message[4 + 32 * i + j] == spelled[4 + 32 * i + j]);
    }
}

/// The aggregate hash of a batch is the digest of the number of its claims and of their
/// commitments, in the order in which the claims stand.
pub proof fn aggregate_hash_of_claims_by_position(witnesses: Seq<BalanceWitness>)
    ensures
        batch_hash(commitments_of(witnesses)) == sha256_digest(
            Seq::new(
                4 + 32 * witnesses.len(),
                |k: int|
                    if k < 4 {
                        ((witnesses.len() as int / pow(256, k as nat)) % 256) as u8
                    } else {
                        witnesses[(k - 4) / 32].commitment@[(k - 4) % 32]
                    },
            ),
        ),
{
    let commitments = commitments_of(witnesses);
    aggregate_hash_by_position(commitments);
    assert(Seq::new(
        4 + 32 * commitments.len(),
        |k: int|
            if k < 4 {
                ((commitments.len() as int / pow(256, k as nat)) % 256) as u8
            } else {
                commitments[(k - 4) / 32][(k - 4) % 32]
            },
    ) =~= Seq::new(
        4 + 32 * witnesses.len(),
        |k: int|
            if k < 4 {
                ((witnesses.len() as int / pow(256, k as nat)) % 256) as u8
            } else {
                witnesses[(k - 4) / 32].commitment@[(k - 4) % 32]
            },
    ));
}

/// The aggregate hash commits to the number of claims and to every commitment: two batches with
/// one hash agree in both, unless SHA-256 maps two different messages to one digest.
pub proof fn aggregate_hash_binds(a: Seq<Seq<u8>>, b: Seq<Seq<u8>>)
    requires
        all_digests(a),
        all_digests(b),
        batch_hash(a) == batch_hash(b),
    ensures
        a == b || (batch_message(a) != batch_message(b) && sha256_digest(batch_message(a))
            == sha256_digest(batch_message(b))),
{
    if batch_message(a) == batch_message(b) {
        le_bytes_length(a.len() as int, 4);
        le_bytes_length(b.len() as int, 4);
        assert(batch_message(a).skip(4) =~= joined(a));
        assert(batch_message(b).skip(4) =~= joined(b));
        lemma_joined_injective(a, b);
    }
}

proof fn lemma_claim_items(witnesses: Seq<BalanceWitness>, index: int)
    requires
        0 <= index < witnesses.len(),
    ensures
        claim_items(witnesses).len() == 3 * witnesses.len(),
        claim_items(witnesses)[3 * index] == StdinItem::U64(witnesses[index].balance),
        claim_items(witnesses)[3 * index + 1] == StdinItem::U64(witnesses[index].nonce),
        claim_items(witnesses)[3 * index + 2] == StdinItem::Bytes32(witnesses[index].commitment),
    decreases witnesses.len(),
{
    let rest = witnesses.drop_last();
    if rest.len() > 0 {
        lemma_claim_items(rest, if index < rest.len() { index } else { 0 });
    } else {
        assert(claim_items(rest) =~= Seq::empty());
    }
}

/// The prover writes the number of claims, cut to 32 bits, and then balance, nonce and commitment
/// of each claim in turn.
pub proof fn written_values_by_position(witnesses: Seq<BalanceWitness>)
    ensures
        stdin_items(witnesses).len() == 1 + 3 * witnesses.len(),
        stdin_items(witnesses)[0] == StdinItem::U32((witnesses.len() % 0x1_0000_0000) as u32),
        forall|i: int|
            0 <= i < witnesses.len() ==> {
                &&& stdin_items(witnesses)[3 * i + 1] == StdinItem::U64(
                    (#[trigger] witnesses[i]).balance,
                )
                &&& stdin_items(witnesses)[3 * i + 2] == StdinItem::U64(witnesses[i].nonce)
                &&& stdin_items(witnesses)[3 * i + 3] == StdinItem::Bytes32(witnesses[i].commitment)
            },
{
    if witnesses.len() > 0 {
        lemma_claim_items(witnesses, 0);
    }
    assert forall|i: int| 0 <= i < witnesses.len() implies {
        &&& stdin_items(witnesses)[3 * i + 1] == StdinItem::U64((#[trigger] witnesses[i]).balance)
        &&& stdin_items(witnesses)[3 * i + 2] == StdinItem::U64(witnesses[i].nonce)
        &&& stdin_items(witnesses)[3 * i + 3] == StdinItem::Bytes32(witnesses[i].commitment)
    } by {
        lemma_claim_items(witnesses, i);
    }
}

/// The guest reads back the number of claims and every claim that the prover wrote.
pub proof fn written_claims_are_read_back(witnesses: Seq<BalanceWitness>, index: nat)
    requires
        index < witnesses.len(),
    ensures
        count_of(stdin_words(witnesses)) == Some((witnesses.len() % 0x1_0000_0000) as u32),
        claim_at(stdin_words(witnesses), index) == Some(witnesses[index as int]@),
{
    lemma_claim_items(witnesses, index as int);
    let witness = witnesses[index as int];
    let items = stdin_items(witnesses);
    let at = 1 + 3 * index as int;
    assert(items[at] == claim_items(witnesses)[at - 1]);
    assert(items[at + 1] == claim_items(witnesses)[at]);
    assert(items[at + 2] == claim_items(witnesses)[at + 1]);
    u32_is_read_back((witnesses.len() % 0x1_0000_0000) as u32);
    u64_is_read_back(witness.balance);
    u64_is_read_back(witness.nonce);
    bytes32_are_read_back(witness.commitment);
}

/// A run that has accepted `done` claims accepts the ones up to `good` too, where these hold.
proof fn lemma_run_over_valid_claims(witnesses: Seq<BalanceWitness>, done: nat, good: nat)
    requires
        done <= good <= witnesses.len(),
        forall|i: int| done <= i < good ==> (#[trigger] witnesses[i]).is_valid(),
    ensures
        run_from(
            stdin_words(witnesses),
            witnesses.len(),
            commitments_of(witnesses).take(done as int),
        ) == run_from(
            stdin_words(witnesses),
            witnesses.len(),
            commitments_of(witnesses).take(good as int),
        ),
    decreases good - done,
{
    if done < good {
        let accepted = commitments_of(witnesses).take(done as int);
        written_claims_are_read_back(witnesses, done);
        assert(witnesses[done as int].is_valid());
        assert(accepted.push(witnesses[done as int].commitment@) =~= commitments_of(witnesses).take(
            (done + 1) as int,
        ));
        lemma_run_over_valid_claims(witnesses, done + 1, good);
    }
}

/// The guest accepts what the prover wrote for a batch of a permitted size whose claims all hold,
/// and reveals the aggregate hash that the prover expects.
pub proof fn valid_batch_is_accepted(witnesses: Seq<BalanceWitness>)
    requires
        1 <= witnesses.len() <= MAX_PROOFS,
        forall|i: int| 0 <= i < witnesses.len() ==> (#[trigger] witnesses[i]).is_valid(),
    ensures
        guest_outcome(stdin_words(witnesses)) == Ok::<_, BatchError>(
            batch_hash(commitments_of(witnesses)),
        ),
{
    lemma_run_over_valid_claims(witnesses, 0, witnesses.len());
    let all = commitments_of(witnesses);
    assert(all.take(0) =~= Seq::empty());
    assert(all.take(all.len() as int) =~= all);
}

/// The guest stops at the first claim that does not hold, and names it.
pub proof fn first_bad_claim_is_reported(witnesses: Seq<BalanceWitness>, bad: nat)
    requires
        witnesses.len() <= MAX_PROOFS,
        bad < witnesses.len(),
        forall|i: int| 0 <= i < bad ==> (#[trigger] witnesses[i]).is_valid(),
        !witnesses[bad as int].is_valid(),
    ensures
        guest_outcome(stdin_words(witnesses)) == Err::<Seq<u8>, _>(
            if witnesses[bad as int].balance > MAX_BALANCE {
                BatchError::BalanceOutOfRange { index: bad as u32 }
            } else {
                BatchError::CommitmentMismatch { index: bad as u32 }
            },
        ),
{
    lemma_run_over_valid_claims(witnesses, 0, bad);
    written_claims_are_read_back(witnesses, bad);
    let all = commitments_of(witnesses);
    assert(all.take(0) =~= Seq::empty());
}

/// The guest refuses a batch without claims, and one with too many.
pub proof fn batch_size_is_enforced(witnesses: Seq<BalanceWitness>)
    requires
        witnesses.len() <= u32::MAX,
    ensures
        witnesses.len() == 0 ==> guest_outcome(stdin_words(witnesses)) == Err::<Seq<u8>, _>(
            BatchError::EmptyBatch,
        ),
        witnesses.len() > MAX_PROOFS ==> guest_outcome(stdin_words(witnesses)) == Err::<
            Seq<u8>,
            _,
        >(BatchError::TooManyProofs),
{
}

/// Whether balance, nonce and commitment of the claim at `i` can be read from an input stream: two
/// words, two words, and 32 words that hold a byte each.
pub open spec fn claim_is_spelled(stream: Seq<Seq<u32>>, i: int) -> bool {
    &&& 3 * i + 3 < stream.len()
    &&& stream[3 * i + 1].len() >= 2 && stream[3 * i + 2].len() >= 2
    &&& stream[3 * i + 3].len() >= 32
    &&& forall|j: int| 0 <= j < 32 ==> #[trigger] stream[3 * i + 3][j] <= 255
}

/// The number that two words spell, the low half first.
pub open spec fn spelled_number(words: Seq<u32>) -> int {
    words[0] + 0x1_0000_0000 * words[1]
}

/// Whether the claim at `i` can be read from an input stream, has a balance of at most a trillion
/// micro-XLM, and carries the digest of its balance and its nonce.
pub open spec fn claim_stands(stream: Seq<Seq<u32>>, i: int) -> bool {
    &&& claim_is_spelled(stream, i)
    &&& spelled_number(stream[3 * i + 1]) <= 1_000_000_000_000
    &&& Seq::new(32, |j: int| stream[3 * i + 3][j] as u8) == sha256_digest(
        Seq::new(
            16,
            |k: int|
                if k < 8 {
                    ((spelled_number(stream[3 * i + 1]) / pow(256, k as nat)) % 256) as u8
                } else {
                    ((spelled_number(stream[3 * i + 2]) / pow(256, (k - 8) as nat)) % 256) as u8
                },
        ),
    )
}

proof fn lemma_claim_stands(stream: Seq<Seq<u32>>, i: int)
    requires
        i >= 0,
    ensures
        claim_is_spelled(stream, i) <==> claim_at(stream, i as nat) is Some,
        claim_at(stream, i as nat) matches Some(claim) ==> {
            &&& claim.balance == spelled_number(stream[3 * i + 1])
            &&& claim.commitment == Seq::new(32, |j: int| stream[3 * i + 3][j] as u8)
            &&& claim_stands(stream, i) <==> claim_error(claim, i as nat) is None
        },
{
    if let Some(claim) = claim_at(stream, i as nat) {
        let Claim { balance, nonce, commitment } = claim;
        commitment_by_position(balance, nonce);
        assert(Seq::new(
            16,
            |k: int|
                if k < 8 {
                    ((balance as int / pow(256, k as nat)) % 256) as u8
                } else {
                    ((nonce as int / pow(256, (k - 8) as nat)) % 256) as u8
                },
        ) =~= Seq::new(
            16,
            |k: int|
                if k < 8 {
                    ((spelled_number(stream[3 * i + 1]) / pow(256, k as nat)) % 256) as u8
                } else {
                    ((spelled_number(stream[3 * i + 2]) / pow(256, (k - 8) as nat)) % 256) as u8
                },
        ));
        assert(claim.commitment =~= Seq::new(32, |j: int| stream[3 * i + 3][j] as u8));
    }
}

/// The commitments of the first `n` claims of an input stream.
spec fn spelled_commitments(stream: Seq<Seq<u32>>, n: nat) -> Seq<Seq<u8>> {
    Seq::new(n, |i: int| Seq::new(32, |j: int| stream[3 * i + 3][j] as u8))
}

proof fn lemma_run_over_standing_claims(stream: Seq<Seq<u32>>, n: nat, done: nat, good: nat)
    requires
        done <= good <= n,
        forall|i: int| done <= i < good ==> #[trigger] claim_stands(stream, i),
    ensures
        run_from(stream, n, spelled_commitments(stream, done)) == run_from(
            stream,
            n,
            spelled_commitments(stream, good),
        ),
    decreases good - done,
{
    if done < good {
        assert(claim_stands(stream, done as int));
        lemma_claim_stands(stream, done as int);
        let claim = claim_at(stream, done)->0;
        assert(spelled_commitments(stream, done).push(claim.commitment) =~= spelled_commitments(
            stream,
            done + 1,
        ));
        lemma_run_over_standing_claims(stream, n, done + 1, good);
    }
}

/// What the guest makes of any input stream, word by word. Its first word is the number of claims,
/// from 1 to 64. Where all the claims stand, the guest reveals the digest of their number and of
/// their commitments in order; otherwise it stops at the first one that does not stand, because
/// its values cannot be read, or its balance is out of range, or its commitment is another.
pub proof fn guest_outcome_by_position(stream: Seq<Seq<u32>>)
    ensures
        stream.len() == 0 || stream[0].len() == 0 ==> guest_outcome(stream) == Err::<Seq<u8>, _>(
            BatchError::MalformedInput,
        ),
        stream.len() > 0 && stream[0].len() > 0 ==> {
            let n = stream[0][0] as nat;
            &&& n == 0 ==> guest_outcome(stream) == Err::<Seq<u8>, _>(BatchError::EmptyBatch)
            &&& n > 64 ==> guest_outcome(stream) == Err::<Seq<u8>, _>(BatchError::TooManyProofs)
            &&& 1 <= n <= 64 && (forall|i: int| 0 <= i < n ==> #[trigger] claim_stands(stream, i))
                ==> guest_outcome(stream) == Ok::<_, BatchError>(
                sha256_digest(
                    Seq::new(
                        4 + 32 * n,
                        |k: int|
                            if k < 4 {
                                ((n as int / pow(256, k as nat)) % 256) as u8
                            } else {
                                stream[3 * ((k - 4) / 32) + 3][(k - 4) % 32] as u8
                            },
                    ),
                ),
            )
            &&& 1 <= n <= 64 ==> forall|bad: int|
                0 <= bad < n && !(#[trigger] claim_stands(stream, bad)) && (forall|i: int|
                    0 <= i < bad ==> #[trigger] claim_stands(stream, i)) ==> guest_outcome(stream)
                    == Err::<Seq<u8>, _>(
                    if !claim_is_spelled(stream, bad) {
                        BatchError::MalformedInput
                    } else if spelled_number(stream[3 * bad + 1]) > 1_000_000_000_000 {
                        BatchError::BalanceOutOfRange { index: bad as u32 }
                    } else {
                        BatchError::CommitmentMismatch { index: bad as u32 }
                    },
                )
        },
{
    if stream.len() > 0 && stream[0].len() > 0 && 1 <= stream[0][0] <= 64 {
        let n = stream[0][0] as nat;
        assert(spelled_commitments(stream, 0) =~= Seq::empty());
        if forall|i: int| 0 <= i < n ==> #[trigger] claim_stands(stream, i) {
            lemma_run_over_standing_claims(stream, n, 0, n);
            let read = spelled_commitments(stream, n);
            aggregate_hash_by_position(read);
            assert(Seq::new(
                4 + 32 * read.len(),
                |k: int|
                    if k < 4 {
                        ((read.len() as int / pow(256, k as nat)) % 256) as u8
                    } else {
                        read[(k - 4) / 32][(k - 4) % 32]
                    },
            ) =~= Seq::new(
                4 + 32 * n,
                |k: int|
                    if k < 4 {
                        ((n as int / pow(256, k as nat)) % 256) as u8
                    } else {
                        stream[3 * ((k - 4) / 32) + 3][(k - 4) % 32] as u8
                    },
            ));
        }
        assert forall|bad: int|
            0 <= bad < n && !(#[trigger] claim_stands(stream, bad)) && (forall|i: int|
                0 <= i < bad ==> #[trigger] claim_stands(stream, i)) implies guest_outcome(stream)
            == Err::<Seq<u8>, _>(
            if !claim_is_spelled(stream, bad) {
                BatchError::MalformedInput
            } else if spelled_number(stream[3 * bad + 1]) > 1_000_000_000_000 {
                BatchError::BalanceOutOfRange { index: bad as u32 }
            } else {
                BatchError::CommitmentMismatch { index: bad as u32 }
            },
        ) by {
            lemma_run_over_standing_claims(stream, n, 0, bad as nat);
            lemma_claim_stands(stream, bad);
        }
    }
}

/// Whether `accepted` are the commitments of the first claims of the stream, all of which hold.
spec fn read_and_valid(stream: Seq<Seq<u32>>, accepted: Seq<Seq<u8>>) -> bool {
    forall|i: int|
        0 <= i < accepted.len() ==> {
            &&& #[trigger] claim_at(stream, i as nat) is Some
            &&& claim_at(stream, i as nat)->0.is_valid()
            &&& claim_at(stream, i as nat)->0.commitment == accepted[i]
        }
}

proof fn lemma_run_is_sound(stream: Seq<Seq<u32>>, n: nat, accepted: Seq<Seq<u8>>)
    requires
        run_from(stream, n, accepted) is Ok,
        n <= MAX_PROOFS,
        accepted.len() <= n,
        read_and_valid(stream, accepted),
    ensures
        forall|i: int|
            0 <= i < n ==> {
                &&& #[trigger] claim_at(stream, i as nat) is Some
                &&& claim_at(stream, i as nat)->0.is_valid()
            },
        run_from(stream, n, accepted) == Ok::<_, BatchError>(
            batch_hash(Seq::new(n, |i: int| claim_at(stream, i as nat)->0.commitment)),
        ),
    decreases n - accepted.len(),
{
    if accepted.len() >= n {
        assert(accepted =~= Seq::new(n, |i: int| claim_at(stream, i as nat)->0.commitment));
    } else {
        let claim = claim_at(stream, accepted.len())->0;
        let next = accepted.push(claim.commitment);
        lemma_run_is_sound(stream, n, next);
    }
}

/// Whatever the input stream, the guest reveals a digest only where the batch has a permitted size
/// and every claim that it read holds; the digest is then the aggregate hash of these claims.
pub proof fn revealed_hash_attests_claims(stream: Seq<Seq<u32>>)
    requires
        guest_outcome(stream) is Ok,
    ensures
        count_of(stream) is Some && 1 <= count_of(stream)->0 <= MAX_PROOFS,
        forall|i: int|
            0 <= i < count_of(stream)->0 ==> {
                &&& #[trigger] claim_at(stream, i as nat) is Some
                &&& claim_at(stream, i as nat)->0.is_valid()
            },
        guest_outcome(stream) == Ok::<_, BatchError>(
            batch_hash(
                Seq::new(
                    count_of(stream)->0 as nat,
                    |i: int| claim_at(stream, i as nat)->0.commitment,
                ),
            ),
        ),
{
    lemma_run_is_sound(stream, count_of(stream)->0 as nat, Seq::empty());
}

} // verus!
