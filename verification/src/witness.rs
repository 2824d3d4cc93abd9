//! Balance witnesses: a secret balance and nonce, and the commitment that binds them.

use crate::digest::{sha256, sha256_digest};
use crate::encoding::{
    byte_range, hex_encode, hex_text, le_bytes, le_bytes_by_position, le_bytes_injective,
    le_bytes_length, push_le,
};
use crate::random::{
    draw_in_range, draw_u64, seed_generator, seeded_words, skip_words, uniform_draw, upcoming,
};
use rand::rngs::StdRng;
use vstd::arithmetic::power::pow;
use vstd::prelude::*;
use vstd::slice::slice_subrange;

verus! {

/// The largest balance that a claim may have, in micro-XLM.
pub const MAX_BALANCE: u64 = 1_000_000_000_000;

/// The message whose digest commits to a balance: the balance and then the nonce, eight
/// little-endian bytes each.
pub open spec fn commitment_message(balance: u64, nonce: u64) -> Seq<u8> {
    le_bytes(balance as int, 8) + le_bytes(nonce as int, 8)
}

/// The commitment to `balance` under `nonce`.
pub open spec fn commitment(balance: u64, nonce: u64) -> Seq<u8> {
    sha256_digest(commitment_message(balance, nonce))
}

/// The witness of one balance claim.
#[derive(Clone, Copy, Debug)]
pub struct BalanceWitness {
    /// The secret balance.
    pub balance: u64,
    /// The secret nonce that hides the balance in the commitment.
    pub nonce: u64,
    /// The public commitment to the balance.
    pub commitment: [u8; 32],
}

/// A balance claim: the values of its witness.
#[verifier::ext_equal]
pub struct Claim {
    pub balance: u64,
    pub nonce: u64,
    pub commitment: Seq<u8>,
}

impl Claim {
    /// Whether the claim holds: the balance is in range, and the commitment is the one to this
    /// balance and nonce.
    pub open spec fn is_valid(self) -> bool {
        &&& self.balance <= MAX_BALANCE
        &&& self.commitment == commitment(self.balance, self.nonce)
    }
}

impl View for BalanceWitness {
    type V = Claim;

    open spec fn view(&self) -> Claim {
        Claim { balance: self.balance, nonce: self.nonce, commitment: self.commitment@ }
    }
}

impl BalanceWitness {
    /// Whether the claim of this witness holds.
    pub open spec fn is_valid(&self) -> bool {
        self@.is_valid()
    }

    /// The witness of `balance` under `nonce`.
    pub fn new(balance: u64, nonce: u64) -> (witness: Self)
        ensures
            witness.balance == balance,
            witness.nonce == nonce,
            witness.commitment@ == commitment(balance, nonce),
            witness.commitment@ == sha256_digest(
                Seq::new(
                    16,
                    |i: int|
                        if i < 8 {
                            ((balance as int / pow(256, i as nat)) % 256) as u8
                        } else {
                            ((nonce as int / pow(256, (i - 8) as nat)) % 256) as u8
                        },
                ),
            ),
    {
        BalanceWitness { balance, nonce, commitment: commitment_of(balance, nonce) }
    }

    /// The first four bytes of the commitment as hexadecimal text, by which a listing shows it.
    pub fn short_commitment(&self) -> (text: String)
        ensures
            text@ == hex_text(self.commitment@.subrange(0, 4)),
    {
        hex_encode(slice_subrange(self.commitment.as_slice(), 0, 4))
    }
}

/// Computes the commitment to `balance` under `nonce`.
pub fn commitment_of(balance: u64, nonce: u64) -> (digest: [u8; 32])
    ensures
        digest@ == commitment(balance, nonce),
        digest@ == sha256_digest(
            Seq::new(
                16,
                |i: int|
                    if i < 8 {
                        ((balance as int / pow(256, i as nat)) % 256) as u8
                    } else {
                        ((nonce as int / pow(256, (i - 8) as nat)) % 256) as u8
                    },
            ),
        ),
{
    proof {
        commitment_by_position(balance, nonce);
    }
    let mut message: Vec<u8> = Vec::new();
    push_le(&mut message, balance, 8);
    push_le(&mut message, nonce, 8);
    proof {
        le_bytes_length(balance as int, 8);
        le_bytes_length(nonce as int, 8);
    }
    assert(message@ =~= commitment_message(balance, nonce));
    sha256(message.as_slice())
}

/// The words that are left of `words` once `count` witnesses have been drawn. A witness takes a
/// uniform draw for its balance and then one word for its nonce.
pub open spec fn words_after(words: Map<nat, u64>, count: nat) -> Map<nat, u64>
    decreases count,
{
    if count == 0 {
        words
    } else {
        let left = words_after(words, (count - 1) as nat);
        skip_words(
            skip_words(left, uniform_draw(left, 1, MAX_BALANCE).1),
            1,
        )
    }
}

/// The balance of the witness drawn from `words`.
pub open spec fn drawn_balance(words: Map<nat, u64>) -> u64 {
    uniform_draw(words, 1, MAX_BALANCE).0
}

/// The nonce of the witness drawn from `words`.
pub open spec fn drawn_nonce(words: Map<nat, u64>) -> u64 {
    words[uniform_draw(words, 1, MAX_BALANCE).1]
}

/// Draws `n` witnesses from the generator that `seed` makes. All of them are valid, and none has
/// an empty balance.
pub fn generate_witnesses(n: usize, seed: u64) -> (witnesses: Vec<BalanceWitness>)
    ensures
        witnesses@.len() == n,
        forall|i: int|
            0 <= i < n ==> {
                let words = words_after(seeded_words(seed), i as nat);
                &&& (#[trigger] witnesses@[i]).balance == drawn_balance(words)
                &&& witnesses@[i].nonce == drawn_nonce(words)
                &&& witnesses@[i].balance >= 1
                &&& witnesses@[i].is_valid()
            },
        exists|left: Seq<Map<nat, u64>>|
            #![trigger left.len()]
            {
                &&& left.len() == n + 1
                &&& left[0] == seeded_words(seed)
                &&& forall|i: int|
                    0 <= i < n ==> {
                        let draw = uniform_draw(left[i], 1, 1_000_000_000_000);
                        &&& (#[trigger] witnesses@[i]).balance == draw.0
                        &&& witnesses@[i].nonce == left[i][draw.1]
                        &&& left[i + 1] == skip_words(left[i], draw.1 + 1)
                    }
            },
        forall|i: int|
            0 <= i < n ==> {
                &&& 1 <= (#[trigger] witnesses@[i]).balance <= 1_000_000_000_000
                &&& witnesses@[i].commitment@ == sha256_digest(
                    Seq::new(
                        16,
                        |k: int|
                            if k < 8 {
                                ((witnesses@[i].balance as int / pow(256, k as nat)) % 256) as u8
                            } else {
                                ((witnesses@[i].nonce as int / pow(256, (k - 8) as nat))
                                    % 256) as u8
                            },
                    ),
                )
            },
{
    let mut rng: StdRng = seed_generator(seed);
    let ghost seeded = seeded_words(seed);
    let mut witnesses: Vec<BalanceWitness> = Vec::new();
    let mut i: usize = 0;
    while i < n
        invariant
            i <= n,
            witnesses@.len() == i,
            seeded == seeded_words(seed),
            upcoming(rng) == words_after(seeded, i as nat),
            forall|j: int|
                0 <= j < i ==> {
                    let words = words_after(seeded, j as nat);
                    &&& (#[trigger] witnesses@[j]).balance == drawn_balance(words)
                    &&& witnesses@[j].nonce == drawn_nonce(words)
                    &&& witnesses@[j].balance >= 1
                    &&& witnesses@[j].is_valid()
                },
        decreases n - i,
    {
        let balance: u64 = draw_in_range(&mut rng, 1, MAX_BALANCE);
        let nonce: u64 = draw_u64(&mut rng);
        witnesses.push(BalanceWitness::new(balance, nonce));
        i += 1;
    }
    proof {
        let left = Seq::new((n + 1) as nat, |k: int| words_after(seeded, k as nat));
        assert forall|k: int| 0 <= k < n implies {
            let draw = uniform_draw(left[k], 1, 1_000_000_000_000);
            &&& (#[trigger] witnesses@[k]).balance == draw.0
            &&& witnesses@[k].nonce == left[k][draw.1]
            &&& left[k + 1] == skip_words(left[k], draw.1 + 1)
        } by {
            witnesses_are_drawn_in_turn(seeded, k as nat);
        }
        assert(left.len() == n + 1);
        assert forall|k: int| 0 <= k < n implies (#[trigger] witnesses@[k]).commitment@
            == sha256_digest(
            Seq::new(
                16,
                |j: int|
                    if j < 8 {
                        ((witnesses@[k].balance as int / pow(256, j as nat)) % 256) as u8
                    } else {
                        ((witnesses@[k].nonce as int / pow(256, (j - 8) as nat)) % 256) as u8
                    },
            ),
        ) by {
            validity_by_position(witnesses@[k]@);
        }
    }
    witnesses
}

/// A commitment is the digest of sixteen bytes: the byte at `i` is the digit of the balance for 256
/// to the power `i`, and the byte at `8 + i` is the one of the nonce.
pub proof fn commitment_by_position(balance: u64, nonce: u64)
    ensures
        commitment(balance, nonce) == sha256_digest(
            Seq::new(
                16,
                |i: int|
                    if i < 8 {
                        ((balance as int / pow(256, i as nat)) % 256) as u8
                    } else {
                        ((nonce as int / pow(256, (i - 8) as nat)) % 256) as u8
                    },
            ),
        ),
{
    le_bytes_by_position(balance as int, 8);
    le_bytes_by_position(nonce as int, 8);
    assert(commitment_message(balance, nonce) =~= Seq::new(
        16,
        |i: int|
            if i < 8 {
                ((balance as int / pow(256, i as nat)) % 256) as u8
            } else {
                ((nonce as int / pow(256, (i - 8) as nat)) % 256) as u8
            },
    ));
}

/// A claim holds exactly where its balance is at most a trillion micro-XLM and its commitment is
/// the digest of the balance and the nonce, eight little-endian bytes each.
pub proof fn validity_by_position(claim: Claim)
    ensures
        claim.is_valid() <==> {
            &&& claim.balance <= 1_000_000_000_000
            &&& claim.commitment == sha256_digest(
                Seq::new(
                    16,
                    |i: int|
                        if i < 8 {
                            ((claim.balance as int / pow(256, i as nat)) % 256) as u8
                        } else {
                            ((claim.nonce as int / pow(256, (i - 8) as nat)) % 256) as u8
                        },
                ),
            )
        },
{
    let Claim { balance, nonce, commitment } = claim;
    commitment_by_position(balance, nonce);
    assert(Seq::new(
        16,
        |i: int|
            if i < 8 {
                ((balance as int / pow(256, i as nat)) % 256) as u8
            } else {
                ((nonce as int / pow(256, (i - 8) as nat)) % 256) as u8
            },
    ) =~= Seq::new(
        16,
        |i: int|
            if i < 8 {
                ((claim.balance as int / pow(256, i as nat)) % 256) as u8
            } else {
                ((claim.nonce as int / pow(256, (i - 8) as nat)) % 256) as u8
            },
    ));
}

/// Witnesses are drawn one after the other from the words of the seed: a balance between one and a
/// trillion takes a uniform draw, the nonce is the word behind it, and the next witness starts on
/// the word behind that.
pub proof fn witnesses_are_drawn_in_turn(words: Map<nat, u64>, count: nat)
    ensures
        words_after(words, 0) == words,
        ({
            let left = words_after(words, count);
            let draw = uniform_draw(left, 1, 1_000_000_000_000);
            &&& drawn_balance(left) == draw.0
            &&& drawn_nonce(left) == left[draw.1]
            &&& words_after(words, count + 1) == skip_words(left, draw.1 + 1)
        }),
{
    let left = words_after(words, count);
    let draw = uniform_draw(left, 1, 1_000_000_000_000);
    assert(skip_words(skip_words(left, draw.1), 1) =~= skip_words(left, draw.1 + 1));
}

/// Equal commitments come from equal claims, unless SHA-256 maps two different messages to one
/// digest.
pub proof fn commitment_binds(balance_a: u64, nonce_a: u64, balance_b: u64, nonce_b: u64)
    requires
        commitment(balance_a, nonce_a) == commitment(balance_b, nonce_b),
    ensures
        (balance_a == balance_b && nonce_a == nonce_b) || (commitment_message(balance_a, nonce_a)
            != commitment_message(balance_b, nonce_b) && sha256_digest(
            commitment_message(balance_a, nonce_a),
        ) == sha256_digest(commitment_message(balance_b, nonce_b))),
{
    let a = commitment_message(balance_a, nonce_a);
    let b = commitment_message(balance_b, nonce_b);
    if a == b {
        le_bytes_length(balance_a as int, 8);
        le_bytes_length(balance_b as int, 8);
        assert(a.take(8) =~= le_bytes(balance_a as int, 8));
        assert(b.take(8) =~= le_bytes(balance_b as int, 8));
        assert(a.skip(8) =~= le_bytes(nonce_a as int, 8));
        assert(b.skip(8) =~= le_bytes(nonce_b as int, 8));
        reveal_with_fuel(byte_range, 9);
        le_bytes_injective(balance_a as int, balance_b as int, 8);
        le_bytes_injective(nonce_a as int, nonce_b as int, 8);
    }
}

} // verus!
