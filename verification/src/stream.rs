//! The input stream of the guest program: one list of 32-bit words for each value that the prover
//! writes.
//!
//! The words do not tell what they stand for. A read takes as many as the value that is asked for
//! has, from the front of the next list, and passes over the rest of that list. Inside the zkVM the
//! guest reads through `openvm::io::read`, which has the decoder of `openvm::serde::from_slice`.

use vstd::prelude::*;

verus! {

/// Why openvm cannot turn a value into words, or words into a value.
#[verifier::external_type_specification]
#[verifier::external_body]
pub struct ExSerdeError(openvm::serde::Error);

/// The words of a `u32`: the number itself.
pub open spec fn u32_words(value: u32) -> Seq<u32> {
    seq![value]
}

/// The words of a `u64`: the low half and then the high half.
pub open spec fn u64_words(value: u64) -> Seq<u32> {
    seq![(value % 0x1_0000_0000) as u32, (value / 0x1_0000_0000) as u32]
}

/// The words of an array of bytes: one for each byte.
pub open spec fn bytes_words(value: Seq<u8>) -> Seq<u32> {
    Seq::new(value.len(), |i: int| value[i] as u32)
}

/// The `u32` at the front of `words`.
pub open spec fn u32_at_front(words: Seq<u32>) -> Option<u32> {
    if words.len() >= 1 {
        Some(words[0])
    } else {
        None
    }
}

/// The `u64` at the front of `words`.
pub open spec fn u64_at_front(words: Seq<u32>) -> Option<u64> {
    if words.len() >= 2 {
        Some((words[0] + 0x1_0000_0000 * words[1]) as u64)
    } else {
        None
    }
}

/// The 32 bytes at the front of `words`, where each of the words holds a byte.
pub open spec fn bytes32_at_front(words: Seq<u32>) -> Option<Seq<u8>> {
    if words.len() >= 32 && forall|i: int| 0 <= i < 32 ==> #[trigger] words[i] <= u8::MAX {
        Some(Seq::new(32, |i: int| words[i] as u8))
    } else {
        None
    }
}

/// Calls `openvm::serde::to_vec` on a `u32`.
///
/// Claimed: it succeeds, with the number as the only word.
#[verifier::external_body]
pub(crate) fn serialize_u32(value: u32) -> (result: Result<Vec<u32>, openvm::serde::Error>)
    ensures
        result is Ok,
        result->Ok_0@ == u32_words(value),
{
    openvm::serde::to_vec(&value)
}

/// Calls `openvm::serde::to_vec` on a `u64`.
///
/// Claimed: it succeeds, with the two halves of the number, the low one first.
#[verifier::external_body]
pub(crate) fn serialize_u64(value: u64) -> (result: Result<Vec<u32>, openvm::serde::Error>)
    ensures
        result is Ok,
        result->Ok_0@ == u64_words(value),
{
    openvm::serde::to_vec(&value)
}

/// Calls `openvm::serde::to_vec` on an array of 32 bytes.
///
/// Claimed: it succeeds, with one word for each byte and no length before them.
#[verifier::external_body]
pub(crate) fn serialize_bytes32(value: &[u8; 32]) -> (result: Result<
    Vec<u32>,
    openvm::serde::Error,
>)
    ensures
        result is Ok,
        result->Ok_0@ == bytes_words(value@),
{
    openvm::serde::to_vec(value)
}

/// Calls `openvm::serde::from_slice` for a `u32`.
///
/// Claimed: the number is the first word; the words behind it are not looked at. It fails where
/// there is no word.
#[verifier::external_body]
pub(crate) fn deserialize_u32(words: &[u32]) -> (result: Result<u32, openvm::serde::Error>)
    ensures
        match result {
            Ok(value) => u32_at_front(words@) == Some(value),
            Err(_) => u32_at_front(words@) is None,
        },
{
    openvm::serde::from_slice(words)
}

/// Calls `openvm::serde::from_slice` for a `u64`.
///
/// Claimed: the first word is the low half of the number and the second one the high half; the
/// words behind them are not looked at. It fails where there are fewer than two words.
#[verifier::external_body]
pub(crate) fn deserialize_u64(words: &[u32]) -> (result: Result<u64, openvm::serde::Error>)
    ensures
        match result {
            Ok(value) => u64_at_front(words@) == Some(value),
            Err(_) => u64_at_front(words@) is None,
        },
{
    openvm::serde::from_slice(words)
}

/// Calls `openvm::serde::from_slice` for an array of 32 bytes.
///
/// Claimed: each of the first 32 words gives one byte; the words behind them are not looked at. It
/// fails where there are fewer words, and where one of them is above the largest byte.
#[verifier::external_body]
pub(crate) fn deserialize_bytes32(words: &[u32]) -> (result: Result<
    [u8; 32],
    openvm::serde::Error,
>)
    ensures
        match result {
            Ok(value) => bytes32_at_front(words@) == Some(value@),
            Err(_) => bytes32_at_front(words@) is None,
        },
{
    openvm::serde::from_slice(words)
}

/// One value that the prover writes to the stream.
#[derive(Clone, Copy, Debug, PartialEq, Eq)]
pub enum StdinItem {
    U32(u32),
    U64(u64),
    Bytes32([u8; 32]),
}

impl StdinItem {
    /// The words of the value.
    pub open spec fn words(self) -> Seq<u32> {
        match self {
            StdinItem::U32(value) => u32_words(value),
            StdinItem::U64(value) => u64_words(value),
            StdinItem::Bytes32(value) => bytes_words(value@),
        }
    }

    /// Turns the value into its words.
    pub fn serialize(&self) -> (words: Vec<u32>)
        ensures
            words@ == self.words(),
            match *self {
                StdinItem::U32(value) => words@ == seq![value],
                StdinItem::U64(value) => words@.len() == 2 && words@[0] + 0x1_0000_0000 * words@[1]
                    == value,
                StdinItem::Bytes32(value) => words@.len() == 32 && forall|i: int|
                    0 <= i < 32 ==> #[trigger] words@[i] == value@[i],
            },
    {
        match self {
            StdinItem::U32(value) => serialize_u32(*value).unwrap(),
            StdinItem::U64(value) => serialize_u64(*value).unwrap(),
            StdinItem::Bytes32(value) => serialize_bytes32(value).unwrap(),
        }
    }
}

/// The words of each value.
pub open spec fn words_of(items: Seq<StdinItem>) -> Seq<Seq<u32>> {
    Seq::new(items.len(), |i: int| items[i].words())
}

/// The lists of words that a stream holds.
pub open spec fn word_lists(stream: Seq<Vec<u32>>) -> Seq<Seq<u32>> {
    Seq::new(stream.len(), |i: int| stream[i]@)
}

/// Turns the values that the prover writes into the stream that the guest program reads.
pub fn serialize_stdin(items: &[StdinItem]) -> (stream: Vec<Vec<u32>>)
    ensures
        word_lists(stream@) == words_of(items@),
        stream@.len() == items@.len(),
        forall|i: int| 0 <= i < items@.len() ==> (#[trigger] stream@[i])@ == items@[i].words(),
{
    let mut stream: Vec<Vec<u32>> = Vec::new();
    let mut i: usize = 0;
    while i < items.len()
        invariant
            i <= items@.len(),
            word_lists(stream@) == words_of(items@).take(i as int),
        decreases items@.len() - i,
    {
        let ghost before = stream@;
        let words: Vec<u32> = items[i].serialize();
        stream.push(words);
        i += 1;
        assert(word_lists(stream@) =~= word_lists(before).push(words@));
        assert(word_lists(stream@) =~= words_of(items@).take(i as int));
    }
    assert(word_lists(stream@) =~= words_of(items@));
    assert(stream@.len() == word_lists(stream@).len());
    assert forall|i: int| 0 <= i < items@.len() implies (#[trigger] stream@[i])@
        == items@[i].words() by {
        assert(word_lists(stream@)[i] == words_of(items@)[i]);
    }
    stream
}

/// The words of a value: a `u32` is one word, a `u64` is two words that add up to it, the second
/// one counting for 2 to the power 32, and an array is one word for each byte.
pub proof fn words_by_position(item: StdinItem)
    ensures
        match item {
            StdinItem::U32(value) => item.words() == seq![value],
            StdinItem::U64(value) => item.words().len() == 2 && item.words()[0] + 0x1_0000_0000
                * item.words()[1] == value,
            StdinItem::Bytes32(value) => item.words().len() == 32 && forall|i: int|
                0 <= i < 32 ==> #[trigger] item.words()[i] == value@[i],
        },
{
}

/// A stream holds its lists, and the words of the values written to it, in the order in which they
/// were written.
pub proof fn lists_by_position(stream: Seq<Vec<u32>>, items: Seq<StdinItem>)
    ensures
        word_lists(stream).len() == stream.len(),
        forall|i: int| 0 <= i < stream.len() ==> word_lists(stream)[i] == (#[trigger] stream[i])@,
        words_of(items).len() == items.len(),
        forall|i: int|
            0 <= i < items.len() ==> words_of(items)[i] == (#[trigger] items[i]).words(),
{
}

/// A `u32` is read back from its words.
pub proof fn u32_is_read_back(value: u32)
    ensures
        u32_at_front(u32_words(value)) == Some(value),
{
}

/// A `u64` is read back from its words.
pub proof fn u64_is_read_back(value: u64)
    ensures
        u64_at_front(u64_words(value)) == Some(value),
{
}

/// An array of 32 bytes is read back from its words.
pub proof fn bytes32_are_read_back(value: [u8; 32])
    ensures
        bytes32_at_front(bytes_words(value@)) == Some(value@),
{
    let words = bytes_words(value@);
    assert forall|i: int| 0 <= i < 32 implies #[trigger] words[i] <= u8::MAX by {
        assert(words[i] == value@[i] as u32);
    }
    assert(bytes32_at_front(words)->0 =~= value@);
}

} // verus!
