//! Byte encodings: little-endian integers and hexadecimal text.

use vstd::arithmetic::div_mod::*;
use vstd::arithmetic::power::*;
use vstd::prelude::*;

verus! {

/// The low `width` bytes of `value`, in little-endian order.
pub open spec fn le_bytes(value: int, width: nat) -> Seq<u8>
    decreases width,
{
    if width == 0 {
        Seq::empty()
    } else {
        seq![(value % 256) as u8] + le_bytes(value / 256, (width - 1) as nat)
    }
}

/// The digit that hexadecimal text, in lower case, has for `value`.
pub open spec fn hex_digit(value: int) -> char {
    if value < 10 {
        ('0' as int + value) as char
    } else {
        ('a' as int + value - 10) as char
    }
}

/// The hexadecimal text of `data`: two digits for each byte, the higher one first.
pub open spec fn hex_text(data: Seq<u8>) -> Seq<char> {
    Seq::new(
        2 * data.len(),
        |i: int|
            if i % 2 == 0 {
                hex_digit(data[i / 2] as int / 16)
            } else {
                hex_digit(data[i / 2] as int % 16)
            },
    )
}

/// Calls `hex::encode`.
///
/// Claimed: the result is the lower-case hexadecimal text of `data`. The bound on the length keeps
/// the text within what a `String` can hold.
#[verifier::external_body]
pub(crate) fn hex_encode(data: &[u8]) -> (text: String)
    requires
        data@.len() <= 0x3fff_ffff,
    ensures
        text@ == hex_text(data@),
{
    hex::encode(data)
}

/// The decimal digits of `value`, without leading zeros.
pub open spec fn decimal_text(value: nat) -> Seq<char>
    decreases value,
{
    let last = ('0' as int + value % 10) as char;
    if value < 10 {
        seq![last]
    } else {
        decimal_text(value / 10).push(last)
    }
}

/// Appends one decimal digit to `text`.
fn push_digit(text: &mut String, digit: usize)
    requires
        digit < 10,
    ensures
        final(text)@ == old(text)@.push(('0' as int + digit) as char),
{
    proof {
        reveal_strlit("0");
        reveal_strlit("1");
        reveal_strlit("2");
        reveal_strlit("3");
        reveal_strlit("4");
        reveal_strlit("5");
        reveal_strlit("6");
        reveal_strlit("7");
        reveal_strlit("8");
        reveal_strlit("9");
    }
    let symbol: &str = match digit {
        0 => "0",
        1 => "1",
        2 => "2",
        3 => "3",
        4 => "4",
        5 => "5",
        6 => "6",
        7 => "7",
        8 => "8",
        _ => "9",
    };
    text.append(symbol);
    assert(text@ =~= old(text)@.push(('0' as int + digit) as char));
}

/// Appends the decimal digits of `value` to `text`.
pub(crate) fn push_decimal(text: &mut String, value: usize)
    ensures
        final(text)@ == old(text)@ + decimal_text(value as nat),
    decreases value,
{
    if value >= 10 {
        push_decimal(text, value / 10);
    }
    push_digit(text, value % 10);
    assert(text@ =~= old(text)@ + decimal_text(value as nat));
}

/// Appends the low `width` bytes of `value` to `buffer`, in little-endian order.
pub(crate) fn push_le(buffer: &mut Vec<u8>, value: u64, width: usize)
    ensures
        final(buffer)@ == old(buffer)@ + le_bytes(value as int, width as nat),
{
    let mut rest: u64 = value;
    let mut left: usize = width;
    while left > 0
        invariant
            left <= width,
            old(buffer)@ + le_bytes(value as int, width as nat) == buffer@ + le_bytes(
                rest as int,
                left as nat,
            ),
        decreases left,
    {
        let ghost before = buffer@;
        let ghost tail = le_bytes(rest as int / 256, (left - 1) as nat);
        buffer.push((rest % 256) as u8);
        assert(buffer@ + tail =~= before + (seq![(rest as int % 256) as u8] + tail));
        rest = rest / 256;
        left = left - 1;
    }
    assert(buffer@ + le_bytes(rest as int, 0) =~= buffer@);
}

/// Appends the bytes of `data` to `buffer`.
pub(crate) fn push_all(buffer: &mut Vec<u8>, data: &[u8; 32])
    ensures
        final(buffer)@ == old(buffer)@ + data@,
{
    let mut i: usize = 0;
    assert(buffer@ =~= old(buffer)@ + data@.take(0));
    while i < 32
        invariant
            i <= 32,
            buffer@ == old(buffer)@ + data@.take(i as int),
        decreases 32 - i,
    {
        buffer.push(data[i]);
        i += 1;
        assert(data@.take(i as int) =~= data@.take(i - 1).push(data@[i - 1]));
        assert(buffer@ =~= old(buffer)@ + data@.take(i as int));
    }
    assert(data@.take(32) =~= data@);
}

/// Whether two digests are equal, byte for byte.
pub(crate) fn same_bytes(left: &[u8; 32], right: &[u8; 32]) -> (same: bool)
    ensures
        same == (left@ == right@),
{
    let mut i: usize = 0;
    while i < 32
        invariant
            i <= 32,
            forall|j: int| 0 <= j < i ==> left@[j] == right@[j],
        decreases 32 - i,
    {
        if left[i] != right[i] {
            return false;
        }
        i += 1;
    }
    assert(left@ =~= right@);
    true
}

/// 256 to the power `width`: the number of values that `width` bytes can spell.
pub open spec fn byte_range(width: nat) -> int
    decreases width,
{
    if width == 0 {
        1
    } else {
        256 * byte_range((width - 1) as nat)
    }
}

/// `le_bytes` gives as many bytes as it is asked for.
pub proof fn le_bytes_length(value: int, width: nat)
    ensures
        le_bytes(value, width).len() == width,
    decreases width,
{
    if width > 0 {
        le_bytes_length(value / 256, (width - 1) as nat);
    }
}

/// Two numbers that fit in `width` bytes are equal where their little-endian bytes are.
pub proof fn le_bytes_injective(a: int, b: int, width: nat)
    requires
        0 <= a < byte_range(width),
        0 <= b < byte_range(width),
        le_bytes(a, width) == le_bytes(b, width),
    ensures
        a == b,
    decreases width,
{
    if width > 0 {
        let rest = (width - 1) as nat;
        let tail_a = le_bytes(a / 256, rest);
        let tail_b = le_bytes(b / 256, rest);
        assert(le_bytes(a, width)[0] == (a % 256) as u8);
        assert(le_bytes(b, width)[0] == (b % 256) as u8);
        assert(le_bytes(a, width).skip(1) =~= tail_a);
        assert(le_bytes(b, width).skip(1) =~= tail_b);
        le_bytes_injective(a / 256, b / 256, rest);
    }
}

/// Little-endian bytes by their positions: the byte at `i` is the digit of `value` for 256 to the
/// power `i`.
pub proof fn le_bytes_by_position(value: int, width: nat)
    requires
        value >= 0,
    ensures
        le_bytes(value, width) == Seq::new(
            width,
            |i: int| ((value / pow(256, i as nat)) % 256) as u8,
        ),
    decreases width,
{
    lemma_pow0(256);
    let spelled = Seq::new(width, |i: int| ((value / pow(256, i as nat)) % 256) as u8);
    if width > 0 {
        let rest = (width - 1) as nat;
        le_bytes_by_position(value / 256, rest);
        le_bytes_length(value / 256, rest);
        assert forall|i: int| 0 <= i < width implies le_bytes(value, width)[i] == spelled[i] by {
            if i > 0 {
                let power = pow(256, (i - 1) as nat);
                lemma_pow_positive(256, (i - 1) as nat);
                reveal(pow);
                assert(pow(256, i as nat) == 256 * power);
                lemma_div_denominator(value, 256, power);
                assert(le_bytes(value, width)[i] == le_bytes(value / 256, rest)[i - 1]);
            }
        }
    }
    assert(le_bytes(value, width) =~= spelled);
}

/// Decimal text by its positions: it has as many digits as the number needs, and each is the digit
/// for ten to the power of how many come behind it.
pub proof fn decimal_text_by_position(value: nat)
    ensures
        decimal_text(value).len() >= 1,
        value < pow(10, decimal_text(value).len()),
        value == 0 || value >= pow(10, (decimal_text(value).len() - 1) as nat),
        value == 0 ==> decimal_text(value).len() == 1,
        forall|i: int|
            0 <= i < decimal_text(value).len() ==> #[trigger] decimal_text(value)[i] == ('0' as int
                + (value as int / pow(10, (decimal_text(value).len() - 1 - i) as nat))
                % 10) as char,
    decreases value,
{
    reveal(pow);
    lemma_pow0(10);
    lemma_pow1(10);
    let text = decimal_text(value);
    if value >= 10 {
        let rest = decimal_text(value / 10);
        decimal_text_by_position(value / 10);
        assert(pow(10, text.len()) == 10 * pow(10, rest.len()));
        assert(pow(10, rest.len()) == 10 * pow(10, (rest.len() - 1) as nat));
        assert forall|i: int| 0 <= i < text.len() implies #[trigger] text[i] == ('0' as int + (
        value as int / pow(10, (text.len() - 1 - i) as nat)) % 10) as char by {
            if i < rest.len() {
                let power = pow(10, (rest.len() - 1 - i) as nat);
                lemma_pow_positive(10, (rest.len() - 1 - i) as nat);
                assert(pow(10, (text.len() - 1 - i) as nat) == 10 * power);
                lemma_div_denominator(value as int, 10, power);
                assert(text[i] == rest[i]);
            } else {
                assert(pow(10, (text.len() - 1 - i) as nat) == 1);
                assert(value as int / 1 == value);
            }
        }
    } else {
        assert(text =~= seq![('0' as int + value) as char]);
        assert(value as int / pow(10, 0) == value);
    }
}

/// Hexadecimal text by its positions: the byte at `i` stands at `2 · i`, as the digit for its high
/// half and then the digit for its low half.
pub proof fn hex_text_by_position(data: Seq<u8>)
    ensures
        hex_text(data).len() == 2 * data.len(),
        forall|i: int|
            0 <= i < data.len() ==> {
                &&& hex_text(data)[2 * i] == "0123456789abcdef"@[#[trigger] data[i] as int / 16]
                &&& hex_text(data)[2 * i + 1] == "0123456789abcdef"@[data[i] as int % 16]
            },
{
    reveal_strlit("0123456789abcdef");
    assert forall|v: int| 0 <= v < 16 implies #[trigger] hex_digit(v) == "0123456789abcdef"@[v] by {
    }
}

} // verus!
