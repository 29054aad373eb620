//! The building of the texts of errors, as bytes of UTF-8.

use vstd::pervasive::unreached;
use vstd::prelude::*;
use vstd::utf8::{
    decode_utf8,
    encode_utf8,
    encode_utf8_valid_utf8,
    partial_valid_utf8_extend_ascii_block,
    valid_utf8,
    valid_utf8_concat,
};
use crate::utf8::decode;

verus! {

/// The bytes of a text.
pub open spec fn text(chars: Seq<char>) -> Seq<u8> {
    encode_utf8(chars)
}

/// The digits of `n` to the base 10, as characters, the most significant
/// first.
pub open spec fn decimal_digits(n: nat) -> Seq<u8>
    decreases n,
{
    if n < 10 {
        seq![(48 + n) as u8]
    } else {
        decimal_digits(n / 10).push((48 + n % 10) as u8)
    }
}

/// The digit `d` of the base 16 as a character, the letters in lower case.
pub open spec fn hex_digit(d: nat) -> u8 {
    if d < 10 {
        (48 + d) as u8
    } else {
        (87 + d) as u8
    }
}

/// The digits of `n` to the base 16, as characters, the most significant
/// first.
pub open spec fn hex_digits(n: nat) -> Seq<u8>
    decreases n,
{
    if n < 16 {
        seq![hex_digit(n)]
    } else {
        hex_digits(n / 16).push(hex_digit(n % 16))
    }
}

/// `n` to the base 16 after the prefix `0x`.
pub open spec fn hex_number(n: nat) -> Seq<u8> {
    seq![48u8, 120u8] + hex_digits(n)
}

/// Bytes below 128 are UTF-8.
pub proof fn lemma_ascii_is_utf8(bytes: Seq<u8>)
    requires
        forall|i: int| 0 <= i < bytes.len() ==> bytes[i] < 128,
    ensures
        valid_utf8(bytes),
{
    assert(bytes.subrange(0, 0) =~= Seq::<u8>::empty());
    assert(valid_utf8(Seq::<u8>::empty()));
    partial_valid_utf8_extend_ascii_block(bytes, 0, bytes.len() as int);
    assert(bytes.subrange(0, bytes.len() as int) =~= bytes);
}

/// Appends the bytes of `piece` to `out`.
pub(crate) fn push_text(out: &mut Vec<u8>, piece: &str)
    requires
        valid_utf8(old(out)@),
    ensures
        final(out)@ == old(out)@ + text(piece@),
        valid_utf8(final(out)@),
{
    let bytes = piece.as_bytes();
    let ghost before = out@;
    let mut i: usize = 0;
    while i < bytes.len()
        invariant
            i <= bytes@.len(),
            out@ == before + bytes@.take(i as int),
        decreases bytes@.len() - i,
    {
        out.push(bytes[i]);
        proof {
            assert(out@ =~= before + bytes@.take(i + 1));
        }
        i += 1;
    }
    proof {
        assert(bytes@.take(bytes@.len() as int) =~= bytes@);
        encode_utf8_valid_utf8(piece@);
        valid_utf8_concat(before, bytes@);
    }
}

/// The digits to the base 10 are characters of ASCII.
pub proof fn lemma_decimal_digits_ascii(n: nat)
    ensures
        forall|i: int| 0 <= i < decimal_digits(n).len() ==> decimal_digits(n)[i] < 128,
    decreases n,
{
    let digits = decimal_digits(n);
    if n >= 10 {
        lemma_decimal_digits_ascii(n / 10);
        let front = decimal_digits(n / 10);
        assert forall|i: int| 0 <= i < digits.len() implies digits[i] < 128 by {
            if i < front.len() {
                assert(digits[i] == front[i]);
            }
        }
    }
}

/// The digits to the base 16 are characters of ASCII.
pub proof fn lemma_hex_digits_ascii(n: nat)
    ensures
        forall|i: int| 0 <= i < hex_digits(n).len() ==> hex_digits(n)[i] < 128,
    decreases n,
{
    let digits = hex_digits(n);
    if n >= 16 {
        lemma_hex_digits_ascii(n / 16);
        let front = hex_digits(n / 16);
        assert forall|i: int| 0 <= i < digits.len() implies digits[i] < 128 by {
            if i < front.len() {
                assert(digits[i] == front[i]);
            }
        }
    }
}

/// Appends the digits of `n` to the base 10 to `out`.
fn push_decimal_digits(out: &mut Vec<u8>, n: u64)
    ensures
        final(out)@ == old(out)@ + decimal_digits(n as nat),
    decreases n,
{
    let ghost before = out@;
    if n >= 10 {
        push_decimal_digits(out, n / 10);
    }
    out.push(48 + (n % 10) as u8);
    proof {
        assert(out@ =~= before + decimal_digits(n as nat));
    }
}

/// Appends the digits of `n` to the base 16 to `out`.
fn push_hex_digits(out: &mut Vec<u8>, n: u32)
    ensures
        final(out)@ == old(out)@ + hex_digits(n as nat),
    decreases n,
{
    let ghost before = out@;
    if n >= 16 {
        push_hex_digits(out, n / 16);
    }
    let digit = (n % 16) as u8;
    if digit < 10 {
        out.push(48 + digit);
    } else {
        out.push(87 + digit);
    }
    proof {
        assert(out@ =~= before + hex_digits(n as nat));
    }
}

/// Appends `n` to the base 10 to `out`.
pub(crate) fn push_decimal(out: &mut Vec<u8>, n: u64)
    requires
        valid_utf8(old(out)@),
    ensures
        final(out)@ == old(out)@ + decimal_digits(n as nat),
        valid_utf8(final(out)@),
{
    push_decimal_digits(out, n);
    proof {
        lemma_decimal_digits_ascii(n as nat);
        lemma_ascii_is_utf8(decimal_digits(n as nat));
        valid_utf8_concat(old(out)@, decimal_digits(n as nat));
    }
}

/// Appends `n` to the base 16 to `out`, after the prefix `0x`.
pub(crate) fn push_hex(out: &mut Vec<u8>, n: u32)
    requires
        valid_utf8(old(out)@),
    ensures
        final(out)@ == old(out)@ + hex_number(n as nat),
        valid_utf8(final(out)@),
{
    let ghost before = out@;
    out.push(48);
    out.push(120);
    push_hex_digits(out, n);
    proof {
        assert(out@ =~= before + hex_number(n as nat));
        lemma_hex_digits_ascii(n as nat);
        lemma_ascii_is_utf8(hex_number(n as nat));
        valid_utf8_concat(before, hex_number(n as nat));
    }
}

/// The text that `bytes` are.
pub(crate) fn into_text(bytes: Vec<u8>) -> (r: String)
    requires
        valid_utf8(bytes@),
    ensures
        r@ == decode_utf8(bytes@),
{
    match decode(bytes.as_slice()) {
        Some(text) => text,
        None => unreached(),
    }
}

} // verus!
