//! Decoding of UTF-8 text.

use vstd::prelude::*;
use vstd::string::StringSliceAdditionalSpecFns;
use vstd::utf8::{decode_utf8, encode_utf8_decode_utf8, valid_utf8};

verus! {

/// Whether `n` is the length of the longest prefix of `b` that is UTF-8.
pub open spec fn valid_up_to(b: Seq<u8>, n: int) -> bool {
    &&& 0 <= n <= b.len()
    &&& valid_utf8(b.take(n))
    &&& forall|m: int| n < m <= b.len() ==> !valid_utf8(#[trigger] b.take(m))
}

/// Validates `b` as UTF-8 with `core::str::from_utf8`.
///
/// Trusted: the text comes back exactly when the bytes are UTF-8, and its
/// bytes are then the input. Otherwise the error carries what
/// `Utf8Error::valid_up_to` returns, which is documented as the greatest
/// index up to which the input is UTF-8.
#[verifier::external_body]
pub(crate) fn from_utf8<'a>(b: &'a [u8]) -> (r: Result<&'a str, usize>)
    ensures
        valid_utf8(b@) <==> r is Ok,
        r matches Ok(s) ==> s.spec_bytes() == b@,
        r matches Err(n) ==> valid_up_to(b@, n as int) && n < b@.len(),
{
    match core::str::from_utf8(b) {
        Ok(s) => Ok(s),
        Err(e) => Err(e.valid_up_to()),
    }
}

/// Decodes `b` as UTF-8 into a text of its own. Bytes that are not UTF-8
/// give `None`.
pub fn decode(b: &[u8]) -> (r: Option<String>)
    ensures
        valid_utf8(b@) ==> r is Some && r->Some_0@ == decode_utf8(b@),
        !valid_utf8(b@) ==> r is None,
{
    match from_utf8(b) {
        Ok(text) => {
            proof {
                encode_utf8_decode_utf8(text@);
            }
            Some(text.to_owned())
        },
        Err(_) => None,
    }
}

/// The length of the longest prefix of `b` that is UTF-8.
pub open spec fn valid_prefix_len(b: Seq<u8>) -> int {
    choose|n: int| valid_up_to(b, n)
}

/// Only one length is that of the longest prefix that is UTF-8.
pub proof fn lemma_valid_prefix_len(b: Seq<u8>, n: int)
    requires
        valid_up_to(b, n),
    ensures
        valid_prefix_len(b) == n,
{
    let m = valid_prefix_len(b);
    if m < n {
        assert(!valid_utf8(b.take(n)));
    } else if n < m {
        assert(!valid_utf8(b.take(m)));
    }
}

/// Replaces every occurrence of `from` in `s` by `to`, from the left; a
/// replaced occurrence is not searched again.
pub open spec fn replaced(s: Seq<char>, from: Seq<char>, to: Seq<char>) -> Seq<char>
    decreases s.len(),
{
    if from.len() == 0 || s.len() < from.len() {
        s
    } else if s.take(from.len() as int) == from {
        to + replaced(s.skip(from.len() as int), from, to)
    } else {
        seq![s[0]] + replaced(s.skip(1), from, to)
    }
}

/// Replaces every occurrence of `from` in `input` by `to`, with
/// `str::replace`.
///
/// Trusted: the matches are found from the left and do not overlap, as
/// documented, and all else is copied.
#[verifier::external_body]
pub(crate) fn replace(input: &str, from: &str, to: &str) -> (r: String)
    requires
        from@.len() > 0,
    ensures
        r@ == replaced(input@, from@, to@),
{
    input.replace(from, to)
}

/// The text of one character, made with `String::from`.
///
/// Trusted: the text holds the character and nothing else.
#[verifier::external_body]
pub(crate) fn char_to_string(c: char) -> (r: String)
    ensures
        r@ == seq![c],
{
    String::from(c)
}

} // verus!
