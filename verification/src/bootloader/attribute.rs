//! The attributes that a bootloader reports of its board.

use vstd::prelude::*;
use vstd::utf8::{decode_utf8, valid_utf8};
use crate::bootloader::codes::{ESCAPE_CHAR, RESPONSE_GET_ATTRIBUTE};
use crate::errors::{MalformedResponse, TockloaderError};
use crate::utf8::decode;

verus! {

/// A key and a value that the bootloader keeps, such as the name of the
/// board.
#[derive(Debug)]
pub struct Attribute {
    pub key: String,
    pub value: String,
}

/// The bytes of `s` that are not NUL, in their order.
pub open spec fn without_nul(s: Seq<u8>) -> Seq<u8>
    decreases s.len(),
{
    if s.len() == 0 {
        s
    } else if s.last() == 0 {
        without_nul(s.drop_last())
    } else {
        without_nul(s.drop_last()).push(s.last())
    }
}

/// The key in a response: the 8 bytes after the response code, without
/// their padding.
pub open spec fn key_bytes(bytes: Seq<u8>) -> Seq<u8> {
    without_nul(bytes.subrange(2, 10))
}

/// The value in a response: the bytes after the length of the value, as
/// many as that length says, without their padding.
pub open spec fn value_bytes(bytes: Seq<u8>) -> Seq<u8> {
    without_nul(bytes.subrange(11, 11 + bytes[10]))
}

/// What a response to the request for an attribute holds: the key and the
/// value, or the first thing that is wrong with the response.
pub open spec fn parsed_attribute(bytes: Seq<u8>) -> Result<
    (Seq<char>, Seq<char>),
    MalformedResponse,
> {
    if bytes.len() < 1 {
        Err(MalformedResponse::Truncated(bytes.len() as usize))
    } else if bytes[0] != ESCAPE_CHAR {
        Err(MalformedResponse::UnexpectedStart(bytes[0]))
    } else if bytes.len() < 2 {
        Err(MalformedResponse::Truncated(bytes.len() as usize))
    } else if bytes[1] != RESPONSE_GET_ATTRIBUTE {
        Err(MalformedResponse::UnexpectedResponse(bytes[1]))
    } else if bytes.len() < 10 {
        Err(MalformedResponse::Truncated(bytes.len() as usize))
    } else if !valid_utf8(key_bytes(bytes)) {
        Err(MalformedResponse::KeyNotUtf8)
    } else if bytes.len() < 11 || bytes.len() < 11 + bytes[10] {
        Err(MalformedResponse::Truncated(bytes.len() as usize))
    } else if !valid_utf8(value_bytes(bytes)) {
        Err(MalformedResponse::ValueNotUtf8)
    } else {
        Ok((decode_utf8(key_bytes(bytes)), decode_utf8(value_bytes(bytes))))
    }
}

/// Copies the bytes of `bytes` from `from` up to `to` that are not NUL.
fn strip_nul(bytes: &Vec<u8>, from: usize, to: usize) -> (r: Vec<u8>)
    requires
        from <= to <= bytes@.len(),
    ensures
        r@ == without_nul(bytes@.subrange(from as int, to as int)),
{
    let mut out: Vec<u8> = Vec::new();
    let mut i: usize = from;
    proof {
        assert(bytes@.subrange(from as int, from as int) =~= Seq::<u8>::empty());
    }
    while i < to
        invariant
            from <= i <= to <= bytes@.len(),
            out@ == without_nul(bytes@.subrange(from as int, i as int)),
        decreases to - i,
    {
        let byte = bytes[i];
        proof {
            let next = bytes@.subrange(from as int, i + 1);
            assert(next.drop_last() =~= bytes@.subrange(from as int, i as int));
            assert(next.last() == byte);
        }
        if byte != 0 {
            out.push(byte);
        }
        i += 1;
    }
    out
}

impl Attribute {
    /// Reads an attribute out of the response to the request for it.
    ///
    /// The response starts with the sentinel and the response code. The key
    /// follows in 8 bytes, padded with NUL; then the length of the value in
    /// one byte, and the value in that many bytes, padded with NUL as well.
    /// What follows the value is not read. A response that ends too early
    /// is malformed.
    pub fn parse_raw(bytes: Vec<u8>) -> (r: Result<Attribute, TockloaderError>)
        ensures
            match parsed_attribute(bytes@) {
                Ok((key, value)) => r is Ok && r->Ok_0.key@ == key && r->Ok_0.value@ == value,
                Err(e) => r is Err && r->Err_0 == TockloaderError::MalformedResponse(e),
            },
    {
        let total = bytes.len();
        if total < 1 {
            return Err(TockloaderError::MalformedResponse(MalformedResponse::Truncated(total)));
        }
        if bytes[0] != ESCAPE_CHAR {
            return Err(
                TockloaderError::MalformedResponse(MalformedResponse::UnexpectedStart(bytes[0])),
            );
        }
        if total < 2 {
            return Err(TockloaderError::MalformedResponse(MalformedResponse::Truncated(total)));
        }
        if bytes[1] != RESPONSE_GET_ATTRIBUTE {
            return Err(
                TockloaderError::MalformedResponse(MalformedResponse::UnexpectedResponse(bytes[1])),
            );
        }
        if total < 10 {
            return Err(TockloaderError::MalformedResponse(MalformedResponse::Truncated(total)));
        }
        // The key, with NUL bytes as padding.
        let raw_key = strip_nul(&bytes, 2, 10);
        let key = match decode(raw_key.as_slice()) {
            Some(key) => key,
            None => {
                return Err(TockloaderError::MalformedResponse(MalformedResponse::KeyNotUtf8));
            },
        };
        if total < 11 {
            return Err(TockloaderError::MalformedResponse(MalformedResponse::Truncated(total)));
        }
        // The length of the value, without its padding.
        let len = bytes[10] as usize;
        if total - 11 < len {
            return Err(TockloaderError::MalformedResponse(MalformedResponse::Truncated(total)));
        }
        let raw_value = strip_nul(&bytes, 11, 11 + len);
        let value = match decode(raw_value.as_slice()) {
            Some(value) => value,
            None => {
                return Err(TockloaderError::MalformedResponse(MalformedResponse::ValueNotUtf8));
            },
        };
        Ok(Attribute { key, value })
    }
}

} // verus!
