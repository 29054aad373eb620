//! The frames of the bootloader protocol, and what the answer to a request
//! means.
//!
//! A request is a payload, if the command has one, then the sentinel and
//! the command. A response is the sentinel, the response code and a payload.
//! Sending and receiving are left to the transport.

use vstd::prelude::*;
use vstd::slice::slice_subrange;
use vstd::slice::slice_to_vec;
use crate::bootloader::attribute::{parsed_attribute, Attribute};
use crate::bootloader::codes::{
    COMMAND_GET_ATTRIBUTE,
    COMMAND_PING,
    COMMAND_RESET,
    ESCAPE_CHAR,
    RESPONSE_PONG,
};
use crate::errors::TockloaderError;

verus! {

/// How long the answer to a request is waited for, in milliseconds.
pub const RESPONSE_TIMEOUT_MILLIS: u64 = 1000;

/// What came back from the board after a request.
#[derive(Debug)]
pub enum Received {
    /// A frame.
    Frame(Vec<u8>),
    /// Nothing: the stream has ended.
    Closed,
    /// Nothing within the time allowed.
    TimedOut,
}

/// The frame of a request: the payload, the sentinel, the command.
pub fn encode_request(payload: &[u8], command: u8) -> (frame: Vec<u8>)
    ensures
        frame@ == payload@ + seq![ESCAPE_CHAR, command],
{
    let mut frame = slice_to_vec(payload);
    frame.push(ESCAPE_CHAR);
    frame.push(command);
    proof {
        assert(frame@ =~= payload@ + seq![ESCAPE_CHAR, command]);
    }
    frame
}

/// Whether `frame` has the shape of a response: the sentinel, then a
/// response code.
pub open spec fn is_response(frame: Seq<u8>) -> bool {
    frame.len() >= 2 && frame[0] == ESCAPE_CHAR
}

/// Takes a response apart into its response code and its payload. A frame
/// that does not start with the sentinel and a code is no response.
pub fn decode_response(frame: &[u8]) -> (r: Option<(u8, Vec<u8>)>)
    ensures
        is_response(frame@) ==> r is Some && r->Some_0.0 == frame@[1] && r->Some_0.1@
            == frame@.skip(2),
        !is_response(frame@) ==> r is None,
{
    if frame.len() < 2 || frame[0] != ESCAPE_CHAR {
        return None;
    }
    let payload = slice_to_vec(slice_subrange(frame, 2, frame.len()));
    proof {
        assert(payload@ =~= frame@.skip(2));
    }
    Some((frame[1], payload))
}

/// The request that asks the bootloader whether it is there.
pub fn ping_request() -> (frame: Vec<u8>)
    ensures
        frame@ == seq![0xFCu8, 0x01u8],
{
    let mut frame = Vec::new();
    frame.push(ESCAPE_CHAR);
    frame.push(COMMAND_PING);
    proof {
        assert(frame@ =~= seq![0xFCu8, 0x01u8]);
    }
    frame
}

/// The request that makes the bootloader drop what it has read of a command
/// so far. It is sent before a new exchange, and has no response.
pub fn sync_request() -> (frame: Vec<u8>)
    ensures
        frame@ == seq![0x00u8, 0xFCu8, 0x05u8],
{
    let mut frame = Vec::new();
    frame.push(0x00);
    frame.push(ESCAPE_CHAR);
    frame.push(COMMAND_RESET);
    proof {
        assert(frame@ =~= seq![0x00u8, 0xFCu8, 0x05u8]);
    }
    frame
}

/// The request for the attribute at `index`.
pub fn get_attribute_request(index: u8) -> (frame: Vec<u8>)
    ensures
        frame@ == seq![index, 0xFCu8, 0x14u8],
{
    let mut frame = Vec::new();
    frame.push(index);
    frame.push(ESCAPE_CHAR);
    frame.push(COMMAND_GET_ATTRIBUTE);
    proof {
        assert(frame@ =~= seq![index, 0xFCu8, 0x14u8]);
    }
    frame
}

/// The frames that ask for the attribute at `index`, in the order in which
/// they are sent: the sync request, so that the bootloader starts afresh,
/// then the request itself. Only the second is answered.
pub fn get_attribute_exchange(index: u8) -> (frames: Vec<Vec<u8>>)
    ensures
        frames@.len() == 2,
        frames@[0]@ == seq![0x00u8, 0xFCu8, 0x05u8],
        frames@[1]@ == seq![index, 0xFCu8, 0x14u8],
{
    let mut frames: Vec<Vec<u8>> = Vec::new();
    frames.push(sync_request());
    frames.push(get_attribute_request(index));
    frames
}

/// Whether `frame` is the answer to a ping: the sentinel and the pong code,
/// and nothing else.
pub fn is_pong(frame: &[u8]) -> (r: bool)
    ensures
        r == (frame@ == seq![ESCAPE_CHAR, RESPONSE_PONG]),
{
    let r = frame.len() == 2 && frame[0] == ESCAPE_CHAR && frame[1] == RESPONSE_PONG;
    proof {
        if r {
            assert(frame@ =~= seq![ESCAPE_CHAR, RESPONSE_PONG]);
        }
    }
    r
}

/// Whether the bootloader answered a ping. No answer is an answer here: a
/// board in an unknown state may well be silent, so neither silence nor a
/// frame that is no pong is an error.
pub fn ping_outcome(received: &Received) -> (alive: bool)
    ensures
        alive == (received matches Received::Frame(frame) && frame@ == seq![
            ESCAPE_CHAR,
            RESPONSE_PONG,
        ]),
{
    match received {
        Received::Frame(frame) => is_pong(frame.as_slice()),
        Received::Closed => false,
        Received::TimedOut => false,
    }
}

/// What the answer to the request for an attribute gives. The request is
/// made of a board that is taken to respond, so silence is an error here:
/// `Timeout` when the time ran out, `BootloaderNotOpen` when the stream
/// ended.
pub fn attribute_outcome(received: Received) -> (r: Result<Attribute, TockloaderError>)
    ensures
        match received {
            Received::Frame(frame) => match parsed_attribute(frame@) {
                Ok((key, value)) => r is Ok && r->Ok_0.key@ == key && r->Ok_0.value@ == value,
                Err(e) => r is Err && r->Err_0 == TockloaderError::MalformedResponse(e),
            },
            Received::Closed => r is Err && r->Err_0 == TockloaderError::BootloaderNotOpen,
            Received::TimedOut => r is Err && r->Err_0 == TockloaderError::Timeout,
        },
{
    match received {
        Received::Frame(frame) => Attribute::parse_raw(frame),
        Received::Closed => Err(TockloaderError::BootloaderNotOpen),
        Received::TimedOut => Err(TockloaderError::Timeout),
    }
}

} // verus!
