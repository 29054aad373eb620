//! The codecs of the serial transport: how the bytes that wait in a buffer
//! become frames or text, and how frames and text become bytes.

use vstd::pervasive::unreached;
use vstd::prelude::*;
use vstd::slice::slice_subrange;
use vstd::slice::slice_to_vec;
use vstd::utf8::{decode_utf8, encode_utf8, encode_utf8_decode_utf8};
use crate::errors::TockloaderError;
use crate::utf8::{
    decode,
    from_utf8,
    lemma_valid_prefix_len,
    replace,
    replaced,
    valid_prefix_len,
};

verus! {

/// The buffer of the `bytes` crate in which the transport collects what it
/// has read and what it is about to write.
#[verifier::external_type_specification]
#[verifier::external_body]
pub struct ExBytesMut(bytes::BytesMut);

/// The bytes that a buffer holds, the oldest first.
pub uninterp spec fn buffered(buffer: bytes::BytesMut) -> Seq<u8>;

/// `BytesMut::is_empty` tells whether the buffer holds no byte.
pub assume_specification[ bytes::BytesMut::is_empty ](buffer: &bytes::BytesMut) -> (r: bool)
    ensures
        r == (buffered(*buffer).len() == 0),
;

/// `BytesMut::clear` removes every byte from the buffer.
pub assume_specification[ bytes::BytesMut::clear ](buffer: &mut bytes::BytesMut)
    ensures
        buffered(*final(buffer)) == Seq::<u8>::empty(),
;

/// The bytes of the buffer as a slice, which `BytesMut` gives by `Deref`.
/// The buffer is not changed.
#[verifier::external_body]
fn contents(buffer: &bytes::BytesMut) -> (r: &[u8])
    ensures
        r@ == buffered(*buffer),
{
    &buffer[..]
}

/// `Buf::advance` on a `BytesMut` drops the first `count` bytes of the
/// buffer and keeps the others. It panics when the buffer holds fewer.
#[verifier::external_body]
fn advance(buffer: &mut bytes::BytesMut, count: usize)
    requires
        count <= buffered(*old(buffer)).len(),
    ensures
        buffered(*final(buffer)) == buffered(*old(buffer)).skip(count as int),
{
    bytes::Buf::advance(buffer, count)
}

/// `BufMut::put` on a `BytesMut`, with a slice, appends the bytes of the
/// slice to the buffer, which grows as needed.
#[verifier::external_body]
fn put(buffer: &mut bytes::BytesMut, item: &[u8])
    ensures
        buffered(*final(buffer)) == buffered(*old(buffer)) + item@,
{
    bytes::BufMut::put(buffer, item)
}

/// The codec of the bootloader protocol: a frame is whatever bytes have
/// arrived.
#[derive(Clone, Copy, Debug)]
pub struct BinaryCodec;

impl BinaryCodec {
    /// Takes all the bytes that wait in `source` as one frame. An empty
    /// buffer gives no frame. The bytes are copied and stay in the buffer.
    pub fn decode(&mut self, source: &mut bytes::BytesMut) -> (r: Result<
        Option<Vec<u8>>,
        TockloaderError,
    >)
        ensures
            buffered(*final(source)) == buffered(*old(source)),
            r is Ok,
            buffered(*old(source)).len() == 0 ==> r->Ok_0 is None,
            buffered(*old(source)).len() > 0 ==> r->Ok_0 is Some && r->Ok_0->Some_0@ == buffered(
                *old(source),
            ),
    {
        if source.is_empty() {
            return Ok(None);
        }
        Ok(Some(slice_to_vec(contents(source))))
    }

    /// Appends the frame `item` to `dst` as it is.
    pub fn encode(&mut self, item: &[u8], dst: &mut bytes::BytesMut) -> (r: Result<
        (),
        TockloaderError,
    >)
        ensures
            r is Ok,
            buffered(*final(dst)) == buffered(*old(dst)) + item@,
    {
        put(dst, item);
        Ok(())
    }
}

/// The text that waits in a buffer: its longest prefix that is UTF-8. The
/// bytes after it may be the start of a character whose end has not
/// arrived yet.
pub open spec fn waiting_text(bytes: Seq<u8>) -> Seq<char> {
    decode_utf8(bytes.take(valid_prefix_len(bytes)))
}

/// Takes the text that waits in `source` out of it. Where the buffer does
/// not start with a whole character, nothing is taken.
fn take_text(source: &mut bytes::BytesMut) -> (r: Option<String>)
    ensures
        valid_prefix_len(buffered(*old(source))) == 0 ==> r is None && buffered(*final(source))
            == buffered(*old(source)),
        valid_prefix_len(buffered(*old(source))) > 0 ==> r is Some && r->Some_0@ == waiting_text(
            buffered(*old(source)),
        ) && buffered(*final(source)) == buffered(*old(source)).skip(
            valid_prefix_len(buffered(*old(source))),
        ),
{
    let ghost before = buffered(*source);
    if source.is_empty() {
        proof {
            assert(before.take(0) =~= before);
            lemma_valid_prefix_len(before, 0);
        }
        return None;
    }
    // There may be an incomplete character at the end, so as much is read
    // as can be.
    match from_utf8(contents(source)) {
        Ok(text) => {
            let result = text.to_owned();
            proof {
                assert(before.take(before.len() as int) =~= before);
                lemma_valid_prefix_len(before, before.len() as int);
                encode_utf8_decode_utf8(text@);
                assert(before.skip(before.len() as int) =~= Seq::<u8>::empty());
            }
            source.clear();
            Some(result)
        },
        Err(index) => {
            proof {
                lemma_valid_prefix_len(before, index as int);
            }
            if index == 0 {
                // More bytes are needed before anything can be read.
                return None;
            }
            let head = slice_subrange(contents(source), 0, index);
            proof {
                assert(head@ =~= before.take(index as int));
            }
            let result = match decode(head) {
                Some(text) => text,
                None => unreached(),
            };
            advance(source, index);
            Some(result)
        },
    }
}

/// The codec of the console of a board: text in UTF-8, passed on as it is.
#[derive(Clone, Copy, Debug)]
pub struct TerminalCodec;

impl TerminalCodec {
    /// Takes the text that waits in `source` out of it. Bytes at the end
    /// that are not yet a whole character stay in the buffer. Where the
    /// buffer does not start with a whole character, nothing is taken.
    pub fn decode(&mut self, source: &mut bytes::BytesMut) -> (r: Result<
        Option<String>,
        TockloaderError,
    >)
        ensures
            r is Ok,
            valid_prefix_len(buffered(*old(source))) == 0 ==> r->Ok_0 is None && buffered(
                *final(source),
            ) == buffered(*old(source)),
            valid_prefix_len(buffered(*old(source))) > 0 ==> r->Ok_0 is Some && r->Ok_0->Some_0@
                == waiting_text(buffered(*old(source))) && buffered(*final(source)) == buffered(
                *old(source),
            ).skip(valid_prefix_len(buffered(*old(source)))),
    {
        Ok(take_text(source))
    }

    /// Appends the bytes of `item` to `dst`.
    pub fn encode(&mut self, item: String, dst: &mut bytes::BytesMut) -> (r: Result<
        (),
        TockloaderError,
    >)
        ensures
            r is Ok,
            buffered(*final(dst)) == buffered(*old(dst)) + encode_utf8(item@),
    {
        put(dst, item.as_str().as_bytes());
        Ok(())
    }
}

/// The codec of a console whose output is shown on a terminal: text in
/// UTF-8, with line ends that every terminal takes and without NUL.
#[derive(Clone, Copy, Debug)]
pub struct LineCodec;

/// Text as a terminal shows it: every line feed follows a carriage return,
/// and the symbol for NUL stands in place of every NUL.
pub open spec fn cleaned(input: Seq<char>) -> Seq<char> {
    replaced(replaced(input, "\n"@, "\r\n"@), "\x00"@, "\u{2400}"@)
}

impl LineCodec {
    /// Makes the line ends of `input` the same for every system, and
    /// replaces NUL by a character that can be deleted.
    ///
    /// A kernel echoes a backspace as backspace, space, backspace, NUL,
    /// backspace, space, backspace. The backspace moves the cursor and the
    /// space overwrites. A terminal cannot delete the NUL, so two
    /// characters would go at once, in the end those of the prompt. The
    /// symbol for NUL takes its place.
    pub fn clean_input(input: &str) -> (r: String)
        ensures
            r@ == cleaned(input@),
    {
        proof {
            reveal_strlit("\n");
            reveal_strlit("\x00");
        }
        let lines = replace(input, "\n", "\r\n");
        replace(lines.as_str(), "\x00", "\u{2400}")
    }

    /// Takes the text that waits in `source` out of it, cleaned for the
    /// terminal. Bytes at the end that are not yet a whole character stay
    /// in the buffer. Where the buffer does not start with a whole
    /// character, nothing is taken.
    pub fn decode(&mut self, source: &mut bytes::BytesMut) -> (r: Result<
        Option<String>,
        TockloaderError,
    >)
        ensures
            r is Ok,
            valid_prefix_len(buffered(*old(source))) == 0 ==> r->Ok_0 is None && buffered(
                *final(source),
            ) == buffered(*old(source)),
            valid_prefix_len(buffered(*old(source))) > 0 ==> r->Ok_0 is Some && r->Ok_0->Some_0@
                == cleaned(waiting_text(buffered(*old(source)))) && buffered(*final(source))
                == buffered(*old(source)).skip(valid_prefix_len(buffered(*old(source)))),
    {
        match take_text(source) {
            Some(text) => Ok(Some(LineCodec::clean_input(text.as_str()))),
            None => Ok(None),
        }
    }

    /// Appends the bytes of `item` to `dst`.
    pub fn encode(&mut self, item: String, dst: &mut bytes::BytesMut) -> (r: Result<
        (),
        TockloaderError,
    >)
        ensures
            r is Ok,
            buffered(*final(dst)) == buffered(*old(dst)) + encode_utf8(item@),
    {
        put(dst, item.as_str().as_bytes());
        Ok(())
    }
}

} // verus!
