//! The errors of the bootloader protocol and of the command line.

use vstd::prelude::*;
use vstd::utf8::{decode_utf8, valid_utf8};
use crate::bootloader::codes::{ESCAPE_CHAR, RESPONSE_GET_ATTRIBUTE};
use crate::message::{decimal_digits, into_text, push_decimal, push_text, text};

verus! {

/// What is wrong with the shape of a response.
#[derive(Clone, Copy, Debug, PartialEq, Eq)]
pub enum MalformedResponse {
    /// The response ends before the field that is read next. The value is
    /// the length of the response.
    Truncated(usize),
    /// The response does not start with the sentinel but with this byte.
    UnexpectedStart(u8),
    /// The response code is not the one awaited but this byte.
    UnexpectedResponse(u8),
    /// The key of an attribute is not UTF-8.
    KeyNotUtf8,
    /// The value of an attribute is not UTF-8.
    ValueNotUtf8,
}

/// Errors of the command line.
#[derive(Clone, Copy, Debug, PartialEq, Eq)]
pub enum CLIError {
    /// More than one transport was asked for.
    MultipleInterfaces,
}

/// The errors that talking to a board can end in.
#[derive(Clone, Copy, Debug, PartialEq, Eq)]
pub enum TockloaderError {
    /// No serial port was found.
    NoPortAvailable,
    /// The command line is wrong.
    CLIError(CLIError),
    /// A response of the bootloader does not have the shape of a response.
    MalformedResponse(MalformedResponse),
    /// No response came within the time allowed.
    Timeout,
    /// The board is not in bootloader mode.
    BootloaderNotOpen,
}

impl CLIError {
    /// The bytes of the text of the error.
    pub open spec fn message_bytes(self) -> Seq<u8> {
        text(
            "At most one of the following tranport interfaces may be used: '--serial', '--openocd', '-jlink'"@,
        )
    }

    /// Appends the text of the error to `out`.
    fn write_message(&self, out: &mut Vec<u8>)
        requires
            valid_utf8(old(out)@),
        ensures
            final(out)@ == old(out)@ + self.message_bytes(),
            valid_utf8(final(out)@),
    {
        match self {
            CLIError::MultipleInterfaces => {
                push_text(
                    out,
                    "At most one of the following tranport interfaces may be used: '--serial', '--openocd', '-jlink'",
                );
            },
        }
    }

    /// The text of the error.
    pub fn message(&self) -> (r: String)
        ensures
            r@ == decode_utf8(self.message_bytes()),
    {
        let mut out: Vec<u8> = Vec::new();
        self.write_message(&mut out);
        proof {
            assert(out@ =~= self.message_bytes());
        }
        into_text(out)
    }
}

impl MalformedResponse {
    /// The bytes of the text of the error. Bytes and lengths are written to
    /// the base 10.
    pub open spec fn message_bytes(self) -> Seq<u8> {
        match self {
            MalformedResponse::Truncated(length) => text("Expected a longer response, but got only "@)
                + decimal_digits(length as nat) + text(" bytes"@),
            MalformedResponse::UnexpectedStart(got) => text(
                "Expected attribute to start with ESCAPE_CHAR("@,
            ) + decimal_digits(ESCAPE_CHAR as nat) + text("), but got "@) + decimal_digits(
                got as nat,
            ),
            MalformedResponse::UnexpectedResponse(got) => text(
                "Expected attribute to have second byte RESPONSE_GET_ATTRIBUTE("@,
            ) + decimal_digits(RESPONSE_GET_ATTRIBUTE as nat) + text("), but got "@)
                + decimal_digits(got as nat),
            MalformedResponse::KeyNotUtf8 => text("Failed to parse UTF-8 from key"@),
            MalformedResponse::ValueNotUtf8 => text("Failed to parse UTF-8 from value"@),
        }
    }

    /// Appends the text of the error to `out`.
    fn write_message(&self, out: &mut Vec<u8>)
        requires
            valid_utf8(old(out)@),
        ensures
            final(out)@ == old(out)@ + self.message_bytes(),
            valid_utf8(final(out)@),
    {
        let ghost before = out@;
        match self {
            MalformedResponse::Truncated(length) => {
                push_text(out, "Expected a longer response, but got only ");
                push_decimal(out, *length as u64);
                push_text(out, " bytes");
            },
            MalformedResponse::UnexpectedStart(got) => {
                push_text(out, "Expected attribute to start with ESCAPE_CHAR(");
                push_decimal(out, ESCAPE_CHAR as u64);
                push_text(out, "), but got ");
                push_decimal(out, *got as u64);
            },
            MalformedResponse::UnexpectedResponse(got) => {
                push_text(out, "Expected attribute to have second byte RESPONSE_GET_ATTRIBUTE(");
                push_decimal(out, RESPONSE_GET_ATTRIBUTE as u64);
                push_text(out, "), but got ");
                push_decimal(out, *got as u64);
            },
            MalformedResponse::KeyNotUtf8 => {
                push_text(out, "Failed to parse UTF-8 from key");
            },
            MalformedResponse::ValueNotUtf8 => {
                push_text(out, "Failed to parse UTF-8 from value");
            },
        }
        proof {
            assert(out@ =~= before + self.message_bytes());
        }
    }

    /// The text of the error.
    pub fn message(&self) -> (r: String)
        ensures
            r@ == decode_utf8(self.message_bytes()),
    {
        let mut out: Vec<u8> = Vec::new();
        self.write_message(&mut out);
        proof {
            assert(out@ =~= self.message_bytes());
        }
        into_text(out)
    }
}

impl TockloaderError {
    /// The bytes of the text of the error.
    pub open spec fn message_bytes(self) -> Seq<u8> {
        match self {
            TockloaderError::NoPortAvailable => text(
                "Tockloader has failed to find any open ports. If your device is plugged in, you can manually specify it using the '--port <path>' argument."@,
            ),
            TockloaderError::CLIError(inner) => inner.message_bytes(),
            TockloaderError::MalformedResponse(inner) => inner.message_bytes(),
            TockloaderError::Timeout => text("The board did not respond in time."@),
            TockloaderError::BootloaderNotOpen => text("The board is not in bootloader mode."@),
        }
    }

    /// The text of the error.
    pub fn message(&self) -> (r: String)
        ensures
            r@ == decode_utf8(self.message_bytes()),
    {
        let mut out: Vec<u8> = Vec::new();
        match self {
            TockloaderError::NoPortAvailable => {
                push_text(
                    &mut out,
                    "Tockloader has failed to find any open ports. If your device is plugged in, you can manually specify it using the '--port <path>' argument.",
                );
            },
            TockloaderError::CLIError(inner) => {
                inner.write_message(&mut out);
            },
            TockloaderError::MalformedResponse(inner) => {
                inner.write_message(&mut out);
            },
            TockloaderError::Timeout => {
                push_text(&mut out, "The board did not respond in time.");
            },
            TockloaderError::BootloaderNotOpen => {
                push_text(&mut out, "The board is not in bootloader mode.");
            },
        }
        proof {
            assert(out@ =~= self.message_bytes());
        }
        into_text(out)
    }
}

} // verus!
