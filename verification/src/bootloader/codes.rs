//! Opcodes of the bootloader protocol and the byte stuffing of its sentinel.

use vstd::prelude::*;

verus! {

/// The sentinel that delimits frames. It is rare in binary images.
pub const ESCAPE_CHAR: u8 = 0xFC;

// Commands from the host to the bootloader. The "X" commands are for
// external flash.
pub const COMMAND_PING: u8 = 0x01;
pub const COMMAND_INFO: u8 = 0x03;
pub const COMMAND_ID: u8 = 0x04;
pub const COMMAND_RESET: u8 = 0x05;
pub const COMMAND_ERASE_PAGE: u8 = 0x06;
pub const COMMAND_WRITE_PAGE: u8 = 0x07;
pub const COMMAND_XEBLOCK: u8 = 0x08;
pub const COMMAND_XWPAGE: u8 = 0x09;
pub const COMMAND_CRCRX: u8 = 0x10;
pub const COMMAND_READ_RANGE: u8 = 0x11;
pub const COMMAND_XRRANGE: u8 = 0x12;
pub const COMMAND_SET_ATTRIBUTE: u8 = 0x13;
pub const COMMAND_GET_ATTRIBUTE: u8 = 0x14;
pub const COMMAND_CRC_INTERNAL_FLASH: u8 = 0x15;
pub const COMMAND_CRCEF: u8 = 0x16;
pub const COMMAND_XEPAGE: u8 = 0x17;
pub const COMMAND_XFINIT: u8 = 0x18;
pub const COMMAND_CLKOUT: u8 = 0x19;
pub const COMMAND_WUSER: u8 = 0x20;
pub const COMMAND_CHANGE_BAUD_RATE: u8 = 0x21;
pub const COMMAND_EXIT: u8 = 0x22;
pub const COMMAND_SET_START_ADDRESS: u8 = 0x23;

// Responses from the bootloader to the host.
pub const RESPONSE_OVERFLOW: u8 = 0x10;
pub const RESPONSE_PONG: u8 = 0x11;
pub const RESPONSE_BADADDR: u8 = 0x12;
pub const RESPONSE_INTERROR: u8 = 0x13;
pub const RESPONSE_BADARGS: u8 = 0x14;
pub const RESPONSE_OK: u8 = 0x15;
pub const RESPONSE_UNKNOWN: u8 = 0x16;
pub const RESPONSE_XFTIMEOUT: u8 = 0x17;
pub const RESPONSE_XFEPE: u8 = 0x18;
pub const RESPONSE_CRCRX: u8 = 0x19;
pub const RESPONSE_READ_RANGE: u8 = 0x20;
pub const RESPONSE_XRRANGE: u8 = 0x21;
pub const RESPONSE_GET_ATTRIBUTE: u8 = 0x22;
pub const RESPONSE_CRC_INTERNAL_FLASH: u8 = 0x23;
pub const RESPONSE_CRCXF: u8 = 0x24;
pub const RESPONSE_INFO: u8 = 0x25;
pub const RESPONSE_CHANGE_BAUD_FAIL: u8 = 0x26;

/// The stuffed form of a payload: every sentinel is followed by a second one.
pub open spec fn escaped(s: Seq<u8>) -> Seq<u8>
    decreases s.len(),
{
    if s.len() == 0 {
        Seq::empty()
    } else if s[0] == ESCAPE_CHAR {
        seq![ESCAPE_CHAR, ESCAPE_CHAR] + escaped(s.skip(1))
    } else {
        seq![s[0]] + escaped(s.skip(1))
    }
}

/// The payload of a stuffed sequence: a sentinel directly followed by a
/// second one stands for a single sentinel, every other byte for itself. A
/// lone sentinel is kept.
pub open spec fn deescaped(s: Seq<u8>) -> Seq<u8>
    decreases s.len(),
{
    if s.len() == 0 {
        Seq::empty()
    } else if s[0] == ESCAPE_CHAR && s.len() >= 2 && s[1] == ESCAPE_CHAR {
        seq![ESCAPE_CHAR] + deescaped(s.skip(2))
    } else {
        seq![s[0]] + deescaped(s.skip(1))
    }
}

/// Stuffing and then unstuffing gives the payload back, whatever it holds.
pub proof fn lemma_deescape_escape(x: Seq<u8>)
    ensures
        deescaped(escaped(x)) == x,
    decreases x.len(),
{
    if x.len() == 0 {
    } else {
        let rest = x.skip(1);
        lemma_deescape_escape(rest);
        let e = escaped(x);
        if x[0] == ESCAPE_CHAR {
            assert(e.skip(2) =~= escaped(rest));
            assert(seq![ESCAPE_CHAR] + rest =~= x);
        } else {
            assert(e.skip(1) =~= escaped(rest));
            assert(seq![x[0]] + rest =~= x);
        }
    }
}

/// Doubles every sentinel of `source`, so that the payload can hold the
/// sentinel without ending the frame.
pub fn escape(source: Vec<u8>) -> (result: Vec<u8>)
    ensures
        result@ == escaped(source@),
{
    let mut result: Vec<u8> = Vec::with_capacity(source.len());
    let mut i: usize = 0;
    proof {
        assert(source@.skip(0) =~= source@);
        assert(result@ + escaped(source@) =~= escaped(source@));
    }
    while i < source.len()
        invariant
            i <= source.len(),
            result@ + escaped(source@.skip(i as int)) == escaped(source@),
        decreases source.len() - i,
    {
        let byte = source[i];
        let ghost before = result@;
        let ghost tail = source@.skip(i as int);
        result.push(byte);
        if byte == ESCAPE_CHAR {
            result.push(ESCAPE_CHAR);
        }
        proof {
            assert(tail.skip(1) =~= source@.skip(i + 1));
            assert(result@ + escaped(tail.skip(1)) =~= before + escaped(tail));
        }
        i += 1;
    }
    proof {
        assert(result@ + Seq::<u8>::empty() =~= result@);
    }
    result
}

/// Undoes `escape`: of two sentinels in a row the second is dropped. Input
/// that was never stuffed is not rejected; a lone sentinel passes through.
pub fn deescape(source: Vec<u8>) -> (result: Vec<u8>)
    ensures
        result@ == deescaped(source@),
{
    let mut result: Vec<u8> = Vec::with_capacity(source.len());
    let mut i: usize = 0;
    proof {
        assert(source@.skip(0) =~= source@);
        assert(result@ + deescaped(source@) =~= deescaped(source@));
    }
    while i < source.len()
        invariant
            i <= source.len(),
            result@ + deescaped(source@.skip(i as int)) == deescaped(source@),
        decreases source.len() - i,
    {
        let byte = source[i];
        let ghost before = result@;
        let ghost tail = source@.skip(i as int);
        result.push(byte);
        if byte == ESCAPE_CHAR && i + 1 < source.len() && source[i + 1] == ESCAPE_CHAR {
            proof {
                assert(tail.skip(2) =~= source@.skip(i + 2));
                assert(result@ + deescaped(tail.skip(2)) =~= before + deescaped(tail));
            }
            i += 2;
        } else {
            proof {
                assert(tail.skip(1) =~= source@.skip(i + 1));
                assert(result@ + deescaped(tail.skip(1)) =~= before + deescaped(tail));
            }
            i += 1;
        }
    }
    proof {
        assert(result@ + Seq::<u8>::empty() =~= result@);
    }
    result
}

} // verus!
