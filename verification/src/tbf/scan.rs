//! The walk over the objects that lie one after the other in a region of
//! flash.

use vstd::prelude::*;
use vstd::slice::slice_subrange;
use crate::tbf::parse::{parse_tbf_header, parse_tbf_header_lengths, parsed_header, parsed_lengths};
use crate::tbf::types::{copy_array, InitialTbfParseError, TbfHeader, TbfHeaderModel};

verus! {

/// An object found in flash: where it starts, and its header.
#[derive(Clone, Copy, Debug)]
pub struct TbfObject {
    /// The offset of the object from the start of the region.
    pub offset: usize,
    /// The header of the object.
    pub header: TbfHeader,
}

/// The objects of `flash` from `offset` on, each with its offset.
///
/// The lengths of the object at `offset` are read from its first 8 bytes.
/// Where they cannot be parsed, no object starts here and the walk ends.
/// Else the object is as long as its total size says, and the next object
/// starts right after it, whether or not the header of this one parses: an
/// object whose header does not parse, or does not fit into the region, is
/// skipped. The walk ends as well where fewer than 8 bytes are left, and at
/// an object that runs past the end of the region, and at an invalid
/// object of length 0, after which it could not go on.
pub open spec fn scanned(flash: Seq<u8>, offset: int) -> Seq<(int, TbfHeaderModel)>
    decreases flash.len() - offset,
{
    if offset < 0 || flash.len() - offset < 8 {
        Seq::empty()
    } else {
        match parsed_lengths(flash.subrange(offset, offset + 8)) {
            Err(InitialTbfParseError::UnableToParse) => Seq::empty(),
            Err(InitialTbfParseError::InvalidHeader(total_size)) => {
                if total_size == 0 || offset + total_size > flash.len() {
                    Seq::empty()
                } else {
                    scanned(flash, offset + total_size)
                }
            },
            Ok((version, header_size, total_size)) => {
                let rest = if total_size == 0 || offset + total_size > flash.len() {
                    Seq::empty()
                } else {
                    scanned(flash, offset + total_size)
                };
                if flash.len() - offset < header_size {
                    rest
                } else {
                    match parsed_header(flash.subrange(offset, offset + header_size), version) {
                        Ok(header) => seq![(offset, header)] + rest,
                        Err(_) => rest,
                    }
                }
            },
        }
    }
}

/// The offsets of `objects` and what their headers say.
pub open spec fn located(objects: Seq<TbfObject>) -> Seq<(int, TbfHeaderModel)> {
    Seq::new(objects.len(), |i: int| (objects[i].offset as int, objects[i].header.model()))
}

/// Finds the objects in a region of flash: the applications, and the
/// padding between them. Whatever follows the last object, such as erased
/// flash, ends the walk.
pub fn parse_tbf_objects(flash: &[u8]) -> (objects: Vec<TbfObject>)
    ensures
        located(objects@) == scanned(flash@, 0),
{
    let mut objects: Vec<TbfObject> = Vec::new();
    let mut offset: usize = 0;
    proof {
        assert(located(objects@) + scanned(flash@, 0) =~= scanned(flash@, 0));
    }
    loop
        invariant_except_break
            located(objects@) + scanned(flash@, offset as int) == scanned(flash@, 0),
        invariant
            offset <= flash@.len(),
            flash@.len() == flash.len(),
        ensures
            located(objects@) == scanned(flash@, 0),
        decreases flash@.len() - offset,
    {
        if flash.len() - offset < 8 {
            proof {
                assert(located(objects@) + Seq::<(int, TbfHeaderModel)>::empty() =~= located(
                    objects@,
                ));
            }
            break ;
        }
        let first: [u8; 8] = copy_array(flash, offset);
        let ghost rest = scanned(flash@, offset as int);
        let total_size = match parse_tbf_header_lengths(&first) {
            Err(InitialTbfParseError::UnableToParse) => {
                proof {
                    assert(located(objects@) + rest =~= located(objects@));
                }
                break ;
            },
            Err(InitialTbfParseError::InvalidHeader(total_size)) => {
                if total_size == 0 {
                    proof {
                        assert(located(objects@) + rest =~= located(objects@));
                    }
                    break ;
                }
                total_size
            },
            Ok((version, header_size, total_size)) => {
                if flash.len() - offset >= header_size as usize {
                    let header = slice_subrange(flash, offset, offset + header_size as usize);
                    match parse_tbf_header(header, version) {
                        Ok(header) => {
                            let ghost before = located(objects@);
                            objects.push(TbfObject { offset, header });
                            proof {
                                let entry = (offset as int, header.model());
                                assert(located(objects@) =~= before.push(entry));
                                let after = if offset + total_size > flash@.len() {
                                    Seq::<(int, TbfHeaderModel)>::empty()
                                } else {
                                    scanned(flash@, offset + total_size)
                                };
                                assert(before.push(entry) + after =~= before + (seq![entry]
                                    + after));
                            }
                        },
                        Err(_) => {},
                    }
                }
                total_size
            },
        };
        if total_size as usize > flash.len() - offset {
            proof {
                assert(located(objects@) + Seq::<(int, TbfHeaderModel)>::empty() =~= located(
                    objects@,
                ));
            }
            break ;
        }
        offset += total_size as usize;
    }
    objects
}

} // verus!
