//! Types and data structures of the Tock Binary Format, and the decoding of
//! each from the bytes that hold it.

use vstd::prelude::*;
use vstd::pervasive::unreached;
use vstd::slice::slice_subrange;
use vstd::string::StringSliceAdditionalSpecFns;
use vstd::utf8::{decode_utf8, valid_utf8};
use crate::tbf::little_endian::{le_u16, le_u32, le_u64, read_u16, read_u32, read_u64};
use crate::message::{
    decimal_digits,
    hex_number,
    into_text,
    push_decimal,
    push_hex,
    push_text,
    text,
};
use crate::utf8::from_utf8;

verus! {

/// The number of storage permissions that a header can hold for each of read
/// and modify.
pub const NUM_STORAGE_PERMISSIONS: usize = 8;

/// Error when parsing just the beginning of a header. It is only used when
/// walking the list of applications installed in flash.
#[derive(Clone, Copy, Debug, PartialEq, Eq)]
pub enum InitialTbfParseError {
    /// The beginning of the header could not be parsed: this is empty flash
    /// after the last application, and the walk ends here.
    UnableToParse,
    /// Some length in the header is invalid. The total length is trusted
    /// all the same and comes with the error, so that the walk can skip this
    /// application and go on with the next.
    InvalidHeader(u32),
}

/// Error when parsing the header or a footer of an application.
#[derive(Clone, Copy, Debug, PartialEq, Eq)]
pub enum TbfParseError {
    /// Not enough bytes in the buffer to parse the expected field.
    NotEnoughFlash,
    /// Unknown version of the header.
    UnsupportedVersion(u16),
    /// The checksum stored in the header, first, is not the checksum
    /// computed over the header, second.
    ChecksumMismatch(u32, u32),
    /// An entry did not parse: its length does not fit its type. The value is
    /// the number of the type.
    BadTlvEntry(usize),
    /// The package name is not UTF-8.
    BadProcessName,
    /// A slice was too short for the record decoded from it.
    InternalError,
    /// More entries of a variable-length record than a header can hold. The
    /// value is the number of the record's type.
    TooManyEntries(usize),
    /// The package name is longer than a header can hold.
    PackageNameTooLong,
}

impl TbfParseError {
    /// The bytes of the text of the error. Numbers of types and of versions
    /// are written to the base 10, checksums to the base 16.
    pub open spec fn message_bytes(self) -> Seq<u8> {
        match self {
            TbfParseError::NotEnoughFlash => text("Buffer too short to parse TBF header"@),
            TbfParseError::UnsupportedVersion(version) => text("TBF version "@) + decimal_digits(
                version as nat,
            ) + text(" unsupported"@),
            TbfParseError::ChecksumMismatch(app, calc) => text(
                "Checksum verification failed: app:"@,
            ) + hex_number(app as nat) + text(", calc:"@) + hex_number(calc as nat),
            TbfParseError::BadTlvEntry(tipe) => text("TLV entry type "@) + decimal_digits(
                tipe as nat,
            ) + text(" is invalid"@),
            TbfParseError::BadProcessName => text("Process name not UTF-8"@),
            TbfParseError::InternalError => text("Internal kernel error. This is a bug."@),
            TbfParseError::TooManyEntries(tipe) => text(
                "There are too many variable entries of "@,
            ) + decimal_digits(tipe as nat) + text(" for Tock to parse"@),
            TbfParseError::PackageNameTooLong => text("The package name is too long."@),
        }
    }

    /// The text of the error.
    pub fn message(&self) -> (r: String)
        ensures
            r@ == decode_utf8(self.message_bytes()),
    {
        let mut out: Vec<u8> = Vec::new();
        proof {
            assert(Seq::<u8>::empty() + self.message_bytes() =~= self.message_bytes());
        }
        match self {
            TbfParseError::NotEnoughFlash => {
                push_text(&mut out, "Buffer too short to parse TBF header");
            },
            TbfParseError::UnsupportedVersion(version) => {
                push_text(&mut out, "TBF version ");
                push_decimal(&mut out, *version as u64);
                push_text(&mut out, " unsupported");
            },
            TbfParseError::ChecksumMismatch(app, calc) => {
                push_text(&mut out, "Checksum verification failed: app:");
                push_hex(&mut out, *app);
                push_text(&mut out, ", calc:");
                push_hex(&mut out, *calc);
            },
            TbfParseError::BadTlvEntry(tipe) => {
                push_text(&mut out, "TLV entry type ");
                push_decimal(&mut out, *tipe as u64);
                push_text(&mut out, " is invalid");
            },
            TbfParseError::BadProcessName => {
                push_text(&mut out, "Process name not UTF-8");
            },
            TbfParseError::InternalError => {
                push_text(&mut out, "Internal kernel error. This is a bug.");
            },
            TbfParseError::TooManyEntries(tipe) => {
                push_text(&mut out, "There are too many variable entries of ");
                push_decimal(&mut out, *tipe as u64);
                push_text(&mut out, " for Tock to parse");
            },
            TbfParseError::PackageNameTooLong => {
                push_text(&mut out, "The package name is too long.");
            },
        }
        proof {
            assert(out@ =~= self.message_bytes());
        }
        into_text(out)
    }
}

/// The fields that every version 2 header starts with.
#[derive(Clone, Copy, Debug)]
pub struct TbfHeaderV2Base {
    pub version: u16,
    pub header_size: u16,
    pub total_size: u32,
    pub flags: u32,
    pub checksum: u32,
}

/// The types of the entries that may follow the base of a header.
#[derive(Clone, Copy, Debug, PartialEq, Eq)]
pub enum TbfHeaderTypes {
    TbfHeaderMain,
    TbfHeaderWriteableFlashRegions,
    TbfHeaderPackageName,
    TbfHeaderFixedAddresses,
    TbfHeaderPermissions,
    TbfHeaderStoragePermissions,
    TbfHeaderKernelVersion,
    TbfHeaderProgram,
    TbfFooterCredentials,
    /// An entry of a type that this library does not know. Every entry gives
    /// its length, so such an entry is skipped and is no error.
    Unknown,
}

/// The type and the length that every entry starts with.
#[derive(Clone, Copy, Debug)]
pub struct TbfTlv {
    pub tipe: TbfHeaderTypes,
    pub length: u16,
}

/// The main entry of an application.
///
/// An application has a main entry or a program entry; an object without
/// either is padding. The main entry does not say where the binary ends, and
/// an application that has only a main entry has no credentials footers.
#[derive(Clone, Copy, Debug)]
pub struct TbfHeaderV2Main {
    pub init_fn_offset: u32,
    pub protected_trailer_size: u32,
    pub minimum_ram_size: u32,
}

/// The program entry of an application.
///
/// Unlike the main entry it gives the offset at which the binary ends. The
/// region between that offset and the end of the object is reserved for
/// credentials footers.
#[derive(Clone, Copy, Debug)]
pub struct TbfHeaderV2Program {
    pub init_fn_offset: u32,
    pub protected_trailer_size: u32,
    pub minimum_ram_size: u32,
    pub binary_end_offset: u32,
    pub version: u32,
}

/// A region of flash that the application may write: an offset and a size.
#[derive(Clone, Copy, Debug)]
pub struct TbfHeaderV2WriteableFlashRegion {
    pub writeable_flash_region_offset: u32,
    pub writeable_flash_region_size: u32,
}

/// The addresses in RAM and in flash that the application was linked for.
///
/// An application that fixes only one of the two sets the other to
/// `0xFFFFFFFF`. Without this entry the application is position independent.
#[derive(Clone, Copy, Debug)]
pub struct TbfHeaderV2FixedAddresses {
    /// The absolute address of the start of RAM that the process expects.
    pub start_process_ram: u32,
    /// The absolute address of the start of the process binary, after the
    /// header.
    pub start_process_flash: u32,
}

/// The commands of one driver that the application may call: bit `i` of
/// `allowed_commands` stands for command `64 * offset + i`.
#[derive(Clone, Copy, Debug)]
pub struct TbfHeaderDriverPermission {
    pub driver_number: u32,
    pub offset: u32,
    pub allowed_commands: u64,
}

/// The oldest kernel version that the application runs on.
#[derive(Clone, Copy, Debug)]
pub struct TbfHeaderV2KernelVersion {
    pub major: u16,
    pub minor: u16,
}

impl TbfHeaderV2Base {
    /// The base that the first 16 bytes of `b` hold.
    pub open spec fn parsed(b: Seq<u8>) -> TbfHeaderV2Base {
        TbfHeaderV2Base {
            version: le_u16(b, 0),
            header_size: le_u16(b, 2),
            total_size: le_u32(b, 4),
            flags: le_u32(b, 8),
            checksum: le_u32(b, 12),
        }
    }

    /// Decodes the base from the first 16 bytes of `b`.
    pub fn try_from(b: &[u8]) -> (r: Result<TbfHeaderV2Base, TbfParseError>)
        ensures
            b@.len() >= 16 ==> r == Ok::<TbfHeaderV2Base, TbfParseError>(Self::parsed(b@)),
            b@.len() < 16 ==> r == Err::<TbfHeaderV2Base, TbfParseError>(
                TbfParseError::InternalError,
            ),
    {
        if b.len() < 16 {
            return Err(TbfParseError::InternalError);
        }
        Ok(
            TbfHeaderV2Base {
                version: read_u16(b, 0),
                header_size: read_u16(b, 2),
                total_size: read_u32(b, 4),
                flags: read_u32(b, 8),
                checksum: read_u32(b, 12),
            },
        )
    }
}

impl TbfHeaderTypes {
    /// The type that the number `h` stands for.
    pub open spec fn of(h: u16) -> TbfHeaderTypes {
        if h == 1 {
            TbfHeaderTypes::TbfHeaderMain
        } else if h == 2 {
            TbfHeaderTypes::TbfHeaderWriteableFlashRegions
        } else if h == 3 {
            TbfHeaderTypes::TbfHeaderPackageName
        } else if h == 5 {
            TbfHeaderTypes::TbfHeaderFixedAddresses
        } else if h == 6 {
            TbfHeaderTypes::TbfHeaderPermissions
        } else if h == 7 {
            TbfHeaderTypes::TbfHeaderStoragePermissions
        } else if h == 8 {
            TbfHeaderTypes::TbfHeaderKernelVersion
        } else if h == 9 {
            TbfHeaderTypes::TbfHeaderProgram
        } else if h == 128 {
            TbfHeaderTypes::TbfFooterCredentials
        } else {
            TbfHeaderTypes::Unknown
        }
    }

    /// The number of a type. The unknown type has the number after that of
    /// the credentials footer.
    pub open spec fn number(self) -> usize {
        match self {
            TbfHeaderTypes::TbfHeaderMain => 1,
            TbfHeaderTypes::TbfHeaderWriteableFlashRegions => 2,
            TbfHeaderTypes::TbfHeaderPackageName => 3,
            TbfHeaderTypes::TbfHeaderFixedAddresses => 5,
            TbfHeaderTypes::TbfHeaderPermissions => 6,
            TbfHeaderTypes::TbfHeaderStoragePermissions => 7,
            TbfHeaderTypes::TbfHeaderKernelVersion => 8,
            TbfHeaderTypes::TbfHeaderProgram => 9,
            TbfHeaderTypes::TbfFooterCredentials => 128,
            TbfHeaderTypes::Unknown => 129,
        }
    }

    /// Tells the type of an entry from its number. Every number is accepted.
    pub fn try_from(h: u16) -> (r: Result<TbfHeaderTypes, TbfParseError>)
        ensures
            r == Ok::<TbfHeaderTypes, TbfParseError>(Self::of(h)),
    {
        match h {
            1 => Ok(TbfHeaderTypes::TbfHeaderMain),
            2 => Ok(TbfHeaderTypes::TbfHeaderWriteableFlashRegions),
            3 => Ok(TbfHeaderTypes::TbfHeaderPackageName),
            5 => Ok(TbfHeaderTypes::TbfHeaderFixedAddresses),
            6 => Ok(TbfHeaderTypes::TbfHeaderPermissions),
            7 => Ok(TbfHeaderTypes::TbfHeaderStoragePermissions),
            8 => Ok(TbfHeaderTypes::TbfHeaderKernelVersion),
            9 => Ok(TbfHeaderTypes::TbfHeaderProgram),
            128 => Ok(TbfHeaderTypes::TbfFooterCredentials),
            _ => Ok(TbfHeaderTypes::Unknown),
        }
    }

    /// The number of the type, as errors carry it.
    pub fn as_usize(self) -> (r: usize)
        ensures
            r == self.number(),
    {
        match self {
            TbfHeaderTypes::TbfHeaderMain => 1,
            TbfHeaderTypes::TbfHeaderWriteableFlashRegions => 2,
            TbfHeaderTypes::TbfHeaderPackageName => 3,
            TbfHeaderTypes::TbfHeaderFixedAddresses => 5,
            TbfHeaderTypes::TbfHeaderPermissions => 6,
            TbfHeaderTypes::TbfHeaderStoragePermissions => 7,
            TbfHeaderTypes::TbfHeaderKernelVersion => 8,
            TbfHeaderTypes::TbfHeaderProgram => 9,
            TbfHeaderTypes::TbfFooterCredentials => 128,
            TbfHeaderTypes::Unknown => 129,
        }
    }
}

impl TbfTlv {
    /// The type and length that the first 4 bytes of `b` hold.
    pub open spec fn parsed(b: Seq<u8>) -> TbfTlv {
        TbfTlv { tipe: TbfHeaderTypes::of(le_u16(b, 0)), length: le_u16(b, 2) }
    }

    /// Decodes the type and length of an entry from the first 4 bytes of `b`.
    pub fn try_from(b: &[u8]) -> (r: Result<TbfTlv, TbfParseError>)
        ensures
            b@.len() >= 4 ==> r == Ok::<TbfTlv, TbfParseError>(Self::parsed(b@)),
            b@.len() < 4 ==> r == Err::<TbfTlv, TbfParseError>(TbfParseError::InternalError),
    {
        if b.len() < 4 {
            return Err(TbfParseError::InternalError);
        }
        let tipe = match TbfHeaderTypes::try_from(read_u16(b, 0)) {
            Ok(tipe) => tipe,
            Err(e) => {
                return Err(e);
            },
        };
        Ok(TbfTlv { tipe, length: read_u16(b, 2) })
    }
}

impl TbfHeaderV2Main {
    /// The main entry that the first 12 bytes of `b` hold.
    pub open spec fn parsed(b: Seq<u8>) -> TbfHeaderV2Main {
        TbfHeaderV2Main {
            init_fn_offset: le_u32(b, 0),
            protected_trailer_size: le_u32(b, 4),
            minimum_ram_size: le_u32(b, 8),
        }
    }

    /// Decodes a main entry from the first 12 bytes of `b`.
    pub fn try_from(b: &[u8]) -> (r: Result<TbfHeaderV2Main, TbfParseError>)
        ensures
            b@.len() >= 12 ==> r == Ok::<TbfHeaderV2Main, TbfParseError>(Self::parsed(b@)),
            b@.len() < 12 ==> r == Err::<TbfHeaderV2Main, TbfParseError>(
                TbfParseError::InternalError,
            ),
    {
        if b.len() < 12 {
            return Err(TbfParseError::InternalError);
        }
        Ok(
            TbfHeaderV2Main {
                init_fn_offset: read_u32(b, 0),
                protected_trailer_size: read_u32(b, 4),
                minimum_ram_size: read_u32(b, 8),
            },
        )
    }
}

impl TbfHeaderV2Program {
    /// The program entry that the first 20 bytes of `b` hold.
    pub open spec fn parsed(b: Seq<u8>) -> TbfHeaderV2Program {
        TbfHeaderV2Program {
            init_fn_offset: le_u32(b, 0),
            protected_trailer_size: le_u32(b, 4),
            minimum_ram_size: le_u32(b, 8),
            binary_end_offset: le_u32(b, 12),
            version: le_u32(b, 16),
        }
    }

    /// Decodes a program entry from the first 20 bytes of `b`.
    pub fn try_from(b: &[u8]) -> (r: Result<TbfHeaderV2Program, TbfParseError>)
        ensures
            b@.len() >= 20 ==> r == Ok::<TbfHeaderV2Program, TbfParseError>(Self::parsed(b@)),
            b@.len() < 20 ==> r == Err::<TbfHeaderV2Program, TbfParseError>(
                TbfParseError::InternalError,
            ),
    {
        if b.len() < 20 {
            return Err(TbfParseError::InternalError);
        }
        Ok(
            TbfHeaderV2Program {
                init_fn_offset: read_u32(b, 0),
                protected_trailer_size: read_u32(b, 4),
                minimum_ram_size: read_u32(b, 8),
                binary_end_offset: read_u32(b, 12),
                version: read_u32(b, 16),
            },
        )
    }
}

impl TbfHeaderV2WriteableFlashRegion {
    /// The region that the first 8 bytes of `b` hold.
    pub open spec fn parsed(b: Seq<u8>) -> TbfHeaderV2WriteableFlashRegion {
        TbfHeaderV2WriteableFlashRegion {
            writeable_flash_region_offset: le_u32(b, 0),
            writeable_flash_region_size: le_u32(b, 4),
        }
    }

    /// Decodes a writeable flash region from the first 8 bytes of `b`.
    pub fn try_from(b: &[u8]) -> (r: Result<TbfHeaderV2WriteableFlashRegion, TbfParseError>)
        ensures
            b@.len() >= 8 ==> r == Ok::<TbfHeaderV2WriteableFlashRegion, TbfParseError>(
                Self::parsed(b@),
            ),
            b@.len() < 8 ==> r == Err::<TbfHeaderV2WriteableFlashRegion, TbfParseError>(
                TbfParseError::InternalError,
            ),
    {
        if b.len() < 8 {
            return Err(TbfParseError::InternalError);
        }
        Ok(
            TbfHeaderV2WriteableFlashRegion {
                writeable_flash_region_offset: read_u32(b, 0),
                writeable_flash_region_size: read_u32(b, 4),
            },
        )
    }
}

impl TbfHeaderV2FixedAddresses {
    /// The addresses that the first 8 bytes of `b` hold.
    pub open spec fn parsed(b: Seq<u8>) -> TbfHeaderV2FixedAddresses {
        TbfHeaderV2FixedAddresses {
            start_process_ram: le_u32(b, 0),
            start_process_flash: le_u32(b, 4),
        }
    }

    /// Decodes the fixed addresses from the first 8 bytes of `b`.
    pub fn try_from(b: &[u8]) -> (r: Result<TbfHeaderV2FixedAddresses, TbfParseError>)
        ensures
            b@.len() >= 8 ==> r == Ok::<TbfHeaderV2FixedAddresses, TbfParseError>(
                Self::parsed(b@),
            ),
            b@.len() < 8 ==> r == Err::<TbfHeaderV2FixedAddresses, TbfParseError>(
                TbfParseError::InternalError,
            ),
    {
        if b.len() < 8 {
            return Err(TbfParseError::InternalError);
        }
        Ok(
            TbfHeaderV2FixedAddresses {
                start_process_ram: read_u32(b, 0),
                start_process_flash: read_u32(b, 4),
            },
        )
    }
}

impl TbfHeaderDriverPermission {
    /// The permission that the first 16 bytes of `b` hold.
    pub open spec fn parsed(b: Seq<u8>) -> TbfHeaderDriverPermission {
        TbfHeaderDriverPermission {
            driver_number: le_u32(b, 0),
            offset: le_u32(b, 4),
            allowed_commands: le_u64(b, 8),
        }
    }

    /// Decodes a driver permission from the first 16 bytes of `b`.
    pub fn try_from(b: &[u8]) -> (r: Result<TbfHeaderDriverPermission, TbfParseError>)
        ensures
            b@.len() >= 16 ==> r == Ok::<TbfHeaderDriverPermission, TbfParseError>(
                Self::parsed(b@),
            ),
            b@.len() < 16 ==> r == Err::<TbfHeaderDriverPermission, TbfParseError>(
                TbfParseError::InternalError,
            ),
    {
        if b.len() < 16 {
            return Err(TbfParseError::InternalError);
        }
        Ok(
            TbfHeaderDriverPermission {
                driver_number: read_u32(b, 0),
                offset: read_u32(b, 4),
                allowed_commands: read_u64(b, 8),
            },
        )
    }
}

impl TbfHeaderV2KernelVersion {
    /// The version that the first 4 bytes of `b` hold.
    pub open spec fn parsed(b: Seq<u8>) -> TbfHeaderV2KernelVersion {
        TbfHeaderV2KernelVersion { major: le_u16(b, 0), minor: le_u16(b, 2) }
    }

    /// Decodes a kernel version from the first 4 bytes of `b`.
    pub fn try_from(b: &[u8]) -> (r: Result<TbfHeaderV2KernelVersion, TbfParseError>)
        ensures
            b@.len() >= 4 ==> r == Ok::<TbfHeaderV2KernelVersion, TbfParseError>(
                Self::parsed(b@),
            ),
            b@.len() < 4 ==> r == Err::<TbfHeaderV2KernelVersion, TbfParseError>(
                TbfParseError::InternalError,
            ),
    {
        if b.len() < 4 {
            return Err(TbfParseError::InternalError);
        }
        Ok(TbfHeaderV2KernelVersion { major: read_u16(b, 0), minor: read_u16(b, 2) })
    }
}


/// The name of the package, in at most `L` bytes of UTF-8.
#[derive(Clone, Copy, Debug)]
pub struct TbfHeaderV2PackageName<const L: usize> {
    pub(crate) size: u32,
    pub(crate) buffer: [u8; L],
}

impl<const L: usize> TbfHeaderV2PackageName<L> {
    /// The name fits in the buffer and is UTF-8.
    #[verifier::type_invariant]
    pub open(crate) spec fn well_formed(self) -> bool {
        &&& self.size <= L
        &&& valid_utf8(self.buffer@.take(self.size as int))
    }

    /// The bytes of the name.
    pub open(crate) spec fn name_bytes(self) -> Seq<u8> {
        self.buffer@.take(self.size as int)
    }

    /// What decoding a name from `value` gives: the bytes of the name, or
    /// the reason why they are refused.
    pub open spec fn parsed(value: Seq<u8>) -> Result<Seq<u8>, TbfParseError> {
        if value.len() > L {
            Err(TbfParseError::PackageNameTooLong)
        } else if !valid_utf8(value) {
            Err(TbfParseError::BadProcessName)
        } else {
            Ok(value)
        }
    }

    /// Takes `value` as the name of a package. A name of more than `L` bytes
    /// is refused, and so is one that is not UTF-8.
    pub fn try_from(value: &[u8]) -> (r: Result<Self, TbfParseError>)
        requires
            L <= u32::MAX,
        ensures
            match Self::parsed(value@) {
                Ok(name) => r is Ok && r->Ok_0.name_bytes() == name,
                Err(e) => r == Err::<Self, TbfParseError>(e),
            },
    {
        if value.len() > L {
            return Err(TbfParseError::PackageNameTooLong);
        }
        if from_utf8(value).is_err() {
            return Err(TbfParseError::BadProcessName);
        }
        let mut buffer = [0u8; L];
        let mut i: usize = 0;
        while i < value.len()
            invariant
                i <= value@.len() <= L,
                buffer@.len() == L,
                buffer@.take(i as int) == value@.take(i as int),
            decreases value@.len() - i,
        {
            buffer[i] = value[i];
            proof {
                assert(buffer@.take(i + 1) =~= value@.take(i + 1));
            }
            i += 1;
        }
        proof {
            assert(value@.take(value@.len() as int) =~= value@);
        }
        Ok(TbfHeaderV2PackageName { size: value.len() as u32, buffer })
    }
}

/// The permissions of an application: for each of up to `L` drivers, the
/// commands that it may call.
#[derive(Clone, Copy, Debug)]
pub struct TbfHeaderV2Permissions<const L: usize> {
    pub(crate) length: u16,
    pub(crate) perms: [TbfHeaderDriverPermission; L],
}

impl<const L: usize> TbfHeaderV2Permissions<L> {
    /// No more entries are recorded than the record can hold.
    #[verifier::type_invariant]
    pub open(crate) spec fn well_formed(self) -> bool {
        self.length <= L
    }

    /// The recorded permissions, in the order of the header.
    pub open(crate) spec fn entries(self) -> Seq<TbfHeaderDriverPermission> {
        self.perms@.take(self.length as int)
    }

    /// What decoding the permissions from `b` gives. The bytes of the
    /// entries that the record can hold are asked for before the count is
    /// held against the capacity.
    pub open spec fn parsed(b: Seq<u8>) -> Result<Seq<TbfHeaderDriverPermission>, TbfParseError> {
        if b.len() < 2 {
            Err(TbfParseError::NotEnoughFlash)
        } else {
            let number = le_u16(b, 0) as int;
            let held = if number <= L {
                number
            } else {
                L as int
            };
            if b.len() < 2 + 16 * held {
                Err(TbfParseError::NotEnoughFlash)
            } else if number > L {
                Err(TbfParseError::TooManyEntries(TbfHeaderTypes::TbfHeaderPermissions.number()))
            } else {
                Ok(
                    Seq::new(
                        number as nat,
                        |i: int| TbfHeaderDriverPermission::parsed(b.subrange(2 + 16 * i, 18 + 16 * i)),
                    ),
                )
            }
        }
    }

    /// Decodes the permissions: a count in 2 bytes, then that many entries
    /// of 16 bytes each. More than `L` entries are refused.
    pub fn try_from(b: &[u8]) -> (r: Result<Self, TbfParseError>)
        ensures
            match Self::parsed(b@) {
                Ok(entries) => r is Ok && r->Ok_0.entries() == entries,
                Err(e) => r == Err::<Self, TbfParseError>(e),
            },
    {
        if b.len() < 2 {
            return Err(TbfParseError::NotEnoughFlash);
        }
        let number_perms = read_u16(b, 0);
        let mut perms: [TbfHeaderDriverPermission; L] = [TbfHeaderDriverPermission {
            driver_number: 0,
            offset: 0,
            allowed_commands: 0,
        }; L];
        let mut i: usize = 0;
        while i < number_perms as usize
            invariant
                i <= number_perms,
                i <= L,
                perms@.len() == L,
                b@.len() >= 2 + 16 * i,
                number_perms == le_u16(b@, 0),
                forall|j: int|
                    0 <= j < i ==> perms@[j] == TbfHeaderDriverPermission::parsed(
                        b@.subrange(2 + 16 * j, 18 + 16 * j),
                    ),
            decreases number_perms - i,
        {
            if i >= L {
                return Err(
                    TbfParseError::TooManyEntries(TbfHeaderTypes::TbfHeaderPermissions.as_usize()),
                );
            }
            let start = 2 + i * 16;
            if b.len() - start < 16 {
                return Err(TbfParseError::NotEnoughFlash);
            }
            let perm = match TbfHeaderDriverPermission::try_from(
                slice_subrange(b, start, start + 16),
            ) {
                Ok(perm) => perm,
                Err(e) => {
                    return Err(e);
                },
            };
            perms[i] = perm;
            i += 1;
        }
        let r = TbfHeaderV2Permissions { length: number_perms, perms };
        proof {
            assert(r.entries() =~= Self::parsed(b@)->Ok_0);
        }
        Ok(r)
    }
}

/// The identifiers at `at`: `n` integers of 32 bits.
pub open spec fn ids_at(b: Seq<u8>, at: int, n: int) -> Seq<u32> {
    Seq::new(n as nat, |i: int| le_u32(b, at + 4 * i))
}

/// What reading `count` identifiers at `at` into a record of capacity
/// `capacity` gives. The bytes of the identifiers that the record can hold
/// are asked for before the count is held against the capacity.
pub open spec fn ids_parsed(b: Seq<u8>, at: int, count: int, capacity: int) -> Result<
    Seq<u32>,
    TbfParseError,
> {
    let held = if count <= capacity {
        count
    } else {
        capacity
    };
    if b.len() < at + 4 * held {
        Err(TbfParseError::NotEnoughFlash)
    } else if count > capacity {
        Err(TbfParseError::TooManyEntries(TbfHeaderTypes::TbfHeaderStoragePermissions.number()))
    } else {
        Ok(ids_at(b, at, count))
    }
}

/// The places of `ids` from `used` on hold zero.
pub open spec fn unused_are_zero(ids: Seq<u32>, used: int) -> bool {
    forall|j: int| used <= j < ids.len() ==> ids[j] == 0
}

/// Reads `count` identifiers of 32 bits each from `b`, starting at `at`.
fn read_id_list<const L: usize>(b: &[u8], at: usize, count: u16) -> (r: Result<[u32; L], TbfParseError>)
    requires
        at <= b@.len(),
    ensures
        match ids_parsed(b@, at as int, count as int, L as int) {
            Ok(ids) => r is Ok && r->Ok_0@.take(count as int) == ids && unused_are_zero(
                r->Ok_0@,
                count as int,
            ),
            Err(e) => r == Err::<[u32; L], TbfParseError>(e),
        },
{
    let mut ids: [u32; L] = [0; L];
    let mut i: usize = 0;
    assert(b@.len() == b.len());
    while i < count as usize
        invariant
            i <= count,
            i <= L,
            ids@.len() == L,
            at + 4 * i <= b@.len(),
            b@.len() == b.len(),
            forall|j: int| 0 <= j < i ==> ids@[j] == le_u32(b@, at + 4 * j),
            unused_are_zero(ids@, i as int),
        decreases count - i,
    {
        if i >= L {
            return Err(
                TbfParseError::TooManyEntries(
                    TbfHeaderTypes::TbfHeaderStoragePermissions.as_usize(),
                ),
            );
        }
        let start = at + i * 4;
        if b.len() - start < 4 {
            return Err(TbfParseError::NotEnoughFlash);
        }
        ids[i] = read_u32(b, start);
        i += 1;
    }
    proof {
        assert(ids@.take(count as int) =~= ids_at(b@, at as int, count as int));
    }
    Ok(ids)
}

/// The storage permissions of an application: the identifier under which
/// it writes, if it may write, and up to `L` identifiers each whose items it
/// may read and modify.
#[derive(Clone, Copy, Debug)]
pub struct TbfHeaderV2StoragePermissions<const L: usize> {
    pub(crate) write_id: Option<u32>,
    pub(crate) read_length: u16,
    pub(crate) read_ids: [u32; L],
    pub(crate) modify_length: u16,
    pub(crate) modify_ids: [u32; L],
}

/// What a storage permissions record says.
pub struct StoragePermissionsModel {
    /// The identifier under which the application writes; never zero.
    pub write_id: Option<u32>,
    /// The identifiers whose items the application may read.
    pub read_ids: Seq<u32>,
    /// The identifiers whose items the application may modify.
    pub modify_ids: Seq<u32>,
}

impl<const L: usize> TbfHeaderV2StoragePermissions<L> {
    /// No more identifiers are recorded than the record can hold, the places
    /// that hold none are zero, and a write identifier is not zero.
    #[verifier::type_invariant]
    pub open(crate) spec fn well_formed(self) -> bool {
        &&& self.read_length <= L
        &&& self.modify_length <= L
        &&& self.write_id != Some(0u32)
        &&& unused_are_zero(self.read_ids@, self.read_length as int)
        &&& unused_are_zero(self.modify_ids@, self.modify_length as int)
    }

    /// What the record says.
    pub open(crate) spec fn model(self) -> StoragePermissionsModel {
        StoragePermissionsModel {
            write_id: self.write_id,
            read_ids: self.read_ids@.take(self.read_length as int),
            modify_ids: self.modify_ids@.take(self.modify_length as int),
        }
    }

    /// What decoding the storage permissions from `b` gives: the write
    /// identifier in 4 bytes, where zero stands for none; the count of read
    /// identifiers in 2 bytes and the identifiers; then the same for the
    /// modify identifiers.
    pub open spec fn parsed(b: Seq<u8>) -> Result<StoragePermissionsModel, TbfParseError> {
        if b.len() < 6 {
            Err(TbfParseError::NotEnoughFlash)
        } else {
            let write = le_u32(b, 0);
            let read_length = le_u16(b, 4) as int;
            let read_end = 6 + 4 * read_length;
            match ids_parsed(b, 6, read_length, L as int) {
                Err(e) => Err(e),
                Ok(read_ids) => if b.len() < read_end + 2 {
                    Err(TbfParseError::NotEnoughFlash)
                } else {
                    match ids_parsed(b, read_end + 2, le_u16(b, read_end) as int, L as int) {
                        Err(e) => Err(e),
                        Ok(modify_ids) => Ok(
                            StoragePermissionsModel {
                                write_id: if write == 0 {
                                    None
                                } else {
                                    Some(write)
                                },
                                read_ids,
                                modify_ids,
                            },
                        ),
                    }
                },
            }
        }
    }

    /// Decodes the storage permissions. More than `L` identifiers of either
    /// kind are refused.
    pub fn try_from(b: &[u8]) -> (r: Result<Self, TbfParseError>)
        ensures
            match Self::parsed(b@) {
                Ok(model) => r is Ok && r->Ok_0.model() == model,
                Err(e) => r == Err::<Self, TbfParseError>(e),
            },
    {
        if b.len() < 6 {
            return Err(TbfParseError::NotEnoughFlash);
        }
        let write = read_u32(b, 0);
        let write_id = if write == 0 {
            None
        } else {
            Some(write)
        };
        let read_length = read_u16(b, 4);
        let read_ids: [u32; L] = match read_id_list(b, 6, read_length) {
            Ok(ids) => ids,
            Err(e) => {
                return Err(e);
            },
        };
        let read_end: usize = 6 + 4 * (read_length as usize);
        if b.len() - read_end < 2 {
            return Err(TbfParseError::NotEnoughFlash);
        }
        let modify_length = read_u16(b, read_end);
        let modify_ids: [u32; L] = match read_id_list(b, read_end + 2, modify_length) {
            Ok(ids) => ids,
            Err(e) => {
                return Err(e);
            },
        };
        Ok(
            TbfHeaderV2StoragePermissions {
                write_id,
                read_length,
                read_ids,
                modify_length,
                modify_ids,
            },
        )
    }
}

/// The kinds of credentials that a footer can hold.
#[derive(Clone, Copy, Debug, PartialEq, Eq)]
pub enum TbfFooterV2CredentialsType {
    Reserved,
    Rsa3072Key,
    Rsa4096Key,
    SHA256,
    SHA384,
    SHA512,
}

/// A hash of `L` bytes.
#[derive(Clone, Copy, Debug)]
pub struct TbfFooterV2SHA<const L: usize> {
    pub(crate) hash: [u8; L],
}

/// A public key of `L` bytes and a signature of as many.
#[derive(Clone, Copy, Debug)]
pub struct TbfFooterV2RSA<const L: usize> {
    pub(crate) public_key: [u8; L],
    pub(crate) signature: [u8; L],
}

/// The credentials that one footer holds.
#[derive(Clone, Copy, Debug)]
pub enum TbfFooterV2Credentials {
    /// Padding. The value is the length of the footer's body.
    Reserved(u32),
    Rsa3072Key(TbfFooterV2RSA<384>),
    Rsa4096Key(TbfFooterV2RSA<512>),
    SHA256(TbfFooterV2SHA<32>),
    SHA384(TbfFooterV2SHA<48>),
    SHA512(TbfFooterV2SHA<64>),
}

/// What a credentials footer says.
pub enum CredentialsModel {
    Reserved(u32),
    Rsa3072Key { public_key: Seq<u8>, signature: Seq<u8> },
    Rsa4096Key { public_key: Seq<u8>, signature: Seq<u8> },
    SHA256(Seq<u8>),
    SHA384(Seq<u8>),
    SHA512(Seq<u8>),
}

impl<const L: usize> TbfFooterV2SHA<L> {
    /// The bytes of the hash.
    pub open(crate) spec fn digest(self) -> Seq<u8> {
        self.hash@
    }

    /// The kind of hash, which its length tells. A length that no kind has
    /// is an internal error.
    pub fn get_format(&self) -> (r: Result<TbfFooterV2CredentialsType, TbfParseError>)
        ensures
            r == (if L == 32 {
                Ok::<TbfFooterV2CredentialsType, TbfParseError>(TbfFooterV2CredentialsType::SHA256)
            } else if L == 48 {
                Ok(TbfFooterV2CredentialsType::SHA384)
            } else if L == 64 {
                Ok(TbfFooterV2CredentialsType::SHA512)
            } else {
                Err(TbfParseError::InternalError)
            }),
    {
        match L {
            32 => Ok(TbfFooterV2CredentialsType::SHA256),
            48 => Ok(TbfFooterV2CredentialsType::SHA384),
            64 => Ok(TbfFooterV2CredentialsType::SHA512),
            _ => Err(TbfParseError::InternalError),
        }
    }

    /// The hash.
    pub fn get_hash(&self) -> (r: &[u8; L])
        ensures
            r@ == self.digest(),
    {
        &self.hash
    }
}

impl<const L: usize> TbfFooterV2RSA<L> {
    /// The bytes of the public key.
    pub open(crate) spec fn key_bytes(self) -> Seq<u8> {
        self.public_key@
    }

    /// The bytes of the signature.
    pub open(crate) spec fn signature_bytes(self) -> Seq<u8> {
        self.signature@
    }

    /// The kind of key, which its length tells. A length that no kind has is
    /// an internal error.
    pub fn get_format(&self) -> (r: Result<TbfFooterV2CredentialsType, TbfParseError>)
        ensures
            r == (if L == 384 {
                Ok::<TbfFooterV2CredentialsType, TbfParseError>(
                    TbfFooterV2CredentialsType::Rsa3072Key,
                )
            } else if L == 512 {
                Ok(TbfFooterV2CredentialsType::Rsa4096Key)
            } else {
                Err(TbfParseError::InternalError)
            }),
    {
        match L {
            384 => Ok(TbfFooterV2CredentialsType::Rsa3072Key),
            512 => Ok(TbfFooterV2CredentialsType::Rsa4096Key),
            _ => Err(TbfParseError::InternalError),
        }
    }

    /// The public key.
    pub fn get_public_key(&self) -> (r: &[u8; L])
        ensures
            r@ == self.key_bytes(),
    {
        &self.public_key
    }

    /// The signature.
    pub fn get_signature(&self) -> (r: &[u8; L])
        ensures
            r@ == self.signature_bytes(),
    {
        &self.signature
    }
}

/// Copies the `L` bytes at `at` out of `b`.
pub(crate) fn copy_array<const L: usize>(b: &[u8], at: usize) -> (r: [u8; L])
    requires
        at + L <= b@.len(),
    ensures
        r@ == b@.subrange(at as int, at + L),
{
    let mut out = [0u8; L];
    let mut i: usize = 0;
    assert(b@.len() == b.len());
    while i < L
        invariant
            i <= L,
            at + L <= b@.len(),
            b@.len() == b.len(),
            out@.len() == L,
            forall|j: int| 0 <= j < i ==> out@[j] == b@[at + j],
        decreases L - i,
    {
        out[i] = b[at + i];
        i += 1;
    }
    proof {
        assert(out@ =~= b@.subrange(at as int, at + L));
    }
    out
}

impl TbfFooterV2Credentials {
    /// What the credentials say.
    pub open(crate) spec fn model(self) -> CredentialsModel {
        match self {
            TbfFooterV2Credentials::Reserved(padding) => CredentialsModel::Reserved(padding),
            TbfFooterV2Credentials::Rsa3072Key(rsa) => CredentialsModel::Rsa3072Key {
                public_key: rsa.key_bytes(),
                signature: rsa.signature_bytes(),
            },
            TbfFooterV2Credentials::Rsa4096Key(rsa) => CredentialsModel::Rsa4096Key {
                public_key: rsa.key_bytes(),
                signature: rsa.signature_bytes(),
            },
            TbfFooterV2Credentials::SHA256(sha) => CredentialsModel::SHA256(sha.digest()),
            TbfFooterV2Credentials::SHA384(sha) => CredentialsModel::SHA384(sha.digest()),
            TbfFooterV2Credentials::SHA512(sha) => CredentialsModel::SHA512(sha.digest()),
        }
    }

    /// The length of what follows the format number, for each format:
    /// nothing for padding, the hash, or the key and the signature.
    pub open spec fn payload_length(format: u32) -> int {
        if format == 1 {
            768
        } else if format == 2 {
            1024
        } else if format == 3 {
            32
        } else if format == 4 {
            48
        } else if format == 5 {
            64
        } else {
            0
        }
    }

    /// What decoding the body of a footer gives: a format number in 4 bytes,
    /// then what that format holds. Padding records the length of the whole
    /// body, as far as 32 bits hold it.
    pub open spec fn parsed(b: Seq<u8>) -> Result<CredentialsModel, TbfParseError> {
        if b.len() < 4 {
            Err(TbfParseError::InternalError)
        } else {
            let format = le_u32(b, 0);
            if format > 5 {
                Err(TbfParseError::InternalError)
            } else if b.len() < 4 + Self::payload_length(format) {
                Err(TbfParseError::NotEnoughFlash)
            } else if format == 0 {
                Ok(CredentialsModel::Reserved(b.len() as u32))
            } else if format == 1 {
                Ok(
                    CredentialsModel::Rsa3072Key {
                        public_key: b.subrange(4, 388),
                        signature: b.subrange(388, 772),
                    },
                )
            } else if format == 2 {
                Ok(
                    CredentialsModel::Rsa4096Key {
                        public_key: b.subrange(4, 516),
                        signature: b.subrange(516, 1028),
                    },
                )
            } else if format == 3 {
                Ok(CredentialsModel::SHA256(b.subrange(4, 36)))
            } else if format == 4 {
                Ok(CredentialsModel::SHA384(b.subrange(4, 52)))
            } else {
                Ok(CredentialsModel::SHA512(b.subrange(4, 68)))
            }
        }
    }

    /// Decodes the credentials from the body of a footer.
    pub fn try_from(b: &[u8]) -> (r: Result<TbfFooterV2Credentials, TbfParseError>)
        ensures
            match Self::parsed(b@) {
                Ok(model) => r is Ok && r->Ok_0.model() == model,
                Err(e) => r == Err::<TbfFooterV2Credentials, TbfParseError>(e),
            },
    {
        if b.len() < 4 {
            return Err(TbfParseError::InternalError);
        }
        let format: u32 = read_u32(b, 0);
        let ftype = match format {
            0 => TbfFooterV2CredentialsType::Reserved,
            1 => TbfFooterV2CredentialsType::Rsa3072Key,
            2 => TbfFooterV2CredentialsType::Rsa4096Key,
            3 => TbfFooterV2CredentialsType::SHA256,
            4 => TbfFooterV2CredentialsType::SHA384,
            5 => TbfFooterV2CredentialsType::SHA512,
            _ => {
                return Err(TbfParseError::InternalError);
            },
        };
        let length: usize = match ftype {
            TbfFooterV2CredentialsType::Reserved => 0,
            TbfFooterV2CredentialsType::Rsa3072Key => 768,
            TbfFooterV2CredentialsType::Rsa4096Key => 1024,
            TbfFooterV2CredentialsType::SHA256 => 32,
            TbfFooterV2CredentialsType::SHA384 => 48,
            TbfFooterV2CredentialsType::SHA512 => 64,
        };
        if b.len() - 4 < length {
            return Err(TbfParseError::NotEnoughFlash);
        }
        match ftype {
            TbfFooterV2CredentialsType::Reserved => Ok(
                TbfFooterV2Credentials::Reserved(
                    #[verifier::truncate]
                    (b.len() as u32),
                ),
            ),
            TbfFooterV2CredentialsType::SHA256 => Ok(
                TbfFooterV2Credentials::SHA256(TbfFooterV2SHA { hash: copy_array(b, 4) }),
            ),
            TbfFooterV2CredentialsType::SHA384 => Ok(
                TbfFooterV2Credentials::SHA384(TbfFooterV2SHA { hash: copy_array(b, 4) }),
            ),
            TbfFooterV2CredentialsType::SHA512 => Ok(
                TbfFooterV2Credentials::SHA512(TbfFooterV2SHA { hash: copy_array(b, 4) }),
            ),
            TbfFooterV2CredentialsType::Rsa3072Key => Ok(
                TbfFooterV2Credentials::Rsa3072Key(
                    TbfFooterV2RSA {
                        public_key: copy_array(b, 4),
                        signature: copy_array(b, 4 + length / 2),
                    },
                ),
            ),
            TbfFooterV2CredentialsType::Rsa4096Key => Ok(
                TbfFooterV2Credentials::Rsa4096Key(
                    TbfFooterV2RSA {
                        public_key: copy_array(b, 4),
                        signature: copy_array(b, 4 + length / 2),
                    },
                ),
            ),
        }
    }
}

/// The command permissions that a header gives for one driver.
///
/// `TbfHeader::get_command_permissions` returns them.
#[derive(Clone, Copy, Debug, PartialEq, Eq)]
pub enum CommandPermissions {
    /// The header records no permissions for any driver.
    NoPermsAtAll,
    /// The header records permissions, but none for the driver asked for.
    NoPermsThisDriver,
    /// The bitmask of the allowed commands, counted from the offset asked
    /// for.
    Mask(u64),
}

/// All the parts of the header of an application.
///
/// It holds up to four writeable flash regions, and a main entry or a
/// program entry, never both: where the bytes hold both, the program entry
/// is kept.
#[derive(Clone, Copy, Debug)]
pub struct TbfHeaderV2 {
    pub(crate) base: TbfHeaderV2Base,
    pub(crate) main: Option<TbfHeaderV2Main>,
    pub(crate) program: Option<TbfHeaderV2Program>,
    pub(crate) package_name: Option<TbfHeaderV2PackageName<64>>,
    pub(crate) writeable_regions: Option<[Option<TbfHeaderV2WriteableFlashRegion>; 4]>,
    pub(crate) fixed_addresses: Option<TbfHeaderV2FixedAddresses>,
    pub(crate) permissions: Option<TbfHeaderV2Permissions<8>>,
    pub(crate) storage_permissions: Option<TbfHeaderV2StoragePermissions<NUM_STORAGE_PERMISSIONS>>,
    pub(crate) kernel_version: Option<TbfHeaderV2KernelVersion>,
}

/// The header of an object in flash: that of an application, or the base
/// alone where the object is padding between applications.
#[derive(Clone, Copy, Debug)]
pub enum TbfHeader {
    TbfHeaderV2(TbfHeaderV2),
    Padding(TbfHeaderV2Base),
}

/// What the header of an application says.
pub struct TbfHeaderV2Model {
    pub base: TbfHeaderV2Base,
    pub main: Option<TbfHeaderV2Main>,
    pub program: Option<TbfHeaderV2Program>,
    /// The bytes of the package name.
    pub package_name: Option<Seq<u8>>,
    pub writeable_regions: Option<Seq<TbfHeaderV2WriteableFlashRegion>>,
    pub fixed_addresses: Option<TbfHeaderV2FixedAddresses>,
    pub permissions: Option<Seq<TbfHeaderDriverPermission>>,
    pub storage_permissions: Option<StoragePermissionsModel>,
    pub kernel_version: Option<TbfHeaderV2KernelVersion>,
}

/// What a header says.
pub enum TbfHeaderModel {
    TbfHeaderV2(TbfHeaderV2Model),
    Padding(TbfHeaderV2Base),
}

/// The number of regions in a list whose regions come first.
pub open spec fn region_count(regions: Seq<Option<TbfHeaderV2WriteableFlashRegion>>) -> int
    decreases regions.len(),
{
    if regions.len() == 0 || regions[0] is None {
        0
    } else {
        1 + region_count(regions.skip(1))
    }
}

/// The regions of a list whose regions come first.
pub open spec fn regions_of(regions: Seq<Option<TbfHeaderV2WriteableFlashRegion>>) -> Seq<
    TbfHeaderV2WriteableFlashRegion,
> {
    Seq::new(region_count(regions) as nat, |i: int| regions[i]->Some_0)
}

/// In `regions` no region follows an empty place.
pub open spec fn regions_first(regions: Seq<Option<TbfHeaderV2WriteableFlashRegion>>) -> bool {
    forall|i: int, j: int|
        0 <= i < j < regions.len() && regions[j] is Some ==> #[trigger] regions[i] is Some
            || #[trigger] regions[j] is None
}

/// The first `n` places of `regions` hold a region and the others none.
pub proof fn lemma_region_count(regions: Seq<Option<TbfHeaderV2WriteableFlashRegion>>, n: int)
    requires
        0 <= n <= regions.len(),
        forall|i: int| 0 <= i < n ==> regions[i] is Some,
        forall|i: int| n <= i < regions.len() ==> regions[i] is None,
    ensures
        region_count(regions) == n,
        region_count(regions) <= regions.len(),
    decreases regions.len(),
{
    if regions.len() == 0 || regions[0] is None {
    } else {
        lemma_region_count(regions.skip(1), n - 1);
    }
}

/// A list holds no more regions than it has places, and those that are
/// counted are regions.
pub proof fn lemma_region_count_bounds(regions: Seq<Option<TbfHeaderV2WriteableFlashRegion>>)
    ensures
        0 <= region_count(regions) <= regions.len(),
        forall|i: int| 0 <= i < region_count(regions) ==> regions[i] is Some,
        region_count(regions) < regions.len() ==> regions[region_count(regions)] is None,
    decreases regions.len(),
{
    if regions.len() == 0 || regions[0] is None {
    } else {
        let rest = regions.skip(1);
        lemma_region_count_bounds(rest);
        assert forall|i: int| 0 <= i < region_count(regions) implies regions[i] is Some by {
            if i > 0 {
                assert(rest[i - 1] == regions[i]);
            }
        }
        if region_count(regions) < regions.len() {
            assert(rest[region_count(rest)] == regions[region_count(regions)]);
        }
    }
}

impl TbfHeaderV2 {
    /// The header has a main entry or a program entry, not both, and its
    /// writeable regions come first in their list.
    #[verifier::type_invariant]
    pub open(crate) spec fn well_formed(self) -> bool {
        &&& self.main is Some != self.program is Some
        &&& self.writeable_regions matches Some(regions) ==> regions_first(regions@)
    }

    /// What the header says.
    pub open(crate) spec fn model(self) -> TbfHeaderV2Model {
        TbfHeaderV2Model {
            base: self.base,
            main: self.main,
            program: self.program,
            package_name: match self.package_name {
                Some(name) => Some(name.name_bytes()),
                None => None,
            },
            writeable_regions: match self.writeable_regions {
                Some(regions) => Some(regions_of(regions@)),
                None => None,
            },
            fixed_addresses: self.fixed_addresses,
            permissions: match self.permissions {
                Some(permissions) => Some(permissions.entries()),
                None => None,
            },
            storage_permissions: match self.storage_permissions {
                Some(permissions) => Some(permissions.model()),
                None => None,
            },
            kernel_version: self.kernel_version,
        }
    }
}

/// The sum of two 32-bit numbers as 32 bits hold it.
pub open spec fn wrapped_sum(a: u32, b: u32) -> u32 {
    if a + b <= u32::MAX {
        (a + b) as u32
    } else {
        (a + b - 0x1_0000_0000) as u32
    }
}

impl TbfHeaderV2Model {
    /// A header of an application has a main entry or a program entry, not
    /// both.
    pub open spec fn is_application(self) -> bool {
        self.main is Some != self.program is Some
    }

    /// The amount of RAM that the application asks for.
    pub open spec fn minimum_app_ram_size(self) -> u32 {
        match (self.program, self.main) {
            (Some(p), _) => p.minimum_ram_size,
            (None, Some(m)) => m.minimum_ram_size,
            (None, None) => 0,
        }
    }

    /// The length of the protected region: the header and the trailer.
    pub open spec fn protected_size(self) -> u32 {
        match (self.program, self.main) {
            (Some(p), _) => wrapped_sum(self.base.header_size as u32, p.protected_trailer_size),
            (None, Some(m)) => wrapped_sum(self.base.header_size as u32, m.protected_trailer_size),
            (None, None) => 0,
        }
    }

    /// The offset of the first instruction from the start of the object.
    pub open spec fn init_function_offset(self) -> u32 {
        match (self.program, self.main) {
            (Some(p), _) => wrapped_sum(p.init_fn_offset, self.base.header_size as u32),
            (None, Some(m)) => wrapped_sum(m.init_fn_offset, self.base.header_size as u32),
            (None, None) => 0,
        }
    }

    /// The offset at which the binary ends: what the program entry gives,
    /// else the length of the object.
    pub open spec fn binary_end(self) -> u32 {
        match self.program {
            Some(p) => p.binary_end_offset,
            None => self.base.total_size,
        }
    }

    /// The version of the binary, which only a program entry gives.
    pub open spec fn binary_version(self) -> u32 {
        match self.program {
            Some(p) => p.version,
            None => 0,
        }
    }

    /// The permissions for `driver` at `offset`: the mask of the first entry
    /// for both; an empty mask where there are entries for the driver and
    /// none for the offset.
    pub open spec fn command_permissions(self, driver: u32, offset: u32) -> CommandPermissions {
        match self.permissions {
            None => CommandPermissions::NoPermsAtAll,
            Some(entries) => lookup_permissions(entries, driver, offset),
        }
    }
}

/// Whether `entry` is for `driver` at `offset`.
pub open spec fn permission_matches(
    entry: TbfHeaderDriverPermission,
    driver: u32,
    offset: u32,
) -> bool {
    entry.driver_number == driver && entry.offset == offset
}

/// The permissions that `entries` give for `driver` at `offset`.
pub open spec fn lookup_permissions(
    entries: Seq<TbfHeaderDriverPermission>,
    driver: u32,
    offset: u32,
) -> CommandPermissions {
    if exists|i: int| 0 <= i < entries.len() && permission_matches(entries[i], driver, offset) {
        let first = choose|i: int|
            0 <= i < entries.len() && permission_matches(entries[i], driver, offset) && forall|
                j: int,
            |
                0 <= j < i ==> !permission_matches(entries[j], driver, offset);
        CommandPermissions::Mask(entries[first].allowed_commands)
    } else if exists|i: int| 0 <= i < entries.len() && (#[trigger] entries[i]).driver_number == driver {
        CommandPermissions::Mask(0)
    } else {
        CommandPermissions::NoPermsThisDriver
    }
}

/// The entry at `i` decides the lookup where it is the first for `driver` at
/// `offset`.
pub proof fn lemma_first_match(
    entries: Seq<TbfHeaderDriverPermission>,
    driver: u32,
    offset: u32,
    i: int,
)
    requires
        0 <= i < entries.len(),
        permission_matches(entries[i], driver, offset),
        forall|j: int| 0 <= j < i ==> !permission_matches(entries[j], driver, offset),
    ensures
        lookup_permissions(entries, driver, offset) == CommandPermissions::Mask(
            entries[i].allowed_commands,
        ),
{
    let first = choose|k: int|
        0 <= k < entries.len() && permission_matches(entries[k], driver, offset) && forall|j: int|
            0 <= j < k ==> !permission_matches(entries[j], driver, offset);
    assert(first == i);
}

impl TbfHeader {
    /// What the header says.
    pub open spec fn model(self) -> TbfHeaderModel {
        match self {
            TbfHeader::TbfHeaderV2(hd) => TbfHeaderModel::TbfHeaderV2(hd.model()),
            TbfHeader::Padding(base) => TbfHeaderModel::Padding(base),
        }
    }

    /// The length of the header, as its base gives it.
    pub fn length(&self) -> (r: u16)
        ensures
            r == match self.model() {
                TbfHeaderModel::TbfHeaderV2(hd) => hd.base.header_size,
                TbfHeaderModel::Padding(base) => base.header_size,
            },
    {
        match self {
            TbfHeader::TbfHeaderV2(hd) => hd.base.header_size,
            TbfHeader::Padding(base) => base.header_size,
        }
    }

    /// Whether this is an application, and not padding between applications.
    pub fn is_app(&self) -> (r: bool)
        ensures
            r == (self.model() is TbfHeaderV2),
            r ==> self.model()->TbfHeaderV2_0.is_application(),
    {
        match self {
            TbfHeader::TbfHeaderV2(hd) => {
                proof {
                    use_type_invariant(hd);
                }
                true
            },
            TbfHeader::Padding(_) => false,
        }
    }

    /// Whether the application is enabled: the lowest bit of its flags is
    /// set. The kernel does not start a disabled application. Padding is
    /// not enabled.
    pub fn enabled(&self) -> (r: bool)
        ensures
            r == match self.model() {
                TbfHeaderModel::TbfHeaderV2(hd) => hd.base.flags & 1 == 1,
                TbfHeaderModel::Padding(_) => false,
            },
    {
        match self {
            TbfHeader::TbfHeaderV2(hd) => hd.base.flags & 0x00000001 == 1,
            TbfHeader::Padding(_) => false,
        }
    }

    /// The amount of RAM that the application asks for: that of the program
    /// entry, else that of the main entry. Padding asks for none.
    pub fn get_minimum_app_ram_size(&self) -> (r: u32)
        ensures
            r == match self.model() {
                TbfHeaderModel::TbfHeaderV2(hd) => hd.minimum_app_ram_size(),
                TbfHeaderModel::Padding(_) => 0,
            },
    {
        match self {
            TbfHeader::TbfHeaderV2(hd) => {
                match (&hd.program, &hd.main) {
                    (Some(p), _) => p.minimum_ram_size,
                    (None, Some(m)) => m.minimum_ram_size,
                    (None, None) => 0,
                }
            },
            TbfHeader::Padding(_) => 0,
        }
    }

    /// The number of bytes from the start of the object that are for the
    /// kernel alone: the length of the header and of the protected trailer,
    /// as far as 32 bits hold the sum. Padding has none.
    pub fn get_protected_size(&self) -> (r: u32)
        ensures
            r == match self.model() {
                TbfHeaderModel::TbfHeaderV2(hd) => hd.protected_size(),
                TbfHeaderModel::Padding(_) => 0,
            },
    {
        match self {
            TbfHeader::TbfHeaderV2(hd) => {
                match (&hd.program, &hd.main) {
                    (Some(p), _) => (hd.base.header_size as u32).wrapping_add(
                        p.protected_trailer_size,
                    ),
                    (None, Some(m)) => (hd.base.header_size as u32).wrapping_add(
                        m.protected_trailer_size,
                    ),
                    (None, None) => 0,
                }
            },
            TbfHeader::Padding(_) => 0,
        }
    }

    /// The offset of the binary from the start of the object. The binary
    /// starts where the protected region ends.
    pub fn get_app_start_offset(&self) -> (r: u32)
        ensures
            r == match self.model() {
                TbfHeaderModel::TbfHeaderV2(hd) => hd.protected_size(),
                TbfHeaderModel::Padding(_) => 0,
            },
    {
        self.get_protected_size()
    }

    /// The offset from the start of the object at which the application
    /// starts to execute: the offset that its entry gives and the length of
    /// the header, as far as 32 bits hold the sum.
    pub fn get_init_function_offset(&self) -> (r: u32)
        ensures
            r == match self.model() {
                TbfHeaderModel::TbfHeaderV2(hd) => hd.init_function_offset(),
                TbfHeaderModel::Padding(_) => 0,
            },
    {
        match self {
            TbfHeader::TbfHeaderV2(hd) => {
                match (&hd.program, &hd.main) {
                    (Some(p), _) => p.init_fn_offset.wrapping_add(hd.base.header_size as u32),
                    (None, Some(m)) => m.init_fn_offset.wrapping_add(hd.base.header_size as u32),
                    (None, None) => 0,
                }
            },
            TbfHeader::Padding(_) => 0,
        }
    }

    /// The name of the package, if the header gives one.
    pub fn get_package_name(&self) -> (r: Option<&str>)
        ensures
            match self.model() {
                TbfHeaderModel::TbfHeaderV2(hd) => match hd.package_name {
                    Some(name) => r is Some && r->Some_0.spec_bytes() == name,
                    None => r is None,
                },
                TbfHeaderModel::Padding(_) => r is None,
            },
    {
        match self {
            TbfHeader::TbfHeaderV2(hd) => match &hd.package_name {
                Some(name) => {
                    proof {
                        use_type_invariant(name);
                    }
                    let bytes = slice_subrange(name.buffer.as_slice(), 0, name.size as usize);
                    assert(bytes@ == name.name_bytes());
                    match from_utf8(bytes) {
                        Ok(text) => Some(text),
                        Err(_) => unreached(),
                    }
                },
                None => None,
            },
            TbfHeader::Padding(_) => None,
        }
    }

    /// The number of writeable flash regions that the header gives.
    pub fn number_writeable_flash_regions(&self) -> (r: usize)
        ensures
            r == match self.model() {
                TbfHeaderModel::TbfHeaderV2(hd) => match hd.writeable_regions {
                    Some(regions) => regions.len(),
                    None => 0,
                },
                TbfHeaderModel::Padding(_) => 0,
            },
    {
        match self {
            TbfHeader::TbfHeaderV2(hd) => match &hd.writeable_regions {
                Some(regions) => {
                    proof {
                        use_type_invariant(hd);
                        lemma_region_count_bounds(regions@);
                    }
                    let ghost count = region_count(regions@);
                    let mut found: usize = 0;
                    let mut i: usize = 0;
                    while i < 4
                        invariant
                            i <= 4,
                            regions@.len() == 4,
                            regions_first(regions@),
                            0 <= count <= 4,
                            forall|k: int| 0 <= k < count ==> regions@[k] is Some,
                            count < 4 ==> regions@[count] is None,
                            found == (if i <= count {
                                i as int
                            } else {
                                count
                            }),
                        decreases 4 - i,
                    {
                        if regions[i].is_some() {
                            proof {
                                if i >= count {
                                    assert(regions@[count] is None);
                                    assert(regions@[i as int] is Some);
                                }
                            }
                            found += 1;
                        }
                        i += 1;
                    }
                    found
                },
                None => 0,
            },
            TbfHeader::Padding(_) => 0,
        }
    }

    /// The offset and the size of the writeable flash region `index`, and
    /// two zeros where the header has no such region.
    pub fn get_writeable_flash_region(&self, index: usize) -> (r: (u32, u32))
        ensures
            r == match self.model() {
                TbfHeaderModel::TbfHeaderV2(hd) => match hd.writeable_regions {
                    Some(regions) => if index < regions.len() {
                        (
                            regions[index as int].writeable_flash_region_offset,
                            regions[index as int].writeable_flash_region_size,
                        )
                    } else {
                        (0u32, 0u32)
                    },
                    None => (0u32, 0u32),
                },
                TbfHeaderModel::Padding(_) => (0u32, 0u32),
            },
    {
        match self {
            TbfHeader::TbfHeaderV2(hd) => match &hd.writeable_regions {
                Some(regions) => {
                    proof {
                        use_type_invariant(hd);
                        lemma_region_count_bounds(regions@);
                    }
                    if index < 4 {
                        match &regions[index] {
                            Some(region) => (
                                region.writeable_flash_region_offset,
                                region.writeable_flash_region_size,
                            ),
                            None => (0, 0),
                        }
                    } else {
                        (0, 0)
                    }
                },
                None => (0, 0),
            },
            TbfHeader::Padding(_) => (0, 0),
        }
    }

    /// The address in RAM that the application was linked for, and `None`
    /// where it runs at any address.
    pub fn get_fixed_address_ram(&self) -> (r: Option<u32>)
        ensures
            r == match self.model() {
                TbfHeaderModel::TbfHeaderV2(hd) => match hd.fixed_addresses {
                    Some(fixed) => if fixed.start_process_ram == 0xFFFF_FFFF {
                        None
                    } else {
                        Some(fixed.start_process_ram)
                    },
                    None => None,
                },
                TbfHeaderModel::Padding(_) => None,
            },
    {
        match self {
            TbfHeader::TbfHeaderV2(hd) => match &hd.fixed_addresses {
                Some(fixed) => if fixed.start_process_ram == 0xFFFF_FFFF {
                    None
                } else {
                    Some(fixed.start_process_ram)
                },
                None => None,
            },
            TbfHeader::Padding(_) => None,
        }
    }

    /// The address in flash that the application was linked for, and `None`
    /// where it runs at any address.
    pub fn get_fixed_address_flash(&self) -> (r: Option<u32>)
        ensures
            r == match self.model() {
                TbfHeaderModel::TbfHeaderV2(hd) => match hd.fixed_addresses {
                    Some(fixed) => if fixed.start_process_flash == 0xFFFF_FFFF {
                        None
                    } else {
                        Some(fixed.start_process_flash)
                    },
                    None => None,
                },
                TbfHeaderModel::Padding(_) => None,
            },
    {
        match self {
            TbfHeader::TbfHeaderV2(hd) => match &hd.fixed_addresses {
                Some(fixed) => if fixed.start_process_flash == 0xFFFF_FFFF {
                    None
                } else {
                    Some(fixed.start_process_flash)
                },
                None => None,
            },
            TbfHeader::Padding(_) => None,
        }
    }

    /// The permissions for a driver and an offset.
    ///
    /// - `driver_num`: the driver to look up, of which the low 32 bits count.
    /// - `offset`: the offset to look up, of which the low 32 bits count. An
    ///   entry with offset 1 covers the commands 64 to 127.
    ///
    /// Where the header has an entry for both, the result is the mask of the
    /// first such entry. Where it has entries for the driver and none for
    /// the offset, the result is an empty mask: what is not allowed is
    /// refused.
    #[verifier::loop_isolation(false)]
    pub fn get_command_permissions(&self, driver_num: usize, offset: usize) -> (r:
        CommandPermissions)
        ensures
            r == match self.model() {
                TbfHeaderModel::TbfHeaderV2(hd) => hd.command_permissions(
                    #[verifier::truncate]
                    (driver_num as u32),
                    #[verifier::truncate]
                    (offset as u32),
                ),
                TbfHeaderModel::Padding(_) => CommandPermissions::NoPermsAtAll,
            },
    {
        match self {
            TbfHeader::TbfHeaderV2(hd) => match &hd.permissions {
                Some(permissions) => {
                    proof {
                        use_type_invariant(permissions);
                    }
                    let driver: u32 = #[verifier::truncate]
                    (driver_num as u32);
                    let wanted: u32 = #[verifier::truncate]
                    (offset as u32);
                    let ghost entries = permissions.entries();
                    let mut found_driver_num: bool = false;
                    let mut i: usize = 0;
                    while i < permissions.length as usize
                        invariant
                            i <= permissions.length <= 8,
                            entries == permissions.entries(),
                            forall|j: int|
                                0 <= j < i ==> !permission_matches(entries[j], driver, wanted),
                            found_driver_num == exists|j: int|
                                0 <= j < i && (#[trigger] entries[j]).driver_number == driver,
                        decreases permissions.length - i,
                    {
                        let perm = &permissions.perms[i];
                        assert(*perm == entries[i as int]);
                        if perm.driver_number == driver {
                            found_driver_num = true;
                            if perm.offset == wanted {
                                proof {
                                    lemma_first_match(entries, driver, wanted, i as int);
                                }
                                return CommandPermissions::Mask(perm.allowed_commands);
                            }
                        }
                        i += 1;
                    }
                    if found_driver_num {
                        CommandPermissions::Mask(0)
                    } else {
                        CommandPermissions::NoPermsThisDriver
                    }
                },
                None => CommandPermissions::NoPermsAtAll,
            },
            TbfHeader::Padding(_) => CommandPermissions::NoPermsAtAll,
        }
    }

    /// The identifier under which the application writes to storage. It is
    /// never zero. `None` says that the application may not store new items.
    pub fn get_storage_write_id(&self) -> (r: Option<u32>)
        ensures
            r == match self.model() {
                TbfHeaderModel::TbfHeaderV2(hd) => match hd.storage_permissions {
                    Some(permissions) => permissions.write_id,
                    None => None,
                },
                TbfHeaderModel::Padding(_) => None,
            },
            r != Some(0u32),
    {
        match self {
            TbfHeader::TbfHeaderV2(hd) => match &hd.storage_permissions {
                Some(permissions) => {
                    proof {
                        use_type_invariant(permissions);
                    }
                    permissions.write_id
                },
                None => None,
            },
            TbfHeader::Padding(_) => None,
        }
    }

    /// The number of identifiers whose items the application may read, and
    /// the identifiers, which come first in the list; the other places hold
    /// zero. `None` where the header has no storage permissions.
    pub fn get_storage_read_ids(&self) -> (r: Option<(usize, [u32; NUM_STORAGE_PERMISSIONS])>)
        ensures
            match self.model() {
                TbfHeaderModel::TbfHeaderV2(hd) => match hd.storage_permissions {
                    Some(permissions) => r is Some && r->Some_0.0 == permissions.read_ids.len()
                        && r->Some_0.1@.take(r->Some_0.0 as int) == permissions.read_ids
                        && unused_are_zero(r->Some_0.1@, r->Some_0.0 as int),
                    None => r is None,
                },
                TbfHeaderModel::Padding(_) => r is None,
            },
    {
        match self {
            TbfHeader::TbfHeaderV2(hd) => match &hd.storage_permissions {
                Some(permissions) => {
                    proof {
                        use_type_invariant(permissions);
                    }
                    Some((permissions.read_length as usize, permissions.read_ids))
                },
                None => None,
            },
            TbfHeader::Padding(_) => None,
        }
    }

    /// The number of identifiers whose items the application may modify, and
    /// the identifiers, which come first in the list; the other places hold
    /// zero. `None` where the header has no storage permissions.
    pub fn get_storage_modify_ids(&self) -> (r: Option<(usize, [u32; NUM_STORAGE_PERMISSIONS])>)
        ensures
            match self.model() {
                TbfHeaderModel::TbfHeaderV2(hd) => match hd.storage_permissions {
                    Some(permissions) => r is Some && r->Some_0.0 == permissions.modify_ids.len()
                        && r->Some_0.1@.take(r->Some_0.0 as int) == permissions.modify_ids
                        && unused_are_zero(r->Some_0.1@, r->Some_0.0 as int),
                    None => r is None,
                },
                TbfHeaderModel::Padding(_) => r is None,
            },
    {
        match self {
            TbfHeader::TbfHeaderV2(hd) => match &hd.storage_permissions {
                Some(permissions) => {
                    proof {
                        use_type_invariant(permissions);
                    }
                    Some((permissions.modify_length as usize, permissions.modify_ids))
                },
                None => None,
            },
            TbfHeader::Padding(_) => None,
        }
    }

    /// The oldest kernel version that the application runs on, as major and
    /// minor number, if the header gives one.
    pub fn get_kernel_version(&self) -> (r: Option<(u16, u16)>)
        ensures
            r == match self.model() {
                TbfHeaderModel::TbfHeaderV2(hd) => match hd.kernel_version {
                    Some(version) => Some((version.major, version.minor)),
                    None => None,
                },
                TbfHeaderModel::Padding(_) => None,
            },
    {
        match self {
            TbfHeader::TbfHeaderV2(hd) => match &hd.kernel_version {
                Some(version) => Some((version.major, version.minor)),
                None => None,
            },
            TbfHeader::Padding(_) => None,
        }
    }

    /// The offset at which the binary ends: what the program entry gives;
    /// with a main entry, the length of the object. Padding has no binary,
    /// and the result is 0.
    pub fn get_binary_end(&self) -> (r: u32)
        ensures
            r == match self.model() {
                TbfHeaderModel::TbfHeaderV2(hd) => hd.binary_end(),
                TbfHeaderModel::Padding(_) => 0,
            },
    {
        match self {
            TbfHeader::TbfHeaderV2(hd) => match &hd.program {
                Some(p) => p.binary_end_offset,
                None => hd.base.total_size,
            },
            TbfHeader::Padding(_) => 0,
        }
    }

    /// The version of the binary, and 0 where the header gives none.
    pub fn get_binary_version(&self) -> (r: u32)
        ensures
            r == match self.model() {
                TbfHeaderModel::TbfHeaderV2(hd) => hd.binary_version(),
                TbfHeaderModel::Padding(_) => 0,
            },
    {
        match self {
            TbfHeader::TbfHeaderV2(hd) => match &hd.program {
                Some(p) => p.version,
                None => 0,
            },
            TbfHeader::Padding(_) => 0,
        }
    }
}

} // verus!
