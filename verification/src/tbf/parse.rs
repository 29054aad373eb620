//! Parsing of headers and footers out of the bytes of an object in flash.

use vstd::prelude::*;
use vstd::slice::slice_subrange;
use crate::tbf::little_endian::{le_u16, le_u32, lemma_le_u32_differs, read_u16, read_u32};
use crate::tbf::types::{
    regions_first,
    regions_of,
    lemma_region_count,
    CredentialsModel,
    InitialTbfParseError,
    TbfFooterV2Credentials,
    TbfHeader,
    TbfHeaderModel,
    TbfHeaderTypes,
    TbfHeaderV2,
    TbfHeaderV2Base,
    TbfHeaderV2FixedAddresses,
    TbfHeaderV2KernelVersion,
    TbfHeaderV2Main,
    TbfHeaderV2Model,
    TbfHeaderV2PackageName,
    TbfHeaderV2Permissions,
    TbfHeaderV2Program,
    TbfHeaderV2StoragePermissions,
    TbfHeaderV2WriteableFlashRegion,
    TbfParseError,
    TbfTlv,
};

verus! {

/// What the first 8 bytes of an object say of its lengths: the version, the
/// length of the header and the length of the whole object. Only version 2
/// is parsed. A header that is longer than its object, or shorter than the
/// base of a header, is invalid.
pub open spec fn parsed_lengths(app: Seq<u8>) -> Result<(u16, u16, u32), InitialTbfParseError> {
    let version = le_u16(app, 0);
    let header_size = le_u16(app, 2);
    let total_size = le_u32(app, 4);
    if version != 2 {
        Err(InitialTbfParseError::UnableToParse)
    } else if header_size > total_size || header_size < 16 {
        Err(InitialTbfParseError::InvalidHeader(total_size))
    } else {
        Ok((version, header_size, total_size))
    }
}

/// Lengths that were parsed fit: the version is 2, and the header is at
/// least as long as its base and no longer than the object.
pub proof fn lemma_parsed_lengths_fit(app: Seq<u8>)
    requires
        parsed_lengths(app) is Ok,
    ensures
        parsed_lengths(app)->Ok_0.0 == 2,
        16 <= parsed_lengths(app)->Ok_0.1 <= parsed_lengths(app)->Ok_0.2,
{
}

/// Reads the lengths of an object from its first 8 bytes, which have the
/// same layout in every version of the format.
///
/// `UnableToParse` says that no application starts here: the walk over the
/// applications in flash ends. `InvalidHeader` carries the length of the
/// object, which is trusted even so: the walk skips that many bytes and goes
/// on.
pub fn parse_tbf_header_lengths(app: &[u8; 8]) -> (r: Result<(u16, u16, u32), InitialTbfParseError>)
    ensures
        r == parsed_lengths(app@),
{
    let bytes = app.as_slice();
    let version = read_u16(bytes, 0);
    match version {
        2 => {
            let tbf_header_size = read_u16(bytes, 2);
            let tbf_size = read_u32(bytes, 4);
            if tbf_header_size as u32 > tbf_size || tbf_header_size < 16 {
                Err(InitialTbfParseError::InvalidHeader(tbf_size))
            } else {
                Ok((version, tbf_header_size, tbf_size))
            }
        },
        _ => Err(InitialTbfParseError::UnableToParse),
    }
}

/// The exclusive or of the first `n` words of `b`, the fourth left out: it
/// holds the checksum itself.
pub open spec fn checksum_words(b: Seq<u8>, n: int) -> u32
    decreases n,
{
    if n <= 0 {
        0
    } else if n == 4 {
        checksum_words(b, n - 1)
    } else {
        checksum_words(b, n - 1) ^ le_u32(b, 4 * (n - 1))
    }
}

/// The checksum of a header: the exclusive or of its words of 4 bytes, but
/// for the word that holds the checksum. Bytes after the last whole word do
/// not count.
pub open spec fn header_checksum(b: Seq<u8>) -> u32 {
    checksum_words(b, b.len() as int / 4)
}

/// Computes the checksum of a header.
pub fn compute_checksum(header: &[u8]) -> (r: u32)
    ensures
        r == header_checksum(header@),
{
    let words = header.len() / 4;
    assert(header@.len() == header.len());
    let mut checksum: u32 = 0;
    let mut i: usize = 0;
    while i < words
        invariant
            i <= words,
            words == header@.len() / 4,
            header@.len() == header.len(),
            checksum == checksum_words(header@, i as int),
        decreases words - i,
    {
        if i != 3 {
            checksum ^= read_u32(header, 4 * i);
        }
        i += 1;
    }
    checksum
}

/// Sequences that agree in their first `n` words, but perhaps for the word
/// of the checksum, have the same checksum over these words.
proof fn lemma_checksum_words_same(a: Seq<u8>, b: Seq<u8>, n: int)
    requires
        a.len() == b.len(),
        0 <= n,
        4 * n <= a.len(),
        forall|j: int| 0 <= j < 4 * n && !(12 <= j < 16) ==> a[j] == b[j],
    ensures
        checksum_words(a, n) == checksum_words(b, n),
    decreases n,
{
    if n > 0 {
        lemma_checksum_words_same(a, b, n - 1);
    }
}

/// The exclusive or of two words changes when one of them does.
proof fn lemma_xor_differs(x: u32, y: u32, v: u32, w: u32)
    ensures
        v != w ==> x ^ v != x ^ w,
        x != y ==> x ^ v != y ^ v,
{
    assert(v != w ==> x ^ v != x ^ w) by (bit_vector);
    assert(x != y ==> x ^ v != y ^ v) by (bit_vector);
}

/// Sequences that differ in one byte, which lies in the first `n` words and
/// outside the word of the checksum, differ in the checksum over these
/// words.
proof fn lemma_checksum_words_differ(a: Seq<u8>, b: Seq<u8>, i: int, n: int)
    requires
        a.len() == b.len(),
        0 <= i < 4 * n,
        4 * n <= a.len(),
        !(12 <= i < 16),
        a[i] != b[i],
        forall|j: int| 0 <= j < a.len() && j != i ==> a[j] == b[j],
    ensures
        checksum_words(a, n) != checksum_words(b, n),
    decreases n,
{
    let k = i / 4;
    if n - 1 == k {
        lemma_checksum_words_same(a, b, n - 1);
        lemma_le_u32_differs(a, b, 4 * k, i);
        lemma_xor_differs(
            checksum_words(a, n - 1),
            checksum_words(b, n - 1),
            le_u32(a, 4 * k),
            le_u32(b, 4 * k),
        );
    } else {
        lemma_checksum_words_differ(a, b, i, n - 1);
        if n != 4 {
            assert(le_u32(a, 4 * (n - 1)) == le_u32(b, 4 * (n - 1)));
            lemma_xor_differs(
                checksum_words(a, n - 1),
                checksum_words(b, n - 1),
                le_u32(a, 4 * (n - 1)),
                le_u32(b, 4 * (n - 1)),
            );
        }
    }
}

/// A change of one byte changes the checksum, where the byte lies in a whole
/// word of the header and outside the word that stores the checksum.
pub proof fn lemma_checksum_detects_change(a: Seq<u8>, b: Seq<u8>, i: int)
    requires
        a.len() == b.len(),
        0 <= i < a.len() / 4 * 4,
        !(12 <= i < 16),
        a[i] != b[i],
        forall|j: int| 0 <= j < a.len() && j != i ==> a[j] == b[j],
    ensures
        header_checksum(a) != header_checksum(b),
{
    lemma_checksum_words_differ(a, b, i, a.len() as int / 4);
}

/// The length of an entry's body with its padding: every entry ends on a
/// multiple of 4 bytes.
pub open spec fn padded_length(length: int) -> int {
    (length + 3) / 4 * 4
}

/// What the body of an entry of writeable flash regions gives: one region
/// for every 8 bytes, and no more than 4 of them.
pub open spec fn parsed_regions(body: Seq<u8>, length: int) -> Result<
    Seq<TbfHeaderV2WriteableFlashRegion>,
    TbfParseError,
> {
    if length % 8 != 0 {
        Err(TbfParseError::BadTlvEntry(TbfHeaderTypes::TbfHeaderWriteableFlashRegions.number()))
    } else if body.len() < length {
        Err(TbfParseError::NotEnoughFlash)
    } else if length / 8 > 4 {
        Err(
            TbfParseError::TooManyEntries(
                TbfHeaderTypes::TbfHeaderWriteableFlashRegions.number(),
            ),
        )
    } else {
        Ok(
            Seq::new(
                (length / 8) as nat,
                |i: int| TbfHeaderV2WriteableFlashRegion::parsed(body.subrange(8 * i, 8 * i + 8)),
            ),
        )
    }
}

/// A header in which no entry has been read yet.
pub open spec fn empty_header(base: TbfHeaderV2Base) -> TbfHeaderV2Model {
    TbfHeaderV2Model {
        base,
        main: None,
        program: None,
        package_name: None,
        writeable_regions: None,
        fixed_addresses: None,
        permissions: None,
        storage_permissions: None,
        kernel_version: None,
    }
}

/// What one entry adds to the header read so far. `length` is the length
/// that the entry gives for its body, and `body` the bytes after its type
/// and length, up to the end of the header.
///
/// Of several main entries the first counts, and so for program entries; of
/// the other entries the last. An entry of fixed length with another length
/// is a bad entry. An entry of an unknown type adds nothing.
pub open spec fn apply_entry(
    acc: TbfHeaderV2Model,
    tipe: TbfHeaderTypes,
    length: int,
    body: Seq<u8>,
) -> Result<TbfHeaderV2Model, TbfParseError> {
    match tipe {
        TbfHeaderTypes::TbfHeaderMain => if acc.main is Some {
            Ok(acc)
        } else if length != 12 {
            Err(TbfParseError::BadTlvEntry(tipe.number()))
        } else if body.len() < 12 {
            Err(TbfParseError::NotEnoughFlash)
        } else {
            Ok(TbfHeaderV2Model { main: Some(TbfHeaderV2Main::parsed(body)), ..acc })
        },
        TbfHeaderTypes::TbfHeaderProgram => if acc.program is Some {
            Ok(acc)
        } else if length != 20 {
            Err(TbfParseError::BadTlvEntry(tipe.number()))
        } else if body.len() < 20 {
            Err(TbfParseError::NotEnoughFlash)
        } else {
            Ok(TbfHeaderV2Model { program: Some(TbfHeaderV2Program::parsed(body)), ..acc })
        },
        TbfHeaderTypes::TbfHeaderWriteableFlashRegions => match parsed_regions(body, length) {
            Ok(regions) => Ok(TbfHeaderV2Model { writeable_regions: Some(regions), ..acc }),
            Err(e) => Err(e),
        },
        TbfHeaderTypes::TbfHeaderPackageName => if body.len() < length {
            Err(TbfParseError::NotEnoughFlash)
        } else {
            match TbfHeaderV2PackageName::<64>::parsed(body.take(length)) {
                Ok(name) => Ok(TbfHeaderV2Model { package_name: Some(name), ..acc }),
                Err(e) => Err(e),
            }
        },
        TbfHeaderTypes::TbfHeaderFixedAddresses => if length != 8 {
            Err(TbfParseError::BadTlvEntry(tipe.number()))
        } else if body.len() < 8 {
            Err(TbfParseError::NotEnoughFlash)
        } else {
            Ok(
                TbfHeaderV2Model {
                    fixed_addresses: Some(TbfHeaderV2FixedAddresses::parsed(body)),
                    ..acc
                },
            )
        },
        TbfHeaderTypes::TbfHeaderPermissions => if body.len() < length {
            Err(TbfParseError::NotEnoughFlash)
        } else {
            match TbfHeaderV2Permissions::<8>::parsed(body.take(length)) {
                Ok(entries) => Ok(TbfHeaderV2Model { permissions: Some(entries), ..acc }),
                Err(e) => Err(e),
            }
        },
        TbfHeaderTypes::TbfHeaderStoragePermissions => if body.len() < length {
            Err(TbfParseError::NotEnoughFlash)
        } else {
            match TbfHeaderV2StoragePermissions::<8>::parsed(body.take(length)) {
                Ok(permissions) => Ok(
                    TbfHeaderV2Model { storage_permissions: Some(permissions), ..acc },
                ),
                Err(e) => Err(e),
            }
        },
        TbfHeaderTypes::TbfHeaderKernelVersion => if length != 4 {
            Err(TbfParseError::BadTlvEntry(tipe.number()))
        } else if body.len() < 4 {
            Err(TbfParseError::NotEnoughFlash)
        } else {
            Ok(
                TbfHeaderV2Model {
                    kernel_version: Some(TbfHeaderV2KernelVersion::parsed(body)),
                    ..acc
                },
            )
        },
        _ => Ok(acc),
    }
}

/// What the entries in `remaining` add to the header read so far. Each
/// entry is a type and a length of 2 bytes each, then its body and the
/// padding of the body.
pub open spec fn walk_entries(remaining: Seq<u8>, acc: TbfHeaderV2Model) -> Result<
    TbfHeaderV2Model,
    TbfParseError,
>
    decreases remaining.len(),
{
    if remaining.len() == 0 {
        Ok(acc)
    } else if remaining.len() < 4 {
        Err(TbfParseError::NotEnoughFlash)
    } else {
        let tlv = TbfTlv::parsed(remaining);
        let body = remaining.skip(4);
        match apply_entry(acc, tlv.tipe, tlv.length as int, body) {
            Err(e) => Err(e),
            Ok(next) => if body.len() < padded_length(tlv.length as int) {
                Err(TbfParseError::NotEnoughFlash)
            } else {
                walk_entries(body.skip(padded_length(tlv.length as int)), next)
            },
        }
    }
}

/// The header that the entries read make: that of an application where
/// there is a program entry or a main entry, of which the program entry is
/// kept where both were read; padding where there is neither.
pub open spec fn finished(acc: TbfHeaderV2Model) -> TbfHeaderModel {
    if acc.program is Some {
        TbfHeaderModel::TbfHeaderV2(TbfHeaderV2Model { main: None, ..acc })
    } else if acc.main is Some {
        TbfHeaderModel::TbfHeaderV2(acc)
    } else {
        TbfHeaderModel::Padding(acc.base)
    }
}

/// What parsing `header` as a header of version `version` gives.
pub open spec fn parsed_header(header: Seq<u8>, version: u16) -> Result<
    TbfHeaderModel,
    TbfParseError,
> {
    if version != 2 {
        Err(TbfParseError::UnsupportedVersion(version))
    } else if header.len() < 16 {
        Err(TbfParseError::InternalError)
    } else {
        let base = TbfHeaderV2Base::parsed(header);
        if header_checksum(header) != base.checksum {
            Err(TbfParseError::ChecksumMismatch(base.checksum, header_checksum(header)))
        } else {
            match walk_entries(header.skip(16), empty_header(base)) {
                Ok(acc) => Ok(finished(acc)),
                Err(e) => Err(e),
            }
        }
    }
}

/// Decodes the writeable flash regions from the body of their entry.
fn parse_regions(body: &[u8], length: u16) -> (r: Result<
    [Option<TbfHeaderV2WriteableFlashRegion>; 4],
    TbfParseError,
>)
    ensures
        match parsed_regions(body@, length as int) {
            Ok(regions) => r is Ok && regions_first(r->Ok_0@) && regions_of(r->Ok_0@) == regions,
            Err(e) => r == Err::<[Option<TbfHeaderV2WriteableFlashRegion>; 4], TbfParseError>(e),
        },
{
    let length = length as usize;
    if length % 8 != 0 {
        return Err(
            TbfParseError::BadTlvEntry(
                TbfHeaderTypes::TbfHeaderWriteableFlashRegions.as_usize(),
            ),
        );
    }
    if body.len() < length {
        return Err(TbfParseError::NotEnoughFlash);
    }
    let number_regions = length / 8;
    if number_regions > 4 {
        return Err(
            TbfParseError::TooManyEntries(
                TbfHeaderTypes::TbfHeaderWriteableFlashRegions.as_usize(),
            ),
        );
    }
    let mut wfrs: [Option<TbfHeaderV2WriteableFlashRegion>; 4] = [None; 4];
    let mut i: usize = 0;
    while i < number_regions
        invariant
            i <= number_regions <= 4,
            number_regions * 8 == length,
            length <= body@.len(),
            wfrs@.len() == 4,
            forall|j: int|
                0 <= j < i ==> wfrs@[j] == Some(
                    TbfHeaderV2WriteableFlashRegion::parsed(body@.subrange(8 * j, 8 * j + 8)),
                ),
            forall|j: int| i <= j < 4 ==> wfrs@[j] is None,
        decreases number_regions - i,
    {
        let region = match TbfHeaderV2WriteableFlashRegion::try_from(
            slice_subrange(body, i * 8, i * 8 + 8),
        ) {
            Ok(region) => region,
            Err(e) => {
                return Err(e);
            },
        };
        wfrs[i] = Some(region);
        i += 1;
    }
    proof {
        lemma_region_count(wfrs@, number_regions as int);
        assert(regions_of(wfrs@) =~= parsed_regions(body@, length as int)->Ok_0);
    }
    Ok(wfrs)
}

/// What the entries read so far say, as the parser holds them.
spec fn draft(
    base: TbfHeaderV2Base,
    main: Option<TbfHeaderV2Main>,
    program: Option<TbfHeaderV2Program>,
    package_name: Option<TbfHeaderV2PackageName<64>>,
    writeable_regions: Option<[Option<TbfHeaderV2WriteableFlashRegion>; 4]>,
    fixed_addresses: Option<TbfHeaderV2FixedAddresses>,
    permissions: Option<TbfHeaderV2Permissions<8>>,
    storage_permissions: Option<TbfHeaderV2StoragePermissions<8>>,
    kernel_version: Option<TbfHeaderV2KernelVersion>,
) -> TbfHeaderV2Model {
    TbfHeaderV2Model {
        base,
        main,
        program,
        package_name: match package_name {
            Some(name) => Some(name.name_bytes()),
            None => None,
        },
        writeable_regions: match writeable_regions {
            Some(regions) => Some(regions_of(regions@)),
            None => None,
        },
        fixed_addresses,
        permissions: match permissions {
            Some(permissions) => Some(permissions.entries()),
            None => None,
        },
        storage_permissions: match storage_permissions {
            Some(permissions) => Some(permissions.model()),
            None => None,
        },
        kernel_version,
    }
}

/// Parses the header of an object.
///
/// `header` holds the bytes of the header, as many as its base says, and
/// `version` the version that `parse_tbf_header_lengths` found. The base is
/// decoded and the checksum of the header is held against the one stored in
/// it. Then the entries are read in turn. Entries of a type that this
/// library does not know are skipped. An object without a main entry and
/// without a program entry is padding.
#[verifier::loop_isolation(false)]
pub fn parse_tbf_header(header: &[u8], version: u16) -> (r: Result<TbfHeader, TbfParseError>)
    ensures
        match parsed_header(header@, version) {
            Ok(model) => r is Ok && r->Ok_0.model() == model,
            Err(e) => r == Err::<TbfHeader, TbfParseError>(e),
        },
{
    if version != 2 {
        return Err(TbfParseError::UnsupportedVersion(version));
    }
    let tbf_header_base = match TbfHeaderV2Base::try_from(header) {
        Ok(base) => base,
        Err(e) => {
            return Err(e);
        },
    };
    let checksum = compute_checksum(header);
    if checksum != tbf_header_base.checksum {
        return Err(TbfParseError::ChecksumMismatch(tbf_header_base.checksum, checksum));
    }
    let mut remaining = slice_subrange(header, 16, header.len());

    let mut main_pointer: Option<TbfHeaderV2Main> = None;
    let mut program_pointer: Option<TbfHeaderV2Program> = None;
    let mut wfr_pointer: Option<[Option<TbfHeaderV2WriteableFlashRegion>; 4]> = None;
    let mut app_name: Option<TbfHeaderV2PackageName<64>> = None;
    let mut fixed_address_pointer: Option<TbfHeaderV2FixedAddresses> = None;
    let mut permissions_pointer: Option<TbfHeaderV2Permissions<8>> = None;
    let mut storage_permissions_pointer: Option<TbfHeaderV2StoragePermissions<8>> = None;
    let mut kernel_version: Option<TbfHeaderV2KernelVersion> = None;
    let ghost start = empty_header(tbf_header_base);
    let ghost mut acc = start;
    proof {
        assert(remaining@ =~= header@.skip(16));
    }

    while remaining.len() > 0
        invariant
            walk_entries(remaining@, acc) == walk_entries(header@.skip(16), start),
            acc == draft(
                tbf_header_base,
                main_pointer,
                program_pointer,
                app_name,
                wfr_pointer,
                fixed_address_pointer,
                permissions_pointer,
                storage_permissions_pointer,
                kernel_version,
            ),
            wfr_pointer matches Some(regions) ==> regions_first(regions@),
        decreases remaining@.len(),
    {
        if remaining.len() < 4 {
            return Err(TbfParseError::NotEnoughFlash);
        }
        let tlv_header = match TbfTlv::try_from(slice_subrange(remaining, 0, 4)) {
            Ok(tlv) => tlv,
            Err(e) => {
                return Err(e);
            },
        };
        let body = slice_subrange(remaining, 4, remaining.len());
        let length = tlv_header.length as usize;
        let ghost prev = acc;
        proof {
            assert(tlv_header == TbfTlv::parsed(remaining@));
            assert(body@ =~= remaining@.skip(4));
        }

        match tlv_header.tipe {
            TbfHeaderTypes::TbfHeaderMain => {
                // Of several main entries the first is kept.
                if main_pointer.is_none() {
                    if length != 12 {
                        return Err(TbfParseError::BadTlvEntry(tlv_header.tipe.as_usize()));
                    }
                    if body.len() < 12 {
                        return Err(TbfParseError::NotEnoughFlash);
                    }
                    match TbfHeaderV2Main::try_from(slice_subrange(body, 0, 12)) {
                        Ok(main) => {
                            assert(main == TbfHeaderV2Main::parsed(body@));
                            main_pointer = Some(main);
                        },
                        Err(e) => {
                            return Err(e);
                        },
                    }
                }
            },
            TbfHeaderTypes::TbfHeaderProgram => {
                // Of several program entries the first is kept.
                if program_pointer.is_none() {
                    if length != 20 {
                        return Err(TbfParseError::BadTlvEntry(tlv_header.tipe.as_usize()));
                    }
                    if body.len() < 20 {
                        return Err(TbfParseError::NotEnoughFlash);
                    }
                    match TbfHeaderV2Program::try_from(slice_subrange(body, 0, 20)) {
                        Ok(program) => {
                            assert(program == TbfHeaderV2Program::parsed(body@));
                            program_pointer = Some(program);
                        },
                        Err(e) => {
                            return Err(e);
                        },
                    }
                }
            },
            TbfHeaderTypes::TbfHeaderWriteableFlashRegions => {
                match parse_regions(body, tlv_header.length) {
                    Ok(regions) => {
                        wfr_pointer = Some(regions);
                    },
                    Err(e) => {
                        return Err(e);
                    },
                }
            },
            TbfHeaderTypes::TbfHeaderPackageName => {
                if body.len() < length {
                    return Err(TbfParseError::NotEnoughFlash);
                }
                let name_buf = slice_subrange(body, 0, length);
                proof {
                    assert(name_buf@ =~= body@.take(length as int));
                }
                match TbfHeaderV2PackageName::<64>::try_from(name_buf) {
                    Ok(name) => {
                        app_name = Some(name);
                    },
                    Err(e) => {
                        return Err(e);
                    },
                }
            },
            TbfHeaderTypes::TbfHeaderFixedAddresses => {
                if length != 8 {
                    return Err(TbfParseError::BadTlvEntry(tlv_header.tipe.as_usize()));
                }
                if body.len() < 8 {
                    return Err(TbfParseError::NotEnoughFlash);
                }
                match TbfHeaderV2FixedAddresses::try_from(slice_subrange(body, 0, 8)) {
                    Ok(fixed) => {
                        assert(fixed == TbfHeaderV2FixedAddresses::parsed(body@));
                        fixed_address_pointer = Some(fixed);
                    },
                    Err(e) => {
                        return Err(e);
                    },
                }
            },
            TbfHeaderTypes::TbfHeaderPermissions => {
                if body.len() < length {
                    return Err(TbfParseError::NotEnoughFlash);
                }
                let entry = slice_subrange(body, 0, length);
                proof {
                    assert(entry@ =~= body@.take(length as int));
                }
                match TbfHeaderV2Permissions::<8>::try_from(entry) {
                    Ok(permissions) => {
                        permissions_pointer = Some(permissions);
                    },
                    Err(e) => {
                        return Err(e);
                    },
                }
            },
            TbfHeaderTypes::TbfHeaderStoragePermissions => {
                if body.len() < length {
                    return Err(TbfParseError::NotEnoughFlash);
                }
                let entry = slice_subrange(body, 0, length);
                proof {
                    assert(entry@ =~= body@.take(length as int));
                }
                match TbfHeaderV2StoragePermissions::<8>::try_from(entry) {
                    Ok(permissions) => {
                        storage_permissions_pointer = Some(permissions);
                    },
                    Err(e) => {
                        return Err(e);
                    },
                }
            },
            TbfHeaderTypes::TbfHeaderKernelVersion => {
                if length != 4 {
                    return Err(TbfParseError::BadTlvEntry(tlv_header.tipe.as_usize()));
                }
                if body.len() < 4 {
                    return Err(TbfParseError::NotEnoughFlash);
                }
                match TbfHeaderV2KernelVersion::try_from(slice_subrange(body, 0, 4)) {
                    Ok(version) => {
                        assert(version == TbfHeaderV2KernelVersion::parsed(body@));
                        kernel_version = Some(version);
                    },
                    Err(e) => {
                        return Err(e);
                    },
                }
            },
            _ => {},
        }
        proof {
            acc = draft(
                tbf_header_base,
                main_pointer,
                program_pointer,
                app_name,
                wfr_pointer,
                fixed_address_pointer,
                permissions_pointer,
                storage_permissions_pointer,
                kernel_version,
            );
            assert(apply_entry(prev, tlv_header.tipe, length as int, body@) == Ok::<
                TbfHeaderV2Model,
                TbfParseError,
            >(acc));
        }

        // Every entry is padded to a multiple of 4 bytes.
        let skip_len: usize = (length + 3) / 4 * 4;
        if body.len() < skip_len {
            return Err(TbfParseError::NotEnoughFlash);
        }
        remaining = slice_subrange(body, skip_len, body.len());
        proof {
            assert(remaining@ =~= body@.skip(skip_len as int));
        }
    }

    let header = match (program_pointer, main_pointer) {
        (Some(program), _) => TbfHeaderV2 {
            base: tbf_header_base,
            main: None,
            program: Some(program),
            package_name: app_name,
            writeable_regions: wfr_pointer,
            fixed_addresses: fixed_address_pointer,
            permissions: permissions_pointer,
            storage_permissions: storage_permissions_pointer,
            kernel_version,
        },
        (None, Some(main)) => TbfHeaderV2 {
            base: tbf_header_base,
            main: Some(main),
            program: None,
            package_name: app_name,
            writeable_regions: wfr_pointer,
            fixed_addresses: fixed_address_pointer,
            permissions: permissions_pointer,
            storage_permissions: storage_permissions_pointer,
            kernel_version,
        },
        (None, None) => {
            return Ok(TbfHeader::Padding(tbf_header_base));
        },
    };
    Ok(TbfHeader::TbfHeaderV2(header))
}

/// A header that matches its checksum no longer does once one of its bytes
/// is changed: parsing the changed header reports the mismatch. This holds
/// of every byte that lies in a whole word of the header and outside the
/// word that stores the checksum.
pub proof fn lemma_changed_header_is_rejected(header: Seq<u8>, changed: Seq<u8>, i: int)
    requires
        header.len() >= 16,
        header_checksum(header) == TbfHeaderV2Base::parsed(header).checksum,
        changed.len() == header.len(),
        0 <= i < header.len() / 4 * 4,
        !(12 <= i < 16),
        changed[i] != header[i],
        forall|j: int| 0 <= j < header.len() && j != i ==> changed[j] == header[j],
    ensures
        header_checksum(changed) != TbfHeaderV2Base::parsed(changed).checksum,
        parsed_header(changed, 2) == Err::<TbfHeaderModel, TbfParseError>(
            TbfParseError::ChecksumMismatch(
                TbfHeaderV2Base::parsed(changed).checksum,
                header_checksum(changed),
            ),
        ),
{
    lemma_checksum_detects_change(header, changed, i);
    assert(le_u32(changed, 12) == le_u32(header, 12));
}

/// Entries that can be walked to their end fill whole words.
pub proof fn lemma_walked_entries_fill_words(remaining: Seq<u8>, acc: TbfHeaderV2Model)
    requires
        walk_entries(remaining, acc) is Ok,
    ensures
        remaining.len() % 4 == 0,
    decreases remaining.len(),
{
    if remaining.len() != 0 {
        let tlv = TbfTlv::parsed(remaining);
        let body = remaining.skip(4);
        let next = apply_entry(acc, tlv.tipe, tlv.length as int, body)->Ok_0;
        lemma_walked_entries_fill_words(body.skip(padded_length(tlv.length as int)), next);
    }
}

/// A header that parses no longer does once one of its bytes outside the
/// stored checksum is changed: the checksum computed over the changed
/// header is not the stored one, and parsing reports the mismatch.
pub proof fn lemma_changed_valid_header_is_rejected(header: Seq<u8>, changed: Seq<u8>, i: int)
    requires
        parsed_header(header, 2) is Ok,
        changed.len() == header.len(),
        0 <= i < header.len(),
        !(12 <= i < 16),
        changed[i] != header[i],
        forall|j: int| 0 <= j < header.len() && j != i ==> changed[j] == header[j],
    ensures
        header_checksum(changed) != TbfHeaderV2Base::parsed(changed).checksum,
        parsed_header(changed, 2) == Err::<TbfHeaderModel, TbfParseError>(
            TbfParseError::ChecksumMismatch(
                TbfHeaderV2Base::parsed(changed).checksum,
                header_checksum(changed),
            ),
        ),
{
    lemma_walked_entries_fill_words(
        header.skip(16),
        empty_header(TbfHeaderV2Base::parsed(header)),
    );
    lemma_changed_header_is_rejected(header, changed, i);
}

/// What parsing a footer from `footers` gives: the credentials, and the
/// length of the footer's body. The footer is an entry of the credentials
/// type; the next footer starts 4 bytes and that length further on.
pub open spec fn parsed_footer(footers: Seq<u8>) -> Result<(CredentialsModel, u32), TbfParseError> {
    if footers.len() < 4 {
        Err(TbfParseError::NotEnoughFlash)
    } else {
        let tlv = TbfTlv::parsed(footers);
        let rest = footers.skip(4);
        if tlv.tipe != TbfHeaderTypes::TbfFooterCredentials {
            Err(TbfParseError::BadTlvEntry(tlv.tipe.number()))
        } else if rest.len() < tlv.length {
            Err(TbfParseError::NotEnoughFlash)
        } else {
            match TbfFooterV2Credentials::parsed(rest.take(tlv.length as int)) {
                Ok(credentials) => Ok((credentials, tlv.length as u32)),
                Err(e) => Err(e),
            }
        }
    }
}

/// Parses the footer at the start of `footers`, and returns its credentials
/// with the length of its body.
pub fn parse_tbf_footer(footers: &[u8]) -> (r: Result<(TbfFooterV2Credentials, u32), TbfParseError>)
    ensures
        match parsed_footer(footers@) {
            Ok((credentials, length)) => r is Ok && r->Ok_0.0.model() == credentials && r->Ok_0.1
                == length,
            Err(e) => r == Err::<(TbfFooterV2Credentials, u32), TbfParseError>(e),
        },
{
    if footers.len() < 4 {
        return Err(TbfParseError::NotEnoughFlash);
    }
    let tlv_header = match TbfTlv::try_from(slice_subrange(footers, 0, 4)) {
        Ok(tlv) => tlv,
        Err(e) => {
            return Err(e);
        },
    };
    let remaining = slice_subrange(footers, 4, footers.len());
    proof {
        assert(tlv_header == TbfTlv::parsed(footers@));
        assert(remaining@ =~= footers@.skip(4));
    }
    match tlv_header.tipe {
        TbfHeaderTypes::TbfFooterCredentials => {
            let length = tlv_header.length;
            if remaining.len() < length as usize {
                return Err(TbfParseError::NotEnoughFlash);
            }
            let body = slice_subrange(remaining, 0, length as usize);
            proof {
                assert(body@ =~= remaining@.take(length as int));
            }
            match TbfFooterV2Credentials::try_from(body) {
                Ok(credential) => Ok((credential, length as u32)),
                Err(e) => Err(e),
            }
        },
        _ => Err(TbfParseError::BadTlvEntry(tlv_header.tipe.as_usize())),
    }
}

} // verus!
