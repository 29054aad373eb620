use tockloader::tbf::parse::{
    compute_checksum, parse_tbf_footer, parse_tbf_header, parse_tbf_header_lengths,
};
use tockloader::tbf::scan::parse_tbf_objects;
use tockloader::tbf::types::{
    CommandPermissions, InitialTbfParseError, TbfFooterV2Credentials, TbfFooterV2CredentialsType,
    TbfParseError,
};

/// The header of an application with a main entry, the name "_heart" and
/// the kernel version 2.0.
const SIMPLE_HEADER: [u8; 52] = [
    0x02, 0x00, 0x34, 0x00, 0x00, 0x20, 0x00, 0x00, 0x01, 0x00, 0x00, 0x00, //
    0xff, 0x2e, 0x5f, 0x61, 0x01, 0x00, 0x0c, 0x00, 0x29, 0x00, 0x00, 0x00, //
    0x00, 0x00, 0x00, 0x00, 0xf0, 0x12, 0x00, 0x00, 0x03, 0x00, 0x06, 0x00, //
    0x5f, 0x68, 0x65, 0x61, 0x72, 0x74, 0x00, 0x00, 0x08, 0x00, 0x04, 0x00, //
    0x02, 0x00, 0x00, 0x00,
];

/// The header of an application with a main and a program entry, whose
/// binary ends at 5836.
const SHA256_HEADER: [u8; 76] = [
    0x02, 0x00, 0x4c, 0x00, 0x00, 0x20, 0x00, 0x00, 0x01, 0x00, 0x00, 0x00, //
    0xe3, 0x2a, 0x33, 0x61, 0x01, 0x00, 0x0c, 0x00, 0x29, 0x00, 0x00, 0x00, //
    0x00, 0x00, 0x00, 0x00, 0xf0, 0x12, 0x00, 0x00, 0x09, 0x00, 0x14, 0x00, //
    0x29, 0x00, 0x00, 0x00, 0x00, 0x00, 0x00, 0x00, 0xf0, 0x12, 0x00, 0x00, //
    0xcc, 0x16, 0x00, 0x00, 0x00, 0x00, 0x00, 0x00, 0x03, 0x00, 0x06, 0x00, //
    0x5f, 0x68, 0x65, 0x61, 0x72, 0x74, 0x00, 0x00, 0x08, 0x00, 0x04, 0x00, //
    0x02, 0x00, 0x00, 0x00,
];

/// The header of the application "c_hello", whose binary ends at 1168.
const RSA4096_HEADER: [u8; 76] = [
    0x02, 0x00, 0x4c, 0x00, 0x00, 0x10, 0x00, 0x00, 0x01, 0x00, 0x00, 0x00, //
    0x9d, 0x27, 0x50, 0x65, 0x01, 0x00, 0x0c, 0x00, 0x29, 0x00, 0x00, 0x00, //
    0x00, 0x00, 0x00, 0x00, 0x04, 0x12, 0x00, 0x00, 0x09, 0x00, 0x14, 0x00, //
    0x29, 0x00, 0x00, 0x00, 0x00, 0x00, 0x00, 0x00, 0x04, 0x12, 0x00, 0x00, //
    0x90, 0x04, 0x00, 0x00, 0x00, 0x00, 0x00, 0x00, 0x03, 0x00, 0x07, 0x00, //
    0x63, 0x5f, 0x68, 0x65, 0x6c, 0x6c, 0x6f, 0x00, 0x08, 0x00, 0x04, 0x00, //
    0x02, 0x00, 0x00, 0x00,
];

const SHA256_DIGEST: [u8; 32] = [
    214u8, 17, 81, 32, 51, 178, 249, 35, 161, 33, 109, 184, 195, 46, 238, 158, 141, 54, 63, 94, 60,
    245, 50, 228, 239, 107, 231, 127, 220, 158, 77, 160,
];

/// An image of `total` bytes that starts with `header`.
fn image(header: &[u8], total: usize) -> Vec<u8> {
    let mut buffer = vec![0u8; total];
    buffer[..header.len()].copy_from_slice(header);
    buffer
}

/// Writes a footer at `at`: the credentials type, the length of the body,
/// the format and the payload.
fn put_footer(buffer: &mut [u8], at: usize, length: u16, format: u32, payload: &[u8]) {
    buffer[at..at + 2].copy_from_slice(&128u16.to_le_bytes());
    buffer[at + 2..at + 4].copy_from_slice(&length.to_le_bytes());
    buffer[at + 4..at + 8].copy_from_slice(&format.to_le_bytes());
    buffer[at + 8..at + 8 + payload.len()].copy_from_slice(payload);
}

fn rsa4096_key() -> [u8; 512] {
    let mut key = [0u8; 512];
    for (i, byte) in key.iter_mut().enumerate() {
        *byte = (i * 7 + 3) as u8;
    }
    key
}

fn rsa4096_signature() -> [u8; 512] {
    let mut signature = [0u8; 512];
    for (i, byte) in signature.iter_mut().enumerate() {
        *byte = (i * 13 + 5) as u8;
    }
    signature
}

fn simple_image() -> Vec<u8> {
    image(&SIMPLE_HEADER, 8192)
}

fn sha256_image() -> Vec<u8> {
    let mut buffer = image(&SHA256_HEADER, 8192);
    put_footer(&mut buffer, 5836, 36, 3, &SHA256_DIGEST);
    put_footer(&mut buffer, 5836 + 36 + 4, 2312, 0, &[]);
    buffer
}

fn rsa4096_image() -> Vec<u8> {
    let mut buffer = image(&RSA4096_HEADER, 4096);
    let mut payload = Vec::new();
    payload.extend_from_slice(&rsa4096_key());
    payload.extend_from_slice(&rsa4096_signature());
    put_footer(&mut buffer, 1168, 1028, 2, &payload);
    put_footer(&mut buffer, 1168 + 1028 + 4, 1892, 0, &[]);
    buffer
}

/// A header of version 2 for an object of `total` bytes, with the entries
/// given, each as its type and its body. The lengths and the checksum are
/// filled in.
fn header_with(total: u32, flags: u32, entries: &[(u16, Vec<u8>)]) -> Vec<u8> {
    let mut header = vec![0u8; 16];
    for (tipe, body) in entries {
        header.extend_from_slice(&tipe.to_le_bytes());
        header.extend_from_slice(&(body.len() as u16).to_le_bytes());
        header.extend_from_slice(body);
        while header.len() % 4 != 0 {
            header.push(0);
        }
    }
    let size = header.len() as u16;
    header[0..2].copy_from_slice(&2u16.to_le_bytes());
    header[2..4].copy_from_slice(&size.to_le_bytes());
    header[4..8].copy_from_slice(&total.to_le_bytes());
    header[8..12].copy_from_slice(&flags.to_le_bytes());
    seal(&mut header);
    header
}

/// Stores the checksum of `header` in it.
fn seal(header: &mut [u8]) {
    let mut checksum = 0u32;
    for (i, word) in header.chunks_exact(4).enumerate() {
        if i != 3 {
            checksum ^= u32::from_le_bytes([word[0], word[1], word[2], word[3]]);
        }
    }
    header[12..16].copy_from_slice(&checksum.to_le_bytes());
}

fn words(values: &[u32]) -> Vec<u8> {
    let mut out = Vec::new();
    for value in values {
        out.extend_from_slice(&value.to_le_bytes());
    }
    out
}

fn main_entry(init: u32, trailer: u32, ram: u32) -> (u16, Vec<u8>) {
    (1, words(&[init, trailer, ram]))
}

fn program_entry(init: u32, trailer: u32, ram: u32, end: u32, version: u32) -> (u16, Vec<u8>) {
    (9, words(&[init, trailer, ram, end, version]))
}

#[test]
fn simple_tbf() {
    let buffer: Vec<u8> = simple_image();

    let (ver, header_len, whole_len) = parse_tbf_header_lengths(&buffer[0..8].try_into().unwrap())
        .ok()
        .unwrap();
    assert_eq!(ver, 2);
    assert_eq!(header_len, 52);
    assert_eq!(whole_len, 8192);

    let header = parse_tbf_header(&buffer[0..header_len as usize], 2).unwrap();
    assert_eq!(header.enabled(), true);
    assert_eq!(header.get_minimum_app_ram_size(), 4848);
    assert_eq!(header.get_init_function_offset(), 41 + header_len as u32);
    assert_eq!(header.get_protected_size(), header_len as u32);
    assert_eq!(header.get_package_name().unwrap(), "_heart");
    assert_eq!(header.get_kernel_version().unwrap(), (2, 0));
}

#[test]
fn footer_sha256() {
    let buffer: Vec<u8> = sha256_image();

    let (ver, header_len, whole_len) = parse_tbf_header_lengths(&buffer[0..8].try_into().unwrap())
        .ok()
        .unwrap();
    assert_eq!(ver, 2);
    assert_eq!(header_len, 76);
    assert_eq!(whole_len, 8192);

    let header = parse_tbf_header(&buffer[0..header_len as usize], 2).unwrap();
    assert_eq!(header.enabled(), true);
    assert_eq!(header.get_minimum_app_ram_size(), 4848);
    assert_eq!(header.get_init_function_offset(), 41 + header_len as u32);
    assert_eq!(header.get_protected_size(), header_len as u32);
    assert_eq!(header.get_package_name().unwrap(), "_heart");
    assert_eq!(header.get_kernel_version().unwrap(), (2, 0));
    let binary_offset = header.get_binary_end() as usize;
    assert_eq!(binary_offset, 5836);

    let (footer, footer_size) = parse_tbf_footer(&buffer[binary_offset..]).unwrap();
    assert_eq!(footer_size, 36);
    let correct_sha256 = [
        214u8, 17, 81, 32, 51, 178, 249, 35, 161, 33, 109, 184, 195, 46, 238, 158, 141, 54, 63, 94,
        60, 245, 50, 228, 239, 107, 231, 127, 220, 158, 77, 160,
    ];
    if let TbfFooterV2Credentials::SHA256(creds) = footer {
        assert_eq!(
            creds.get_format().unwrap(),
            TbfFooterV2CredentialsType::SHA256
        );
        assert_eq!(creds.get_hash(), &correct_sha256);
    } else {
        panic!("Footer is not of type SHA256!");
    }

    let second_footer_offset = binary_offset + footer_size as usize + 4;
    let (footer, footer_size) = parse_tbf_footer(&buffer[second_footer_offset..]).unwrap();
    assert_eq!(footer_size, 2312);
    if let TbfFooterV2Credentials::Reserved(padding) = footer {
        assert_eq!(padding, 2312);
    } else {
        panic!("Footer is not of type 'Reserved'!");
    }
}

#[test]
fn footer_rsa4096() {
    let buffer: Vec<u8> = rsa4096_image();

    let (ver, header_len, whole_len) = parse_tbf_header_lengths(&buffer[0..8].try_into().unwrap())
        .ok()
        .unwrap();
    assert_eq!(ver, 2);
    assert_eq!(header_len, 76);
    assert_eq!(whole_len, 4096);

    let header = parse_tbf_header(&buffer[0..header_len as usize], 2).unwrap();
    assert_eq!(header.enabled(), true);
    assert_eq!(header.get_minimum_app_ram_size(), 4612);
    assert_eq!(header.get_init_function_offset(), 41 + header_len as u32);
    assert_eq!(header.get_protected_size(), header_len as u32);
    assert_eq!(header.get_package_name().unwrap(), "c_hello");
    assert_eq!(header.get_kernel_version().unwrap(), (2, 0));
    let binary_offset = header.get_binary_end() as usize;
    assert_eq!(binary_offset, 1168);

    let (footer, footer_size) = parse_tbf_footer(&buffer[binary_offset..]).unwrap();
    assert_eq!(footer_size, 1028);
    let correct_key = &rsa4096_key();
    let correct_signature = &rsa4096_signature();
    if let TbfFooterV2Credentials::Rsa4096Key(creds) = footer {
        assert_eq!(
            creds.get_format().unwrap(),
            TbfFooterV2CredentialsType::Rsa4096Key
        );
        assert_eq!(creds.get_public_key(), correct_key);
        assert_eq!(creds.get_signature(), correct_signature);
    } else {
        panic!("Footer is not of type SHA256!");
    }

    let second_footer_offset = binary_offset + footer_size as usize + 4;
    let (footer, footer_size) = parse_tbf_footer(&buffer[second_footer_offset..]).unwrap();
    assert_eq!(footer_size, 1892);
    if let TbfFooterV2Credentials::Reserved(padding) = footer {
        assert_eq!(padding, 1892);
    } else {
        panic!("Footer is not of type 'Reserved'!");
    }
}

#[test]
fn header_lengths_of_other_versions_are_not_parsed() {
    assert_eq!(
        parse_tbf_header_lengths(&[0xff; 8]),
        Err(InitialTbfParseError::UnableToParse)
    );
    assert_eq!(
        parse_tbf_header_lengths(&[0x00; 8]),
        Err(InitialTbfParseError::UnableToParse)
    );
    assert_eq!(
        parse_tbf_header_lengths(&[1, 0, 16, 0, 32, 0, 0, 0]),
        Err(InitialTbfParseError::UnableToParse)
    );
}

#[test]
fn header_lengths_that_do_not_fit_are_invalid() {
    // The header is longer than the object.
    assert_eq!(
        parse_tbf_header_lengths(&[2, 0, 52, 0, 51, 0, 0, 0]),
        Err(InitialTbfParseError::InvalidHeader(51))
    );
    // The header is shorter than its base.
    assert_eq!(
        parse_tbf_header_lengths(&[2, 0, 15, 0, 0, 0x20, 0, 0]),
        Err(InitialTbfParseError::InvalidHeader(8192))
    );
    assert_eq!(
        parse_tbf_header_lengths(&[2, 0, 16, 0, 16, 0, 0, 0]),
        Ok((2, 16, 16))
    );
    assert_eq!(
        parse_tbf_header_lengths(&[2, 0, 0x34, 0x12, 0x78, 0x56, 0x34, 0x12]),
        Ok((2, 0x1234, 0x1234_5678))
    );
}

#[test]
fn header_of_another_version_is_unsupported() {
    assert_eq!(
        parse_tbf_header(&SIMPLE_HEADER, 1).err(),
        Some(TbfParseError::UnsupportedVersion(1))
    );
    assert_eq!(
        parse_tbf_header(&[], 3).err(),
        Some(TbfParseError::UnsupportedVersion(3))
    );
}

#[test]
fn header_shorter_than_its_base_is_an_internal_error() {
    assert_eq!(
        parse_tbf_header(&SIMPLE_HEADER[..15], 2).err(),
        Some(TbfParseError::InternalError)
    );
}

#[test]
fn checksum_mismatch_carries_both_checksums() {
    let mut header = SIMPLE_HEADER;
    header[12] ^= 0x01;
    assert_eq!(
        parse_tbf_header(&header, 2).err(),
        Some(TbfParseError::ChecksumMismatch(0x615f_2efe, 0x615f_2eff))
    );
}

#[test]
fn any_changed_byte_outside_the_checksum_is_detected() {
    for i in 0..SIMPLE_HEADER.len() {
        if (12..16).contains(&i) {
            continue;
        }
        let mut header = SIMPLE_HEADER;
        header[i] ^= 0x40;
        match parse_tbf_header(&header, 2) {
            Err(TbfParseError::ChecksumMismatch(stored, computed)) => {
                assert_eq!(stored, 0x615f_2eff);
                assert_ne!(computed, stored);
            }
            _ => panic!("the change of byte {} went unnoticed", i),
        }
    }
}

#[test]
fn bytes_after_the_last_word_do_not_count_for_the_checksum() {
    let mut header = header_with(64, 1, &[]);
    header.push(0);
    header.push(0);
    let before = parse_tbf_header(&header, 2).err();
    header[17] = 0x55;
    assert_eq!(parse_tbf_header(&header, 2).err(), before);
    assert_eq!(before, Some(TbfParseError::NotEnoughFlash));
}

#[test]
fn header_without_entries_is_padding() {
    let bytes = header_with(64, 1, &[]);
    assert_eq!(bytes.len(), 16);
    let header = parse_tbf_header(&bytes, 2).unwrap();
    assert!(!header.is_app());
    assert!(!header.enabled());
    assert_eq!(header.length(), 16);
    assert_eq!(header.get_minimum_app_ram_size(), 0);
    assert_eq!(header.get_protected_size(), 0);
    assert_eq!(header.get_app_start_offset(), 0);
    assert_eq!(header.get_init_function_offset(), 0);
    assert_eq!(header.get_package_name(), None);
    assert_eq!(header.number_writeable_flash_regions(), 0);
    assert_eq!(header.get_writeable_flash_region(0), (0, 0));
    assert_eq!(header.get_fixed_address_ram(), None);
    assert_eq!(header.get_fixed_address_flash(), None);
    assert_eq!(
        header.get_command_permissions(0, 0),
        CommandPermissions::NoPermsAtAll
    );
    assert_eq!(header.get_storage_write_id(), None);
    assert_eq!(header.get_storage_read_ids(), None);
    assert_eq!(header.get_storage_modify_ids(), None);
    assert_eq!(header.get_kernel_version(), None);
    assert_eq!(header.get_binary_end(), 0);
    assert_eq!(header.get_binary_version(), 0);
}

#[test]
fn header_without_main_or_program_is_padding() {
    let bytes = header_with(64, 1, &[(3, b"name".to_vec()), (8, vec![2, 0, 1, 0])]);
    let header = parse_tbf_header(&bytes, 2).unwrap();
    assert!(!header.is_app());
    assert_eq!(header.length(), 32);
    assert_eq!(header.get_package_name(), None);
    assert_eq!(header.get_kernel_version(), None);
}

#[test]
fn program_entry_overrides_main_entry() {
    let bytes = header_with(
        4096,
        0,
        &[
            main_entry(10, 4, 1000),
            program_entry(20, 8, 2000, 3000, 7),
        ],
    );
    let header = parse_tbf_header(&bytes, 2).unwrap();
    assert!(header.is_app());
    assert!(!header.enabled());
    assert_eq!(header.length(), 56);
    assert_eq!(header.get_minimum_app_ram_size(), 2000);
    assert_eq!(header.get_protected_size(), 56 + 8);
    assert_eq!(header.get_app_start_offset(), 56 + 8);
    assert_eq!(header.get_init_function_offset(), 20 + 56);
    assert_eq!(header.get_binary_end(), 3000);
    assert_eq!(header.get_binary_version(), 7);
}

#[test]
fn main_entry_alone_ends_the_binary_at_the_total_size() {
    let bytes = header_with(4096, 1, &[main_entry(10, 4, 1000)]);
    let header = parse_tbf_header(&bytes, 2).unwrap();
    assert!(header.is_app());
    assert_eq!(header.get_minimum_app_ram_size(), 1000);
    assert_eq!(header.get_protected_size(), 32 + 4);
    assert_eq!(header.get_init_function_offset(), 10 + 32);
    assert_eq!(header.get_binary_end(), 4096);
    assert_eq!(header.get_binary_version(), 0);
}

#[test]
fn first_main_entry_is_kept() {
    let bytes = header_with(
        4096,
        1,
        &[main_entry(10, 4, 1000), main_entry(11, 5, 1001)],
    );
    let header = parse_tbf_header(&bytes, 2).unwrap();
    assert_eq!(header.get_minimum_app_ram_size(), 1000);
    // The second is not even held against the length of a main entry.
    let bytes = header_with(4096, 1, &[main_entry(10, 4, 1000), (1, vec![0; 8])]);
    let header = parse_tbf_header(&bytes, 2).unwrap();
    assert_eq!(header.get_minimum_app_ram_size(), 1000);
}

#[test]
fn sums_wrap_at_32_bits() {
    let bytes = header_with(4096, 1, &[main_entry(0xFFFF_FFFF, 0xFFFF_FFF0, 1000)]);
    let header = parse_tbf_header(&bytes, 2).unwrap();
    assert_eq!(header.get_protected_size(), 16);
    assert_eq!(header.get_init_function_offset(), 31);
}

#[test]
fn entries_of_a_wrong_length_are_bad() {
    for (tipe, length) in [(1u16, 8usize), (9, 12), (5, 4), (8, 8), (2, 12)] {
        let bytes = header_with(4096, 1, &[(tipe, vec![0; length])]);
        assert_eq!(
            parse_tbf_header(&bytes, 2).err(),
            Some(TbfParseError::BadTlvEntry(tipe as usize))
        );
    }
}

#[test]
fn entries_that_run_past_the_header_are_not_enough_flash() {
    // An entry that claims more bytes than the header has.
    let mut bytes = header_with(4096, 1, &[main_entry(10, 4, 1000)]);
    bytes.truncate(24);
    seal(&mut bytes);
    assert_eq!(
        parse_tbf_header(&bytes, 2).err(),
        Some(TbfParseError::NotEnoughFlash)
    );
    // Less than the type and length of an entry.
    let mut bytes = header_with(4096, 1, &[]);
    bytes.extend_from_slice(&[1, 0]);
    assert_eq!(
        parse_tbf_header(&bytes, 2).err(),
        Some(TbfParseError::NotEnoughFlash)
    );
    // An unknown entry whose padding is missing.
    let mut bytes = header_with(4096, 1, &[(77, vec![1, 2, 3, 4, 5])]);
    bytes.truncate(16 + 4 + 5);
    seal(&mut bytes);
    assert_eq!(
        parse_tbf_header(&bytes, 2).err(),
        Some(TbfParseError::NotEnoughFlash)
    );
}

#[test]
fn unknown_entries_are_skipped() {
    let bytes = header_with(
        4096,
        1,
        &[
            (77, vec![1, 2, 3, 4, 5]),
            main_entry(10, 4, 1000),
            (128, vec![9; 8]),
            (4, vec![]),
        ],
    );
    let header = parse_tbf_header(&bytes, 2).unwrap();
    assert!(header.is_app());
    assert_eq!(header.get_minimum_app_ram_size(), 1000);
}

#[test]
fn package_name_limits() {
    let name = vec![b'a'; 64];
    let bytes = header_with(4096, 1, &[main_entry(0, 0, 0), (3, name.clone())]);
    let header = parse_tbf_header(&bytes, 2).unwrap();
    assert_eq!(
        header.get_package_name().unwrap().as_bytes(),
        name.as_slice()
    );

    let bytes = header_with(4096, 1, &[main_entry(0, 0, 0), (3, vec![b'a'; 65])]);
    assert_eq!(
        parse_tbf_header(&bytes, 2).err(),
        Some(TbfParseError::PackageNameTooLong)
    );

    let bytes = header_with(4096, 1, &[main_entry(0, 0, 0), (3, vec![0xff, 0xfe])]);
    assert_eq!(
        parse_tbf_header(&bytes, 2).err(),
        Some(TbfParseError::BadProcessName)
    );

    let bytes = header_with(4096, 1, &[main_entry(0, 0, 0), (3, "h\u{e9}".as_bytes().to_vec())]);
    let header = parse_tbf_header(&bytes, 2).unwrap();
    assert_eq!(header.get_package_name(), Some("h\u{e9}"));

    let bytes = header_with(4096, 1, &[main_entry(0, 0, 0), (3, vec![])]);
    let header = parse_tbf_header(&bytes, 2).unwrap();
    assert_eq!(header.get_package_name(), Some(""));
}

#[test]
fn writeable_flash_regions_up_to_four() {
    let bytes = header_with(
        4096,
        1,
        &[main_entry(0, 0, 0), (2, words(&[100, 10, 200, 20, 300, 30]))],
    );
    let header = parse_tbf_header(&bytes, 2).unwrap();
    assert_eq!(header.number_writeable_flash_regions(), 3);
    assert_eq!(header.get_writeable_flash_region(0), (100, 10));
    assert_eq!(header.get_writeable_flash_region(1), (200, 20));
    assert_eq!(header.get_writeable_flash_region(2), (300, 30));
    assert_eq!(header.get_writeable_flash_region(3), (0, 0));
    assert_eq!(header.get_writeable_flash_region(4), (0, 0));
    assert_eq!(header.get_writeable_flash_region(usize::MAX), (0, 0));

    let bytes = header_with(
        4096,
        1,
        &[main_entry(0, 0, 0), (2, words(&[1, 2, 3, 4, 5, 6, 7, 8]))],
    );
    let header = parse_tbf_header(&bytes, 2).unwrap();
    assert_eq!(header.number_writeable_flash_regions(), 4);
    assert_eq!(header.get_writeable_flash_region(3), (7, 8));

    let bytes = header_with(
        4096,
        1,
        &[main_entry(0, 0, 0), (2, words(&[1, 2, 3, 4, 5, 6, 7, 8, 9, 10]))],
    );
    assert_eq!(
        parse_tbf_header(&bytes, 2).err(),
        Some(TbfParseError::TooManyEntries(2))
    );

    let bytes = header_with(4096, 1, &[main_entry(0, 0, 0), (2, vec![])]);
    let header = parse_tbf_header(&bytes, 2).unwrap();
    assert_eq!(header.number_writeable_flash_regions(), 0);
}

#[test]
fn fixed_addresses_and_their_sentinel() {
    let bytes = header_with(
        4096,
        1,
        &[main_entry(0, 0, 0), (5, words(&[0x2000_0000, 0xFFFF_FFFF]))],
    );
    let header = parse_tbf_header(&bytes, 2).unwrap();
    assert_eq!(header.get_fixed_address_ram(), Some(0x2000_0000));
    assert_eq!(header.get_fixed_address_flash(), None);

    let bytes = header_with(
        4096,
        1,
        &[main_entry(0, 0, 0), (5, words(&[0xFFFF_FFFF, 0x0004_0000]))],
    );
    let header = parse_tbf_header(&bytes, 2).unwrap();
    assert_eq!(header.get_fixed_address_ram(), None);
    assert_eq!(header.get_fixed_address_flash(), Some(0x0004_0000));
}

fn permissions_entry(entries: &[(u32, u32, u64)]) -> (u16, Vec<u8>) {
    let mut body = Vec::new();
    body.extend_from_slice(&(entries.len() as u16).to_le_bytes());
    for (driver, offset, allowed) in entries {
        body.extend_from_slice(&driver.to_le_bytes());
        body.extend_from_slice(&offset.to_le_bytes());
        body.extend_from_slice(&allowed.to_le_bytes());
    }
    (6, body)
}

#[test]
fn command_permissions_lookup() {
    let bytes = header_with(
        4096,
        1,
        &[
            main_entry(0, 0, 0),
            permissions_entry(&[
                (5, 0, 0x0123_4567_89ab_cdef),
                (5, 1, 0x3),
                (9, 0, 0x8000_0000_0000_0000),
                (5, 0, 0xffff),
            ]),
        ],
    );
    let header = parse_tbf_header(&bytes, 2).unwrap();
    assert_eq!(
        header.get_command_permissions(5, 0),
        CommandPermissions::Mask(0x0123_4567_89ab_cdef)
    );
    assert_eq!(
        header.get_command_permissions(5, 1),
        CommandPermissions::Mask(0x3)
    );
    assert_eq!(
        header.get_command_permissions(5, 2),
        CommandPermissions::Mask(0)
    );
    assert_eq!(
        header.get_command_permissions(9, 0),
        CommandPermissions::Mask(0x8000_0000_0000_0000)
    );
    assert_eq!(
        header.get_command_permissions(7, 0),
        CommandPermissions::NoPermsThisDriver
    );
    // No entry was recorded for driver 0.
    assert_eq!(
        header.get_command_permissions(0, 0),
        CommandPermissions::NoPermsThisDriver
    );
}

#[test]
fn permissions_without_entries_record_no_driver() {
    let bytes = header_with(4096, 1, &[main_entry(0, 0, 0), permissions_entry(&[])]);
    let header = parse_tbf_header(&bytes, 2).unwrap();
    assert_eq!(
        header.get_command_permissions(1, 0),
        CommandPermissions::NoPermsThisDriver
    );
    let bytes = header_with(4096, 1, &[main_entry(0, 0, 0)]);
    let header = parse_tbf_header(&bytes, 2).unwrap();
    assert_eq!(
        header.get_command_permissions(1, 0),
        CommandPermissions::NoPermsAtAll
    );
}

#[test]
fn permissions_beyond_eight_are_too_many() {
    let eight: Vec<(u32, u32, u64)> = (0..8).map(|i| (i, 0, 1u64 << i)).collect();
    let bytes = header_with(4096, 1, &[main_entry(0, 0, 0), permissions_entry(&eight)]);
    let header = parse_tbf_header(&bytes, 2).unwrap();
    assert_eq!(
        header.get_command_permissions(7, 0),
        CommandPermissions::Mask(128)
    );

    let nine: Vec<(u32, u32, u64)> = (0..9).map(|i| (i, 0, 1u64 << i)).collect();
    let bytes = header_with(4096, 1, &[main_entry(0, 0, 0), permissions_entry(&nine)]);
    assert_eq!(
        parse_tbf_header(&bytes, 2).err(),
        Some(TbfParseError::TooManyEntries(6))
    );
}

#[test]
fn permissions_that_are_cut_short_are_not_enough_flash() {
    let (tipe, mut body) = permissions_entry(&[(1, 0, 1), (2, 0, 2)]);
    body.truncate(2 + 16 + 8);
    let bytes = header_with(4096, 1, &[main_entry(0, 0, 0), (tipe, body)]);
    assert_eq!(
        parse_tbf_header(&bytes, 2).err(),
        Some(TbfParseError::NotEnoughFlash)
    );
    let bytes = header_with(4096, 1, &[main_entry(0, 0, 0), (6, vec![1])]);
    assert_eq!(
        parse_tbf_header(&bytes, 2).err(),
        Some(TbfParseError::NotEnoughFlash)
    );
}

fn storage_entry(write_id: u32, read_ids: &[u32], modify_ids: &[u32]) -> (u16, Vec<u8>) {
    let mut body = Vec::new();
    body.extend_from_slice(&write_id.to_le_bytes());
    body.extend_from_slice(&(read_ids.len() as u16).to_le_bytes());
    body.extend_from_slice(&words(read_ids));
    body.extend_from_slice(&(modify_ids.len() as u16).to_le_bytes());
    body.extend_from_slice(&words(modify_ids));
    (7, body)
}

#[test]
fn storage_permissions_are_read() {
    let bytes = header_with(
        4096,
        1,
        &[main_entry(0, 0, 0), storage_entry(77, &[1, 2, 3], &[9])],
    );
    let header = parse_tbf_header(&bytes, 2).unwrap();
    assert_eq!(header.get_storage_write_id(), Some(77));
    assert_eq!(
        header.get_storage_read_ids(),
        Some((3, [1, 2, 3, 0, 0, 0, 0, 0]))
    );
    assert_eq!(
        header.get_storage_modify_ids(),
        Some((1, [9, 0, 0, 0, 0, 0, 0, 0]))
    );

    let bytes = header_with(4096, 1, &[main_entry(0, 0, 0), storage_entry(0, &[], &[])]);
    let header = parse_tbf_header(&bytes, 2).unwrap();
    assert_eq!(header.get_storage_write_id(), None);
    assert_eq!(header.get_storage_read_ids(), Some((0, [0; 8])));
    assert_eq!(header.get_storage_modify_ids(), Some((0, [0; 8])));
}

#[test]
fn storage_permissions_beyond_eight_are_too_many() {
    let ids: Vec<u32> = (1..=8).collect();
    let bytes = header_with(4096, 1, &[main_entry(0, 0, 0), storage_entry(1, &ids, &ids)]);
    let header = parse_tbf_header(&bytes, 2).unwrap();
    assert_eq!(
        header.get_storage_read_ids(),
        Some((8, [1, 2, 3, 4, 5, 6, 7, 8]))
    );
    assert_eq!(
        header.get_storage_modify_ids(),
        Some((8, [1, 2, 3, 4, 5, 6, 7, 8]))
    );

    let nine: Vec<u32> = (1..=9).collect();
    let bytes = header_with(4096, 1, &[main_entry(0, 0, 0), storage_entry(1, &nine, &[])]);
    assert_eq!(
        parse_tbf_header(&bytes, 2).err(),
        Some(TbfParseError::TooManyEntries(7))
    );
    let bytes = header_with(4096, 1, &[main_entry(0, 0, 0), storage_entry(1, &[], &nine)]);
    assert_eq!(
        parse_tbf_header(&bytes, 2).err(),
        Some(TbfParseError::TooManyEntries(7))
    );
}

#[test]
fn storage_permissions_that_are_cut_short_are_not_enough_flash() {
    let (tipe, mut body) = storage_entry(1, &[1, 2], &[3]);
    body.truncate(4 + 2 + 8 + 1);
    let bytes = header_with(4096, 1, &[main_entry(0, 0, 0), (tipe, body)]);
    assert_eq!(
        parse_tbf_header(&bytes, 2).err(),
        Some(TbfParseError::NotEnoughFlash)
    );
}

#[test]
fn footer_errors() {
    assert_eq!(
        parse_tbf_footer(&[128, 0, 4]).err(),
        Some(TbfParseError::NotEnoughFlash)
    );
    // An entry of another type, and one of an unknown type.
    assert_eq!(
        parse_tbf_footer(&[1, 0, 4, 0, 0, 0, 0, 0]).err(),
        Some(TbfParseError::BadTlvEntry(1))
    );
    assert_eq!(
        parse_tbf_footer(&[77, 0, 4, 0, 0, 0, 0, 0]).err(),
        Some(TbfParseError::BadTlvEntry(129))
    );
    // The body is shorter than the entry says.
    assert_eq!(
        parse_tbf_footer(&[128, 0, 8, 0, 0, 0, 0, 0]).err(),
        Some(TbfParseError::NotEnoughFlash)
    );
    // The body has no room for the format.
    assert_eq!(
        parse_tbf_footer(&[128, 0, 2, 0, 0, 0]).err(),
        Some(TbfParseError::InternalError)
    );
    // A format that is not known.
    assert_eq!(
        parse_tbf_footer(&[128, 0, 4, 0, 6, 0, 0, 0]).err(),
        Some(TbfParseError::InternalError)
    );
    // A hash that is cut short.
    let mut footer = vec![128, 0, 35, 0, 3, 0, 0, 0];
    footer.extend_from_slice(&[7; 31]);
    assert_eq!(
        parse_tbf_footer(&footer).err(),
        Some(TbfParseError::NotEnoughFlash)
    );
}

#[test]
fn footers_of_every_format() {
    for (format, payload, kind) in [
        (3u32, 32usize, TbfFooterV2CredentialsType::SHA256),
        (4, 48, TbfFooterV2CredentialsType::SHA384),
        (5, 64, TbfFooterV2CredentialsType::SHA512),
        (1, 768, TbfFooterV2CredentialsType::Rsa3072Key),
        (2, 1024, TbfFooterV2CredentialsType::Rsa4096Key),
    ] {
        let data: Vec<u8> = (0..payload).map(|i| (i % 251) as u8).collect();
        let mut footer = vec![0u8; 8 + payload];
        put_footer(&mut footer, 0, (payload + 4) as u16, format, &data);
        let (credentials, length) = parse_tbf_footer(&footer).unwrap();
        assert_eq!(length as usize, payload + 4);
        match credentials {
            TbfFooterV2Credentials::SHA256(sha) => {
                assert_eq!(sha.get_format(), Ok(kind));
                assert_eq!(&sha.get_hash()[..], &data[..]);
            }
            TbfFooterV2Credentials::SHA384(sha) => {
                assert_eq!(sha.get_format(), Ok(kind));
                assert_eq!(&sha.get_hash()[..], &data[..]);
            }
            TbfFooterV2Credentials::SHA512(sha) => {
                assert_eq!(sha.get_format(), Ok(kind));
                assert_eq!(&sha.get_hash()[..], &data[..]);
            }
            TbfFooterV2Credentials::Rsa3072Key(rsa) => {
                assert_eq!(rsa.get_format(), Ok(kind));
                assert_eq!(&rsa.get_public_key()[..], &data[..384]);
                assert_eq!(&rsa.get_signature()[..], &data[384..]);
            }
            TbfFooterV2Credentials::Rsa4096Key(rsa) => {
                assert_eq!(rsa.get_format(), Ok(kind));
                assert_eq!(&rsa.get_public_key()[..], &data[..512]);
                assert_eq!(&rsa.get_signature()[..], &data[512..]);
            }
            TbfFooterV2Credentials::Reserved(_) => panic!("Footer is of type 'Reserved'!"),
        }
    }
}

#[test]
fn walking_the_applications_in_flash() {
    let mut flash = Vec::new();
    flash.extend_from_slice(&simple_image());
    flash.extend_from_slice(&rsa4096_image());
    // An object whose header is longer than the object itself.
    let mut broken = vec![0u8; 64];
    broken[..8].copy_from_slice(&[2, 0, 0xff, 0, 64, 0, 0, 0]);
    flash.extend_from_slice(&broken);
    flash.extend_from_slice(&sha256_image());
    flash.extend_from_slice(&[0xff; 512]);

    let mut offset = 0usize;
    let mut names = Vec::new();
    while offset + 8 <= flash.len() {
        let first: [u8; 8] = flash[offset..offset + 8].try_into().unwrap();
        match parse_tbf_header_lengths(&first) {
            Ok((version, header_length, total_size)) => {
                let header =
                    parse_tbf_header(&flash[offset..offset + header_length as usize], version)
                        .unwrap();
                names.push(header.get_package_name().unwrap().to_string());
                offset += total_size as usize;
            }
            Err(InitialTbfParseError::InvalidHeader(total_size)) => offset += total_size as usize,
            Err(InitialTbfParseError::UnableToParse) => break,
        }
    }
    assert_eq!(names, vec!["_heart", "c_hello", "_heart"]);
    assert_eq!(offset, 8192 + 4096 + 64 + 8192);
}

#[test]
fn objects_in_flash_are_found() {
    let mut flash = Vec::new();
    flash.extend_from_slice(&simple_image());
    flash.extend_from_slice(&rsa4096_image());
    // An object whose header is longer than the object itself.
    let mut broken = vec![0u8; 64];
    broken[..8].copy_from_slice(&[2, 0, 0xff, 0, 64, 0, 0, 0]);
    flash.extend_from_slice(&broken);
    // An object whose header does not match its checksum.
    let mut corrupt = sha256_image();
    corrupt[20] ^= 0xff;
    flash.extend_from_slice(&corrupt);
    // Padding.
    let mut padding = header_with(128, 0, &[]);
    padding.resize(128, 0);
    flash.extend_from_slice(&padding);
    flash.extend_from_slice(&sha256_image());
    flash.extend_from_slice(&[0xff; 512]);

    let objects = parse_tbf_objects(&flash);
    let found: Vec<(usize, bool, Option<&str>)> = objects
        .iter()
        .map(|object| {
            (
                object.offset,
                object.header.is_app(),
                object.header.get_package_name(),
            )
        })
        .collect();
    assert_eq!(
        found,
        vec![
            (0, true, Some("_heart")),
            (8192, true, Some("c_hello")),
            (8192 + 4096 + 64 + 8192, false, None),
            (8192 + 4096 + 64 + 8192 + 128, true, Some("_heart")),
        ]
    );
}

#[test]
fn erased_flash_holds_no_object() {
    assert!(parse_tbf_objects(&[]).is_empty());
    assert!(parse_tbf_objects(&[2, 0, 16, 0]).is_empty());
    assert!(parse_tbf_objects(&[0xff; 4096]).is_empty());
    assert!(parse_tbf_objects(&[0x00; 4096]).is_empty());
}

#[test]
fn walk_ends_where_it_cannot_go_on() {
    // An invalid object of length 0.
    let mut flash = vec![2, 0, 8, 0, 0, 0, 0, 0];
    flash.extend_from_slice(&simple_image());
    assert!(parse_tbf_objects(&flash).is_empty());
    // An object that runs past the end of the region is found; nothing after it.
    let image = simple_image();
    let objects = parse_tbf_objects(&image[..4096]);
    assert_eq!(objects.len(), 1);
    assert_eq!(objects[0].offset, 0);
    assert_eq!(objects[0].header.get_package_name(), Some("_heart"));
    // A header that is cut off is not.
    assert!(parse_tbf_objects(&image[..40]).is_empty());
}

#[test]
fn checksum_is_the_exclusive_or_of_the_words() {
    assert_eq!(compute_checksum(&[]), 0);
    assert_eq!(compute_checksum(&[1, 2, 3]), 0);
    assert_eq!(compute_checksum(&[0x78, 0x56, 0x34, 0x12]), 0x1234_5678);
    assert_eq!(
        compute_checksum(&[0x78, 0x56, 0x34, 0x12, 0x01, 0x00, 0x00, 0xf0, 0xaa]),
        0xe234_5679
    );
    // The fourth word holds the checksum and does not count.
    let mut header = [0u8; 20];
    header[12..16].copy_from_slice(&[0xff; 4]);
    header[16] = 0x40;
    assert_eq!(compute_checksum(&header), 0x40);
    assert_eq!(compute_checksum(&SIMPLE_HEADER), 0x615f_2eff);
}

#[test]
fn parse_errors_have_their_messages() {
    assert_eq!(
        TbfParseError::NotEnoughFlash.message(),
        "Buffer too short to parse TBF header"
    );
    assert_eq!(
        TbfParseError::UnsupportedVersion(3).message(),
        "TBF version 3 unsupported"
    );
    assert_eq!(
        TbfParseError::UnsupportedVersion(65535).message(),
        "TBF version 65535 unsupported"
    );
    assert_eq!(
        TbfParseError::ChecksumMismatch(0x615f_2efe, 0).message(),
        "Checksum verification failed: app:0x615f2efe, calc:0x0"
    );
    assert_eq!(
        TbfParseError::ChecksumMismatch(0xffff_ffff, 0x10).message(),
        "Checksum verification failed: app:0xffffffff, calc:0x10"
    );
    assert_eq!(
        TbfParseError::BadTlvEntry(129).message(),
        "TLV entry type 129 is invalid"
    );
    assert_eq!(
        TbfParseError::BadProcessName.message(),
        "Process name not UTF-8"
    );
    assert_eq!(
        TbfParseError::InternalError.message(),
        "Internal kernel error. This is a bug."
    );
    assert_eq!(
        TbfParseError::TooManyEntries(0).message(),
        "There are too many variable entries of 0 for Tock to parse"
    );
    assert_eq!(
        TbfParseError::TooManyEntries(usize::MAX).message(),
        format!(
            "There are too many variable entries of {} for Tock to parse",
            usize::MAX
        )
    );
    assert_eq!(
        TbfParseError::PackageNameTooLong.message(),
        "The package name is too long."
    );
}
