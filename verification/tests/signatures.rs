use rpecli::error::PeError;
use rpecli::image::{Arch, DataDirectoryEntry, Image, SectionHeader};
use rpecli::sig::{
    certificate_table, certificate_table_range, num_sections, offsets, section_data_range,
    AttributeCertificate, AuthenSig, Cert, CertificateError, Identifier, PeAuthenticodes,
    PeOffsets,
};

fn put_u16(data: &mut Vec<u8>, at: usize, value: u16) {
    data[at..at + 2].copy_from_slice(&value.to_le_bytes());
}

fn put_u32(data: &mut Vec<u8>, at: usize, value: u32) {
    data[at..at + 4].copy_from_slice(&value.to_le_bytes());
}

/// The security directory is slot four; its address is a file offset.
fn image_with(data: Vec<u8>, arch: Arch, security: DataDirectoryEntry) -> Image {
    let mut directories = vec![DataDirectoryEntry { rva: 0, size: 0 }; 4];
    directories.push(security);
    directories.resize(16, DataDirectoryEntry { rva: 0, size: 0 });
    Image {
        data,
        arch,
        nt_offset: 0x80,
        entry_point: 0,
        image_base: 0x40_0000,
        subsystem: 3,
        timestamp: 0,
        characteristics: 0,
        directories,
        sections: vec![
            SectionHeader {
                name: *b".text\0\0\0",
                virtual_address: 0x1000,
                virtual_size: 0x150,
                file_offset: 0x200,
                file_size: 0x200,
                characteristics: 0x6000_0020,
            },
            SectionHeader {
                name: *b".odd\0\0\0\0",
                virtual_address: 0x2000,
                virtual_size: 0x10,
                file_offset: 0xffff_fff0,
                file_size: 0x20,
                characteristics: 0,
            },
        ],
    }
}

fn certificate(data: &mut Vec<u8>, at: usize, size: u32, revision: u16, kind: u16) {
    put_u32(data, at, size);
    put_u16(data, at + 4, revision);
    put_u16(data, at + 6, kind);
    for i in 8..size as usize {
        data[at + i] = i as u8;
    }
}

fn two_certificates() -> Image {
    let mut data = vec![0u8; 0x600];
    certificate(&mut data, 0x500, 13, 0x0200, 2); // padded to 16
    certificate(&mut data, 0x510, 16, 0x0100, 1);
    image_with(data, Arch::X86, DataDirectoryEntry { rva: 0x500, size: 0x20 })
}

#[test]
fn entries_of_the_certificate_table() {
    let entries = certificate_table(&two_certificates()).unwrap();
    assert_eq!(entries.len(), 2);
    assert_eq!(entries[0].revision, 0x0200);
    assert_eq!(entries[0].certificate_type, 2);
    assert_eq!(entries[0].data, vec![8, 9, 10, 11, 12]);
    assert_eq!(entries[1].revision, 0x0100);
    assert_eq!(entries[1].certificate_type, 1);
    assert_eq!(entries[1].data, vec![8, 9, 10, 11, 12, 13, 14, 15]);
}

#[test]
fn an_unsigned_image_has_no_entries() {
    let image = image_with(vec![0u8; 0x600], Arch::X86, DataDirectoryEntry { rva: 0, size: 0x20 });
    assert!(certificate_table(&image).unwrap().is_empty());
    let mut image = two_certificates();
    image.directories.truncate(4);
    assert!(certificate_table(&image).unwrap().is_empty());
    // a table of no bytes
    let image =
        image_with(vec![0u8; 0x600], Arch::X86, DataDirectoryEntry { rva: 0x500, size: 0 });
    assert!(certificate_table(&image).unwrap().is_empty());
}

#[test]
fn a_table_past_the_file_is_out_of_bounds() {
    let image =
        image_with(vec![0u8; 0x600], Arch::X86, DataDirectoryEntry { rva: 0x5f0, size: 0x20 });
    assert_eq!(certificate_table(&image).err(), Some(CertificateError::OutOfBounds));
    let image = image_with(
        vec![0u8; 0x600],
        Arch::X86,
        DataDirectoryEntry { rva: u32::MAX, size: u32::MAX },
    );
    assert_eq!(certificate_table(&image).err(), Some(CertificateError::OutOfBounds));
}

#[test]
fn entries_must_fill_the_table() {
    // four bytes are left over behind the second entry
    let mut image = two_certificates();
    image.directories[4].size = 0x24;
    assert_eq!(certificate_table(&image).err(), Some(CertificateError::InvalidSize));
    // the padding of the last entry does not fit
    let mut image = two_certificates();
    certificate(&mut image.data, 0x510, 13, 0x0200, 2);
    image.directories[4].size = 0x1d;
    assert_eq!(certificate_table(&image).err(), Some(CertificateError::InvalidSize));
}

#[test]
fn an_impossible_length_names_its_entry() {
    let mut image = two_certificates();
    put_u32(&mut image.data, 0x510, 7);
    assert_eq!(
        certificate_table(&image).err(),
        Some(CertificateError::InvalidCertificateSize { index: 2 })
    );
    let mut image = two_certificates();
    put_u32(&mut image.data, 0x510, 17);
    assert_eq!(
        certificate_table(&image).err(),
        Some(CertificateError::InvalidCertificateSize { index: 2 })
    );
    let mut image = two_certificates();
    put_u32(&mut image.data, 0x500, 0);
    assert_eq!(
        certificate_table(&image).err(),
        Some(CertificateError::InvalidCertificateSize { index: 1 })
    );
    let mut image = two_certificates();
    put_u32(&mut image.data, 0x500, u32::MAX);
    assert_eq!(
        certificate_table(&image).err(),
        Some(CertificateError::InvalidCertificateSize { index: 1 })
    );
}

#[test]
fn offsets_of_a_32_bit_image() {
    let image = image_with(vec![0u8; 0x600], Arch::X86, DataDirectoryEntry { rva: 0, size: 0 });
    assert_eq!(
        offsets(&image),
        Ok(PeOffsets {
            check_sum: 0x80 + 24 + 64,
            after_check_sum: 0x80 + 24 + 68,
            security_data_dir: 0x80 + 24 + 96 + 32,
            after_security_data_dir: 0x80 + 24 + 96 + 40,
            after_header: 0x80 + 24 + 96 + 128,
        })
    );
}

#[test]
fn offsets_of_a_64_bit_image() {
    let image = image_with(vec![0u8; 0x600], Arch::X64, DataDirectoryEntry { rva: 0, size: 0 });
    assert_eq!(
        offsets(&image),
        Ok(PeOffsets {
            check_sum: 0x80 + 24 + 64,
            after_check_sum: 0x80 + 24 + 68,
            security_data_dir: 0x80 + 24 + 112 + 32,
            after_security_data_dir: 0x80 + 24 + 112 + 40,
            after_header: 0x80 + 24 + 112 + 128,
        })
    );
}

#[test]
fn offsets_need_the_security_slot_and_the_headers() {
    let mut image = two_certificates();
    image.directories.truncate(4);
    assert_eq!(offsets(&image), Err(PeError::DirectoryAbsent));
    let mut image = two_certificates();
    image.directories.truncate(5);
    assert!(offsets(&image).is_ok());
    image.data.truncate(0x80 + 24 + 96 + 39);
    assert_eq!(offsets(&image), Err(PeError::OutOfBounds));
    let mut image = two_certificates();
    image.nt_offset = u32::MAX;
    assert_eq!(offsets(&image), Err(PeError::OutOfBounds));
}

#[test]
fn ranges() {
    let image = two_certificates();
    assert_eq!(num_sections(&image), 2);
    assert_eq!(section_data_range(&image, 0), Some((0x200, 0x400)));
    assert_eq!(section_data_range(&image, 1), Some((0xffff_fff0, 0x1_0000_0010)));
    assert_eq!(section_data_range(&image, 2), None);
    assert_eq!(certificate_table_range(&image), Some((0x500, 0x520)));
    let unsigned = image_with(vec![], Arch::X86, DataDirectoryEntry { rva: 0, size: 8 });
    assert_eq!(certificate_table_range(&unsigned), None);
}

fn signature(digest: &[u8]) -> AuthenSig {
    AuthenSig::new(
        digest,
        Some(Identifier { issuer: "CN=Issuer".to_string(), serial_number: "01:02".to_string() }),
        vec![Cert {
            issuer: "CN=Root".to_string(),
            subject: "CN=Issuer".to_string(),
            serial_number: "0a".to_string(),
        }],
    )
}

#[test]
fn the_digest_is_written_in_hexadecimal() {
    let sig = signature(&[0x00, 0x0f, 0xa0, 0xff, 0x12]);
    assert_eq!(sig.digest, "000fa0ff12");
    assert_eq!(sig.issuer.unwrap().serial_number, "01:02");
    assert_eq!(sig.certificates.len(), 1);
    assert_eq!(AuthenSig::new(&[], None, vec![]).digest, "");
}

#[test]
fn the_digest_reads_as_the_hex_crate_writes_it() {
    let every_byte: Vec<u8> = (0..=255u8).collect();
    assert_eq!(AuthenSig::new(&every_byte, None, vec![]).digest, hex::encode(&every_byte));
}

#[test]
fn entries_that_are_no_signatures_are_left_out() {
    let decoded = vec![None, Some(signature(&[1])), None, Some(signature(&[2])), Some(signature(&[3]))];
    let found = PeAuthenticodes::from_decoded(decoded);
    let digests: Vec<&str> = found.signatures.iter().map(|s| s.digest.as_str()).collect();
    assert_eq!(digests, vec!["01", "02", "03"]);
    assert!(PeAuthenticodes::from_decoded(vec![]).signatures.is_empty());
    assert!(PeAuthenticodes::from_decoded(vec![None, None]).signatures.is_empty());
}

/// One DER element: a tag, the length, the content.
fn der(tag: u8, content: &[u8]) -> Vec<u8> {
    let mut out = vec![tag];
    let n = content.len();
    if n < 0x80 {
        out.push(n as u8);
    } else if n < 0x100 {
        out.push(0x81);
        out.push(n as u8);
    } else {
        out.push(0x82);
        out.push((n >> 8) as u8);
        out.push(n as u8);
    }
    out.extend_from_slice(content);
    out
}

fn sequence(parts: &[Vec<u8>]) -> Vec<u8> {
    der(0x30, &parts.concat())
}

const SIGNED_DATA: [u8; 9] = [0x2a, 0x86, 0x48, 0x86, 0xf7, 0x0d, 0x01, 0x07, 0x02];
const INDIRECT_DATA: [u8; 10] = [0x2b, 0x06, 0x01, 0x04, 0x01, 0x82, 0x37, 0x02, 0x01, 0x04];
const PE_IMAGE_DATA: [u8; 10] = [0x2b, 0x06, 0x01, 0x04, 0x01, 0x82, 0x37, 0x02, 0x01, 0x0f];
const SHA256: [u8; 9] = [0x60, 0x86, 0x48, 0x01, 0x65, 0x03, 0x04, 0x02, 0x01];
const RSA: [u8; 9] = [0x2a, 0x86, 0x48, 0x86, 0xf7, 0x0d, 0x01, 0x01, 0x01];
const COMMON_NAME: [u8; 3] = [0x55, 0x04, 0x03];

fn algorithm(oid: &[u8]) -> Vec<u8> {
    sequence(&[der(0x06, oid), der(0x05, &[])])
}

/// A signature over `digest` in DER: PKCS #7 signed data of version 1 with
/// one SHA-256 digest algorithm, the digest in its indirect data, no
/// certificates, and one signer, `CN=Issuer` with serial number 01:02.
fn signed_data(digest: &[u8]) -> Vec<u8> {
    let indirect = sequence(&[
        sequence(&[der(0x06, &PE_IMAGE_DATA), sequence(&[])]),
        sequence(&[algorithm(&SHA256), der(0x04, digest)]),
    ]);
    let content = sequence(&[der(0x06, &INDIRECT_DATA), der(0xa0, &indirect)]);
    let issuer = sequence(&[der(
        0x31,
        &sequence(&[der(0x06, &COMMON_NAME), der(0x0c, b"Issuer")]),
    )]);
    let signer = sequence(&[
        der(0x02, &[1]),
        sequence(&[issuer, der(0x02, &[1, 2])]),
        algorithm(&SHA256),
        algorithm(&RSA),
        der(0x04, &[0xaa; 8]),
    ]);
    let signed = sequence(&[
        der(0x02, &[1]),
        der(0x31, &algorithm(&SHA256)),
        content,
        der(0x31, &signer),
    ]);
    sequence(&[der(0x06, &SIGNED_DATA), der(0xa0, &signed)])
}

/// An image whose certificate table holds the given entries, each a
/// revision, a type and the bytes behind the header.
fn signed_image(entries: &[(u16, u16, Vec<u8>)]) -> Image {
    let mut data = vec![0u8; 0x500];
    for (revision, kind, bytes) in entries {
        let at = data.len();
        let size = 8 + bytes.len();
        data.resize(at + (size + 7) / 8 * 8, 0);
        put_u32(&mut data, at, size as u32);
        put_u16(&mut data, at + 4, *revision);
        put_u16(&mut data, at + 6, *kind);
        data[at + 8..at + size].copy_from_slice(bytes);
    }
    let size = (data.len() - 0x500) as u32;
    image_with(data, Arch::X86, DataDirectoryEntry { rva: 0x500, size })
}

/// Names that tell which entry they were read from.
fn names(entry: &AttributeCertificate) -> (Option<Identifier>, Vec<Cert>) {
    let signer = Identifier {
        issuer: format!("signer of {} bytes", entry.data.len()),
        serial_number: "01:02".to_string(),
    };
    (Some(signer), vec![Cert::default()])
}

#[test]
fn signatures_of_an_image() {
    let first = signed_data(&[0x11; 32]);
    let second = signed_data(&[0xde, 0xad, 0xbe, 0xef]);
    let image = signed_image(&[
        (0x0200, 2, first.clone()),
        (0x0100, 2, first.clone()),
        (0x0200, 1, first.clone()),
        (0x0200, 2, vec![8, 9, 10, 11, 12]),
        (0x0200, 2, second.clone()),
    ]);
    assert_eq!(certificate_table(&image).unwrap().len(), 5);
    let found = PeAuthenticodes::parse(&image, names).unwrap();
    assert_eq!(found.signatures.len(), 2);
    assert_eq!(found.signatures[0].digest, "11".repeat(32));
    assert_eq!(found.signatures[1].digest, "deadbeef");
    let signer = found.signatures[0].issuer.clone().unwrap();
    assert_eq!(signer.issuer, format!("signer of {} bytes", first.len()));
    let signer = found.signatures[1].issuer.clone().unwrap();
    assert_eq!(signer.issuer, format!("signer of {} bytes", second.len()));
    assert_eq!(found.signatures[0].certificates, vec![Cert::default()]);
}

#[test]
fn one_entry_decodes_to_its_signature() {
    let entry = AttributeCertificate {
        revision: 0x0200,
        certificate_type: 2,
        data: signed_data(&[1, 2, 3]),
    };
    let found = PeAuthenticodes::decode(&entry, &names).unwrap();
    assert_eq!(found.digest, "010203");
    assert_eq!(found.certificates.len(), 1);
    // bytes behind the signature do not count
    let mut longer = entry.clone();
    longer.data.extend_from_slice(&[0, 0, 0, 0, 0]);
    assert_eq!(PeAuthenticodes::decode(&longer, &names).unwrap().digest, "010203");
}

#[test]
fn entries_that_hold_no_signature_decode_to_nothing() {
    let calls = std::cell::Cell::new(0);
    let counting = |entry: &AttributeCertificate| {
        calls.set(calls.get() + 1);
        names(entry)
    };
    let good = signed_data(&[1, 2, 3]);
    let mut cut = good.clone();
    cut.truncate(good.len() - 1);
    let mut other_content = good.clone();
    let at = good.len() - SIGNED_DATA.len();
    let found = (0..at).find(|i| good[*i..*i + SIGNED_DATA.len()] == SIGNED_DATA).unwrap();
    other_content[found + SIGNED_DATA.len() - 1] = 1;
    for (revision, kind, data) in [
        (0x0100, 2, good.clone()),
        (0x0200, 1, good.clone()),
        (0x0200, 0x0ef0, good.clone()),
        (0x0200, 2, vec![]),
        (0x0200, 2, vec![0x30, 0x00]),
        (0x0200, 2, cut),
        (0x0200, 2, other_content),
    ] {
        let entry = AttributeCertificate { revision, certificate_type: kind, data };
        assert_eq!(PeAuthenticodes::decode(&entry, &counting), None);
    }
    assert_eq!(calls.get(), 0);
}

#[test]
fn the_digest_is_the_one_that_authenticode_reads() {
    let data = signed_data(&[0x5a; 20]);
    let encoded = authenticode::AttributeCertificate {
        revision: 0x0200,
        certificate_type: 2,
        data: &data,
    };
    let signature = encoded.get_authenticode_signature().unwrap();
    assert_eq!(signature.digest(), &[0x5a; 20]);
    match &signature.signer_info().sid {
        cms::signed_data::SignerIdentifier::IssuerAndSerialNumber(sid) => {
            assert_eq!(sid.issuer.to_string(), "CN=Issuer");
            assert_eq!(sid.serial_number.to_string(), "01:02");
        }
        _ => panic!("the signer is named by issuer and serial number"),
    }
    let entry = AttributeCertificate { revision: 0x0200, certificate_type: 2, data: data.clone() };
    let found = PeAuthenticodes::decode(&entry, &names).unwrap();
    assert_eq!(found.digest, hex::encode(signature.digest()));
}

#[test]
fn an_unsigned_image_has_no_signatures() {
    let image = image_with(vec![0u8; 0x600], Arch::X86, DataDirectoryEntry { rva: 0, size: 0 });
    let found = PeAuthenticodes::parse(&image, names).unwrap();
    assert!(found.signatures.is_empty());
    let found = PeAuthenticodes::parse(&two_certificates(), names).unwrap();
    assert!(found.signatures.is_empty());
}

#[test]
fn a_broken_table_has_no_signatures_at_all() {
    let mut image = signed_image(&[(0x0200, 2, signed_data(&[7; 8])), (0x0100, 1, vec![0; 8])]);
    let second = image.data.len() - 16;
    let calls = std::cell::Cell::new(0);
    let counting = |entry: &AttributeCertificate| {
        calls.set(calls.get() + 1);
        names(entry)
    };
    assert_eq!(PeAuthenticodes::parse(&image, &counting).unwrap().signatures.len(), 1);
    assert_eq!(calls.get(), 1);
    put_u32(&mut image.data, second, 5);
    let result = PeAuthenticodes::parse(&image, &counting);
    assert_eq!(result.err(), Some(CertificateError::InvalidCertificateSize { index: 2 }));
    assert_eq!(calls.get(), 1);
    image.directories[4].size = 0x1000;
    assert_eq!(
        PeAuthenticodes::parse(&image, names).err(),
        Some(CertificateError::OutOfBounds)
    );
}
