use rpecli::codeview::{CodeView, NB10_SIGNATURE, RSDS_SIGNATURE};
use rpecli::debug::{
    DebugDirectoryParseError, DebugEntries, DebugEntry, DebugEntryEnum, ImageDebugType, ReadError,
    ReadFrom,
};
use rpecli::image::{Arch, DataDirectoryEntry, Image, SectionHeader};
use rpecli::pgo::{dword_bytes, read_dwords, Pgo};

fn put_u16(data: &mut Vec<u8>, at: usize, value: u16) {
    data[at..at + 2].copy_from_slice(&value.to_le_bytes());
}

fn put_u32(data: &mut Vec<u8>, at: usize, value: u32) {
    data[at..at + 4].copy_from_slice(&value.to_le_bytes());
}

fn put_bytes(data: &mut Vec<u8>, at: usize, bytes: &[u8]) {
    data[at..at + bytes.len()].copy_from_slice(bytes);
}

/// One section that maps RVA 0x3000.. to file offset 0x600..
fn image_with(data: Vec<u8>, debug: DataDirectoryEntry) -> Image {
    let size = (data.len() - 0x600) as u32;
    let mut directories = vec![DataDirectoryEntry { rva: 0, size: 0 }; 6];
    directories.push(debug);
    Image {
        data,
        arch: Arch::X64,
        nt_offset: 0x80,
        entry_point: 0,
        image_base: 0x1_4000_0000,
        subsystem: 3,
        timestamp: 0,
        characteristics: 0,
        directories,
        sections: vec![SectionHeader {
            name: *b".rdata\0\0",
            virtual_address: 0x3000,
            virtual_size: size,
            file_offset: 0x600,
            file_size: size,
            characteristics: 0x4000_0040,
        }],
    }
}

fn entry(type_: u32, size: u32, pointer: u32) -> DebugEntry {
    DebugEntry {
        characteristics: 0,
        time_date_stamp: 0x6000_0000,
        major_version: 0,
        minor_version: 0,
        type_,
        size_of_data: size,
        address_of_raw_data: 0,
        pointer_to_raw_data: pointer,
    }
}

const GUID_BYTES: [u8; 16] = [
    0x01, 0x02, 0x03, 0x04, 0x05, 0x06, 0x07, 0x08, 0x09, 0x0a, 0x0b, 0x0c, 0x0d, 0x0e, 0x0f, 0x10,
];

fn rsds_payload() -> Vec<u8> {
    let mut payload = b"RSDS".to_vec();
    payload.extend_from_slice(&GUID_BYTES);
    payload.extend_from_slice(&7u32.to_le_bytes());
    payload.extend_from_slice(b"app.pdb\0");
    payload
}

#[test]
fn debug_types() {
    assert_eq!(ImageDebugType::from_u32(0), ImageDebugType::Unknown);
    assert_eq!(ImageDebugType::from_u32(1), ImageDebugType::Coff);
    assert_eq!(ImageDebugType::from_u32(2), ImageDebugType::Codeview);
    assert_eq!(ImageDebugType::from_u32(12), ImageDebugType::VcFeature);
    assert_eq!(ImageDebugType::from_u32(13), ImageDebugType::Pogo);
    assert_eq!(ImageDebugType::from_u32(16), ImageDebugType::Repro);
    assert_eq!(ImageDebugType::from_u32(17), ImageDebugType::Unknown);
    assert_eq!(ImageDebugType::from_u32(20), ImageDebugType::ExDllCharacteristics);
    assert_eq!(ImageDebugType::from_u32(u32::MAX), ImageDebugType::Unknown);
}

#[test]
fn entries_fill_the_directory_size() {
    let mut data = vec![0u8; 0x800];
    // two entries at RVA 0x3010 (file 0x610), and 27 bytes that fill no third
    put_u32(&mut data, 0x610, 0x11);
    put_u32(&mut data, 0x614, 0x22);
    put_u16(&mut data, 0x618, 3);
    put_u16(&mut data, 0x61a, 4);
    put_u32(&mut data, 0x61c, 2);
    put_u32(&mut data, 0x620, 0x30);
    put_u32(&mut data, 0x624, 0x3100);
    put_u32(&mut data, 0x628, 0x700);
    put_u32(&mut data, 0x610 + 28 + 12, 13);
    let image = image_with(data, DataDirectoryEntry { rva: 0x3010, size: 2 * 28 + 27 });
    let found = DebugEntries::parse(&image).unwrap();
    assert_eq!(found.entries.len(), 2);
    assert_eq!(
        found.entries[0],
        DebugEntry {
            characteristics: 0x11,
            time_date_stamp: 0x22,
            major_version: 3,
            minor_version: 4,
            type_: 2,
            size_of_data: 0x30,
            address_of_raw_data: 0x3100,
            pointer_to_raw_data: 0x700,
        }
    );
    assert_eq!(found.entries[1].type_, 13);
}

#[test]
fn missing_debug_directory() {
    let image = image_with(vec![0u8; 0x800], DataDirectoryEntry { rva: 0, size: 28 });
    assert_eq!(
        DebugEntries::parse(&image).err(),
        Some(DebugDirectoryParseError::MissingDirectory)
    );
    let image = image_with(vec![0u8; 0x800], DataDirectoryEntry { rva: 0x9000, size: 28 });
    assert!(DebugEntries::parse(&image).is_err());
    // the array runs past the end of the file
    let image = image_with(vec![0u8; 0x800], DataDirectoryEntry { rva: 0x31f0, size: 28 });
    assert!(DebugEntries::parse(&image).is_err());
    let mut image = image_with(vec![0u8; 0x800], DataDirectoryEntry { rva: 0x3000, size: 28 });
    image.directories.truncate(6);
    assert!(DebugEntries::parse(&image).is_err());
}

#[test]
fn codeview_rsds() {
    let mut data = vec![0u8; 0x800];
    let payload = rsds_payload();
    put_bytes(&mut data, 0x700, &payload);
    let image = image_with(data, DataDirectoryEntry { rva: 0x3000, size: 28 });
    let decoded = entry(2, payload.len() as u32, 0x700).parse(&image);
    match decoded {
        Ok(DebugEntryEnum::Codeview(CodeView::Cv70 { image, pdb_file_name })) => {
            assert_eq!(image.Age, 7);
            assert_eq!(image.signature.data1, 0x0403_0201);
            assert_eq!(image.signature.data2, 0x0605);
            assert_eq!(image.signature.data3, 0x0807);
            assert_eq!(image.signature.data4, [0x09, 0x0a]);
            assert_eq!(image.signature.data5, [0x0b, 0x0c, 0x0d, 0x0e]);
            assert_eq!(image.signature.data6, [0x0f, 0x10]);
            assert_eq!(pdb_file_name, "app.pdb");
        }
        _ => panic!("not a PDB 7.0 payload"),
    }
}

#[test]
fn codeview_nb10() {
    let mut payload = b"NB10".to_vec();
    payload.extend_from_slice(&0u32.to_le_bytes());
    payload.extend_from_slice(&0x4a5b_6c7du32.to_le_bytes());
    payload.extend_from_slice(&3u32.to_le_bytes());
    payload.extend_from_slice(b"c:\\build\\old.pdb\0trailing");
    let cv = CodeView::decode(&payload).unwrap();
    assert_eq!(cv.pdb_file_name(), "c:\\build\\old.pdb");
    match cv {
        CodeView::Cv20 { image, .. } => {
            assert_eq!(image.Offset, 0);
            assert_eq!(image.TimeDateStamp, 0x4a5b_6c7d);
            assert_eq!(image.Age, 3);
        }
        _ => panic!("not a PDB 2.0 payload"),
    }
}

#[test]
fn codeview_signatures_as_dwords() {
    assert_eq!(NB10_SIGNATURE.to_le_bytes(), *b"NB10");
    assert_eq!(RSDS_SIGNATURE.to_le_bytes(), *b"RSDS");
}

#[test]
fn codeview_with_another_signature_is_invalid() {
    let mut payload = rsds_payload();
    payload[0] = b'X';
    assert!(CodeView::decode(&payload).is_none());
    let mut data = vec![0u8; 0x800];
    put_bytes(&mut data, 0x700, &payload);
    let image = image_with(data, DataDirectoryEntry { rva: 0x3000, size: 28 });
    assert!(matches!(
        entry(2, payload.len() as u32, 0x700).parse(&image),
        Err(ReadError::InvalidType)
    ));
}

#[test]
fn codeview_that_is_cut_short_is_invalid() {
    let payload = rsds_payload();
    assert!(CodeView::decode(&payload[..3]).is_none());
    assert!(CodeView::decode(&payload[..23]).is_none());
    // the name has lost its closing zero
    assert!(CodeView::decode(&payload[..payload.len() - 1]).is_none());
    assert!(CodeView::decode(&payload[..24]).is_none());
    assert!(CodeView::decode(b"NB10\0\0\0\0\0\0\0\0\0\0\0").is_none());
    assert!(CodeView::decode(&[]).is_none());
}

#[test]
fn codeview_name_must_be_utf8() {
    let mut payload = rsds_payload();
    payload[24] = 0xff;
    assert!(CodeView::decode(&payload).is_none());
}

#[test]
fn codeview_payload_outside_the_file_is_invalid() {
    let image = image_with(vec![0u8; 0x800], DataDirectoryEntry { rva: 0x3000, size: 28 });
    assert!(matches!(entry(2, 0x40, 0x7f0).parse(&image), Err(ReadError::InvalidType)));
    assert!(matches!(
        entry(2, u32::MAX, u32::MAX).parse(&image),
        Err(ReadError::InvalidType)
    ));
    assert!(entry(2, 0x10, 0x7f0).read_payload(&image).is_some());
    assert!(entry(2, 0x11, 0x7f0).read_payload(&image).is_none());
}

#[test]
fn codeview_reader_wants_a_codeview_entry() {
    let mut data = vec![0u8; 0x800];
    let payload = rsds_payload();
    put_bytes(&mut data, 0x700, &payload);
    let image = image_with(data, DataDirectoryEntry { rva: 0x3000, size: 28 });
    assert!(CodeView::read_debug_from(&entry(2, payload.len() as u32, 0x700), &image).is_ok());
    assert_eq!(
        CodeView::read_debug_from(&entry(13, payload.len() as u32, 0x700), &image).err(),
        Some(ReadError::InvalidType)
    );
    assert_eq!(
        Pgo::read_debug_from(&entry(2, 8, 0x700), &image).err(),
        Some(ReadError::InvalidType)
    );
}

#[test]
fn other_types_are_unknown() {
    let image = image_with(vec![0u8; 0x800], DataDirectoryEntry { rva: 0x3000, size: 28 });
    assert!(matches!(entry(1, 4, 0x700).parse(&image), Ok(DebugEntryEnum::Unknown)));
    assert!(matches!(entry(12, 4, 0x700).parse(&image), Ok(DebugEntryEnum::Unknown)));
    // nothing is read for them, so nothing can be wrong with the payload
    assert!(matches!(
        entry(16, u32::MAX, u32::MAX).parse(&image),
        Ok(DebugEntryEnum::Unknown)
    ));
}

fn pogo_payload() -> Vec<u8> {
    let mut payload = Vec::new();
    payload.extend_from_slice(b"LTCG");
    payload.extend_from_slice(&0x1000u32.to_le_bytes());
    payload.extend_from_slice(&0x200u32.to_le_bytes());
    payload.extend_from_slice(b".text$mn\0\0\0\0"); // 8 + zero, padded to 12
    payload.extend_from_slice(&0x2000u32.to_le_bytes());
    payload.extend_from_slice(&0x40u32.to_le_bytes());
    payload.extend_from_slice(b".rdata\0\0"); // 6 + zero, padded to 8
    payload.extend_from_slice(&0x3000u32.to_le_bytes());
    payload.extend_from_slice(&0x8u32.to_le_bytes());
    payload.extend_from_slice(b"abc\0"); // 3 + zero: one dword
    payload
}

#[test]
fn pogo_items() {
    let mut data = vec![0u8; 0x800];
    let payload = pogo_payload();
    put_bytes(&mut data, 0x700, &payload);
    let image = image_with(data, DataDirectoryEntry { rva: 0x3000, size: 28 });
    let pgo = match entry(13, payload.len() as u32, 0x700).parse(&image) {
        Ok(DebugEntryEnum::Pogo(pgo)) => pgo,
        _ => panic!("not a POGO payload"),
    };
    assert_eq!(pgo.image().len(), payload.len() / 4);
    assert_eq!(pgo.image()[0], u32::from_le_bytes(*b"LTCG"));
    let mut iter = pgo.iter();
    let mut items = Vec::new();
    while let Some(item) = iter.next() {
        items.push((item.rva, item.size, String::from_utf8(item.name).unwrap()));
    }
    assert_eq!(
        items,
        vec![
            (0x1000, 0x200, ".text$mn".to_string()),
            (0x2000, 0x40, ".rdata".to_string()),
            (0x3000, 0x8, "abc".to_string()),
        ]
    );
    assert!(iter.next().is_none());
}

#[test]
fn pogo_name_of_four_bytes_takes_two_dwords() {
    let mut payload = vec![0u8; 4];
    payload.extend_from_slice(&1u32.to_le_bytes());
    payload.extend_from_slice(&2u32.to_le_bytes());
    payload.extend_from_slice(b"four\0\0\0\0");
    payload.extend_from_slice(&3u32.to_le_bytes());
    payload.extend_from_slice(&4u32.to_le_bytes());
    payload.extend_from_slice(b"\0\0\0\0");
    let pgo = Pgo { image: read_dwords(&payload) };
    let mut iter = pgo.iter();
    let first = iter.next().unwrap();
    assert_eq!((first.rva, first.size, first.name.as_slice()), (1, 2, &b"four"[..]));
    let second = iter.next().unwrap();
    assert_eq!((second.rva, second.size, second.name.as_slice()), (3, 4, &b""[..]));
    assert!(iter.next().is_none());
}

#[test]
fn pogo_stops_at_a_name_without_end() {
    let mut payload = vec![0u8; 4];
    payload.extend_from_slice(&1u32.to_le_bytes());
    payload.extend_from_slice(&2u32.to_le_bytes());
    payload.extend_from_slice(b"unterminated");
    let pgo = Pgo { image: read_dwords(&payload) };
    assert!(pgo.iter().next().is_none());
    // fewer than three dwords are no item
    let pgo = Pgo { image: vec![0, 1, 2] };
    assert!(pgo.iter().next().is_none());
    let pgo = Pgo { image: vec![] };
    assert!(pgo.iter().next().is_none());
}

#[test]
fn pogo_payload_must_be_whole_dwords() {
    let mut data = vec![0u8; 0x800];
    let payload = pogo_payload();
    put_bytes(&mut data, 0x700, &payload);
    let image = image_with(data, DataDirectoryEntry { rva: 0x3000, size: 28 });
    assert!(matches!(
        entry(13, payload.len() as u32 - 1, 0x700).parse(&image),
        Err(ReadError::InvalidType)
    ));
    assert!(matches!(entry(13, 0x200, 0x700).parse(&image), Err(ReadError::InvalidType)));
}

#[test]
fn dwords_and_bytes() {
    assert_eq!(read_dwords(&[1, 2, 3, 4, 5, 6, 7, 8, 9]), vec![0x0403_0201, 0x0807_0605]);
    assert_eq!(read_dwords(&[1, 2, 3]), Vec::<u32>::new());
    assert_eq!(dword_bytes(&[0x0403_0201, 0xffee_ddcc]), vec![1, 2, 3, 4, 0xcc, 0xdd, 0xee, 0xff]);
}

fn read_as<T: ReadFrom>(entry: &DebugEntry, image: &Image) -> Result<T, ReadError> {
    T::read_debug_from(entry, image)
}

#[test]
fn payloads_are_read_through_their_format() {
    let mut data = vec![0u8; 0x800];
    let payload = rsds_payload();
    put_bytes(&mut data, 0x700, &payload);
    let image = image_with(data, DataDirectoryEntry { rva: 0x3000, size: 28 });
    let cv: CodeView = read_as(&entry(2, payload.len() as u32, 0x700), &image).unwrap();
    assert_eq!(cv.pdb_file_name(), "app.pdb");
    assert!(read_as::<Pgo>(&entry(2, payload.len() as u32, 0x700), &image).is_err());
    let pgo: Pgo = read_as(&entry(13, 8, 0x700), &image).unwrap();
    assert_eq!(pgo.image, vec![u32::from_le_bytes(*b"RSDS"), 0x0403_0201]);
}
