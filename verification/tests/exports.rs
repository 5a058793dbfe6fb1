use rpecli::error::PeError;
use rpecli::export::{pexp, ExportLayout, Exports};
use rpecli::image::{Arch, DataDirectoryEntry, Image, SectionHeader};

fn put_u16(data: &mut Vec<u8>, at: usize, value: u16) {
    data[at..at + 2].copy_from_slice(&value.to_le_bytes());
}

fn put_u32(data: &mut Vec<u8>, at: usize, value: u32) {
    data[at..at + 4].copy_from_slice(&value.to_le_bytes());
}

fn put_bytes(data: &mut Vec<u8>, at: usize, bytes: &[u8]) {
    data[at..at + bytes.len()].copy_from_slice(bytes);
}

/// One section that maps RVA 0x2000.. to file offset 0x400..; the export
/// directory covers RVA 0x2000..0x2100.
fn image_with(data: Vec<u8>) -> Image {
    let size = (data.len() - 0x400) as u32;
    Image {
        data,
        arch: Arch::X86,
        nt_offset: 0x80,
        entry_point: 0x2200,
        image_base: 0x1000_0000,
        subsystem: 2,
        timestamp: 0,
        characteristics: 0x2000,
        directories: vec![DataDirectoryEntry { rva: 0x2000, size: 0x100 }],
        sections: vec![SectionHeader {
            name: *b".edata\0\0",
            virtual_address: 0x2000,
            virtual_size: size,
            file_offset: 0x400,
            file_size: size,
            characteristics: 0x4000_0040,
        }],
    }
}

/// The header at file 0x400; functions at RVA 0x2040, names at 0x2060,
/// name-ordinals at 0x2080, the file name at 0x20a0.
fn header(data: &mut Vec<u8>, base: u32, functions: u32, names: u32) {
    put_u32(data, 0x400, 0x1111);
    put_u32(data, 0x404, 0x5f00_0000);
    put_u16(data, 0x408, 2);
    put_u16(data, 0x40a, 5);
    put_u32(data, 0x40c, 0x20a0);
    put_u32(data, 0x410, base);
    put_u32(data, 0x414, functions);
    put_u32(data, 0x418, names);
    put_u32(data, 0x41c, 0x2040);
    put_u32(data, 0x420, 0x2060);
    put_u32(data, 0x424, 0x2080);
    put_bytes(data, 0x4a0, b"lib.dll\0");
}

fn foo_bar_image() -> Image {
    let mut data = vec![0u8; 0x800];
    header(&mut data, 1, 3, 2);
    put_u32(&mut data, 0x440, 0x2200);
    put_u32(&mut data, 0x444, 0x2210);
    put_u32(&mut data, 0x448, 0x2220);
    put_u32(&mut data, 0x460, 0x20c0);
    put_u32(&mut data, 0x464, 0x20c8);
    put_u16(&mut data, 0x480, 0);
    put_u16(&mut data, 0x482, 2);
    put_bytes(&mut data, 0x4c0, b"Foo\0");
    put_bytes(&mut data, 0x4c8, b"Bar\0");
    image_with(data)
}

#[test]
fn header_fields_are_carried_over() {
    let exports = Exports::parse(&foo_bar_image()).unwrap();
    assert_eq!(exports.characteristics, 0x1111);
    assert_eq!(exports.timestamp, 0x5f00_0000);
    assert_eq!(exports.major_version, 2);
    assert_eq!(exports.minor_version, 5);
    assert_eq!(exports.export_file_name, "lib.dll");
    assert_eq!(exports.base, 1);
    assert_eq!(exports.number_of_functions, 3);
    assert_eq!(exports.number_of_names, 2);
    assert_eq!(exports.address_of_functions, 0x2040);
    assert_eq!(exports.address_of_names, 0x2060);
    assert_eq!(exports.address_of_names_ordinals, 0x2080);
}

#[test]
fn names_follow_their_name_ordinals() {
    // base 1, three functions, names "Foo" and "Bar" for slots 0 and 2
    let exports = Exports::parse(&foo_bar_image()).unwrap();
    let ordinals: Vec<u16> = exports.entries.iter().map(|e| e.ordinal).collect();
    assert_eq!(ordinals, vec![1, 2, 3]);
    assert_eq!(exports.entries[0].name.as_deref(), Some("Foo"));
    assert_eq!(exports.entries[0].rva, Some(0x2200));
    assert_eq!(exports.entries[0].forwarded_name, None);
    assert_eq!(exports.entries[1].name, None);
    assert_eq!(exports.entries[1].rva, Some(0x2210));
    assert_eq!(exports.entries[2].name.as_deref(), Some("Bar"));
    assert_eq!(exports.entries[2].rva, Some(0x2220));
}

#[test]
fn without_name_tables_every_slot_is_an_ordinal() {
    let mut image = foo_bar_image();
    put_u32(&mut image.data, 0x418, 0); // no names
    let exports = Exports::parse(&image).unwrap();
    let ordinals: Vec<u16> = exports.entries.iter().map(|e| e.ordinal).collect();
    assert_eq!(ordinals, vec![1, 2, 3]);
    assert!(exports.entries.iter().all(|e| e.name.is_none()));
    let rvas: Vec<Option<u32>> = exports.entries.iter().map(|e| e.rva).collect();
    assert_eq!(rvas, vec![Some(0x2200), Some(0x2210), Some(0x2220)]);
}

#[test]
fn ordinals_are_unique_and_sorted() {
    let mut data = vec![0u8; 0x800];
    header(&mut data, 10, 4, 4);
    for i in 0..4 {
        put_u32(&mut data, 0x440 + 4 * i, 0x2200 + 0x10 * i as u32);
        put_u32(&mut data, 0x460 + 4 * i, 0x20c0 + 8 * i as u32);
    }
    // name-ordinals 3, 1, 3, 0: slot 3 is aliased
    put_u16(&mut data, 0x480, 3);
    put_u16(&mut data, 0x482, 1);
    put_u16(&mut data, 0x484, 3);
    put_u16(&mut data, 0x486, 0);
    put_bytes(&mut data, 0x4c0, b"first\0");
    put_bytes(&mut data, 0x4c8, b"second\0");
    put_bytes(&mut data, 0x4d0, b"third\0");
    put_bytes(&mut data, 0x4d8, b"fourth\0");
    let exports = Exports::parse(&image_with(data)).unwrap();
    let ordinals: Vec<u16> = exports.entries.iter().map(|e| e.ordinal).collect();
    assert_eq!(ordinals, vec![10, 11, 12, 13]);
    // the first index that reached slot 3 keeps it
    assert_eq!(exports.entries[3].name.as_deref(), Some("first"));
    assert_eq!(exports.entries[3].rva, Some(0x2230));
    assert_eq!(exports.entries[0].name.as_deref(), Some("fourth"));
    assert_eq!(exports.entries[1].name.as_deref(), Some("second"));
    // no name leads to slot 2: it is listed without one
    assert_eq!(exports.entries[2].name, None);
    assert_eq!(exports.entries[2].rva, Some(0x2220));
}

#[test]
fn more_slots_than_ordinals_keep_the_first_of_each() {
    let functions: u32 = 0x1_0002;
    let mut data = vec![0u8; 0x800 + 4 * functions as usize];
    header(&mut data, 0, functions, 0);
    // the function table lies behind everything else, at RVA 0x2400
    put_u32(&mut data, 0x41c, 0x2400);
    for slot in 0..functions {
        put_u32(&mut data, 0x800 + 4 * slot as usize, 0x10_0000 + slot);
    }
    let exports = Exports::parse(&image_with(data)).unwrap();
    assert_eq!(exports.entries.len(), 0x1_0000);
    for (k, entry) in exports.entries.iter().enumerate() {
        assert_eq!(entry.ordinal as usize, k);
        assert_eq!(entry.rva, Some(0x10_0000 + k as u32));
    }
}

#[test]
fn a_function_inside_the_directory_is_forwarded() {
    let mut image = foo_bar_image();
    put_u32(&mut image.data, 0x440, 0x20e0);
    put_bytes(&mut image.data, 0x4e0, b"NTDLL.RtlAllocateHeap\0");
    let exports = Exports::parse(&image).unwrap();
    let first = &exports.entries[0];
    assert_eq!(first.ordinal, 1);
    assert_eq!(first.forwarded_name.as_deref(), Some("NTDLL.RtlAllocateHeap"));
    assert_eq!(first.rva, None);
}

#[test]
fn a_slot_with_its_highest_bit_set_is_an_address() {
    let mut image = foo_bar_image();
    put_u32(&mut image.data, 0x440, 0x8000_0000);
    put_u32(&mut image.data, 0x444, 0xffff_ffff);
    let exports = Exports::parse(&image).unwrap();
    assert_eq!(exports.entries.len(), 3);
    assert_eq!(exports.entries[0].name.as_deref(), Some("Foo"));
    assert_eq!(exports.entries[0].rva, Some(0x8000_0000));
    assert_eq!(exports.entries[0].forwarded_name, None);
    assert_eq!(exports.entries[1].rva, Some(0xffff_ffff));
    assert_eq!(exports.entries[1].forwarded_name, None);
}

#[test]
fn every_entry_is_a_function_or_a_forwarder() {
    let mut image = foo_bar_image();
    put_u32(&mut image.data, 0x444, 0x20e0);
    put_bytes(&mut image.data, 0x4e0, b"NTDLL.RtlFreeHeap\0");
    put_u32(&mut image.data, 0x448, 0x9000_0000);
    let exports = Exports::parse(&image).unwrap();
    for entry in &exports.entries {
        assert!(entry.rva.is_some() != entry.forwarded_name.is_some());
    }
    assert_eq!(exports.entries[1].forwarded_name.as_deref(), Some("NTDLL.RtlFreeHeap"));
}

#[test]
fn unreadable_name_leaves_the_entry_without_one() {
    let mut image = foo_bar_image();
    put_u32(&mut image.data, 0x460, 0x7000_0000);
    let exports = Exports::parse(&image).unwrap();
    assert_eq!(exports.entries[0].ordinal, 1);
    assert_eq!(exports.entries[0].name, None);
    assert_eq!(exports.entries[0].rva, Some(0x2200));
    assert_eq!(exports.entries[2].ordinal, 3);
    assert_eq!(exports.entries[2].name.as_deref(), Some("Bar"));
}

#[test]
fn a_name_that_is_not_utf8_is_escaped() {
    let mut image = foo_bar_image();
    put_bytes(&mut image.data, 0x4c0, &[b'F', 0xff, b'\t', 0]);
    let exports = Exports::parse(&image).unwrap();
    assert_eq!(exports.entries[0].name.as_deref(), Some("F\\xff\\t"));
}

#[test]
fn a_name_that_leads_beyond_the_function_table_gives_no_entry() {
    let mut image = foo_bar_image();
    put_u16(&mut image.data, 0x480, 9);
    let exports = Exports::parse(&image).unwrap();
    // "Foo" now points at slot 9 of three: it is dropped, the slots stay
    let ordinals: Vec<u16> = exports.entries.iter().map(|e| e.ordinal).collect();
    assert_eq!(ordinals, vec![1, 2, 3]);
    assert_eq!(exports.entries[0].name, None);
    assert_eq!(exports.entries[0].rva, Some(0x2200));
    assert_eq!(exports.entries[1].name, None);
    assert_eq!(exports.entries[2].name.as_deref(), Some("Bar"));
    assert!(exports.entries.iter().all(|e| e.ordinal != 10));
}

#[test]
fn never_more_entries_than_functions() {
    // base 0, one function, one name whose name-ordinal is 5
    let mut data = vec![0u8; 0x800];
    header(&mut data, 0, 1, 1);
    put_u32(&mut data, 0x440, 0x2200);
    put_u32(&mut data, 0x460, 0x20c0);
    put_u16(&mut data, 0x480, 5);
    put_bytes(&mut data, 0x4c0, b"lost\0");
    let exports = Exports::parse(&image_with(data)).unwrap();
    assert_eq!(exports.entries.len(), 1);
    assert_eq!(exports.entries[0].ordinal, 0);
    assert_eq!(exports.entries[0].name, None);
    assert_eq!(exports.entries[0].rva, Some(0x2200));
    // no functions, no entries, whatever the names say
    let mut data = vec![0u8; 0x800];
    header(&mut data, 7, 0, 2);
    put_u32(&mut data, 0x460, 0x20c0);
    put_bytes(&mut data, 0x4c0, b"none\0");
    let exports = Exports::parse(&image_with(data)).unwrap();
    assert!(exports.entries.is_empty());
}

#[test]
fn ordinals_wrap_at_sixteen_bits() {
    let mut image = foo_bar_image();
    put_u32(&mut image.data, 0x410, 0xffff);
    put_u32(&mut image.data, 0x418, 0);
    let exports = Exports::parse(&image).unwrap();
    let ordinals: Vec<u16> = exports.entries.iter().map(|e| e.ordinal).collect();
    assert_eq!(ordinals, vec![0, 1, 0xffff]);
    assert_eq!(exports.entries[2].rva, Some(0x2200));
}

#[test]
fn function_table_past_the_file_fails() {
    let mut image = foo_bar_image();
    put_u32(&mut image.data, 0x414, 0x1000);
    assert_eq!(Exports::parse(&image), Err(PeError::OutOfBounds));
    assert!(pexp(&image).is_none());
}

#[test]
fn function_table_outside_every_section_fails() {
    let mut image = foo_bar_image();
    put_u32(&mut image.data, 0x41c, 0x9000);
    assert_eq!(Exports::parse(&image), Err(PeError::NoContainingSection));
}

#[test]
fn no_export_directory_is_absent() {
    let mut image = foo_bar_image();
    image.directories[0].rva = 0;
    assert_eq!(Exports::parse(&image), Err(PeError::DirectoryAbsent));
    image.directories.clear();
    assert_eq!(Exports::parse(&image), Err(PeError::DirectoryAbsent));
}

#[test]
fn layout_keeps_the_directory_range() {
    let layout = ExportLayout::read(&foo_bar_image()).unwrap();
    assert_eq!(layout.start, 0x2000);
    assert_eq!(layout.end, 0x2100);
    assert_eq!(layout.functions, 0x440);
    assert_eq!(layout.names, Some(0x460));
    assert_eq!(layout.name_ordinals, Some(0x480));
    let mut image = foo_bar_image();
    image.directories[0] = DataDirectoryEntry { rva: 0x2000, size: u32::MAX };
    assert_eq!(ExportLayout::read(&image).unwrap().end, u32::MAX);
}
