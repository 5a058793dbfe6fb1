use rpecli::error::PeError;
use rpecli::image::{Arch, DataDirectoryEntry, Image, SectionHeader};
use rpecli::import::{pimp, Import, Imports};

fn put_u32(data: &mut Vec<u8>, at: usize, value: u32) {
    data[at..at + 4].copy_from_slice(&value.to_le_bytes());
}

fn put_u64(data: &mut Vec<u8>, at: usize, value: u64) {
    data[at..at + 8].copy_from_slice(&value.to_le_bytes());
}

fn put_bytes(data: &mut Vec<u8>, at: usize, bytes: &[u8]) {
    data[at..at + bytes.len()].copy_from_slice(bytes);
}

/// One section that maps RVA 0x1000.. to file offset 0x200..
fn image_with(data: Vec<u8>, arch: Arch, import: DataDirectoryEntry) -> Image {
    let size = (data.len() - 0x200) as u32;
    Image {
        data,
        arch,
        nt_offset: 0x80,
        entry_point: 0x1000,
        image_base: 0x40_0000,
        subsystem: 3,
        timestamp: 0,
        characteristics: 0,
        directories: vec![DataDirectoryEntry { rva: 0, size: 0 }, import],
        sections: vec![SectionHeader {
            name: *b".idata\0\0",
            virtual_address: 0x1000,
            virtual_size: size,
            file_offset: 0x200,
            file_size: size,
            characteristics: 0x4000_0040,
        }],
    }
}

fn kernel32_image_64() -> Image {
    let mut data = vec![0u8; 0x400];
    // descriptor at RVA 0x1000 (file 0x200); the closing one follows
    put_u32(&mut data, 0x200, 0x1040); // lookup table
    put_u32(&mut data, 0x200 + 12, 0x1080); // name
    put_u32(&mut data, 0x200 + 16, 0x10c0); // address table
    // lookup table at RVA 0x1040 (file 0x240)
    put_u64(&mut data, 0x240, 0x1100); // by name
    put_u64(&mut data, 0x248, 0x8000_0000_0000_0007); // by ordinal
    put_bytes(&mut data, 0x280, b"KERNEL32.DLL\0");
    // hint/name at RVA 0x1100 (file 0x300)
    put_bytes(&mut data, 0x300, &[0x34, 0x12]);
    put_bytes(&mut data, 0x302, b"CreateFileW\0");
    image_with(data, Arch::X64, DataDirectoryEntry { rva: 0x1000, size: 40 })
}

#[test]
fn one_module_by_name_and_by_ordinal() {
    let imports = Imports::parse(&kernel32_image_64()).unwrap();
    assert_eq!(imports.modules.len(), 1);
    let module = &imports.modules[0];
    assert_eq!(module.name, "kernel32.dll");
    assert_eq!(module.imports.len(), 2);
    assert_eq!(module.imports[0].name, "CreateFileW");
    assert!(!module.imports[0].import_by_ordinal);
    assert_eq!(module.imports[1].name, "7");
    assert!(module.imports[1].import_by_ordinal);
}

#[test]
fn thunks_of_a_32_bit_image_are_four_bytes_wide() {
    let mut data = vec![0u8; 0x400];
    put_u32(&mut data, 0x200 + 12, 0x1080);
    put_u32(&mut data, 0x200 + 16, 0x1040); // only an address table
    put_u32(&mut data, 0x240, 0x8000_0010);
    put_u32(&mut data, 0x244, 0x1100);
    put_bytes(&mut data, 0x280, b"User32.dll\0");
    put_bytes(&mut data, 0x302, b"MessageBoxA\0");
    let image = image_with(data, Arch::X86, DataDirectoryEntry { rva: 0x1000, size: 40 });
    let imports = Imports::parse(&image).unwrap();
    assert_eq!(imports.modules.len(), 1);
    assert_eq!(imports.modules[0].name, "user32.dll");
    assert_eq!(imports.modules[0].imports[0].name, "16");
    assert!(imports.modules[0].imports[0].import_by_ordinal);
    assert_eq!(imports.modules[0].imports[1].name, "MessageBoxA");
}

#[test]
fn modules_come_in_descriptor_order() {
    let mut data = vec![0u8; 0x400];
    put_u32(&mut data, 0x200, 0x1040);
    put_u32(&mut data, 0x200 + 12, 0x1080);
    put_u32(&mut data, 0x214, 0x1040);
    put_u32(&mut data, 0x214 + 12, 0x1090);
    put_u64(&mut data, 0x240, 0x8000_0000_0000_0001);
    put_bytes(&mut data, 0x280, b"b.dll\0");
    put_bytes(&mut data, 0x290, b"A.DLL\0");
    let image = image_with(data, Arch::X64, DataDirectoryEntry { rva: 0x1000, size: 60 });
    let imports = Imports::parse(&image).unwrap();
    let names: Vec<&str> = imports.modules.iter().map(|m| m.name.as_str()).collect();
    assert_eq!(names, vec!["b.dll", "a.dll"]);
}

#[test]
fn no_import_directory_is_absent() {
    let image = image_with(vec![0u8; 0x400], Arch::X64, DataDirectoryEntry { rva: 0, size: 0 });
    assert_eq!(Imports::parse(&image), Err(PeError::DirectoryAbsent));
    assert!(pimp(&image).is_none());
}

#[test]
fn unreadable_module_name_fails_the_table() {
    let mut image = kernel32_image_64();
    put_u32(&mut image.data, 0x200 + 12, 0x9000_0000);
    assert_eq!(Imports::parse(&image), Err(PeError::BadDirectory));
}

#[test]
fn unterminated_thunk_table_fails_the_table() {
    let mut image = kernel32_image_64();
    // the lookup table now starts at the last eight bytes of the file
    put_u32(&mut image.data, 0x200, 0x11f8);
    put_u64(&mut image.data, 0x3f8, 0x8000_0000_0000_0001);
    assert_eq!(Imports::parse(&image), Err(PeError::BadDirectory));
}

#[test]
fn unclosed_descriptor_array_fails_the_table() {
    let mut data = vec![0u8; 0x400];
    // one descriptor in the last twenty bytes, nothing behind it
    put_u32(&mut data, 0x3ec, 0x1040);
    put_u32(&mut data, 0x3ec + 12, 0x1080);
    put_u64(&mut data, 0x240, 0x8000_0000_0000_0001);
    put_bytes(&mut data, 0x280, b"x.dll\0");
    let image = image_with(data, Arch::X64, DataDirectoryEntry { rva: 0x11ec, size: 20 });
    assert_eq!(Imports::parse(&image), Err(PeError::BadDirectory));
}

#[test]
fn import_directory_outside_every_section() {
    let image = image_with(
        vec![0u8; 0x400],
        Arch::X64,
        DataDirectoryEntry { rva: 0x8000, size: 40 },
    );
    assert_eq!(Imports::parse(&image), Err(PeError::BadDirectory));
}

#[test]
fn module_name_of_a_descriptor() {
    let image = kernel32_image_64();
    assert_eq!(Import::get_dll_imp_name(&image, 0x200).as_deref(), Some("kernel32.dll"));
    // the closing descriptor names nothing that translates
    assert_eq!(Import::get_dll_imp_name(&image, 0x214), None);
    assert_eq!(Import::get_dll_imp_name(&image, 0x3ed), None);
    assert_eq!(Import::get_dll_imp_name(&image, usize::MAX), None);
}
