use rpecli::error::PeError;
use rpecli::image::{Arch, DataDirectoryEntry, Image, SectionHeader, VA};
use rpecli::tls::{callback_section, handle_callbacks, TLSCallbacks};

fn put_u32(data: &mut Vec<u8>, at: usize, value: u32) {
    data[at..at + 4].copy_from_slice(&value.to_le_bytes());
}

fn put_u64(data: &mut Vec<u8>, at: usize, value: u64) {
    data[at..at + 8].copy_from_slice(&value.to_le_bytes());
}

/// One section that maps RVA 0x5000.. to file 0x400..; TLS is slot nine.
fn image_with(data: Vec<u8>, arch: Arch, image_base: u64, tls: DataDirectoryEntry) -> Image {
    let size = (data.len() - 0x400) as u32;
    let mut directories = vec![DataDirectoryEntry { rva: 0, size: 0 }; 9];
    directories.push(tls);
    Image {
        data,
        arch,
        nt_offset: 0x80,
        entry_point: 0,
        image_base,
        subsystem: 3,
        timestamp: 0,
        characteristics: 0,
        directories,
        sections: vec![SectionHeader {
            name: *b".tls\0\0\0\0",
            virtual_address: 0x5000,
            virtual_size: size,
            file_offset: 0x400,
            file_size: size,
            characteristics: 0xc000_0040,
        }],
    }
}

const BASE64: u64 = 0x1_4000_0000;

fn image_64() -> Image {
    let mut data = vec![0u8; 0x800];
    // directory at RVA 0x5000; callbacks at VA base + 0x5100 (file 0x500)
    put_u64(&mut data, 0x400 + 24, BASE64 + 0x5100);
    put_u64(&mut data, 0x500, BASE64 + 0x1000);
    put_u64(&mut data, 0x508, BASE64 + 0x2000);
    put_u64(&mut data, 0x518, BASE64 + 0x3000); // behind the closing zero
    image_with(data, Arch::X64, BASE64, DataDirectoryEntry { rva: 0x5000, size: 40 })
}

#[test]
fn callbacks_of_a_64_bit_image() {
    let tls = TLSCallbacks::parse(&image_64()).unwrap().unwrap();
    assert_eq!(tls.callbacks, vec![BASE64 + 0x1000, BASE64 + 0x2000]);
}

#[test]
fn callbacks_of_a_32_bit_image_are_widened() {
    let mut data = vec![0u8; 0x800];
    put_u32(&mut data, 0x400 + 12, 0x40_5100);
    put_u32(&mut data, 0x500, 0x40_1000);
    put_u32(&mut data, 0x504, 0xffff_fff0);
    put_u32(&mut data, 0x508, 0x40_3000);
    let image =
        image_with(data, Arch::X86, 0x40_0000, DataDirectoryEntry { rva: 0x5000, size: 24 });
    let tls = TLSCallbacks::parse(&image).unwrap().unwrap();
    assert_eq!(tls.callbacks, vec![0x40_1000, 0xffff_fff0, 0x40_3000]);
}

#[test]
fn no_tls_directory() {
    let mut image = image_64();
    assert!(TLSCallbacks::check_exists(&image));
    image.directories[9].rva = 0;
    assert!(!TLSCallbacks::check_exists(&image));
    assert!(TLSCallbacks::parse(&image).unwrap().is_none());
    image.directories.truncate(9);
    assert!(!TLSCallbacks::check_exists(&image));
    assert!(TLSCallbacks::parse(&image).unwrap().is_none());
}

#[test]
fn a_directory_without_callbacks_is_empty_not_absent() {
    let mut image = image_64();
    put_u64(&mut image.data, 0x400 + 24, 0);
    let tls = TLSCallbacks::parse(&image).unwrap().unwrap();
    assert!(tls.callbacks.is_empty());
    // an array that starts with its closing zero
    let mut image = image_64();
    put_u64(&mut image.data, 0x500, 0);
    let tls = TLSCallbacks::parse(&image).unwrap().unwrap();
    assert!(tls.callbacks.is_empty());
}

#[test]
fn an_unclosed_array_ends_with_the_file() {
    let mut image = image_64();
    put_u64(&mut image.data, 0x400 + 24, BASE64 + 0x53f0);
    put_u64(&mut image.data, 0x7f0, 0x1111);
    put_u64(&mut image.data, 0x7f8, 0x2222);
    let tls = TLSCallbacks::parse(&image).unwrap().unwrap();
    assert_eq!(tls.callbacks, vec![0x1111, 0x2222]);
}

#[test]
fn a_directory_past_the_file_is_out_of_bounds() {
    let image = image_with(
        vec![0u8; 0x800],
        Arch::X64,
        BASE64,
        DataDirectoryEntry { rva: 0x53e0, size: 40 },
    );
    assert_eq!(TLSCallbacks::parse(&image).err(), Some(PeError::OutOfBounds));
    let image = image_with(
        vec![0u8; 0x800],
        Arch::X64,
        BASE64,
        DataDirectoryEntry { rva: 0x9000, size: 40 },
    );
    assert_eq!(TLSCallbacks::parse(&image).err(), Some(PeError::NoContainingSection));
}

#[test]
fn callbacks_below_the_image_base_are_out_of_bounds() {
    let mut image = image_64();
    put_u64(&mut image.data, 0x400 + 24, 0x5100);
    assert_eq!(TLSCallbacks::parse(&image).err(), Some(PeError::OutOfBounds));
    let mut image = image_64();
    put_u64(&mut image.data, 0x400 + 24, BASE64 + 0x1_0000_0000);
    assert_eq!(TLSCallbacks::parse(&image).err(), Some(PeError::OutOfBounds));
}

#[test]
fn callbacks_outside_every_section() {
    let mut image = image_64();
    put_u64(&mut image.data, 0x400 + 24, BASE64 + 0x100);
    assert_eq!(TLSCallbacks::parse(&image).err(), Some(PeError::NoContainingSection));
}

#[test]
fn widening() {
    let widened = handle_callbacks(&vec![VA::VA32(0xffff_ffff), VA::VA64(u64::MAX), VA::VA32(0)]);
    assert_eq!(widened, vec![0xffff_ffff, u64::MAX, 0]);
    assert!(handle_callbacks(&vec![]).is_empty());
    assert_eq!(VA::VA32(5).as_u64(), 5);
}

#[test]
fn the_section_of_a_callback() {
    let image = image_64();
    assert_eq!(callback_section(&image, BASE64 + 0x5100).as_deref(), Some(".tls"));
    assert_eq!(callback_section(&image, BASE64 + 0x1000), None);
    assert_eq!(callback_section(&image, 0x5100), None);
    assert_eq!(callback_section(&image, u64::MAX), None);
}
