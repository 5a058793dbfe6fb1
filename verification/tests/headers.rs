use rpecli::error::PeError;
use rpecli::image::{Arch, DataDirectoryEntry, Image};

fn put_u16(data: &mut Vec<u8>, at: usize, value: u16) {
    data[at..at + 2].copy_from_slice(&value.to_le_bytes());
}

fn put_u32(data: &mut Vec<u8>, at: usize, value: u32) {
    data[at..at + 4].copy_from_slice(&value.to_le_bytes());
}

fn put_u64(data: &mut Vec<u8>, at: usize, value: u64) {
    data[at..at + 8].copy_from_slice(&value.to_le_bytes());
}

/// A file with its NT headers at 0x80, `directories` data directories and
/// two sections.
fn file(arch: Arch, directories: u32) -> Vec<u8> {
    let mut data = vec![0u8; 0x400];
    data[0] = b'M';
    data[1] = b'Z';
    put_u32(&mut data, 0x3c, 0x80);
    data[0x80..0x84].copy_from_slice(b"PE\0\0");
    put_u16(&mut data, 0x84, if arch == Arch::X86 { 0x14c } else { 0x8664 });
    put_u16(&mut data, 0x86, 2); // sections
    put_u32(&mut data, 0x88, 0x6543_2100); // timestamp
    let fixed: usize = if arch == Arch::X86 { 96 } else { 112 };
    let optional_size = fixed + 8 * directories as usize;
    put_u16(&mut data, 0x94, optional_size as u16);
    put_u16(&mut data, 0x96, 0x2102); // characteristics
    let opt = 0x98;
    put_u16(&mut data, opt, if arch == Arch::X86 { 0x10b } else { 0x20b });
    put_u32(&mut data, opt + 16, 0x1234); // entry point
    if arch == Arch::X86 {
        put_u32(&mut data, opt + 28, 0x40_0000);
    } else {
        put_u64(&mut data, opt + 24, 0x1_4000_0000);
    }
    put_u16(&mut data, opt + 68, 3); // subsystem
    put_u32(&mut data, opt + fixed - 4, directories);
    for i in 0..directories.min(16) as usize {
        put_u32(&mut data, opt + fixed + 8 * i, 0x1000 * (i as u32 + 1));
        put_u32(&mut data, opt + fixed + 8 * i + 4, 0x10 * (i as u32 + 1));
    }
    let sections = opt + optional_size;
    data[sections..sections + 8].copy_from_slice(b".text\0\0\0");
    put_u32(&mut data, sections + 8, 0x1800); // virtual size
    put_u32(&mut data, sections + 12, 0x1000); // virtual address
    put_u32(&mut data, sections + 16, 0x200); // size in the file
    put_u32(&mut data, sections + 20, 0x200); // offset in the file
    put_u32(&mut data, sections + 36, 0x6000_0020);
    data[sections + 40..sections + 48].copy_from_slice(b"longname");
    put_u32(&mut data, sections + 40 + 8, 0x10);
    put_u32(&mut data, sections + 40 + 12, 0x3000);
    put_u32(&mut data, sections + 40 + 16, 0);
    put_u32(&mut data, sections + 40 + 20, 0);
    put_u32(&mut data, sections + 40 + 36, 0xc000_0080);
    data
}

#[test]
fn headers_of_a_32_bit_file() {
    let data = file(Arch::X86, 16);
    let image = Image::parse(data.clone()).unwrap();
    assert_eq!(image.data, data);
    assert_eq!(image.arch, Arch::X86);
    assert_eq!(image.nt_offset, 0x80);
    assert_eq!(image.entry_point, 0x1234);
    assert_eq!(image.image_base, 0x40_0000);
    assert_eq!(image.subsystem, 3);
    assert_eq!(image.timestamp, 0x6543_2100);
    assert_eq!(image.characteristics, 0x2102);
    assert_eq!(image.directories.len(), 16);
    assert_eq!(image.directories[0], DataDirectoryEntry { rva: 0x1000, size: 0x10 });
    assert_eq!(image.directories[15], DataDirectoryEntry { rva: 0x10000, size: 0x100 });
    assert_eq!(image.sections.len(), 2);
    assert_eq!(&image.sections[0].name, b".text\0\0\0");
    assert_eq!(image.sections[0].virtual_address, 0x1000);
    assert_eq!(image.sections[0].virtual_size, 0x1800);
    assert_eq!(image.sections[0].file_offset, 0x200);
    assert_eq!(image.sections[0].file_size, 0x200);
    assert_eq!(image.sections[0].characteristics, 0x6000_0020);
    assert_eq!(&image.sections[1].name, b"longname");
    assert_eq!(image.sections[1].virtual_address, 0x3000);
    assert_eq!(image.sections[1].characteristics, 0xc000_0080);
}

#[test]
fn headers_of_a_64_bit_file() {
    let image = Image::parse(file(Arch::X64, 16)).unwrap();
    assert_eq!(image.arch, Arch::X64);
    assert_eq!(image.image_base, 0x1_4000_0000);
    assert_eq!(image.entry_point, 0x1234);
    assert_eq!(image.subsystem, 3);
    assert_eq!(image.directories.len(), 16);
    assert_eq!(image.directories[9], DataDirectoryEntry { rva: 0xa000, size: 0xa0 });
    assert_eq!(image.sections.len(), 2);
    assert_eq!(image.sections[0].virtual_address, 0x1000);
}

#[test]
fn the_headers_translate() {
    let image = Image::parse(file(Arch::X64, 16)).unwrap();
    assert_eq!(image.translate(0x1010), Ok(0x210));
    assert_eq!(image.data_directory(1), Some(DataDirectoryEntry { rva: 0x2000, size: 0x20 }));
}

#[test]
fn no_more_than_sixteen_directories() {
    let mut data = file(Arch::X86, 16);
    put_u32(&mut data, 0x98 + 92, 0xffff_ffff);
    let image = Image::parse(data).unwrap();
    assert_eq!(image.directories.len(), 16);
}

#[test]
fn fewer_directories_than_sixteen() {
    let image = Image::parse(file(Arch::X64, 3)).unwrap();
    assert_eq!(image.directories.len(), 3);
    assert_eq!(image.directories[2], DataDirectoryEntry { rva: 0x3000, size: 0x30 });
    assert_eq!(image.sections.len(), 2);
    assert_eq!(&image.sections[0].name, b".text\0\0\0");
    let image = Image::parse(file(Arch::X86, 0)).unwrap();
    assert!(image.directories.is_empty());
    assert_eq!(image.sections.len(), 2);
}

#[test]
fn a_file_without_mz_is_bad_magic() {
    let mut data = file(Arch::X86, 16);
    data[0] = b'Z';
    assert_eq!(Image::parse(data).err(), Some(PeError::BadMagic));
}

#[test]
fn a_file_without_pe_signature_is_bad_magic() {
    let mut data = file(Arch::X86, 16);
    data[0x82] = 1;
    assert_eq!(Image::parse(data).err(), Some(PeError::BadMagic));
}

#[test]
fn an_unknown_optional_header_is_bad_magic() {
    let mut data = file(Arch::X86, 16);
    put_u16(&mut data, 0x98, 0x107);
    assert_eq!(Image::parse(data).err(), Some(PeError::BadMagic));
}

#[test]
fn a_short_file_is_out_of_bounds() {
    assert_eq!(Image::parse(vec![]).err(), Some(PeError::OutOfBounds));
    assert_eq!(Image::parse(b"MZ".to_vec()).err(), Some(PeError::OutOfBounds));
    let data = file(Arch::X86, 16);
    assert_eq!(Image::parse(data[..0x3f].to_vec()).err(), Some(PeError::OutOfBounds));
    // cut inside the NT headers, the directories, the section table
    assert_eq!(Image::parse(data[..0x99].to_vec()).err(), Some(PeError::OutOfBounds));
    assert_eq!(Image::parse(data[..0x98 + 95].to_vec()).err(), Some(PeError::OutOfBounds));
    assert_eq!(Image::parse(data[..0x98 + 96 + 127].to_vec()).err(), Some(PeError::OutOfBounds));
    assert_eq!(Image::parse(data[..0x98 + 224 + 79].to_vec()).err(), Some(PeError::OutOfBounds));
    assert!(Image::parse(data[..0x98 + 224 + 80].to_vec()).is_ok());
}

#[test]
fn e_lfanew_past_the_file_is_out_of_bounds() {
    let mut data = file(Arch::X64, 16);
    put_u32(&mut data, 0x3c, 0x400);
    assert_eq!(Image::parse(data).err(), Some(PeError::OutOfBounds));
    let mut data = file(Arch::X64, 16);
    put_u32(&mut data, 0x3c, u32::MAX);
    assert_eq!(Image::parse(data).err(), Some(PeError::OutOfBounds));
}

#[test]
fn too_many_sections_are_out_of_bounds() {
    let mut data = file(Arch::X64, 16);
    put_u16(&mut data, 0x86, 0xffff);
    assert_eq!(Image::parse(data).err(), Some(PeError::OutOfBounds));
}
