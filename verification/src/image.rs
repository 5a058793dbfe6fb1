//! The image: the bytes of a PE file and the facts read from its headers.
//!
//! Three kinds of address meet here. A file offset counts bytes from the
//! start of the buffer. An RVA counts bytes from the place where the loader
//! puts the image. A VA is an RVA plus the image base. The section table
//! says which RVAs are backed by which file offsets.

use vstd::prelude::*;
use crate::bytes::{u16_at, u16_le, u32_at, u32_le, u64_at, u64_le};
use crate::error::{AddressError, PeError};

verus! {

/// `"MZ"`, the first two bytes of a DOS header.
pub const DOS_SIGNATURE: u16 = 0x5a4d;

/// `"PE\0\0"`, the first four bytes of the NT headers.
pub const NT_SIGNATURE: u32 = 0x0000_4550;

/// The optional header's magic for a 32-bit image.
pub const HDR32_MAGIC: u16 = 0x010b;

/// The optional header's magic for a 64-bit image.
pub const HDR64_MAGIC: u16 = 0x020b;

/// The offset of `e_lfanew` in the DOS header.
pub const E_LFANEW_OFFSET: usize = 0x3c;

/// The size of the NT signature and the file header in front of the optional header.
pub const OPTIONAL_HEADER_OFFSET: usize = 24;

/// The size of one entry of the section table.
pub const SECTION_HEADER_SIZE: usize = 40;

/// The most data directories that a header can describe.
pub const MAX_DIRECTORIES: u32 = 16;

/// The slots of the data directory array.
pub const DIRECTORY_EXPORT: usize = 0;

pub const DIRECTORY_IMPORT: usize = 1;

pub const DIRECTORY_RESOURCE: usize = 2;

pub const DIRECTORY_SECURITY: usize = 4;

pub const DIRECTORY_DEBUG: usize = 6;

pub const DIRECTORY_TLS: usize = 9;

/// The width of the image's addresses.
#[derive(Copy, Clone, Debug, PartialEq, Eq, Structural)]
pub enum Arch {
    X86,
    X64,
}

/// A virtual address, as wide as the image's architecture.
#[derive(Copy, Clone, Debug, PartialEq, Eq, Structural)]
pub enum VA {
    VA32(u32),
    VA64(u64),
}

impl VA {
    /// The address as a number.
    pub open spec fn value(self) -> int {
        match self {
            VA::VA32(v) => v as int,
            VA::VA64(v) => v as int,
        }
    }

    /// The address widened to 64 bits.
    pub fn as_u64(&self) -> (r: u64)
        ensures
            r as int == self.value(),
    {
        match self {
            VA::VA32(v) => *v as u64,
            VA::VA64(v) => *v,
        }
    }
}

/// An address in one of the three address spaces.
#[derive(Copy, Clone, Debug, PartialEq, Eq, Structural)]
pub enum Address {
    /// Counted from the place where the loader puts the image.
    RVA(u32),
    /// An RVA plus the image base.
    VA(VA),
    /// Counted from the start of the file.
    FileOffset(usize),
}

/// One slot of the data directory array. An `rva` of zero means that the
/// image has no such directory.
#[derive(Copy, Clone, Debug, PartialEq, Eq, Structural)]
pub struct DataDirectoryEntry {
    pub rva: u32,
    pub size: u32,
}

/// One entry of the section table.
#[derive(Copy, Clone, Debug)]
pub struct SectionHeader {
    /// The name, padded with zeros to eight bytes.
    pub name: [u8; 8],
    pub virtual_address: u32,
    pub virtual_size: u32,
    /// Where the section's bytes start in the file.
    pub file_offset: u32,
    /// How many bytes the section has in the file.
    pub file_size: u32,
    pub characteristics: u32,
}

impl SectionHeader {
    /// How many addresses the section covers: the larger of its size in
    /// memory and its size in the file.
    pub open spec fn span(self) -> int {
        if self.virtual_size >= self.file_size {
            self.virtual_size as int
        } else {
            self.file_size as int
        }
    }

    /// Where the section's virtual range ends: behind its last address, or
    /// at the largest RVA where that would be past it. The sum saturates, it
    /// does not wrap.
    pub open spec fn end(self) -> int {
        if self.virtual_address + self.span() > u32::MAX {
            u32::MAX as int
        } else {
            self.virtual_address + self.span()
        }
    }

    /// Whether the section's virtual range holds `rva`.
    pub open spec fn contains(self, rva: u32) -> bool {
        self.virtual_address <= rva < self.end()
    }

    /// Computes [`SectionHeader::contains`].
    pub fn has_rva(&self, rva: u32) -> (r: bool)
        ensures
            r == self.contains(rva),
    {
        let span: u32 = if self.virtual_size >= self.file_size {
            self.virtual_size
        } else {
            self.file_size
        };
        let end: u32 = self.virtual_address.saturating_add(span);
        self.virtual_address <= rva && rva < end
    }
}

/// The index of the first section that holds `rva`, among the first `n`.
pub open spec fn containing_section(sections: Seq<SectionHeader>, rva: u32, n: int) -> Option<int>
    decreases n,
{
    if n <= 0 {
        None
    } else {
        match containing_section(sections, rva, n - 1) {
            Some(i) => Some(i),
            None => if sections[n - 1].contains(rva) {
                Some(n - 1)
            } else {
                None
            },
        }
    }
}

/// A PE image: its bytes, and what its headers say.
///
/// The fields are plain values and any combination of them is an image that
/// the decoders accept: what the headers claim is checked against the bytes
/// when it is used, not before.
#[derive(Clone, Debug)]
pub struct Image {
    /// The bytes of the file.
    pub data: Vec<u8>,
    pub arch: Arch,
    /// The file offset of the NT headers.
    pub nt_offset: u32,
    /// The RVA at which execution starts.
    pub entry_point: u32,
    /// The address at which the image wants to be loaded.
    pub image_base: u64,
    pub subsystem: u16,
    /// When the file was linked, in seconds since 1970.
    pub timestamp: u32,
    /// The file header's characteristics.
    pub characteristics: u16,
    /// The data directory array: at most sixteen slots.
    pub directories: Vec<DataDirectoryEntry>,
    pub sections: Vec<SectionHeader>,
}

impl Image {
    /// The file offset that `rva` maps to: the first section that holds it
    /// says by how much to shift it. The offset may equal the buffer's
    /// length, not exceed it.
    pub open spec fn translated(self, rva: u32) -> Result<usize, AddressError> {
        match containing_section(self.sections@, rva, self.sections@.len() as int) {
            None => Err(AddressError::NoContainingSection),
            Some(i) => {
                let s = self.sections@[i];
                let offset = rva - s.virtual_address + s.file_offset;
                if offset <= self.data@.len() {
                    Ok(offset as usize)
                } else {
                    Err(AddressError::OutOfBounds)
                }
            },
        }
    }

    /// Translates an RVA to a file offset.
    pub fn translate(&self, rva: u32) -> (r: Result<usize, AddressError>)
        ensures
            r == self.translated(rva),
            r matches Ok(offset) ==> offset <= self.data@.len(),
    {
        let n: usize = self.sections.len();
        let mut i: usize = 0;
        while i < n
            invariant
                n == self.sections@.len(),
                i <= n,
                containing_section(self.sections@, rva, i as int).is_none(),
            decreases n - i,
        {
            let s = &self.sections[i];
            if s.has_rva(rva) {
                assert(containing_section(self.sections@, rva, i + 1) == Some(i as int));
                proof {
                    lemma_containing_section_stable(self.sections@, rva, i + 1, n as int);
                }
                let offset: u64 = (rva - s.virtual_address) as u64 + s.file_offset as u64;
                if offset <= self.data.len() as u64 {
                    return Ok(offset as usize);
                } else {
                    return Err(AddressError::OutOfBounds);
                }
            }
            i += 1;
        }
        Err(AddressError::NoContainingSection)
    }

    /// The bytes of the buffer from `offset` on, at most `len` of them: as
    /// many as the buffer has there.
    pub open spec fn clamped(self, offset: usize, len: usize) -> Seq<u8> {
        if offset >= self.data@.len() {
            Seq::empty()
        } else if offset + len > self.data@.len() {
            self.data@.subrange(offset as int, self.data@.len() as int)
        } else {
            self.data@.subrange(offset as int, offset + len)
        }
    }

    /// Reads up to `len` bytes at `offset`, whatever the two are: the read is
    /// cut at the end of the buffer, and is empty if it starts past it.
    pub fn safe_read(&self, offset: usize, len: usize) -> (r: &[u8])
        ensures
            r@ == self.clamped(offset, len),
            r@.len() <= self.data@.len(),
            r@.len() <= len,
    {
        let total: usize = self.data.len();
        if offset >= total {
            return vstd::slice::slice_subrange(self.data.as_slice(), 0, 0);
        }
        let end: usize = if len > total - offset {
            total
        } else {
            offset + len
        };
        vstd::slice::slice_subrange(self.data.as_slice(), offset, end)
    }

    /// The virtual address of `rva`, or `None` where the sum with the image
    /// base does not fit the architecture's width.
    pub open spec fn va_of(self, rva: u32) -> Option<VA> {
        match self.arch {
            Arch::X86 => if self.image_base + rva <= u32::MAX {
                Some(VA::VA32((self.image_base + rva) as u32))
            } else {
                None
            },
            Arch::X64 => if self.image_base + rva <= u64::MAX {
                Some(VA::VA64((self.image_base + rva) as u64))
            } else {
                None
            },
        }
    }

    /// Converts an RVA to a virtual address.
    pub fn as_va(&self, rva: u32) -> (r: Result<VA, AddressError>)
        ensures
            match r {
                Ok(va) => self.va_of(rva) == Some(va),
                Err(e) => e == AddressError::Invalid && self.va_of(rva).is_none(),
            },
    {
        match self.image_base.checked_add(rva as u64) {
            None => Err(AddressError::Invalid),
            Some(sum) => match self.arch {
                Arch::X64 => Ok(VA::VA64(sum)),
                Arch::X86 => if sum <= u32::MAX as u64 {
                    Ok(VA::VA32(sum as u32))
                } else {
                    Err(AddressError::Invalid)
                },
            },
        }
    }

    /// The RVA of a virtual address, or `None` where the address is below
    /// the image base or more than 32 bits above it.
    pub open spec fn rva_of(self, va: VA) -> Option<u32> {
        if self.image_base <= va.value() <= self.image_base + u32::MAX {
            Some((va.value() - self.image_base) as u32)
        } else {
            None
        }
    }

    /// Converts a virtual address to an RVA.
    pub fn as_rva(&self, va: VA) -> (r: Result<u32, AddressError>)
        ensures
            match r {
                Ok(rva) => self.rva_of(va) == Some(rva),
                Err(e) => e == AddressError::Invalid && self.rva_of(va).is_none(),
            },
    {
        let value: u64 = va.as_u64();
        if value < self.image_base {
            return Err(AddressError::Invalid);
        }
        let delta: u64 = value - self.image_base;
        if delta <= u32::MAX as u64 {
            Ok(delta as u32)
        } else {
            Err(AddressError::Invalid)
        }
    }

    /// The file offset of an address in any of the three spaces: a file
    /// offset must not exceed the buffer's length, an RVA is translated, a
    /// VA is first made an RVA.
    pub open spec fn resolved(self, address: Address) -> Result<usize, AddressError> {
        match address {
            Address::FileOffset(offset) => if offset <= self.data@.len() {
                Ok(offset)
            } else {
                Err(AddressError::OutOfBounds)
            },
            Address::RVA(rva) => self.translated(rva),
            Address::VA(va) => match self.rva_of(va) {
                Some(rva) => self.translated(rva),
                None => Err(AddressError::Invalid),
            },
        }
    }

    /// Finds the file offset of an address.
    pub fn resolve(&self, address: Address) -> (r: Result<usize, AddressError>)
        ensures
            r == self.resolved(address),
            r matches Ok(offset) ==> offset <= self.data@.len(),
    {
        match address {
            Address::FileOffset(offset) => if offset <= self.data.len() {
                Ok(offset)
            } else {
                Err(AddressError::OutOfBounds)
            },
            Address::RVA(rva) => self.translate(rva),
            Address::VA(va) => match self.as_rva(va) {
                Ok(rva) => self.translate(rva),
                Err(e) => Err(e),
            },
        }
    }

    /// The directory in slot `slot`, if the header has that slot and its
    /// address is not zero.
    pub open spec fn directory(self, slot: usize) -> Option<DataDirectoryEntry> {
        if slot < self.directories@.len() && self.directories@[slot as int].rva != 0 {
            Some(self.directories@[slot as int])
        } else {
            None
        }
    }

    /// Looks up a data directory.
    pub fn data_directory(&self, slot: usize) -> (r: Option<DataDirectoryEntry>)
        ensures
            r == self.directory(slot),
    {
        if slot < self.directories.len() && self.directories[slot].rva != 0 {
            Some(self.directories[slot])
        } else {
            None
        }
    }
}

/// The size of the optional header up to the data directory array.
pub open spec fn optional_fixed_len(arch: Arch) -> int {
    match arch {
        Arch::X86 => 96,
        Arch::X64 => 112,
    }
}

/// The file offset of the NT headers, as the DOS header gives it.
pub open spec fn nt_offset_of(s: Seq<u8>) -> int {
    u32_at(s, E_LFANEW_OFFSET as int)
}

/// The architecture that the optional header's magic stands for.
pub open spec fn arch_of(s: Seq<u8>) -> Option<Arch> {
    let magic = u16_at(s, nt_offset_of(s) + OPTIONAL_HEADER_OFFSET);
    if magic == HDR32_MAGIC {
        Some(Arch::X86)
    } else if magic == HDR64_MAGIC {
        Some(Arch::X64)
    } else {
        None
    }
}

/// The file offset of the data directory array.
pub open spec fn directories_offset(s: Seq<u8>) -> int {
    nt_offset_of(s) + OPTIONAL_HEADER_OFFSET + optional_fixed_len(arch_of(s).unwrap())
}

/// How many data directories the header describes: the count it declares,
/// and no more than sixteen.
pub open spec fn directory_count(s: Seq<u8>) -> int {
    let declared = u32_at(s, directories_offset(s) - 4);
    if declared > MAX_DIRECTORIES {
        MAX_DIRECTORIES as int
    } else {
        declared
    }
}

/// The file offset of the section table: behind the optional header, whose
/// size the file header declares.
pub open spec fn sections_offset(s: Seq<u8>) -> int {
    nt_offset_of(s) + OPTIONAL_HEADER_OFFSET + u16_at(s, nt_offset_of(s) + 20)
}

/// How many sections the file header declares.
pub open spec fn section_count(s: Seq<u8>) -> int {
    u16_at(s, nt_offset_of(s) + 6)
}

/// The data directory slot stored at `off`.
pub open spec fn directory_at(s: Seq<u8>, off: int) -> DataDirectoryEntry {
    DataDirectoryEntry { rva: u32_at(s, off) as u32, size: u32_at(s, off + 4) as u32 }
}

/// The section table entry stored at `off`.
pub open spec fn section_at(s: Seq<u8>, off: int) -> SectionHeader {
    SectionHeader {
        name: [
            s[off],
            s[off + 1],
            s[off + 2],
            s[off + 3],
            s[off + 4],
            s[off + 5],
            s[off + 6],
            s[off + 7],
        ],
        virtual_size: u32_at(s, off + 8) as u32,
        virtual_address: u32_at(s, off + 12) as u32,
        file_size: u32_at(s, off + 16) as u32,
        file_offset: u32_at(s, off + 20) as u32,
        characteristics: u32_at(s, off + 36) as u32,
    }
}

/// Why the headers of a file cannot be read, if they cannot.
///
/// The file must hold a DOS header that starts with `"MZ"`; at the offset it
/// names, the NT signature, the file header and an optional header with a
/// known magic; then the data directory array and the section table, each as
/// long as the headers declare.
pub open spec fn header_error(s: Seq<u8>) -> Option<PeError> {
    if s.len() < 0x40 {
        Some(PeError::OutOfBounds)
    } else if u16_at(s, 0) != DOS_SIGNATURE {
        Some(PeError::BadMagic)
    } else if nt_offset_of(s) + OPTIONAL_HEADER_OFFSET + 2 > s.len() {
        Some(PeError::OutOfBounds)
    } else if u32_at(s, nt_offset_of(s)) != NT_SIGNATURE {
        Some(PeError::BadMagic)
    } else if arch_of(s).is_none() {
        Some(PeError::BadMagic)
    } else if directories_offset(s) > s.len() {
        Some(PeError::OutOfBounds)
    } else if directories_offset(s) + 8 * directory_count(s) > s.len() {
        Some(PeError::OutOfBounds)
    } else if sections_offset(s) + SECTION_HEADER_SIZE * section_count(s) > s.len() {
        Some(PeError::OutOfBounds)
    } else {
        None
    }
}

/// The image base: 32 bits wide in a 32-bit optional header, 64 in a 64-bit one.
pub open spec fn image_base_of(s: Seq<u8>) -> int {
    let opt = nt_offset_of(s) + OPTIONAL_HEADER_OFFSET;
    match arch_of(s).unwrap() {
        Arch::X86 => u32_at(s, opt + 28),
        Arch::X64 => u64_at(s, opt + 24),
    }
}

impl Image {
    /// Whether this image is what the headers in `s` describe.
    pub open spec fn describes(self, s: Seq<u8>) -> bool {
        let nt = nt_offset_of(s);
        let opt = nt + OPTIONAL_HEADER_OFFSET;
        &&& self.data@ == s
        &&& Some(self.arch) == arch_of(s)
        &&& self.nt_offset == nt
        &&& self.entry_point == u32_at(s, opt + 16)
        &&& self.image_base == image_base_of(s)
        &&& self.subsystem == u16_at(s, opt + 68)
        &&& self.timestamp == u32_at(s, nt + 8)
        &&& self.characteristics == u16_at(s, nt + 22)
        &&& self.directories@.len() == directory_count(s)
        &&& forall|i: int|
            0 <= i < directory_count(s) ==> #[trigger] self.directories@[i] == directory_at(
                s,
                directories_offset(s) + 8 * i,
            )
        &&& self.sections@.len() == section_count(s)
        &&& forall|i: int|
            0 <= i < section_count(s) ==> #[trigger] self.sections@[i] == section_at(
                s,
                sections_offset(s) + SECTION_HEADER_SIZE * i,
            )
    }

    /// Reads the headers of a file.
    pub fn parse(data: Vec<u8>) -> (r: Result<Image, PeError>)
        ensures
            match r {
                Ok(image) => header_error(data@).is_none() && image.describes(data@),
                Err(e) => header_error(data@) == Some(e),
            },
    {
        let bytes = data.as_slice();
        let len: usize = bytes.len();
        if len < 0x40 {
            return Err(PeError::OutOfBounds);
        }
        if u16_le(bytes, 0) != DOS_SIGNATURE {
            return Err(PeError::BadMagic);
        }
        let nt_offset: u32 = u32_le(bytes, E_LFANEW_OFFSET);
        if nt_offset as u64 + 26 > len as u64 {
            return Err(PeError::OutOfBounds);
        }
        let nt: usize = nt_offset as usize;
        if u32_le(bytes, nt) != NT_SIGNATURE {
            return Err(PeError::BadMagic);
        }
        let opt: usize = nt + OPTIONAL_HEADER_OFFSET;
        let magic: u16 = u16_le(bytes, opt);
        let arch = if magic == HDR32_MAGIC {
            Arch::X86
        } else if magic == HDR64_MAGIC {
            Arch::X64
        } else {
            return Err(PeError::BadMagic);
        };
        let fixed: usize = match arch {
            Arch::X86 => 96,
            Arch::X64 => 112,
        };
        if fixed > len - opt {
            return Err(PeError::OutOfBounds);
        }
        let directories_at: usize = opt + fixed;
        let declared: u32 = u32_le(bytes, directories_at - 4);
        let directory_count: usize = if declared > MAX_DIRECTORIES {
            MAX_DIRECTORIES as usize
        } else {
            declared as usize
        };
        if 8 * directory_count > len - directories_at {
            return Err(PeError::OutOfBounds);
        }
        let section_count: usize = u16_le(bytes, nt + 6) as usize;
        let optional_size: usize = u16_le(bytes, nt + 20) as usize;
        if optional_size as u64 + SECTION_HEADER_SIZE as u64 * section_count as u64 > (len
            - opt) as u64 {
            return Err(PeError::OutOfBounds);
        }
        let sections_at: usize = opt + optional_size;
        let image_base: u64 = match arch {
            Arch::X86 => u32_le(bytes, opt + 28) as u64,
            Arch::X64 => u64_le(bytes, opt + 24),
        };
        let entry_point: u32 = u32_le(bytes, opt + 16);
        let subsystem: u16 = u16_le(bytes, opt + 68);
        let timestamp: u32 = u32_le(bytes, nt + 8);
        let characteristics: u16 = u16_le(bytes, nt + 22);

        let mut directories: Vec<DataDirectoryEntry> = Vec::new();
        let mut i: usize = 0;
        while i < directory_count
            invariant
                bytes@ == data@,
                len == data@.len(),
                i <= directory_count <= 16,
                directories_at + 8 * directory_count <= len,
                directories@.len() == i,
                forall|k: int|
                    0 <= k < i ==> #[trigger] directories@[k] == directory_at(
                        data@,
                        directories_at + 8 * k,
                    ),
            decreases directory_count - i,
        {
            let off: usize = directories_at + 8 * i;
            directories.push(
                DataDirectoryEntry { rva: u32_le(bytes, off), size: u32_le(bytes, off + 4) },
            );
            i += 1;
        }

        let mut sections: Vec<SectionHeader> = Vec::new();
        let mut i: usize = 0;
        while i < section_count
            invariant
                bytes@ == data@,
                len == data@.len(),
                i <= section_count <= u16::MAX,
                sections_at + SECTION_HEADER_SIZE * section_count <= len,
                sections@.len() == i,
                forall|k: int|
                    0 <= k < i ==> #[trigger] sections@[k] == section_at(
                        data@,
                        sections_at + SECTION_HEADER_SIZE * k,
                    ),
            decreases section_count - i,
        {
            let off: usize = sections_at + SECTION_HEADER_SIZE * i;
            let section = SectionHeader {
                name: [
                    bytes[off],
                    bytes[off + 1],
                    bytes[off + 2],
                    bytes[off + 3],
                    bytes[off + 4],
                    bytes[off + 5],
                    bytes[off + 6],
                    bytes[off + 7],
                ],
                virtual_size: u32_le(bytes, off + 8),
                virtual_address: u32_le(bytes, off + 12),
                file_size: u32_le(bytes, off + 16),
                file_offset: u32_le(bytes, off + 20),
                characteristics: u32_le(bytes, off + 36),
            };
            assert(section.name@ =~= section_at(data@, off as int).name@);
            assert(section == section_at(data@, off as int));
            sections.push(section);
            i += 1;
        }
        Ok(
            Image {
                data,
                arch,
                nt_offset,
                entry_point,
                image_base,
                subsystem,
                timestamp,
                characteristics,
                directories,
                sections,
            },
        )
    }
}

/// Once a section is found among the first `n`, it is the one found among
/// any more.
pub proof fn lemma_containing_section_stable(
    sections: Seq<SectionHeader>,
    rva: u32,
    n: int,
    m: int,
)
    requires
        0 <= n <= m,
        containing_section(sections, rva, n).is_some(),
    ensures
        containing_section(sections, rva, m) == containing_section(sections, rva, n),
    decreases m - n,
{
    if n < m {
        lemma_containing_section_stable(sections, rva, n, m - 1);
    }
}

/// What `containing_section` finds: the least index whose section holds the
/// address, or nothing where none of the first `n` does.
pub proof fn lemma_containing_section(sections: Seq<SectionHeader>, rva: u32, n: int)
    requires
        0 <= n <= sections.len(),
    ensures
        match containing_section(sections, rva, n) {
            Some(i) => 0 <= i < n && sections[i].contains(rva) && forall|j: int|
                0 <= j < i ==> !sections[j].contains(rva),
            None => forall|j: int| 0 <= j < n ==> !sections[j].contains(rva),
        },
    decreases n,
{
    if n > 0 {
        lemma_containing_section(sections, rva, n - 1);
    }
}

/// Translation is total and fails on every address that no section covers,
/// whatever the address and whatever the section table claims.
pub proof fn lemma_translate_uncovered(image: Image, rva: u32)
    requires
        forall|j: int| 0 <= j < image.sections@.len() ==> !image.sections@[j].contains(rva),
    ensures
        image.translated(rva) == Err::<usize, AddressError>(AddressError::NoContainingSection),
{
    lemma_containing_section(image.sections@, rva, image.sections@.len() as int);
}

/// Whether section `i` of the image covers `rva` and maps it to `offset`.
pub open spec fn maps_through(image: Image, i: int, rva: u32, offset: usize) -> bool {
    &&& 0 <= i < image.sections@.len()
    &&& image.sections@[i].contains(rva)
    &&& offset == rva - image.sections@[i].virtual_address + image.sections@[i].file_offset
}

/// Virtual addresses and RVAs are inverse to each other: the RVA of the
/// virtual address of an RVA is that RVA.
pub proof fn lemma_va_round_trip(image: Image, rva: u32)
    ensures
        image.va_of(rva) matches Some(va) ==> image.rva_of(va) == Some(rva),
{
}

/// The largest RVA lies in no section, whatever the section table claims:
/// its translation fails.
pub proof fn lemma_translate_largest(image: Image)
    ensures
        image.translated(u32::MAX) == Err::<usize, AddressError>(
            AddressError::NoContainingSection,
        ),
{
    lemma_translate_uncovered(image, u32::MAX);
}

/// A successful translation lands inside the buffer or at its end, through a
/// section that covers the address.
pub proof fn lemma_translate_covered(image: Image, rva: u32)
    ensures
        image.translated(rva) matches Ok(offset) ==> offset <= image.data@.len() && exists|
            i: int,
        | #[trigger]
            maps_through(image, i, rva, offset),
{
    lemma_containing_section(image.sections@, rva, image.sections@.len() as int);
    if let Ok(offset) = image.translated(rva) {
        assert(image.data.len() == image.data@.len());
        let i = containing_section(image.sections@, rva, image.sections@.len() as int).unwrap();
        assert(maps_through(image, i, rva, offset));
    }
}

} // verus!
