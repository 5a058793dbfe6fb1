//! The debug directory: an array of entries, each pointing at a payload
//! whose format its type selects.

use vstd::prelude::*;
use crate::bytes::{u16_at, u16_le, u32_at, u32_le};
use crate::codeview::{codeview_of, CodeView, CodeViewFacts};
use crate::image::{Image, DIRECTORY_DEBUG};
use crate::pgo::{dwords_of, Pgo};

verus! {

/// The size of one entry of the debug directory.
pub const DEBUG_ENTRY_SIZE: usize = 28;

/// Why the payload of a debug entry could not be decoded.
#[derive(Copy, Clone, Debug, PartialEq, Eq, Structural)]
pub enum ReadError {
    /// The payload is not of the format that was asked for, or it cannot be
    /// read in full.
    InvalidType,
}

/// Why the debug directory could not be read.
#[derive(Copy, Clone, Debug, PartialEq, Eq, Structural)]
pub enum DebugDirectoryParseError {
    /// The image has no debug directory, or the directory does not lie in
    /// the file.
    MissingDirectory,
}

/// A payload format that can be read from a debug entry.
pub trait ReadFrom: Sized {
    /// Reads the payload of `debug_entry` in this format.
    fn read_debug_from(debug_entry: &DebugEntry, image: &Image) -> Result<Self, ReadError>;
}

impl ReadFrom for CodeView {
    fn read_debug_from(debug_entry: &DebugEntry, image: &Image) -> (r: Result<Self, ReadError>)
        ensures
            match r {
                Ok(cv) => debug_entry.codeview(*image) == Some(cv.facts()),
                Err(e) => e == ReadError::InvalidType && debug_entry.codeview(*image).is_none(),
            },
    {
        CodeView::read_debug_from(debug_entry, image)
    }
}

impl ReadFrom for Pgo {
    fn read_debug_from(debug_entry: &DebugEntry, image: &Image) -> (r: Result<Self, ReadError>)
        ensures
            match r {
                Ok(pgo) => debug_entry.pogo(*image) == Some(pgo.words()),
                Err(e) => e == ReadError::InvalidType && debug_entry.pogo(*image).is_none(),
            },
    {
        Pgo::read_debug_from(debug_entry, image)
    }
}

/// The payload of a debug entry.
pub enum DebugEntryEnum {
    /// A format that is not decoded.
    Unknown,
    Codeview(CodeView),
    Pogo(Pgo),
}

/// The formats of debug payloads.
#[derive(Copy, Clone, Debug, PartialEq, Eq, Structural)]
pub enum ImageDebugType {
    Unknown,
    Coff,
    Codeview,
    Fpo,
    Misc,
    Exception,
    Fixup,
    OmapToSrc,
    OmapFromSrc,
    Borland,
    Reserved10,
    Clsid,
    VcFeature,
    Pogo,
    Iltcg,
    Mpx,
    Repro,
    ExDllCharacteristics,
}

impl ImageDebugType {
    /// The format that a type field stands for.
    pub open spec fn of(u: u32) -> ImageDebugType {
        if u == 1 {
            ImageDebugType::Coff
        } else if u == 2 {
            ImageDebugType::Codeview
        } else if u == 3 {
            ImageDebugType::Fpo
        } else if u == 4 {
            ImageDebugType::Misc
        } else if u == 5 {
            ImageDebugType::Exception
        } else if u == 6 {
            ImageDebugType::Fixup
        } else if u == 7 {
            ImageDebugType::OmapToSrc
        } else if u == 8 {
            ImageDebugType::OmapFromSrc
        } else if u == 9 {
            ImageDebugType::Borland
        } else if u == 10 {
            ImageDebugType::Reserved10
        } else if u == 11 {
            ImageDebugType::Clsid
        } else if u == 12 {
            ImageDebugType::VcFeature
        } else if u == 13 {
            ImageDebugType::Pogo
        } else if u == 14 {
            ImageDebugType::Iltcg
        } else if u == 15 {
            ImageDebugType::Mpx
        } else if u == 16 {
            ImageDebugType::Repro
        } else if u == 20 {
            ImageDebugType::ExDllCharacteristics
        } else {
            ImageDebugType::Unknown
        }
    }

    /// Convert the `u32` value to an `ImageDebugType` enum variant.
    pub fn from_u32(u: u32) -> (r: ImageDebugType)
        ensures
            r == Self::of(u),
    {
        match u {
            1 => ImageDebugType::Coff,
            2 => ImageDebugType::Codeview,
            3 => ImageDebugType::Fpo,
            4 => ImageDebugType::Misc,
            5 => ImageDebugType::Exception,
            6 => ImageDebugType::Fixup,
            7 => ImageDebugType::OmapToSrc,
            8 => ImageDebugType::OmapFromSrc,
            9 => ImageDebugType::Borland,
            10 => ImageDebugType::Reserved10,
            11 => ImageDebugType::Clsid,
            12 => ImageDebugType::VcFeature,
            13 => ImageDebugType::Pogo,
            14 => ImageDebugType::Iltcg,
            15 => ImageDebugType::Mpx,
            16 => ImageDebugType::Repro,
            20 => ImageDebugType::ExDllCharacteristics,
            _ => ImageDebugType::Unknown,
        }
    }
}

/// One entry of the debug directory.
#[derive(Copy, Clone, Debug, PartialEq, Eq, Structural)]
pub struct DebugEntry {
    pub characteristics: u32,
    pub time_date_stamp: u32,
    pub major_version: u16,
    pub minor_version: u16,
    pub type_: u32,
    pub size_of_data: u32,
    /// The RVA of the payload.
    pub address_of_raw_data: u32,
    /// The file offset of the payload.
    pub pointer_to_raw_data: u32,
}

/// The debug entry stored at `off`.
pub open spec fn debug_entry_at(s: Seq<u8>, off: int) -> DebugEntry {
    DebugEntry {
        characteristics: u32_at(s, off) as u32,
        time_date_stamp: u32_at(s, off + 4) as u32,
        major_version: u16_at(s, off + 8) as u16,
        minor_version: u16_at(s, off + 10) as u16,
        type_: u32_at(s, off + 12) as u32,
        size_of_data: u32_at(s, off + 16) as u32,
        address_of_raw_data: u32_at(s, off + 20) as u32,
        pointer_to_raw_data: u32_at(s, off + 24) as u32,
    }
}

impl DebugEntry {
    /// The bytes of the payload: `size_of_data` bytes at the file offset
    /// `pointer_to_raw_data`, if the file holds them all.
    pub open spec fn payload(self, image: Image) -> Option<Seq<u8>> {
        if self.pointer_to_raw_data + self.size_of_data <= image.data@.len() {
            Some(
                image.data@.subrange(
                    self.pointer_to_raw_data as int,
                    self.pointer_to_raw_data + self.size_of_data,
                ),
            )
        } else {
            None
        }
    }

    /// Reads the payload.
    pub fn read_payload<'a>(&self, image: &'a Image) -> (r: Option<&'a [u8]>)
        ensures
            match r {
                Some(bytes) => self.payload(*image) == Some(bytes@),
                None => self.payload(*image).is_none(),
            },
    {
        let len: usize = image.data.len();
        if self.pointer_to_raw_data as u64 + self.size_of_data as u64 <= len as u64 {
            let start: usize = self.pointer_to_raw_data as usize;
            Some(
                vstd::slice::slice_subrange(
                    image.data.as_slice(),
                    start,
                    start + self.size_of_data as usize,
                ),
            )
        } else {
            None
        }
    }

    /// What the entry's payload holds if the entry is a CodeView entry
    /// whose payload can be read and decoded.
    pub open spec fn codeview(self, image: Image) -> Option<CodeViewFacts> {
        if ImageDebugType::of(self.type_) == ImageDebugType::Codeview {
            match self.payload(image) {
                Some(bytes) => codeview_of(bytes),
                None => None,
            }
        } else {
            None
        }
    }

    /// The dwords of the entry's payload if the entry is a POGO entry whose
    /// payload can be read and is made of whole dwords.
    pub open spec fn pogo(self, image: Image) -> Option<Seq<u32>> {
        if ImageDebugType::of(self.type_) == ImageDebugType::Pogo {
            match self.payload(image) {
                Some(bytes) => if bytes.len() % 4 == 0 {
                    Some(dwords_of(bytes))
                } else {
                    None
                },
                None => None,
            }
        } else {
            None
        }
    }

    /// Decodes the payload that the entry points at.
    ///
    /// A CodeView or POGO payload that cannot be read, or that is not what
    /// its type says, gives `InvalidType`. Any other type gives `Unknown`.
    pub fn parse(&self, image: &Image) -> (r: Result<DebugEntryEnum, ReadError>)
        ensures
            match r {
                Ok(DebugEntryEnum::Codeview(cv)) => self.codeview(*image) == Some(cv.facts()),
                Ok(DebugEntryEnum::Pogo(pgo)) => self.pogo(*image) == Some(pgo.words()),
                Ok(DebugEntryEnum::Unknown) => ImageDebugType::of(self.type_)
                    != ImageDebugType::Codeview && ImageDebugType::of(self.type_)
                    != ImageDebugType::Pogo,
                Err(e) => e == ReadError::InvalidType && self.codeview(*image).is_none()
                    && self.pogo(*image).is_none() && (ImageDebugType::of(self.type_)
                    == ImageDebugType::Codeview || ImageDebugType::of(self.type_)
                    == ImageDebugType::Pogo),
            },
    {
        match ImageDebugType::from_u32(self.type_) {
            ImageDebugType::Codeview => match CodeView::read_debug_from(self, image) {
                Ok(cv) => Ok(DebugEntryEnum::Codeview(cv)),
                Err(e) => Err(e),
            },
            ImageDebugType::Pogo => match Pgo::read_debug_from(self, image) {
                Ok(pgo) => Ok(DebugEntryEnum::Pogo(pgo)),
                Err(e) => Err(e),
            },
            _ => Ok(DebugEntryEnum::Unknown),
        }
    }
}

/// The entries of the debug directory.
pub struct DebugEntries {
    pub entries: Vec<DebugEntry>,
}

/// Where the array of debug entries lies in the file and how many it holds:
/// as many as fit into the directory's size. `None` if the image has no
/// debug directory or the file does not hold the whole array.
pub open spec fn debug_table(image: Image) -> Option<(int, int)> {
    match image.directory(DIRECTORY_DEBUG) {
        Some(dir) => match image.translated(dir.rva) {
            Ok(at) => {
                let count = dir.size as int / DEBUG_ENTRY_SIZE as int;
                if at + DEBUG_ENTRY_SIZE * count <= image.data@.len() {
                    Some((at as int, count))
                } else {
                    None
                }
            },
            Err(_) => None,
        },
        None => None,
    }
}

impl DebugEntries {
    /// Reads the entries of the debug directory.
    pub fn parse(image: &Image) -> (r: Result<DebugEntries, DebugDirectoryParseError>)
        ensures
            match r {
                Ok(found) => debug_table(*image) matches Some((at, count)) && found.entries@.len()
                    == count && forall|i: int|
                    0 <= i < count ==> #[trigger] found.entries@[i] == debug_entry_at(
                        image.data@,
                        at + DEBUG_ENTRY_SIZE * i,
                    ),
                Err(e) => debug_table(*image).is_none(),
            },
    {
        let dir = match image.data_directory(DIRECTORY_DEBUG) {
            Some(d) => d,
            None => {
                return Err(DebugDirectoryParseError::MissingDirectory);
            },
        };
        let at: usize = match image.translate(dir.rva) {
            Ok(a) => a,
            Err(_) => {
                return Err(DebugDirectoryParseError::MissingDirectory);
            },
        };
        let data = image.data.as_slice();
        let len: usize = data.len();
        assert(len == data@.len());
        let count: usize = dir.size as usize / DEBUG_ENTRY_SIZE;
        if (DEBUG_ENTRY_SIZE * count) as u64 > (len - at) as u64 {
            return Err(DebugDirectoryParseError::MissingDirectory);
        }
        let mut entries: Vec<DebugEntry> = Vec::new();
        let mut i: usize = 0;
        while i < count
            invariant
                data@ == image.data@,
                len == data@.len(),
                i <= count,
                at + DEBUG_ENTRY_SIZE * count <= len,
                entries@.len() == i,
                forall|k: int|
                    0 <= k < i ==> #[trigger] entries@[k] == debug_entry_at(
                        data@,
                        at + DEBUG_ENTRY_SIZE * k,
                    ),
            decreases count - i,
        {
            let off: usize = at + DEBUG_ENTRY_SIZE * i;
            entries.push(
                DebugEntry {
                    characteristics: u32_le(data, off),
                    time_date_stamp: u32_le(data, off + 4),
                    major_version: u16_le(data, off + 8),
                    minor_version: u16_le(data, off + 10),
                    type_: u32_le(data, off + 12),
                    size_of_data: u32_le(data, off + 16),
                    address_of_raw_data: u32_le(data, off + 20),
                    pointer_to_raw_data: u32_le(data, off + 24),
                },
            );
            i += 1;
        }
        Ok(DebugEntries { entries })
    }
}

} // verus!
