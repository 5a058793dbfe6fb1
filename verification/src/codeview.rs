//! CodeView debug payloads: which PDB file holds the image's symbols.
//!
//! The payload starts with four signature bytes. `"NB10"` opens the PDB 2.0
//! layout: an offset, a timestamp, an age, and the PDB's file name.
//! `"RSDS"` opens the PDB 7.0 layout: a GUID, an age, and the file name.
//! The name is a zero-terminated string.

#![allow(non_camel_case_types, non_snake_case)]
use vstd::prelude::*;
use crate::bytes::{cstring_at, read_cstring, u16_at, u16_le, u32_at, u32_le};
use crate::debug::{DebugEntry, ImageDebugType, ReadError};
use crate::image::Image;
use crate::text::{text_of, utf8_text};

verus! {

/// `"NB10"`, read as a little-endian dword.
pub const NB10_SIGNATURE: u32 = 0x3031_424e;

/// `"RSDS"`, read as a little-endian dword.
pub const RSDS_SIGNATURE: u32 = 0x5344_5352;

/// A GUID, its last eight bytes in groups of two, four and two.
#[derive(Copy, Clone, Debug)]
pub struct GUID {
    pub data1: u32,
    pub data2: u16,
    pub data3: u16,
    pub data4: [u8; 2],
    pub data5: [u8; 4],
    pub data6: [u8; 2],
}

/// The fixed part of a PDB 7.0 payload, behind its signature.
#[derive(Copy, Clone, Debug)]
pub struct IMAGE_DEBUG_CV_INFO_PDB70 {
    pub signature: GUID,
    pub Age: u32,
}

/// The fixed part of a PDB 2.0 payload, behind its signature.
#[derive(Copy, Clone, Debug)]
pub struct IMAGE_DEBUG_CV_INFO_PDB20 {
    pub Offset: u32,
    pub TimeDateStamp: u32,
    pub Age: u32,
}

/// A decoded CodeView payload.
#[derive(Clone, Debug)]
pub enum CodeView {
    /// CodeView 2.0 debug information.
    Cv20 { image: IMAGE_DEBUG_CV_INFO_PDB20, pdb_file_name: String },
    /// CodeView 7.0 debug information.
    Cv70 { image: IMAGE_DEBUG_CV_INFO_PDB70, pdb_file_name: String },
}

/// A GUID in spec terms: its three numbers and its last eight bytes.
pub struct GuidFacts {
    pub data1: u32,
    pub data2: u16,
    pub data3: u16,
    pub rest: Seq<u8>,
}

/// What a CodeView payload holds.
pub enum CodeViewFacts {
    Cv20 { offset: u32, time_date_stamp: u32, age: u32, pdb_file_name: Seq<char> },
    Cv70 { guid: GuidFacts, age: u32, pdb_file_name: Seq<char> },
}

/// The GUID stored at `off`: a dword and two words, little-endian, and eight
/// bytes.
pub open spec fn guid_at(s: Seq<u8>, off: int) -> GuidFacts {
    GuidFacts {
        data1: u32_at(s, off) as u32,
        data2: u16_at(s, off + 4) as u16,
        data3: u16_at(s, off + 6) as u16,
        rest: s.subrange(off + 8, off + 16),
    }
}

/// The text of the zero-terminated UTF-8 string at `off`.
pub open spec fn name_at(s: Seq<u8>, off: int) -> Option<Seq<char>> {
    match cstring_at(s, off) {
        Some(bytes) => text_of(bytes),
        None => None,
    }
}

/// What the payload `s` decodes to, or `None` if it is no CodeView payload:
/// its signature is unknown, it is too short for its layout, or its file
/// name is not a zero-terminated UTF-8 string.
pub open spec fn codeview_of(s: Seq<u8>) -> Option<CodeViewFacts> {
    if s.len() < 4 {
        None
    } else if u32_at(s, 0) == NB10_SIGNATURE {
        if s.len() < 16 {
            None
        } else {
            match name_at(s, 16) {
                Some(name) => Some(
                    CodeViewFacts::Cv20 {
                        offset: u32_at(s, 4) as u32,
                        time_date_stamp: u32_at(s, 8) as u32,
                        age: u32_at(s, 12) as u32,
                        pdb_file_name: name,
                    },
                ),
                None => None,
            }
        }
    } else if u32_at(s, 0) == RSDS_SIGNATURE {
        if s.len() < 24 {
            None
        } else {
            match name_at(s, 24) {
                Some(name) => Some(
                    CodeViewFacts::Cv70 {
                        guid: guid_at(s, 4),
                        age: u32_at(s, 20) as u32,
                        pdb_file_name: name,
                    },
                ),
                None => None,
            }
        }
    } else {
        None
    }
}

impl GUID {
    /// The GUID in spec terms.
    pub open spec fn facts(self) -> GuidFacts {
        GuidFacts {
            data1: self.data1,
            data2: self.data2,
            data3: self.data3,
            rest: self.data4@ + self.data5@ + self.data6@,
        }
    }

    /// Reads the GUID at `off`.
    pub(crate) fn read(data: &[u8], off: usize) -> (r: GUID)
        requires
            off + 16 <= data@.len(),
        ensures
            r.facts() == guid_at(data@, off as int),
    {
        assert(data.len() == data@.len());
        let guid = GUID {
            data1: u32_le(data, off),
            data2: u16_le(data, off + 4),
            data3: u16_le(data, off + 6),
            data4: [data[off + 8], data[off + 9]],
            data5: [data[off + 10], data[off + 11], data[off + 12], data[off + 13]],
            data6: [data[off + 14], data[off + 15]],
        };
        assert(guid.data4@ + guid.data5@ + guid.data6@ =~= data@.subrange(off + 8, off + 16));
        guid
    }
}

impl CodeView {
    /// The payload in spec terms.
    pub open spec fn facts(self) -> CodeViewFacts {
        match self {
            CodeView::Cv20 { image, pdb_file_name } => CodeViewFacts::Cv20 {
                offset: image.Offset,
                time_date_stamp: image.TimeDateStamp,
                age: image.Age,
                pdb_file_name: pdb_file_name@,
            },
            CodeView::Cv70 { image, pdb_file_name } => CodeViewFacts::Cv70 {
                guid: image.signature.facts(),
                age: image.Age,
                pdb_file_name: pdb_file_name@,
            },
        }
    }

    /// Reads the zero-terminated UTF-8 string at `off`.
    fn read_name(data: &[u8], off: usize) -> (r: Option<String>)
        ensures
            match r {
                Some(t) => name_at(data@, off as int) == Some(t@),
                None => name_at(data@, off as int).is_none(),
            },
    {
        match read_cstring(data, off) {
            Some(bytes) => utf8_text(bytes.as_slice()),
            None => None,
        }
    }

    /// Decodes a CodeView payload.
    pub fn decode(data: &[u8]) -> (r: Option<CodeView>)
        ensures
            match r {
                Some(cv) => codeview_of(data@) == Some(cv.facts()),
                None => codeview_of(data@).is_none(),
            },
    {
        let len: usize = data.len();
        if len < 4 {
            return None;
        }
        let signature: u32 = u32_le(data, 0);
        if signature == NB10_SIGNATURE {
            if len < 16 {
                return None;
            }
            let image = IMAGE_DEBUG_CV_INFO_PDB20 {
                Offset: u32_le(data, 4),
                TimeDateStamp: u32_le(data, 8),
                Age: u32_le(data, 12),
            };
            match Self::read_name(data, 16) {
                Some(pdb_file_name) => Some(CodeView::Cv20 { image, pdb_file_name }),
                None => None,
            }
        } else if signature == RSDS_SIGNATURE {
            if len < 24 {
                return None;
            }
            let image = IMAGE_DEBUG_CV_INFO_PDB70 {
                signature: GUID::read(data, 4),
                Age: u32_le(data, 20),
            };
            match Self::read_name(data, 24) {
                Some(pdb_file_name) => Some(CodeView::Cv70 { image, pdb_file_name }),
                None => None,
            }
        } else {
            None
        }
    }

    /// Decodes the CodeView payload of a debug entry.
    pub fn read_debug_from(debug_directory: &DebugEntry, image: &Image) -> (r: Result<
        CodeView,
        ReadError,
    >)
        ensures
            match r {
                Ok(cv) => debug_directory.codeview(*image) == Some(cv.facts()),
                Err(e) => e == ReadError::InvalidType && debug_directory.codeview(*image).is_none(),
            },
    {
        match ImageDebugType::from_u32(debug_directory.type_) {
            ImageDebugType::Codeview => {
                match debug_directory.read_payload(image) {
                    Some(bytes) => match Self::decode(bytes) {
                        Some(cv) => Ok(cv),
                        None => Err(ReadError::InvalidType),
                    },
                    None => Err(ReadError::InvalidType),
                }
            },
            _ => Err(ReadError::InvalidType),
        }
    }

    /// The file name of the PDB.
    pub fn pdb_file_name(&self) -> (r: &str)
        ensures
            r@ == (match self.facts() {
                CodeViewFacts::Cv20 { pdb_file_name, .. } => pdb_file_name,
                CodeViewFacts::Cv70 { pdb_file_name, .. } => pdb_file_name,
            }),
    {
        match self {
            CodeView::Cv20 { pdb_file_name, .. } => pdb_file_name.as_str(),
            CodeView::Cv70 { pdb_file_name, .. } => pdb_file_name.as_str(),
        }
    }
}

} // verus!
