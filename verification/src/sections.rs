//! The section table, with each section's name as text and its bytes.

use vstd::prelude::*;
use crate::bytes::nul_from;
use crate::image::{containing_section, Image, SectionHeader};
use crate::text::{show, shown};

verus! {

/// One section of the image.
#[derive(Clone, Debug)]
pub struct Section<'data> {
    pub name: String,
    pub virt_addr: u32,
    pub virt_size: u32,
    pub raw_addr: u32,
    pub raw_size: u32,
    /// The bytes of the section that the file holds.
    pub data: &'data [u8],
    pub characteristics: u32,
}

/// The sections of an image, in the order of the section table.
#[derive(Clone, Debug)]
pub struct SectionTable<'data> {
    pub sections: Vec<Section<'data>>,
}

/// The bytes of a section's name, without the zeros that pad it: those in
/// front of the first zero.
pub open spec fn name_bytes(header: SectionHeader) -> Seq<u8> {
    header.name@.subrange(0, nul_from(header.name@, 0))
}

impl<'data> Section<'data> {
    /// Whether this is the section that `header` describes in `image`.
    pub open spec fn describes(self, image: Image, header: SectionHeader) -> bool {
        &&& self.name@ == shown(name_bytes(header))
        &&& self.virt_addr == header.virtual_address
        &&& self.virt_size == header.virtual_size
        &&& self.raw_addr == header.file_offset
        &&& self.raw_size == header.file_size
        &&& self.characteristics == header.characteristics
        &&& self.data@ == image.clamped(header.file_offset as usize, header.file_size as usize)
    }

    /// The name of a section as text.
    pub fn name_of(header: &SectionHeader) -> (r: String)
        ensures
            r@ == shown(name_bytes(*header)),
    {
        let mut n: usize = 0;
        while n < 8 && header.name[n] != 0
            invariant
                n <= 8,
                header.name@.len() == 8,
                nul_from(header.name@, n as int) == nul_from(header.name@, 0),
            decreases 8 - n,
        {
            n += 1;
        }
        let bytes = vstd::array::array_as_slice(&header.name);
        show(vstd::slice::slice_subrange(bytes, 0, n))
    }

    /// Reads the section table: each section with its name and its bytes.
    /// What a section claims beyond the end of the file is cut off.
    pub fn parse(image: &'data Image) -> (r: SectionTable<'data>)
        ensures
            r.sections@.len() == image.sections@.len(),
            forall|i: int|
                0 <= i < image.sections@.len() ==> (#[trigger] r.sections@[i]).describes(
                    *image,
                    image.sections@[i],
                ),
    {
        let mut result = SectionTable { sections: Vec::new() };
        let n: usize = image.sections.len();
        let mut i: usize = 0;
        while i < n
            invariant
                n == image.sections@.len(),
                i <= n,
                result.sections@.len() == i,
                forall|k: int|
                    0 <= k < i ==> (#[trigger] result.sections@[k]).describes(
                        *image,
                        image.sections@[k],
                    ),
            decreases n - i,
        {
            let sec = &image.sections[i];
            let section_data = image.safe_read(sec.file_offset as usize, sec.file_size as usize);
            let section = Section {
                name: Self::name_of(sec),
                virt_addr: sec.virtual_address,
                virt_size: sec.virtual_size,
                raw_addr: sec.file_offset,
                raw_size: sec.file_size,
                data: section_data,
                characteristics: sec.characteristics,
            };
            result.sections.push(section);
            i += 1;
        }
        result
    }
}

/// The index of the first section among the first `n` that covers the
/// address `offset`: as many addresses from its virtual address on as the
/// larger of its size in memory and its size in the file.
pub open spec fn section_holding(image: Image, offset: u64, n: int) -> Option<int>
    decreases n,
{
    if n <= 0 {
        None
    } else {
        match section_holding(image, offset, n - 1) {
            Some(i) => Some(i),
            None => {
                let s = image.sections@[n - 1];
                if s.virtual_address <= offset < s.virtual_address + s.span() {
                    Some(n - 1)
                } else {
                    None
                }
            },
        }
    }
}

/// The name of the first section that covers the address `offset`, if there
/// is one. That an address lies in no section is no error.
pub fn get_section_name_from_offset(offset: u64, image: &Image) -> (r: Option<String>)
    ensures
        match r {
            Some(name) => section_holding(*image, offset, image.sections@.len() as int) matches Some(
                i,
            ) && name@ == shown(name_bytes(image.sections@[i])),
            None => section_holding(*image, offset, image.sections@.len() as int).is_none(),
        },
{
    let n: usize = image.sections.len();
    let mut i: usize = 0;
    while i < n
        invariant
            n == image.sections@.len(),
            i <= n,
            section_holding(*image, offset, i as int).is_none(),
        decreases n - i,
    {
        let s = &image.sections[i];
        let span: u32 = if s.virtual_size >= s.file_size {
            s.virtual_size
        } else {
            s.file_size
        };
        if offset >= s.virtual_address as u64 && offset < span as u64 + s.virtual_address as u64 {
            proof {
                lemma_section_holding_stable(*image, offset, i + 1, n as int);
            }
            return Some(Section::name_of(s));
        }
        i += 1;
    }
    None
}

/// Once a section is found among the first `n`, it is the one found among
/// any more.
pub proof fn lemma_section_holding_stable(image: Image, offset: u64, n: int, m: int)
    requires
        0 <= n <= m,
        section_holding(image, offset, n).is_some(),
    ensures
        section_holding(image, offset, m) == section_holding(image, offset, n),
    decreases m - n,
{
    if n < m {
        lemma_section_holding_stable(image, offset, n, m - 1);
    }
}

/// The section found for an address is the section through which the
/// address is translated. (The largest RVA is the one exception: no
/// translation goes through it.)
pub proof fn lemma_section_holding_translates(image: Image, rva: u32, n: int)
    requires
        rva < u32::MAX,
    ensures
        section_holding(image, rva as u64, n) == containing_section(image.sections@, rva, n),
    decreases n,
{
    if n > 0 {
        lemma_section_holding_translates(image, rva, n - 1);
    }
}

} // verus!
