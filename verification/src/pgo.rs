//! POGO debug payloads: the sections that profile-guided optimization laid out.
//!
//! The payload is an array of dwords. Behind the first dword come the items:
//! an RVA, a size, and a zero-terminated name that fills whole dwords.

use vstd::prelude::*;
use crate::bytes::{cstring_at, read_cstring, u32_at, u32_le};
use crate::debug::{DebugEntry, ImageDebugType, ReadError};
use crate::image::Image;

verus! {

/// The dwords that `s` holds, little-endian. Up to three last bytes that
/// fill no dword are left out.
pub open spec fn dwords_of(s: Seq<u8>) -> Seq<u32> {
    Seq::new(s.len() / 4, |i: int| u32_at(s, 4 * i) as u32)
}

/// Byte `k` (0 to 3) of a dword, counted from the low end.
pub open spec fn dword_byte(w: u32, k: int) -> u8 {
    if k == 0 {
        (w % 0x100) as u8
    } else if k == 1 {
        (w / 0x100 % 0x100) as u8
    } else if k == 2 {
        (w / 0x1_0000 % 0x100) as u8
    } else {
        (w / 0x100_0000) as u8
    }
}

/// The bytes of a sequence of dwords, little-endian.
pub open spec fn bytes_of(words: Seq<u32>) -> Seq<u8> {
    Seq::new(4 * words.len(), |k: int| dword_byte(words[k / 4], k % 4))
}

/// One POGO item, in spec terms.
pub struct PgoFacts {
    pub rva: u32,
    pub size: u32,
    pub name: Seq<u8>,
}

/// The items that `words` hold: while there are three dwords or more and the
/// name behind the first two is closed by a zero, an item; the next one
/// starts at the dword behind that zero.
pub open spec fn pgo_items(words: Seq<u32>) -> Seq<PgoFacts>
    decreases words.len(),
{
    if words.len() < 3 {
        Seq::empty()
    } else {
        match cstring_at(bytes_of(words.skip(2)), 0) {
            Some(name) => {
                let used = 3 + name.len() as int / 4;
                let item = PgoFacts { rva: words[0], size: words[1], name };
                if used <= words.len() {
                    seq![item] + pgo_items(words.skip(used))
                } else {
                    seq![item]
                }
            },
            None => Seq::empty(),
        }
    }
}

/// PGO information.
#[derive(Clone, Debug)]
pub struct Pgo {
    pub image: Vec<u32>,
}

/// Describes a PGO section.
#[derive(Clone, Debug)]
pub struct PgoItem {
    pub rva: u32,
    pub size: u32,
    /// The name, without the zero that closes it.
    pub name: Vec<u8>,
}

impl PgoItem {
    /// The item in spec terms.
    pub open spec fn facts(self) -> PgoFacts {
        PgoFacts { rva: self.rva, size: self.size, name: self.name@ }
    }
}

/// Decodes the dwords of `data`.
pub fn read_dwords(data: &[u8]) -> (r: Vec<u32>)
    ensures
        r@ == dwords_of(data@),
{
    let count: usize = data.len() / 4;
    assert(data.len() == data@.len());
    let mut out: Vec<u32> = Vec::new();
    let mut i: usize = 0;
    while i < count
        invariant
            count == data@.len() / 4,
            data@.len() <= usize::MAX,
            i <= count,
            out@.len() == i,
            forall|k: int| 0 <= k < i ==> out@[k] == u32_at(data@, 4 * k) as u32,
        decreases count - i,
    {
        out.push(u32_le(data, 4 * i));
        i += 1;
    }
    assert(out@ =~= dwords_of(data@));
    out
}

/// Writes dwords out as bytes.
pub fn dword_bytes(words: &[u32]) -> (r: Vec<u8>)
    ensures
        r@ == bytes_of(words@),
{
    let mut out: Vec<u8> = Vec::new();
    let mut i: usize = 0;
    while i < words.len()
        invariant
            i <= words@.len(),
            out@.len() == 4 * i,
            forall|k: int| 0 <= k < 4 * i ==> out@[k] == dword_byte(words@[k / 4], k % 4),
        decreases words@.len() - i,
    {
        let w: u32 = words[i];
        out.push((w % 0x100) as u8);
        out.push((w / 0x100 % 0x100) as u8);
        out.push((w / 0x1_0000 % 0x100) as u8);
        out.push((w / 0x100_0000) as u8);
        i += 1;
    }
    assert(out@ =~= bytes_of(words@));
    out
}

impl Pgo {
    /// The dwords of the payload.
    pub open spec fn words(self) -> Seq<u32> {
        self.image@
    }

    /// Gets the underlying image.
    pub fn image(&self) -> (r: &[u32])
        ensures
            r@ == self.words(),
    {
        self.image.as_slice()
    }

    /// Iterator over the PGO sections.
    pub fn iter(&self) -> (r: PgoIter<'_>)
        ensures
            r.words_left() == (if self.words().len() >= 1 {
                self.words().skip(1)
            } else {
                self.words()
            }),
    {
        let all = self.image.as_slice();
        let image = if all.len() >= 1 {
            vstd::slice::slice_subrange(all, 1, all.len())
        } else {
            all
        };
        assert(all.len() >= 1 ==> image@ =~= all@.skip(1));
        PgoIter { image }
    }

    /// Decodes the POGO payload of a debug entry. The payload must lie in
    /// the file and be made of whole dwords.
    pub fn read_debug_from(debug_directory: &DebugEntry, image: &Image) -> (r: Result<
        Pgo,
        ReadError,
    >)
        ensures
            match r {
                Ok(pgo) => debug_directory.pogo(*image) == Some(pgo.words()),
                Err(e) => e == ReadError::InvalidType && debug_directory.pogo(*image).is_none(),
            },
    {
        match ImageDebugType::from_u32(debug_directory.type_) {
            ImageDebugType::Pogo => {
                match debug_directory.read_payload(image) {
                    Some(bytes) => if bytes.len() % 4 == 0 {
                        Ok(Pgo { image: read_dwords(bytes) })
                    } else {
                        Err(ReadError::InvalidType)
                    },
                    None => Err(ReadError::InvalidType),
                }
            },
            _ => Err(ReadError::InvalidType),
        }
    }
}

/// Iterator over PGO sections.
#[derive(Copy, Clone)]
pub struct PgoIter<'a> {
    image: &'a [u32],
}

impl<'a> PgoIter<'a> {
    /// The dwords not yet decoded.
    pub closed spec fn words_left(self) -> Seq<u32> {
        self.image@
    }

    /// The items still to come.
    pub open spec fn remaining(self) -> Seq<PgoFacts> {
        pgo_items(self.words_left())
    }

    /// The next item, if one is left. It takes its two dwords and those of
    /// its name from the dwords not yet decoded.
    pub fn next(&mut self) -> (r: Option<PgoItem>)
        ensures
            match r {
                Some(item) => old(self).remaining().len() > 0 && item.facts() == old(
                    self,
                ).remaining()[0] && final(self).remaining() == old(self).remaining().skip(1)
                    && final(self).words_left() == old(self).words_left().skip(
                    3 + item.name@.len() as int / 4,
                ),
                None => old(self).remaining().len() == 0 && final(self).words_left() == old(
                    self,
                ).words_left(),
            },
    {
        let len: usize = self.image.len();
        if len >= 3 {
            let rva: u32 = self.image[0];
            let size: u32 = self.image[1];
            let rest = vstd::slice::slice_subrange(self.image, 2, len);
            assert(rest@ =~= self.image@.skip(2));
            let bytes = dword_bytes(rest);
            match read_cstring(bytes.as_slice(), 0) {
                Some(name) => {
                    proof {
                        crate::bytes::lemma_nul_from(bytes@, 0);
                    }
                    let used: usize = 3 + name.len() / 4;
                    let next = vstd::slice::slice_subrange(self.image, used, len);
                    assert(next@ =~= self.image@.skip(used as int));
                    let ghost items = pgo_items(self.image@);
                    assert(items.skip(1) =~= pgo_items(self.image@.skip(used as int)));
                    self.image = next;
                    Some(PgoItem { rva, size, name })
                },
                None => None,
            }
        } else {
            None
        }
    }
}

} // verus!
