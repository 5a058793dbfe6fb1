//! The "Rich" structure that Microsoft's linker leaves in the DOS stub.
//!
//! Seen as little-endian dwords, the structure is
//!
//! ```text
//! "DanS" ^ key, key, key, key,
//! (product << 16 | build) ^ key, count ^ key,      one pair per record
//! "Rich", key,
//! 0, ...                                           padding
//! ```
//!
//! where `key` is a checksum over the DOS stub in front of it and over the
//! records themselves.

use vstd::prelude::*;
use crate::image::Image;
use crate::pgo::{dwords_of, read_dwords};

verus! {

/// `"DanS"`, the marker that opens the structure (stored xored with the key).
pub const DANS_MARKER: u32 = 0x536e6144;

/// `"Rich"`, the marker that closes the list of records.
pub const RICH_MARKER: u32 = 0x68636952;

/// The dword index of `e_lfanew` in the DOS header: it is hashed as zero.
pub const E_LFANEW_INDEX: usize = 15;

/// Why a dword image holds no Rich structure.
#[derive(Copy, Clone, Debug, PartialEq, Eq, Structural)]
pub enum RichError {
    /// The image is too short, or the scan for the opening marker ran into
    /// the DOS header.
    Invalid,
    /// The last non-zero dwords are not `"Rich"` and a key.
    BadMagic,
}

/// One record: a tool (`product`), its build number, and how many objects it
/// contributed to the link.
#[derive(Copy, Clone, Debug, PartialEq, Eq, Structural, Default, Hash)]
pub struct RichRecord {
    pub build: u16,
    pub product: u16,
    pub count: u32,
}

/// `x` rotated left by `n` bits (by `n % 32`, as `u32::rotate_left` does).
pub open spec fn rotl32(x: u32, n: u32) -> u32 {
    let k = n % 32;
    if k == 0 {
        x
    } else {
        (x << k) | (x >> ((32 - k) as u32))
    }
}

/// Computes [`rotl32`].
pub fn rotate_left(x: u32, n: u32) -> (r: u32)
    ensures
        r == rotl32(x, n),
{
    let k: u32 = n % 32;
    if k == 0 {
        x
    } else {
        (x << k) | (x >> (32 - k))
    }
}

impl RichRecord {
    /// The dword that holds `product` in its high half and `build` in its low half.
    pub open spec fn packed(self) -> u32 {
        ((self.product as u32) << 16) | (self.build as u32)
    }

    /// The record stored as `first, second` under `key`.
    pub open spec fn decoded(key: u32, first: u32, second: u32) -> RichRecord {
        let field = first ^ key;
        RichRecord {
            build: (field & 0xffff) as u16,
            product: ((field >> 16) & 0xffff) as u16,
            count: second ^ key,
        }
    }

    /// The two dwords that store this record under `key`.
    pub open spec fn encoded(self, key: u32) -> (u32, u32) {
        (self.packed() ^ key, self.count ^ key)
    }

    /// Decodes the record with the given key.
    pub fn decode(key: u32, values: &[u32; 2]) -> (r: RichRecord)
        ensures
            r == Self::decoded(key, values[0], values[1]),
    {
        let field: u32 = values[0] ^ key;
        let low: u32 = field & 0xffff;
        let high: u32 = (field >> 16) & 0xffff;
        assert(low <= 0xffff && high <= 0xffff) by (bit_vector)
            requires
                low == field & 0xffff,
                high == (field >> 16) & 0xffff,
        ;
        RichRecord { build: low as u16, product: high as u16, count: values[1] ^ key }
    }

    /// Encodes the record with the given key.
    pub fn encode(&self, key: u32) -> (r: [u32; 2])
        ensures
            (r[0], r[1]) == self.encoded(key),
    {
        let value: u32 = ((self.product as u32) << 16) | (self.build as u32);
        [value ^ key, self.count ^ key]
    }
}

/// Decoding undoes encoding, whatever the key.
pub proof fn lemma_decode_encode(record: RichRecord, key: u32)
    ensures
        RichRecord::decoded(key, record.encoded(key).0, record.encoded(key).1) == record,
{
    let build = record.build;
    let product = record.product;
    let count = record.count;
    let packed = record.packed();
    assert((packed ^ key) ^ key == packed) by (bit_vector);
    assert((count ^ key) ^ key == count) by (bit_vector);
    assert((packed & 0xffff) as u16 == build && ((packed >> 16) & 0xffff) as u16 == product)
        by (bit_vector)
        requires
            packed == ((product as u32) << 16) | (build as u32),
    ;
}


/// The checksum after hashing one more dword of the DOS stub.
///
/// Each of the dword's four bytes is rotated left by its offset in the stub
/// (only the low five bits of the offset matter) and added. The dword that
/// holds `e_lfanew` counts as zero.
pub open spec fn stub_step(csum: u32, dword: u32, index: int) -> u32 {
    let w = if index == E_LFANEW_INDEX as int { 0u32 } else { dword };
    let base = (4 * (index % 8)) as u32;
    csum.wrapping_add(rotl32(w & 0xff, base))
        .wrapping_add(rotl32((w >> 8) & 0xff, (base + 1) as u32))
        .wrapping_add(rotl32((w >> 16) & 0xff, (base + 2) as u32))
        .wrapping_add(rotl32((w >> 24) & 0xff, (base + 3) as u32))
}

/// The checksum after the first `n` dwords of the stub. It starts from the
/// stub's size in bytes.
pub open spec fn stub_sum(stub: Seq<u32>, n: int) -> u32
    decreases n,
{
    if n <= 0 {
        ((4 * stub.len()) % 0x1_0000_0000) as u32
    } else {
        stub_step(stub_sum(stub, n - 1), stub[n - 1], n - 1)
    }
}

/// The checksum `base` after the first `n` records: each adds its packed
/// dword rotated left by its count.
pub open spec fn records_sum(base: u32, records: Seq<RichRecord>, n: int) -> u32
    decreases n,
{
    if n <= 0 {
        base
    } else {
        records_sum(base, records, n - 1).wrapping_add(
            rotl32(records[n - 1].packed(), records[n - 1].count),
        )
    }
}

/// The checksum of a DOS stub and a list of records: the key under which a
/// linker stores those records behind that stub.
pub open spec fn checksum_of(stub: Seq<u32>, records: Seq<RichRecord>) -> u32 {
    records_sum(stub_sum(stub, stub.len() as int), records, records.len() as int)
}

/// The size in bytes that a linker gives the structure that stores `count`
/// records under `key`, with its padding.
pub open spec fn padded_size(key: u32, count: nat) -> int {
    ((key / 32) % 3 + count) * 8 + 0x20
}

/// The records stored in `words` under `key`, two dwords each. A last odd
/// dword is ignored.
pub open spec fn records_of(words: Seq<u32>, key: u32) -> Seq<RichRecord> {
    Seq::new(
        words.len() / 2,
        |i: int| RichRecord::decoded(key, words[2 * i], words[2 * i + 1]),
    )
}

/// The structure that stores `records` under `key`, without padding.
pub open spec fn encoded_image(key: u32, records: Seq<RichRecord>) -> Seq<u32> {
    Seq::new(
        2 * records.len() + 6,
        |i: int|
            if i == 0 {
                DANS_MARKER ^ key
            } else if i < 4 {
                key
            } else if i < 2 * records.len() + 4 {
                if (i - 4) % 2 == 0 {
                    records[(i - 4) / 2].encoded(key).0
                } else {
                    records[(i - 4) / 2].encoded(key).1
                }
            } else if i == 2 * records.len() + 4 {
                RICH_MARKER
            } else {
                key
            },
    )
}

/// The records that a structure without padding holds: those between its
/// four header dwords and its two footer dwords, under the key in its
/// second dword.
pub open spec fn image_records(image: Seq<u32>) -> Seq<RichRecord> {
    records_of(image.subrange(4, image.len() - 2), image[1])
}

/// Whether the four dwords at `start` are the header `"DanS" ^ key, key, key, key`.
pub open spec fn header_at(image: Seq<u32>, start: int, key: u32) -> bool {
    &&& image[start] == DANS_MARKER ^ key
    &&& image[start + 1] == key
    &&& image[start + 2] == key
    &&& image[start + 3] == key
}

/// Where the padding starts: the least `end` at or above 15 from which
/// `image` holds only zeros up to `from`.
pub open spec fn padding_start(image: Seq<u32>, from: int) -> int
    decreases from,
{
    if from < 16 || image[from - 1] != 0 {
        from
    } else {
        padding_start(image, from - 1)
    }
}

/// Where the header is: the first of `from`, `from - 2`, ... at or above 16
/// that holds it, or a value below 16 if none does.
pub open spec fn header_start(image: Seq<u32>, from: int, key: u32) -> int
    decreases from,
{
    if from < 16 || header_at(image, from, key) {
        from
    } else {
        header_start(image, from - 2, key)
    }
}

/// What the dwords of a file's first bytes hold: the bounds `(start, end)` of
/// the Rich structure among them, or why there is none.
///
/// Only the dwords in front of the PE header count (its offset is the
/// sixteenth dword). Trailing zeros are padding; the two dwords before them
/// must be `"Rich"` and the key; the header is looked for backwards from
/// there, two dwords at a time, and not inside the DOS header.
pub open spec fn locate(file: Seq<u32>) -> Result<(int, int), RichError> {
    if file.len() <= 15 || file[15] / 4 > file.len() {
        Err(RichError::Invalid)
    } else {
        let image = file.subrange(0, (file[15] / 4) as int);
        let end = padding_start(image, image.len() as int);
        if end < 16 {
            Err(RichError::Invalid)
        } else if image[end - 2] != RICH_MARKER {
            Err(RichError::BadMagic)
        } else {
            let start = header_start(image, end - 6, image[end - 1]);
            if start < 16 {
                Err(RichError::Invalid)
            } else {
                Ok((start, end))
            }
        }
    }
}

/// A Rich structure found in an image, with the DOS stub in front of it.
#[derive(Copy, Clone)]
pub struct RichStructure<'a> {
    dos_stub: &'a [u32],
    image: &'a [u32],
}

impl<'a> RichStructure<'a> {
    #[verifier::type_invariant]
    spec fn well_formed(self) -> bool {
        self.image@.len() >= 6
    }

    /// The dwords in front of the structure.
    pub closed spec fn stub(self) -> Seq<u32> {
        self.dos_stub@
    }

    /// The dwords of the structure, from its header to its key.
    pub closed spec fn words(self) -> Seq<u32> {
        self.image@
    }

    /// Finds the structure in the dwords of a file's first bytes.
    pub fn try_from(image: &'a [u32]) -> (r: Result<RichStructure<'a>, RichError>)
        ensures
            match r {
                Ok(rich) => locate(image@) matches Ok((start, end)) && rich.stub()
                    == image@.subrange(0, start) && rich.words() == image@.subrange(start, end),
                Err(e) => locate(image@) == Err::<(int, int), RichError>(e),
            },
            r matches Ok(rich) ==> rich.words().len() >= 6,
            locate(image@) matches Ok((start, end)) ==> 16 <= start && start + 6 <= end
                <= image@.len(),
    {
        if image.len() <= 15 {
            return Err(RichError::Invalid);
        }
        let header_len: usize = (image[15] / 4) as usize;
        if header_len > image.len() {
            return Err(RichError::Invalid);
        }
        let head = vstd::slice::slice_subrange(image, 0, header_len);

        // Skip the padding zeroes
        let mut end: usize = head.len();
        loop
            invariant
                image@.len() > 15,
                header_len == image@[15] / 4,
                header_len <= image@.len(),
                head@ == image@.subrange(0, header_len as int),
                end <= head@.len(),
                padding_start(head@, end as int) == padding_start(head@, head@.len() as int),
            ensures
                16 <= end <= head@.len(),
                end as int == padding_start(head@, head@.len() as int),
            decreases end,
        {
            if end < 16 {
                return Err(RichError::Invalid);
            }
            if head[end - 1] != 0 {
                break ;
            }
            end -= 1;
        }

        // Find the Rich marker and the xor key
        if head[end - 2] != RICH_MARKER {
            return Err(RichError::BadMagic);
        }
        let x: u32 = head[end - 1];
        let dx: u32 = DANS_MARKER ^ x;

        // Scan to find the header block
        let mut start: usize = end - 6;
        loop
            invariant
                image@.len() > 15,
                header_len == image@[15] / 4,
                header_len <= image@.len(),
                head@ == image@.subrange(0, header_len as int),
                16 <= end <= head@.len(),
                end as int == padding_start(head@, head@.len() as int),
                head@[end - 2] == RICH_MARKER,
                x == head@[end - 1],
                start <= end - 6,
                dx == DANS_MARKER ^ x,
                header_start(head@, start as int, x) == header_start(head@, end - 6, x),
            ensures
                16 <= start <= end - 6,
                start as int == header_start(head@, end - 6, x),
            decreases start,
        {
            if start < 16 {
                return Err(RichError::Invalid);
            }
            if head[start] == dx && head[start + 1] == x && head[start + 2] == x && head[start
                + 3] == x {
                break ;
            }
            start -= 2;
        }

        // Everything before is the dos stub
        let dos_stub = vstd::slice::slice_subrange(head, 0, start);
        let words = vstd::slice::slice_subrange(head, start, end);
        proof {
            assert(head@.subrange(0, start as int) =~= image@.subrange(0, start as int));
            assert(head@.subrange(start as int, end as int) =~= image@.subrange(
                start as int,
                end as int,
            ));
        }
        Ok(RichStructure { dos_stub, image: words })
    }

    /// Returns the Rich image without the padding.
    pub fn image(&self) -> (r: &'a [u32])
        ensures
            r@ == self.words(),
    {
        self.image
    }

    /// Gets the xor key.
    pub fn xor_key(&self) -> (r: u32)
        ensures
            self.words().len() >= 6,
            r == self.words()[1],
    {
        proof {
            use_type_invariant(self);
        }
        self.image[1]
    }

    /// Gets the records.
    pub fn records(&self) -> (r: RichIter<'a>)
        ensures
            r.remaining() == image_records(self.words()),
    {
        proof {
            use_type_invariant(self);
        }
        let iter = vstd::slice::slice_subrange(self.image, 4, self.image.len() - 2);
        let key = self.xor_key();
        RichIter { iter, key }
    }
}

/// Iterator over the Rich records.
#[derive(Copy, Clone)]
pub struct RichIter<'a> {
    iter: &'a [u32],
    key: u32,
}

impl<'a> RichIter<'a> {
    /// The dwords not yet decoded.
    pub closed spec fn words_left(self) -> Seq<u32> {
        self.iter@
    }

    /// The key under which the records are stored.
    pub closed spec fn key(self) -> u32 {
        self.key
    }

    /// The records still to come.
    pub open spec fn remaining(self) -> Seq<RichRecord> {
        records_of(self.words_left(), self.key())
    }

    /// The next record, if one is left.
    pub fn next(&mut self) -> (r: Option<RichRecord>)
        ensures
            final(self).key() == old(self).key(),
            match r {
                Some(record) => old(self).remaining().len() > 0 && record == old(self).remaining()[0] && final(self).words_left() == old(self).words_left().skip(2)
                    && final(self).remaining() == old(self).remaining().skip(1),
                None => old(self).remaining().len() == 0 && final(self).words_left() == old(self).words_left(),
            },
    {
        if self.iter.len() >= 2 {
            let record = RichRecord::decode(self.key, &[self.iter[0], self.iter[1]]);
            let rest = vstd::slice::slice_subrange(self.iter, 2, self.iter.len());
            assert(rest@ =~= self.iter@.skip(2));
            assert(records_of(rest@, self.key) =~= records_of(self.iter@, self.key).skip(1));
            self.iter = rest;
            Some(record)
        } else {
            None
        }
    }

    /// How many records are left, as a lower and an upper bound.
    pub fn size_hint(&self) -> (r: (usize, Option<usize>))
        ensures
            r.0 == self.remaining().len(),
            r.1 == Some(r.0),
    {
        let len: usize = self.iter.len() / 2;
        (len, Some(len))
    }

    /// How many records are left.
    pub fn count(self) -> (r: usize)
        ensures
            r == self.remaining().len(),
    {
        self.size_hint().0
    }

    /// Skips `n` records and returns the one after them. Where fewer than
    /// `n + 1` are left, none is left afterwards.
    pub fn nth(&mut self, n: usize) -> (r: Option<RichRecord>)
        ensures
            final(self).key() == old(self).key(),
            match r {
                Some(record) => n < old(self).remaining().len() && record == old(self).remaining()[n as int] && final(self).words_left() == old(self).words_left().skip(
                    2 * n + 2,
                ) && final(self).remaining() == old(self).remaining().skip(n + 1),
                None => n >= old(self).remaining().len() && final(self).words_left().len() == 0,
            },
    {
        let len: usize = self.iter.len();
        if len >= 2 && n <= (len - 2) / 2 {
            let record = RichRecord::decode(self.key, &[self.iter[n * 2], self.iter[n * 2 + 1]]);
            let rest = vstd::slice::slice_subrange(self.iter, n * 2 + 2, len);
            assert(rest@ =~= self.iter@.skip(2 * n + 2));
            assert(records_of(rest@, self.key) =~= records_of(self.iter@, self.key).skip(n + 1));
            self.iter = rest;
            Some(record)
        } else {
            self.iter = vstd::slice::slice_subrange(self.iter, 0, 0);
            None
        }
    }

    /// The record in the last two dwords, if two are left.
    ///
    /// After an even number of dwords that is the last of the records still
    /// to come.
    pub fn next_back(&mut self) -> (r: Option<RichRecord>)
        ensures
            final(self).key() == old(self).key(),
            match r {
                Some(record) => {
                    let w = old(self).words_left();
                    &&& w.len() >= 2
                    &&& record == RichRecord::decoded(
                        old(self).key(),
                        w[w.len() - 2],
                        w[w.len() - 1],
                    )
                    &&& final(self).words_left() == w.subrange(0, w.len() - 2)
                    &&& w.len() % 2 == 0 ==> record == old(self).remaining().last() && final(self).remaining() == old(self).remaining().drop_last()
                },
                None => old(self).words_left().len() < 2 && final(self).words_left() == old(self).words_left(),
            },
    {
        let len: usize = self.iter.len();
        if len >= 2 {
            let record = RichRecord::decode(self.key, &[self.iter[len - 2], self.iter[len - 1]]);
            let rest = vstd::slice::slice_subrange(self.iter, 0, len - 2);
            assert(len % 2 == 0 ==> records_of(rest@, self.key) =~= records_of(
                self.iter@,
                self.key,
            ).drop_last());
            self.iter = rest;
            Some(record)
        } else {
            None
        }
    }
}

/// Hashes the dwords of a DOS stub.
fn stub_checksum(dos_stub: &[u32]) -> (csum: u32)
    ensures
        csum == stub_sum(dos_stub@, dos_stub@.len() as int),
{
    let len: usize = dos_stub.len();
    let mut csum: u32 = ((len % 0x4000_0000) * 4) as u32;
    assert(csum == ((4 * len) % 0x1_0000_0000) as u32);
    let mut j: usize = 0;
    while j < len
        invariant
            len == dos_stub@.len(),
            j <= len,
            csum == stub_sum(dos_stub@, j as int),
        decreases len - j,
    {
        // Zero the e_lfanew field
        let w: u32 = if j == E_LFANEW_INDEX { 0 } else { dos_stub[j] };
        let base: u32 = ((j % 8) * 4) as u32;
        // Accumulate
        csum = csum.wrapping_add(rotate_left(w & 0xff, base));
        csum = csum.wrapping_add(rotate_left((w >> 8) & 0xff, base + 1));
        csum = csum.wrapping_add(rotate_left((w >> 16) & 0xff, base + 2));
        csum = csum.wrapping_add(rotate_left((w >> 24) & 0xff, base + 3));
        j += 1;
    }
    csum
}

/// Adds one record to a checksum.
fn add_record(csum: u32, record: RichRecord) -> (r: u32)
    ensures
        r == csum.wrapping_add(rotl32(record.packed(), record.count)),
{
    let value: u32 = ((record.product as u32) << 16) | (record.build as u32);
    csum.wrapping_add(rotate_left(value, record.count))
}

/// A lemma for walking a list of records from its front: the sum over a list
/// is the sum over its first record and then over the rest.
proof fn lemma_records_sum_front(base: u32, records: Seq<RichRecord>, n: int)
    requires
        1 <= n <= records.len(),
    ensures
        records_sum(base, records, n) == records_sum(
            base.wrapping_add(rotl32(records[0].packed(), records[0].count)),
            records.skip(1),
            n - 1,
        ),
    decreases n,
{
    if n > 1 {
        lemma_records_sum_front(base, records, n - 1);
        assert(records.skip(1)[n - 2] == records[n - 1]);
    } else {
        reveal_with_fuel(records_sum, 2);
    }
}

impl<'a> RichStructure<'a> {
    /// Calculate the checksum.
    ///
    /// The checksum should be equal to the xor key.
    pub fn checksum(&self) -> (r: u32)
        ensures
            r == checksum_of(self.stub(), image_records(self.words())),
    {
        let mut csum: u32 = stub_checksum(self.dos_stub);
        let mut iter = self.records();
        let ghost all = iter.remaining();
        let ghost base = csum;
        loop
            invariant
                records_sum(csum, iter.remaining(), iter.remaining().len() as int) == records_sum(
                    base,
                    all,
                    all.len() as int,
                ),
            ensures
                csum == records_sum(base, all, all.len() as int),
            decreases iter.remaining().len(),
        {
            let ghost before = iter.remaining();
            match iter.next() {
                Some(record) => {
                    proof {
                        lemma_records_sum_front(csum, before, before.len() as int);
                    }
                    csum = add_record(csum, record);
                },
                None => {
                    break ;
                },
            }
        }
        csum
    }

    /// Encodes a new set of records behind this structure's DOS stub.
    ///
    /// The key is the checksum of the stub and the records. On success
    /// `dest` holds the header, the records, the footer, and zeros up to its
    /// end. If `dest` is too short for that it is left as it was.
    ///
    /// Either way the result is the length in dwords that a linker gives the
    /// structure with its padding there: `Ok` of it if `dest` was filled,
    /// `Err` of it if not. That size, in bytes, must fit 32 bits.
    pub fn encode(&self, records: &[RichRecord], dest: &mut [u32]) -> (r: Result<usize, usize>)
        requires
            padded_size(checksum_of(self.stub(), records@), records@.len()) <= u32::MAX,
        ensures
            ({
                let key = checksum_of(self.stub(), records@);
                let n = records@.len() as int;
                let total_len = ((key / 32) % 3 + n) * 2 + 8;
                if old(dest)@.len() < 2 * n + 6 {
                    r == Err::<usize, usize>(total_len as usize) && final(dest)@ == old(dest)@
                } else {
                    &&& r == Ok::<usize, usize>(total_len as usize)
                    &&& final(dest)@.len() == old(dest)@.len()
                    &&& final(dest)@.subrange(0, 2 * n + 6) == encoded_image(key, records@)
                    &&& forall|i: int| 2 * n + 6 <= i < final(dest)@.len() ==> final(dest)@[i] == 0
                }
            }),
    {
        let n: usize = records.len();
        let mut xor_key: u32 = stub_checksum(self.dos_stub);
        let ghost base = xor_key;
        let mut i: usize = 0;
        while i < n
            invariant
                n == records@.len(),
                i <= n,
                xor_key == records_sum(base, records@, i as int),
            decreases n - i,
        {
            xor_key = add_record(xor_key, records[i]);
            i += 1;
        }
        let total_size: u32 = ((xor_key / 32) % 3 + n as u32) * 8 + 0x20;
        let total_len: usize = (total_size / 4) as usize;
        if dest.len() < n * 2 + 6 {
            Err(total_len)
        } else {
            // Write the header
            dest[0] = DANS_MARKER ^ xor_key;
            dest[1] = xor_key;
            dest[2] = xor_key;
            dest[3] = xor_key;
            // Write the records
            let mut i: usize = 0;
            while i < n
                invariant
                    n == records@.len(),
                    n <= 0x1fff_fffb,
                    i <= n,
                    dest@.len() == old(dest)@.len(),
                    dest@.len() >= 2 * n + 6,
                    forall|k: int| 0 <= k < 2 * i + 4 ==> dest@[k] == encoded_image(
                        xor_key,
                        records@,
                    )[k],
                decreases n - i,
            {
                let values = records[i].encode(xor_key);
                dest[i * 2 + 4] = values[0];
                dest[i * 2 + 5] = values[1];
                i += 1;
            }
            // Write the footer
            dest[n * 2 + 4] = RICH_MARKER;
            dest[n * 2 + 5] = xor_key;
            // Write the padding
            let len: usize = dest.len();
            let mut i: usize = n * 2 + 6;
            while i < len
                invariant
                    n == records@.len(),
                    n <= 0x1fff_fffb,
                    2 * n + 6 <= i <= len,
                    len == dest@.len(),
                    dest@.len() == old(dest)@.len(),
                    forall|k: int| 0 <= k < 2 * n + 6 ==> dest@[k] == encoded_image(
                        xor_key,
                        records@,
                    )[k],
                    forall|k: int| 2 * n + 6 <= k < i ==> dest@[k] == 0,
                decreases len - i,
            {
                dest[i] = 0;
                i += 1;
            }
            assert(dest@.subrange(0, 2 * n + 6) =~= encoded_image(xor_key, records@));
            Ok(total_len)
        }
    }
}

/// Round trip: the records decoded from an encoded structure are the records
/// that were encoded, and the checksum over the DOS stub and the decoded
/// records is the key that the structure stores.
pub proof fn lemma_round_trip(stub: Seq<u32>, records: Seq<RichRecord>)
    ensures
        image_records(encoded_image(checksum_of(stub, records), records)) == records,
        checksum_of(
            stub,
            image_records(encoded_image(checksum_of(stub, records), records)),
        ) == encoded_image(checksum_of(stub, records), records)[1],
{
    let key = checksum_of(stub, records);
    let image = encoded_image(key, records);
    let decoded = image_records(image);
    assert(decoded.len() == records.len());
    assert forall|i: int| 0 <= i < records.len() implies decoded[i] == records[i] by {
        lemma_decode_encode(records[i], key);
        let words = image.subrange(4, image.len() - 2);
        assert(words[2 * i] == image[2 * i + 4]);
        assert(words[2 * i + 1] == image[2 * i + 5]);
    }
    assert(decoded =~= records);
}

/// The dwords of a file's header in which a linker has stored `records`
/// behind the DOS stub `stub`: the stub, the structure under the checksum of
/// both, `padding` zero dwords, and whatever follows.
pub open spec fn linked_header(
    stub: Seq<u32>,
    records: Seq<RichRecord>,
    padding: nat,
    rest: Seq<u32>,
) -> Seq<u32> {
    stub + encoded_image(checksum_of(stub, records), records) + Seq::new(padding, |i: int| 0u32)
        + rest
}

/// The place two dwords times `k` into the encoded structure, where the scan
/// for the header looks.
pub open spec fn scan_stop(k: int) -> int {
    2 * k
}

/// Whether the records, once encoded, hold nothing that the scan for the
/// header takes for the header: at none of the places `2 * k` inside the
/// structure stand the four dwords of a header.
pub open spec fn no_false_header(key: u32, records: Seq<RichRecord>) -> bool {
    forall|k: int|
        1 <= k <= records.len() ==> !header_at(encoded_image(key, records), #[trigger] scan_stop(k), key)
}

/// Skipping zeros from `from` down stops behind the last dword that is not zero.
proof fn lemma_padding_start(image: Seq<u32>, end: int, from: int)
    requires
        16 <= end <= from <= image.len(),
        image[end - 1] != 0,
        forall|i: int| end <= i < from ==> image[i] == 0,
    ensures
        padding_start(image, from) == end,
    decreases from - end,
{
    if from > end {
        lemma_padding_start(image, end, from - 1);
    }
}

/// The scan for the header, started `2 * k` dwords behind it, finds it if
/// nothing in between looks like it.
proof fn lemma_header_start(image: Seq<u32>, start: int, key: u32, k: int)
    requires
        16 <= start,
        0 <= k,
        header_at(image, start, key),
        forall|j: int| 1 <= j <= k ==> !header_at(image, start + #[trigger] scan_stop(j), key),
    ensures
        header_start(image, start + 2 * k, key) == start,
    decreases k,
{
    if k > 0 {
        assert(!header_at(image, start + scan_stop(k), key));
        lemma_header_start(image, start, key, k - 1);
    }
}

/// Round trip through a file: where a linker has stored records behind a DOS
/// stub, the structure is found where it was put, the records read from it
/// are the records that were stored, and the checksum over the stub and
/// those records is the key found in the file.
///
/// This holds if the DOS stub is a whole DOS header whose `e_lfanew` points
/// behind the padding, the key is not zero (a zero key cannot be told from
/// padding), and no pair of records, once encoded, looks like the header.
pub proof fn lemma_round_trip_in_file(
    stub: Seq<u32>,
    records: Seq<RichRecord>,
    padding: nat,
    rest: Seq<u32>,
)
    requires
        stub.len() >= 16,
        stub[15] / 4 == stub.len() + 2 * records.len() + 6 + padding,
        checksum_of(stub, records) != 0,
        no_false_header(checksum_of(stub, records), records),
    ensures
        ({
            let file = linked_header(stub, records, padding, rest);
            let start = stub.len() as int;
            let end = start + 2 * records.len() + 6;
            &&& locate(file) == Ok::<(int, int), RichError>((start, end))
            &&& file.subrange(0, start) == stub
            &&& image_records(file.subrange(start, end)) == records
            &&& file[start + 1] == checksum_of(stub, image_records(file.subrange(start, end)))
        }),
{
    let key = checksum_of(stub, records);
    let encoded = encoded_image(key, records);
    let file = linked_header(stub, records, padding, rest);
    let start = stub.len() as int;
    let n = records.len() as int;
    let end = start + 2 * n + 6;
    let head_len = end + padding;
    assert(file[15] == stub[15]);
    let image = file.subrange(0, (file[15] / 4) as int);
    assert(image.len() == head_len);
    assert forall|i: int| 0 <= i < encoded.len() implies image[start + i] == encoded[i] by {}
    assert forall|i: int| end <= i < head_len implies image[i] == 0 by {}
    assert(image[end - 1] == encoded[2 * n + 5]);
    lemma_padding_start(image, end, head_len);
    assert(image[end - 2] == encoded[2 * n + 4]);
    assert(header_at(image, start, key)) by {
        assert(image[start] == encoded[0]);
        assert(image[start + 1] == encoded[1]);
        assert(image[start + 2] == encoded[2]);
        assert(image[start + 3] == encoded[3]);
    }
    assert forall|j: int| 1 <= j <= n implies !header_at(
        image,
        start + #[trigger] scan_stop(j),
        key,
    ) by {
        assert(!header_at(encoded, scan_stop(j), key));
        assert(image[start + 2 * j] == encoded[2 * j]);
        assert(image[start + 2 * j + 1] == encoded[2 * j + 1]);
        assert(image[start + 2 * j + 2] == encoded[2 * j + 2]);
        assert(image[start + 2 * j + 3] == encoded[2 * j + 3]);
    }
    lemma_header_start(image, start, key, n);
    assert(file.subrange(0, start) =~= stub);
    assert(file.subrange(start, end) =~= encoded);
    lemma_round_trip(stub, records);
}

/// Records of which none packs to the header's marker with a count of zero
/// hold nothing, once encoded, that the scan takes for the header.
pub proof fn lemma_no_false_header(key: u32, records: Seq<RichRecord>)
    requires
        forall|i: int|
            0 <= i < records.len() ==> !((#[trigger] records[i]).packed() == DANS_MARKER
                && records[i].count == 0),
    ensures
        no_false_header(key, records),
{
    let encoded = encoded_image(key, records);
    assert forall|k: int| 1 <= k <= records.len() implies !header_at(
        encoded,
        #[trigger] scan_stop(k),
        key,
    ) by {
        if k == 1 {
            assert(encoded[2] == key);
            assert(key != 0x536e6144u32 ^ key) by (bit_vector);
        } else {
            let packed = records[k - 2].packed();
            let count = records[k - 2].count;
            assert(encoded[2 * k] == packed ^ key);
            assert(encoded[2 * k + 1] == count ^ key);
            if packed ^ key == DANS_MARKER ^ key && count ^ key == key {
                assert(packed == 0x536e6144u32) by (bit_vector)
                    requires
                        packed ^ key == 0x536e6144u32 ^ key,
                ;
                assert(count == 0) by (bit_vector)
                    requires
                        count ^ key == key,
                ;
            }
        }
    }
}

/// Round trip through `encode`: put what [`RichStructure::encode`] writes
/// for `records` behind the DOS stub `stub` that it was called with, and let
/// the stub's `e_lfanew` point to the end of the two. Then the structure is
/// found where it was written, its records are `records`, and its checksum
/// is its key.
///
/// As in a linked file, the key must not be zero and no pair of encoded
/// records may look like the header.
pub proof fn lemma_round_trip_encoded(stub: Seq<u32>, records: Seq<RichRecord>, dest: Seq<u32>)
    requires
        stub.len() >= 16,
        dest.len() >= 2 * records.len() + 6,
        dest.subrange(0, 2 * records.len() as int + 6) == encoded_image(
            checksum_of(stub, records),
            records,
        ),
        forall|i: int| 2 * records.len() + 6 <= i < dest.len() ==> dest[i] == 0,
        stub[15] / 4 == stub.len() + dest.len(),
        checksum_of(stub, records) != 0,
        no_false_header(checksum_of(stub, records), records),
    ensures
        ({
            let file = stub + dest;
            let start = stub.len() as int;
            let end = start + 2 * records.len() + 6;
            &&& locate(file) == Ok::<(int, int), RichError>((start, end))
            &&& file.subrange(0, start) == stub
            &&& image_records(file.subrange(start, end)) == records
            &&& file[start + 1] == checksum_of(stub, image_records(file.subrange(start, end)))
        }),
{
    let used = 2 * records.len() + 6;
    let padding = (dest.len() - used) as nat;
    let encoded = encoded_image(checksum_of(stub, records), records);
    assert(dest.subrange(0, used as int).len() == encoded.len());
    assert forall|i: int| 0 <= i < used implies dest[i] == encoded[i] by {
        assert(dest.subrange(0, used as int)[i] == dest[i]);
    }
    assert(stub + dest =~= linked_header(stub, records, padding, Seq::empty()));
    lemma_round_trip_in_file(stub, records, padding, Seq::empty());
}

/// How many bytes at the start of a file are searched for the structure.
pub const RICH_SEARCH_SIZE: usize = 0x400;

/// The Rich records of an image and the key that they are stored under.
#[derive(Clone, Debug, PartialEq, Eq, Hash)]
pub struct RichTable {
    pub rich_entries: Vec<RichRecord>,
    pub key: u32,
}

/// The key and the records that the Rich structure of a file holds. A file
/// of less than `0x400` bytes, or one without the structure in the dwords of
/// its first `0x400` bytes, gives the key zero and no records.
pub open spec fn rich_table_of(data: Seq<u8>) -> (u32, Seq<RichRecord>) {
    if data.len() < RICH_SEARCH_SIZE {
        (0u32, Seq::empty())
    } else {
        let words = dwords_of(data.subrange(0, RICH_SEARCH_SIZE as int));
        match locate(words) {
            Ok((start, end)) => (words[start + 1], image_records(words.subrange(start, end))),
            Err(_) => (0u32, Seq::empty()),
        }
    }
}

impl RichTable {
    /// Reads the Rich records of an image. An image without a Rich
    /// structure has none: that is no error.
    pub fn parse(image: &Image) -> (r: RichTable)
        ensures
            (r.key, r.rich_entries@) == rich_table_of(image.data@),
    {
        let mut rich_table = RichTable { rich_entries: Vec::new(), key: 0 };
        let data = image.data.as_slice();
        if data.len() < RICH_SEARCH_SIZE {
            return rich_table;
        }
        let words = read_dwords(vstd::slice::slice_subrange(data, 0, RICH_SEARCH_SIZE));
        let rich_header = match RichStructure::try_from(words.as_slice()) {
            Ok(rich) => rich,
            Err(_) => {
                return rich_table;
            },
        };
        let key: u32 = rich_header.xor_key();
        rich_table.key = key;
        let mut iter = rich_header.records();
        let ghost all = iter.remaining();
        proof {
            assert(data@.subrange(0, RICH_SEARCH_SIZE as int) =~= image.data@.subrange(
                0,
                RICH_SEARCH_SIZE as int,
            ));
            let (start, end) = locate(words@).unwrap();
            assert(rich_header.words() == words@.subrange(start, end));
            assert(key == words@[start + 1]);
            assert((key, all) == rich_table_of(image.data@));
        }
        loop
            invariant
                rich_table.key == key,
                rich_table.rich_entries@ + iter.remaining() == all,
            ensures
                rich_table.key == key,
                rich_table.rich_entries@ == all,
            decreases iter.remaining().len(),
        {
            let ghost before = iter.remaining();
            match iter.next() {
                Some(record) => {
                    rich_table.rich_entries.push(record);
                    assert(rich_table.rich_entries@ + iter.remaining() =~= all) by {
                        assert(before =~= seq![record] + before.skip(1));
                    }
                },
                None => {
                    assert(rich_table.rich_entries@ + iter.remaining()
                        =~= rich_table.rich_entries@);
                    break ;
                },
            }
        }
        rich_table
    }
}

} // verus!
