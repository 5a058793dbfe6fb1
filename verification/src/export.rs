//! The export table: the functions that the image offers to others.
//!
//! The export directory holds three tables. The function table has one
//! dword for each ordinal, counted from `base`. The name table and the
//! name-ordinal table run in parallel: the `i`-th name belongs to the
//! function whose index the `i`-th name-ordinal gives. A function whose
//! dword points into the export directory itself is forwarded: the dword is
//! the address of the name of the function that stands in for it.
//!
//! The tables are resolved in two rounds of candidates. The first round
//! walks the indices `0..number_of_functions`: index `i` stands for the slot
//! that the name-ordinal table gives at `i`, or for slot `i` where that
//! table has no item `i`, and carries the `i`-th name. The second round
//! walks the slots of the function table themselves, without names. Each
//! candidate claims the ordinal of its slot; the first to claim an ordinal
//! keeps it. A candidate whose slot lies beyond the function table claims
//! nothing. So a slot that no name leads to is still listed, a table whose
//! name-ordinals alias each other still gives each ordinal once, and there
//! are never more entries than functions.

use vstd::prelude::*;
use std::collections::HashMap;
use crate::bytes::{cstring_at, read_cstring, u16_at, u16_le, u32_at, u32_le};
use crate::error::{AddressError, PeError};
use crate::image::{Image, DIRECTORY_EXPORT};
use crate::text::{escape, escaped_text, show, shown, text_of, utf8_text};

verus! {

broadcast use vstd::std_specs::hash::group_hash_axioms;

/// The size of the export directory's header.
pub const EXPORT_HEADER_SIZE: usize = 40;

/// How many ordinals there are.
pub const ORDINALS: usize = 0x1_0000;

/// One exported function.
#[derive(Clone, Debug, PartialEq, Eq, PartialOrd, Ord)]
pub struct ExportEntry {
    pub name: Option<String>,
    pub ordinal: u16,
    /// The function's RVA. `None` for a forwarded function.
    pub rva: Option<u32>,
    /// For a forwarded function, the name that it is forwarded to.
    pub forwarded_name: Option<String>,
}

/// The export directory and its entries, sorted by ordinal.
#[derive(Clone, Debug, PartialEq, Eq, PartialOrd, Ord)]
pub struct Exports {
    pub characteristics: u32,
    pub major_version: u16,
    pub minor_version: u16,
    pub export_file_name: String,
    pub base: u32,
    pub number_of_functions: u32,
    pub number_of_names: u32,
    pub address_of_functions: u32,
    pub address_of_names: u32,
    pub address_of_names_ordinals: u32,
    pub timestamp: u32,
    pub entries: Vec<ExportEntry>,
}

/// Where the export directory and its tables lie, and what its header says.
#[derive(Copy, Clone, Debug)]
pub struct ExportLayout {
    /// The RVAs from `start` up to `end` belong to the directory itself.
    pub start: u32,
    pub end: u32,
    pub characteristics: u32,
    pub timestamp: u32,
    pub major_version: u16,
    pub minor_version: u16,
    pub name: u32,
    pub base: u32,
    pub number_of_functions: u32,
    pub number_of_names: u32,
    pub address_of_functions: u32,
    pub address_of_names: u32,
    pub address_of_name_ordinals: u32,
    /// The file offset of the function table.
    pub functions: usize,
    /// The file offset of the name table, if all of it can be read.
    pub names: Option<usize>,
    /// The file offset of the name-ordinal table, if all of it can be read.
    pub name_ordinals: Option<usize>,
    /// The file offset of the name of the file that the directory describes.
    pub file_name: usize,
}

/// What one function index resolves to.
pub struct ExportFacts {
    pub ordinal: u16,
    pub name: Option<Seq<char>>,
    pub rva: Option<u32>,
    pub forwarded_name: Option<Seq<char>>,
}

/// The file offset of a table of `size` bytes at `rva`, or why it cannot be
/// read.
pub open spec fn table_at(image: Image, rva: u32, size: int) -> Result<usize, AddressError> {
    match image.translated(rva) {
        Ok(at) => if at + size <= image.data@.len() {
            Ok(at)
        } else {
            Err(AddressError::OutOfBounds)
        },
        Err(e) => Err(e),
    }
}

/// The layout of the export directory, or why the directory cannot be read.
///
/// The header and the function table must be readable, and the address of
/// the file name must translate. The name table and the name-ordinal table
/// may be missing: an image without them exports by ordinal only.
pub open spec fn export_layout(image: Image) -> Result<ExportLayout, PeError> {
    match image.directory(DIRECTORY_EXPORT) {
        None => Err(PeError::DirectoryAbsent),
        Some(dir) => match table_at(image, dir.rva, EXPORT_HEADER_SIZE as int) {
            Err(e) => Err(PeError::of_address(e)),
            Ok(at) => {
                let s = image.data@;
                let count = u32_at(s, at + 20);
                let names = u32_at(s, at + 24);
                match table_at(image, u32_at(s, at + 28) as u32, 4 * count) {
                    Err(e) => Err(PeError::of_address(e)),
                    Ok(functions) => match image.translated(u32_at(s, at + 12) as u32) {
                        Err(e) => Err(PeError::of_address(e)),
                        Ok(file_name) => Ok(
                            ExportLayout {
                                start: dir.rva,
                                end: if dir.rva + dir.size > u32::MAX {
                                    u32::MAX
                                } else {
                                    (dir.rva + dir.size) as u32
                                },
                                characteristics: u32_at(s, at as int) as u32,
                                timestamp: u32_at(s, at + 4) as u32,
                                major_version: u16_at(s, at + 8) as u16,
                                minor_version: u16_at(s, at + 10) as u16,
                                name: u32_at(s, at + 12) as u32,
                                base: u32_at(s, at + 16) as u32,
                                number_of_functions: count as u32,
                                number_of_names: names as u32,
                                address_of_functions: u32_at(s, at + 28) as u32,
                                address_of_names: u32_at(s, at + 32) as u32,
                                address_of_name_ordinals: u32_at(s, at + 36) as u32,
                                functions,
                                names: match table_at(image, u32_at(s, at + 32) as u32, 4 * names) {
                                    Ok(t) => Some(t),
                                    Err(_) => None,
                                },
                                name_ordinals: match table_at(
                                    image,
                                    u32_at(s, at + 36) as u32,
                                    2 * names,
                                ) {
                                    Ok(t) => Some(t),
                                    Err(_) => None,
                                },
                                file_name,
                            },
                        ),
                    },
                }
            },
        },
    }
}

impl ExportLayout {
    /// How many candidates there are: two rounds over the function table.
    pub open spec fn candidates(self) -> int {
        2 * self.number_of_functions
    }

    /// The slot of the function table that candidate `index` stands for.
    /// In the first round: what the name-ordinal table says at `index`, or
    /// `index` itself where the table has no such item. In the second
    /// round: the slots in order.
    pub open spec fn target(self, image: Image, index: int) -> int {
        if index >= self.number_of_functions {
            index - self.number_of_functions
        } else {
            match self.name_ordinals {
                Some(at) => if index < self.number_of_names {
                    u16_at(image.data@, at + 2 * index)
                } else {
                    index
                },
                None => index,
            }
        }
    }

    /// The ordinal of candidate `index`: its slot counted from `base`, in 16
    /// bits.
    pub open spec fn ordinal(self, image: Image, index: int) -> int {
        (self.base + self.target(image, index)) % (ORDINALS as int)
    }

    /// The name of candidate `index`: in the first round the item of the
    /// name table at `index`, if there is one and the string it points to
    /// can be read; none in the second round.
    pub open spec fn name(self, image: Image, index: int) -> Option<Seq<char>> {
        match self.names {
            Some(at) => if index < self.number_of_names && index < self.number_of_functions {
                match image.translated(u32_at(image.data@, at + 4 * index) as u32) {
                    Ok(name_at) => match cstring_at(image.data@, name_at as int) {
                        Some(bytes) => Some(shown(bytes)),
                        None => None,
                    },
                    Err(_) => None,
                }
            } else {
                None
            },
            None => None,
        }
    }

    /// Whether `value`, found in the function table, points into the export
    /// directory itself.
    pub open spec fn forwards(self, value: int) -> bool {
        self.start <= value < self.end
    }

    /// The name that a function is forwarded to, read at `rva`.
    pub open spec fn forwarder(image: Image, rva: u32) -> Option<Seq<char>> {
        match image.translated(rva) {
            Ok(at) => match cstring_at(image.data@, at as int) {
                Some(bytes) => text_of(bytes),
                None => None,
            },
            Err(_) => None,
        }
    }

    /// Whether candidate `index` stands for a slot of the function table. A
    /// candidate that does not gives no entry.
    pub open spec fn live(self, image: Image, index: int) -> bool {
        0 <= self.target(image, index) < self.number_of_functions
    }

    /// What a live candidate `index` resolves to: a function's address if
    /// its slot points outside the export directory, else the forwarder read
    /// at the place the slot points to.
    pub open spec fn facts(self, image: Image, index: int) -> ExportFacts {
        let slot = self.target(image, index);
        let value = u32_at(image.data@, self.functions + 4 * slot);
        ExportFacts {
            ordinal: self.ordinal(image, index) as u16,
            name: self.name(image, index),
            rva: if !self.forwards(value) {
                Some(value as u32)
            } else {
                None
            },
            forwarded_name: if self.forwards(value) {
                Self::forwarder(image, value as u32)
            } else {
                None
            },
        }
    }

    /// The first live candidate below `n` whose ordinal is `ordinal`.
    pub open spec fn first_index(self, image: Image, ordinal: int, n: int) -> Option<int>
        decreases n,
    {
        if n <= 0 {
            None
        } else {
            match self.first_index(image, ordinal, n - 1) {
                Some(i) => Some(i),
                None => if self.live(image, n - 1) && self.ordinal(image, n - 1) == ordinal {
                    Some(n - 1)
                } else {
                    None
                },
            }
        }
    }

    /// The candidates that give the entries with ordinals below `upto`, in
    /// the order of their ordinals: for each ordinal that some live
    /// candidate has, the first live candidate that has it.
    pub open spec fn winners(self, image: Image, upto: int) -> Seq<int>
        decreases upto,
    {
        if upto <= 0 {
            Seq::empty()
        } else {
            match self.first_index(image, upto - 1, self.candidates()) {
                Some(i) => self.winners(image, upto - 1).push(i),
                None => self.winners(image, upto - 1),
            }
        }
    }

    /// The text of the file name: the escaped form of the string at
    /// `file_name`, or nothing where no string can be read there.
    pub open spec fn file_name_text(self, image: Image) -> Seq<char> {
        match cstring_at(image.data@, self.file_name as int) {
            Some(bytes) => escaped_text(bytes),
            None => Seq::empty(),
        }
    }
}

impl ExportEntry {
    /// The entry in spec terms.
    pub open spec fn facts(self) -> ExportFacts {
        ExportFacts {
            ordinal: self.ordinal,
            name: match self.name {
                Some(n) => Some(n@),
                None => None,
            },
            rva: self.rva,
            forwarded_name: match self.forwarded_name {
                Some(n) => Some(n@),
                None => None,
            },
        }
    }
}

impl Exports {
    /// Whether this is what the export directory with layout `l` holds.
    pub open spec fn describes(self, image: Image, l: ExportLayout) -> bool {
        let winners = l.winners(image, ORDINALS as int);
        &&& self.characteristics == l.characteristics
        &&& self.major_version == l.major_version
        &&& self.minor_version == l.minor_version
        &&& self.export_file_name@ == l.file_name_text(image)
        &&& self.base == l.base
        &&& self.number_of_functions == l.number_of_functions
        &&& self.number_of_names == l.number_of_names
        &&& self.address_of_functions == l.address_of_functions
        &&& self.address_of_names == l.address_of_names
        &&& self.address_of_names_ordinals == l.address_of_name_ordinals
        &&& self.timestamp == l.timestamp
        &&& self.entries@.len() == winners.len()
        &&& forall|k: int|
            0 <= k < winners.len() ==> (#[trigger] self.entries@[k]).facts() == l.facts(
                image,
                winners[k],
            )
    }
}

/// What `first_index` finds is a live candidate below `n` with that ordinal.
pub proof fn lemma_first_index(l: ExportLayout, image: Image, ordinal: int, n: int)
    ensures
        l.first_index(image, ordinal, n) matches Some(i) ==> 0 <= i < n && l.live(image, i)
            && l.ordinal(image, i) == ordinal,
    decreases n,
{
    if n > 0 {
        lemma_first_index(l, image, ordinal, n - 1);
    }
}

/// The winners are live and come in the order of their ordinals, which are
/// all different and below `upto`.
pub proof fn lemma_winners_sorted(l: ExportLayout, image: Image, upto: int)
    ensures
        forall|k: int|
            0 <= k < l.winners(image, upto).len() ==> 0 <= #[trigger] l.winners(image, upto)[k]
                < l.candidates() && 0 <= l.ordinal(image, l.winners(image, upto)[k]) < upto
                && l.live(image, l.winners(image, upto)[k]),
        forall|a: int, b: int|
            0 <= a < b < l.winners(image, upto).len() ==> l.ordinal(
                image,
                #[trigger] l.winners(image, upto)[a],
            ) < l.ordinal(image, #[trigger] l.winners(image, upto)[b]),
    decreases upto,
{
    if upto > 0 {
        lemma_winners_sorted(l, image, upto - 1);
        lemma_first_index(l, image, upto - 1, l.candidates());
        let before = l.winners(image, upto - 1);
        let now = l.winners(image, upto);
        assert forall|k: int| 0 <= k < now.len() implies 0 <= #[trigger] now[k]
            < l.candidates() && 0 <= l.ordinal(image, now[k]) < upto && l.live(
            image,
            now[k],
        ) by {
            if k < before.len() {
                assert(now[k] == before[k]);
            }
        }
        assert forall|a: int, b: int| 0 <= a < b < now.len() implies l.ordinal(
            image,
            #[trigger] now[a],
        ) < l.ordinal(image, #[trigger] now[b]) by {
            assert(now[a] == before[a]);
            if b < before.len() {
                assert(now[b] == before[b]);
            }
        }
    }
}

/// Numbers that are all different and lie from zero up to `n` are at most
/// `n` numbers.
pub proof fn lemma_distinct_below(s: Seq<int>, n: int)
    requires
        forall|i: int| 0 <= i < s.len() ==> 0 <= #[trigger] s[i] < n,
        forall|i: int, j: int| 0 <= i < j < s.len() ==> #[trigger] s[i] != #[trigger] s[j],
    ensures
        s.len() <= n || s.len() == 0,
    decreases n,
{
    if s.len() > 0 {
        assert(0 <= s[0] < n);
        if exists|i: int| 0 <= i < s.len() && #[trigger] s[i] == n - 1 {
            let i = choose|i: int| 0 <= i < s.len() && #[trigger] s[i] == n - 1;
            let t = s.remove(i);
            assert forall|k: int| 0 <= k < t.len() implies 0 <= #[trigger] t[k] < n - 1 by {
                if k < i {
                    assert(t[k] == s[k]);
                } else {
                    assert(t[k] == s[k + 1]);
                }
            }
            assert forall|a: int, b: int| 0 <= a < b < t.len() implies #[trigger] t[a]
                != #[trigger] t[b] by {
                let x = if a < i { a } else { a + 1 };
                let y = if b < i { b } else { b + 1 };
                assert(t[a] == s[x]);
                assert(t[b] == s[y]);
            }
            lemma_distinct_below(t, n - 1);
        } else {
            assert forall|k: int| 0 <= k < s.len() implies 0 <= #[trigger] s[k] < n - 1 by {}
            lemma_distinct_below(s, n - 1);
        }
    }
}

/// There are no more winners than functions: each winner stands for a slot
/// of the function table, and no two for the same.
pub proof fn lemma_winners_count(l: ExportLayout, image: Image)
    ensures
        l.winners(image, ORDINALS as int).len() <= l.number_of_functions,
{
    lemma_winners_sorted(l, image, ORDINALS as int);
    let winners = l.winners(image, ORDINALS as int);
    let slots = Seq::new(winners.len(), |k: int| l.target(image, winners[k]));
    assert forall|i: int| 0 <= i < slots.len() implies 0 <= #[trigger] slots[i]
        < l.number_of_functions by {
        assert(l.live(image, winners[i]));
    }
    assert forall|i: int, j: int| 0 <= i < j < slots.len() implies #[trigger] slots[i]
        != #[trigger] slots[j] by {
        assert(l.ordinal(image, winners[i]) < l.ordinal(image, winners[j]));
    }
    lemma_distinct_below(slots, l.number_of_functions as int);
}

/// Every slot of the function table is a function or a forwarder, never
/// both: a candidate has an address exactly when its slot points outside the
/// export directory, and only one that points inside has a forwarder.
pub proof fn lemma_function_or_forwarder(l: ExportLayout, image: Image, index: int)
    ensures
        ({
            let found = l.facts(image, index);
            let value = u32_at(image.data@, l.functions + 4 * l.target(image, index));
            if l.forwards(value) {
                found.rva.is_none() && found.forwarded_name == ExportLayout::forwarder(
                    image,
                    value as u32,
                )
            } else {
                found.rva == Some(value as u32) && found.forwarded_name.is_none()
            }
        }),
{
}

/// No two entries of an export table share an ordinal: the entries are
/// sorted by ordinal, strictly.
pub proof fn lemma_ordinals_unique(exports: Exports, image: Image, l: ExportLayout)
    requires
        exports.describes(image, l),
    ensures
        forall|a: int, b: int|
            0 <= a < b < exports.entries@.len() ==> (#[trigger] exports.entries@[a]).ordinal < (
            #[trigger] exports.entries@[b]).ordinal,
{
    lemma_winners_sorted(l, image, ORDINALS as int);
    let winners = l.winners(image, ORDINALS as int);
    assert forall|a: int, b: int| 0 <= a < b < exports.entries@.len() implies (
    #[trigger] exports.entries@[a]).ordinal < (#[trigger] exports.entries@[b]).ordinal by {
        assert(exports.entries@[a].facts() == l.facts(image, winners[a]));
        assert(exports.entries@[b].facts() == l.facts(image, winners[b]));
        assert(l.ordinal(image, winners[a]) < l.ordinal(image, winners[b]));
    }
}

impl ExportLayout {
    /// Finds a table of `size` bytes.
    fn find_table(image: &Image, rva: u32, size: u64) -> (r: Result<usize, AddressError>)
        ensures
            r == table_at(*image, rva, size as int),
    {
        assert(image.data.len() == image.data@.len());
        match image.translate(rva) {
            Ok(at) => {
                if size <= (image.data.len() - at) as u64 {
                    Ok(at)
                } else {
                    Err(AddressError::OutOfBounds)
                }
            },
            Err(e) => Err(e),
        }
    }

    /// Reads the header of the export directory and finds its tables.
    pub fn read(image: &Image) -> (r: Result<ExportLayout, PeError>)
        ensures
            r == export_layout(*image),
    {
        let dir = match image.data_directory(DIRECTORY_EXPORT) {
            Some(d) => d,
            None => {
                return Err(PeError::DirectoryAbsent);
            },
        };
        let at: usize = match Self::find_table(image, dir.rva, EXPORT_HEADER_SIZE as u64) {
            Ok(a) => a,
            Err(e) => {
                return Err(PeError::from_address(e));
            },
        };
        let data = image.data.as_slice();
        assert(data.len() == data@.len());
        let count: u32 = u32_le(data, at + 20);
        let names: u32 = u32_le(data, at + 24);
        let address_of_functions: u32 = u32_le(data, at + 28);
        let address_of_names: u32 = u32_le(data, at + 32);
        let address_of_name_ordinals: u32 = u32_le(data, at + 36);
        let name: u32 = u32_le(data, at + 12);
        let functions: usize = match Self::find_table(image, address_of_functions, 4 * (count as u64)) {
            Ok(f) => f,
            Err(e) => {
                return Err(PeError::from_address(e));
            },
        };
        let file_name: usize = match image.translate(name) {
            Ok(f) => f,
            Err(e) => {
                return Err(PeError::from_address(e));
            },
        };
        Ok(
            ExportLayout {
                start: dir.rva,
                end: dir.rva.saturating_add(dir.size),
                characteristics: u32_le(data, at),
                timestamp: u32_le(data, at + 4),
                major_version: u16_le(data, at + 8),
                minor_version: u16_le(data, at + 10),
                name,
                base: u32_le(data, at + 16),
                number_of_functions: count,
                number_of_names: names,
                address_of_functions,
                address_of_names,
                address_of_name_ordinals,
                functions,
                names: match Self::find_table(image, address_of_names, 4 * (names as u64)) {
                    Ok(t) => Some(t),
                    Err(_) => None,
                },
                name_ordinals: match Self::find_table(image, address_of_name_ordinals, 2 * (names as u64)) {
                    Ok(t) => Some(t),
                    Err(_) => None,
                },
                file_name,
            },
        )
    }

    /// Computes [`ExportLayout::target`].
    fn target_of(&self, image: &Image, index: u64) -> (r: u32)
        requires
            export_layout(*image) == Ok::<ExportLayout, PeError>(*self),
            index < self.candidates(),
        ensures
            r == self.target(*image, index as int),
    {
        assert(image.data.len() == image.data@.len());
        if index >= self.number_of_functions as u64 {
            return (index - self.number_of_functions as u64) as u32;
        }
        match self.name_ordinals {
            Some(at) => if index < self.number_of_names as u64 {
                u16_le(image.data.as_slice(), at + 2 * (index as usize)) as u32
            } else {
                index as u32
            },
            None => index as u32,
        }
    }

    /// Computes [`ExportLayout::ordinal`].
    fn ordinal_of(&self, image: &Image, index: u64) -> (r: u16)
        requires
            export_layout(*image) == Ok::<ExportLayout, PeError>(*self),
            index < self.candidates(),
        ensures
            r == self.ordinal(*image, index as int),
    {
        let slot: u32 = self.target_of(image, index);
        ((self.base as u64 + slot as u64) % (ORDINALS as u64)) as u16
    }

    /// Reads the string at `rva`.
    fn string_at(image: &Image, rva: u32) -> (r: Option<Vec<u8>>)
        ensures
            match r {
                Some(v) => image.translated(rva) matches Ok(at) && cstring_at(
                    image.data@,
                    at as int,
                ) == Some(v@),
                None => image.translated(rva) matches Ok(at) ==> cstring_at(
                    image.data@,
                    at as int,
                ).is_none(),
            },
    {
        match image.translate(rva) {
            Ok(at) => read_cstring(image.data.as_slice(), at),
            Err(_) => None,
        }
    }

    /// Resolves the live candidate `index`.
    fn entry(&self, image: &Image, index: u64) -> (r: ExportEntry)
        requires
            export_layout(*image) == Ok::<ExportLayout, PeError>(*self),
            index < self.candidates(),
            self.live(*image, index as int),
        ensures
            r.facts() == self.facts(*image, index as int),
    {
        let data = image.data.as_slice();
        assert(data.len() == data@.len());
        let name: Option<String> = match self.names {
            Some(at) => if index < self.number_of_names as u64 && index
                < self.number_of_functions as u64 {
                let name_rva: u32 = u32_le(data, at + 4 * (index as usize));
                match Self::string_at(image, name_rva) {
                    Some(bytes) => Some(show(bytes.as_slice())),
                    None => None,
                }
            } else {
                None
            },
            None => None,
        };
        let slot: u32 = self.target_of(image, index);
        let ordinal: u16 = self.ordinal_of(image, index);
        let mut rva: Option<u32> = None;
        let mut forwarded_name: Option<String> = None;
        let value: u32 = u32_le(data, self.functions + 4 * (slot as usize));
        if self.start <= value && value < self.end {
            forwarded_name = match Self::string_at(image, value) {
                Some(bytes) => utf8_text(bytes.as_slice()),
                None => None,
            };
        } else {
            rva = Some(value);
        }
        ExportEntry { name, ordinal, rva, forwarded_name }
    }
}

impl Exports {
    /// Resolves the export table.
    ///
    /// Each candidate that stands for a slot of the function table gives an
    /// ordinal. Where several give the same ordinal, the first keeps it and
    /// the others are dropped; the entries come out sorted by ordinal, and
    /// there are no more of them than functions. A name or a forwarder that
    /// cannot be read is left out of its entry; the header and the function
    /// table must be readable, or nothing is returned.
    pub fn parse(image: &Image) -> (r: Result<Exports, PeError>)
        ensures
            match r {
                Ok(exports) => export_layout(*image) matches Ok(l) && exports.describes(*image, l),
                Err(e) => export_layout(*image) == Err::<ExportLayout, PeError>(e),
            },
            r matches Ok(exports) ==> forall|a: int, b: int|
                0 <= a < b < exports.entries@.len() ==> (#[trigger] exports.entries@[a]).ordinal < (
                #[trigger] exports.entries@[b]).ordinal,
            r matches Ok(exports) ==> forall|k: int|
                0 <= k < exports.entries@.len() ==> !((#[trigger] exports.entries@[k]).rva.is_some()
                    && exports.entries@[k].forwarded_name.is_some()),
            r matches Ok(exports) ==> exports.entries@.len() <= exports.number_of_functions,
    {
        let l = match ExportLayout::read(image) {
            Ok(l) => l,
            Err(e) => {
                return Err(e);
            },
        };
        let count: u64 = 2 * (l.number_of_functions as u64);

        // For each ordinal, the first live candidate that claims it.
        let mut claims: HashMap<u16, u64> = HashMap::new();
        let mut index: u64 = 0;
        while index < count
            invariant
                export_layout(*image) == Ok::<ExportLayout, PeError>(l),
                count == l.candidates(),
                index <= count,
                forall|k: int|
                    0 <= k < ORDINALS ==> (match #[trigger] l.first_index(*image, k, index as int) {
                        Some(i) => claims@.contains_key(k as u16) && claims@[k as u16] == i,
                        None => !claims@.contains_key(k as u16),
                    }),
            decreases count - index,
        {
            let slot: u32 = l.target_of(image, index);
            let ordinal: u16 = l.ordinal_of(image, index);
            if slot < l.number_of_functions && !claims.contains_key(&ordinal) {
                claims.insert(ordinal, index);
            }
            proof {
                assert forall|k: int| 0 <= k < ORDINALS implies (match #[trigger] l.first_index(
                    *image,
                    k,
                    index + 1,
                ) {
                    Some(i) => claims@.contains_key(k as u16) && claims@[k as u16] == i,
                    None => !claims@.contains_key(k as u16),
                }) by {
                    lemma_first_index(l, *image, k, index as int);
                    if k != ordinal {
                        assert(k as u16 != ordinal);
                    }
                }
            }
            index += 1;
        }

        let mut entries: Vec<ExportEntry> = Vec::new();
        let mut o: usize = 0;
        while o < ORDINALS
            invariant
                export_layout(*image) == Ok::<ExportLayout, PeError>(l),
                count == l.candidates(),
                o <= ORDINALS,
                forall|k: int|
                    0 <= k < ORDINALS ==> (match #[trigger] l.first_index(*image, k, count as int) {
                        Some(i) => claims@.contains_key(k as u16) && claims@[k as u16] == i,
                        None => !claims@.contains_key(k as u16),
                    }),
                entries@.len() == l.winners(*image, o as int).len(),
                forall|k: int|
                    0 <= k < entries@.len() ==> (#[trigger] entries@[k]).facts() == l.facts(
                        *image,
                        l.winners(*image, o as int)[k],
                    ),
            decreases ORDINALS - o,
        {
            let ordinal: u16 = o as u16;
            proof {
                lemma_first_index(l, *image, o as int, count as int);
            }
            match claims.get(&ordinal) {
                Some(winner) => {
                    let entry = l.entry(image, *winner);
                    entries.push(entry);
                },
                None => {},
            }
            o += 1;
        }

        let export_file_name: String = match read_cstring(image.data.as_slice(), l.file_name) {
            Some(bytes) => escape(bytes.as_slice()),
            None => String::new(),
        };
        let exports = Exports {
            characteristics: l.characteristics,
            major_version: l.major_version,
            minor_version: l.minor_version,
            export_file_name,
            base: l.base,
            number_of_functions: l.number_of_functions,
            number_of_names: l.number_of_names,
            address_of_functions: l.address_of_functions,
            address_of_names: l.address_of_names,
            address_of_names_ordinals: l.address_of_name_ordinals,
            timestamp: l.timestamp,
            entries,
        };
        proof {
            lemma_ordinals_unique(exports, *image, l);
            lemma_winners_count(l, *image);
            let winners = l.winners(*image, ORDINALS as int);
            assert forall|k: int| 0 <= k < exports.entries@.len() implies !((
            #[trigger] exports.entries@[k]).rva.is_some()
                && exports.entries@[k].forwarded_name.is_some()) by {
                assert(exports.entries@[k].facts() == l.facts(*image, winners[k]));
            }
        }
        Ok(exports)
    }
}

/// The export table, or `None` where [`Exports::parse`] fails.
pub fn pexp(image: &Image) -> (r: Option<Exports>)
    ensures
        match r {
            Some(exports) => export_layout(*image) matches Ok(l) && exports.describes(*image, l),
            None => export_layout(*image).is_err(),
        },
{
    match Exports::parse(image) {
        Ok(exports) => Some(exports),
        Err(_) => None,
    }
}

} // verus!
