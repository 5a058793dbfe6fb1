//! The resource directory: a tree of three levels, flattened.
//!
//! The root lists resource types, each type lists resources by name or
//! number, each resource lists languages, and each language points at a
//! data entry: the RVA and the size of the resource's bytes. A node is a
//! header of sixteen bytes followed by entries of eight bytes: an
//! identifier and a target. All offsets inside the tree count from the start
//! of the resource directory.

#![allow(non_snake_case)]
use vstd::prelude::*;
use crate::bytes::{u16_at, u16_le, u32_at, u32_le};
use crate::error::PeError;
use crate::image::{DataDirectoryEntry, Image, DIRECTORY_RESOURCE};
use crate::text::{utf16_decoded, utf16_text};

verus! {

/// The size of a node's header.
pub const NODE_HEADER_SIZE: usize = 16;

/// The size of one entry of a node.
pub const NODE_ENTRY_SIZE: usize = 8;

/// The size of a data entry.
pub const DATA_ENTRY_SIZE: usize = 16;

/// The bit that marks an identifier as the offset of a name, and a target as
/// the offset of a node.
pub const HIGH_BIT: u32 = 0x8000_0000;

/// How deep the tree is: types, names, languages.
pub const LEVELS: u8 = 3;

/// The identifier of a resource type, of a resource or of a language: a
/// number or a name.
#[derive(Clone, Debug, PartialEq, Eq, PartialOrd, Ord)]
pub enum NameOrId {
    Id(u32),
    Name(String),
}

/// An identifier in spec terms.
pub enum IdFacts {
    Id(u32),
    Name(Seq<char>),
}

/// One resource: a leaf of the tree with the identifiers on the way to it.
#[derive(Clone, Debug, PartialEq, Eq, PartialOrd, Ord)]
pub struct ResourceEntry {
    /// The name of the resource's type: its own if the type has a name,
    /// else what its number stands for.
    pub rsrc_type: String,
    /// The number of the resource's type, if the type has no name.
    pub type_id: Option<u32>,
    pub rsrc_id: NameOrId,
    pub lang_id: NameOrId,
    /// The file offset of the resource's bytes, if their RVA translates.
    pub data_start: Option<usize>,
    /// The file offset behind the resource's bytes.
    pub data_end: Option<usize>,
    /// The size of the resource in bytes. Zero where the data entry cannot
    /// be read.
    pub data_size: u32,
}

/// The resource directory: the header of its root and its leaves.
#[derive(Clone, Debug, PartialEq, Eq, PartialOrd, Ord)]
pub struct Resources {
    pub minor_version: u16,
    pub major_version: u16,
    pub number_of_id_entries: u16,
    pub number_of_named_entries: u16,
    pub timestamp: u32,
    pub resources: Vec<ResourceEntry>,
}

/// A marker for the resource directory as a whole.
#[derive(Copy, Clone, Debug)]
pub struct RsrcDirectory {
}

/// One leaf in spec terms.
pub struct LeafFacts {
    /// The identifiers of the type, of the resource and of the language.
    pub path: Seq<IdFacts>,
    pub data_start: Option<usize>,
    pub data_end: Option<usize>,
    pub data_size: u32,
}

/// What a well-known resource type number stands for.
pub open spec fn resource_type_name(id: u32) -> Seq<char> {
    match id {
        1 => "Cursor"@,
        2 => "Bitmap"@,
        3 => "Icon"@,
        4 => "Menu"@,
        5 => "Dialog"@,
        6 => "String"@,
        7 => "FontDir"@,
        8 => "Font"@,
        9 => "Accelerator"@,
        10 => "RCData"@,
        11 => "MessageTable"@,
        12 => "GroupCursor"@,
        14 => "GroupIcon"@,
        16 => "Version"@,
        17 => "DlgInclude"@,
        19 => "PlugPlay"@,
        20 => "VXD"@,
        21 => "AniCursor"@,
        22 => "AniIcon"@,
        23 => "HTML"@,
        24 => "Manifest"@,
        _ => "Unknown"@,
    }
}

/// The name of a resource type number.
pub fn resource_id_to_type(id: u32) -> (r: &'static str)
    ensures
        r@ == resource_type_name(id),
{
    match id {
        1 => "Cursor",
        2 => "Bitmap",
        3 => "Icon",
        4 => "Menu",
        5 => "Dialog",
        6 => "String",
        7 => "FontDir",
        8 => "Font",
        9 => "Accelerator",
        10 => "RCData",
        11 => "MessageTable",
        12 => "GroupCursor",
        14 => "GroupIcon",
        16 => "Version",
        17 => "DlgInclude",
        19 => "PlugPlay",
        20 => "VXD",
        21 => "AniCursor",
        22 => "AniIcon",
        23 => "HTML",
        24 => "Manifest",
        _ => "Unknown",
    }
}

/// The name of a resource type: its own, or what its number stands for.
pub fn ResolvedDirectoryID_to_string(id: &NameOrId) -> (r: String)
    ensures
        r@ == (match id.facts() {
            IdFacts::Id(n) => resource_type_name(n),
            IdFacts::Name(name) => name,
        }),
{
    match id {
        NameOrId::Id(n) => resource_id_to_type(*n).to_owned(),
        NameOrId::Name(name) => name.clone(),
    }
}

/// The file offset of the place `off` bytes into the resource directory
/// `dir`. There is none if `off` is past the directory's size or its RVA
/// does not translate.
pub open spec fn resource_offset(image: Image, dir: DataDirectoryEntry, off: int) -> Option<usize> {
    if 0 <= off <= dir.size && dir.rva + off <= u32::MAX {
        match image.translated((dir.rva + off) as u32) {
            Ok(at) => Some(at),
            Err(_) => None,
        }
    } else {
        None
    }
}

/// Where the entries of the node at `off` lie in the file and how many there
/// are, if the node's header and all its entries can be read.
pub open spec fn node_entries(image: Image, dir: DataDirectoryEntry, off: int) -> Option<
    (int, int),
> {
    match resource_offset(image, dir, off) {
        Some(at) => {
            let s = image.data@;
            let count = u16_at(s, at + 12) + u16_at(s, at + 14);
            if at + NODE_HEADER_SIZE + NODE_ENTRY_SIZE * count <= s.len() {
                Some((at + NODE_HEADER_SIZE, count))
            } else {
                None
            }
        },
        None => None,
    }
}

/// The code units of the name at `off`: a length and that many units.
pub open spec fn name_units(image: Image, dir: DataDirectoryEntry, off: int) -> Option<Seq<u16>> {
    match resource_offset(image, dir, off) {
        Some(at) => {
            let s = image.data@;
            if at + 2 <= s.len() && at + 2 + 2 * u16_at(s, at as int) <= s.len() {
                Some(Seq::new(u16_at(s, at as int) as nat, |i: int| u16_at(s, at + 2 + 2 * i) as u16))
            } else {
                None
            }
        },
        None => None,
    }
}

/// The identifier that an entry's first dword stands for: a number, or with
/// the high bit set the offset of a name. `None` if the name cannot be read
/// or is not valid UTF-16.
pub open spec fn id_of(image: Image, dir: DataDirectoryEntry, field: int) -> Option<IdFacts> {
    if field >= HIGH_BIT {
        match name_units(image, dir, field - HIGH_BIT) {
            Some(units) => match utf16_decoded(units) {
                Some(t) => Some(IdFacts::Name(t)),
                None => None,
            },
            None => None,
        }
    } else {
        Some(IdFacts::Id(field as u32))
    }
}

/// The leaf behind the data entry at `off`, reached by `path`. A data entry
/// that cannot be read counts as one with RVA and size zero.
pub open spec fn leaf_at(image: Image, dir: DataDirectoryEntry, off: int, path: Seq<IdFacts>) -> LeafFacts {
    let s = image.data@;
    let (rva, size) = match resource_offset(image, dir, off) {
        Some(at) => if at + DATA_ENTRY_SIZE <= s.len() {
            (u32_at(s, at as int) as u32, u32_at(s, at + 4) as u32)
        } else {
            (0u32, 0u32)
        },
        None => (0u32, 0u32),
    };
    match image.translated(rva) {
        Ok(start) => LeafFacts {
            path,
            data_start: Some(start),
            data_end: if start + size <= usize::MAX {
                Some((start + size) as usize)
            } else {
                None
            },
            data_size: size,
        },
        Err(_) => LeafFacts { path, data_start: None, data_end: None, data_size: size },
    }
}

/// The leaves below the entry at the file offset `entry` of a node at level
/// `depth`. `None` if anything on the way to a leaf is broken: an identifier
/// that cannot be resolved, a node that cannot be read, a leaf above the
/// third level or a node at it.
pub open spec fn entry_leaves(
    image: Image,
    dir: DataDirectoryEntry,
    entry: int,
    depth: int,
    path: Seq<IdFacts>,
) -> Option<Seq<LeafFacts>>
    decreases LEVELS - depth, 1int,
{
    let s = image.data@;
    let target = u32_at(s, entry + 4);
    match id_of(image, dir, u32_at(s, entry)) {
        None => None,
        Some(id) => if depth < LEVELS {
            if target >= HIGH_BIT {
                node_leaves(image, dir, target - HIGH_BIT, depth + 1, path.push(id))
            } else {
                None
            }
        } else {
            if target >= HIGH_BIT {
                None
            } else {
                Some(seq![leaf_at(image, dir, target, path.push(id))])
            }
        },
    }
}

/// The leaves below the entries `i`, `i + 1`, ... of a node at level
/// `depth`, in the order of the entries.
pub open spec fn entries_from(
    image: Image,
    dir: DataDirectoryEntry,
    at: int,
    i: int,
    count: int,
    depth: int,
    path: Seq<IdFacts>,
) -> Option<Seq<LeafFacts>>
    decreases LEVELS - depth, 2 + count - i,
{
    if i >= count || i < 0 {
        Some(Seq::empty())
    } else {
        match (
            entry_leaves(image, dir, at + NODE_ENTRY_SIZE * i, depth, path),
            entries_from(image, dir, at, i + 1, count, depth, path),
        ) {
            (Some(first), Some(rest)) => Some(first + rest),
            _ => None,
        }
    }
}

/// The leaves below the node at `off`, which stands at level `depth`.
pub open spec fn node_leaves(
    image: Image,
    dir: DataDirectoryEntry,
    off: int,
    depth: int,
    path: Seq<IdFacts>,
) -> Option<Seq<LeafFacts>>
    decreases LEVELS - depth, 0x2_0002int,
{
    if depth > LEVELS {
        None
    } else {
        match node_entries(image, dir, off) {
            Some((at, count)) => entries_from(image, dir, at, 0, count, depth, path),
            None => None,
        }
    }
}

/// Where a leaf hangs in the tree: the identifiers on the way to it and the
/// offset of its data entry in the resource directory.
pub struct LeafSite {
    pub path: Seq<IdFacts>,
    pub data: int,
}

/// The sites of the leaves below the entry at the file offset `entry` of a
/// node at level `depth`: what [`entry_leaves`] walks, without a look at any
/// data entry.
pub open spec fn entry_sites(
    image: Image,
    dir: DataDirectoryEntry,
    entry: int,
    depth: int,
    path: Seq<IdFacts>,
) -> Option<Seq<LeafSite>>
    decreases LEVELS - depth, 1int,
{
    let s = image.data@;
    let target = u32_at(s, entry + 4);
    match id_of(image, dir, u32_at(s, entry)) {
        None => None,
        Some(id) => if depth < LEVELS {
            if target >= HIGH_BIT {
                node_sites(image, dir, target - HIGH_BIT, depth + 1, path.push(id))
            } else {
                None
            }
        } else {
            if target >= HIGH_BIT {
                None
            } else {
                Some(seq![LeafSite { path: path.push(id), data: target }])
            }
        },
    }
}

/// The sites of the leaves below the entries `i`, `i + 1`, ... of a node.
pub open spec fn sites_from(
    image: Image,
    dir: DataDirectoryEntry,
    at: int,
    i: int,
    count: int,
    depth: int,
    path: Seq<IdFacts>,
) -> Option<Seq<LeafSite>>
    decreases LEVELS - depth, 2 + count - i,
{
    if i >= count || i < 0 {
        Some(Seq::empty())
    } else {
        match (
            entry_sites(image, dir, at + NODE_ENTRY_SIZE * i, depth, path),
            sites_from(image, dir, at, i + 1, count, depth, path),
        ) {
            (Some(first), Some(rest)) => Some(first + rest),
            _ => None,
        }
    }
}

/// The sites of the leaves below the node at `off`.
pub open spec fn node_sites(
    image: Image,
    dir: DataDirectoryEntry,
    off: int,
    depth: int,
    path: Seq<IdFacts>,
) -> Option<Seq<LeafSite>>
    decreases LEVELS - depth, 0x2_0002int,
{
    if depth > LEVELS {
        None
    } else {
        match node_entries(image, dir, off) {
            Some((at, count)) => sites_from(image, dir, at, 0, count, depth, path),
            None => None,
        }
    }
}

/// The leaves at `sites`, each read from its own data entry.
pub open spec fn leaves_at(
    image: Image,
    dir: DataDirectoryEntry,
    sites: Seq<LeafSite>,
) -> Seq<LeafFacts> {
    Seq::new(sites.len(), |k: int| leaf_at(image, dir, sites[k].data, sites[k].path))
}

/// The leaves at the sites, if there are sites.
pub open spec fn leaves_of_sites(
    image: Image,
    dir: DataDirectoryEntry,
    sites: Option<Seq<LeafSite>>,
) -> Option<Seq<LeafFacts>> {
    match sites {
        Some(sites) => Some(leaves_at(image, dir, sites)),
        None => None,
    }
}

/// The leaves below an entry are the leaves at its sites.
pub proof fn lemma_entry_leaves_by_site(
    image: Image,
    dir: DataDirectoryEntry,
    entry: int,
    depth: int,
    path: Seq<IdFacts>,
)
    ensures
        entry_leaves(image, dir, entry, depth, path) == leaves_of_sites(
            image,
            dir,
            entry_sites(image, dir, entry, depth, path),
        ),
    decreases LEVELS - depth, 1int,
{
    let s = image.data@;
    let target = u32_at(s, entry + 4);
    match id_of(image, dir, u32_at(s, entry)) {
        None => {},
        Some(id) => {
            if depth < LEVELS {
                if target >= HIGH_BIT {
                    lemma_node_leaves_by_site(
                        image,
                        dir,
                        target - HIGH_BIT,
                        depth + 1,
                        path.push(id),
                    );
                }
            } else if target < HIGH_BIT {
                let site = LeafSite { path: path.push(id), data: target };
                assert(leaves_at(image, dir, seq![site]) =~= seq![
                    leaf_at(image, dir, target, path.push(id)),
                ]);
            }
        },
    }
}

/// The leaves below the entries from `i` on are the leaves at their sites.
pub proof fn lemma_entries_by_site(
    image: Image,
    dir: DataDirectoryEntry,
    at: int,
    i: int,
    count: int,
    depth: int,
    path: Seq<IdFacts>,
)
    ensures
        entries_from(image, dir, at, i, count, depth, path) == leaves_of_sites(
            image,
            dir,
            sites_from(image, dir, at, i, count, depth, path),
        ),
    decreases LEVELS - depth, 2 + count - i,
{
    if i >= count || i < 0 {
        assert(leaves_at(image, dir, Seq::<LeafSite>::empty()) =~= Seq::<LeafFacts>::empty());
    } else {
        lemma_entry_leaves_by_site(image, dir, at + NODE_ENTRY_SIZE * i, depth, path);
        lemma_entries_by_site(image, dir, at, i + 1, count, depth, path);
        let first = entry_sites(image, dir, at + NODE_ENTRY_SIZE * i, depth, path);
        let rest = sites_from(image, dir, at, i + 1, count, depth, path);
        if first.is_some() && rest.is_some() {
            assert(leaves_at(image, dir, first.unwrap() + rest.unwrap()) =~= leaves_at(
                image,
                dir,
                first.unwrap(),
            ) + leaves_at(image, dir, rest.unwrap()));
        }
    }
}

/// The leaves of a tree are the leaves at its sites: where the leaves hang
/// is found without a look at any data entry, and what a leaf holds is read
/// from its own data entry alone. So a data entry that cannot be read, or
/// whose RVA no section covers, changes its own leaf and no other.
pub proof fn lemma_node_leaves_by_site(
    image: Image,
    dir: DataDirectoryEntry,
    off: int,
    depth: int,
    path: Seq<IdFacts>,
)
    ensures
        node_leaves(image, dir, off, depth, path) == leaves_of_sites(
            image,
            dir,
            node_sites(image, dir, off, depth, path),
        ),
    decreases LEVELS - depth, 0x2_0002int,
{
    if depth <= LEVELS {
        match node_entries(image, dir, off) {
            Some((at, count)) => {
                lemma_entries_by_site(image, dir, at, 0, count, depth, path);
            },
            None => {},
        }
    }
}

/// A leaf is listed whatever its data entry holds: with the path that led to
/// it, and without offsets where the RVA of its data translates to none.
pub proof fn lemma_leaf_without_offsets(
    image: Image,
    dir: DataDirectoryEntry,
    off: int,
    path: Seq<IdFacts>,
)
    ensures
        leaf_at(image, dir, off, path).path == path,
        leaf_at(image, dir, off, path).data_start.is_none() ==> leaf_at(
            image,
            dir,
            off,
            path,
        ).data_end.is_none(),
{
}

impl NameOrId {
    /// The identifier in spec terms.
    pub open spec fn facts(self) -> IdFacts {
        match self {
            NameOrId::Id(n) => IdFacts::Id(n),
            NameOrId::Name(t) => IdFacts::Name(t@),
        }
    }

    /// A copy of the identifier.
    pub fn copy(&self) -> (r: NameOrId)
        ensures
            r.facts() == self.facts(),
    {
        match self {
            NameOrId::Id(n) => NameOrId::Id(*n),
            NameOrId::Name(t) => NameOrId::Name(t.clone()),
        }
    }
}

impl ResourceEntry {
    /// The identifier of the entry's type.
    pub open spec fn type_facts(self) -> IdFacts {
        match self.type_id {
            Some(n) => IdFacts::Id(n),
            None => IdFacts::Name(self.rsrc_type@),
        }
    }

    /// The entry in spec terms.
    pub open spec fn facts(self) -> LeafFacts {
        LeafFacts {
            path: seq![self.type_facts(), self.rsrc_id.facts(), self.lang_id.facts()],
            data_start: self.data_start,
            data_end: self.data_end,
            data_size: self.data_size,
        }
    }

    /// Whether the entry is the leaf `leaf`, with the name of its type
    /// filled in.
    pub open spec fn is_leaf(self, leaf: LeafFacts) -> bool {
        &&& self.facts() == leaf
        &&& self.type_id matches Some(n) ==> self.rsrc_type@ == resource_type_name(n)
    }
}

/// Whether `entries` are `leaves`, one by one.
pub open spec fn entries_match(entries: Seq<ResourceEntry>, leaves: Seq<LeafFacts>) -> bool {
    &&& entries.len() == leaves.len()
    &&& forall|i: int| 0 <= i < leaves.len() ==> (#[trigger] entries[i]).is_leaf(leaves[i])
}

/// The identifiers in spec terms.
pub open spec fn path_facts(path: Seq<NameOrId>) -> Seq<IdFacts> {
    Seq::new(path.len(), |i: int| path[i].facts())
}

/// What the resource directory of an image holds: nothing if the image has
/// none; else the header of the root and the leaves, or `BadDirectory` if the
/// tree is broken.
pub open spec fn resources_of(image: Image) -> Result<Option<Seq<LeafFacts>>, PeError> {
    match image.directory(DIRECTORY_RESOURCE) {
        None => Ok(None),
        Some(dir) => match node_leaves(image, dir, 0, 1, Seq::empty()) {
            Some(leaves) => Ok(Some(leaves)),
            None => Err(PeError::BadDirectory),
        },
    }
}

/// Whether the data entry at `off` reads alike in two images: they map
/// addresses alike, are of one length and hold the same RVA and size there.
pub open spec fn same_data_entry(a: Image, b: Image, dir: DataDirectoryEntry, off: int) -> bool {
    &&& a.sections@ == b.sections@
    &&& a.data@.len() == b.data@.len()
    &&& match resource_offset(a, dir, off) {
        Some(at) => forall|i: int| at <= i < at + 8 && i < a.data@.len() ==> a.data@[i] == b.data@[i],
        None => true,
    }
}

/// A leaf is the same in two images in which its data entry reads alike.
pub proof fn lemma_leaf_of_data_entry(
    a: Image,
    b: Image,
    dir: DataDirectoryEntry,
    off: int,
    path: Seq<IdFacts>,
)
    requires
        same_data_entry(a, b, dir, off),
    ensures
        leaf_at(a, dir, off, path) == leaf_at(b, dir, off, path),
{
    assert(forall|rva: u32| a.translated(rva) == b.translated(rva));
}

/// Two images whose resource trees hang their leaves at the same sites list
/// the same leaves wherever the data entries read alike. So where one
/// image's data entry `j` holds an RVA that no section covers and the other's
/// a valid one, the two lists differ in that leaf at most.
pub proof fn lemma_other_leaves_alike(a: Image, b: Image, dir: DataDirectoryEntry, j: int)
    requires
        a.directory(DIRECTORY_RESOURCE) == Some(dir),
        b.directory(DIRECTORY_RESOURCE) == Some(dir),
        node_sites(a, dir, 0, 1, Seq::empty()) == node_sites(b, dir, 0, 1, Seq::empty()),
        node_sites(a, dir, 0, 1, Seq::empty()) matches Some(sites) && forall|k: int|
            0 <= k < sites.len() && k != j ==> same_data_entry(a, b, dir, (#[trigger] sites[k]).data),
    ensures
        resources_of(a) matches Ok(Some(first)) && resources_of(b) matches Ok(Some(second))
            && first.len() == second.len() && forall|k: int|
            0 <= k < first.len() && k != j ==> first[k] == second[k],
{
    let sites = node_sites(a, dir, 0, 1, Seq::empty()).unwrap();
    lemma_node_leaves_by_site(a, dir, 0, 1, Seq::empty());
    lemma_node_leaves_by_site(b, dir, 0, 1, Seq::empty());
    let first = leaves_at(a, dir, sites);
    let second = leaves_at(b, dir, sites);
    assert forall|k: int| 0 <= k < first.len() && k != j implies first[k] == second[k] by {
        lemma_leaf_of_data_entry(a, b, dir, sites[k].data, sites[k].path);
    }
}

/// Computes [`resource_offset`].
fn offset_in(image: &Image, dir: DataDirectoryEntry, off: u32) -> (r: Option<usize>)
    ensures
        r == resource_offset(*image, dir, off as int),
        r matches Some(at) ==> at <= image.data@.len(),
{
    if off > dir.size {
        return None;
    }
    match dir.rva.checked_add(off) {
        Some(rva) => match image.translate(rva) {
            Ok(at) => Some(at),
            Err(_) => None,
        },
        None => None,
    }
}

/// Computes [`node_entries`].
fn read_node(image: &Image, dir: DataDirectoryEntry, off: u32) -> (r: Option<(usize, usize)>)
    ensures
        match r {
            Some((at, count)) => node_entries(*image, dir, off as int) == Some(
                (at as int, count as int),
            ) && at + NODE_ENTRY_SIZE * count <= image.data@.len() && count <= 0x1_fffe,
            None => node_entries(*image, dir, off as int).is_none(),
        },
{
    let data = image.data.as_slice();
    let len: usize = data.len();
    assert(len == data@.len());
    let at: usize = match offset_in(image, dir, off) {
        Some(a) => a,
        None => {
            return None;
        },
    };
    if NODE_HEADER_SIZE > len - at {
        return None;
    }
    let count: usize = u16_le(data, at + 12) as usize + u16_le(data, at + 14) as usize;
    if NODE_ENTRY_SIZE * count > len - at - NODE_HEADER_SIZE {
        return None;
    }
    Some((at + NODE_HEADER_SIZE, count))
}

/// Reads the code units of the name at `off`.
fn read_units(image: &Image, dir: DataDirectoryEntry, off: u32) -> (r: Option<Vec<u16>>)
    ensures
        match r {
            Some(units) => name_units(*image, dir, off as int) == Some(units@),
            None => name_units(*image, dir, off as int).is_none(),
        },
{
    let data = image.data.as_slice();
    let len: usize = data.len();
    assert(len == data@.len());
    let at: usize = match offset_in(image, dir, off) {
        Some(a) => a,
        None => {
            return None;
        },
    };
    if 2 > len - at {
        return None;
    }
    let count: usize = u16_le(data, at) as usize;
    if 2 * count > len - at - 2 {
        return None;
    }
    let mut units: Vec<u16> = Vec::new();
    let mut i: usize = 0;
    while i < count
        invariant
            data@ == image.data@,
            len == data@.len(),
            i <= count,
            at + 2 + 2 * count <= len,
            units@.len() == i,
            forall|k: int| 0 <= k < i ==> units@[k] == u16_at(data@, at + 2 + 2 * k) as u16,
        decreases count - i,
    {
        units.push(u16_le(data, at + 2 + 2 * i));
        i += 1;
    }
    assert(units@ =~= name_units(*image, dir, off as int).unwrap());
    Some(units)
}

/// Computes [`id_of`].
fn read_id(image: &Image, dir: DataDirectoryEntry, field: u32) -> (r: Option<NameOrId>)
    ensures
        match r {
            Some(id) => id_of(*image, dir, field as int) == Some(id.facts()),
            None => id_of(*image, dir, field as int).is_none(),
        },
{
    if field >= HIGH_BIT {
        match read_units(image, dir, field - HIGH_BIT) {
            Some(units) => match utf16_text(units.as_slice()) {
                Some(t) => Some(NameOrId::Name(t)),
                None => None,
            },
            None => None,
        }
    } else {
        Some(NameOrId::Id(field))
    }
}

/// Computes [`leaf_at`] for the path `type_id`, `rsrc_id`, `lang_id`.
fn read_leaf(
    image: &Image,
    dir: DataDirectoryEntry,
    off: u32,
    type_id: &NameOrId,
    rsrc_id: &NameOrId,
    lang_id: NameOrId,
) -> (r: ResourceEntry)
    ensures
        r.is_leaf(
            leaf_at(
                *image,
                dir,
                off as int,
                seq![type_id.facts(), rsrc_id.facts(), lang_id.facts()],
            ),
        ),
{
    let data = image.data.as_slice();
    let len: usize = data.len();
    assert(len == data@.len());
    let mut rva: u32 = 0;
    let mut size: u32 = 0;
    match offset_in(image, dir, off) {
        Some(at) => {
            if DATA_ENTRY_SIZE <= len - at {
                rva = u32_le(data, at);
                size = u32_le(data, at + 4);
            }
        },
        None => {},
    }
    let (data_start, data_end): (Option<usize>, Option<usize>) = match image.translate(rva) {
        Ok(start) => (Some(start), start.checked_add(size as usize)),
        Err(_) => (None, None),
    };
    let (rsrc_type, known): (String, Option<u32>) = match type_id {
        NameOrId::Id(n) => (resource_id_to_type(*n).to_owned(), Some(*n)),
        NameOrId::Name(t) => (t.clone(), None),
    };
    ResourceEntry {
        rsrc_type,
        type_id: known,
        rsrc_id: rsrc_id.copy(),
        lang_id,
        data_start,
        data_end,
        data_size: size,
    }
}

/// Appending matching entries to matching entries gives matching entries.
proof fn lemma_entries_match_append(
    a: Seq<ResourceEntry>,
    x: Seq<LeafFacts>,
    b: Seq<ResourceEntry>,
    y: Seq<LeafFacts>,
)
    requires
        entries_match(a, x),
        entries_match(b, y),
    ensures
        entries_match(a + b, x + y),
{
    assert forall|i: int| 0 <= i < (x + y).len() implies (#[trigger] (a + b)[i]).is_leaf(
        (x + y)[i],
    ) by {
        if i < x.len() {
            assert((a + b)[i] == a[i]);
        } else {
            assert((a + b)[i] == b[i - x.len()]);
            assert((x + y)[i] == y[i - x.len()]);
        }
    }
}

/// Collects the leaves below the entry at the file offset `entry` of a node
/// at level `depth`, which is reached by `path`.
fn walk_entry(
    image: &Image,
    dir: DataDirectoryEntry,
    entry: usize,
    depth: u8,
    path: &Vec<NameOrId>,
) -> (r: Option<Vec<ResourceEntry>>)
    requires
        1 <= depth <= LEVELS,
        path@.len() == depth - 1,
        entry + NODE_ENTRY_SIZE <= image.data@.len(),
    ensures
        match r {
            Some(found) => entry_leaves(
                *image,
                dir,
                entry as int,
                depth as int,
                path_facts(path@),
            ) matches Some(leaves) && entries_match(found@, leaves),
            None => entry_leaves(
                *image,
                dir,
                entry as int,
                depth as int,
                path_facts(path@),
            ).is_none(),
        },
    decreases LEVELS - depth, 0int,
{
    let data = image.data.as_slice();
    assert(data.len() == data@.len());
    let ghost facts = path_facts(path@);
    let field: u32 = u32_le(data, entry);
    let target: u32 = u32_le(data, entry + 4);
    let id = match read_id(image, dir, field) {
        Some(id) => id,
        None => {
            return None;
        },
    };
    if depth < LEVELS {
        if target < HIGH_BIT {
            return None;
        }
        let mut longer: Vec<NameOrId> = Vec::new();
        if path.len() == 1 {
            longer.push(path[0].copy());
        }
        proof {
            assert(path_facts(longer@) =~= facts);
        }
        longer.push(id);
        proof {
            assert(path_facts(longer@) =~= facts.push(id.facts()));
        }
        walk(image, dir, target - HIGH_BIT, depth + 1, &longer)
    } else {
        if target >= HIGH_BIT {
            return None;
        }
        proof {
            assert(facts.push(id.facts()) =~= seq![
                path@[0].facts(),
                path@[1].facts(),
                id.facts(),
            ]);
        }
        let leaf = read_leaf(image, dir, target, &path[0], &path[1], id);
        let mut found: Vec<ResourceEntry> = Vec::new();
        found.push(leaf);
        Some(found)
    }
}

/// Collects the leaves below the node at `off`, which stands at level
/// `depth` and is reached by `path`.
fn walk(image: &Image, dir: DataDirectoryEntry, off: u32, depth: u8, path: &Vec<NameOrId>) -> (r:
    Option<Vec<ResourceEntry>>)
    requires
        1 <= depth <= LEVELS,
        path@.len() == depth - 1,
    ensures
        match r {
            Some(found) => node_leaves(
                *image,
                dir,
                off as int,
                depth as int,
                path_facts(path@),
            ) matches Some(leaves) && entries_match(found@, leaves),
            None => node_leaves(*image, dir, off as int, depth as int, path_facts(path@)).is_none(),
        },
    decreases LEVELS - depth, 1int,
{
    let (at, count): (usize, usize) = match read_node(image, dir, off) {
        Some(n) => n,
        None => {
            return None;
        },
    };
    let ghost facts = path_facts(path@);
    let ghost all = entries_from(*image, dir, at as int, 0, count as int, depth as int, facts);
    let mut out: Vec<ResourceEntry> = Vec::new();
    let ghost mut done: Seq<LeafFacts> = Seq::empty();
    let mut i: usize = 0;
    assert(image.data.len() == image.data@.len());
    assert(Seq::<LeafFacts>::empty() + all.unwrap() =~= all.unwrap());
    while i < count
        invariant
            1 <= depth <= LEVELS,
            node_leaves(*image, dir, off as int, depth as int, facts) == all,
            path@.len() == depth - 1,
            facts == path_facts(path@),
            i <= count,
            image.data@.len() <= usize::MAX,
            at + NODE_ENTRY_SIZE * count <= image.data@.len(),
            all == (match entries_from(
                *image,
                dir,
                at as int,
                i as int,
                count as int,
                depth as int,
                facts,
            ) {
                Some(rest) => Some(done + rest),
                None => None,
            }),
            entries_match(out@, done),
        decreases count - i,
    {
        let ghost next = entries_from(
            *image,
            dir,
            at as int,
            i + 1,
            count as int,
            depth as int,
            facts,
        );
        let ghost first = entry_leaves(
            *image,
            dir,
            at + NODE_ENTRY_SIZE * i,
            depth as int,
            facts,
        );
        let mut below = match walk_entry(image, dir, at + NODE_ENTRY_SIZE * i, depth, path) {
            Some(found) => found,
            None => {
                return None;
            },
        };
        proof {
            lemma_entries_match_append(out@, done, below@, first.unwrap());
            if next.is_some() {
                assert(done + (first.unwrap() + next.unwrap()) =~= (done + first.unwrap())
                    + next.unwrap());
            }
            done = done + first.unwrap();
        }
        out.append(&mut below);
        i += 1;
    }
    proof {
        assert(done + Seq::<LeafFacts>::empty() =~= done);
    }
    Some(out)
}

impl Resources {
    /// Whether this is the header of the node at the start of the resource
    /// directory `dir`.
    pub open spec fn is_root(self, image: Image, dir: DataDirectoryEntry) -> bool {
        resource_offset(image, dir, 0) matches Some(at) && {
            let s = image.data@;
            &&& self.timestamp == u32_at(s, at + 4)
            &&& self.major_version == u16_at(s, at + 8)
            &&& self.minor_version == u16_at(s, at + 10)
            &&& self.number_of_named_entries == u16_at(s, at + 12)
            &&& self.number_of_id_entries == u16_at(s, at + 14)
        }
    }

    /// Flattens the resource tree.
    ///
    /// An image without a resource directory gives `Ok(None)`. A tree whose
    /// nodes or names cannot be read gives `BadDirectory`. A data entry that
    /// cannot be read does not: its leaf is there, with size zero.
    pub fn parse(image: &Image) -> (r: Result<Option<Resources>, PeError>)
        ensures
            match r {
                Ok(None) => resources_of(*image) == Ok::<Option<Seq<LeafFacts>>, PeError>(None),
                Ok(Some(found)) => {
                    &&& resources_of(*image) matches Ok(Some(leaves))
                    &&& entries_match(found.resources@, leaves)
                    &&& image.directory(DIRECTORY_RESOURCE) matches Some(dir)
                    &&& found.is_root(*image, dir)
                },
                Err(e) => resources_of(*image) == Err::<Option<Seq<LeafFacts>>, PeError>(e),
            },
    {
        let dir = match image.data_directory(DIRECTORY_RESOURCE) {
            Some(d) => d,
            None => {
                return Ok(None);
            },
        };
        let path: Vec<NameOrId> = Vec::new();
        assert(path_facts(path@) =~= Seq::<IdFacts>::empty());
        let resources = match walk(image, dir, 0, 1, &path) {
            Some(found) => found,
            None => {
                return Err(PeError::BadDirectory);
            },
        };
        let data = image.data.as_slice();
        assert(data.len() == data@.len());
        match offset_in(image, dir, 0) {
            Some(at) => {
                if NODE_HEADER_SIZE > data.len() - at {
                    return Err(PeError::BadDirectory);
                }
                Ok(
                    Some(
                        Resources {
                            minor_version: u16_le(data, at + 10),
                            major_version: u16_le(data, at + 8),
                            number_of_id_entries: u16_le(data, at + 14),
                            number_of_named_entries: u16_le(data, at + 12),
                            timestamp: u32_le(data, at + 4),
                            resources,
                        },
                    ),
                )
            },
            None => Err(PeError::BadDirectory),
        }
    }
}

} // verus!
