//! The import table: which functions the image takes from which modules.
//!
//! The import directory is an array of descriptors of twenty bytes, closed by
//! one that is all zero. A descriptor names a module and a table of thunks,
//! closed by a zero thunk. A thunk with its highest bit set imports by
//! ordinal; any other holds the RVA of a hint followed by the function's name.

use vstd::prelude::*;
use crate::bytes::{cstring_at, read_cstring, u32_at, u32_le, u64_at, u64_le};
use crate::error::PeError;
use crate::image::{Arch, Image, DIRECTORY_IMPORT};
use crate::text::{
    ascii_chars, ascii_lowercase, ascii_string, decimal, decimal_digits, lemma_decimal_ascii,
    lowercase, lowercased, option_text, text_of, to_ascii_lowercase, utf8_text,
};

verus! {

/// The size of an import descriptor.
pub const DESCRIPTOR_SIZE: usize = 20;

/// One imported function.
#[derive(Clone, Debug, Default, PartialEq, Eq, PartialOrd, Ord)]
pub struct ImportFunction {
    /// The function's name, or its ordinal in decimal if `import_by_ordinal`.
    pub name: String,
    /// Whether the function is imported by ordinal.
    pub import_by_ordinal: bool,
}

/// One module and what is imported from it.
#[derive(Clone, Debug, Default, PartialEq, Eq, PartialOrd, Ord)]
pub struct ImportEntry {
    /// The module's name, in small letters.
    pub name: String,
    pub imports: Vec<ImportFunction>,
}

/// The import table, module by module in the order of the descriptors.
#[derive(Clone, Debug, Default, PartialEq, Eq, PartialOrd, Ord)]
pub struct Imports {
    pub modules: Vec<ImportEntry>,
}

/// A function and the module it is imported from.
#[derive(Clone, Debug)]
pub struct Import {
    /// The module's name, in small letters.
    pub dll: Option<String>,
    pub name: Option<String>,
}

/// Whether the descriptor at `off` is the all-zero one that closes the array.
pub open spec fn descriptor_is_zero(s: Seq<u8>, off: int) -> bool {
    &&& u32_at(s, off) == 0
    &&& u32_at(s, off + 4) == 0
    &&& u32_at(s, off + 8) == 0
    &&& u32_at(s, off + 12) == 0
    &&& u32_at(s, off + 16) == 0
}

/// The file offsets of the descriptors that stand at `off` in front of the
/// closing one, or `None` if the buffer ends before the array is closed.
pub open spec fn descriptors_from(s: Seq<u8>, off: int) -> Option<Seq<int>>
    decreases s.len() - off,
{
    if off < 0 || off + DESCRIPTOR_SIZE > s.len() {
        None
    } else if descriptor_is_zero(s, off) {
        Some(Seq::empty())
    } else {
        match descriptors_from(s, off + DESCRIPTOR_SIZE) {
            Some(rest) => Some(seq![off] + rest),
            None => None,
        }
    }
}

/// The width of a thunk in bytes.
pub open spec fn thunk_width(arch: Arch) -> int {
    match arch {
        Arch::X86 => 4,
        Arch::X64 => 8,
    }
}

/// The thunk stored at `off`.
pub open spec fn thunk_at(s: Seq<u8>, off: int, arch: Arch) -> int {
    match arch {
        Arch::X86 => u32_at(s, off),
        Arch::X64 => u64_at(s, off),
    }
}

/// The thunks that stand at `off` in front of the closing zero, or `None` if
/// the buffer ends before the table is closed.
pub open spec fn thunks_from(s: Seq<u8>, off: int, arch: Arch) -> Option<Seq<int>>
    decreases s.len() - off,
{
    if off < 0 || off + thunk_width(arch) > s.len() {
        None
    } else if thunk_at(s, off, arch) == 0 {
        Some(Seq::empty())
    } else {
        match thunks_from(s, off + thunk_width(arch), arch) {
            Some(rest) => Some(seq![thunk_at(s, off, arch)] + rest),
            None => None,
        }
    }
}

/// Whether a thunk imports by ordinal: its highest bit is set.
pub open spec fn thunk_is_ordinal(thunk: int, arch: Arch) -> bool {
    match arch {
        Arch::X86 => thunk >= 0x8000_0000,
        Arch::X64 => thunk >= 0x8000_0000_0000_0000,
    }
}

/// The ordinal of a thunk that imports by ordinal: its low 16 bits in a
/// 32-bit image, its low 32 bits in a 64-bit image.
pub open spec fn thunk_ordinal(thunk: int, arch: Arch) -> int {
    match arch {
        Arch::X86 => thunk % 0x1_0000,
        Arch::X64 => thunk % 0x1_0000_0000,
    }
}

/// The bytes of the name that a thunk imports: behind the two-byte hint
/// at the RVA in the thunk's low 32 bits. `None` if they cannot be read.
pub open spec fn thunk_name(image: Image, thunk: int) -> Option<Seq<u8>> {
    match image.translated((thunk % 0x1_0000_0000) as u32) {
        Ok(hint) => cstring_at(image.data@, hint + 2),
        Err(_) => None,
    }
}

/// What a thunk imports: for an import by ordinal the ordinal in decimal,
/// else the text of the function's name. `None` if the name cannot be read
/// or is not UTF-8.
pub open spec fn thunk_import(image: Image, thunk: int) -> Option<(Seq<char>, bool)> {
    if thunk_is_ordinal(thunk, image.arch) {
        Some((ascii_chars(decimal(thunk_ordinal(thunk, image.arch) as nat)), true))
    } else {
        match thunk_name(image, thunk) {
            Some(bytes) => match text_of(bytes) {
                Some(t) => Some((t, false)),
                None => None,
            },
            None => None,
        }
    }
}

/// Whether `f` is what `thunk` imports.
pub open spec fn function_matches(f: ImportFunction, image: Image, thunk: int) -> bool {
    thunk_import(image, thunk) == Some((f.name@, f.import_by_ordinal))
}

/// The RVA of the thunk table that a descriptor's imports are read from: its
/// lookup table, or its address table where it has no lookup table.
pub open spec fn lookup_rva(s: Seq<u8>, off: int) -> int {
    if u32_at(s, off) != 0 {
        u32_at(s, off)
    } else {
        u32_at(s, off + 16)
    }
}

/// The text of the module name of the descriptor at `off`, in small letters.
pub open spec fn module_name(image: Image, off: int) -> Option<Seq<char>> {
    match image.translated(u32_at(image.data@, off + 12) as u32) {
        Ok(name_at) => match cstring_at(image.data@, name_at as int) {
            Some(bytes) => text_of(ascii_lowercase(bytes)),
            None => None,
        },
        Err(_) => None,
    }
}

/// The thunks of the descriptor at `off`.
pub open spec fn module_thunks(image: Image, off: int) -> Option<Seq<int>> {
    if lookup_rva(image.data@, off) == 0 {
        None
    } else {
        match image.translated(lookup_rva(image.data@, off) as u32) {
            Ok(table) => thunks_from(image.data@, table as int, image.arch),
            Err(_) => None,
        }
    }
}

/// Whether every one of `thunks` can be resolved.
pub open spec fn thunks_readable(image: Image, thunks: Seq<int>) -> bool {
    forall|j: int| 0 <= j < thunks.len() ==> thunk_import(image, #[trigger] thunks[j]).is_some()
}

/// Whether `imports` are what `thunks` import, one by one.
pub open spec fn functions_match(
    imports: Seq<ImportFunction>,
    image: Image,
    thunks: Seq<int>,
) -> bool {
    &&& imports.len() == thunks.len()
    &&& forall|j: int|
        0 <= j < thunks.len() ==> function_matches(#[trigger] imports[j], image, thunks[j])
}

/// Whether the descriptor at `off` can be resolved: its module name and
/// every one of its imports.
pub open spec fn module_readable(image: Image, off: int) -> bool {
    &&& module_name(image, off).is_some()
    &&& module_thunks(image, off) matches Some(thunks)
    &&& thunks_readable(image, thunks)
}

/// Whether `entry` is what the descriptor at `off` resolves to.
pub open spec fn module_matches(entry: ImportEntry, image: Image, off: int) -> bool {
    &&& Some(entry.name@) == module_name(image, off)
    &&& module_thunks(image, off) matches Some(thunks)
    &&& functions_match(entry.imports@, image, thunks)
}

/// The file offsets of the import descriptors, if the image has an import
/// directory whose array can be walked to its end.
pub open spec fn import_table(image: Image) -> Option<Seq<int>> {
    match image.directory(DIRECTORY_IMPORT) {
        Some(dir) => match image.translated(dir.rva) {
            Ok(first) => descriptors_from(image.data@, first as int),
            Err(_) => None,
        },
        None => None,
    }
}

/// Whether every one of the descriptors at `offsets` can be resolved.
pub open spec fn modules_readable(image: Image, offsets: Seq<int>) -> bool {
    forall|i: int| 0 <= i < offsets.len() ==> module_readable(image, #[trigger] offsets[i])
}

/// Whether `modules` are what the descriptors at `offsets` resolve to.
pub open spec fn modules_match(modules: Seq<ImportEntry>, image: Image, offsets: Seq<int>) -> bool {
    &&& modules.len() == offsets.len()
    &&& forall|i: int|
        0 <= i < offsets.len() ==> module_matches(#[trigger] modules[i], image, offsets[i])
}

/// Whether the whole import table can be resolved.
pub open spec fn imports_readable(image: Image) -> bool {
    &&& import_table(image) matches Some(offsets)
    &&& modules_readable(image, offsets)
}

/// Whether `imports` is what the import table of the image resolves to.
pub open spec fn imports_match(imports: Imports, image: Image) -> bool {
    &&& import_table(image) matches Some(offsets)
    &&& modules_match(imports.modules@, image, offsets)
}

impl ImportFunction {
    /// Resolves one thunk.
    fn resolve(image: &Image, thunk: u64) -> (r: Option<ImportFunction>)
        requires
            image.arch == Arch::X86 ==> thunk <= u32::MAX,
        ensures
            match r {
                Some(f) => function_matches(f, *image, thunk as int),
                None => thunk_import(*image, thunk as int).is_none(),
            },
    {
        assert(image.data.len() == image.data@.len());
        let by_ordinal: bool = match image.arch {
            Arch::X86 => thunk >= 0x8000_0000,
            Arch::X64 => thunk >= 0x8000_0000_0000_0000,
        };
        if by_ordinal {
            let ordinal: u64 = match image.arch {
                Arch::X86 => thunk % 0x1_0000,
                Arch::X64 => thunk % 0x1_0000_0000,
            };
            let digits = decimal_digits(ordinal);
            proof {
                lemma_decimal_ascii(ordinal as nat);
            }
            Some(ImportFunction { name: ascii_string(digits.as_slice()), import_by_ordinal: true })
        } else {
            let rva: u32 = (thunk % 0x1_0000_0000) as u32;
            let hint: usize = match image.translate(rva) {
                Ok(h) => h,
                Err(_) => {
                    return None;
                },
            };
            if hint > usize::MAX - 2 {
                return None;
            }
            let bytes = match read_cstring(image.data.as_slice(), hint + 2) {
                Some(b) => b,
                None => {
                    return None;
                },
            };
            match utf8_text(bytes.as_slice()) {
                Some(name) => Some(ImportFunction { name, import_by_ordinal: false }),
                None => None,
            }
        }
    }

    /// Resolves the thunk table at `table`.
    fn resolve_table(image: &Image, table: usize) -> (r: Option<Vec<ImportFunction>>)
        requires
            table <= image.data@.len(),
        ensures
            match r {
                Some(imports) => thunks_from(image.data@, table as int, image.arch) matches Some(
                    thunks,
                ) && thunks_readable(*image, thunks) && functions_match(imports@, *image, thunks),
                None => thunks_from(image.data@, table as int, image.arch) matches Some(thunks)
                    ==> !thunks_readable(*image, thunks),
            },
    {
        let data = image.data.as_slice();
        let len: usize = data.len();
        assert(len == data@.len());
        let width: usize = match image.arch {
            Arch::X86 => 4,
            Arch::X64 => 8,
        };
        let mut imports: Vec<ImportFunction> = Vec::new();
        let mut at: usize = table;
        let ghost mut done: Seq<int> = Seq::empty();
        loop
            invariant
                data@ == image.data@,
                len == data@.len(),
                table <= at <= len,
                width == thunk_width(image.arch),
                thunks_from(data@, table as int, image.arch) == (match thunks_from(
                    data@,
                    at as int,
                    image.arch,
                ) {
                    Some(rest) => Some(done + rest),
                    None => None,
                }),
                thunks_readable(*image, done),
                functions_match(imports@, *image, done),
            ensures
                thunks_from(data@, table as int, image.arch) == Some(done),
                thunks_readable(*image, done),
                functions_match(imports@, *image, done),
            decreases len - at,
        {
            if width > len - at {
                return None;
            }
            let thunk: u64 = match image.arch {
                Arch::X86 => u32_le(data, at) as u64,
                Arch::X64 => u64_le(data, at),
            };
            if thunk == 0 {
                assert(done + Seq::<int>::empty() =~= done);
                break ;
            }
            proof {
                let rest = thunks_from(data@, at + width, image.arch);
                if rest.is_some() {
                    assert(done + (seq![thunk as int] + rest.unwrap()) =~= done.push(thunk as int)
                        + rest.unwrap());
                }
            }
            match ImportFunction::resolve(image, thunk) {
                Some(f) => {
                    imports.push(f);
                    proof {
                        done = done.push(thunk as int);
                    }
                },
                None => {
                    proof {
                        let all = thunks_from(data@, table as int, image.arch);
                        if all.is_some() {
                            assert(all.unwrap()[done.len() as int] == thunk);
                        }
                    }
                    return None;
                },
            }
            at += width;
        }
        Some(imports)
    }
}

impl Import {
    /// An import of `name` from `dll`, whose name is made small.
    pub fn new(dll: String, name: String) -> (r: Import)
        ensures
            r.dll matches Some(d) && d@ == lowercased(dll@),
            r.name == Some(name),
    {
        Import { dll: Some(lowercase(dll.as_str())), name: Some(name) }
    }

    /// The name of the module of the descriptor at `off`, in small letters.
    /// There is none where the descriptor does not lie in the file, or its
    /// name cannot be read or is not UTF-8.
    pub fn get_dll_imp_name(image: &Image, off: usize) -> (r: Option<String>)
        ensures
            option_text(r) == (if off + DESCRIPTOR_SIZE <= image.data@.len() {
                module_name(*image, off as int)
            } else {
                None
            }),
    {
        let data = image.data.as_slice();
        assert(data.len() == data@.len());
        if data.len() < DESCRIPTOR_SIZE || off > data.len() - DESCRIPTOR_SIZE {
            return None;
        }
        let name_rva: u32 = u32_le(data, off + 12);
        let name_at: usize = match image.translate(name_rva) {
            Ok(a) => a,
            Err(_) => {
                return None;
            },
        };
        match read_cstring(data, name_at) {
            Some(raw) => {
                let lowered = to_ascii_lowercase(raw.as_slice());
                utf8_text(lowered.as_slice())
            },
            None => None,
        }
    }
}

impl ImportEntry {
    /// Resolves the descriptor at `off`.
    fn resolve(image: &Image, off: usize) -> (r: Option<ImportEntry>)
        requires
            off + DESCRIPTOR_SIZE <= image.data@.len(),
        ensures
            match r {
                Some(entry) => module_readable(*image, off as int) && module_matches(
                    entry,
                    *image,
                    off as int,
                ),
                None => !module_readable(*image, off as int),
            },
    {
        let data = image.data.as_slice();
        assert(data.len() == data@.len());
        let name = match Import::get_dll_imp_name(image, off) {
            Some(t) => t,
            None => {
                return None;
            },
        };
        let lookup_table: u32 = u32_le(data, off);
        let lookup: u32 = if lookup_table != 0 {
            lookup_table
        } else {
            u32_le(data, off + 16)
        };
        if lookup == 0 {
            return None;
        }
        let table: usize = match image.translate(lookup) {
            Ok(t) => t,
            Err(_) => {
                return None;
            },
        };
        match ImportFunction::resolve_table(image, table) {
            Some(imports) => Some(ImportEntry { name, imports }),
            None => None,
        }
    }
}

impl Imports {
    /// Resolves the import table.
    ///
    /// An image without an import directory gives `DirectoryAbsent`. A
    /// directory whose descriptors, module names, thunk tables or function
    /// names cannot all be read gives `BadDirectory`: nothing is returned
    /// of a table that is broken anywhere.
    pub fn parse(image: &Image) -> (r: Result<Imports, PeError>)
        ensures
            match r {
                Ok(imports) => imports_readable(*image) && imports_match(imports, *image),
                Err(e) => !imports_readable(*image) && e == (if image.directory(
                    DIRECTORY_IMPORT,
                ).is_none() {
                    PeError::DirectoryAbsent
                } else {
                    PeError::BadDirectory
                }),
            },
    {
        let dir = match image.data_directory(DIRECTORY_IMPORT) {
            Some(d) => d,
            None => {
                return Err(PeError::DirectoryAbsent);
            },
        };
        let first: usize = match image.translate(dir.rva) {
            Ok(o) => o,
            Err(_) => {
                return Err(PeError::BadDirectory);
            },
        };
        let data = image.data.as_slice();
        let len: usize = data.len();
        assert(len == data@.len());
        let mut modules: Vec<ImportEntry> = Vec::new();
        let mut at: usize = first;
        let ghost mut done: Seq<int> = Seq::empty();
        loop
            invariant
                data@ == image.data@,
                len == data@.len(),
                image.directory(DIRECTORY_IMPORT) == Some(dir),
                image.translated(dir.rva) == Ok::<usize, crate::error::AddressError>(first),
                first <= at <= len,
                descriptors_from(data@, first as int) == (match descriptors_from(data@, at as int) {
                    Some(rest) => Some(done + rest),
                    None => None,
                }),
                modules_readable(*image, done),
                modules_match(modules@, *image, done),
            ensures
                descriptors_from(data@, first as int) == Some(done),
                modules_readable(*image, done),
                modules_match(modules@, *image, done),
            decreases len - at,
        {
            if DESCRIPTOR_SIZE > len - at {
                return Err(PeError::BadDirectory);
            }
            if u32_le(data, at) == 0 && u32_le(data, at + 4) == 0 && u32_le(data, at + 8) == 0
                && u32_le(data, at + 12) == 0 && u32_le(data, at + 16) == 0 {
                assert(done + Seq::<int>::empty() =~= done);
                break ;
            }
            proof {
                let rest = descriptors_from(data@, at + DESCRIPTOR_SIZE);
                if rest.is_some() {
                    assert(done + (seq![at as int] + rest.unwrap()) =~= done.push(at as int)
                        + rest.unwrap());
                }
            }
            match ImportEntry::resolve(image, at) {
                Some(entry) => {
                    modules.push(entry);
                    proof {
                        done = done.push(at as int);
                    }
                },
                None => {
                    proof {
                        let all = descriptors_from(data@, first as int);
                        if all.is_some() {
                            assert(all.unwrap()[done.len() as int] == at);
                        }
                    }
                    return Err(PeError::BadDirectory);
                },
            }
            at += DESCRIPTOR_SIZE;
        }
        Ok(Imports { modules })
    }
}

/// The import table, or `None` where [`Imports::parse`] fails.
pub fn pimp(image: &Image) -> (r: Option<Imports>)
    ensures
        match r {
            Some(imports) => imports_readable(*image) && imports_match(imports, *image),
            None => !imports_readable(*image),
        },
{
    match Imports::parse(image) {
        Ok(imports) => Some(imports),
        Err(_) => None,
    }
}

} // verus!
