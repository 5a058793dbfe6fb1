//! Hashes over the names that an image imports and exports.
//!
//! Two images that import the same functions from the same modules in the
//! same order have the same import hash, whatever else differs; the same
//! holds of the export hash and the exported names. Any change to a name, to
//! its case before lowering, or to the order changes the text that is hashed.

use vstd::prelude::*;
use vstd::utf8::encode_utf8;
use crate::export::Exports;
use crate::import::{ImportEntry, ImportFunction, Imports};
use crate::text::{append_bytes, ascii_lowercase, to_ascii_lowercase};

verus! {

/// The MD5 digest of a string of bytes, as the `md5` crate computes it.
pub uninterp spec fn md5_of(bytes: Seq<u8>) -> Seq<u8>;

/// The SHA-256 digest of a string of bytes in hexadecimal, as the `sha256`
/// crate writes it.
pub uninterp spec fn sha256_hex_of(bytes: Seq<u8>) -> Seq<char>;

/// The name that stands for an import by ordinal in the import hash, as
/// `exe::imphash_resolve` gives it for a module and an ordinal.
pub uninterp spec fn ordinal_symbol_of(module: Seq<char>, ordinal: u32) -> Seq<char>;

/// Computes an MD5 digest.
///
/// Calls `md5::compute`. Assumed of it: the digest depends on the bytes
/// alone, and has sixteen bytes.
#[verifier::external_body]
pub(crate) fn md5_digest(bytes: &[u8]) -> (r: Vec<u8>)
    ensures
        r@ == md5_of(bytes@),
        r@.len() == 16,
{
    md5::compute(bytes).0.to_vec()
}

/// Computes a SHA-256 digest in hexadecimal.
///
/// Calls `sha256::digest`. Assumed of it: the text depends on the bytes
/// alone.
#[verifier::external_body]
pub(crate) fn sha256_hex(bytes: &[u8]) -> (r: String)
    ensures
        r@ == sha256_hex_of(bytes@),
{
    sha256::digest(bytes)
}

/// Names an import by ordinal.
///
/// Calls `exe::imphash_resolve`. Assumed of it: the name depends on the
/// module's name and the ordinal alone.
#[verifier::external_body]
pub(crate) fn ordinal_symbol(module: &str, ordinal: u32) -> (r: String)
    ensures
        r@ == ordinal_symbol_of(module@, ordinal),
{
    exe::imphash_resolve(module, ordinal)
}

/// The number that decimal digits stand for, if `s` is made of digits and
/// the number fits 32 bits.
pub open spec fn decimal_value(s: Seq<u8>) -> Option<u32>
    decreases s.len(),
{
    if s.len() == 0 {
        None
    } else if !(0x30 <= s.last() <= 0x39) {
        None
    } else if s.len() == 1 {
        Some((s.last() - 0x30) as u32)
    } else {
        match decimal_value(s.drop_last()) {
            Some(high) => if high * 10 + (s.last() - 0x30) <= u32::MAX {
                Some((high * 10 + (s.last() - 0x30)) as u32)
            } else {
                None
            },
            None => None,
        }
    }
}

/// Computes [`decimal_value`].
pub fn parse_decimal(bytes: &[u8]) -> (r: Option<u32>)
    ensures
        r == decimal_value(bytes@),
{
    let n: usize = bytes.len();
    if n == 0 {
        return None;
    }
    let mut value: u32 = 0;
    let mut i: usize = 0;
    while i < n
        invariant
            n == bytes@.len(),
            i <= n,
            i > 0 ==> decimal_value(bytes@.subrange(0, i as int)) == Some(value),
            i == 0 ==> value == 0,
        decreases n - i,
    {
        let b: u8 = bytes[i];
        let ghost prefix = bytes@.subrange(0, i + 1);
        proof {
            assert(prefix.drop_last() =~= bytes@.subrange(0, i as int));
            assert(prefix.last() == b);
        }
        if b < 0x30 || b > 0x39 {
            proof {
                lemma_decimal_prefix(bytes@, i + 1);
            }
            return None;
        }
        let digit: u32 = (b - 0x30) as u32;
        if value > (u32::MAX - digit) / 10 {
            proof {
                lemma_decimal_prefix(bytes@, i + 1);
            }
            return None;
        }
        value = value * 10 + digit;
        i += 1;
    }
    assert(bytes@.subrange(0, n as int) =~= bytes@);
    Some(value)
}

/// Digits that stand for no number stand for none however they go on.
pub proof fn lemma_decimal_prefix(s: Seq<u8>, n: int)
    requires
        0 < n <= s.len(),
        decimal_value(s.subrange(0, n)).is_none(),
    ensures
        decimal_value(s).is_none(),
    decreases s.len() - n,
{
    if n < s.len() {
        let longer = s.subrange(0, n + 1);
        assert(longer.drop_last() =~= s.subrange(0, n));
        lemma_decimal_prefix(s, n + 1);
    } else {
        assert(s.subrange(0, n) =~= s);
    }
}

/// Whether `s` ends with a dot and the three bytes `a`, `b`, `c`.
pub open spec fn has_extension(s: Seq<u8>, a: u8, b: u8, c: u8) -> bool {
    s.len() >= 4 && s[s.len() - 4] == 0x2e && s[s.len() - 3] == a && s[s.len() - 2] == b && s[s.len()
        - 1] == c
}

/// A module's name without its extension, if that is `.ocx`, `.sys` or
/// `.dll`.
pub open spec fn without_extension(s: Seq<u8>) -> Seq<u8> {
    if has_extension(s, 0x6f, 0x63, 0x78) || has_extension(s, 0x73, 0x79, 0x73) || has_extension(
        s,
        0x64,
        0x6c,
        0x6c,
    ) {
        s.subrange(0, s.len() - 4)
    } else {
        s
    }
}

/// The name under which a function enters the import hash: for an import
/// by ordinal whose name is that ordinal in decimal, what `exe` calls that
/// ordinal of that module; else the function's own name.
pub open spec fn symbol_of(module: ImportEntry, f: ImportFunction) -> Seq<u8> {
    if f.import_by_ordinal && decimal_value(encode_utf8(f.name@)).is_some() {
        encode_utf8(
            ordinal_symbol_of(module.name@, decimal_value(encode_utf8(f.name@)).unwrap()),
        )
    } else {
        encode_utf8(f.name@)
    }
}

/// The module's part of what an import adds to the import hash: its name in
/// small letters, without its extension.
pub open spec fn module_part(module: ImportEntry) -> Seq<u8> {
    without_extension(ascii_lowercase(encode_utf8(module.name@)))
}

/// The text that one import adds to the import hash: the module without its
/// extension, a dot, and the function's symbol, all in small letters.
pub open spec fn import_text(module: ImportEntry, f: ImportFunction) -> Seq<u8> {
    module_part(module) + seq![0x2eu8] + ascii_lowercase(symbol_of(module, f))
}

/// The texts of the first `n` imports of a module, each behind a comma.
pub open spec fn module_text(module: ImportEntry, n: int) -> Seq<u8>
    decreases n,
{
    if n <= 0 {
        Seq::empty()
    } else {
        module_text(module, n - 1) + seq![0x2cu8] + import_text(module, module.imports@[n - 1])
    }
}

/// The texts of all imports of the first `n` modules, each behind a comma.
pub open spec fn imports_text(modules: Seq<ImportEntry>, n: int) -> Seq<u8>
    decreases n,
{
    if n <= 0 {
        Seq::empty()
    } else {
        imports_text(modules, n - 1) + module_text(
            modules[n - 1],
            modules[n - 1].imports@.len() as int,
        )
    }
}

/// A text without its first byte, the comma in front of its first part.
pub open spec fn without_first(text: Seq<u8>) -> Seq<u8> {
    if text.len() == 0 {
        text
    } else {
        text.skip(1)
    }
}

/// The text whose MD5 digest is the import hash: the texts of all imports in
/// the order of the table, with commas between them.
pub open spec fn imphash_text(imports: Imports) -> Seq<u8> {
    without_first(imports_text(imports.modules@, imports.modules@.len() as int))
}

/// Computes [`without_extension`].
fn strip_extension(name: &[u8]) -> (r: &[u8])
    ensures
        r@ == without_extension(name@),
{
    let n: usize = name.len();
    if n >= 4 && name[n - 4] == 0x2e {
        let a: u8 = name[n - 3];
        let b: u8 = name[n - 2];
        let c: u8 = name[n - 1];
        if (a == 0x6f && b == 0x63 && c == 0x78) || (a == 0x73 && b == 0x79 && c == 0x73) || (a
            == 0x64 && b == 0x6c && c == 0x6c) {
            return vstd::slice::slice_subrange(name, 0, n - 4);
        }
    }
    assert(name@.subrange(0, n as int) =~= name@);
    vstd::slice::slice_subrange(name, 0, n)
}

/// The import hash of an import table: the MD5 digest of [`imphash_text`].
pub fn imphash(imports: &Imports) -> (r: Vec<u8>)
    ensures
        r@ == md5_of(imphash_text(*imports)),
        r@.len() == 16,
{
    let mut text: Vec<u8> = Vec::new();
    let mut i: usize = 0;
    while i < imports.modules.len()
        invariant
            i <= imports.modules@.len(),
            text@ == imports_text(imports.modules@, i as int),
        decreases imports.modules@.len() - i,
    {
        let module = &imports.modules[i];
        let small = to_ascii_lowercase(module.name.as_str().as_bytes());
        let dll = strip_extension(small.as_slice());
        let ghost before = text@;
        let mut j: usize = 0;
        while j < module.imports.len()
            invariant
                j <= module.imports@.len(),
                dll@ == module_part(*module),
                text@ == before + module_text(*module, j as int),
            decreases module.imports@.len() - j,
        {
            let f = &module.imports[j];
            let ghost start = text@;
            text.push(0x2c);
            append_bytes(&mut text, dll);
            text.push(0x2e);
            let name = f.name.as_str().as_bytes();
            let ordinal: Option<u32> = if f.import_by_ordinal {
                parse_decimal(name)
            } else {
                None
            };
            match ordinal {
                Some(n) => {
                    let symbol = ordinal_symbol(module.name.as_str(), n);
                    let lowered = to_ascii_lowercase(symbol.as_str().as_bytes());
                    append_bytes(&mut text, lowered.as_slice());
                },
                None => {
                    let lowered = to_ascii_lowercase(name);
                    append_bytes(&mut text, lowered.as_slice());
                },
            }
            assert(text@ =~= start + seq![0x2cu8] + import_text(*module, *f));
            assert(text@ =~= before + module_text(*module, j + 1));
            j += 1;
        }
        i += 1;
    }
    let hashed = if text.len() > 0 {
        vstd::slice::slice_subrange(text.as_slice(), 1, text.len())
    } else {
        text.as_slice()
    };
    assert(hashed@ =~= without_first(text@));
    md5_digest(hashed)
}

/// The names of the first `n` entries that have one, in small letters, each
/// behind a comma.
pub open spec fn names_text(exports: Exports, n: int) -> Seq<u8>
    decreases n,
{
    if n <= 0 {
        Seq::empty()
    } else {
        match exports.entries@[n - 1].name {
            Some(name) => names_text(exports, n - 1) + seq![0x2cu8] + ascii_lowercase(
                encode_utf8(name@),
            ),
            None => names_text(exports, n - 1),
        }
    }
}

/// The text whose SHA-256 digest is the export hash: the exported names in
/// small letters, in the order of their ordinals, with commas between them.
pub open spec fn exphash_text(exports: Exports) -> Seq<u8> {
    without_first(names_text(exports, exports.entries@.len() as int))
}

/// The export hash of an export table: the SHA-256 digest of
/// [`exphash_text`], in hexadecimal.
pub fn exphash(exports: &Exports) -> (r: String)
    ensures
        r@ == sha256_hex_of(exphash_text(*exports)),
{
    let mut text: Vec<u8> = Vec::new();
    let mut i: usize = 0;
    while i < exports.entries.len()
        invariant
            i <= exports.entries@.len(),
            text@ == names_text(*exports, i as int),
        decreases exports.entries@.len() - i,
    {
        match &exports.entries[i].name {
            Some(name) => {
                let ghost start = text@;
                text.push(0x2c);
                let lowered = to_ascii_lowercase(name.as_str().as_bytes());
                append_bytes(&mut text, lowered.as_slice());
                assert(text@ =~= start + seq![0x2cu8] + ascii_lowercase(
                    encode_utf8(name@),
                ));
            },
            None => {},
        }
        i += 1;
    }
    let hashed = if text.len() > 0 {
        vstd::slice::slice_subrange(text.as_slice(), 1, text.len())
    } else {
        text.as_slice()
    };
    assert(hashed@ =~= without_first(text@));
    sha256_hex(hashed)
}

} // verus!
