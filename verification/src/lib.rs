//! Decoding of Windows Portable Executable images held in memory.
//!
//! Every decoder works on an [`image::Image`]: the bytes of the file together
//! with the facts read from its headers. No decoder trusts an offset, a count
//! or a size found in the image: each read is bounds-checked, and Verus proves
//! that none of them can run past the buffer or overflow.
//!
//! What can go wrong is of two kinds. A structure that must be consistent to
//! be walked at all (the chain of import descriptors, the tables of the
//! export directory, the resource tree, the certificate table) is decoded as
//! a whole or not at all. A structure made of independent entries (the names
//! of exports, the leaves of the resource tree, the entries of the debug
//! directory, the TLS callbacks) is decoded entry by entry: what cannot be
//! read is left out of its entry, and the others are still returned.
//!
//! - [`bytes`], [`text`]: little-endian reads, zero-terminated strings, names as text
//! - [`image`], [`sections`], [`util`]: headers, address translation, bounded reads
//! - [`import`], [`export`], [`hashes`]: the import and export tables and their hashes
//! - [`rsrc`]: the resource tree
//! - [`rich`], [`products`]: the Rich structure and what its product identifiers mean
//! - [`debug`], [`codeview`], [`pgo`]: the debug directory and its payloads
//! - [`tls`]: the TLS callbacks
//! - [`sig`]: the certificate table, its signatures and the offsets that Authenticode needs
//! - [`strings`], [`compare`], [`timestamps`]: strings, tallies across files, dates

pub mod bytes;
pub mod codeview;
pub mod compare;
pub mod debug;
pub mod error;
pub mod export;
pub mod hashes;
pub mod image;
pub mod import;
pub mod pgo;
pub mod products;
pub mod rich;
pub mod rsrc;
pub mod sections;
pub mod sig;
pub mod strings;
pub mod text;
pub mod timestamps;
pub mod tls;
pub mod util;
