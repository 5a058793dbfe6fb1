//! The TLS directory: the callbacks that run when a thread starts or ends.
//!
//! The directory holds virtual addresses, as wide as the image's
//! architecture. One of them points at the array of callbacks, which a zero
//! closes.

use vstd::prelude::*;
use crate::bytes::{u32_at, u32_le, u64_at, u64_le};
use crate::error::PeError;
use crate::image::{Arch, Image, DIRECTORY_TLS, VA};
use crate::sections::{get_section_name_from_offset, name_bytes, section_holding};
use crate::text::shown;

verus! {

/// The callbacks of the TLS directory, as 64-bit virtual addresses.
#[derive(Clone, Debug)]
pub struct TLSCallbacks {
    pub callbacks: Vec<u64>,
}

/// The size of the TLS directory.
pub open spec fn tls_directory_size(arch: Arch) -> int {
    match arch {
        Arch::X86 => 24,
        Arch::X64 => 40,
    }
}

/// The address stored at `off`, as wide as the architecture.
pub open spec fn address_at(s: Seq<u8>, off: int, arch: Arch) -> VA {
    match arch {
        Arch::X86 => VA::VA32(u32_at(s, off) as u32),
        Arch::X64 => VA::VA64(u64_at(s, off) as u64),
    }
}

/// The width of an address in bytes.
pub open spec fn address_width(arch: Arch) -> int {
    match arch {
        Arch::X86 => 4,
        Arch::X64 => 8,
    }
}

/// The addresses that stand at `off` in front of a zero or of the end of
/// the buffer, whichever comes first.
pub open spec fn callbacks_from(s: Seq<u8>, off: int, arch: Arch) -> Seq<VA>
    decreases s.len() - off,
{
    if off < 0 || off + address_width(arch) > s.len() || address_at(s, off, arch).value() == 0 {
        Seq::empty()
    } else {
        seq![address_at(s, off, arch)] + callbacks_from(s, off + address_width(arch), arch)
    }
}

/// The callbacks of the image's TLS directory.
///
/// An image without a TLS directory has `None`; one whose directory names no
/// callback array has an empty list. A directory that does not lie in the
/// file, or a callback array whose address is not in the image, is an error.
pub open spec fn tls_callbacks(image: Image) -> Result<Option<Seq<VA>>, PeError> {
    match image.directory(DIRECTORY_TLS) {
        None => Ok(None),
        Some(dir) => match image.translated(dir.rva) {
            Err(e) => Err(PeError::of_address(e)),
            Ok(at) => if at + tls_directory_size(image.arch) > image.data@.len() {
                Err(PeError::OutOfBounds)
            } else {
                let pointer = address_at(
                    image.data@,
                    at + 3 * address_width(image.arch),
                    image.arch,
                );
                if pointer.value() == 0 {
                    Ok(Some(Seq::empty()))
                } else {
                    match image.rva_of(pointer) {
                        None => Err(PeError::OutOfBounds),
                        Some(rva) => match image.translated(rva) {
                            Err(e) => Err(PeError::of_address(e)),
                            Ok(table) => Ok(
                                Some(callbacks_from(image.data@, table as int, image.arch)),
                            ),
                        },
                    }
                }
            },
        },
    }
}

/// The addresses as numbers.
pub open spec fn widened(addresses: Seq<VA>) -> Seq<u64> {
    Seq::new(addresses.len(), |i: int| addresses[i].value() as u64)
}

/// Reads the address at `off`.
fn read_address(image: &Image, off: usize) -> (r: VA)
    requires
        off + address_width(image.arch) <= image.data@.len(),
    ensures
        r == address_at(image.data@, off as int, image.arch),
{
    match image.arch {
        Arch::X86 => VA::VA32(u32_le(image.data.as_slice(), off)),
        Arch::X64 => VA::VA64(u64_le(image.data.as_slice(), off)),
    }
}

/// Widens each address to 64 bits.
pub fn handle_callbacks(callbacks: &Vec<VA>) -> (r: Vec<u64>)
    ensures
        r@ == widened(callbacks@),
{
    let mut result: Vec<u64> = Vec::new();
    let mut i: usize = 0;
    while i < callbacks.len()
        invariant
            i <= callbacks@.len(),
            result@.len() == i,
            forall|k: int| 0 <= k < i ==> result@[k] == callbacks@[k].value() as u64,
        decreases callbacks@.len() - i,
    {
        result.push(callbacks[i].as_u64());
        i += 1;
    }
    assert(result@ =~= widened(callbacks@));
    result
}

/// The name of the first section that covers a callback, if its address is
/// in the image and in a section. That it lies in none is no error.
pub fn callback_section(image: &Image, callback: u64) -> (r: Option<String>)
    ensures
        match r {
            Some(name) => image.rva_of(VA::VA64(callback)) matches Some(rva) && section_holding(
                *image,
                rva as u64,
                image.sections@.len() as int,
            ) matches Some(i) && name@ == shown(name_bytes(image.sections@[i])),
            None => image.rva_of(VA::VA64(callback)) matches Some(rva) ==> section_holding(
                *image,
                rva as u64,
                image.sections@.len() as int,
            ).is_none(),
        },
{
    match image.as_rva(VA::VA64(callback)) {
        Ok(rva) => get_section_name_from_offset(rva as u64, image),
        Err(_) => None,
    }
}

impl TLSCallbacks {
    /// Whether the image has a TLS directory.
    pub fn check_exists(image: &Image) -> (r: bool)
        ensures
            r == image.directory(DIRECTORY_TLS).is_some(),
    {
        image.data_directory(DIRECTORY_TLS).is_some()
    }

    /// Reads the array of callbacks at the file offset `table`.
    fn read_table(image: &Image, table: usize) -> (r: Vec<VA>)
        requires
            table <= image.data@.len(),
        ensures
            r@ == callbacks_from(image.data@, table as int, image.arch),
    {
        let len: usize = image.data.len();
        let width: usize = match image.arch {
            Arch::X86 => 4,
            Arch::X64 => 8,
        };
        let mut found: Vec<VA> = Vec::new();
        let mut at: usize = table;
        loop
            invariant
                len == image.data@.len(),
                width == address_width(image.arch),
                table <= at <= len,
                callbacks_from(image.data@, table as int, image.arch) == found@ + callbacks_from(
                    image.data@,
                    at as int,
                    image.arch,
                ),
            ensures
                callbacks_from(image.data@, table as int, image.arch) == found@,
            decreases len - at,
        {
            if width > len - at {
                assert(found@ + Seq::<VA>::empty() =~= found@);
                break ;
            }
            let address = read_address(image, at);
            if address.as_u64() == 0 {
                assert(found@ + Seq::<VA>::empty() =~= found@);
                break ;
            }
            proof {
                let rest = callbacks_from(image.data@, at + width, image.arch);
                assert(found@ + (seq![address] + rest) =~= found@.push(address) + rest);
            }
            found.push(address);
            at += width;
        }
        found
    }

    /// Reads the callbacks of the TLS directory.
    pub fn parse(image: &Image) -> (r: Result<Option<TLSCallbacks>, PeError>)
        ensures
            match r {
                Ok(Some(tls)) => tls_callbacks(*image) matches Ok(Some(addresses))
                    && tls.callbacks@ == widened(addresses),
                Ok(None) => tls_callbacks(*image) == Ok::<Option<Seq<VA>>, PeError>(None),
                Err(e) => tls_callbacks(*image) == Err::<Option<Seq<VA>>, PeError>(e),
            },
    {
        let dir = match image.data_directory(DIRECTORY_TLS) {
            Some(d) => d,
            None => {
                return Ok(None);
            },
        };
        let at: usize = match image.translate(dir.rva) {
            Ok(a) => a,
            Err(e) => {
                return Err(PeError::from_address(e));
            },
        };
        let len: usize = image.data.len();
        let (size, width): (usize, usize) = match image.arch {
            Arch::X86 => (24, 4),
            Arch::X64 => (40, 8),
        };
        if size > len - at {
            return Err(PeError::OutOfBounds);
        }
        let pointer = read_address(image, at + 3 * width);
        if pointer.as_u64() == 0 {
            let none: Vec<VA> = Vec::new();
            return Ok(Some(TLSCallbacks { callbacks: handle_callbacks(&none) }));
        }
        let rva: u32 = match image.as_rva(pointer) {
            Ok(r) => r,
            Err(_) => {
                return Err(PeError::OutOfBounds);
            },
        };
        let table: usize = match image.translate(rva) {
            Ok(t) => t,
            Err(e) => {
                return Err(PeError::from_address(e));
            },
        };
        let addresses = Self::read_table(image, table);
        Ok(Some(TLSCallbacks { callbacks: handle_callbacks(&addresses) }))
    }
}

} // verus!
