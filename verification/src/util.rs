//! Small helpers that the decoders and their callers share.

#![allow(non_camel_case_types, non_snake_case)]
use vstd::prelude::*;
use crate::image::Image;
use crate::text::{escape, escaped_text, hex_of};

verus! {

/// What was found out about one input file.
#[derive(Clone, Debug)]
pub struct FileInfo<T> {
    pub input_filename: String,
    pub info: T,
}

/// Bytes that are written out as small hexadecimal digits.
pub struct ByteBuf<'a>(pub &'a [u8]);

/// The escaped form of a string of bytes, as text.
pub fn CChar_to_escaped_string(val: &[u8]) -> (r: String)
    ensures
        r@ == escaped_text(val@),
{
    escape(val)
}

impl<'a> ByteBuf<'a> {
    /// The bytes as hexadecimal digits: two for each byte.
    pub fn to_hex(&self) -> (r: Vec<u8>)
        ensures
            r@ == hex_of(self.0@),
    {
        let bytes = self.0;
        let mut out: Vec<u8> = Vec::new();
        let mut i: usize = 0;
        while i < bytes.len()
            invariant
                i <= bytes@.len(),
                out@.len() == 2 * i,
                forall|k: int| 0 <= k < 2 * i ==> out@[k] == hex_of(bytes@)[k],
            decreases bytes@.len() - i,
        {
            let b: u8 = bytes[i];
            out.push(crate::text::hex_digit_of(b / 16));
            out.push(crate::text::hex_digit_of(b % 16));
            i += 1;
        }
        assert(out@ =~= hex_of(bytes@));
        out
    }
}

/// The size of the file.
pub fn get_pe_file_size(image: &Image) -> (r: usize)
    ensures
        r == image.data@.len(),
{
    image.data.len()
}

/// `value`, or the size of the file if that is less.
pub fn round_to_pe_sz(image: &Image, value: usize) -> (r: usize)
    ensures
        r == (if value <= image.data@.len() {
            value as int
        } else {
            image.data@.len() as int
        }),
{
    let size: usize = get_pe_file_size(image);
    if value <= size {
        value
    } else {
        size
    }
}

/// How many of `value` bytes at `offset` the file holds: all of them, or
/// those up to its end, or none if `offset` is past its end.
pub open spec fn clamped_size(len: int, offset: int, value: int) -> int {
    if offset >= len {
        0
    } else if offset + value > len {
        len - offset
    } else {
        value
    }
}

/// Cuts a size so that a read of that size at `offset` stays in the file.
pub fn round_to_pe_sz_with_offset(image: &Image, offset: usize, value: usize) -> (r: usize)
    ensures
        r == clamped_size(image.data@.len() as int, offset as int, value as int),
        offset + r <= image.data@.len() || r == 0,
{
    let pe_sz: usize = get_pe_file_size(image);
    if offset >= pe_sz {
        0
    } else if value > pe_sz - offset {
        pe_sz - offset
    } else {
        value
    }
}

/// Reads up to `size` bytes at `offset`, cut at the end of the file. Never
/// fails and never reads outside the buffer, whatever `offset` and `size`.
pub fn safe_read(image: &Image, offset: usize, size: usize) -> (r: &[u8])
    ensures
        r@ == image.clamped(offset, size),
        r@.len() == clamped_size(image.data@.len() as int, offset as int, size as int),
        r@.len() <= image.data@.len(),
{
    image.safe_read(offset, size)
}

/// Where the last section ends in the file: the largest of the sections'
/// ends among the first `n`.
pub open spec fn sections_end(image: Image, n: int) -> int
    decreases n,
{
    if n <= 0 {
        0
    } else {
        let s = image.sections@[n - 1];
        let end = s.file_offset + s.file_size;
        if end > sections_end(image, n - 1) {
            end
        } else {
            sections_end(image, n - 1)
        }
    }
}

/// The size of the image in the file as the section table gives it: where the
/// section that ends last ends. `None` for an image without sections.
pub fn get_pe_size(image: &Image) -> (r: Option<u64>)
    ensures
        match r {
            Some(size) => image.sections@.len() > 0 && size == sections_end(
                *image,
                image.sections@.len() as int,
            ),
            None => image.sections@.len() == 0,
        },
{
    let n: usize = image.sections.len();
    if n == 0 {
        return None;
    }
    let mut largest: u64 = 0;
    let mut i: usize = 0;
    while i < n
        invariant
            n == image.sections@.len(),
            i <= n,
            largest == sections_end(*image, i as int),
            largest <= 2 * u32::MAX,
        decreases n - i,
    {
        let s = &image.sections[i];
        let end: u64 = s.file_offset as u64 + s.file_size as u64;
        if end > largest {
            largest = end;
        }
        i += 1;
    }
    Some(largest)
}

/// The file characteristic that marks a DLL.
pub const FILE_DLL: u16 = 0x2000;

/// Whether the file header marks the image as a DLL.
pub open spec fn is_dll(image: Image) -> bool {
    image.characteristics & FILE_DLL != 0
}

/// What kind of image this is: `"DLL"` if the file header says so, else
/// `"PE"`.
pub fn get_type(image: &Image) -> (r: &'static str)
    ensures
        r@ == (if is_dll(*image) {
            "DLL"@
        } else {
            "PE"@
        }),
{
    if image.characteristics & FILE_DLL != 0 {
        "DLL"
    } else {
        "PE"
    }
}

/// The subsystems that an image can ask for.
#[derive(Copy, Clone, Debug, PartialEq, Eq, Structural)]
pub enum ImageSubsystem {
    Unknown,
    Native,
    WindowsGUI,
    WindowsCUI,
    OS2CUI,
    POSIXCUI,
    NativeWindows,
    WindowsCEGUI,
    EFIApplication,
    EFIBootServiceDriver,
    EFIRuntimeDriver,
    EFIROM,
    XBox,
    WindowsBootApplication,
    XBoxCodeCatalog,
}

/// The subsystem of an image.
#[derive(Copy, Clone, Debug, PartialEq, Eq, Structural)]
pub struct ImageSubsystem_rpecli(pub ImageSubsystem);

impl ImageSubsystem_rpecli {
    /// The subsystem that the header's number stands for.
    pub open spec fn of(value: u16) -> ImageSubsystem_rpecli {
        ImageSubsystem_rpecli(
            if value == 1 {
                ImageSubsystem::Native
            } else if value == 2 {
                ImageSubsystem::WindowsGUI
            } else if value == 3 {
                ImageSubsystem::WindowsCUI
            } else if value == 4 {
                ImageSubsystem::OS2CUI
            } else if value == 5 {
                ImageSubsystem::POSIXCUI
            } else if value == 6 {
                ImageSubsystem::NativeWindows
            } else if value == 7 {
                ImageSubsystem::WindowsCEGUI
            } else if value == 8 {
                ImageSubsystem::EFIApplication
            } else if value == 9 {
                ImageSubsystem::EFIBootServiceDriver
            } else if value == 10 {
                ImageSubsystem::EFIRuntimeDriver
            } else if value == 11 {
                ImageSubsystem::EFIROM
            } else if value == 12 {
                ImageSubsystem::XBox
            } else if value == 13 {
                ImageSubsystem::WindowsBootApplication
            } else if value == 14 {
                ImageSubsystem::XBoxCodeCatalog
            } else {
                ImageSubsystem::Unknown
            },
        )
    }

    /// The name of the subsystem.
    pub open spec fn name(self) -> Seq<char> {
        match self.0 {
            ImageSubsystem::Unknown => "Unknown"@,
            ImageSubsystem::Native => "Native"@,
            ImageSubsystem::WindowsGUI => "WindowsGUI"@,
            ImageSubsystem::WindowsCUI => "WindowsCUI"@,
            ImageSubsystem::OS2CUI => "OS2CUI"@,
            ImageSubsystem::POSIXCUI => "POSIXCUI"@,
            ImageSubsystem::NativeWindows => "NativeWindows"@,
            ImageSubsystem::WindowsCEGUI => "WindowsCEGUI"@,
            ImageSubsystem::EFIApplication => "EFIApplication"@,
            ImageSubsystem::EFIBootServiceDriver => "EFIBootServiceDriver"@,
            ImageSubsystem::EFIRuntimeDriver => "EFIRuntimeDriver"@,
            ImageSubsystem::EFIROM => "EFIROM"@,
            ImageSubsystem::XBox => "XBox"@,
            ImageSubsystem::WindowsBootApplication => "WindowsBootApplication"@,
            ImageSubsystem::XBoxCodeCatalog => "XBoxCodeCatalog"@,
        }
    }

    /// The name of the subsystem.
    pub fn as_string(&self) -> (r: String)
        ensures
            r@ == self.name(),
    {
        let name: &'static str = match self.0 {
            ImageSubsystem::Unknown => "Unknown",
            ImageSubsystem::Native => "Native",
            ImageSubsystem::WindowsGUI => "WindowsGUI",
            ImageSubsystem::WindowsCUI => "WindowsCUI",
            ImageSubsystem::OS2CUI => "OS2CUI",
            ImageSubsystem::POSIXCUI => "POSIXCUI",
            ImageSubsystem::NativeWindows => "NativeWindows",
            ImageSubsystem::WindowsCEGUI => "WindowsCEGUI",
            ImageSubsystem::EFIApplication => "EFIApplication",
            ImageSubsystem::EFIBootServiceDriver => "EFIBootServiceDriver",
            ImageSubsystem::EFIRuntimeDriver => "EFIRuntimeDriver",
            ImageSubsystem::EFIROM => "EFIROM",
            ImageSubsystem::XBox => "XBox",
            ImageSubsystem::WindowsBootApplication => "WindowsBootApplication",
            ImageSubsystem::XBoxCodeCatalog => "XBoxCodeCatalog",
        };
        name.to_owned()
    }
}

impl From<u16> for ImageSubsystem_rpecli {
    fn from(value: u16) -> (r: ImageSubsystem_rpecli) {
        match value {
            1 => ImageSubsystem_rpecli(ImageSubsystem::Native),
            2 => ImageSubsystem_rpecli(ImageSubsystem::WindowsGUI),
            3 => ImageSubsystem_rpecli(ImageSubsystem::WindowsCUI),
            4 => ImageSubsystem_rpecli(ImageSubsystem::OS2CUI),
            5 => ImageSubsystem_rpecli(ImageSubsystem::POSIXCUI),
            6 => ImageSubsystem_rpecli(ImageSubsystem::NativeWindows),
            7 => ImageSubsystem_rpecli(ImageSubsystem::WindowsCEGUI),
            8 => ImageSubsystem_rpecli(ImageSubsystem::EFIApplication),
            9 => ImageSubsystem_rpecli(ImageSubsystem::EFIBootServiceDriver),
            10 => ImageSubsystem_rpecli(ImageSubsystem::EFIRuntimeDriver),
            11 => ImageSubsystem_rpecli(ImageSubsystem::EFIROM),
            12 => ImageSubsystem_rpecli(ImageSubsystem::XBox),
            13 => ImageSubsystem_rpecli(ImageSubsystem::WindowsBootApplication),
            14 => ImageSubsystem_rpecli(ImageSubsystem::XBoxCodeCatalog),
            _ => ImageSubsystem_rpecli(ImageSubsystem::Unknown),
        }
    }
}

impl vstd::std_specs::convert::FromSpecImpl<u16> for ImageSubsystem_rpecli {
    open spec fn obeys_from_spec() -> bool {
        true
    }

    open spec fn from_spec(value: u16) -> ImageSubsystem_rpecli {
        ImageSubsystem_rpecli::of(value)
    }
}

/// The subsystem that the image asks for.
pub fn get_subsystem(image: &Image) -> (r: ImageSubsystem_rpecli)
    ensures
        r == ImageSubsystem_rpecli::of(image.subsystem),
{
    ImageSubsystem_rpecli::from(image.subsystem)
}

} // verus!
