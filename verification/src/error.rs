//! The ways in which decoding fails.

use vstd::prelude::*;

verus! {

/// Why an address could not be translated.
#[derive(Copy, Clone, Debug, PartialEq, Eq, Structural)]
pub enum AddressError {
    /// No section's virtual range holds the address.
    NoContainingSection,
    /// The address lies in a section, but the file offset it maps to is past
    /// the end of the buffer.
    OutOfBounds,
    /// The arithmetic on the image base does not fit the address width.
    Invalid,
}

/// Why a structure of the image could not be decoded.
#[derive(Copy, Clone, Debug, PartialEq, Eq, Structural)]
pub enum PeError {
    /// The directory's slot is missing from the header, or its address is zero.
    DirectoryAbsent,
    /// Marker bytes that the format requires are not there.
    BadMagic,
    /// A declared offset or size runs past the end of the buffer.
    OutOfBounds,
    /// An address maps to no section.
    NoContainingSection,
    /// The directory is there, but its chain of entries cannot be followed.
    BadDirectory,
}

impl PeError {
    /// The decoding error that stands for a failed translation.
    pub open spec fn of_address(e: AddressError) -> PeError {
        match e {
            AddressError::NoContainingSection => PeError::NoContainingSection,
            AddressError::OutOfBounds => PeError::OutOfBounds,
            AddressError::Invalid => PeError::OutOfBounds,
        }
    }

    /// Computes [`PeError::of_address`].
    pub fn from_address(e: AddressError) -> (r: PeError)
        ensures
            r == Self::of_address(e),
    {
        match e {
            AddressError::NoContainingSection => PeError::NoContainingSection,
            AddressError::OutOfBounds => PeError::OutOfBounds,
            AddressError::Invalid => PeError::OutOfBounds,
        }
    }
}

} // verus!
