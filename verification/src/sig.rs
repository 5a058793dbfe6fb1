//! Authenticode: where a signed image keeps its signatures.
//!
//! The security directory is unlike the others: its address is a file
//! offset, not an RVA. It names the certificate table, a run of entries
//! that each start with a length, a revision and a type, and that are
//! padded to multiples of eight bytes. The digest that a signature signs
//! leaves out the checksum field, the security directory's slot in the
//! header, and the certificate table itself.

use vstd::prelude::*;
use crate::bytes::{u16_at, u16_le, u32_at, u32_le};
use crate::error::PeError;
use crate::image::{Arch, Image, DIRECTORY_SECURITY, OPTIONAL_HEADER_OFFSET};
use crate::text::{ascii_chars, ascii_string, hex_of, lemma_hex_ascii};
use crate::util::ByteBuf;

verus! {

/// The size of the header of a certificate table entry.
pub const CERTIFICATE_HEADER_SIZE: usize = 8;

/// The revision of the entries that hold signatures: 2.0.
pub const REVISION_2_0: u16 = 0x0200;

/// The type of an entry that holds PKCS #7 signed data.
pub const PKCS_SIGNED_DATA: u16 = 2;

/// The offset of the checksum in the optional header.
pub const CHECKSUM_OFFSET: usize = 64;

/// Who issued a certificate, and under which serial number.
#[derive(Clone, Debug, Default, PartialEq, Eq, PartialOrd, Ord)]
pub struct Identifier {
    pub issuer: String,
    pub serial_number: String,
}

/// A certificate that a signature carries.
#[derive(Clone, Debug, Default, PartialEq, Eq, PartialOrd, Ord)]
pub struct Cert {
    pub issuer: String,
    pub subject: String,
    pub serial_number: String,
}

/// One signature: its digest in hexadecimal, its signer if the signature
/// names the signer by issuer and serial number, and its certificates.
#[derive(Clone, Debug, Default, PartialEq, Eq, PartialOrd, Ord)]
pub struct AuthenSig {
    pub digest: String,
    pub issuer: Option<Identifier>,
    pub certificates: Vec<Cert>,
}

/// The signatures of an image.
#[derive(Clone, Debug, Default, PartialEq, Eq, PartialOrd, Ord)]
pub struct PeAuthenticodes {
    pub signatures: Vec<AuthenSig>,
}

/// The file offsets that bound what the Authenticode digest leaves out.
#[derive(Copy, Clone, Debug, PartialEq, Eq, Structural)]
pub struct PeOffsets {
    /// The offset of the checksum field in the optional header.
    pub check_sum: usize,
    /// The offset of the byte behind the checksum field.
    pub after_check_sum: usize,
    /// The offset of the security directory's slot in the data directory
    /// array (not of what the slot points to).
    pub security_data_dir: usize,
    /// The offset of the byte behind that slot.
    pub after_security_data_dir: usize,
    /// The offset of the byte behind the NT headers, data directory array
    /// included.
    pub after_header: usize,
}

/// Why the certificate table cannot be walked.
#[derive(Copy, Clone, Debug, PartialEq, Eq, Structural)]
pub enum CertificateError {
    /// The security directory names a range that the file does not hold.
    OutOfBounds,
    /// The entries, each padded to eight bytes, do not fill the table
    /// exactly.
    InvalidSize,
    /// The length of an entry is less than its header or more than what is
    /// left of the table. `index` counts the entries from one.
    InvalidCertificateSize { index: u32 },
}

/// One entry of the certificate table.
#[derive(Clone, Debug)]
pub struct AttributeCertificate {
    pub revision: u16,
    pub certificate_type: u16,
    /// The entry's bytes behind its header.
    pub data: Vec<u8>,
}

/// An entry of the certificate table in spec terms.
pub struct CertificateFacts {
    pub revision: u16,
    pub certificate_type: u16,
    pub data: Seq<u8>,
}

/// `n` rounded up to a multiple of eight.
pub open spec fn align8(n: int) -> int {
    if n % 8 == 0 {
        n
    } else {
        n + 8 - n % 8
    }
}

/// The entries of the table that runs from `pos` to `end`, where `index`
/// entries came before; or what is wrong with the first entry that is wrong.
pub open spec fn certificates_from(s: Seq<u8>, pos: int, end: int, index: int) -> Result<
    Seq<CertificateFacts>,
    CertificateError,
>
    decreases end - pos,
{
    if end - pos < CERTIFICATE_HEADER_SIZE || pos < 0 {
        if pos == end {
            Ok(Seq::empty())
        } else {
            Err(CertificateError::InvalidSize)
        }
    } else {
        let size = u32_at(s, pos);
        if size < CERTIFICATE_HEADER_SIZE || pos + size > end {
            Err(CertificateError::InvalidCertificateSize { index: ((index + 1) % 0x1_0000_0000) as u32 })
        } else if pos + align8(size) > end {
            Err(CertificateError::InvalidSize)
        } else {
            match certificates_from(s, pos + align8(size), end, index + 1) {
                Ok(rest) => Ok(
                    seq![
                        CertificateFacts {
                            revision: u16_at(s, pos + 4) as u16,
                            certificate_type: u16_at(s, pos + 6) as u16,
                            data: s.subrange(pos + CERTIFICATE_HEADER_SIZE, pos + size),
                        },
                    ] + rest,
                ),
                Err(e) => Err(e),
            }
        }
    }
}

/// The bounds of the certificate table in the file, if the image has one.
pub open spec fn certificate_range(image: Image) -> Option<(int, int)> {
    match image.directory(DIRECTORY_SECURITY) {
        Some(dir) => Some((dir.rva as int, dir.rva + dir.size)),
        None => None,
    }
}

/// The entries of the image's certificate table. An image without a
/// security directory has none.
pub open spec fn certificates_of(image: Image) -> Result<Seq<CertificateFacts>, CertificateError> {
    match certificate_range(image) {
        None => Ok(Seq::empty()),
        Some((start, end)) => if end > image.data@.len() {
            Err(CertificateError::OutOfBounds)
        } else {
            certificates_from(image.data@, start, end, 0)
        },
    }
}

impl AttributeCertificate {
    /// The entry in spec terms.
    pub open spec fn facts(self) -> CertificateFacts {
        CertificateFacts {
            revision: self.revision,
            certificate_type: self.certificate_type,
            data: self.data@,
        }
    }

    /// Whether the entry is of the revision and the type that hold a
    /// signature.
    pub open spec fn is_signed_data(self) -> bool {
        self.revision == REVISION_2_0 && self.certificate_type == PKCS_SIGNED_DATA
    }
}

/// The entries in spec terms.
pub open spec fn certificate_facts(entries: Seq<AttributeCertificate>) -> Seq<CertificateFacts> {
    Seq::new(entries.len(), |i: int| entries[i].facts())
}

/// Walks the certificate table of the image.
pub fn certificate_table(image: &Image) -> (r: Result<Vec<AttributeCertificate>, CertificateError>)
    ensures
        match r {
            Ok(entries) => certificates_of(*image) == Ok::<
                Seq<CertificateFacts>,
                CertificateError,
            >(certificate_facts(entries@)),
            Err(e) => certificates_of(*image) == Err::<Seq<CertificateFacts>, CertificateError>(e),
        },
{
    let mut entries: Vec<AttributeCertificate> = Vec::new();
    let dir = match image.data_directory(DIRECTORY_SECURITY) {
        Some(d) => d,
        None => {
            assert(certificate_facts(entries@) =~= Seq::<CertificateFacts>::empty());
            return Ok(entries);
        },
    };
    let data = image.data.as_slice();
    let len: usize = data.len();
    assert(len == data@.len());
    if dir.rva as u64 + dir.size as u64 > len as u64 {
        return Err(CertificateError::OutOfBounds);
    }
    let start: usize = dir.rva as usize;
    let end: usize = start + dir.size as usize;
    let mut pos: usize = start;
    let mut index: u32 = 0;
    loop
        invariant
            data@ == image.data@,
            len == data@.len(),
            certificate_range(*image) == Some((start as int, end as int)),
            start <= pos <= end <= len,
            end - start <= u32::MAX,
            index <= pos - start,
            certificates_from(data@, start as int, end as int, 0) == (match certificates_from(
                data@,
                pos as int,
                end as int,
                index as int,
            ) {
                Ok(rest) => Ok(certificate_facts(entries@) + rest),
                Err(e) => Err(e),
            }),
        ensures
            certificates_from(data@, start as int, end as int, 0) == Ok::<
                Seq<CertificateFacts>,
                CertificateError,
            >(certificate_facts(entries@)),
        decreases end - pos,
    {
        if end - pos < CERTIFICATE_HEADER_SIZE {
            if pos == end {
                assert(certificate_facts(entries@) + Seq::<CertificateFacts>::empty()
                    =~= certificate_facts(entries@));
                break ;
            }
            return Err(CertificateError::InvalidSize);
        }
        let size: usize = u32_le(data, pos) as usize;
        if size < CERTIFICATE_HEADER_SIZE || size > end - pos {
            return Err(CertificateError::InvalidCertificateSize { index: index + 1 });
        }
        let padding: usize = if size % 8 == 0 {
            0
        } else {
            8 - size % 8
        };
        if padding > end - pos - size {
            return Err(CertificateError::InvalidSize);
        }
        let aligned: usize = size + padding;
        let entry = AttributeCertificate {
            revision: u16_le(data, pos + 4),
            certificate_type: u16_le(data, pos + 6),
            data: vstd::slice::slice_to_vec(
                vstd::slice::slice_subrange(data, pos + CERTIFICATE_HEADER_SIZE, pos + size),
            ),
        };
        proof {
            let rest = certificates_from(data@, pos + aligned, end as int, index + 1);
            if rest.is_ok() {
                assert(certificate_facts(entries@) + (seq![entry.facts()] + rest.unwrap())
                    =~= certificate_facts(entries@.push(entry)) + rest.unwrap());
            }
        }
        entries.push(entry);
        pos += aligned;
        index += 1;
    }
    Ok(entries)
}

/// The size of the optional header up to the data directory array.
pub open spec fn optional_fixed_size(arch: Arch) -> int {
    match arch {
        Arch::X86 => 96,
        Arch::X64 => 112,
    }
}

/// The offsets that bound what the Authenticode digest of the image leaves
/// out, if the header has a slot for the security directory and the NT
/// headers lie in the file.
pub open spec fn offsets_of(image: Image) -> Result<PeOffsets, PeError> {
    let optional = image.nt_offset + OPTIONAL_HEADER_OFFSET;
    let directories = optional + optional_fixed_size(image.arch);
    let after_header = directories + 8 * image.directories@.len();
    if image.directories@.len() <= DIRECTORY_SECURITY {
        Err(PeError::DirectoryAbsent)
    } else if after_header > image.data@.len() {
        Err(PeError::OutOfBounds)
    } else {
        Ok(
            PeOffsets {
                check_sum: (optional + CHECKSUM_OFFSET) as usize,
                after_check_sum: (optional + CHECKSUM_OFFSET + 4) as usize,
                security_data_dir: (directories + 8 * DIRECTORY_SECURITY) as usize,
                after_security_data_dir: (directories + 8 * DIRECTORY_SECURITY + 8) as usize,
                after_header: after_header as usize,
            },
        )
    }
}

/// Computes the offsets that the Authenticode digest needs.
pub fn offsets(image: &Image) -> (r: Result<PeOffsets, PeError>)
    ensures
        r == offsets_of(*image),
{
    let len: usize = image.data.len();
    let count: usize = image.directories.len();
    if count <= DIRECTORY_SECURITY {
        return Err(PeError::DirectoryAbsent);
    }
    let fixed: u64 = match image.arch {
        Arch::X86 => 96,
        Arch::X64 => 112,
    };
    let optional: u64 = image.nt_offset as u64 + OPTIONAL_HEADER_OFFSET as u64;
    let directories: u64 = optional + fixed;
    if count as u64 > (u64::MAX - directories) / 8 {
        return Err(PeError::OutOfBounds);
    }
    let after_header: u64 = directories + 8 * count as u64;
    if after_header > len as u64 {
        return Err(PeError::OutOfBounds);
    }
    Ok(
        PeOffsets {
            check_sum: (optional + CHECKSUM_OFFSET as u64) as usize,
            after_check_sum: (optional + CHECKSUM_OFFSET as u64 + 4) as usize,
            security_data_dir: (directories + 8 * DIRECTORY_SECURITY as u64) as usize,
            after_security_data_dir: (directories + 8 * DIRECTORY_SECURITY as u64 + 8) as usize,
            after_header: after_header as usize,
        },
    )
}

/// The number of sections of the image.
pub fn num_sections(image: &Image) -> (r: usize)
    ensures
        r == image.sections@.len(),
{
    image.sections.len()
}

/// The file range of section `index`, if there is such a section and its
/// range does not overflow.
pub open spec fn section_range(image: Image, index: usize) -> Option<(usize, usize)> {
    if index < image.sections@.len() {
        let s = image.sections@[index as int];
        if s.file_offset + s.file_size <= usize::MAX {
            Some((s.file_offset as usize, (s.file_offset + s.file_size) as usize))
        } else {
            None
        }
    } else {
        None
    }
}

/// The file range that holds the bytes of section `index`, counted from zero.
pub fn section_data_range(image: &Image, index: usize) -> (r: Option<(usize, usize)>)
    ensures
        r == section_range(*image, index),
{
    if index < image.sections.len() {
        let s = &image.sections[index];
        let end: u64 = s.file_offset as u64 + s.file_size as u64;
        if end <= usize::MAX as u64 {
            Some((s.file_offset as usize, end as usize))
        } else {
            None
        }
    } else {
        None
    }
}

/// The file range of the certificate table, if the image has one and the
/// range does not overflow.
pub fn certificate_table_range(image: &Image) -> (r: Option<(usize, usize)>)
    ensures
        match r {
            Some((start, end)) => certificate_range(*image) == Some((start as int, end as int)),
            None => certificate_range(*image) matches Some((start, end)) ==> end > usize::MAX,
        },
{
    match image.data_directory(DIRECTORY_SECURITY) {
        Some(dir) => {
            let end: u64 = dir.rva as u64 + dir.size as u64;
            if end <= usize::MAX as u64 {
                Some((dir.rva as usize, end as usize))
            } else {
                None
            }
        },
        None => None,
    }
}

/// The signatures among `decoded`, in order.
pub open spec fn kept(decoded: Seq<Option<AuthenSig>>) -> Seq<AuthenSig>
    decreases decoded.len(),
{
    if decoded.len() == 0 {
        Seq::empty()
    } else {
        match decoded.last() {
            Some(sig) => kept(decoded.drop_last()).push(sig),
            None => kept(decoded.drop_last()),
        }
    }
}

impl AuthenSig {
    /// A signature with the digest `digest`, written in hexadecimal.
    pub fn new(digest: &[u8], issuer: Option<Identifier>, certificates: Vec<Cert>) -> (r: AuthenSig)
        ensures
            r.digest@ == ascii_chars(hex_of(digest@)),
            r.issuer == issuer,
            r.certificates == certificates,
    {
        let digits = ByteBuf(digest).to_hex();
        proof {
            lemma_hex_ascii(digest@);
        }
        AuthenSig { digest: ascii_string(digits.as_slice()), issuer, certificates }
    }
}

/// The digest that the Authenticode signature in an entry of the
/// certificate table holds. There is none where the entry holds no such
/// signature.
pub uninterp spec fn signature_digest_of(
    revision: u16,
    certificate_type: u16,
    data: Seq<u8>,
) -> Option<Seq<u8>>;

/// The bytes of a buffer that may be missing.
pub open spec fn option_bytes(b: Option<Vec<u8>>) -> Option<Seq<u8>> {
    match b {
        Some(b) => Some(b@),
        None => None,
    }
}

/// Decodes an entry of the certificate table and reads the digest of the
/// signature in it.
///
/// Calls `authenticode::AttributeCertificate::get_authenticode_signature`
/// and, on the signature, `digest`. Assumed of them: whether the entry
/// decodes, and to which digest, depends on its revision, its type and its
/// bytes alone; and only an entry of revision 2.0 that holds PKCS signed data
/// decodes.
#[verifier::external_body]
fn signature_digest(revision: u16, certificate_type: u16, data: &[u8]) -> (r: Option<Vec<u8>>)
    ensures
        option_bytes(r) == signature_digest_of(revision, certificate_type, data@),
        r.is_some() ==> revision == REVISION_2_0 && certificate_type == PKCS_SIGNED_DATA,
{
    let encoded = authenticode::AttributeCertificate { revision, certificate_type, data };
    match encoded.get_authenticode_signature() {
        Ok(signature) => Some(signature.digest().to_vec()),
        Err(_) => None,
    }
}

/// Whether `decoded` is what an entry of the certificate table gives:
/// nothing if it holds no signature, else the signature with the digest in
/// it and with the names that `names` read from the entry. Only an entry of
/// revision 2.0 that holds PKCS signed data gives a signature.
pub open spec fn decoded_as<F: Fn(&AttributeCertificate) -> (Option<Identifier>, Vec<Cert>)>(
    names: F,
    entry: AttributeCertificate,
    decoded: Option<AuthenSig>,
) -> bool {
    match signature_digest_of(entry.revision, entry.certificate_type, entry.data@) {
        Some(digest) => {
            &&& entry.is_signed_data()
            &&& decoded matches Some(sig)
            &&& sig.digest@ == ascii_chars(hex_of(digest))
            &&& call_ensures(names, (&entry,), (sig.issuer, sig.certificates))
        },
        None => decoded.is_none(),
    }
}

/// Whether `entries` are the entries of the image's certificate table and
/// `decoded` is what each of them gives.
pub open spec fn decodes_to<F: Fn(&AttributeCertificate) -> (Option<Identifier>, Vec<Cert>)>(
    names: F,
    image: Image,
    entries: Seq<AttributeCertificate>,
    decoded: Seq<Option<AuthenSig>>,
) -> bool {
    &&& certificates_of(image) == Ok::<Seq<CertificateFacts>, CertificateError>(
        certificate_facts(entries),
    )
    &&& decoded.len() == entries.len()
    &&& forall|i: int|
        0 <= i < entries.len() ==> decoded_as(names, #[trigger] entries[i], decoded[i])
}

impl PeAuthenticodes {
    /// The signature in an entry of the certificate table, if it holds one.
    /// The names in the signature, those of its signer and of its
    /// certificates, are for `names` to read, which is called only on an
    /// entry that holds a signature.
    pub fn decode<F: Fn(&AttributeCertificate) -> (Option<Identifier>, Vec<Cert>)>(
        entry: &AttributeCertificate,
        names: &F,
    ) -> (r: Option<AuthenSig>)
        requires
            call_requires(*names, (entry,)),
        ensures
            decoded_as(*names, *entry, r),
    {
        match signature_digest(entry.revision, entry.certificate_type, entry.data.as_slice()) {
            Some(digest) => {
                let (issuer, certificates) = names(entry);
                Some(AuthenSig::new(digest.as_slice(), issuer, certificates))
            },
            None => None,
        }
    }

    /// The signatures of an image: the certificate table is walked, and each
    /// entry that holds a signature gives one, in order. A table that
    /// cannot be walked to its end gives the error of its first broken
    /// entry, and no entry is decoded at all.
    pub fn parse<F: Fn(&AttributeCertificate) -> (Option<Identifier>, Vec<Cert>)>(
        image: &Image,
        names: F,
    ) -> (r: Result<PeAuthenticodes, CertificateError>)
        requires
            forall|entry: &AttributeCertificate| call_requires(names, (entry,)),
        ensures
            match r {
                Ok(found) => exists|
                    entries: Seq<AttributeCertificate>,
                    decoded: Seq<Option<AuthenSig>>,
                |
                    #[trigger] decodes_to(names, *image, entries, decoded) && found.signatures@
                        == kept(decoded),
                Err(e) => certificates_of(*image) == Err::<Seq<CertificateFacts>, CertificateError>(
                    e,
                ),
            },
    {
        let entries = match certificate_table(image) {
            Ok(entries) => entries,
            Err(e) => {
                return Err(e);
            },
        };
        let mut decoded: Vec<Option<AuthenSig>> = Vec::new();
        let mut i: usize = 0;
        while i < entries.len()
            invariant
                i <= entries@.len(),
                decoded@.len() == i,
                forall|entry: &AttributeCertificate| call_requires(names, (entry,)),
                forall|k: int| 0 <= k < i ==> decoded_as(names, #[trigger] entries@[k], decoded@[k]),
            decreases entries@.len() - i,
        {
            let signature = Self::decode(&entries[i], &names);
            decoded.push(signature);
            i += 1;
        }
        let ghost results = decoded@;
        let found = Self::from_decoded(decoded);
        assert(decodes_to(names, *image, entries@, results));
        Ok(found)
    }

    /// The signatures of an image, given what each entry of its certificate
    /// table decodes to: an entry that is no Authenticode signature is left
    /// out.
    pub fn from_decoded(decoded: Vec<Option<AuthenSig>>) -> (r: PeAuthenticodes)
        ensures
            r.signatures@ == kept(decoded@),
    {
        let mut decoded = decoded;
        let ghost all = decoded@;
        let mut reversed: Vec<AuthenSig> = Vec::new();
        let ghost mut tail: Seq<AuthenSig> = Seq::empty();
        while decoded.len() > 0
            invariant
                decoded@.len() <= all.len(),
                decoded@ == all.subrange(0, decoded@.len() as int),
                kept(all) == kept(decoded@) + tail,
                reversed@ == tail.reverse(),
            decreases decoded@.len(),
        {
            let ghost before = decoded@;
            let last = decoded.pop();
            assert(decoded@ =~= before.drop_last());
            match last {
                Some(Some(sig)) => {
                    proof {
                        assert(kept(before) == kept(decoded@).push(sig));
                        assert(kept(decoded@).push(sig) + tail =~= kept(decoded@) + (seq![sig]
                            + tail));
                        assert((seq![sig] + tail).reverse() =~= tail.reverse().push(sig));
                        tail = seq![sig] + tail;
                    }
                    reversed.push(sig);
                },
                _ => {},
            }
        }
        assert(kept(decoded@) =~= Seq::<AuthenSig>::empty());
        let mut signatures: Vec<AuthenSig> = Vec::new();
        while reversed.len() > 0
            invariant
                signatures@ + reversed@.reverse() == tail,
            decreases reversed@.len(),
        {
            let ghost before = reversed@;
            let ghost done = signatures@;
            match reversed.pop() {
                Some(sig) => {
                    assert(reversed@ =~= before.drop_last());
                    assert(before.reverse() =~= seq![sig] + reversed@.reverse());
                    signatures.push(sig);
                    assert(signatures@ + reversed@.reverse() =~= done + before.reverse());
                },
                None => {},
            }
        }
        assert(signatures@ + reversed@.reverse() =~= signatures@);
        assert(Seq::<AuthenSig>::empty() + tail =~= tail);
        PeAuthenticodes { signatures }
    }
}

} // verus!
