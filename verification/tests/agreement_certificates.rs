//! The certificate table is walked as the `authenticode` crate walks it.

use std::ops::Range;

use authenticode::{
    AttributeCertificateError, AttributeCertificateIterator, PeOffsetError, PeOffsets, PeTrait,
};
use rpecli::image::{Arch, DataDirectoryEntry, Image};
use rpecli::sig::{certificate_table, CertificateError};

struct Table {
    data: Vec<u8>,
    range: Range<usize>,
}

impl PeTrait for Table {
    fn data(&self) -> &[u8] {
        &self.data
    }

    fn num_sections(&self) -> usize {
        0
    }

    fn section_data_range(&self, _index: usize) -> Result<Range<usize>, PeOffsetError> {
        Err(PeOffsetError)
    }

    fn certificate_table_range(&self) -> Result<Option<Range<usize>>, PeOffsetError> {
        Ok(Some(self.range.clone()))
    }

    fn offsets(&self) -> Result<PeOffsets, PeOffsetError> {
        Err(PeOffsetError)
    }
}

fn image_of(data: &[u8], range: &Range<usize>) -> Image {
    let mut directories = vec![DataDirectoryEntry { rva: 0, size: 0 }; 4];
    directories.push(DataDirectoryEntry {
        rva: range.start as u32,
        size: (range.end - range.start) as u32,
    });
    Image {
        data: data.to_vec(),
        arch: Arch::X64,
        nt_offset: 0x80,
        entry_point: 0,
        image_base: 0,
        subsystem: 0,
        timestamp: 0,
        characteristics: 0,
        directories,
        sections: vec![],
    }
}

/// What the `authenticode` crate finds: the entries, or the error with the
/// place of the entry that has an impossible length.
fn theirs(table: &Table) -> Result<Vec<(u16, u16, Vec<u8>)>, CertificateError> {
    let convert = |e: AttributeCertificateError, index: u32| match e {
        AttributeCertificateError::OutOfBounds => CertificateError::OutOfBounds,
        AttributeCertificateError::InvalidSize => CertificateError::InvalidSize,
        AttributeCertificateError::InvalidCertificateSize { .. } => {
            CertificateError::InvalidCertificateSize { index }
        }
    };
    let mut found = Vec::new();
    let Some(iter) = AttributeCertificateIterator::new(table).map_err(|e| convert(e, 0))? else {
        return Ok(found);
    };
    for (k, entry) in iter.enumerate() {
        let entry = entry.map_err(|e| convert(e, k as u32 + 1))?;
        found.push((entry.revision, entry.certificate_type, entry.data.to_vec()));
    }
    Ok(found)
}

fn mine(table: &Table) -> Result<Vec<(u16, u16, Vec<u8>)>, CertificateError> {
    let entries = certificate_table(&image_of(&table.data, &table.range))?;
    Ok(entries.into_iter().map(|e| (e.revision, e.certificate_type, e.data)).collect())
}

fn entry(size: u32, fill: u8) -> Vec<u8> {
    let mut bytes = size.to_le_bytes().to_vec();
    bytes.extend_from_slice(&0x0200u16.to_le_bytes());
    bytes.extend_from_slice(&2u16.to_le_bytes());
    bytes.resize(((size as usize).max(8) + 7) / 8 * 8, fill);
    bytes
}

fn table_of(parts: &[Vec<u8>], slack: usize) -> Table {
    let mut data = vec![0xeeu8; 0x20];
    for part in parts {
        data.extend_from_slice(part);
    }
    let end = data.len();
    data.resize(end + slack, 0);
    Table { data, range: 0x20..end }
}

#[test]
fn whole_tables_agree() {
    for parts in [
        vec![],
        vec![entry(8, 1)],
        vec![entry(9, 1)],
        vec![entry(16, 1), entry(24, 2)],
        vec![entry(13, 1), entry(8, 2), entry(31, 3)],
    ] {
        let table = table_of(&parts, 0x10);
        let found = mine(&table);
        assert!(found.is_ok());
        assert_eq!(found.as_ref().unwrap().len(), parts.len());
        assert_eq!(found, theirs(&table));
    }
}

#[test]
fn broken_tables_agree() {
    // an entry shorter than its header, first or later
    for parts in [
        vec![entry(7, 1)],
        vec![entry(0, 1)],
        vec![entry(16, 1), entry(3, 2)],
        vec![entry(16, 1), entry(16, 2), entry(1, 3)],
    ] {
        let table = table_of(&parts, 0x10);
        assert!(matches!(mine(&table), Err(CertificateError::InvalidCertificateSize { .. })));
        assert_eq!(mine(&table), theirs(&table));
    }
    // an entry longer than what is left
    let mut table = table_of(&[entry(16, 1), entry(16, 2)], 0x10);
    table.data[0x30..0x34].copy_from_slice(&17u32.to_le_bytes());
    assert_eq!(mine(&table), Err(CertificateError::InvalidCertificateSize { index: 2 }));
    assert_eq!(mine(&table), theirs(&table));
}

#[test]
fn tables_of_the_wrong_size_agree() {
    // bytes left over behind the last entry
    let mut table = table_of(&[entry(16, 1)], 0x10);
    table.range.end += 4;
    assert_eq!(mine(&table), Err(CertificateError::InvalidSize));
    assert_eq!(mine(&table), theirs(&table));
    // the padding of the last entry is cut off
    let mut table = table_of(&[entry(16, 1), entry(13, 2)], 0x10);
    table.range.end -= 1;
    assert_eq!(mine(&table), Err(CertificateError::InvalidSize));
    assert_eq!(mine(&table), theirs(&table));
    // the table runs past the file
    let mut table = table_of(&[entry(16, 1)], 0);
    table.range.end += 8;
    assert_eq!(mine(&table), Err(CertificateError::OutOfBounds));
    assert_eq!(mine(&table), theirs(&table));
}
