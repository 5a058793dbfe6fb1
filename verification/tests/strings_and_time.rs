use rpecli::compare::{compare_rich, compare_strings, Comparable};
use rpecli::rich::{RichRecord, RichTable};
use rpecli::strings::{get_strings, MatchString};
use rpecli::timestamps::format_timestamp;

#[test]
fn timestamps_as_dates() {
    assert_eq!(
        format_timestamp(0).as_deref(),
        Some("1970-01-01 00:00:00 (Timestamp: 0 (0x0))")
    );
    assert_eq!(
        format_timestamp(1_600_000_000).as_deref(),
        Some("2020-09-13 12:26:40 (Timestamp: 1600000000 (0x5f5e1000))")
    );
    assert_eq!(
        format_timestamp(u32::MAX as i64).as_deref(),
        Some("2106-02-07 06:28:15 (Timestamp: 4294967295 (0xffffffff))")
    );
}

#[test]
fn timestamps_before_1970() {
    assert_eq!(
        format_timestamp(-1).as_deref(),
        Some("1969-12-31 23:59:59 (Timestamp: -1 (0xffffffffffffffff))")
    );
    assert_eq!(
        format_timestamp(-86_400 * 365).as_deref(),
        Some("1969-01-01 00:00:00 (Timestamp: -31536000 (0xfffffffffe1ecc80))")
    );
}

#[test]
fn timestamps_without_a_date() {
    assert_eq!(format_timestamp(i64::MAX), None);
    assert_eq!(format_timestamp(i64::MIN), None);
}

#[test]
fn strings_of_a_buffer() {
    let mut buffer = b"\x01\x02hello\x00ab\x00".to_vec();
    buffer.extend_from_slice(&[b'w', 0, b'i', 0, b'd', 0, b'e', 0, 0, 0]);
    let found = get_strings(&buffer, 4).unwrap();
    let mut texts = Vec::new();
    let mut iter = found.clone().into_iter();
    while let Some(text) = iter.next() {
        texts.push(text);
    }
    assert_eq!(texts, vec!["hello".to_string(), "wide".to_string()]);
    assert_eq!(found.len(), 2);
    assert_eq!(found.texts(), texts);
    assert!(iter.next().is_none());
}

#[test]
fn a_least_length_of_zero_finds_nothing() {
    assert!(get_strings(b"printable text", 0).is_none());
    assert!(get_strings(b"", 0).is_none());
    assert_eq!(get_strings(b"a\0bc\0", 1).unwrap().texts(), vec!["a".to_string(), "bc".to_string()]);
}

#[test]
fn a_least_length_above_the_buffer_finds_no_string() {
    assert_eq!(get_strings(b"text", 5).unwrap().len(), 0);
    assert_eq!(get_strings(b"text", usize::MAX).unwrap().len(), 0);
    assert_eq!(get_strings(b"", 1).unwrap().len(), 0);
    assert_eq!(get_strings(b"text", 4).unwrap().texts(), vec!["text".to_string()]);
}

#[test]
fn short_strings_are_left_out() {
    let found = get_strings(b"abc\0defg\0", 4).unwrap();
    assert_eq!(found.texts(), vec!["defg".to_string()]);
    assert_eq!(get_strings(b"", 4).unwrap().len(), 0);
    assert_eq!(get_strings(&[0u8; 64], 1).unwrap().len(), 0);
}

fn record(product: u16) -> RichRecord {
    RichRecord { build: 1, product, count: 2 }
}

fn table(products: &[u16]) -> RichTable {
    RichTable { rich_entries: products.iter().map(|p| record(*p)).collect(), key: 0 }
}

#[test]
fn records_are_counted_once_for_each_table() {
    let tables = vec![table(&[1, 2, 2, 3]), table(&[2, 3]), table(&[3, 3, 3]), table(&[])];
    let counted = compare_rich(&tables);
    assert_eq!(counted, vec![(record(1), 1), (record(2), 2), (record(3), 3)]);
    assert_eq!(RichTable::compare(tables), counted);
}

#[test]
fn the_rarest_records_come_first() {
    let tables = vec![table(&[9, 8, 7]), table(&[9, 7]), table(&[9])];
    assert_eq!(compare_rich(&tables), vec![(record(8), 1), (record(7), 2), (record(9), 3)]);
    // records that are equally rare keep the order in which they first occur
    let tables = vec![table(&[5, 4]), table(&[6])];
    assert_eq!(compare_rich(&tables), vec![(record(5), 1), (record(4), 1), (record(6), 1)]);
    assert!(compare_rich(&vec![]).is_empty());
}

#[test]
fn records_differ_in_any_field() {
    let a = RichRecord { build: 1, product: 2, count: 3 };
    let b = RichRecord { build: 1, product: 2, count: 4 };
    let c = RichRecord { build: 9, product: 2, count: 3 };
    let tables = vec![
        RichTable { rich_entries: vec![a, b, c], key: 1 },
        RichTable { rich_entries: vec![a], key: 2 },
    ];
    assert_eq!(compare_rich(&tables), vec![(b, 1), (c, 1), (a, 2)]);
}

#[test]
fn strings_are_counted_across_inputs() {
    let inputs = vec![
        MatchString::new(vec![("alpha".to_string(), 0), ("beta".to_string(), 9), ("alpha".to_string(), 20)]),
        MatchString::new(vec![("beta".to_string(), 3)]),
        MatchString::new(vec![("gamma".to_string(), 1), ("beta".to_string(), 8)]),
    ];
    let counted = compare_strings(&inputs);
    assert_eq!(
        counted,
        vec![("alpha".to_string(), 1), ("gamma".to_string(), 1), ("beta".to_string(), 3)]
    );
    assert_eq!(MatchString::compare(inputs), counted);
}
