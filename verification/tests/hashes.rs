use rpecli::export::{ExportEntry, Exports};
use rpecli::hashes::{exphash, imphash, parse_decimal};
use rpecli::import::{Import, ImportEntry, ImportFunction, Imports};

fn by_name(name: &str) -> ImportFunction {
    ImportFunction { name: name.to_string(), import_by_ordinal: false }
}

fn by_ordinal(ordinal: u32) -> ImportFunction {
    ImportFunction { name: ordinal.to_string(), import_by_ordinal: true }
}

fn module(name: &str, imports: Vec<ImportFunction>) -> ImportEntry {
    ImportEntry { name: name.to_string(), imports }
}

fn hex(bytes: &[u8]) -> String {
    bytes.iter().map(|b| format!("{:02x}", b)).collect()
}

#[test]
fn import_hash_of_names_and_ordinals() {
    // md5("kernel32.createfilew,kernel32.ord7")
    let imports = Imports {
        modules: vec![module("kernel32.dll", vec![by_name("CreateFileW"), by_ordinal(7)])],
    };
    assert_eq!(hex(&imphash(&imports)), "0e6ed19b9cd583a1ef63bb27913a0fd1");
}

#[test]
fn import_hash_knows_the_ordinals_of_winsock() {
    // md5("ws2_32.connect,user32.messageboxa")
    let imports = Imports {
        modules: vec![
            module("ws2_32.dll", vec![by_ordinal(4)]),
            module("user32.dll", vec![by_name("MessageBoxA")]),
        ],
    };
    assert_eq!(hex(&imphash(&imports)), "8216d498b172d515a5558ea29c78e3ef");
}

#[test]
fn import_hash_drops_three_extensions() {
    // md5("kernel32.createfilew,kernel32.ord7,ws2_32.connect,drv.a,lib.ocx.b,plain.x")
    let imports = Imports {
        modules: vec![
            module("kernel32.dll", vec![by_name("CreateFileW"), by_ordinal(7)]),
            module("ws2_32.dll", vec![by_ordinal(4)]),
            module("drv.sys", vec![by_name("A")]),
            module("lib.ocx.ocx", vec![by_name("B")]),
            module("plain", vec![by_name("X")]),
        ],
    };
    assert_eq!(hex(&imphash(&imports)), "d5ea88b4fe0bac8b6790493f6ef9de77");
}

#[test]
fn import_hash_lowers_the_module_name() {
    // md5("kernel32.createfilew,kernel32.ord7")
    let imports = Imports {
        modules: vec![module("KERNEL32.DLL", vec![by_name("CreateFileW"), by_ordinal(7)])],
    };
    assert_eq!(hex(&imphash(&imports)), "0e6ed19b9cd583a1ef63bb27913a0fd1");
    // md5("ws2_32.connect,user32.messageboxa")
    let mixed = Imports {
        modules: vec![
            module("WS2_32.dll", vec![by_ordinal(4)]),
            module("User32.Dll", vec![by_name("MessageBoxA")]),
        ],
    };
    assert_eq!(hex(&imphash(&mixed)), "8216d498b172d515a5558ea29c78e3ef");
}

#[test]
fn import_hash_depends_on_the_order() {
    let one = Imports {
        modules: vec![module("a.dll", vec![by_name("x"), by_name("y")])],
    };
    let other = Imports {
        modules: vec![module("a.dll", vec![by_name("y"), by_name("x")])],
    };
    assert_ne!(imphash(&one), imphash(&other));
    assert_eq!(imphash(&one), imphash(&one.clone()));
}

#[test]
fn import_hash_of_nothing() {
    // md5("")
    assert_eq!(hex(&imphash(&Imports { modules: vec![] })), "d41d8cd98f00b204e9800998ecf8427e");
    let empty_module = Imports { modules: vec![module("a.dll", vec![])] };
    assert_eq!(hex(&imphash(&empty_module)), "d41d8cd98f00b204e9800998ecf8427e");
    // md5("a.b"): a single import has no comma
    let single = Imports { modules: vec![module("a.dll", vec![by_name("B")])] };
    assert_eq!(hex(&imphash(&single)), "e32b629f658481c8aa169aa08acc0625");
}

#[test]
fn decimal_numbers() {
    assert_eq!(parse_decimal(b"0"), Some(0));
    assert_eq!(parse_decimal(b"7"), Some(7));
    assert_eq!(parse_decimal(b"007"), Some(7));
    assert_eq!(parse_decimal(b"4294967295"), Some(u32::MAX));
    assert_eq!(parse_decimal(b"4294967296"), None);
    assert_eq!(parse_decimal(b"99999999999999999999"), None);
    assert_eq!(parse_decimal(b""), None);
    assert_eq!(parse_decimal(b"12a"), None);
    assert_eq!(parse_decimal(b"-1"), None);
    assert_eq!(parse_decimal(b" 1"), None);
}

fn export(ordinal: u16, name: Option<&str>) -> ExportEntry {
    ExportEntry { name: name.map(|n| n.to_string()), ordinal, rva: Some(0x1000), forwarded_name: None }
}

fn exports(entries: Vec<ExportEntry>) -> Exports {
    Exports {
        characteristics: 0,
        major_version: 0,
        minor_version: 0,
        export_file_name: "x.dll".to_string(),
        base: 1,
        number_of_functions: entries.len() as u32,
        number_of_names: 0,
        address_of_functions: 0,
        address_of_names: 0,
        address_of_names_ordinals: 0,
        timestamp: 0,
        entries,
    }
}

#[test]
fn export_hash_joins_the_names_in_small_letters() {
    // sha256("foo,bar")
    let table = exports(vec![export(1, Some("Foo")), export(2, None), export(3, Some("BAR"))]);
    assert_eq!(exphash(&table), "bb981672fbc42ea173d68a654d4e0c1f64d9b049f6f887cf06f6a5897fc59250");
}

#[test]
fn export_hash_of_no_names() {
    // sha256("")
    let table = exports(vec![export(1, None)]);
    assert_eq!(
        exphash(&table),
        "e3b0c44298fc1c149afbf4c8996fb92427ae41e4649b934ca495991b7852b855"
    );
    assert_eq!(exphash(&exports(vec![])), exphash(&table));
}

#[test]
fn an_import_keeps_its_name_and_lowers_its_module() {
    let import = Import::new("KERNEL32.DLL".to_string(), "CreateFileW".to_string());
    assert_eq!(import.dll.as_deref(), Some("kernel32.dll"));
    assert_eq!(import.name.as_deref(), Some("CreateFileW"));
    let import = Import::new("\u{c4}B.dll".to_string(), String::new());
    assert_eq!(import.dll.as_deref(), Some("\u{e4}b.dll"));
}
