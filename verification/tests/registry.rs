use vm_boundary::error::ErrorSlot;
use vm_boundary::imports::{build_import_object, Binding, ImportEntry};
use vm_boundary::text::{bytes_eq, check_utf8};

fn entry(module: &[u8], name: &[u8], binding: Binding) -> ImportEntry {
    ImportEntry { module_name: module.to_vec(), import_name: name.to_vec(), binding }
}

#[test]
fn imports_group_by_module_name() {
    let imports = vec![
        entry(b"env", b"log", Binding::Function(1)),
        entry(b"env", b"mem", Binding::Memory(2)),
        entry(b"wasi", b"clock", Binding::Function(3)),
    ];
    let mut err = ErrorSlot::new();
    let object = build_import_object(&imports, &mut err).unwrap();
    assert_eq!(object.namespaces.len(), 2);
    assert_eq!(object.namespaces[0].name, b"env".to_vec());
    assert_eq!(object.namespaces[0].entries.len(), 2);
    assert_eq!(object.namespaces[1].name, b"wasi".to_vec());
    assert_eq!(object.namespaces[1].entries.len(), 1);
    assert!(!err.has_message());
}

#[test]
fn duplicate_import_name_takes_last_binding() {
    let imports = vec![
        entry(b"env", b"log", Binding::Function(1)),
        entry(b"env", b"log", Binding::Function(9)),
    ];
    let mut err = ErrorSlot::new();
    let object = build_import_object(&imports, &mut err).unwrap();
    assert_eq!(object.namespaces.len(), 1);
    let ns = &object.namespaces[0];
    assert_eq!(ns.entries.len(), 1);
    assert_eq!(ns.entries[0].name, b"log".to_vec());
    assert_eq!(ns.entries[0].binding, Binding::Function(9));
}

#[test]
fn invalid_module_name_is_reported() {
    let imports = vec![entry(&[0xff, 0xfe], b"log", Binding::Function(1))];
    let mut err = ErrorSlot::new();
    assert!(build_import_object(&imports, &mut err).is_err());
    let mut buf = Vec::new();
    let n = err.last_error_message(&mut buf, 256);
    assert_eq!(&buf[..n], b"error converting module name to string");
}

#[test]
fn invalid_import_name_is_reported() {
    let imports = vec![entry(b"env", &[0xc0, 0x80], Binding::Global(4))];
    let mut err = ErrorSlot::new();
    assert!(build_import_object(&imports, &mut err).is_err());
    let mut buf = Vec::new();
    let n = err.last_error_message(&mut buf, 256);
    assert_eq!(&buf[..n], b"error converting import_name to string");
}

#[test]
fn utf8_checker_accepts_valid_text() {
    for ok in [
        &b""[..],
        b"plain ascii",
        "caf\u{e9}".as_bytes(),
        "\u{4e2d}\u{6587}".as_bytes(),
        "\u{1f600}".as_bytes(),
    ] {
        assert!(check_utf8(&ok.to_vec()), "rejected {:?}", ok);
    }
}

#[test]
fn utf8_checker_rejects_malformed_text() {
    for bad in [
        &[0xffu8][..],
        &[0x80],             // continuation byte first
        &[0xc0, 0x80],       // overlong two-byte form
        &[0xe0, 0x80, 0x80], // overlong three-byte form
        &[0xed, 0xa0, 0x80], // surrogate
        &[0xf4, 0x90, 0x80, 0x80], // beyond the last scalar value
        &[0xc3],             // truncated
        &[0xe2, 0x82],       // truncated
        &[0xf0, 0x9f, 0x98], // truncated
        &[0x61, 0xf8, 0x61], // no width-five leading byte
    ] {
        assert!(!check_utf8(&bad.to_vec()), "accepted {:?}", bad);
    }
}

#[test]
fn utf8_checker_agrees_with_std() {
    let interesting: &[u8] = &[
        0x00, 0x41, 0x7f, 0x80, 0x9f, 0xa0, 0xbf, 0xc0, 0xc1, 0xc2, 0xdf, 0xe0, 0xe1, 0xed, 0xef,
        0xf0, 0xf4, 0xf5, 0xff,
    ];
    for a in 0..=255u8 {
        let s = vec![a];
        assert_eq!(check_utf8(&s), std::str::from_utf8(&s).is_ok(), "one byte {:?}", s);
    }
    for &a in interesting {
        for &b in interesting {
            let s = vec![a, b];
            assert_eq!(check_utf8(&s), std::str::from_utf8(&s).is_ok(), "two bytes {:?}", s);
            for &c in interesting {
                let s = vec![a, b, c];
                assert_eq!(check_utf8(&s), std::str::from_utf8(&s).is_ok(), "three bytes {:?}", s);
                let s = vec![a, b, c, 0x80];
                assert_eq!(check_utf8(&s), std::str::from_utf8(&s).is_ok(), "four bytes {:?}", s);
            }
        }
    }
}

#[test]
fn byte_equality_is_exact() {
    assert!(bytes_eq(&b"abc".to_vec(), &b"abc".to_vec()));
    assert!(!bytes_eq(&b"abc".to_vec(), &b"abd".to_vec()));
    assert!(!bytes_eq(&b"abc".to_vec(), &b"ab".to_vec()));
    assert!(bytes_eq(&Vec::new(), &Vec::new()));
}
