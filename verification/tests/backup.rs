use lycan::backup::{
    b64_decode, b64_encode, backup_file, check_backup, file_content, rollback_name, skip_name,
    staging_name, Backup, BackupFile,
};

#[test]
fn b64_roundtrip() {
    for input in &[
        b"" as &[u8],
        b"a",
        b"ab",
        b"abc",
        b"abcd",
        b"hello, world",
        &[0u8, 1, 2, 3, 255, 254, 253, 252][..],
    ] {
        let enc = b64_encode(input);
        let dec = b64_decode(&enc).unwrap();
        assert_eq!(&dec[..], *input);
    }
}

#[test]
fn b64_of_known_texts() {
    assert_eq!(b64_encode(b"a"), "YQ==");
    assert_eq!(b64_encode(b"ab"), "YWI=");
    assert_eq!(b64_encode(b"abc"), "YWJj");
    assert_eq!(b64_encode(&[255, 239, 191]), "/++/");
    assert_eq!(b64_decode(" YW\nJj\t").unwrap(), b"abc");
}

#[test]
fn b64_rejects_what_is_not_base64() {
    assert_eq!(b64_decode("abc").unwrap_err(), "base64 length not divisible by 4");
    assert_eq!(b64_decode("ab!=").unwrap_err(), "invalid base64 byte: 33");
    assert_eq!(b64_decode("=abc").unwrap_err(), "invalid base64 byte: 61");
}

fn one(path: &str, content: &str) -> Backup {
    Backup {
        v: 1,
        created_at: 0,
        files: vec![BackupFile { path: path.into(), content_b64: content.into() }],
    }
}

#[test]
fn restore_rejects_traversal_paths() {
    let err = check_backup(&one("../escape.txt", "QQ==")).unwrap_err();
    assert_eq!(err, "refusing unsafe path in backup: \"../escape.txt\"");
    assert!(check_backup(&one("/etc/x", "QQ==")).unwrap_err().contains("unsafe path"));
    assert!(check_backup(&one("", "QQ==")).unwrap_err().contains("unsafe path"));
    assert!(check_backup(&one("a/b.txt", "QQ==")).is_ok());
}

#[test]
fn restore_rejects_wrong_version() {
    let b = Backup { v: 999, created_at: 0, files: vec![] };
    assert_eq!(
        check_backup(&b).unwrap_err(),
        "backup version 999 not supported by this server (expected 1)"
    );
}

#[test]
fn backup_restore_roundtrip_preserves_files() {
    let f = backup_file("tenants/acme/current.lyc", b"LYCNbinary");
    assert_eq!(f.path, "tenants/acme/current.lyc");
    assert_eq!(file_content(&f).unwrap(), b"LYCNbinary");
    let bad = BackupFile { path: "x".into(), content_b64: "abc".into() };
    assert_eq!(
        file_content(&bad).unwrap_err(),
        "decode x: base64 length not divisible by 4"
    );
}

#[test]
fn leftovers_of_a_restore_are_not_backed_up() {
    assert!(skip_name(&staging_name("store", "1-2")));
    assert!(skip_name(&rollback_name("store", "1-2")));
    assert_eq!(staging_name("store", "1-2"), "store.restore-staging-1-2");
    assert!(skip_name(".readiness_probe"));
    assert!(!skip_name("tokens.json"));
}
