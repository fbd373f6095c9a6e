use attendance::backup::{export_backup, import_backup};

#[test]
fn export_gives_padded_standard_base64() {
    assert_eq!(export_backup(b"hello".to_vec()), Ok("aGVsbG8=".to_string()));
    assert_eq!(export_backup(vec![]), Ok(String::new()));
    assert_eq!(export_backup(vec![0xfb, 0xff]), Ok("+/8=".to_string()));
    assert_eq!(export_backup(b"SQLite format 3\0".to_vec()), Ok("U1FMaXRlIGZvcm1hdCAzAA==".to_string()));
}

#[test]
fn import_reads_back_what_export_gave() {
    let content: Vec<u8> = (0u8..=255).collect();
    let text = export_backup(content.clone()).unwrap();
    assert_eq!(import_backup(text), Ok(content));
    assert_eq!(import_backup("aGVsbG8=".to_string()), Ok(b"hello".to_vec()));
}

#[test]
fn import_refuses_what_is_no_base64() {
    assert_eq!(import_backup("!!!!".to_string()), Err("Invalid byte 33, offset 0.".to_string()));
    assert!(import_backup("aGVsbG8".to_string()).is_err());
    assert!(import_backup("aGVsbG8= ".to_string()).is_err());
}
