use pdir::{decode_lossy, read_text, read_text_lossy};

#[test]
fn read_text_lossy_reads_utf8_file() {
    let read: Result<Vec<u8>, String> = Ok("hello world\n".as_bytes().to_vec());
    assert_eq!(read_text_lossy(read).unwrap(), "hello world\n");
}

#[test]
fn read_text_lossy_survives_non_utf8() {
    let read: Result<Vec<u8>, String> = Ok(b"\xff\xfe binary \x00\x01".to_vec());
    assert!(read_text_lossy(read).is_ok());
}

#[test]
fn read_text_lossy_missing_file_errors() {
    let read: Result<Vec<u8>, String> = Err("reading /nonexistent/path/file.txt".to_string());
    let result = read_text_lossy(read);
    assert!(result.is_err());
}

#[test]
fn read_text_returns_some_for_valid_utf8() {
    let read: Result<Vec<u8>, String> = Ok("hello\n".as_bytes().to_vec());
    assert_eq!(read_text(read).unwrap(), Some("hello\n".to_string()));
}

#[test]
fn read_text_returns_none_for_binary() {
    let read: Result<Vec<u8>, String> = Ok(b"\xff\xfe\x00\x01".to_vec());
    assert_eq!(read_text(read).unwrap(), None);
}

#[test]
fn read_errors_are_handed_on() {
    assert_eq!(read_text(Err::<Vec<u8>, u8>(7)), Err(7));
    assert_eq!(read_text_lossy(Err::<Vec<u8>, u8>(7)), Err(7));
}

#[test]
fn strict_decoding_follows_utf8() {
    let decode = |bytes: &[u8]| read_text(Ok::<Vec<u8>, ()>(bytes.to_vec())).unwrap();
    assert_eq!(decode(b""), Some(String::new()));
    assert_eq!(decode(b"\0\x7f"), Some("\0\u{7f}".to_string()));
    assert_eq!(decode("\u{e9}\u{20ac}\u{1F600}".as_bytes()), Some("\u{e9}\u{20ac}\u{1F600}".to_string()));
    // A lone continuation byte, an overlong form, a surrogate, a value past the
    // last scalar and a truncated sequence.
    assert_eq!(decode(b"\x80"), None);
    assert_eq!(decode(b"\xc0\x80"), None);
    assert_eq!(decode(b"\xed\xa0\x80"), None);
    assert_eq!(decode(b"\xf4\x90\x80\x80"), None);
    assert_eq!(decode(b"\xe2\x82"), None);
}

#[test]
fn lossy_decoding_replaces_invalid_sequences() {
    assert_eq!(decode_lossy(b"a\xffb"), "a\u{FFFD}b");
    assert_eq!(decode_lossy("\u{20ac}".as_bytes()), "\u{20ac}");
    assert_eq!(decode_lossy(b""), "");
    assert!(decode_lossy(b"h\xc3\xa9llo\xe2\x82").starts_with("h\u{e9}llo"));
}
