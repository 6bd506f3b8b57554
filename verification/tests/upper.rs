use transfer_engine::upper::absorb;
use transfer_engine::upper::shout;
use transfer_engine::upper::to_upper;

#[test]
fn letters_and_their_neighbours() {
    assert_eq!(to_upper(b'a'), b'A');
    assert_eq!(to_upper(b'm'), b'M');
    assert_eq!(to_upper(b'z'), b'Z');
    assert_eq!(to_upper(b'`'), b'`');
    assert_eq!(to_upper(b'{'), b'{');
    assert_eq!(to_upper(b'A'), b'A');
    assert_eq!(to_upper(b'Z'), b'Z');
    assert_eq!(to_upper(b'0'), b'0');
    assert_eq!(to_upper(b'\n'), b'\n');
    assert_eq!(to_upper(0), 0);
    assert_eq!(to_upper(0xe9), 0xe9);
    assert_eq!(to_upper(0xff), 0xff);
}

#[test]
fn every_byte_as_the_standard_library_has_it() {
    for byte in 0..=u8::MAX {
        assert_eq!(to_upper(byte), byte.to_ascii_uppercase());
    }
}

#[test]
fn a_document_in_upper_case() {
    let json_doc = r#"{
        "user": {
            "id": 12345,
            "name": "bryan user",
            "email": "bryan@example.com"
        }"#;
    let json_doc_uppercase = r#"{
        "USER": {
            "ID": 12345,
            "NAME": "BRYAN USER",
            "EMAIL": "BRYAN@EXAMPLE.COM"
        }"#;
    assert_eq!(shout(json_doc.as_bytes()), json_doc_uppercase.as_bytes().to_vec());
}

#[test]
fn chunks_are_appended_in_order() {
    let mut output: Vec<u8> = Vec::new();
    absorb(&mut output, b"hello world\n");
    assert_eq!(output, b"HELLO WORLD\n".to_vec());
    absorb(&mut output, b"");
    assert_eq!(output, b"HELLO WORLD\n".to_vec());
    absorb(&mut output, b"test message\n");
    assert_eq!(output, b"HELLO WORLD\nTEST MESSAGE\n".to_vec());
}

#[test]
fn what_was_there_is_left_alone() {
    let mut output: Vec<u8> = b"kept as is: ".to_vec();
    absorb(&mut output, b"this is a test.");
    assert_eq!(output, b"kept as is: THIS IS A TEST.".to_vec());
}

#[test]
fn any_split_gives_the_same_text() {
    let text = b"hello world!\nthis is a test.\n";
    let whole = shout(text);
    assert_eq!(whole, b"HELLO WORLD!\nTHIS IS A TEST.\n".to_vec());
    for cut in 0..=text.len() {
        let mut output: Vec<u8> = Vec::new();
        absorb(&mut output, &text[..cut]);
        absorb(&mut output, &text[cut..]);
        assert_eq!(output, whole);
    }
}

#[test]
fn upper_case_twice_is_upper_case_once() {
    let once = shout(b"Mixed Case 123 {z}");
    assert_eq!(once, b"MIXED CASE 123 {Z}".to_vec());
    assert_eq!(shout(&once), once);
}

#[test]
fn a_large_text_keeps_its_length() {
    let text = "A".repeat(10_000_000);
    let out = shout(text.as_bytes());
    assert_eq!(out.len(), 10_000_000);
    assert!(out.iter().all(|byte| *byte == b'A'));
}
