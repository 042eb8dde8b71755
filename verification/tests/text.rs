use bitbygit::bytes::{
    file_name_of, has_parent_component, is_absolute, join_path, parent_path,
};
use bitbygit::digest::{digest_of, push_field, to_code_bytes, to_low_bytes};
use bitbygit::git::status::parse_utf8;
use bitbygit::number::{decimal_of, decode_hex, encode_hex, hex_digit, hex_number_of, parse_number};
use bitbygit::order::{insert_path, insert_text, is_before, same_path, sort_bytes};
use bitbygit::session::CapturedStream;
use bitbygit::text::{
    chars_of, holds_part, is_control, is_text_ignoring_case, is_whitespace, lines, split,
    split_whitespace, string_of, to_lowercase, trimmed_text,
};
use sha2::{Digest, Sha256};

fn shown(parts: &[&[char]]) -> Vec<String> {
    parts.iter().map(|part| part.iter().collect()).collect()
}

#[test]
fn white_space_is_what_the_standard_library_says() {
    for code in 0..=0x10ffff_u32 {
        if let Some(character) = char::from_u32(code) {
            assert_eq!(is_whitespace(character), character.is_whitespace(), "{code:x}");
            assert_eq!(is_control(character), character.is_control(), "{code:x}");
        }
    }
}

#[test]
fn texts_are_split_and_trimmed_as_by_the_standard_library() {
    for text in ["", " ", "a", " a\u{3000}b\t", "x\ny\r\nz", "\n\n", "a\r", "\u{85}q\u{2028}"] {
        assert_eq!(trimmed_text(text), text.trim());
        let characters = chars_of(text);
        assert_eq!(string_of(&characters), text);
        assert_eq!(shown(&lines(&characters)), text.lines().collect::<Vec<_>>(), "{text:?}");
        assert_eq!(
            shown(&split_whitespace(&characters)),
            text.split_whitespace().collect::<Vec<_>>(),
            "{text:?}"
        );
        assert_eq!(
            shown(&split(&characters, '\n')),
            text.split('\n').collect::<Vec<_>>(),
            "{text:?}"
        );
        assert_eq!(holds_part(text, "\n"), text.contains('\n'));
    }
    assert!(holds_part("abcab", "cab"));
    assert!(!holds_part("abcab", "cabx"));
    assert!(holds_part("", ""));
}

#[test]
fn letters_are_lowered() {
    let lowered = to_lowercase(&chars_of("FEAtureÉ"));
    assert_eq!(string_of(&lowered), "featureÉ");
    assert!(is_text_ignoring_case(&chars_of("PuLL"), "pull"));
    assert!(!is_text_ignoring_case(&chars_of("pulls"), "pull"));
}

#[test]
fn numbers_are_read_and_written() {
    for value in [0, 1, 9, 10, 99, 12345, u64::MAX] {
        let text = decimal_of(value);
        assert_eq!(text, value.to_string());
        assert_eq!(parse_number(&chars_of(&text), u64::MAX), Some(value));
        assert_eq!(hex_number_of(value), format!("{value:016x}"));
    }
    assert_eq!(parse_number(&chars_of("18446744073709551616"), u64::MAX), None);
    assert_eq!(parse_number(&chars_of("256"), 255), None);
    assert_eq!(parse_number(&chars_of("+7"), 255), Some(7));
    assert_eq!(parse_number(&chars_of("+"), 255), None);
    assert_eq!(parse_number(&chars_of("1 "), 255), None);
    assert_eq!(encode_hex(&[0, 255, 16]), "00ff10");
    assert_eq!(decode_hex(b"00ff10"), Some(vec![0, 255, 16]));
    assert_eq!(decode_hex(b""), Some(Vec::new()));
    assert_eq!(decode_hex(b"0g"), None);
}

#[test]
fn digits_beyond_fifteen_are_zero() {
    let digits: String = (0..16).map(hex_digit).collect();
    assert_eq!(digits, "0123456789abcdef");
    assert_eq!(hex_digit(16), '0');
    assert_eq!(hex_digit(255), '0');
}

#[test]
fn digests_are_those_of_the_hash() {
    assert_eq!(
        encode_hex(&digest_of(b"abc")),
        "ba7816bf8f01cfea414140de5dae2223b00361a396177a9cb410ff61f20015ad"
    );
    for bytes in [&b""[..], b"x", b"longer than a few bytes"] {
        assert_eq!(digest_of(bytes).to_vec(), Sha256::digest(bytes).to_vec());
    }
    let mut transcript = Vec::new();
    push_field(&mut transcript, b"ab");
    push_field(&mut transcript, b"");
    assert_eq!(transcript[..10], [2, 0, 0, 0, 0, 0, 0, 0, b'a', b'b']);
    assert_eq!(transcript.len(), 18);
    assert_eq!(to_low_bytes(0x0102, 4), vec![2, 1, 0, 0]);
    assert_eq!(to_code_bytes(Some(-2)), (-2_i32).to_le_bytes().to_vec());
    assert_eq!(to_code_bytes(None), i32::MIN.to_le_bytes().to_vec());
}

#[test]
fn bytes_are_read_as_text() {
    assert_eq!(parse_utf8("é".as_bytes(), "name").ok(), Some("é".to_owned()));
    assert!(parse_utf8(b"a\xff", "name").is_err());
    let stream = |bytes: &[u8]| CapturedStream {
        bytes: bytes.to_vec(),
        digest: Vec::new(),
        truncated: false,
    };
    assert_eq!(stream(b"a\xff\xe2\x82").lossy_text(), "a\u{fffd}\u{fffd}");
    assert_eq!(stream("é".as_bytes()).lossy_text(), "é");
}

#[test]
fn paths_are_joined_and_taken_apart() {
    assert_eq!(join_path(b"/a", b"b"), b"/a/b".to_vec());
    assert_eq!(join_path(b"/a/", b"b"), b"/a/b".to_vec());
    assert_eq!(join_path(b"/a", b"/b"), b"/b".to_vec());
    assert_eq!(join_path(b"", b"b"), b"b".to_vec());
    assert!(is_absolute(b"/a"));
    assert!(!is_absolute(b"a"));
    assert!(has_parent_component(b"a/../b"));
    assert!(!has_parent_component(b"a/..b"));
    for path in ["/", "/a", "a", "", "/a/b", "/a/b/", "a/..", "/a/."] {
        let expected = std::path::Path::new(path);
        assert_eq!(
            parent_path(path.as_bytes()).map(<[u8]>::to_vec),
            expected.parent().and_then(|parent| parent.to_str()).map(|text| text.as_bytes().to_vec()),
            "{path}"
        );
        assert_eq!(
            file_name_of(path.as_bytes()).map(<[u8]>::to_vec),
            expected
                .file_name()
                .and_then(|name| name.to_str())
                .map(|text| text.as_bytes().to_vec()),
            "{path}"
        );
    }
}

#[test]
fn lists_are_kept_in_order() {
    let mut list = Vec::new();
    for word in ["b", "a", "c", "a", "B"] {
        insert_text(&mut list, word.to_owned());
    }
    assert_eq!(list, ["B", "a", "b", "c"]);
    assert!(is_before(b"a", b"ab"));
    assert!(!is_before(b"b", b"ab"));
    let sorted = sort_bytes(vec![b"b".to_vec(), b"a".to_vec(), b"\xff".to_vec(), b"".to_vec()]);
    assert_eq!(sorted, vec![b"".to_vec(), b"a".to_vec(), b"b".to_vec(), b"\xff".to_vec()]);

    let mut paths = Vec::new();
    for path in ["a/b", "a.b", "a//b", "a", "./a"] {
        insert_path(&mut paths, path.as_bytes().to_vec());
    }
    let mut expected: Vec<std::path::PathBuf> = Vec::new();
    for path in ["a/b", "a.b", "a//b", "a", "./a"] {
        let path = std::path::PathBuf::from(path);
        if !expected.contains(&path) {
            expected.push(path);
        }
    }
    expected.sort();
    assert_eq!(
        paths.iter().map(|path| String::from_utf8_lossy(path).into_owned()).collect::<Vec<_>>(),
        expected.iter().map(|path| path.to_string_lossy().into_owned()).collect::<Vec<_>>()
    );
    assert!(same_path(b"a//b", b"a/b"));
    assert!(!same_path(b"a/b", b"a.b"));
}

#[test]
fn paths_are_kept_in_order_without_repeats() {
    let mut list: Vec<Vec<u8>> = Vec::new();
    for path in ["b/c", "a-b", "a/b", "b//c", "./a", "a", "/a", "a/./b", "../a"] {
        insert_path(&mut list, path.as_bytes().to_vec());
    }
    let expected = ["/a", "./a", "../a", "a", "a/b", "a-b", "b/c"];
    assert_eq!(list, expected.map(|path| path.as_bytes().to_vec()));
    let mut paths: Vec<std::path::PathBuf> =
        expected.iter().rev().map(std::path::PathBuf::from).collect();
    paths.sort();
    assert_eq!(paths, expected.map(std::path::PathBuf::from));
}
