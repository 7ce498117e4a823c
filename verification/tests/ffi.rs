use sentry_contrib_native::ffi::{
    contain, decode_borrowed, encode_path, encode_text, encode_wide_path, to_c_char,
};
use sentry_contrib_native::{CPath, CToR, RToC, Violation};

const SHRUGS: &str = "🤦‍♂️🤦‍♀️🤷‍♂️🤷‍♀️";

fn terminated(content: &[u8]) -> Vec<u8> {
    let mut buffer = content.to_vec();
    buffer.push(0);
    buffer
}

fn path_round_trip(string: &str) -> Vec<u8> {
    let path = string.as_bytes().to_vec().into_os_vec();
    path.into_iter().map(|ch| ch as u8).collect()
}

fn pointer_round_trip(string: &str) -> String {
    let buffer = terminated(string.as_bytes());
    Some(&buffer[..]).as_str().unwrap().to_owned()
}

fn text_round_trip(string: &str) -> String {
    let units = string.to_owned().into_cstring();
    Some(&units[..]).as_str().unwrap().to_owned()
}

#[test]
fn valid() {
    assert_eq!("abcdefgh\0".as_bytes(), &path_round_trip("abcdefgh")[..]);
    assert_eq!(
        "🤦‍♂️🤦‍♀️🤷‍♂️🤷‍♀️\0".as_bytes(),
        &path_round_trip("🤦‍♂️🤦‍♀️🤷‍♂️🤷‍♀️")[..]
    );
}

#[test]
fn ffi_valid() {
    assert_eq!("abcdefgh", pointer_round_trip("abcdefgh"));
    assert_eq!("abcd🤦‍♂️efgh", pointer_round_trip("abcd🤦‍♂️efgh"));
    assert_eq!("", pointer_round_trip(""));
    assert_eq!(None, None::<&[u8]>.as_str());
}

#[test]
fn rtoc_valid() {
    assert_eq!("abcdefgh", text_round_trip("abcdefgh"));
    assert_eq!(
        "🤦‍♂️🤦‍♀️🤷‍♂️🤷‍♀️",
        text_round_trip("🤦‍♂️🤦‍♀️🤷‍♂️🤷‍♀️")
    );
}

#[test]
fn path_is_its_bytes_and_one_terminator() {
    let units = encode_path("/tmp/app data".as_bytes()).unwrap();
    let expected: Vec<i8> = vec![47, 116, 109, 112, 47, 97, 112, 112, 32, 100, 97, 116, 97, 0];
    assert_eq!(expected, units);
    assert_eq!(expected, "/tmp/app data".as_bytes().to_vec().into_os_vec());
}

#[test]
fn wide_path_is_its_units_and_one_terminator() {
    let wide: Vec<u16> = "/tmp/app data".encode_utf16().collect();
    let units = encode_wide_path(&wide).unwrap();
    let expected: Vec<u16> = vec![47, 116, 109, 112, 47, 97, 112, 112, 32, 100, 97, 116, 97, 0];
    assert_eq!(expected, units);
    assert_eq!(expected, wide.into_os_vec());
}

#[test]
fn wide_path_keeps_surrogate_pairs() {
    let wide: Vec<u16> = "🤷".encode_utf16().collect();
    assert_eq!(vec![0xD83E, 0xDD37], wide);
    assert_eq!(Ok(vec![0xD83E, 0xDD37, 0]), encode_wide_path(&wide));
}

#[test]
fn empty_content_is_the_terminator_alone() {
    assert_eq!(Ok(vec![0i8]), encode_path(&[]));
    assert_eq!(Ok(vec![0u16]), encode_wide_path(&[]));
    assert_eq!(Ok(vec![0u8]), encode_text(""));
    assert_eq!(vec![0u8], String::new().into_cstring());
}

#[test]
fn high_bytes_become_negative_units() {
    assert_eq!(0, to_c_char(0));
    assert_eq!(127, to_c_char(127));
    assert_eq!(-128, to_c_char(128));
    assert_eq!(-2, to_c_char(0xfe));
    assert_eq!(-1, to_c_char(0xff));
    assert_eq!(Ok(vec![-16, -97, -92, -73, 0]), encode_path("🤷".as_bytes()));
    for byte in 0..=255u8 {
        assert_eq!(byte, to_c_char(byte) as u8);
    }
}

#[test]
fn text_is_its_utf8_and_one_terminator() {
    assert_eq!(Ok(vec![97, 98, 99, 0]), encode_text("abc"));
    assert_eq!(Ok(vec![0xc3, 0xa9, 0]), encode_text("é"));
    assert_eq!(Ok(terminated(SHRUGS.as_bytes())), encode_text(SHRUGS));
}

#[test]
fn path_with_null_byte_is_refused() {
    for path in [
        "abcdefgh\0",
        "🤦‍♂️🤦‍♀️🤷‍♂️🤷‍♀️\0",
        "\0abcdefgh",
        "\0🤦‍♂️🤦‍♀️🤷‍♂️🤷‍♀️",
        "abcd\0efgh",
        "🤦‍♂️🤦‍♀️\0🤷‍♂️🤷‍♀️",
        "\0",
        "a\0b\0c",
    ] {
        assert_eq!(Err(Violation::NulByte), encode_path(path.as_bytes()));
        let wide: Vec<u16> = path.encode_utf16().collect();
        assert_eq!(Err(Violation::NulByte), encode_wide_path(&wide));
    }
}

#[test]
fn text_with_null_byte_is_refused() {
    for text in [
        "abcdefgh\0",
        "🤦‍♂️🤦‍♀️🤷‍♂️🤷‍♀️\0",
        "\0abcdefgh",
        "\0🤦‍♂️🤦‍♀️🤷‍♂️🤷‍♀️",
        "abcd\0efgh",
        "🤦‍♂️🤦‍♀️\0🤷‍♂️🤷‍♀️",
        "\0",
    ] {
        assert_eq!(Err(Violation::NulByte), encode_text(text));
    }
}

#[test]
fn null_pointer_is_absent_text() {
    assert_eq!(Ok(None), decode_borrowed(None));
}

#[test]
fn pointer_is_read_up_to_the_first_terminator() {
    assert_eq!(Ok(Some("abc")), decode_borrowed(Some(b"abc\0")));
    assert_eq!(Ok(Some("abc")), decode_borrowed(Some(b"abc\0def\0")));
    assert_eq!(Ok(Some("")), decode_borrowed(Some(b"\0abc")));
    assert_eq!(Ok(Some("abc")), decode_borrowed(Some(b"abc\0\xff\xfe")));
    assert_eq!(Ok(Some("é")), decode_borrowed(Some(&[0xc3, 0xa9, 0])));
}

#[test]
fn invalid_utf8_is_refused() {
    assert_eq!(
        Err(Violation::InvalidUtf8),
        decode_borrowed(Some(&[0xfe, 0xfe, 0xff, 0xff, 0]))
    );
    assert_eq!(Err(Violation::InvalidUtf8), decode_borrowed(Some(&[0xc3, 0])));
    assert_eq!(Err(Violation::InvalidUtf8), decode_borrowed(Some(&[0xed, 0xa0, 0x80, 0])));
    assert_eq!(Err(Violation::InvalidUtf8), decode_borrowed(Some(&[0xc0, 0x80, 0])));
}

#[test]
fn buffer_without_terminator_is_refused() {
    assert_eq!(Err(Violation::Unterminated), decode_borrowed(Some(b"abc")));
    assert_eq!(Err(Violation::Unterminated), decode_borrowed(Some(b"")));
    assert_eq!(Err(Violation::Unterminated), decode_borrowed(Some(&[0xff, 0xfe])));
}

#[test]
fn encoded_text_decodes_to_itself() {
    for text in ["", "a", "abcdefgh", "abcd🤦‍♂️efgh", SHRUGS, "/tmp/app data"] {
        let units = encode_text(text).unwrap();
        assert_eq!(Some(&0), units.last());
        assert!(!units[..units.len() - 1].contains(&0));
        assert_eq!(Ok(Some(text)), decode_borrowed(Some(&units)));
        let path = encode_path(text.as_bytes()).unwrap();
        let back: Vec<u8> = path[..path.len() - 1].iter().map(|unit| *unit as u8).collect();
        assert_eq!(text.as_bytes(), &back[..]);
    }
}

#[test]
fn work_that_returned_hands_its_result_on() {
    assert_eq!(Some(3), contain(Ok::<u8, ()>(3)));
    assert_eq!(Some("sent"), contain(Ok::<&str, String>("sent")));
    assert_eq!(Some(()), contain(Ok::<(), u8>(())));
}

#[test]
fn work_that_unwound_ends_the_process() {
    assert_eq!(None, contain(Err::<u8, ()>(())));
    assert_eq!(None, contain(Err::<u8, &str>("this is a test")));
}

#[test]
fn violations_have_their_messages() {
    assert_eq!("found null byte", Violation::NulByte.message());
    assert_eq!("found invalid UTF-8", Violation::InvalidUtf8.message());
    assert_eq!("found no terminator", Violation::Unterminated.message());
    assert_eq!(
        "found null byte",
        encode_text("a\0").unwrap_err().message()
    );
    assert_eq!(
        "found invalid UTF-8",
        decode_borrowed(Some(&[0xff, 0])).unwrap_err().message()
    );
}
