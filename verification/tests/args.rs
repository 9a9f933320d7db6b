use halfblock::args::{parse_optional_int, parse_size, path_header, MalformedSize};

#[test]
fn plain_numbers_are_read() {
    assert_eq!(parse_size("0"), Some(0));
    assert_eq!(parse_size("7"), Some(7));
    assert_eq!(parse_size("42"), Some(42));
    assert_eq!(parse_size("100"), Some(100));
    assert_eq!(parse_size("4294967295"), Some(u32::MAX));
}

#[test]
fn plus_sign_and_leading_zeros_are_read() {
    assert_eq!(parse_size("+7"), Some(7));
    assert_eq!(parse_size("007"), Some(7));
    assert_eq!(parse_size("+007"), Some(7));
    assert_eq!(parse_size("000000000000000000004294967295"), Some(u32::MAX));
}

#[test]
fn too_large_numbers_are_refused() {
    assert_eq!(parse_size("4294967296"), None);
    assert_eq!(parse_size("42949672950"), None);
    assert_eq!(parse_size("99999999999999999999999999999999"), None);
}

#[test]
fn other_text_is_refused() {
    assert_eq!(parse_size(""), None);
    assert_eq!(parse_size("+"), None);
    assert_eq!(parse_size("-"), None);
    assert_eq!(parse_size("-1"), None);
    assert_eq!(parse_size("-0"), None);
    assert_eq!(parse_size("++1"), None);
    assert_eq!(parse_size("1+"), None);
    assert_eq!(parse_size("12a"), None);
    assert_eq!(parse_size("a12"), None);
    assert_eq!(parse_size(" 5"), None);
    assert_eq!(parse_size("5 "), None);
    assert_eq!(parse_size("1.5"), None);
    assert_eq!(parse_size("0x10"), None);
    assert_eq!(parse_size("\u{ff11}\u{ff12}"), None);
    assert_eq!(parse_size("1\u{e9}"), None);
}

#[test]
fn sizes_are_read_as_the_language_reads_them() {
    let texts = [
        "0", "1", "+1", "-1", "", "+", "-", "00", "+00", "4294967295", "4294967296", "12x", "x12",
        " 1", "1 ", "+-1", "\u{663}", "1_000", "1e3",
    ];
    for text in texts {
        assert_eq!(parse_size(text), u32::from_str_radix(text, 10).ok(), "{:?}", text);
    }
}

#[test]
fn missing_size_is_no_size() {
    assert_eq!(parse_optional_int(None), Ok(None));
}

#[test]
fn given_size_is_read() {
    assert_eq!(parse_optional_int(Some(String::from("120"))), Ok(Some(120)));
    assert_eq!(parse_optional_int(Some(String::from("0"))), Ok(Some(0)));
}

#[test]
fn malformed_size_comes_back_with_its_text() {
    let error = parse_optional_int(Some(String::from("wide"))).unwrap_err();
    assert_eq!(error, MalformedSize { text: String::from("wide") });
    assert_eq!(error.message(), "Malformed size: wide");
    let empty = parse_optional_int(Some(String::new())).unwrap_err();
    assert_eq!(empty.message(), "Malformed size: ");
}

#[test]
fn one_image_has_no_header() {
    assert_eq!(path_header("a.png", 0), "");
    assert_eq!(path_header("a.png", 1), "");
}

#[test]
fn several_images_have_their_path_as_header() {
    assert_eq!(path_header("a.png", 2), "a.png\n");
    assert_eq!(path_header("dir/b c.jpg", 3), "dir/b c.jpg\n");
    assert_eq!(path_header("", 2), "\n");
    assert_eq!(path_header("a.png", usize::MAX), "a.png\n");
}
