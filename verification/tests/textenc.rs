use rgh::textenc::{base_name, percent_encode, u64_to_dec};

#[test]
fn zero_renders_as_one_digit() {
    assert_eq!(u64_to_dec(0), "0");
}

#[test]
fn decimal_rendering_has_no_leading_zeros() {
    assert_eq!(u64_to_dec(42), "42");
    assert_eq!(u64_to_dec(1000), "1000");
    assert_eq!(u64_to_dec(18446744073709551615), "18446744073709551615");
}

#[test]
fn base_name_of_plain_name_is_itself() {
    assert_eq!(base_name("file.bin"), "file.bin");
}

#[test]
fn base_name_takes_the_last_segment() {
    assert_eq!(base_name("a/b/c.tar.gz"), "c.tar.gz");
    assert_eq!(base_name("/abs/path"), "path");
}

#[test]
fn base_name_of_trailing_slash_is_empty() {
    assert_eq!(base_name("dir/"), "");
    assert_eq!(base_name(""), "");
}

#[test]
fn unreserved_characters_stay_as_they_are() {
    assert_eq!(percent_encode("AZaz09-_.~"), "AZaz09-_.~");
}

#[test]
fn reserved_ascii_is_escaped_in_hex() {
    assert_eq!(percent_encode("a b"), "a%20b");
    assert_eq!(percent_encode("x+y&z"), "x%2by%26z");
    assert_eq!(percent_encode("%"), "%25");
}

#[test]
fn multibyte_characters_escape_every_byte() {
    assert_eq!(percent_encode("h\u{e9}llo"), "h%c3%a9llo");
    assert_eq!(percent_encode("\u{65e5}"), "%e6%97%a5");
}

#[test]
fn empty_name_encodes_to_empty() {
    assert_eq!(percent_encode(""), "");
}
