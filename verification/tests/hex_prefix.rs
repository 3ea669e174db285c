use jj_bench::hex_prefix::HexPrefix;

fn hex(prefix: &str) -> Option<String> {
    HexPrefix::new(prefix).map(|prefix| prefix.hex())
}

#[test]
fn prefixes_may_be_odd_or_even() {
    assert_eq!(hex("a"), Some("a".to_owned()));
    assert_eq!(hex("ab"), Some("ab".to_owned()));
    assert_eq!(hex("aaaaa"), Some("aaaaa".to_owned()));
    assert_eq!(
        hex("0123456789abcdef0123456789abcdef01234567"),
        Some("0123456789abcdef0123456789abcdef01234567".to_owned())
    );
}

#[test]
fn empty_prefix_is_a_prefix() {
    assert_eq!(hex(""), Some(String::new()));
}

#[test]
fn prefixes_are_written_in_lower_case() {
    assert_eq!(hex("0aBCdeF9"), Some("0abcdef9".to_owned()));
}

#[test]
fn case_does_not_count() {
    assert_eq!(hex("DeadBeef"), hex("dEADbEEF"));
}

#[test]
fn prefixes_are_read_back() {
    let written = hex("04E").unwrap();
    assert_eq!(written, "04e");
    assert_eq!(hex(&written), Some(written));
}

#[test]
fn other_characters_are_refused() {
    for prefix in ["g", "foo", "0x1", " a", "a ", "-", "@", "`", "/", ":", "G", "é", "\u{ff11}"] {
        assert_eq!(hex(prefix), None, "{prefix}");
    }
}

#[test]
fn copies_are_equal() {
    let prefix = HexPrefix::new("04e").unwrap();
    assert_eq!(prefix.clone().hex(), "04e");
}
