use extension_report::order::{bytes_precede, str_precedes};

#[test]
fn order_is_that_of_str() {
    let words = [
        "", "a", "A", "aa", "ab", "b", "md", "txt", "TXT", "tx", "txt2", "z", "\u{e9}",
        "\u{434}\u{43e}\u{43a}", "\u{1f600}", "~", "0", "10", "9", "rs", "r", "rst",
    ];
    for a in words {
        for b in words {
            assert_eq!(str_precedes(a, b), a < b, "{a:?} {b:?}");
        }
    }
}

#[test]
fn proper_prefix_comes_first() {
    assert!(str_precedes("tar", "tar.gz"));
    assert!(!str_precedes("tar.gz", "tar"));
    assert!(str_precedes("", "a"));
    assert!(!str_precedes("a", ""));
}

#[test]
fn nothing_precedes_itself() {
    for a in ["", "a", "txt", "\u{e9}"] {
        assert!(!str_precedes(a, a));
    }
}

#[test]
fn first_differing_byte_decides() {
    assert!(str_precedes("abc", "abd"));
    assert!(!str_precedes("abd", "abc"));
    assert!(str_precedes("abcz", "abd"));
    assert!(str_precedes("Z", "a"));
}

#[test]
fn bytes_compare_unsigned() {
    assert!(bytes_precede(&[0x7f], &[0x80]));
    assert!(!bytes_precede(&[0xff], &[0x00, 0x01]));
    assert!(bytes_precede(&[], &[0]));
    assert!(!bytes_precede(&[], &[]));
    assert!(bytes_precede(&[1, 2], &[1, 2, 0]));
}
