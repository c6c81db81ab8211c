use hostname::ascii::{is_ascii_alphanumeric, is_ascii_whitespace};
use hostname::syntax::{is_valid_name, trim_ascii};

#[test]
fn white_space_is_space_tab_line_feed_form_feed_carriage_return() {
    for byte in 0u8..=255 {
        let expected = matches!(byte, b' ' | b'\t' | b'\n' | 0x0c | b'\r');
        assert_eq!(is_ascii_whitespace(byte), expected, "byte {byte}");
        assert_eq!(is_ascii_whitespace(byte), byte.is_ascii_whitespace(), "byte {byte}");
    }
}

#[test]
fn vertical_tab_is_not_white_space() {
    assert!(!is_ascii_whitespace(0x0b));
}

#[test]
fn alphanumeric_is_letters_and_digits() {
    for byte in 0u8..=255 {
        assert_eq!(is_ascii_alphanumeric(byte), byte.is_ascii_alphanumeric(), "byte {byte}");
    }
    assert!(is_ascii_alphanumeric(b'0'));
    assert!(is_ascii_alphanumeric(b'9'));
    assert!(is_ascii_alphanumeric(b'A'));
    assert!(is_ascii_alphanumeric(b'Z'));
    assert!(is_ascii_alphanumeric(b'a'));
    assert!(is_ascii_alphanumeric(b'z'));
    assert!(!is_ascii_alphanumeric(b'/'));
    assert!(!is_ascii_alphanumeric(b':'));
    assert!(!is_ascii_alphanumeric(b'@'));
    assert!(!is_ascii_alphanumeric(b'['));
    assert!(!is_ascii_alphanumeric(b'`'));
    assert!(!is_ascii_alphanumeric(b'{'));
    assert!(!is_ascii_alphanumeric(b'-'));
    assert!(!is_ascii_alphanumeric(b'.'));
    assert!(!is_ascii_alphanumeric(b'_'));
}

#[test]
fn trimming_strips_both_ends() {
    assert_eq!(trim_ascii(b"  example.com  "), b"example.com".to_vec());
    assert_eq!(trim_ascii(b"\t\r\n\x0c example \x0c\n\r\t"), b"example".to_vec());
}

#[test]
fn trimming_keeps_inner_white_space() {
    assert_eq!(trim_ascii(b" \t a b \r\n"), b"a b".to_vec());
    assert_eq!(trim_ascii(b"a\tb"), b"a\tb".to_vec());
}

#[test]
fn trimming_nothing_but_white_space_leaves_nothing() {
    assert_eq!(trim_ascii(b""), Vec::<u8>::new());
    assert_eq!(trim_ascii(b" "), Vec::<u8>::new());
    assert_eq!(trim_ascii(b" \t\r\n\x0c"), Vec::<u8>::new());
}

#[test]
fn trimming_leaves_other_bytes_alone() {
    assert_eq!(trim_ascii(b"\x0bname\x0b"), b"\x0bname\x0b".to_vec());
    assert_eq!(trim_ascii(b" \x00 "), b"\x00".to_vec());
    assert_eq!(trim_ascii(&[0x20, 0xff, 0x80, 0x20]), vec![0xff, 0x80]);
    assert_eq!(trim_ascii(b"x"), b"x".to_vec());
    assert_eq!(trim_ascii(b" x"), b"x".to_vec());
    assert_eq!(trim_ascii(b"x "), b"x".to_vec());
}

#[test]
fn trimming_agrees_with_the_standard_library() {
    let samples: [&[u8]; 8] = [
        b"",
        b"   ",
        b"a",
        b" a b ",
        b"\n\n a.b-c \t\t",
        b"\x0b a \x0b",
        b"\r\nhost\r\n",
        b"no-space",
    ];
    for sample in samples {
        assert_eq!(trim_ascii(sample), sample.trim_ascii().to_vec());
    }
}

#[test]
fn trimming_twice_is_trimming_once() {
    let samples: [&[u8]; 6] = [b"", b"   ", b" a ", b" a b ", b"\t\tx.y\r\n", b"\x0c-\x0c"];
    for sample in samples {
        let once = trim_ascii(sample);
        assert_eq!(trim_ascii(&once), once);
    }
}

#[test]
fn single_character_name_is_valid() {
    assert!(is_valid_name(b"a"));
    assert!(is_valid_name(b"Z"));
    assert!(is_valid_name(b"7"));
}

#[test]
fn empty_name_is_invalid() {
    assert!(!is_valid_name(b""));
}

#[test]
fn name_must_start_and_end_with_a_letter_or_digit() {
    assert!(!is_valid_name(b"a."));
    assert!(!is_valid_name(b".a"));
    assert!(!is_valid_name(b"a-"));
    assert!(!is_valid_name(b"-a"));
    assert!(!is_valid_name(b"."));
    assert!(!is_valid_name(b"-"));
    assert!(!is_valid_name(b"-a-"));
    assert!(!is_valid_name(b".example.com"));
    assert!(!is_valid_name(b"example.com."));
}

#[test]
fn forbidden_pairs_make_a_name_invalid() {
    assert!(!is_valid_name(b"a..b"));
    assert!(!is_valid_name(b"a.-b"));
    assert!(!is_valid_name(b"a-.b"));
    assert!(!is_valid_name(b"ab..cd"));
    assert!(!is_valid_name(b"a.b.-c"));
    assert!(!is_valid_name(b"a-.b.c"));
}

#[test]
fn consecutive_dashes_are_allowed() {
    assert!(is_valid_name(b"a--b"));
    assert!(is_valid_name(b"a---b"));
}

#[test]
fn dotted_names_with_dashes_and_digits_are_valid() {
    assert!(is_valid_name(b"a.b-c.d9"));
    assert!(is_valid_name(b"VALID-NAME.example"));
    assert!(is_valid_name(b"server.internal.example.com"));
    assert!(is_valid_name(b"random-domainname"));
    assert!(is_valid_name(b"example.com"));
    assert!(is_valid_name(b"0.1.2"));
}

#[test]
fn other_bytes_make_a_name_invalid() {
    assert!(!is_valid_name(b"invalid_domain_name"));
    assert!(!is_valid_name(b"a b"));
    assert!(!is_valid_name(b"a\tb"));
    assert!(!is_valid_name(b"a\0b"));
    assert!(!is_valid_name(b"a/b"));
    assert!(!is_valid_name(b"a:b"));
    assert!(!is_valid_name(b"a@b"));
    assert!(!is_valid_name(b" a"));
    assert!(!is_valid_name(b"a "));
    assert!(!is_valid_name(&[b'a', 0xc3, 0xa9, b'b']));
    assert!(!is_valid_name(&[0xff]));
}

#[test]
fn every_single_byte_name_is_judged_by_its_class() {
    for byte in 0u8..=255 {
        assert_eq!(is_valid_name(&[byte]), byte.is_ascii_alphanumeric(), "byte {byte}");
    }
}

#[test]
fn every_three_byte_name_around_a_middle_byte() {
    for byte in 0u8..=255 {
        let expected = byte.is_ascii_alphanumeric() || byte == b'-' || byte == b'.';
        assert_eq!(is_valid_name(&[b'a', byte, b'b']), expected, "byte {byte}");
    }
}

fn is_label(label: &[u8]) -> bool {
    !label.is_empty()
        && label[0].is_ascii_alphanumeric()
        && label[label.len() - 1].is_ascii_alphanumeric()
        && label.iter().all(|&b| b.is_ascii_alphanumeric() || b == b'-')
}

#[test]
fn valid_names_are_labels_with_dots_between_them() {
    let samples: [&[u8]; 20] = [
        b"",
        b"a",
        b"a.b",
        b"a.b.c",
        b"a-b.c-d",
        b"a--b",
        b"a.",
        b".a",
        b"a..b",
        b"a.-b",
        b"a-.b",
        b"-a.b",
        b"a.b-",
        b"a_b.c",
        b"a b",
        b"0.1.2.3",
        b"x-1.y-2.z-3",
        b"..",
        b"-",
        b"a.b.c.",
    ];
    for sample in samples {
        let labels: Vec<&[u8]> = sample.split(|&b| b == b'.').collect();
        let expected = labels.iter().all(|label| is_label(label));
        assert_eq!(is_valid_name(sample), expected, "{sample:?}");
    }
}
