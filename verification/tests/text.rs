use loom::text::{
    byte_len, is_text_before, parse_u32, push_decimal, push_repeated, rsplit_colon, same_text,
    to_chars,
};

fn decimal(n: u64) -> String {
    let mut out = String::from("n=");
    push_decimal(&mut out, n);
    out
}

#[test]
fn numbers_are_written_without_leading_zeros() {
    assert_eq!(decimal(0), "n=0");
    assert_eq!(decimal(7), "n=7");
    assert_eq!(decimal(10), "n=10");
    assert_eq!(decimal(1203), "n=1203");
    assert_eq!(decimal(u64::MAX), "n=18446744073709551615");
}

#[test]
fn written_numbers_read_back() {
    for n in [0u32, 1, 9, 10, 393, 4096, u32::MAX] {
        let mut out = String::new();
        push_decimal(&mut out, n as u64);
        assert_eq!(parse_u32(&out), Some(n));
    }
}

#[test]
fn numbers_are_read_as_the_standard_library_does() {
    for s in [
        "", "+", "-", "-0", "0", "+0", "007", "+12", "++1", "1+", " 1", "1 ", "12a", "4294967295",
        "4294967296", "+4294967295", "99999999999999999999999", "00000000000000000000000001", "١",
    ] {
        assert_eq!(parse_u32(s), s.parse::<u32>().ok(), "{s:?}");
    }
}

#[test]
fn splits_at_the_last_colon() {
    for s in ["", ":", "a", "a:", ":b", "a:b", "C:\\src\\lib.rs:3:4", "é:✓"] {
        assert_eq!(rsplit_colon(s), s.rsplit_once(':'), "{s:?}");
    }
}

#[test]
fn strings_are_compared_as_the_standard_library_does() {
    let all = [
        "", "a", "ab", "b", "src/a.rs", "src/a/b.rs", "é", "z", "✓", "\u{10000}", "\u{ffff}",
    ];
    for a in all {
        for b in all {
            assert_eq!(is_text_before(a, b), a < b, "{a:?} {b:?}");
            assert_eq!(same_text(a, b), a == b, "{a:?} {b:?}");
        }
    }
}

#[test]
fn lengths_are_in_bytes() {
    assert_eq!(byte_len(""), 0);
    assert_eq!(byte_len("abc"), 3);
    assert_eq!(byte_len("é✓"), 5);
}

#[test]
fn repeats_a_character() {
    let mut out = String::from("<");
    push_repeated(&mut out, '=', 3);
    push_repeated(&mut out, '-', 0);
    assert_eq!(out, "<===");
    assert_eq!(to_chars("é✓"), vec!['é', '✓']);
}
