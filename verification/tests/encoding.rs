use midnight_block_reader::encoding::{block_number_hex, strip_prefix};

#[test]
fn block_number_hex_of_sample_block() {
    assert_eq!(block_number_hex(13915), "0x365b");
}

#[test]
fn block_number_hex_of_zero_is_one_digit() {
    assert_eq!(block_number_hex(0), "0x0");
}

#[test]
fn block_number_hex_of_small_numbers() {
    assert_eq!(block_number_hex(1), "0x1");
    assert_eq!(block_number_hex(9), "0x9");
    assert_eq!(block_number_hex(10), "0xa");
    assert_eq!(block_number_hex(15), "0xf");
    assert_eq!(block_number_hex(16), "0x10");
    assert_eq!(block_number_hex(255), "0xff");
    assert_eq!(block_number_hex(256), "0x100");
    assert_eq!(block_number_hex(0xdead_beef), "0xdeadbeef");
}

#[test]
fn block_number_hex_of_largest_number() {
    assert_eq!(block_number_hex(u64::MAX), "0xffffffffffffffff");
}

#[test]
fn block_number_hex_is_canonical_on_many_numbers() {
    let mut n: u64 = 0;
    let mut count = 0;
    while count < 2000 {
        let text = block_number_hex(n);
        assert!(text.starts_with("0x"));
        let digits = &text[2..];
        assert!(!digits.is_empty());
        assert!(digits.chars().all(|c| c.is_ascii_digit() || ('a'..='f').contains(&c)));
        assert_eq!(digits.starts_with('0'), n == 0);
        assert_eq!(u64::from_str_radix(digits, 16).unwrap(), n);
        assert_eq!(text, format!("0x{:x}", n));
        n = n.wrapping_mul(6364136223846793005).wrapping_add(1442695040888963407);
        count += 1;
    }
}

#[test]
fn strip_prefix_drops_two_characters() {
    assert_eq!(strip_prefix("0xabcd"), Some("abcd"));
    assert_eq!(strip_prefix("0x"), Some(""));
    assert_eq!(strip_prefix("zzrest"), Some("rest"));
}

#[test]
fn strip_prefix_of_short_text_is_none() {
    assert_eq!(strip_prefix(""), None);
    assert_eq!(strip_prefix("0"), None);
}

#[test]
fn strip_prefix_counts_characters() {
    assert_eq!(strip_prefix("\u{e9}\u{e9}ab"), Some("ab"));
    assert_eq!(strip_prefix("\u{e9}"), None);
}
