use paperdock::text;

const SAMPLES: [&str; 12] = [
    "",
    " ",
    "a",
    "  a b\t c\n",
    "\u{a0}x\u{3000}",
    "one\n\ntwo\n\n\n\nthree",
    "::a::b:",
    "a:::b",
    "éa—ß\u{1F600}",
    "\r\n\u{85}\u{2028}x",
    "x \u{200b} y",
    "groups/12/34",
];

#[test]
fn white_space_is_what_unicode_says() {
    let mut n: u32 = 0;
    while n <= 0x10FFFF {
        if let Some(c) = char::from_u32(n) {
            assert_eq!(text::space(c), c.is_whitespace(), "U+{n:04X}");
        }
        n += 1;
    }
}

#[test]
fn trimming_agrees_with_std() {
    for s in SAMPLES {
        assert_eq!(text::trim(s), s.trim());
        assert_eq!(text::blank(s), s.trim().is_empty());
    }
}

#[test]
fn splitting_agrees_with_std() {
    for s in SAMPLES {
        let words: Vec<&str> = s.split_whitespace().collect();
        assert_eq!(text::split_words(s), words);
        for mark in ["\n\n", "::", "/", "a"] {
            let parts: Vec<&str> = s.split(mark).collect();
            assert_eq!(text::part(s, mark), parts);
            let place = s.find(mark).map(|i| s[..i].chars().count());
            assert_eq!(text::find_text(s, mark), place);
            assert_eq!(text::starts_with(s, mark), s.starts_with(mark));
            assert_eq!(text::ends_with(s, mark), s.ends_with(mark));
        }
        let cut: Vec<bool> = s.chars().map(|c| !c.is_alphanumeric()).collect();
        let pieces: Vec<&str> = s.split(|c: char| !c.is_alphanumeric()).collect();
        assert_eq!(text::split(s, &cut), pieces);
    }
}

#[test]
fn replacing_agrees_with_std() {
    for s in SAMPLES {
        assert_eq!(text::replace(s, '/', "_"), s.replace('/', "_"));
        assert_eq!(text::replace(s, 'a', "aa"), s.replace('a', "aa"));
        assert_eq!(text::replace(s, ' ', ""), s.replace(' ', ""));
    }
}

#[test]
fn joining_agrees_with_std() {
    let parts = vec!["a".to_string(), String::new(), "b c".to_string()];
    for n in 0..4 {
        let some: Vec<String> = parts[..n].to_vec();
        assert_eq!(text::join(&some, ", "), some.join(", "));
    }
}

#[test]
fn clipping_counts_characters() {
    for s in SAMPLES {
        for n in [0usize, 1, 3, 40] {
            let expected: String = s.chars().take(n).collect();
            assert_eq!(text::clip(s, n), expected);
        }
    }
}

#[test]
fn numbers_are_written_in_decimal() {
    for n in [0u128, 7, 10, 99, 100, 1234567890, u64::MAX as u128, u128::MAX] {
        assert_eq!(text::write_decimal(n), n.to_string());
    }
    for n in [0i64, -1, 42, i64::MAX, i64::MIN] {
        assert_eq!(text::write_signed_decimal(n), n.to_string());
    }
}

#[test]
fn numbers_are_read_as_std_reads_them() {
    for s in [
        "", "0", "7", "+7", "-7", "+", "++1", "007", " 7", "7 ", "4294967295", "4294967296",
        "18446744073709551615", "18446744073709551616", "99999999999999999999999", "1e3", "٣",
    ] {
        assert_eq!(text::read_unsigned(s, u64::MAX), s.parse::<u64>().ok(), "{s}");
        assert_eq!(text::read_unsigned(s, u32::MAX as u64), s.parse::<u32>().ok().map(u64::from));
    }
}

#[test]
fn texts_are_compared() {
    assert!(text::same_text("äb", "äb"));
    assert!(!text::same_text("ab", "ab "));
    assert!(!text::same_text("ab", "aB"));
}
