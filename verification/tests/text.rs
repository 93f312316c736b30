use wallcraft::text::{decimal_chars, to_wide, trim_chars, trim_end_matching};

fn chars_of(s: &str) -> Vec<char> {
    s.chars().collect()
}

fn string_of(v: &[char]) -> String {
    v.iter().collect()
}


#[test]
fn wide_strings_match_std() {
    for s in ["", "Progman", "WorkerW", "C:\\壁纸\\a.mp4", "emoji 😀 here"] {
        let mut expected: Vec<u16> = s.encode_utf16().collect();
        expected.push(0);
        assert_eq!(to_wide(s), expected, "{:?}", s);
    }
}

#[test]
fn trimming_matches_std() {
    for s in ["  a b  ", "\u{a0}x\u{2029}", "", "   ", "\u{200b}z"] {
        assert_eq!(string_of(&trim_chars(&chars_of(s))), s.trim(), "{:?}", s);
    }
    assert_eq!(string_of(&trim_end_matching(&chars_of("a.b..."), '.')), "a.b");
}

#[test]
fn decimal_numbers() {
    assert_eq!(string_of(&decimal_chars(0)), "0");
    assert_eq!(string_of(&decimal_chars(1234567890)), "1234567890");
    assert_eq!(string_of(&decimal_chars(u64::MAX)), u64::MAX.to_string());
}
