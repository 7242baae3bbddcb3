use boundless_tray::text::{
    at_most, char_is_white, copy_texts, decimal_string, find_char, holds_text,
    join, parse_unsigned, prefix_of_bytes, replace_char, rest_after, rfind_char, same_ignoring_case,
    same_texts, sort_texts, split, take_digits, to_lower, trim, word,
};

fn texts(all: &[&str]) -> Vec<String> {
    all.iter().map(|text| text.to_string()).collect()
}

const SAMPLES: [&str; 12] = [
    "",
    " ",
    "a",
    " a b ",
    "\u{a0}\u{2003}x\u{3000}",
    "\u{200b}x",
    "K\u{212a}\u{c4}z",
    "a,b;;c,",
    "\u{1f600}b",
    "007",
    "18446744073709551615",
    "\u{85}tab\t",
];

#[test]
fn texts_are_trimmed_and_lowered_as_the_standard_library_does() {
    for sample in SAMPLES {
        assert_eq!(trim(sample), sample.trim());
        assert_eq!(to_lower(sample), sample.to_ascii_lowercase());
        for other in SAMPLES {
            assert_eq!(
                same_ignoring_case(sample, other),
                sample.eq_ignore_ascii_case(other)
            );
            assert_eq!(at_most(sample, other), sample <= other);
        }
    }
    for code in 0..0x3100_u32 {
        if let Some(c) = char::from_u32(code) {
            assert_eq!(char_is_white(c), c.is_whitespace(), "{code:x}");
        }
    }
}

#[test]
fn texts_are_cut_and_joined_as_the_standard_library_does() {
    for sample in SAMPLES {
        for sep in [',', ';', 'b', '\u{1f600}'] {
            let cut: Vec<String> = sample.split(sep).map(str::to_string).collect();
            assert_eq!(split(sample, sep), cut);
            assert_eq!(join(&cut, "-"), cut.join("-"));
            assert_eq!(
                replace_char(sample, sep, '_'),
                sample.replace(sep, "_")
            );
            let first = sample.chars().position(|c| c == sep);
            assert_eq!(find_char(sample, sep), first);
            let last = sample
                .chars()
                .enumerate()
                .filter(|(_, c)| *c == sep)
                .map(|(at, _)| at)
                .last();
            assert_eq!(rfind_char(sample, sep), last);
        }
        assert_eq!(
            word(sample),
            sample.split_whitespace().next().map(str::to_string)
        );
        for bytes in 0..6_usize {
            assert_eq!(
                prefix_of_bytes(sample, bytes),
                sample.get(..bytes).map(|front| front.chars().count())
            );
        }
    }
    assert_eq!(rest_after("id=7;", "id="), Some("7;".to_string()));
    assert_eq!(rest_after("none", "id="), None);
}

#[test]
fn numbers_are_read_as_the_standard_library_reads_them() {
    for sample in SAMPLES {
        assert_eq!(parse_unsigned(sample, u64::MAX), sample.parse::<u64>().ok());
    }
    for sample in ["+5", "-5", "+", "5 ", "65535", "65536", "00065535"] {
        let wanted = sample.parse::<u16>().ok().map(u64::from);
        assert_eq!(parse_unsigned(sample, 65535), wanted, "{sample}");
    }
    for number in [0, 9, 10, 4096, u64::MAX] {
        assert_eq!(decimal_string(number), number.to_string());
    }
    assert_eq!(take_digits("42a7"), "42");
    assert_eq!(take_digits("a7"), "");
}

#[test]
fn lists_of_texts_are_sorted_and_compared() {
    let list = texts(&["pear", "apple", "pea", "apple"]);
    assert_eq!(
        sort_texts(copy_texts(&list)),
        texts(&["apple", "apple", "pea", "pear"])
    );
    assert!(holds_text(&list, "pea"));
    assert!(!holds_text(&list, "Pea"));
    assert!(same_texts(&list, &copy_texts(&list)));
    assert!(!same_texts(&list, &texts(&["pear"])));
}
