use kb::text::{chars_of, contains, decode, is_whitespace, last_word, split, trim};

const SAMPLES: [&str; 16] = [
    "",
    " ",
    "us",
    "  us  ",
    "layout:     us",
    "layout:     us,fr   ",
    "\tvariant:\tdvorak\r",
    "a,b,c",
    ",",
    ",,a,,",
    "line one\nline two\n",
    "\n\n",
    "caf\u{e9} au\u{a0}lait\u{2003}",
    "\u{3000}wide\u{3000}",
    "\u{85}next\u{2028}line\u{2029}",
    "\u{200b}zero\u{feff}width",
];

#[test]
fn white_space_is_that_of_unicode() {
    let mut c = 0u32;
    while c <= 0x10FFFF {
        if let Some(ch) = char::from_u32(c) {
            assert_eq!(is_whitespace(ch), ch.is_whitespace(), "U+{:04X}", c);
        }
        c += 1;
    }
}

#[test]
fn white_space_holds_the_common_blanks() {
    assert!(is_whitespace(' '));
    assert!(is_whitespace('\t'));
    assert!(is_whitespace('\n'));
    assert!(is_whitespace('\u{a0}'));
    assert!(!is_whitespace('a'));
    assert!(!is_whitespace('\u{200b}'));
}

#[test]
fn chars_are_kept_in_order() {
    for s in SAMPLES {
        assert_eq!(chars_of(s), s.chars().collect::<Vec<char>>());
    }
}

#[test]
fn split_gives_one_piece_more_than_separators() {
    assert_eq!(split("a,b,c", ','), vec!["a", "b", "c"]);
    assert_eq!(split("", ','), vec![""]);
    assert_eq!(split(",", ','), vec!["", ""]);
    assert_eq!(split(",,a,,", ','), vec!["", "", "a", "", ""]);
    assert_eq!(split("no separator", ','), vec!["no separator"]);
}

#[test]
fn split_agrees_with_the_standard_library() {
    for s in SAMPLES {
        for sep in [',', '\n', ' ', '\u{e9}'] {
            let expected: Vec<String> = s.split(sep).map(String::from).collect();
            assert_eq!(split(s, sep), expected, "{:?} at {:?}", s, sep);
        }
    }
}

#[test]
fn split_pieces_join_back() {
    for s in SAMPLES {
        assert_eq!(split(s, ',').join(","), s);
    }
}

#[test]
fn contains_finds_text_anywhere() {
    assert!(contains("layout:     us", "layout"));
    assert!(contains("xkb_layout", "layout"));
    assert!(contains("layout", "layout"));
    assert!(!contains("layou", "layout"));
    assert!(!contains("lay out", "layout"));
    assert!(!contains("", "layout"));
    assert!(contains("", ""));
    assert!(contains("abc", ""));
}

#[test]
fn contains_agrees_with_the_standard_library() {
    for s in SAMPLES {
        for pat in ["layout", "us", " ", "", "\n", "\u{e9} a", "e two\n"] {
            assert_eq!(contains(s, pat), s.contains(pat), "{:?} in {:?}", pat, s);
        }
    }
}

#[test]
fn last_word_is_the_final_token() {
    assert_eq!(last_word("layout:     us"), "us");
    assert_eq!(last_word("layout:     us,fr   "), "us,fr");
    assert_eq!(last_word("us"), "us");
    assert_eq!(last_word("   "), "");
    assert_eq!(last_word(""), "");
    assert_eq!(last_word("a\u{a0}b"), "b");
}

#[test]
fn last_word_agrees_with_the_standard_library() {
    for s in SAMPLES {
        assert_eq!(last_word(s), s.split_whitespace().last().unwrap_or(""), "{:?}", s);
    }
}

#[test]
fn trim_drops_white_space_at_both_ends() {
    assert_eq!(trim("  no such layout \n"), "no such layout");
    assert_eq!(trim("plain"), "plain");
    assert_eq!(trim(" \t\n"), "");
    assert_eq!(trim(""), "");
    assert_eq!(trim("\u{3000}wide\u{3000}"), "wide");
}

#[test]
fn trim_agrees_with_the_standard_library() {
    for s in SAMPLES {
        assert_eq!(trim(s), s.trim(), "{:?}", s);
    }
}

#[test]
fn decode_accepts_exactly_utf8() {
    assert_eq!(decode(b"layout: us"), Some("layout: us"));
    assert_eq!(decode("caf\u{e9}".as_bytes()), Some("caf\u{e9}"));
    assert_eq!(decode(b""), Some(""));
    assert_eq!(decode(&[0xff, 0xfe]), None);
    assert_eq!(decode(&[b'a', 0xc3]), None);
    assert_eq!(decode(&[0xed, 0xa0, 0x80]), None);
    assert_eq!(decode(&[0xc0, 0x80]), None);
}
