use terminal_plus::text::{
    belongs, find, has, join, matches_at, push_decimal, read_u32, same, skip, split_lines,
    split_pieces, split_tokens, to_chars, to_string, trimmed, CharClass,
};

fn chars(s: &str) -> Vec<char> {
    s.chars().collect()
}

fn strings(pieces: Vec<&[char]>) -> Vec<String> {
    pieces.into_iter().map(|p| p.iter().collect()).collect()
}

const SAMPLES: [&str; 24] = [
    "",
    "\n",
    "\r",
    "\r\n",
    "a",
    "a\n",
    "a\r\n",
    "a\r",
    "a\n\nb",
    "a\r\r\nb\r",
    "\n\na\n",
    "  a b  ",
    "\t a\u{a0}b \u{3000}",
    "one two\tthree\nfour",
    "a,b,,c",
    ",",
    ",,",
    "a, b, , c",
    ", ",
    "x\ty\tz\tw",
    "\u{2003}wide\u{2003}",
    "\u{85}next line\u{85}",
    "\u{200b}zero width\u{200b}",
    "\u{1680}ogham\u{2028}\u{2029}\u{202f}\u{205f}",
];

#[test]
fn to_chars_and_back() {
    for s in SAMPLES {
        let v = to_chars(s);
        assert_eq!(v, chars(s));
        assert_eq!(to_string(&v), s);
    }
}

#[test]
fn lines_as_the_standard_library_splits_them() {
    for s in SAMPLES {
        let v = chars(s);
        let mine = strings(split_lines(&v));
        let std: Vec<String> = s.lines().map(|l| l.to_string()).collect();
        assert_eq!(mine, std, "lines of {:?}", s);
    }
}

#[test]
fn lines_keep_a_carriage_return_without_line_feed() {
    let v = chars("baz\r");
    assert_eq!(strings(split_lines(&v)), vec!["baz\r".to_string()]);
    let v = chars("foo\r\nbar\n\nbaz");
    assert_eq!(strings(split_lines(&v)), vec!["foo", "bar", "", "baz"]);
}

#[test]
fn trim_as_the_standard_library_trims() {
    for s in SAMPLES {
        let v = chars(s);
        let mine: String = trimmed(&v).iter().collect();
        assert_eq!(mine, s.trim(), "trim of {:?}", s);
    }
}

#[test]
fn white_space_is_what_char_says() {
    let mut n: u32 = 0;
    while n <= 0x3100 {
        if let Some(c) = char::from_u32(n) {
            assert_eq!(belongs(CharClass::White, c), c.is_whitespace(), "U+{:04X}", n);
            assert_eq!(belongs(CharClass::NonWhite, c), !c.is_whitespace());
            assert_eq!(belongs(CharClass::Sign, c), c == '+' || c == '-');
        }
        n += 1;
    }
    assert!(!belongs(CharClass::White, '\u{feff}'));
    assert!(!belongs(CharClass::White, '\u{10ffff}'));
}

#[test]
fn split_on_a_character_as_the_standard_library_splits() {
    for s in SAMPLES {
        let v = chars(s);
        for sep in [',', '\t', ' ', '\n'] {
            let mine = strings(split_pieces(&v, &[sep], None));
            let std: Vec<String> = s.split(sep).map(|p| p.to_string()).collect();
            assert_eq!(mine, std, "split of {:?} on {:?}", s, sep);
        }
    }
}

#[test]
fn split_with_a_limit_as_the_standard_library_splits() {
    for s in SAMPLES {
        let v = chars(s);
        for n in 0..6usize {
            let mine = strings(split_pieces(&v, &[','], Some(n)));
            let std: Vec<String> = s.splitn(n, ',').map(|p| p.to_string()).collect();
            assert_eq!(mine, std, "splitn({}) of {:?}", n, s);
        }
    }
}

#[test]
fn split_on_a_text_as_the_standard_library_splits() {
    for s in SAMPLES {
        let v = chars(s);
        let mine = strings(split_pieces(&v, &chars(", "), None));
        let std: Vec<String> = s.split(", ").map(|p| p.to_string()).collect();
        assert_eq!(mine, std, "split of {:?}", s);
    }
    let v = chars("a@@@b@@@@c");
    assert_eq!(strings(split_pieces(&v, &chars("@@"), None)), vec!["a", "@b", "", "c"]);
}

#[test]
fn words_as_the_standard_library_splits_them() {
    for s in SAMPLES {
        let v = chars(s);
        let mine = strings(split_tokens(&v));
        let std: Vec<String> = s.split_whitespace().map(|p| p.to_string()).collect();
        assert_eq!(mine, std, "words of {:?}", s);
    }
}

#[test]
fn numbers_as_the_standard_library_reads_them() {
    let samples = [
        "", "0", "7", "+7", "-7", "++7", "+", "-", "007", "42", "4294967295", "4294967296",
        "99999999999999999999", "12a", "a12", " 12", "12 ", "1_000", "٣", "+0", "00000000000001",
        "4294967295000",
    ];
    for s in samples {
        let v = chars(s);
        assert_eq!(read_u32(&v), s.parse::<u32>().ok(), "reading {:?}", s);
    }
}

#[test]
fn decimal_as_the_standard_library_writes_it() {
    for n in [0u64, 1, 9, 10, 11, 99, 100, 101, 255, 4096, 65535, 4294967295, u64::MAX] {
        let mut s = String::from("n=");
        push_decimal(&mut s, n);
        assert_eq!(s, format!("n={}", n));
    }
}

#[test]
fn searching_finds_the_first_place() {
    let v = chars("abcabc");
    assert_eq!(find(&v, &chars("bc"), 0), 1);
    assert_eq!(find(&v, &chars("bc"), 2), 4);
    assert_eq!(find(&v, &chars("bc"), 5), 6);
    assert_eq!(find(&v, &chars("x"), 0), 6);
    assert!(matches_at(&v, &chars("abc"), 3));
    assert!(!matches_at(&v, &chars("abc"), 4));
    assert!(!matches_at(&v, &chars("abc"), 7));
    assert!(has(&v, &chars("ca")));
    assert!(!has(&v, &chars("cb")));
    assert!(same(&v, &chars("abcabc")));
    assert!(!same(&v, &chars("abcab")));
    assert_eq!(skip(&chars("+-+12"), CharClass::Sign, 0), 3);
}

#[test]
fn join_puts_one_text_after_the_other() {
    assert_eq!(join("Session ", "s1"), "Session s1");
    assert_eq!(join("", ""), "");
}
