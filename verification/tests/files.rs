use terminal_plus::files::{comes_first, sort_entries, DirEntry};

fn entry(name: &str, is_dir: bool) -> DirEntry {
    DirEntry { name: name.to_string(), is_dir }
}

const NAMES: [&str; 14] = [
    "b", "a", "", "ab", "a", "B", "é", "z", "ä", "a b", "a-b", "aa", "\u{10ffff}", "Zebra",
];

#[test]
fn names_are_compared_as_strings_are() {
    for a in NAMES {
        for b in NAMES {
            assert_eq!(comes_first(a, b), a <= b, "{:?} against {:?}", a, b);
        }
    }
}

#[test]
fn entries_come_out_in_the_order_of_their_names() {
    let entries: Vec<DirEntry> =
        NAMES.iter().enumerate().map(|(i, n)| entry(n, i % 2 == 0)).collect();
    let mut expected = entries.clone();
    expected.sort_by(|a, b| a.name.cmp(&b.name));
    assert_eq!(sort_entries(entries), expected);
}

#[test]
fn entries_of_one_name_keep_their_order() {
    let entries = vec![entry("x", true), entry("a", false), entry("x", false), entry("a", true)];
    assert_eq!(
        sort_entries(entries),
        vec![entry("a", false), entry("a", true), entry("x", true), entry("x", false)]
    );
}

#[test]
fn an_empty_directory_has_no_entries() {
    assert!(sort_entries(Vec::new()).is_empty());
    assert_eq!(sort_entries(vec![entry("one", false)]), vec![entry("one", false)]);
}
