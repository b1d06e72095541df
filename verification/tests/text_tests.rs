use kewr_panel::text::{chars_of, contains, nth_word, same_text, to_decimal, trim, white_space};

#[test]
fn trim_removes_both_ends() {
    assert_eq!(trim("  v18.17.1\n"), "v18.17.1");
    assert_eq!(trim("\t/usr/bin/node \r\n"), "/usr/bin/node");
    assert_eq!(trim("inner  space"), "inner  space");
}

#[test]
fn trim_of_blank_is_empty() {
    assert_eq!(trim(""), "");
    assert_eq!(trim(" \n\t "), "");
}

#[test]
fn trim_uses_unicode_white_space() {
    assert_eq!(trim("\u{3000}x\u{a0}"), "x");
    assert_eq!(trim("\u{200b}x"), "\u{200b}x");
}

#[test]
fn trim_twice_is_trim_once() {
    for s in ["  a b  ", "", "   ", "\u{2028}q\u{85}", "z"] {
        let once = trim(s);
        assert_eq!(trim(&once), once);
        assert_eq!(once, s.trim());
    }
}

#[test]
fn white_space_matches_std() {
    for c in ['\t', '\n', '\u{b}', '\u{c}', '\r', ' ', '\u{85}', '\u{a0}', '\u{1680}', '\u{2000}',
        '\u{200a}', '\u{2028}', '\u{2029}', '\u{202f}', '\u{205f}', '\u{3000}', 'a', '0', '\u{200b}',
        '\u{180e}', '\u{feff}', '\u{1f}']
    {
        assert_eq!(white_space(c), c.is_whitespace(), "{:?}", c);
    }
}

#[test]
fn nth_word_reads_psql_version() {
    assert_eq!(nth_word("psql (PostgreSQL) 15.3\n", 2), Some("15.3".to_string()));
    assert_eq!(nth_word("psql (PostgreSQL) 15.3 (Ubuntu 15.3-1)", 2), Some("15.3".to_string()));
    assert_eq!(nth_word("psql 15", 2), None);
    assert_eq!(nth_word("", 0), None);
}

#[test]
fn nth_word_matches_split_whitespace() {
    let samples = ["  a  bb\tccc\n", "one", "   ", "x y z w", "\u{3000}k\u{a0}l"];
    for s in samples {
        let expected: Vec<&str> = s.split_whitespace().collect();
        for n in 0..6 {
            assert_eq!(nth_word(s, n), expected.get(n).map(|w| w.to_string()));
        }
    }
}

#[test]
fn contains_finds_substrings() {
    assert!(contains("root  123 /usr/lib/postgresql/bin/postgres -D", "postgres"));
    assert!(!contains("root 1 /sbin/init\nroot 2 sshd", "postgres"));
    assert!(contains("abc", ""));
    assert!(!contains("", "a"));
    assert!(contains("postgres", "postgres"));
    assert!(!contains("postgre", "postgres"));
}

#[test]
fn decimal_rendering() {
    assert_eq!(to_decimal(0), "0");
    assert_eq!(to_decimal(7), "7");
    assert_eq!(to_decimal(10), "10");
    assert_eq!(to_decimal(1700000000), "1700000000");
    assert_eq!(to_decimal(u64::MAX), u64::MAX.to_string());
}

#[test]
fn decimal_reads_back() {
    for n in [0u64, 9, 10, 99, 100, 4096, 123456789, u64::MAX] {
        assert_eq!(to_decimal(n).parse::<u64>().unwrap(), n);
    }
}

#[test]
fn same_text_and_chars() {
    assert!(same_text("development", "development"));
    assert!(!same_text("development", "Development"));
    assert!(!same_text("dev", "development"));
    assert_eq!(chars_of("héllo"), vec!['h', 'é', 'l', 'l', 'o']);
}
