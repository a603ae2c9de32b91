use readme_generator::text::{
    chars_of, ends_with, is_whitespace, join, lines, replace, split, starts_with, string_of,
    trim_end_matches, trim_start, trim_start_matches,
};

fn v(s: &str) -> Vec<char> {
    s.chars().collect()
}

fn s(v: &[char]) -> String {
    v.iter().collect()
}

const SAMPLES: &[&str] = &[
    "", "a", "\n", "\n\n", "a\n", "a\nb", "a\r\nb\r\n", "a\rb\n", "x\r", "\r\n", "one\n\ntwo\n",
    "é\nü\r\n", "abab", "aaa", ",a,,b,",
];

#[test]
fn lines_agree_with_std() {
    for t in SAMPLES {
        let got: Vec<String> = lines(&v(t)).iter().map(|l| s(l)).collect();
        let want: Vec<String> = t.lines().map(String::from).collect();
        assert_eq!(got, want, "lines of {:?}", t);
    }
}

#[test]
fn split_agrees_with_std() {
    for t in SAMPLES {
        let got: Vec<String> = split(&v(t), ',').iter().map(|l| s(l)).collect();
        let want: Vec<String> = t.split(',').map(String::from).collect();
        assert_eq!(got, want, "split of {:?}", t);
    }
}

#[test]
fn join_agrees_with_std() {
    let parts = vec![v("a"), v(""), v("bc")];
    assert_eq!(s(&join(&parts, &v("\n"))), "a\n\nbc");
    assert_eq!(s(&join(&vec![], &v("-"))), "");
    assert_eq!(s(&join(&vec![v("x")], &v("-"))), "x");
}

#[test]
fn replace_agrees_with_std() {
    let cases = [
        ("aaaa", "aa", "b"),
        ("abc", "", "x"),
        ("", "", "x"),
        ("## ?A ## ?B", "## ?", "## "),
        ("aab", "ab", ""),
        ("[[a]]", "[a]", "Z"),
        ("none", "zz", "y"),
    ];
    for (t, p, r) in cases {
        assert_eq!(s(&replace(&v(t), &v(p), &v(r))), t.replace(p, r), "{:?}", (t, p, r));
    }
}

#[test]
fn trims_agree_with_std() {
    let cases = [("??a?", "?"), ("abab", "ab"), ("x", ""), ("", "?")];
    for (t, p) in cases {
        assert_eq!(s(&trim_start_matches(&v(t), &v(p))), t.trim_start_matches(p));
        assert_eq!(s(&trim_end_matches(&v(t), &v(p))), t.trim_end_matches(p));
    }
    assert_eq!(s(&trim_end_matches(&v("a.md.md"), &v(".md"))), "a");
    for t in [" \t\u{a0}x y ", "x", "", "\u{2003}"] {
        assert_eq!(s(&trim_start(&v(t))), t.trim_start());
    }
}

#[test]
fn whitespace_agrees_with_std_on_every_char() {
    for u in 0..=0x10FFFFu32 {
        if let Some(c) = char::from_u32(u) {
            assert_eq!(is_whitespace(c), c.is_whitespace(), "U+{:04X}", u);
        }
    }
}

#[test]
fn prefixes_and_suffixes() {
    assert!(starts_with(&v("##x"), &v("##")));
    assert!(!starts_with(&v("#"), &v("##")));
    assert!(starts_with(&v("x"), &v("")));
    assert!(ends_with(&v("a.md"), &v(".md")));
    assert!(!ends_with(&v("md"), &v(".md")));
}

#[test]
fn char_round_trip() {
    let t = "héllo ✔";
    assert_eq!(string_of(&chars_of(t)), t);
}

#[test]
fn split_then_join_gives_back_the_text() {
    for t in SAMPLES {
        let pieces = split(&v(t), ',');
        assert_eq!(s(&join(&pieces, &v(","))), *t);
    }
}

#[test]
fn final_line_ending_adds_no_line() {
    for t in ["a", "a\nb", "x\r\ny", "é"] {
        let plain: Vec<String> = lines(&v(t)).iter().map(|l| s(l)).collect();
        let lf: Vec<String> = lines(&v(&format!("{}\n", t))).iter().map(|l| s(l)).collect();
        let crlf: Vec<String> = lines(&v(&format!("{}\r\n", t))).iter().map(|l| s(l)).collect();
        assert_eq!(plain, lf);
        assert_eq!(plain, crlf);
    }
    assert_eq!(lines(&v("")).len(), 0);
    assert_eq!(lines(&v("\n")).len(), 1);
}

#[test]
fn replacing_an_absent_pattern_changes_nothing() {
    assert_eq!(s(&replace(&v("plain text"), &v("[x]"), &v("y"))), "plain text");
}
