use bluetty::text::{
    ascii_lower_chars, chars_of, replace_chars, string_of, strip_prefixes_chars, trim_chars,
};

fn s(v: &str) -> Vec<char> {
    v.chars().collect()
}

#[test]
fn trim_matches_std() {
    for t in ["", "  ", " a ", "\u{2003}x y\u{85}", "\t\nab\r", "a"] {
        let out: String = trim_chars(&s(t)).into_iter().collect();
        assert_eq!(out, t.trim(), "{t:?}");
    }
}

#[test]
fn lower_matches_std() {
    for t in ["ABC", "MiXeD 123", "ÄÖÜ", ""] {
        let out: String = ascii_lower_chars(&s(t)).into_iter().collect();
        assert_eq!(out, t.to_ascii_lowercase());
    }
}

#[test]
fn replace_matches_std() {
    let cases = [
        ("aaa", "aa", "b"),
        ("{tty}{tty}", "{tty}", "x"),
        ("abc", "d", "e"),
        ("", "x", "y"),
        ("xyx", "x", ""),
        ("ababab", "aba", "Z"),
    ];
    for (t, p, r) in cases {
        let out: String = replace_chars(&s(t), &s(p), &s(r)).into_iter().collect();
        assert_eq!(out, t.replace(p, r), "{t:?} {p:?} {r:?}");
    }
}

#[test]
fn strip_prefixes_matches_std() {
    for t in ["/dev/pts/1", "/dev//dev/pts/1", "/dev/dev/x", "pts/1", "/dev/", ""] {
        let out: String = strip_prefixes_chars(&s(t), &s("/dev/")).into_iter().collect();
        assert_eq!(out, t.trim_start_matches("/dev/"), "{t:?}");
    }
}

#[test]
fn chars_round_trip() {
    let v = chars_of("héllo wörld");
    assert_eq!(v.len(), 11);
    assert_eq!(string_of(&v), "héllo wörld");
}
