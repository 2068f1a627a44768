use circuitdeck_backend::text::{
    i64_text, replace_braces_with, split_text, text_less, trim, trim_end_char, u64_text,
};

#[test]
fn decimal_texts_match_std() {
    for n in [0u64, 7, 10, 99, 100, 1700000000, u64::MAX] {
        assert_eq!(u64_text(n), n.to_string());
    }
    for n in [0i64, -1, 42, -1700000000, i64::MIN, i64::MAX] {
        assert_eq!(i64_text(n), n.to_string());
    }
}

#[test]
fn replace_matches_std() {
    for (s, w) in [("a{}b", "X"), ("{}{}", "ab"), ("{{}}", "-"), ("{", "x"), ("", "q"), ("iron-plate", "iron-plate")] {
        assert_eq!(replace_braces_with(s, w), s.replace("{}", w));
    }
}

#[test]
fn trims_match_std() {
    for s in ["", "  ", " a b ", "\u{a0}x\u{2003}", "\ty\n", "z"] {
        assert_eq!(trim(s), s.trim());
    }
    for s in ["a//", "///", "a/b", ""] {
        assert_eq!(trim_end_char(s, '/'), s.trim_end_matches('/'));
    }
}

#[test]
fn split_matches_std() {
    for s in ["", ",", "a,b", "a,,b,", "no-comma"] {
        let ours = split_text(s, ',');
        let std: Vec<String> = s.split(',').map(|p| p.to_string()).collect();
        assert_eq!(ours, std);
    }
}

#[test]
fn order_matches_string_order() {
    let words = ["", "a", "b", "ab", "aa", "Z", "é", "e", "copper-plate", "iron-plate"];
    for a in words {
        for b in words {
            assert_eq!(text_less(a, b), a.to_string() < b.to_string(), "{a} {b}");
        }
    }
}
