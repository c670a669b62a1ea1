use replman::number::push_decimal;
use replman::text::{chars_of, clone_texts, is_blank, same_text, starts_with, trim};

const SAMPLES: [&str; 14] = [
    "",
    " ",
    "   ",
    "a",
    " a",
    "a ",
    "  a b  ",
    "\t\n a \r\n",
    "\u{a0}x\u{a0}",
    "\u{2003}wide\u{3000}",
    "no-space",
    " \u{85} ",
    "é ",
    "x\u{200b}",
];

#[test]
fn trim_as_the_standard_library_trims() {
    for s in SAMPLES {
        assert_eq!(trim(s), s.trim(), "{:?}", s);
    }
}

#[test]
fn blank_is_all_whitespace() {
    for s in SAMPLES {
        assert_eq!(is_blank(s), s.trim().is_empty(), "{:?}", s);
    }
    assert!(is_blank(""));
    assert!(is_blank(" \t "));
    assert!(!is_blank(" x "));
}

#[test]
fn prefixes() {
    let words = ["", "q", "qu", "quit", "quote", "exit", "é", "éa"];
    for word in words {
        for prefix in words {
            assert_eq!(starts_with(word, prefix), word.starts_with(prefix), "{:?} {:?}", word, prefix);
        }
    }
    assert!(starts_with("quit", "q"));
    assert!(starts_with("quit", ""));
    assert!(starts_with("quit", "quit"));
    assert!(!starts_with("quit", "quite"));
    assert!(!starts_with("q", "qu"));
}

#[test]
fn equal_texts() {
    let words = ["", "q", "qu", "quit", "quote", "Quit", "é"];
    for a in words {
        for b in words {
            assert_eq!(same_text(a, b), a == b, "{:?} {:?}", a, b);
        }
    }
}

#[test]
fn characters_in_order() {
    assert_eq!(chars_of("héllo"), vec!['h', 'é', 'l', 'l', 'o']);
    assert_eq!(chars_of(""), Vec::<char>::new());
}

#[test]
fn copies_of_texts() {
    let v = vec!["a".to_string(), "".to_string(), "bc".to_string()];
    assert_eq!(clone_texts(&v), v);
    assert_eq!(clone_texts(&Vec::new()), Vec::<String>::new());
}

#[test]
fn decimal_digits() {
    for n in [0usize, 1, 9, 10, 11, 99, 100, 101, 12345, usize::MAX] {
        let mut out = "n=".to_string();
        push_decimal(&mut out, n);
        assert_eq!(out, format!("n={}", n));
    }
}
