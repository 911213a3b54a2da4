use sim_code::text::{prefix_bytes, split_char, split_words, str_equals, suffix_bytes, white_space};

fn strs(v: &[&str]) -> Vec<String> {
    v.iter().map(|s| s.to_string()).collect()
}

#[test]
fn split_words_drops_runs_of_whitespace() {
    assert_eq!(split_words("  addi\ta0,a1,4   x "), strs(&["addi", "a0,a1,4", "x"]));
}

#[test]
fn split_words_of_blank_line_is_empty() {
    assert_eq!(split_words(""), Vec::<String>::new());
    assert_eq!(split_words(" \t \r"), Vec::<String>::new());
}

#[test]
fn split_words_agrees_with_std() {
    for s in ["a b", " a\u{2003}b\u{a0}c ", "x\u{85}y", "one", "\u{3000}lead and trail\n"] {
        let expected: Vec<String> = s.split_whitespace().map(|w| w.to_string()).collect();
        assert_eq!(split_words(s), expected);
    }
}

#[test]
fn white_space_matches_char_is_whitespace() {
    for u in 0u32..0x3100 {
        if let Some(c) = char::from_u32(u) {
            assert_eq!(white_space(c), c.is_whitespace(), "char {:#x}", u);
        }
    }
}

#[test]
fn split_char_keeps_empty_pieces() {
    assert_eq!(split_char("a..b", '.'), strs(&["a", "", "b"]));
    assert_eq!(split_char("", ','), strs(&[""]));
    assert_eq!(split_char("x,", ','), strs(&["x", ""]));
    assert_eq!(split_char("fadd.d", '.'), strs(&["fadd", "d"]));
}

#[test]
fn str_equals_compares_characters() {
    assert!(str_equals("Trace", "Trace"));
    assert!(!str_equals("Trace", "Trac"));
    assert!(!str_equals("MEM_OP:", "MEM_OP"));
}

#[test]
fn byte_slices_follow_char_boundaries() {
    assert_eq!(prefix_bytes("0001009400", 8), Some("00010094".to_string()));
    assert_eq!(prefix_bytes("0001", 8), None);
    // 'é' takes bytes 7 and 8, so byte 8 is inside it
    assert_eq!(prefix_bytes("abcdefgé", 8), None);
    assert_eq!(suffix_bytes("0000000000010094", 8), Some("00010094".to_string()));
    assert_eq!(suffix_bytes("short", 8), None);
    assert_eq!(suffix_bytes("12345678", 8), Some(String::new()));
}
