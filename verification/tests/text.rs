use foof::text::{chars_of, is_space, same_chars, slice, string_from, string_of, trim};

#[test]
fn is_space_agrees_with_the_standard_library() {
    let mut code: u32 = 0;
    while code <= 0x10ffff {
        if let Some(c) = char::from_u32(code) {
            assert_eq!(is_space(c), c.is_whitespace());
        }
        code += 1;
    }
}

#[test]
fn chars_and_strings_convert_both_ways() {
    let text = "a\u{e9}\u{1f600} z";
    let chars = chars_of(text);
    assert_eq!(chars, text.chars().collect::<Vec<char>>());
    assert_eq!(string_from(&chars), text);
    assert_eq!(string_of(&chars, 1, 3), "\u{e9}\u{1f600}");
    assert_eq!(string_of(&chars, 2, 2), "");
    assert_eq!(slice(&chars, 3, 5), vec![' ', 'z']);
}

#[test]
fn trim_takes_whitespace_off_both_ends() {
    for text in ["", " ", "a", "  a b  ", "\t\r\n x \u{a0}\u{3000}", "\u{2003}", "x  "] {
        assert_eq!(string_from(&trim(&chars_of(text))), text.trim());
    }
}

#[test]
fn same_chars_compares_in_order() {
    assert!(same_chars(&vec![], &vec![]));
    assert!(same_chars(&vec!['a', 'b'], &vec!['a', 'b']));
    assert!(!same_chars(&vec!['a', 'b'], &vec!['b', 'a']));
    assert!(!same_chars(&vec!['a'], &vec!['a', 'b']));
}
