use foof::hash::{checked_digest, digest};

#[test]
fn digest_of_known_texts() {
    assert_eq!(digest(""), "e3b0c44298fc1c149afbf4c8996fb92427ae41e4649b934ca495991b7852b855");
    assert_eq!(digest("abc"), "ba7816bf8f01cfea414140de5dae2223b00361a396177a9cb410ff61f20015ad");
}

#[test]
fn digest_is_the_same_each_time() {
    let text = "// foof: use regex latest\nfn main() {}\n";
    assert_eq!(digest(text), digest(text));
    assert_eq!(digest(text), digest(&text.to_string()));
}

#[test]
fn digest_changes_with_any_byte() {
    assert_ne!(digest("fn main() {}"), digest("fn main() { }"));
    assert_ne!(digest("a"), digest("b"));
    assert_ne!(digest("a"), digest("a\n"));
}

#[test]
fn digest_is_lower_case_hex_of_64_digits() {
    for text in ["", "x", "h\u{e9}llo", "a longer text, with more than one block of input to hash over and over"] {
        let d = digest(text);
        assert_eq!(d.len(), 64);
        assert!(d.chars().all(|c| c.is_ascii_digit() || ('a'..='f').contains(&c)));
    }
}

#[test]
fn checked_digest_agrees_with_digest() {
    assert_eq!(checked_digest("abc"), Some(digest("abc")));
    assert_eq!(checked_digest(""), Some(digest("")));
}
