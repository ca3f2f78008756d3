use foof::source::{get_comment_texts, get_directive_texts};

#[test]
fn comment_texts_come_from_the_whole_file() {
    let file = "// foof: use regex latest\n\nfn main() {\n    // a note\n  //foof: edition 2018  \n}\n// end";
    assert_eq!(
        get_comment_texts(file),
        vec!["foof: use regex latest", "a note", "foof: edition 2018", "end"]
    );
}

#[test]
fn comment_texts_skip_what_is_no_comment() {
    assert_eq!(get_comment_texts(""), Vec::<String>::new());
    assert_eq!(get_comment_texts("\n\n   \n"), Vec::<String>::new());
    assert_eq!(get_comment_texts("let x = 1; // trailing"), Vec::<String>::new());
    assert_eq!(get_comment_texts("/ / no"), Vec::<String>::new());
    assert_eq!(get_comment_texts("/"), Vec::<String>::new());
}

#[test]
fn comment_texts_may_be_empty() {
    assert_eq!(get_comment_texts("//"), vec![""]);
    assert_eq!(get_comment_texts("  //   \n//\t"), vec!["", ""]);
    assert_eq!(get_comment_texts("/// doc"), vec!["/ doc"]);
}

#[test]
fn comment_texts_with_carriage_returns() {
    assert_eq!(get_comment_texts("// one\r\n// two\r\n"), vec!["one", "two"]);
}

#[test]
fn directive_texts_follow_the_marker() {
    let comments: Vec<String> =
        ["foof: use regex latest", "a note", "foof:edition 2018", "foof :no", "foof:", " foof: x", "FOOF: x"]
            .iter()
            .map(|s| s.to_string())
            .collect();
    assert_eq!(get_directive_texts(&comments), vec!["use regex latest", "edition 2018", ""]);
    assert_eq!(get_directive_texts(&vec![]), Vec::<String>::new());
}

#[test]
fn directives_are_found_anywhere_in_a_file() {
    let file = "fn main() {}\n//   foof:   optimise nyoom   \n// foof:toolchain nightly\n";
    assert_eq!(
        get_directive_texts(&get_comment_texts(file)),
        vec!["optimise nyoom", "toolchain nightly"]
    );
}
