use foof::crates::{CrateVersion, Feature, Version};
use foof::directives::{Dependency, Directive, OptimisationType, RustEdition};
use foof::parse::{
    directive, exact_version, parse_lines, Expected, Keyword, LineError, ParseError, Problem,
};

fn plain(major: u64, minor: u64, patch: u64) -> Version {
    Version { major, minor, patch, pre: String::new(), build: String::new() }
}

fn dependency(name: &str, version: CrateVersion, features: Vec<Feature>) -> Dependency {
    Dependency { name: name.to_string(), version, features }
}

#[test]
fn use_with_latest_gives_one_dependency() {
    assert_eq!(
        directive("use regex latest"),
        Ok(Directive::Dependency(vec![dependency("regex", CrateVersion::Latest, vec![])]))
    );
}

#[test]
fn use_with_exact_version_and_feature() {
    assert_eq!(
        directive("use serde 1.0.0 with (derive)"),
        Ok(Directive::Dependency(vec![dependency(
            "serde",
            CrateVersion::Specific(plain(1, 0, 0)),
            vec![Feature::Enable("derive".to_string())],
        )]))
    );
}

#[test]
fn use_with_two_crates_keeps_their_order() {
    assert_eq!(
        directive("use a latest, b 2.3.4"),
        Ok(Directive::Dependency(vec![
            dependency("a", CrateVersion::Latest, vec![]),
            dependency("b", CrateVersion::Specific(plain(2, 3, 4)), vec![]),
        ]))
    );
}

#[test]
fn edition_2018_is_read() {
    assert_eq!(directive("edition 2018"), Ok(Directive::Edition(RustEdition::Rust2018)));
    assert_eq!(directive("edition 2015"), Ok(Directive::Edition(RustEdition::Rust2015)));
    assert_eq!(directive("edition 2021"), Ok(Directive::Edition(RustEdition::Rust2021)));
}

#[test]
fn edition_2020_is_refused() {
    assert_eq!(
        directive("edition 2020"),
        Err(ParseError::Invalid { start: 8, end: 12, problem: Problem::Edition })
    );
}

#[test]
fn optimise_nyoom_means_release() {
    assert_eq!(directive("optimise nyoom"), Ok(Directive::Optimise(OptimisationType::Release)));
}

#[test]
fn optimise_has_two_spellings_and_three_levels() {
    assert_eq!(directive("optimize release"), Ok(Directive::Optimise(OptimisationType::Release)));
    assert_eq!(directive("optimise debug"), Ok(Directive::Optimise(OptimisationType::Debug)));
    assert_eq!(directive("optimize nyoom"), Ok(Directive::Optimise(OptimisationType::Release)));
}

#[test]
fn unknown_optimisation_is_refused() {
    assert_eq!(
        directive("optimise fast"),
        Err(ParseError::Invalid { start: 9, end: 13, problem: Problem::Optimisation })
    );
}

#[test]
fn toolchain_with_target_is_read() {
    assert_eq!(
        directive("toolchain nightly targeting wasm32-unknown-unknown"),
        Ok(Directive::ToolchainWithTarget(
            "nightly".to_string(),
            "wasm32-unknown-unknown".to_string()
        ))
    );
}

#[test]
fn toolchain_alone_is_read() {
    assert_eq!(directive("toolchain stable"), Ok(Directive::Toolchain("stable".to_string())));
    assert_eq!(
        directive("toolchain 1.70.0"),
        Ok(Directive::Toolchain("1.70.0".to_string()))
    );
    assert_eq!(
        directive("toolchain nightly-2023-01-01+x"),
        Ok(Directive::Toolchain("nightly-2023-01-01+x".to_string()))
    );
}

#[test]
fn targeting_asks_for_a_target() {
    assert_eq!(
        directive("toolchain nightly targeting"),
        Err(ParseError::Malformed { start: 27, end: 27, expected: vec![Expected::LooseName] })
    );
    assert_eq!(
        directive("toolchain nightly targeting  (x)"),
        Err(ParseError::Malformed { start: 29, end: 30, expected: vec![Expected::LooseName] })
    );
    // A longer word is not the keyword, and what follows the channel is not read.
    assert_eq!(
        directive("toolchain nightly targetting x"),
        Ok(Directive::Toolchain("nightly".to_string()))
    );
}

#[test]
fn whitespace_between_tokens_does_not_matter() {
    assert_eq!(
        directive("use   serde\t1.0.0   with  (  derive   rc  )  ,  regex   latest  "),
        Ok(Directive::Dependency(vec![
            dependency(
                "serde",
                CrateVersion::Specific(plain(1, 0, 0)),
                vec![Feature::Enable("derive".to_string()), Feature::Enable("rc".to_string())],
            ),
            dependency("regex", CrateVersion::Latest, vec![]),
        ]))
    );
    assert_eq!(directive("edition\u{a0}\u{2003}2021"), Ok(Directive::Edition(RustEdition::Rust2021)));
}

#[test]
fn features_are_separated_by_whitespace_not_commas() {
    assert_eq!(
        directive("use tokio latest with (macros rt)"),
        Ok(Directive::Dependency(vec![dependency(
            "tokio",
            CrateVersion::Latest,
            vec![Feature::Enable("macros".to_string()), Feature::Enable("rt".to_string())],
        )]))
    );
    // A comma inside the brackets stands where the list has to close.
    assert_eq!(
        directive("use tokio latest with (macros, rt)"),
        Err(ParseError::Malformed { start: 29, end: 30, expected: vec![Expected::Close] })
    );
}

#[test]
fn a_feature_can_be_switched_off() {
    assert_eq!(
        directive("use serde latest with (!std derive)"),
        Ok(Directive::Dependency(vec![dependency(
            "serde",
            CrateVersion::Latest,
            vec![Feature::Disable("std".to_string()), Feature::Enable("derive".to_string())],
        )]))
    );
}

#[test]
fn a_feature_list_needs_a_feature() {
    assert_eq!(
        directive("use serde latest with ()"),
        Err(ParseError::Malformed { start: 23, end: 24, expected: vec![Expected::Feature] })
    );
    assert_eq!(
        directive("use serde latest with (!)"),
        Err(ParseError::Malformed { start: 23, end: 24, expected: vec![Expected::Feature] })
    );
}

#[test]
fn a_feature_list_has_to_be_opened_and_closed() {
    assert_eq!(
        directive("use serde latest with derive"),
        Err(ParseError::Malformed { start: 22, end: 23, expected: vec![Expected::Open] })
    );
    assert_eq!(
        directive("use serde latest with"),
        Err(ParseError::Malformed { start: 21, end: 21, expected: vec![Expected::Open] })
    );
    assert_eq!(
        directive("use serde latest with (derive"),
        Err(ParseError::Malformed { start: 29, end: 29, expected: vec![Expected::Close] })
    );
    assert_eq!(
        directive("use serde latest with (derive ?)"),
        Err(ParseError::Malformed {
            start: 30,
            end: 31,
            expected: vec![Expected::Feature, Expected::Close],
        })
    );
    assert_eq!(
        directive("use a latest, serde 1.0.0 with (derive"),
        Err(ParseError::Malformed { start: 38, end: 38, expected: vec![Expected::Close] })
    );
}

#[test]
fn the_same_crate_may_be_named_twice() {
    assert_eq!(
        directive("use a latest, a 1.2.3"),
        Ok(Directive::Dependency(vec![
            dependency("a", CrateVersion::Latest, vec![]),
            dependency("a", CrateVersion::Specific(plain(1, 2, 3)), vec![]),
        ]))
    );
}

#[test]
fn pre_release_and_build_are_kept() {
    assert_eq!(
        directive("use x 1.2.3-alpha.1+build.5"),
        Ok(Directive::Dependency(vec![dependency(
            "x",
            CrateVersion::Specific(Version {
                major: 1,
                minor: 2,
                patch: 3,
                pre: "alpha.1".to_string(),
                build: "build.5".to_string(),
            }),
            vec![],
        )]))
    );
}

#[test]
fn what_follows_a_complete_directive_is_not_read() {
    assert_eq!(directive("edition 2018 and more"), Ok(Directive::Edition(RustEdition::Rust2018)));
    assert_eq!(
        directive("use a latest b 1.0.0"),
        Ok(Directive::Dependency(vec![dependency("a", CrateVersion::Latest, vec![])]))
    );
}

#[test]
fn a_comma_asks_for_another_crate() {
    assert_eq!(
        directive("use a latest, b"),
        Err(ParseError::Malformed {
            start: 15,
            end: 15,
            expected: vec![Expected::Keyword(Keyword::Latest), Expected::Version],
        })
    );
    let reason = semver::Version::parse("1.0").unwrap_err().to_string();
    assert_eq!(
        directive("use a latest, b 1.0"),
        Err(ParseError::Invalid { start: 16, end: 19, problem: Problem::SemVer(reason) })
    );
    assert_eq!(
        directive("use a latest,"),
        Err(ParseError::Malformed { start: 13, end: 13, expected: vec![Expected::Name] })
    );
    assert_eq!(
        directive("use a latest , , b latest"),
        Err(ParseError::Malformed { start: 15, end: 16, expected: vec![Expected::Name] })
    );
}

#[test]
fn use_has_to_open_the_line() {
    assert_eq!(
        directive(" use a latest"),
        Err(ParseError::Malformed {
            start: 1,
            end: 4,
            expected: vec![
                Expected::Keyword(Keyword::Edition),
                Expected::Keyword(Keyword::Toolchain),
                Expected::Keyword(Keyword::Optimise),
                Expected::Keyword(Keyword::Optimize),
            ],
        })
    );
    assert_eq!(directive("  edition 2018"), Ok(Directive::Edition(RustEdition::Rust2018)));
}

#[test]
fn a_keyword_is_a_whole_word() {
    assert_eq!(
        directive("user a latest"),
        Err(ParseError::Malformed {
            start: 0,
            end: 4,
            expected: vec![
                Expected::Keyword(Keyword::Use),
                Expected::Keyword(Keyword::Edition),
                Expected::Keyword(Keyword::Toolchain),
                Expected::Keyword(Keyword::Optimise),
                Expected::Keyword(Keyword::Optimize),
            ],
        })
    );
    // `latest2` is not the keyword, and no version either.
    assert!(matches!(
        directive("use a latest2"),
        Err(ParseError::Invalid { start: 6, end: 13, problem: Problem::SemVer(_) })
    ));
}

#[test]
fn an_empty_line_is_malformed() {
    assert_eq!(
        directive(""),
        Err(ParseError::Malformed {
            start: 0,
            end: 0,
            expected: vec![
                Expected::Keyword(Keyword::Use),
                Expected::Keyword(Keyword::Edition),
                Expected::Keyword(Keyword::Toolchain),
                Expected::Keyword(Keyword::Optimise),
                Expected::Keyword(Keyword::Optimize),
            ],
        })
    );
    assert_eq!(
        directive("?"),
        Err(ParseError::Malformed {
            start: 0,
            end: 1,
            expected: vec![
                Expected::Keyword(Keyword::Use),
                Expected::Keyword(Keyword::Edition),
                Expected::Keyword(Keyword::Toolchain),
                Expected::Keyword(Keyword::Optimise),
                Expected::Keyword(Keyword::Optimize),
            ],
        })
    );
}

#[test]
fn a_missing_name_is_malformed() {
    assert_eq!(
        directive("use"),
        Err(ParseError::Malformed { start: 3, end: 3, expected: vec![Expected::Name] })
    );
    assert_eq!(
        directive("edition  !"),
        Err(ParseError::Malformed { start: 9, end: 10, expected: vec![Expected::Name] })
    );
    assert_eq!(
        directive("toolchain"),
        Err(ParseError::Malformed { start: 9, end: 9, expected: vec![Expected::LooseName] })
    );
    assert_eq!(
        directive("optimise"),
        Err(ParseError::Malformed { start: 8, end: 8, expected: vec![Expected::Name] })
    );
}

#[test]
fn a_missing_version_is_malformed() {
    assert_eq!(
        directive("use serde"),
        Err(ParseError::Malformed {
            start: 9,
            end: 9,
            expected: vec![Expected::Keyword(Keyword::Latest), Expected::Version],
        })
    );
    assert_eq!(
        directive("use serde (derive)"),
        Err(ParseError::Malformed {
            start: 10,
            end: 11,
            expected: vec![Expected::Keyword(Keyword::Latest), Expected::Version],
        })
    );
}

#[test]
fn a_bad_version_carries_the_reason() {
    let reason = semver::Version::parse("1.0").unwrap_err().to_string();
    assert_eq!(
        directive("use serde 1.0"),
        Err(ParseError::Invalid { start: 10, end: 13, problem: Problem::SemVer(reason) })
    );
    assert!(matches!(
        directive("use serde 01.0.0"),
        Err(ParseError::Invalid { start: 10, end: 16, problem: Problem::SemVer(_) })
    ));
}

#[test]
fn the_names_of_a_name_are_ascii() {
    assert_eq!(
        directive("use caf\u{e9} latest"),
        Err(ParseError::Malformed {
            start: 7,
            end: 8,
            expected: vec![Expected::Keyword(Keyword::Latest), Expected::Version],
        })
    );
    assert_eq!(
        directive("use my-crate_2 latest"),
        Ok(Directive::Dependency(vec![dependency("my-crate_2", CrateVersion::Latest, vec![])]))
    );
}

#[test]
fn exact_version_wraps_what_semver_made() {
    assert_eq!(
        exact_version(Ok(plain(3, 1, 4)), 2, 7),
        Ok(CrateVersion::Specific(plain(3, 1, 4)))
    );
    assert_eq!(
        exact_version(Err("no".to_string()), 2, 7),
        Err(ParseError::Invalid { start: 2, end: 7, problem: Problem::SemVer("no".to_string()) })
    );
}

#[test]
fn keywords_are_spelled_out() {
    let spelled: Vec<String> = [
        Keyword::Use,
        Keyword::Edition,
        Keyword::Toolchain,
        Keyword::Optimise,
        Keyword::Optimize,
        Keyword::Latest,
        Keyword::With,
        Keyword::Targeting,
    ]
    .iter()
    .map(|k| k.chars().into_iter().collect())
    .collect();
    assert_eq!(
        spelled,
        vec!["use", "edition", "toolchain", "optimise", "optimize", "latest", "with", "targeting"]
    );
}

#[test]
fn parse_lines_reads_every_line() {
    let lines: Vec<String> =
        ["edition 2018", "use a latest", "optimise release"].iter().map(|s| s.to_string()).collect();
    assert_eq!(
        parse_lines(&lines),
        Ok(vec![
            Directive::Edition(RustEdition::Rust2018),
            Directive::Dependency(vec![dependency("a", CrateVersion::Latest, vec![])]),
            Directive::Optimise(OptimisationType::Release),
        ])
    );
    assert_eq!(parse_lines(&vec![]), Ok(vec![]));
}

#[test]
fn parse_lines_reports_all_failures_together() {
    let lines: Vec<String> = ["edition 2020", "use a latest", "optimise", "edition 2018"]
        .iter()
        .map(|s| s.to_string())
        .collect();
    assert_eq!(
        parse_lines(&lines),
        Err(vec![
            LineError {
                line: 0,
                error: ParseError::Invalid { start: 8, end: 12, problem: Problem::Edition },
            },
            LineError {
                line: 2,
                error: ParseError::Malformed { start: 8, end: 8, expected: vec![Expected::Name] },
            },
        ])
    );
}
