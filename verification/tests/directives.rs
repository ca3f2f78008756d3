use foof::crates::{CrateVersion, Feature};
use foof::directives::{Dependency, OptimisationType, RustEdition};

#[test]
fn edition_from_its_tag() {
    assert_eq!(RustEdition::try_from("2015"), Ok(RustEdition::Rust2015));
    assert_eq!(RustEdition::try_from("2018"), Ok(RustEdition::Rust2018));
    assert_eq!(RustEdition::try_from("2021"), Ok(RustEdition::Rust2021));
    assert_eq!(RustEdition::try_from("2024"), Err(()));
    assert_eq!(RustEdition::try_from(""), Err(()));
    assert_eq!(RustEdition::try_from("20180"), Err(()));
}

#[test]
fn optimisation_from_its_spellings() {
    assert_eq!(OptimisationType::try_from("debug"), Ok(OptimisationType::Debug));
    assert_eq!(OptimisationType::try_from("release"), Ok(OptimisationType::Release));
    assert_eq!(OptimisationType::try_from("nyoom"), Ok(OptimisationType::Release));
    assert_eq!(OptimisationType::try_from("Debug"), Err(()));
    assert_eq!(OptimisationType::try_from(""), Err(()));
}

#[test]
fn optimisation_directory() {
    assert_eq!(OptimisationType::Debug.directory(), "debug");
    assert_eq!(OptimisationType::Release.directory(), "release");
}

#[test]
fn dependency_clone_is_equal() {
    let dependency = Dependency {
        name: "serde".to_string(),
        version: CrateVersion::Latest,
        features: vec![Feature::Enable("derive".to_string()), Feature::Disable("std".to_string())],
    };
    assert_eq!(dependency.clone(), dependency);
}
