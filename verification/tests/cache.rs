use foof::cache::{
    identity, needs_build, next_record, pending_lookups, plan, resolve, source_of, use_cache, Plan, Source,
    Timestamp, VersionCache,
};
use foof::crates::{CrateVersion, Version};
use foof::directives::Dependency;
use foof::hash::digest;
use foof::table::NameMap;

const HOUR: u64 = 3600;

fn at(secs: u64) -> Timestamp {
    Timestamp { secs, nanos: 0 }
}

fn latest(name: &str) -> Dependency {
    Dependency { name: name.to_string(), version: CrateVersion::Latest, features: vec![] }
}

fn exact(name: &str, version: &str) -> Dependency {
    Dependency {
        name: name.to_string(),
        version: CrateVersion::Specific(Version::parse(version).unwrap()),
        features: vec![],
    }
}

fn versions(pairs: &[(&str, &str)]) -> NameMap<String> {
    let mut map = NameMap::new();
    for (name, version) in pairs {
        map.insert(name.to_string(), version.to_string());
    }
    map
}

fn record(hash: &str, secs: u64, pairs: &[(&str, &str)]) -> VersionCache {
    VersionCache { file_hash: hash.to_string(), time: at(secs), versions: versions(pairs) }
}

#[test]
fn needs_build_without_a_record() {
    assert!(needs_build(None, "abc"));
}

#[test]
fn needs_build_when_the_hash_differs() {
    let prior = record("abc", 0, &[]);
    assert!(!needs_build(Some(&prior), "abc"));
    assert!(needs_build(Some(&prior), "abd"));
    assert!(needs_build(Some(&prior), ""));
}

#[test]
fn needs_build_after_any_change_of_content() {
    let before = "// foof: edition 2018\nfn main() {}\n";
    let prior = record(&digest(before), 0, &[]);
    assert!(!needs_build(Some(&prior), &digest(before)));
    for after in [
        "// foof: edition 2018\nfn main() {}",
        "// foof: edition 2018\nfn main() { }\n",
        "// foof: edition 2015\nfn main() {}\n",
        "",
    ] {
        assert!(needs_build(Some(&prior), &digest(after)));
    }
}

#[test]
fn use_cache_needs_a_fresh_record() {
    let prior = record("h", 1_000, &[]);
    assert!(!use_cache(None, false, at(1_000)));
    assert!(use_cache(Some(&prior), false, at(1_000)));
    assert!(use_cache(Some(&prior), false, at(1_000 + HOUR - 1)));
    assert!(use_cache(
        Some(&prior),
        false,
        Timestamp { secs: 1_000 + HOUR - 1, nanos: 999_999_999 }
    ));
    assert!(!use_cache(Some(&prior), false, at(1_000 + HOUR)));
    assert!(!use_cache(Some(&prior), false, at(1_000_000)));
}

#[test]
fn use_cache_is_off_when_a_refresh_is_forced() {
    let prior = record("h", 1_000, &[]);
    assert!(!use_cache(Some(&prior), true, at(1_000)));
}

#[test]
fn use_cache_holds_for_a_record_from_the_future() {
    let prior = record("h", 5_000, &[]);
    assert!(use_cache(Some(&prior), false, at(1_000)));
}

#[test]
fn source_of_an_exact_version_is_the_version_itself() {
    let prior = record("h", 0, &[("serde", "9.9.9")]);
    assert_eq!(
        source_of(&exact("serde", "1.0.100"), Some(&prior), true),
        Source::Pinned("1.0.100".to_string())
    );
    assert_eq!(
        source_of(&exact("serde", "1.0.100-rc.1+x"), None, false),
        Source::Pinned("1.0.100-rc.1+x".to_string())
    );
}

#[test]
fn source_of_latest_uses_a_trusted_record() {
    let prior = record("h", 0, &[("serde", "1.0.5")]);
    assert_eq!(source_of(&latest("serde"), Some(&prior), true), Source::Cached("1.0.5".to_string()));
    assert_eq!(source_of(&latest("regex"), Some(&prior), true), Source::Registry);
}

#[test]
fn source_of_latest_asks_again_when_the_record_is_stale() {
    let prior = record("h", 0, &[("serde", "1.0.5")]);
    let trusted = use_cache(Some(&prior), false, at(HOUR));
    assert!(!trusted);
    assert_eq!(source_of(&latest("serde"), Some(&prior), trusted), Source::Registry);
    assert_eq!(source_of(&latest("serde"), None, true), Source::Registry);
}

#[test]
fn pending_lookups_follow_the_declarations() {
    let dependencies =
        vec![latest("b"), exact("x", "1.0.0"), latest("a"), latest("c"), latest("a")];
    let prior = record("h", 0, &[("c", "3.0.0")]);
    assert_eq!(pending_lookups(&dependencies, Some(&prior), true), vec!["b", "a", "a"]);
    assert_eq!(pending_lookups(&dependencies, Some(&prior), false), vec!["b", "a", "c", "a"]);
    assert_eq!(pending_lookups(&dependencies, None, false), vec!["b", "a", "c", "a"]);
    assert_eq!(pending_lookups(&vec![], None, false), Vec::<String>::new());
}

#[test]
fn resolve_takes_each_version_from_its_source() {
    let dependencies = vec![latest("b"), exact("x", "1.0.0"), latest("c"), latest("a")];
    let prior = record("h", 0, &[("c", "3.0.0")]);
    let answers = vec!["2.0.0".to_string(), "1.1.1".to_string()];
    let resolved = resolve(&dependencies, Some(&prior), true, &answers).unwrap();
    assert_eq!(
        resolved,
        versions(&[("b", "2.0.0"), ("x", "1.0.0"), ("c", "3.0.0"), ("a", "1.1.1")])
    );
}

#[test]
fn resolve_lets_the_later_declaration_decide() {
    let dependencies = vec![latest("a"), exact("a", "1.0.0"), latest("b"), latest("b")];
    let answers = vec!["7.0.0".to_string(), "8.0.0".to_string(), "9.0.0".to_string()];
    let resolved = resolve(&dependencies, None, false, &answers).unwrap();
    assert_eq!(resolved.get("a"), Some(&"1.0.0".to_string()));
    assert_eq!(resolved.get("b"), Some(&"9.0.0".to_string()));
    assert_eq!(resolved.len(), 2);
}

#[test]
fn resolve_wants_one_answer_for_each_lookup() {
    let dependencies = vec![latest("a"), latest("b")];
    assert_eq!(resolve(&dependencies, None, false, &vec!["1.0.0".to_string()]), None);
    assert_eq!(resolve(&dependencies, None, false, &vec![]), None);
    assert_eq!(
        resolve(
            &dependencies,
            None,
            false,
            &vec!["1.0.0".to_string(), "2.0.0".to_string(), "3.0.0".to_string()]
        ),
        None
    );
    assert_eq!(resolve(&vec![], None, false, &vec![]), Some(NameMap::new()));
}

#[test]
fn plan_leaves_an_unchanged_file_alone() {
    let hash = digest("fn main() {}");
    let prior = record(&hash, 1_000, &[("serde", "1.0.5")]);
    let dependencies = vec![latest("serde"), latest("regex")];
    assert_eq!(
        plan(&dependencies, Some(&prior), &hash, false, at(1_010)),
        Plan { build: false, use_cache: true, lookups: vec![] }
    );
    assert_eq!(
        plan(&dependencies, Some(&prior), &hash, false, at(1_000 + 2 * HOUR)),
        Plan { build: false, use_cache: false, lookups: vec![] }
    );
}

#[test]
fn plan_asks_for_what_a_fresh_record_lacks() {
    let prior = record("old", 1_000, &[("serde", "1.0.5")]);
    let dependencies = vec![latest("serde"), latest("regex"), exact("log", "0.4.0")];
    assert_eq!(
        plan(&dependencies, Some(&prior), "new", false, at(1_010)),
        Plan { build: true, use_cache: true, lookups: vec!["regex".to_string()] }
    );
}

#[test]
fn plan_asks_for_everything_when_the_record_is_stale_or_refused() {
    let prior = record("old", 1_000, &[("serde", "1.0.5")]);
    let dependencies = vec![latest("serde"), latest("regex"), exact("log", "0.4.0")];
    let all = vec!["serde".to_string(), "regex".to_string()];
    assert_eq!(
        plan(&dependencies, Some(&prior), "new", false, at(1_000 + HOUR)),
        Plan { build: true, use_cache: false, lookups: all.clone() }
    );
    assert_eq!(
        plan(&dependencies, Some(&prior), "new", true, at(1_010)),
        Plan { build: true, use_cache: false, lookups: all.clone() }
    );
    assert_eq!(
        plan(&dependencies, None, "new", false, at(1_010)),
        Plan { build: true, use_cache: false, lookups: all }
    );
}

#[test]
fn next_record_is_new_when_the_old_one_was_not_trusted() {
    let prior = record("old", 1_000, &[("serde", "1.0.5")]);
    let resolved = versions(&[("serde", "1.0.9"), ("regex", "1.5.0")]);
    assert_eq!(
        next_record(Some(&prior), false, "new", at(9_000), resolved.clone()),
        VersionCache { file_hash: "new".to_string(), time: at(9_000), versions: resolved.clone() }
    );
    assert_eq!(
        next_record(None, false, "new", at(9_000), resolved.clone()),
        VersionCache { file_hash: "new".to_string(), time: at(9_000), versions: resolved.clone() }
    );
    assert_eq!(
        next_record(None, true, "new", at(9_000), resolved.clone()),
        VersionCache { file_hash: "new".to_string(), time: at(9_000), versions: resolved }
    );
}

#[test]
fn next_record_renews_only_the_hash_of_a_trusted_record() {
    let prior = record("old", 1_000, &[("serde", "1.0.5")]);
    let resolved = versions(&[("serde", "1.0.5"), ("regex", "1.5.0")]);
    assert_eq!(
        next_record(Some(&prior), true, "new", at(1_010), resolved),
        record("new", 1_000, &[("serde", "1.0.5")])
    );
}

#[test]
fn identity_joins_name_and_path_digest() {
    assert_eq!(identity("hello", "abc123"), "hello_abc123");
    assert_eq!(identity("", ""), "_");
    assert_eq!(
        identity("hello", &digest("/home/me/hello.rs")),
        format!("hello_{}", digest("/home/me/hello.rs"))
    );
}

#[test]
fn a_fresh_record_of_an_unchanged_file_stays_as_it_is() {
    let hash = digest("fn main() {}");
    let prior = record(&hash, 1_000, &[("serde", "1.0.5")]);
    let dependencies = vec![latest("serde"), latest("regex")];
    let plan = plan(&dependencies, Some(&prior), &hash, false, at(1_500));
    assert!(!plan.build);
    assert!(plan.lookups.is_empty());
    assert_eq!(
        next_record(Some(&prior), plan.use_cache, &hash, at(1_501), NameMap::new()),
        prior
    );
}
