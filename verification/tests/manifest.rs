use foof::crates::{CrateVersion, Feature};
use foof::directives::{Dependency, OptimisationType, RustEdition};
use foof::manifest::{
    build_args, cargo_toml, manifest_versions, toolchain_toml, CargoToml, CargoTomlDependencyObj,
    CargoTomlPackage, ManifestError,
};
use foof::project::{Project, ToolchainInfo};
use foof::table::NameMap;

fn project(dependencies: Vec<Dependency>) -> Project {
    Project {
        dependencies,
        edition: RustEdition::Rust2018,
        toolchain: ToolchainInfo { channel: "nightly".to_string(), target: None },
        optimisation: OptimisationType::Debug,
    }
}

fn with(name: &str, features: Vec<Feature>) -> Dependency {
    Dependency { name: name.to_string(), version: CrateVersion::Latest, features }
}

fn versions(pairs: &[(&str, &str)]) -> NameMap<String> {
    let mut map = NameMap::new();
    for (name, version) in pairs {
        map.insert(name.to_string(), version.to_string());
    }
    map
}

#[test]
fn cargo_toml_names_package_and_dependencies() {
    let project = project(vec![
        with("serde", vec![Feature::Enable("derive".to_string()), Feature::Enable("rc".to_string())]),
        with("regex", vec![]),
    ]);
    let manifest =
        cargo_toml("hello", &project, &versions(&[("regex", "1.5.0"), ("serde", "1.0.9")])).unwrap();
    let mut dependencies = NameMap::new();
    dependencies.insert(
        "serde".to_string(),
        CargoTomlDependencyObj {
            version: "1.0.9".to_string(),
            features: vec!["derive".to_string(), "rc".to_string()],
        },
    );
    dependencies.insert(
        "regex".to_string(),
        CargoTomlDependencyObj { version: "1.5.0".to_string(), features: vec![] },
    );
    assert_eq!(
        manifest,
        CargoToml {
            package: CargoTomlPackage {
                name: "hello".to_string(),
                version: "1.0.0".to_string(),
                edition: RustEdition::Rust2018,
            },
            dependencies,
        }
    );
}

#[test]
fn cargo_toml_takes_the_features_of_the_later_declaration() {
    let project = project(vec![
        with("serde", vec![Feature::Enable("derive".to_string())]),
        with("serde", vec![Feature::Enable("rc".to_string())]),
    ]);
    let manifest = cargo_toml("hello", &project, &versions(&[("serde", "1.0.9")])).unwrap();
    assert_eq!(manifest.dependencies.len(), 1);
    assert_eq!(
        manifest.dependencies.get("serde"),
        Some(&CargoTomlDependencyObj { version: "1.0.9".to_string(), features: vec!["rc".to_string()] })
    );
}

#[test]
fn cargo_toml_without_dependencies() {
    let manifest = cargo_toml("empty", &project(vec![]), &NameMap::new()).unwrap();
    assert_eq!(manifest.dependencies.len(), 0);
    assert_eq!(manifest.package.name, "empty");
}

#[test]
fn cargo_toml_needs_every_version() {
    let project = project(vec![with("serde", vec![]), with("regex", vec![]), with("log", vec![])]);
    assert_eq!(
        cargo_toml("hello", &project, &versions(&[("serde", "1.0.9")])),
        Err(ManifestError::Unresolved { index: 1 })
    );
}

#[test]
fn cargo_toml_cannot_switch_a_feature_off() {
    let project = project(vec![
        with("serde", vec![]),
        with("regex", vec![Feature::Enable("a".to_string()), Feature::Disable("std".to_string())]),
        with("log", vec![]),
    ]);
    assert_eq!(
        cargo_toml("hello", &project, &versions(&[("serde", "1"), ("regex", "2")])),
        Err(ManifestError::DisabledFeature { index: 1 })
    );
}

#[test]
fn manifest_versions_reads_the_versions_back() {
    let project = project(vec![with("serde", vec![]), with("regex", vec![])]);
    let resolved = versions(&[("serde", "1.0.9"), ("regex", "1.5.0")]);
    let manifest = cargo_toml("hello", &project, &resolved).unwrap();
    assert_eq!(manifest_versions(&manifest), resolved);
}

#[test]
fn toolchain_toml_pins_the_channel() {
    assert_eq!(toolchain_toml(&project(vec![])).toolchain.channel, "nightly");
}

#[test]
fn build_args_for_each_setting() {
    let mut project = project(vec![]);
    assert_eq!(build_args(&project, false), vec!["build"]);
    assert_eq!(build_args(&project, true), vec!["build", "-q"]);
    project.optimisation = OptimisationType::Release;
    assert_eq!(build_args(&project, false), vec!["build", "--release"]);
    project.toolchain.target = Some("wasm32-wasi".to_string());
    assert_eq!(
        build_args(&project, true),
        vec!["build", "--target", "wasm32-wasi", "--release", "-q"]
    );
}
