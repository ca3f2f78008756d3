//! The files that describe the generated project to the build: its manifest and its
//! toolchain file, and the arguments of the build itself.

use vstd::prelude::*;
use crate::crates::{Feature, FeatureView};
use crate::directives::{DependencyView, OptimisationType, RustEdition};
use crate::model::{views, views_push};
use crate::project::Project;
use crate::table::NameMap;

verus! {

/// The `[package]` table of a manifest.
#[derive(Debug, PartialEq, Eq)]
pub struct CargoTomlPackage {
    pub name: String,
    pub version: String,
    pub edition: RustEdition,
}

/// The mathematical value of a [`CargoTomlPackage`].
pub struct CargoTomlPackageView {
    pub name: Seq<char>,
    pub version: Seq<char>,
    pub edition: RustEdition,
}

impl View for CargoTomlPackage {
    type V = CargoTomlPackageView;

    open spec fn view(&self) -> CargoTomlPackageView {
        CargoTomlPackageView { name: self.name@, version: self.version@, edition: self.edition }
    }
}

/// What a manifest says of one dependency.
#[derive(Debug, PartialEq, Eq)]
pub struct CargoTomlDependencyObj {
    pub version: String,
    pub features: Vec<String>,
}

/// The mathematical value of a [`CargoTomlDependencyObj`].
pub struct CargoTomlDependencyObjView {
    pub version: Seq<char>,
    pub features: Seq<Seq<char>>,
}

impl View for CargoTomlDependencyObj {
    type V = CargoTomlDependencyObjView;

    open spec fn view(&self) -> CargoTomlDependencyObjView {
        CargoTomlDependencyObjView { version: self.version@, features: views(self.features@) }
    }
}

/// The manifest of the project that is built from a source file.
#[derive(Debug, PartialEq, Eq)]
pub struct CargoToml {
    pub package: CargoTomlPackage,
    pub dependencies: NameMap<CargoTomlDependencyObj>,
}

/// The mathematical value of a [`CargoToml`].
pub struct CargoTomlView {
    pub package: CargoTomlPackageView,
    pub dependencies: Map<Seq<char>, CargoTomlDependencyObjView>,
}

impl View for CargoToml {
    type V = CargoTomlView;

    open spec fn view(&self) -> CargoTomlView {
        CargoTomlView { package: self.package@, dependencies: self.dependencies@ }
    }
}

/// The file that pins the toolchain of the project.
#[derive(Debug, PartialEq, Eq)]
pub struct RustToolchainToml {
    pub toolchain: RustToolchainToolchainObj,
}

/// The `[toolchain]` table of the toolchain file.
#[derive(Debug, PartialEq, Eq)]
pub struct RustToolchainToolchainObj {
    pub channel: String,
}

/// Why no manifest can be written: what is wrong with the dependency at `index`.
#[derive(Clone, Copy, Debug, PartialEq, Eq, Structural)]
pub enum ManifestError {
    /// No version is known for it.
    Unresolved { index: usize },
    /// It switches a feature off, which a manifest cannot say yet.
    DisabledFeature { index: usize },
}

/// What is wrong with one dependency.
#[derive(Clone, Copy, Debug, PartialEq, Eq, Structural)]
pub enum Fault {
    Unresolved,
    DisabledFeature,
}

/// The names of the features, where all of them are switched on.
pub open spec fn enabled(features: Seq<FeatureView>) -> Option<Seq<Seq<char>>>
    decreases features.len(),
{
    if features.len() == 0 {
        Some(Seq::empty())
    } else {
        match (enabled(features.drop_last()), features.last()) {
            (Some(names), FeatureView::Enable(name)) => Some(names.push(name)),
            _ => None,
        }
    }
}

/// What the manifest says of `dependency`, given the version that each package was resolved
/// to.
pub open spec fn entry(dependency: DependencyView, versions: Map<Seq<char>, Seq<char>>) -> Result<
    CargoTomlDependencyObjView,
    Fault,
> {
    if !versions.contains_key(dependency.name) {
        Err(Fault::Unresolved)
    } else {
        match enabled(dependency.features) {
            Some(features) => Ok(
                CargoTomlDependencyObjView { version: versions[dependency.name], features },
            ),
            None => Err(Fault::DisabledFeature),
        }
    }
}

/// The place of the first dependency that has no entry, or their number if each has one.
pub open spec fn first_fault(
    dependencies: Seq<DependencyView>,
    versions: Map<Seq<char>, Seq<char>>,
) -> int
    decreases dependencies.len(),
{
    if dependencies.len() == 0 {
        0
    } else if first_fault(dependencies.drop_last(), versions) < dependencies.len() - 1 {
        first_fault(dependencies.drop_last(), versions)
    } else if entry(dependencies.last(), versions) is Err {
        dependencies.len() - 1
    } else {
        dependencies.len() as int
    }
}

/// The `[dependencies]` table: one entry for each package. Where a package is declared twice,
/// the later declaration decides its features.
pub open spec fn entries(
    dependencies: Seq<DependencyView>,
    versions: Map<Seq<char>, Seq<char>>,
) -> Map<Seq<char>, CargoTomlDependencyObjView>
    decreases dependencies.len(),
{
    if dependencies.len() == 0 {
        Map::empty()
    } else {
        match entry(dependencies.last(), versions) {
            Ok(obj) => entries(dependencies.drop_last(), versions).insert(
                dependencies.last().name,
                obj,
            ),
            Err(_) => entries(dependencies.drop_last(), versions),
        }
    }
}

/// The version that every generated package has.
pub open spec fn package_version() -> Seq<char> {
    seq!['1', '.', '0', '.', '0']
}

fn enabled_names(features: &Vec<Feature>) -> (r: Option<Vec<String>>)
    ensures
        match r {
            Some(names) => enabled(views(features@)) == Some(views(names@)),
            None => enabled(views(features@)) is None,
        },
{
    let mut names: Vec<String> = Vec::new();
    let ghost all = views(features@);
    assert(views(names@) =~= Seq::<Seq<char>>::empty());
    assert(all.take(0) =~= Seq::<FeatureView>::empty());
    let mut i: usize = 0;
    while i < features.len()
        invariant
            i <= features.len(),
            all == views(features@),
            enabled(all.take(i as int)) == Some(views(names@)),
        decreases features.len() - i,
    {
        proof {
            assert(all.take(i + 1).drop_last() =~= all.take(i as int));
            assert(all.take(i + 1).last() == features@[i as int]@);
        }
        match &features[i] {
            Feature::Enable(name) => {
                let name = name.clone();
                proof {
                    views_push(names@, name);
                }
                names.push(name);
            },
            Feature::Disable(_) => {
                proof {
                    enabled_needs_all(all, i + 1);
                }
                return None;
            },
        }
        i += 1;
    }
    assert(all.take(i as int) =~= all);
    Some(names)
}

/// Where the first features are not all switched on, neither are all of them.
pub proof fn enabled_needs_all(features: Seq<FeatureView>, count: int)
    requires
        0 <= count <= features.len(),
        enabled(features.take(count)) is None,
    ensures
        enabled(features) is None,
    decreases features.len(),
{
    if count < features.len() {
        assert(features.drop_last().take(count) =~= features.take(count));
        enabled_needs_all(features.drop_last(), count);
    } else {
        assert(features.take(count) =~= features);
    }
}

/// Once a dependency has no entry, the first such dependency stays the same however many
/// follow.
pub proof fn first_fault_stays(
    dependencies: Seq<DependencyView>,
    versions: Map<Seq<char>, Seq<char>>,
    count: int,
)
    requires
        0 <= count <= dependencies.len(),
        first_fault(dependencies.take(count), versions) < count,
    ensures
        first_fault(dependencies, versions) == first_fault(dependencies.take(count), versions),
    decreases dependencies.len(),
{
    if count < dependencies.len() {
        assert(dependencies.drop_last().take(count) =~= dependencies.take(count));
        first_fault_stays(dependencies.drop_last(), versions, count);
    } else {
        assert(dependencies.take(count) =~= dependencies);
    }
}

/// Writes the manifest for the package `name`: the edition of the project, and for each
/// dependency the version it was resolved to and the features it switches on. No manifest
/// is written while a version is missing or a feature is switched off: the first dependency
/// of which that holds is reported.
pub fn cargo_toml(name: &str, project: &Project, versions: &NameMap<String>) -> (r: Result<
    CargoToml,
    ManifestError,
>)
    ensures
        match r {
            Ok(manifest) => {
                &&& first_fault(project@.dependencies, versions@) == project@.dependencies.len()
                &&& manifest@.package == (CargoTomlPackageView {
                    name: name@,
                    version: package_version(),
                    edition: project.edition,
                })
                &&& manifest@.dependencies == entries(project@.dependencies, versions@)
            },
            Err(ManifestError::Unresolved { index }) => {
                &&& index == first_fault(project@.dependencies, versions@)
                &&& index < project@.dependencies.len()
                &&& entry(project@.dependencies[index as int], versions@) == Err::<
                    CargoTomlDependencyObjView,
                    Fault,
                >(Fault::Unresolved)
            },
            Err(ManifestError::DisabledFeature { index }) => {
                &&& index == first_fault(project@.dependencies, versions@)
                &&& index < project@.dependencies.len()
                &&& entry(project@.dependencies[index as int], versions@) == Err::<
                    CargoTomlDependencyObjView,
                    Fault,
                >(Fault::DisabledFeature)
            },
        },
{
    let mut dependencies: NameMap<CargoTomlDependencyObj> = NameMap::new();
    let ghost all = project@.dependencies;
    assert(all.take(0) =~= Seq::<DependencyView>::empty());
    let mut i: usize = 0;
    while i < project.dependencies.len()
        invariant
            i <= project.dependencies.len(),
            all == views(project.dependencies@),
            first_fault(all.take(i as int), versions@) == i,
            dependencies@ == entries(all.take(i as int), versions@),
        decreases project.dependencies.len() - i,
    {
        let dependency = &project.dependencies[i];
        proof {
            assert(all.take(i + 1).drop_last() =~= all.take(i as int));
            assert(all.take(i + 1).last() == dependency@);
            assert(all[i as int] == dependency@);
        }
        let version = match versions.get(dependency.name.as_str()) {
            Some(version) => version.clone(),
            None => {
                proof {
                    first_fault_stays(all, versions@, i + 1);
                }
                return Err(ManifestError::Unresolved { index: i });
            },
        };
        let features = match enabled_names(&dependency.features) {
            Some(features) => features,
            None => {
                proof {
                    first_fault_stays(all, versions@, i + 1);
                }
                return Err(ManifestError::DisabledFeature { index: i });
            },
        };
        dependencies.insert(dependency.name.clone(), CargoTomlDependencyObj { version, features });
        i += 1;
    }
    assert(all.take(i as int) =~= all);
    proof {
        reveal_strlit("1.0.0");
    }
    assert("1.0.0"@ =~= package_version());
    Ok(
        CargoToml {
            package: CargoTomlPackage {
                name: name.to_owned(),
                version: "1.0.0".to_owned(),
                edition: project.edition,
            },
            dependencies,
        },
    )
}

/// The versions that a manifest was written with, package by package.
pub open spec fn written_versions(
    dependencies: Seq<(Seq<char>, CargoTomlDependencyObjView)>,
) -> Map<Seq<char>, Seq<char>>
    decreases dependencies.len(),
{
    if dependencies.len() == 0 {
        Map::empty()
    } else {
        written_versions(dependencies.drop_last()).insert(
            dependencies.last().0,
            dependencies.last().1.version,
        )
    }
}

/// Reads the version of each package back out of a manifest, for the record of the run.
pub fn manifest_versions(manifest: &CargoToml) -> (r: NameMap<String>)
    ensures
        r@ == written_versions(manifest.dependencies.pairs()),
{
    let mut versions: NameMap<String> = NameMap::new();
    let ghost all = manifest.dependencies.pairs();
    assert(all.take(0) =~= Seq::<(Seq<char>, CargoTomlDependencyObjView)>::empty());
    let mut i: usize = 0;
    while i < manifest.dependencies.len()
        invariant
            i <= all.len(),
            all == manifest.dependencies.pairs(),
            versions@ == written_versions(all.take(i as int)),
        decreases all.len() - i,
    {
        proof {
            assert(all.take(i + 1).drop_last() =~= all.take(i as int));
        }
        versions.insert(
            manifest.dependencies.name_at(i).clone(),
            manifest.dependencies.value_at(i).version.clone(),
        );
        i += 1;
    }
    assert(all.take(i as int) =~= all);
    versions
}

/// Pins the toolchain of the project to its channel.
pub fn toolchain_toml(project: &Project) -> (r: RustToolchainToml)
    ensures
        r.toolchain.channel@ == project.toolchain.channel@,
{
    RustToolchainToml {
        toolchain: RustToolchainToolchainObj { channel: project.toolchain.channel.clone() },
    }
}

/// The arguments to build the project with: `build`, then the target if one is named, then
/// `--release` for a release build, then `-q` where quiet is asked for.
pub open spec fn build_arguments(
    target: Option<Seq<char>>,
    optimisation: OptimisationType,
    quiet: bool,
) -> Seq<Seq<char>> {
    seq!["build"@] + (match target {
        Some(target) => seq!["--target"@, target],
        None => Seq::empty(),
    }) + (if optimisation == OptimisationType::Release {
        seq!["--release"@]
    } else {
        Seq::empty()
    }) + (if quiet {
        seq!["-q"@]
    } else {
        Seq::empty()
    })
}

/// Lists the arguments to hand to `cargo` for building the project.
pub fn build_args(project: &Project, quiet: bool) -> (r: Vec<String>)
    ensures
        views(r@) == build_arguments(project@.toolchain.target, project.optimisation, quiet),
{
    let mut args: Vec<String> = Vec::new();
    args.push("build".to_owned());
    match &project.toolchain.target {
        Some(target) => {
            args.push("--target".to_owned());
            args.push(target.clone());
        },
        None => {},
    }
    match project.optimisation {
        OptimisationType::Release => {
            args.push("--release".to_owned());
        },
        OptimisationType::Debug => {},
    }
    if quiet {
        args.push("-q".to_owned());
    }
    assert(views(args@) =~= build_arguments(
        project@.toolchain.target,
        project.optimisation,
        quiet,
    ));
    args
}

} // verus!
