//! The record of resolved versions that one run leaves for the next, and what a run decides
//! with it: whether to build, whether to trust the record, which packages to ask the registry
//! for, and what to record in turn.

use vstd::prelude::*;
use vstd::string::StringExecFns;
use vstd::utf8::encode_utf8;
use crate::hash::{digest_of, hex_lower_is_injective, sha256};
use crate::crates::{version_text, CrateVersion, CrateVersionView};
use crate::directives::{Dependency, DependencyView};
use crate::model::{views, views_push};
use crate::table::{same_text, NameMap};

verus! {

/// A point in time: whole seconds since the Unix epoch, and the nanoseconds beyond them.
#[derive(Clone, Copy, Debug, PartialEq, Eq, Structural)]
pub struct Timestamp {
    pub secs: u64,
    pub nanos: u32,
}

impl Timestamp {
    /// The nanoseconds from the Unix epoch to this point.
    pub open spec fn nanoseconds(self) -> int {
        self.secs * 1_000_000_000 + self.nanos
    }
}

/// For how many nanoseconds a record of resolved versions is trusted: one hour.
pub open spec fn threshold() -> int {
    3_600_000_000_000int
}

/// What one run leaves behind for the next: the hash of the source file as it was, when its
/// versions were resolved, and what each dependency was resolved to.
#[derive(Debug, PartialEq, Eq)]
pub struct VersionCache {
    pub file_hash: String,
    pub time: Timestamp,
    pub versions: NameMap<String>,
}

/// The mathematical value of a [`VersionCache`].
pub struct VersionCacheView {
    pub file_hash: Seq<char>,
    pub time: Timestamp,
    pub versions: Map<Seq<char>, Seq<char>>,
}

impl View for VersionCache {
    type V = VersionCacheView;

    open spec fn view(&self) -> VersionCacheView {
        VersionCacheView { file_hash: self.file_hash@, time: self.time, versions: self.versions@ }
    }
}

/// The view of a record that may be missing.
pub open spec fn record_view(prior: Option<&VersionCache>) -> Option<VersionCacheView> {
    match prior {
        Some(record) => Some(record@),
        None => None,
    }
}

/// Whether the project has to be built again: always, unless a record is there and holds the
/// hash of the source file as it is now.
pub open spec fn must_build(prior: Option<VersionCacheView>, src_hash: Seq<char>) -> bool {
    match prior {
        Some(record) => record.file_hash != src_hash,
        None => true,
    }
}

/// Whether the recorded versions may be used: a record is there, no refresh is forced, and
/// less than the threshold has passed since the record was written.
pub open spec fn may_use_cache(
    prior: Option<VersionCacheView>,
    force_recache: bool,
    now: Timestamp,
) -> bool {
    match prior {
        Some(record) => !force_recache && now.nanoseconds() - record.time.nanoseconds()
            < threshold(),
        None => false,
    }
}

/// Whether the project has to be built again, given the hash of the source file as it is.
pub fn needs_build(prior: Option<&VersionCache>, src_hash: &str) -> (r: bool)
    ensures
        r == must_build(record_view(prior), src_hash@),
{
    match prior {
        Some(record) => !same_text(record.file_hash.as_str(), src_hash),
        None => true,
    }
}

/// Whether the recorded versions may be used at the time `now`.
pub fn use_cache(prior: Option<&VersionCache>, force_recache: bool, now: Timestamp) -> (r: bool)
    ensures
        r == may_use_cache(record_view(prior), force_recache, now),
{
    match prior {
        Some(record) => {
            if force_recache {
                return false;
            }
            let then: u128 = record.time.secs as u128 * 1_000_000_000 + record.time.nanos as u128;
            let now: u128 = now.secs as u128 * 1_000_000_000 + now.nanos as u128;
            now < then || now - then < 3_600_000_000_000
        },
        None => false,
    }
}

/// Where the version of a dependency comes from.
#[derive(Debug, PartialEq, Eq)]
pub enum Source {
    /// The directive names it.
    Pinned(String),
    /// The record of the last run holds it.
    Cached(String),
    /// The registry has to be asked.
    Registry,
}

/// The mathematical value of a [`Source`].
pub enum SourceView {
    Pinned(Seq<char>),
    Cached(Seq<char>),
    Registry,
}

impl View for Source {
    type V = SourceView;

    open spec fn view(&self) -> SourceView {
        match self {
            Source::Pinned(version) => SourceView::Pinned(version@),
            Source::Cached(version) => SourceView::Cached(version@),
            Source::Registry => SourceView::Registry,
        }
    }
}

/// Where the version of `dependency` comes from. An exact version is taken as written. The
/// newest version is taken from the record where the record may be used and names the package,
/// and from the registry otherwise.
pub open spec fn source(
    dependency: DependencyView,
    prior: Option<VersionCacheView>,
    use_cache: bool,
) -> SourceView {
    match dependency.version {
        CrateVersionView::Specific(version) => SourceView::Pinned(version_text(version)),
        CrateVersionView::Latest => match prior {
            Some(record) => if use_cache && record.versions.contains_key(dependency.name) {
                SourceView::Cached(record.versions[dependency.name])
            } else {
                SourceView::Registry
            },
            None => SourceView::Registry,
        },
    }
}

/// Finds where the version of `dependency` comes from.
pub fn source_of(dependency: &Dependency, prior: Option<&VersionCache>, use_cache: bool) -> (r:
    Source)
    ensures
        r@ == source(dependency@, record_view(prior), use_cache),
{
    match &dependency.version {
        CrateVersion::Specific(version) => Source::Pinned(version.render()),
        CrateVersion::Latest => match prior {
            Some(record) => {
                if !use_cache {
                    return Source::Registry;
                }
                match record.versions.get(dependency.name.as_str()) {
                    Some(version) => Source::Cached(version.clone()),
                    None => Source::Registry,
                }
            },
            None => Source::Registry,
        },
    }
}

/// The packages to ask the registry for, one for each dependency whose version comes from
/// there, in the order declared. A package that is declared twice is asked for twice.
pub open spec fn pending(
    dependencies: Seq<DependencyView>,
    prior: Option<VersionCacheView>,
    use_cache: bool,
) -> Seq<Seq<char>>
    decreases dependencies.len(),
{
    if dependencies.len() == 0 {
        Seq::empty()
    } else if source(dependencies.last(), prior, use_cache) is Registry {
        pending(dependencies.drop_last(), prior, use_cache).push(dependencies.last().name)
    } else {
        pending(dependencies.drop_last(), prior, use_cache)
    }
}

/// The version of each package once the registry has answered: `answers` holds its answers in
/// the order of [`pending`]. Where a package is declared twice, the later declaration decides.
pub open spec fn resolved(
    dependencies: Seq<DependencyView>,
    prior: Option<VersionCacheView>,
    use_cache: bool,
    answers: Seq<Seq<char>>,
) -> Map<Seq<char>, Seq<char>>
    decreases dependencies.len(),
{
    if dependencies.len() == 0 {
        Map::empty()
    } else {
        let earlier = dependencies.drop_last();
        resolved(earlier, prior, use_cache, answers).insert(
            dependencies.last().name,
            match source(dependencies.last(), prior, use_cache) {
                SourceView::Pinned(version) => version,
                SourceView::Cached(version) => version,
                SourceView::Registry => answers[pending(earlier, prior, use_cache).len() as int],
            },
        )
    }
}

/// Lists the packages to ask the registry for.
pub fn pending_lookups(
    dependencies: &Vec<Dependency>,
    prior: Option<&VersionCache>,
    use_cache: bool,
) -> (r: Vec<String>)
    ensures
        views(r@) == pending(views(dependencies@), record_view(prior), use_cache),
{
    let mut names: Vec<String> = Vec::new();
    let ghost all = views(dependencies@);
    assert(views(names@) =~= Seq::<Seq<char>>::empty());
    assert(all.take(0) =~= Seq::<DependencyView>::empty());
    let mut i: usize = 0;
    while i < dependencies.len()
        invariant
            i <= dependencies.len(),
            all == views(dependencies@),
            views(names@) == pending(all.take(i as int), record_view(prior), use_cache),
        decreases dependencies.len() - i,
    {
        proof {
            assert(all.take(i + 1).drop_last() =~= all.take(i as int));
            assert(all.take(i + 1).last() == dependencies@[i as int]@);
        }
        match source_of(&dependencies[i], prior, use_cache) {
            Source::Registry => {
                let name = dependencies[i].name.clone();
                proof {
                    views_push(names@, name);
                }
                names.push(name);
            },
            _ => {},
        }
        i += 1;
    }
    assert(all.take(i as int) =~= all);
    names
}

/// Settles the version of every dependency, given the registry's answers to
/// [`pending_lookups`] in the same order. Without exactly one answer for each lookup there is
/// no result.
pub fn resolve(
    dependencies: &Vec<Dependency>,
    prior: Option<&VersionCache>,
    use_cache: bool,
    answers: &Vec<String>,
) -> (r: Option<NameMap<String>>)
    ensures
        match r {
            Some(versions) => answers@.len() == pending(
                views(dependencies@),
                record_view(prior),
                use_cache,
            ).len() && versions@ == resolved(
                views(dependencies@),
                record_view(prior),
                use_cache,
                views(answers@),
            ),
            None => answers@.len() != pending(
                views(dependencies@),
                record_view(prior),
                use_cache,
            ).len(),
        },
{
    let mut versions: NameMap<String> = NameMap::new();
    let ghost all = views(dependencies@);
    let ghost before = record_view(prior);
    assert(all.take(0) =~= Seq::<DependencyView>::empty());
    let mut asked: usize = 0;
    let mut i: usize = 0;
    while i < dependencies.len()
        invariant
            i <= dependencies.len(),
            all == views(dependencies@),
            before == record_view(prior),
            asked == pending(all.take(i as int), before, use_cache).len(),
            asked <= answers@.len(),
            asked <= i,
            versions@ == resolved(all.take(i as int), before, use_cache, views(answers@)),
        decreases dependencies.len() - i,
    {
        proof {
            assert(all.take(i + 1).drop_last() =~= all.take(i as int));
            assert(all.take(i + 1).last() == dependencies@[i as int]@);
        }
        let version = match source_of(&dependencies[i], prior, use_cache) {
            Source::Pinned(version) => version,
            Source::Cached(version) => version,
            Source::Registry => {
                if asked >= answers.len() {
                    proof {
                        pending_grows(all, before, use_cache, i + 1);
                    }
                    return None;
                }
                let answer = answers[asked].clone();
                asked += 1;
                answer
            },
        };
        versions.insert(dependencies[i].name.clone(), version);
        i += 1;
    }
    assert(all.take(i as int) =~= all);
    if asked == answers.len() {
        Some(versions)
    } else {
        None
    }
}

/// The lookups for the first dependencies are among the lookups for all of them.
pub proof fn pending_grows(
    dependencies: Seq<DependencyView>,
    prior: Option<VersionCacheView>,
    use_cache: bool,
    count: int,
)
    requires
        0 <= count <= dependencies.len(),
    ensures
        pending(dependencies.take(count), prior, use_cache).len() <= pending(
            dependencies,
            prior,
            use_cache,
        ).len(),
    decreases dependencies.len(),
{
    if count < dependencies.len() {
        assert(dependencies.drop_last().take(count) =~= dependencies.take(count));
        pending_grows(dependencies.drop_last(), prior, use_cache, count);
    } else {
        assert(dependencies.take(count) =~= dependencies);
    }
}

/// What tells the record of one source file from that of another: the name of the project and
/// the digest of the absolute path of the file, whatever the file holds.
pub open spec fn record_key(name: Seq<char>, path_hash: Seq<char>) -> Seq<char> {
    name + seq!['_'] + path_hash
}

/// Names the place where the generated project of a source file and its record are kept.
pub fn identity(name: &str, path_hash: &str) -> (r: String)
    ensures
        r@ == record_key(name@, path_hash@),
{
    proof {
        reveal_strlit("_");
    }
    assert("_"@ =~= seq!['_']);
    String::from_str(name).concat("_").concat(path_hash)
}

/// What a run has to do before it can hand the project to the build.
#[derive(Debug, PartialEq, Eq)]
pub struct Plan {
    /// Whether to build at all. Where not, nothing is resolved either.
    pub build: bool,
    /// Whether the recorded versions are trusted.
    pub use_cache: bool,
    /// The packages to ask the registry for, in this order.
    pub lookups: Vec<String>,
}

/// The mathematical value of a [`Plan`].
pub struct PlanView {
    pub build: bool,
    pub use_cache: bool,
    pub lookups: Seq<Seq<char>>,
}

impl View for Plan {
    type V = PlanView;

    open spec fn view(&self) -> PlanView {
        PlanView { build: self.build, use_cache: self.use_cache, lookups: views(self.lookups@) }
    }
}

/// The plan for a run: the registry is asked only where a build is needed.
pub open spec fn planned(
    dependencies: Seq<DependencyView>,
    prior: Option<VersionCacheView>,
    src_hash: Seq<char>,
    force_recache: bool,
    now: Timestamp,
) -> PlanView {
    let use_cache = may_use_cache(prior, force_recache, now);
    PlanView {
        build: must_build(prior, src_hash),
        use_cache,
        lookups: if must_build(prior, src_hash) {
            pending(dependencies, prior, use_cache)
        } else {
            Seq::empty()
        },
    }
}

/// Decides what a run has to do, from the declared dependencies, the record of the last run if
/// there is one, the hash of the source file as it is, the request to refresh, and the time.
pub fn plan(
    dependencies: &Vec<Dependency>,
    prior: Option<&VersionCache>,
    src_hash: &str,
    force_recache: bool,
    now: Timestamp,
) -> (r: Plan)
    ensures
        r@ == planned(views(dependencies@), record_view(prior), src_hash@, force_recache, now),
{
    let build = needs_build(prior, src_hash);
    let use_cache = use_cache(prior, force_recache, now);
    let lookups = if build {
        pending_lookups(dependencies, prior, use_cache)
    } else {
        let none: Vec<String> = Vec::new();
        assert(views(none@) =~= Seq::<Seq<char>>::empty());
        none
    };
    Plan { build, use_cache, lookups }
}

/// The record to leave behind. Where the old record was trusted, only its hash is renewed: its
/// time and its versions stay, whatever was resolved in this run. Otherwise the record is
/// new, with the time of writing and the versions given.
pub open spec fn record_after(
    prior: Option<VersionCacheView>,
    use_cache: bool,
    src_hash: Seq<char>,
    now: Timestamp,
    versions: Map<Seq<char>, Seq<char>>,
) -> VersionCacheView {
    match prior {
        Some(record) => if use_cache {
            VersionCacheView { file_hash: src_hash, time: record.time, versions: record.versions }
        } else {
            VersionCacheView { file_hash: src_hash, time: now, versions }
        },
        None => VersionCacheView { file_hash: src_hash, time: now, versions },
    }
}

/// Makes the record to write at the end of a run. `versions` are those that the manifest was
/// written with; they are empty where nothing was built.
pub fn next_record(
    prior: Option<&VersionCache>,
    use_cache: bool,
    src_hash: &str,
    now: Timestamp,
    versions: NameMap<String>,
) -> (r: VersionCache)
    ensures
        r@ == record_after(record_view(prior), use_cache, src_hash@, now, versions@),
{
    match prior {
        Some(record) => {
            if use_cache {
                VersionCache {
                    file_hash: src_hash.to_owned(),
                    time: record.time,
                    versions: record.versions.clone(),
                }
            } else {
                VersionCache { file_hash: src_hash.to_owned(), time: now, versions }
            }
        },
        None => VersionCache { file_hash: src_hash.to_owned(), time: now, versions },
    }
}

/// A file that has not changed since the record was written is left alone: nothing is built,
/// and the registry is not asked, whether the record is fresh or stale.
pub proof fn unchanged_file_needs_nothing(
    dependencies: Seq<DependencyView>,
    prior: VersionCacheView,
    file: Seq<char>,
    force_recache: bool,
    now: Timestamp,
)
    requires
        prior.file_hash == digest_of(file),
    ensures
        !planned(dependencies, Some(prior), digest_of(file), force_recache, now).build,
        planned(dependencies, Some(prior), digest_of(file), force_recache, now).lookups.len() == 0,
{
}

/// With a fresh record of an unchanged file a run changes nothing: no build, no lookup, and the
/// record to write is the old one, in hash, time and versions, whatever the time of writing.
pub proof fn fresh_unchanged_file_keeps_its_record(
    dependencies: Seq<DependencyView>,
    prior: VersionCacheView,
    file: Seq<char>,
    now: Timestamp,
    later: Timestamp,
    versions: Map<Seq<char>, Seq<char>>,
)
    requires
        prior.file_hash == digest_of(file),
        now.nanoseconds() - prior.time.nanoseconds() < threshold(),
    ensures
        !planned(dependencies, Some(prior), digest_of(file), false, now).build,
        planned(dependencies, Some(prior), digest_of(file), false, now).use_cache,
        planned(dependencies, Some(prior), digest_of(file), false, now).lookups.len() == 0,
        record_after(
            Some(prior),
            planned(dependencies, Some(prior), digest_of(file), false, now).use_cache,
            digest_of(file),
            later,
            versions,
        ) == prior,
{
}

/// A file whose content has changed is built again, as far as the change shows in its hash.
pub proof fn changed_file_is_built_again(
    prior: VersionCacheView,
    before: Seq<char>,
    after: Seq<char>,
)
    requires
        prior.file_hash == digest_of(before),
        sha256(encode_utf8(after)) != sha256(encode_utf8(before)),
    ensures
        must_build(Some(prior), digest_of(after)),
{
    if digest_of(after) == digest_of(before) {
        hex_lower_is_injective(sha256(encode_utf8(after)), sha256(encode_utf8(before)));
    }
}

/// A record as old as the threshold or older is not trusted: a dependency on the newest
/// version is resolved by the registry, even where the record names the package.
pub proof fn stale_record_is_not_trusted(
    dependency: DependencyView,
    prior: VersionCacheView,
    force_recache: bool,
    now: Timestamp,
)
    requires
        now.nanoseconds() - prior.time.nanoseconds() >= threshold(),
        dependency.version is Latest,
    ensures
        !may_use_cache(Some(prior), force_recache, now),
        source(dependency, Some(prior), may_use_cache(Some(prior), force_recache, now))
            is Registry,
{
}

/// A fresh record is used as it stands: a dependency on the newest version that it names takes
/// the recorded version, and one that it lacks goes to the registry.
pub proof fn fresh_record_is_trusted(
    dependency: DependencyView,
    prior: VersionCacheView,
    now: Timestamp,
)
    requires
        now.nanoseconds() - prior.time.nanoseconds() < threshold(),
        dependency.version is Latest,
    ensures
        may_use_cache(Some(prior), false, now),
        prior.versions.contains_key(dependency.name) ==> source(dependency, Some(prior), true)
            == SourceView::Cached(prior.versions[dependency.name]),
        !prior.versions.contains_key(dependency.name) ==> source(dependency, Some(prior), true)
            is Registry,
{
}

} // verus!
