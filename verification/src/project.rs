//! The project that the directives of one file add up to.

use vstd::prelude::*;
use crate::directives::{
    Dependency, DependencyView, Directive, DirectiveView, OptimisationType, RustEdition,
};
use crate::model::{views, views_push, result_view};

verus! {

/// The toolchain that a project is built with.
#[derive(Debug, PartialEq, Eq)]
pub struct ToolchainInfo {
    pub channel: String,
    pub target: Option<String>,
}

/// The mathematical value of a [`ToolchainInfo`].
pub struct ToolchainInfoView {
    pub channel: Seq<char>,
    pub target: Option<Seq<char>>,
}

impl View for ToolchainInfo {
    type V = ToolchainInfoView;

    open spec fn view(&self) -> ToolchainInfoView {
        ToolchainInfoView {
            channel: self.channel@,
            target: match self.target {
                Some(target) => Some(target@),
                None => None,
            },
        }
    }
}

/// What the directives of one source file add up to.
#[derive(Debug, PartialEq, Eq)]
pub struct Project {
    /// Every dependency that a directive names, in the order written. A package that is named
    /// twice stands here twice.
    pub dependencies: Vec<Dependency>,
    pub edition: RustEdition,
    pub toolchain: ToolchainInfo,
    pub optimisation: OptimisationType,
}

/// The mathematical value of a [`Project`].
pub struct ProjectView {
    pub dependencies: Seq<DependencyView>,
    pub edition: RustEdition,
    pub toolchain: ToolchainInfoView,
    pub optimisation: OptimisationType,
}

impl View for Project {
    type V = ProjectView;

    open spec fn view(&self) -> ProjectView {
        ProjectView {
            dependencies: views(self.dependencies@),
            edition: self.edition,
            toolchain: self.toolchain@,
            optimisation: self.optimisation,
        }
    }
}

/// A directive that cannot be folded yet: the conditional one at `index`.
#[derive(Clone, Copy, Debug, PartialEq, Eq, Structural)]
pub struct Unsupported {
    pub index: usize,
}

impl View for Unsupported {
    type V = int;

    open spec fn view(&self) -> int {
        self.index as int
    }
}

/// The channel that a project is built with unless a directive names another.
pub open spec fn stable() -> Seq<char> {
    seq!['s', 't', 'a', 'b', 'l', 'e']
}

/// The project that a file without directives describes: no dependencies, the newest edition,
/// the stable channel for the host, a debug build.
pub open spec fn initial() -> ProjectView {
    ProjectView {
        dependencies: Seq::empty(),
        edition: RustEdition::Rust2021,
        toolchain: ToolchainInfoView { channel: stable(), target: None },
        optimisation: OptimisationType::Debug,
    }
}

/// The project after one more directive. Dependencies are appended; an edition, a toolchain or
/// an optimisation level replaces the one before. The toolchain is replaced as a whole: a
/// directive that names a channel alone leaves no target. A conditional directive changes
/// nothing: [`fold`] refuses it.
pub open spec fn apply(project: ProjectView, directive: DirectiveView) -> ProjectView {
    match directive {
        DirectiveView::Dependency(dependencies) => ProjectView {
            dependencies: project.dependencies + dependencies,
            ..project
        },
        DirectiveView::Toolchain(channel) => ProjectView {
            toolchain: ToolchainInfoView { channel, target: None },
            ..project
        },
        DirectiveView::ToolchainWithTarget(channel, target) => ProjectView {
            toolchain: ToolchainInfoView { channel, target: Some(target) },
            ..project
        },
        DirectiveView::When(_, _) => project,
        DirectiveView::Edition(edition) => ProjectView { edition, ..project },
        DirectiveView::Optimise(optimisation) => ProjectView { optimisation, ..project },
    }
}

/// The project after all of `directives`, taken in order from [`initial`].
pub open spec fn applied(directives: Seq<DirectiveView>) -> ProjectView
    decreases directives.len(),
{
    if directives.len() == 0 {
        initial()
    } else {
        apply(applied(directives.drop_last()), directives.last())
    }
}

/// The place of the first conditional directive among `directives`, or their number if none
/// is conditional.
pub open spec fn first_conditional(directives: Seq<DirectiveView>) -> int
    decreases directives.len(),
{
    if directives.len() == 0 {
        0
    } else if directives[0] is When {
        0
    } else {
        1 + first_conditional(directives.drop_first())
    }
}

/// What folding gives: the project that the directives add up to, or the place of the first
/// conditional directive.
pub open spec fn folded(directives: Seq<DirectiveView>) -> Result<ProjectView, int> {
    if first_conditional(directives) < directives.len() {
        Err(first_conditional(directives))
    } else {
        Ok(applied(directives))
    }
}

/// The first conditional directive is the one that no conditional directive stands before.
pub proof fn first_conditional_is_first(directives: Seq<DirectiveView>, index: int)
    requires
        0 <= index <= directives.len(),
        forall|i: int| 0 <= i < index ==> !(#[trigger] directives[i] is When),
        index < directives.len() ==> directives[index] is When,
    ensures
        first_conditional(directives) == index,
    decreases directives.len(),
{
    if index > 0 {
        let rest = directives.drop_first();
        assert forall|i: int| 0 <= i < index - 1 implies !(#[trigger] rest[i] is When) by {
            assert(rest[i] == directives[i + 1]);
        }
        first_conditional_is_first(rest, index - 1);
    }
}

/// Folds the directives of one file, in file order, into a project. A conditional directive
/// cannot be folded yet: the first one stops the fold, and is reported by its place.
pub fn fold(directives: &Vec<Directive>) -> (r: Result<Project, Unsupported>)
    ensures
        result_view(r) == folded(views(directives@)),
{
    proof {
        reveal_strlit("stable");
    }
    assert("stable"@ =~= stable());
    let mut project = Project {
        dependencies: Vec::new(),
        edition: RustEdition::Rust2021,
        toolchain: ToolchainInfo { channel: "stable".to_owned(), target: None },
        optimisation: OptimisationType::Debug,
    };
    assert(views(project.dependencies@) =~= Seq::<DependencyView>::empty());
    assert(views(directives@).take(0) =~= Seq::<DirectiveView>::empty());
    let ghost all = views(directives@);
    let mut i: usize = 0;
    while i < directives.len()
        invariant
            i <= directives.len(),
            all == views(directives@),
            project@ == applied(all.take(i as int)),
            forall|j: int| 0 <= j < i ==> !(#[trigger] all[j] is When),
        decreases directives.len() - i,
    {
        let ghost before = project@;
        proof {
            assert(all.take(i + 1).drop_last() =~= all.take(i as int));
            assert(all.take(i + 1).last() == all[i as int]);
            assert(all[i as int] == directives@[i as int]@);
        }
        match &directives[i] {
            Directive::Dependency(added) => {
                let mut k: usize = 0;
                while k < added.len()
                    invariant
                        k <= added.len(),
                        views(project.dependencies@) == before.dependencies + views(added@).take(
                            k as int,
                        ),
                        project.edition == before.edition,
                        project.toolchain@ == before.toolchain,
                        project.optimisation == before.optimisation,
                    decreases added.len() - k,
                {
                    let dependency = added[k].clone();
                    proof {
                        views_push(project.dependencies@, dependency);
                        assert(views(added@).take(k + 1) =~= views(added@).take(k as int).push(
                            added@[k as int]@,
                        ));
                        assert(before.dependencies + views(added@).take(k + 1) =~= (
                        before.dependencies + views(added@).take(k as int)).push(dependency@));
                    }
                    project.dependencies.push(dependency);
                    k += 1;
                }
                assert(views(added@).take(k as int) =~= views(added@));
            },
            Directive::Toolchain(channel) => {
                project.toolchain = ToolchainInfo { channel: channel.clone(), target: None };
            },
            Directive::ToolchainWithTarget(channel, target) => {
                project.toolchain = ToolchainInfo {
                    channel: channel.clone(),
                    target: Some(target.clone()),
                };
            },
            Directive::When(_, _) => {
                proof {
                    first_conditional_is_first(all, i as int);
                }
                return Err(Unsupported { index: i });
            },
            Directive::Edition(edition) => {
                project.edition = *edition;
            },
            Directive::Optimise(level) => {
                project.optimisation = *level;
            },
        }
        i += 1;
    }
    proof {
        assert(all.take(i as int) =~= all);
        first_conditional_is_first(all, i as int);
    }
    Ok(project)
}

/// Folding is a function of what the directives say: two sequences that say the same, none
/// of them conditional, fold to the same edition, toolchain and optimisation level and to the
/// same dependencies in the same order.
pub proof fn fold_is_deterministic(first: Seq<Directive>, second: Seq<Directive>)
    requires
        views(first) == views(second),
        forall|i: int| 0 <= i < first.len() ==> !(#[trigger] first[i] is When),
    ensures
        folded(views(first)) is Ok,
        folded(views(second)) is Ok,
        folded(views(first))->Ok_0.edition == folded(views(second))->Ok_0.edition,
        folded(views(first))->Ok_0.toolchain == folded(views(second))->Ok_0.toolchain,
        folded(views(first))->Ok_0.optimisation == folded(views(second))->Ok_0.optimisation,
        folded(views(first))->Ok_0.dependencies == folded(views(second))->Ok_0.dependencies,
{
    let all = views(first);
    assert forall|i: int| 0 <= i < all.len() implies !(#[trigger] all[i] is When) by {
        assert(all[i] == first[i]@);
    }
    first_conditional_is_first(all, all.len() as int);
}

/// The edition of a project is that of the last edition directive.
pub proof fn last_edition_stands(directives: Seq<DirectiveView>, last: int)
    requires
        0 <= last < directives.len(),
        directives[last] is Edition,
        forall|i: int| last < i < directives.len() ==> !(#[trigger] directives[i] is Edition),
    ensures
        applied(directives).edition == directives[last]->Edition_0,
    decreases directives.len(),
{
    if last < directives.len() - 1 {
        let before = directives.drop_last();
        assert(before[last] == directives[last]);
        assert forall|i: int| last < i < before.len() implies !(#[trigger] before[i] is Edition) by {
            assert(before[i] == directives[i]);
        }
        last_edition_stands(before, last);
        assert(!(directives[directives.len() - 1] is Edition));
    }
}

/// Of two edition directives in one file the later one wins: where no further edition directive
/// follows it, and no directive is conditional, the folded project has its edition.
pub proof fn later_edition_wins(directives: Seq<DirectiveView>, earlier: int, later: int)
    requires
        0 <= earlier < later < directives.len(),
        directives[earlier] is Edition,
        directives[later] is Edition,
        forall|i: int| later < i < directives.len() ==> !(#[trigger] directives[i] is Edition),
        forall|i: int| 0 <= i < directives.len() ==> !(#[trigger] directives[i] is When),
    ensures
        folded(directives) is Ok,
        folded(directives)->Ok_0.edition == directives[later]->Edition_0,
{
    first_conditional_is_first(directives, directives.len() as int);
    last_edition_stands(directives, later);
}

/// The toolchain of a project is that of the last toolchain directive, target included: a
/// later directive that names a channel alone leaves no target.
pub proof fn last_toolchain_stands(directives: Seq<DirectiveView>, last: int)
    requires
        0 <= last < directives.len(),
        directives[last] is Toolchain || directives[last] is ToolchainWithTarget,
        forall|i: int|
            last < i < directives.len() ==> !(#[trigger] directives[i] is Toolchain)
                && !(directives[i] is ToolchainWithTarget),
    ensures
        applied(directives).toolchain == (match directives[last] {
            DirectiveView::ToolchainWithTarget(channel, target) => ToolchainInfoView {
                channel,
                target: Some(target),
            },
            DirectiveView::Toolchain(channel) => ToolchainInfoView { channel, target: None },
            _ => applied(directives).toolchain,
        }),
    decreases directives.len(),
{
    if last < directives.len() - 1 {
        let before = directives.drop_last();
        assert(before[last] == directives[last]);
        assert forall|i: int| last < i < before.len() implies !(#[trigger] before[i]
            is Toolchain) && !(before[i] is ToolchainWithTarget) by {
            assert(before[i] == directives[i]);
        }
        last_toolchain_stands(before, last);
        assert(!(directives[directives.len() - 1] is Toolchain));
        assert(!(directives[directives.len() - 1] is ToolchainWithTarget));
    }
}

/// The dependencies of a project are those of its dependency directives, one list after the
/// other in file order.
pub open spec fn declared(directives: Seq<DirectiveView>) -> Seq<DependencyView>
    decreases directives.len(),
{
    if directives.len() == 0 {
        Seq::empty()
    } else {
        declared(directives.drop_last()) + match directives.last() {
            DirectiveView::Dependency(dependencies) => dependencies,
            _ => Seq::empty(),
        }
    }
}

/// Folding appends and never merges: the project holds every declared dependency, in the order
/// declared.
pub proof fn dependencies_are_appended(directives: Seq<DirectiveView>)
    ensures
        applied(directives).dependencies == declared(directives),
    decreases directives.len(),
{
    if directives.len() > 0 {
        dependencies_are_appended(directives.drop_last());
        assert(applied(directives).dependencies =~= declared(directives));
    }
}

} // verus!
