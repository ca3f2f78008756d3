//! What a directive can say.

use vstd::prelude::*;
use vstd::std_specs::convert::TryFromSpecImpl;
use crate::crates::{CrateVersion, CrateVersionView, Feature, FeatureView};
use crate::model::{views, views_push};
use crate::text::{chars_of, same_chars};

verus! {

/// The Rust editions a project can be built with.
#[derive(Clone, Copy, Debug, PartialEq, Eq, Structural)]
pub enum RustEdition {
    Rust2015,
    Rust2018,
    Rust2021,
}

/// How hard the compiler is asked to optimise.
#[derive(Clone, Copy, Debug, PartialEq, Eq, Structural)]
pub enum OptimisationType {
    Debug,
    Release,
}

/// The edition that a tag names, if it names one.
pub open spec fn edition_of(tag: Seq<char>) -> Option<RustEdition> {
    if tag == seq!['2', '0', '1', '5'] {
        Some(RustEdition::Rust2015)
    } else if tag == seq!['2', '0', '1', '8'] {
        Some(RustEdition::Rust2018)
    } else if tag == seq!['2', '0', '2', '1'] {
        Some(RustEdition::Rust2021)
    } else {
        None
    }
}

/// The optimisation level that a spelling stands for, if it stands for one.
pub open spec fn optimisation_of(word: Seq<char>) -> Option<OptimisationType> {
    if word == seq!['d', 'e', 'b', 'u', 'g'] {
        Some(OptimisationType::Debug)
    } else if word == seq!['r', 'e', 'l', 'e', 'a', 's', 'e'] {
        Some(OptimisationType::Release)
    } else if word == seq!['n', 'y', 'o', 'o', 'm'] {
        Some(OptimisationType::Release)
    } else {
        None
    }
}

impl RustEdition {
    /// The edition that `tag` names.
    pub fn from_chars(tag: &Vec<char>) -> (r: Option<RustEdition>)
        ensures
            r == edition_of(tag@),
    {
        if same_chars(tag, &vec!['2', '0', '1', '5']) {
            Some(RustEdition::Rust2015)
        } else if same_chars(tag, &vec!['2', '0', '1', '8']) {
            Some(RustEdition::Rust2018)
        } else if same_chars(tag, &vec!['2', '0', '2', '1']) {
            Some(RustEdition::Rust2021)
        } else {
            None
        }
    }
}

impl TryFrom<&str> for RustEdition {
    type Error = ();

    fn try_from(value: &str) -> (r: Result<Self, ()>) {
        match RustEdition::from_chars(&chars_of(value)) {
            Some(e) => Ok(e),
            None => Err(()),
        }
    }
}

impl TryFromSpecImpl<&str> for RustEdition {
    open spec fn obeys_try_from_spec() -> bool {
        true
    }

    open spec fn try_from_spec(value: &str) -> Result<Self, ()> {
        match edition_of(value@) {
            Some(e) => Ok(e),
            None => Err(()),
        }
    }
}

impl OptimisationType {
    /// The level that `word` stands for.
    pub fn from_chars(word: &Vec<char>) -> (r: Option<OptimisationType>)
        ensures
            r == optimisation_of(word@),
    {
        if same_chars(word, &vec!['d', 'e', 'b', 'u', 'g']) {
            Some(OptimisationType::Debug)
        } else if same_chars(word, &vec!['r', 'e', 'l', 'e', 'a', 's', 'e']) {
            Some(OptimisationType::Release)
        } else if same_chars(word, &vec!['n', 'y', 'o', 'o', 'm']) {
            Some(OptimisationType::Release)
        } else {
            None
        }
    }

    /// The name of the directory under `target/` that a build at this level writes to.
    pub open spec fn directory_name(self) -> Seq<char> {
        match self {
            OptimisationType::Debug => seq!['d', 'e', 'b', 'u', 'g'],
            OptimisationType::Release => seq!['r', 'e', 'l', 'e', 'a', 's', 'e'],
        }
    }

    /// The directory under `target/` that a build at this level writes to.
    pub fn directory(&self) -> (r: String)
        ensures
            r@ == self.directory_name(),
    {
        match self {
            OptimisationType::Debug => {
                proof {
                    reveal_strlit("debug");
                }
                assert("debug"@ =~= seq!['d', 'e', 'b', 'u', 'g']);
                "debug".to_owned()
            },
            OptimisationType::Release => {
                proof {
                    reveal_strlit("release");
                }
                assert("release"@ =~= seq!['r', 'e', 'l', 'e', 'a', 's', 'e']);
                "release".to_owned()
            },
        }
    }
}

impl TryFrom<&str> for OptimisationType {
    type Error = ();

    fn try_from(value: &str) -> (r: Result<Self, ()>) {
        match OptimisationType::from_chars(&chars_of(value)) {
            Some(level) => Ok(level),
            None => Err(()),
        }
    }
}

impl TryFromSpecImpl<&str> for OptimisationType {
    open spec fn obeys_try_from_spec() -> bool {
        true
    }

    open spec fn try_from_spec(value: &str) -> Result<Self, ()> {
        match optimisation_of(value@) {
            Some(level) => Ok(level),
            None => Err(()),
        }
    }
}

/// One package that the source file asks for.
#[derive(Debug, PartialEq, Eq)]
pub struct Dependency {
    pub name: String,
    pub version: CrateVersion,
    pub features: Vec<Feature>,
}

/// The mathematical value of a [`Dependency`].
pub struct DependencyView {
    pub name: Seq<char>,
    pub version: CrateVersionView,
    pub features: Seq<FeatureView>,
}

impl View for Dependency {
    type V = DependencyView;

    open spec fn view(&self) -> DependencyView {
        DependencyView {
            name: self.name@,
            version: self.version@,
            features: views(self.features@),
        }
    }
}

impl Clone for Dependency {
    fn clone(&self) -> (r: Self)
        ensures
            r@ == self@,
    {
        let mut features: Vec<Feature> = Vec::new();
        let mut i: usize = 0;
        while i < self.features.len()
            invariant
                i <= self.features.len(),
                views(features@) == views(self.features@.take(i as int)),
            decreases self.features.len() - i,
        {
            let feature = self.features[i].clone();
            proof {
                views_push(features@, feature);
                views_push(self.features@.take(i as int), self.features@[i as int]);
                assert(self.features@.take(i + 1) == self.features@.take(i as int).push(
                    self.features@[i as int],
                ));
            }
            features.push(feature);
            i += 1;
        }
        assert(self.features@.take(i as int) == self.features@);
        Dependency { name: self.name.clone(), version: self.version.clone(), features }
    }
}

/// One instruction to the build, as a line of the source file gives it.
#[derive(Debug, PartialEq, Eq)]
pub enum Directive {
    /// Packages to depend on, in the order written.
    Dependency(Vec<Dependency>),
    /// The toolchain channel to build with.
    Toolchain(String),
    /// The toolchain channel and the target to build for.
    ToolchainWithTarget(String, String),
    /// A directive that holds only under the named condition.
    When(String, Box<Directive>),
    Edition(RustEdition),
    Optimise(OptimisationType),
}

/// The mathematical value of a [`Directive`].
pub enum DirectiveView {
    Dependency(Seq<DependencyView>),
    Toolchain(Seq<char>),
    ToolchainWithTarget(Seq<char>, Seq<char>),
    When(Seq<char>, Box<DirectiveView>),
    Edition(RustEdition),
    Optimise(OptimisationType),
}

/// The mathematical value of a directive.
pub open spec fn directive_view(directive: Directive) -> DirectiveView
    decreases directive,
{
    match directive {
        Directive::Dependency(deps) => DirectiveView::Dependency(
            views(deps@),
        ),
        Directive::Toolchain(channel) => DirectiveView::Toolchain(channel@),
        Directive::ToolchainWithTarget(channel, target) => DirectiveView::ToolchainWithTarget(
            channel@,
            target@,
        ),
        Directive::When(condition, inner) => DirectiveView::When(
            condition@,
            Box::new(directive_view(*inner)),
        ),
        Directive::Edition(edition) => DirectiveView::Edition(edition),
        Directive::Optimise(level) => DirectiveView::Optimise(level),
    }
}

impl View for Directive {
    type V = DirectiveView;

    open spec fn view(&self) -> DirectiveView {
        directive_view(*self)
    }
}

} // verus!
