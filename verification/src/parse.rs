//! The grammar of directive lines, and the parser that reads them.
//!
//! ```text
//! directive  := use | edition | toolchain | optimise
//! use        := "use" crate-spec ("," crate-spec)*
//! crate-spec := name version ("with" "(" feature (space+ feature)* ")")?
//! version    := "latest" | semantic-version
//! feature    := "!"? name
//! edition    := "edition" name                        one of 2015, 2018, 2021
//! toolchain  := "toolchain" loose-name ("targeting" loose-name)?
//! optimise   := ("optimise" | "optimize") name        one of debug, release, nyoom
//! ```
//!
//! Choices are tried in the order written and repetitions take as much as they can. Whitespace
//! may stand between any two tokens. What is begun has to be completed: a comma, `with` and
//! `targeting` each ask for what the grammar puts behind them. The functions `*_at` below say, production by production,
//! what stands at a place of a line and where it ends; [`parse_line`] puts them together, and
//! [`directive`] computes it.

use vstd::prelude::*;
use crate::crates::{
    semver_parse, CrateVersion, CrateVersionView, Feature, FeatureView, Version, VersionView,
};
use crate::directives::{
    edition_of, optimisation_of, Dependency, DependencyView, Directive, DirectiveView,
    OptimisationType, RustEdition,
};
use crate::model::{result_view, views, views_push};
use crate::text::{chars_of, is_space, is_whitespace, same_chars, slice, string_of};

verus! {

/// The classes of characters that the grammar tells apart.
#[derive(Clone, Copy, Debug, PartialEq, Eq, Structural)]
pub enum Class {
    /// Whitespace.
    Space,
    /// What a keyword is made of: ASCII letters, digits and `_`.
    Word,
    /// What a name is made of: ASCII letters, digits, `_` and `-`.
    Name,
    /// What a toolchain name or a version literal is made of: the characters of a name, `.` and
    /// `+`.
    Loose,
}

/// Whether `c` is an ASCII letter.
pub open spec fn is_letter(c: char) -> bool {
    ('a' <= c && c <= 'z') || ('A' <= c && c <= 'Z')
}

/// Whether `c` is an ASCII digit.
pub open spec fn is_digit(c: char) -> bool {
    '0' <= c && c <= '9'
}

/// Whether `c` belongs to `class`.
pub open spec fn in_class(c: char, class: Class) -> bool {
    match class {
        Class::Space => is_whitespace(c),
        Class::Word => is_letter(c) || is_digit(c) || c == '_',
        Class::Name => is_letter(c) || is_digit(c) || c == '_' || c == '-',
        Class::Loose => is_letter(c) || is_digit(c) || c == '_' || c == '-' || c == '.' || c
            == '+',
    }
}

/// Where the longest run of characters of `class` that starts at `from` ends. It is `from`
/// itself where no such character stands there.
pub open spec fn run_end(s: Seq<char>, from: int, class: Class) -> int
    decreases s.len() - from,
{
    if 0 <= from < s.len() && in_class(s[from], class) {
        run_end(s, from + 1, class)
    } else {
        from
    }
}

/// A run ends inside the line, behind characters of its class and before one that is not.
pub proof fn run_end_is_longest(s: Seq<char>, from: int, class: Class)
    requires
        0 <= from <= s.len(),
    ensures
        from <= run_end(s, from, class) <= s.len(),
        forall|i: int| from <= i < run_end(s, from, class) ==> in_class(#[trigger] s[i], class),
        run_end(s, from, class) < s.len() ==> !in_class(s[run_end(s, from, class)], class),
    decreases s.len() - from,
{
    if from < s.len() && in_class(s[from], class) {
        run_end_is_longest(s, from + 1, class);
    }
}

/// The converse: a run ends at `to` if characters of its class stand from `from` up to `to`
/// and none stands at `to`. With this the end of a run in a given line can be told.
pub proof fn run_end_is(s: Seq<char>, from: int, to: int, class: Class)
    requires
        0 <= from <= to <= s.len(),
        forall|i: int| from <= i < to ==> in_class(#[trigger] s[i], class),
        to < s.len() ==> !in_class(s[to], class),
    ensures
        run_end(s, from, class) == to,
    decreases to - from,
{
    if from < to {
        run_end_is(s, from + 1, to, class);
    }
}

fn is_letter_char(c: char) -> (r: bool)
    ensures
        r == is_letter(c),
{
    ('a' <= c && c <= 'z') || ('A' <= c && c <= 'Z')
}

fn is_digit_char(c: char) -> (r: bool)
    ensures
        r == is_digit(c),
{
    '0' <= c && c <= '9'
}

fn has_class(c: char, class: Class) -> (r: bool)
    ensures
        r == in_class(c, class),
{
    match class {
        Class::Space => is_space(c),
        Class::Word => is_letter_char(c) || is_digit_char(c) || c == '_',
        Class::Name => is_letter_char(c) || is_digit_char(c) || c == '_' || c == '-',
        Class::Loose => is_letter_char(c) || is_digit_char(c) || c == '_' || c == '-' || c == '.'
            || c == '+',
    }
}

/// Reads the longest run of characters of `class` that starts at `from`.
fn scan(line: &Vec<char>, from: usize, class: Class) -> (end: usize)
    requires
        from <= line.len(),
    ensures
        end == run_end(line@, from as int, class),
        from <= end <= line.len(),
{
    let mut end: usize = from;
    while end < line.len() && has_class(line[end], class)
        invariant
            from <= end <= line.len(),
            run_end(line@, from as int, class) == run_end(line@, end as int, class),
        decreases line.len() - end,
    {
        end += 1;
    }
    end
}

/// The fixed words of the grammar.
#[derive(Clone, Copy, Debug, PartialEq, Eq, Structural)]
pub enum Keyword {
    Use,
    Edition,
    Toolchain,
    Optimise,
    Optimize,
    Latest,
    With,
    Targeting,
}

impl Keyword {
    /// How the keyword is spelled.
    pub open spec fn text(self) -> Seq<char> {
        match self {
            Keyword::Use => seq!['u', 's', 'e'],
            Keyword::Edition => seq!['e', 'd', 'i', 't', 'i', 'o', 'n'],
            Keyword::Toolchain => seq!['t', 'o', 'o', 'l', 'c', 'h', 'a', 'i', 'n'],
            Keyword::Optimise => seq!['o', 'p', 't', 'i', 'm', 'i', 's', 'e'],
            Keyword::Optimize => seq!['o', 'p', 't', 'i', 'm', 'i', 'z', 'e'],
            Keyword::Latest => seq!['l', 'a', 't', 'e', 's', 't'],
            Keyword::With => seq!['w', 'i', 't', 'h'],
            Keyword::Targeting => seq!['t', 'a', 'r', 'g', 'e', 't', 'i', 'n', 'g'],
        }
    }

    /// The characters of the keyword.
    pub fn chars(self) -> (r: Vec<char>)
        ensures
            r@ == self.text(),
    {
        match self {
            Keyword::Use => vec!['u', 's', 'e'],
            Keyword::Edition => vec!['e', 'd', 'i', 't', 'i', 'o', 'n'],
            Keyword::Toolchain => vec!['t', 'o', 'o', 'l', 'c', 'h', 'a', 'i', 'n'],
            Keyword::Optimise => vec!['o', 'p', 't', 'i', 'm', 'i', 's', 'e'],
            Keyword::Optimize => vec!['o', 'p', 't', 'i', 'm', 'i', 'z', 'e'],
            Keyword::Latest => vec!['l', 'a', 't', 'e', 's', 't'],
            Keyword::With => vec!['w', 'i', 't', 'h'],
            Keyword::Targeting => vec!['t', 'a', 'r', 'g', 'e', 't', 'i', 'n', 'g'],
        }
    }
}

/// Where the word that starts at `from` ends. A word is a letter or `_`, followed by letters,
/// digits and `_`, as many as there are. Where no word starts at `from`, it is `from` itself.
pub open spec fn word_end(s: Seq<char>, from: int) -> int {
    if 0 <= from < s.len() && (is_letter(s[from]) || s[from] == '_') {
        run_end(s, from + 1, Class::Word)
    } else {
        from
    }
}

/// Whether the word that starts at `from` is `keyword`: a longer word that begins with it is
/// not.
pub open spec fn keyword_at(s: Seq<char>, from: int, keyword: Keyword) -> bool {
    0 <= from <= word_end(s, from) <= s.len() && s.subrange(from, word_end(s, from))
        == keyword.text()
}

fn read_word(line: &Vec<char>, from: usize) -> (end: usize)
    requires
        from <= line.len(),
    ensures
        end == word_end(line@, from as int),
        from <= end <= line.len(),
{
    if from < line.len() && (is_letter_char(line[from]) || line[from] == '_') {
        scan(line, from + 1, Class::Word)
    } else {
        from
    }
}

fn has_keyword(line: &Vec<char>, from: usize, keyword: Keyword) -> (r: bool)
    requires
        from <= line.len(),
    ensures
        r == keyword_at(line@, from as int, keyword),
{
    let end = read_word(line, from);
    same_chars(&slice(line, from, end), &keyword.chars())
}

/// What the parser would have taken where it stopped.
#[derive(Clone, Copy, Debug, PartialEq, Eq, Structural)]
pub enum Expected {
    Keyword(Keyword),
    /// A name: one or more ASCII letters, digits, `_` or `-`.
    Name,
    /// A toolchain name: a name that may also hold `.` and `+`.
    LooseName,
    /// A semantic version.
    Version,
    /// A feature: a name, or `!` and a name.
    Feature,
    /// The `(` that opens a feature list.
    Open,
    /// The `)` that closes a feature list.
    Close,
}

/// Why a value that the grammar admits is refused.
#[derive(Debug, PartialEq, Eq)]
pub enum Problem {
    /// The text is no semantic version; the message says why.
    SemVer(String),
    /// The name is none of the supported editions.
    Edition,
    /// The name is none of the spellings of an optimisation level.
    Optimisation,
}

/// The mathematical value of a [`Problem`].
pub enum ProblemView {
    SemVer(Seq<char>),
    Edition,
    Optimisation,
}

impl View for Problem {
    type V = ProblemView;

    open spec fn view(&self) -> ProblemView {
        match self {
            Problem::SemVer(message) => ProblemView::SemVer(message@),
            Problem::Edition => ProblemView::Edition,
            Problem::Optimisation => ProblemView::Optimisation,
        }
    }
}

/// Why a line is no directive. `start` and `end` bound the offending text, counted in
/// characters from the start of the line.
#[derive(Debug, PartialEq, Eq)]
pub enum ParseError {
    /// The line does not follow the grammar: at `start` the parser would have taken one of
    /// `expected`.
    Malformed { start: usize, end: usize, expected: Vec<Expected> },
    /// The line follows the grammar, but the value from `start` to `end` is refused.
    Invalid { start: usize, end: usize, problem: Problem },
}

/// The mathematical value of a [`ParseError`].
pub enum ParseErrorView {
    Malformed { start: int, end: int, expected: Seq<Expected> },
    Invalid { start: int, end: int, problem: ProblemView },
}

impl View for ParseError {
    type V = ParseErrorView;

    open spec fn view(&self) -> ParseErrorView {
        match self {
            ParseError::Malformed { start, end, expected } => ParseErrorView::Malformed {
                start: *start as int,
                end: *end as int,
                expected: expected@,
            },
            ParseError::Invalid { start, end, problem } => ParseErrorView::Invalid {
                start: *start as int,
                end: *end as int,
                problem: problem@,
            },
        }
    }
}

/// The error for a line that lacks, at `at`, all of `expected`. The offending text is the
/// character at `at`, or nothing at the end of the line.
pub open spec fn missing(s: Seq<char>, at: int, expected: Seq<Expected>) -> ParseErrorView {
    ParseErrorView::Malformed { start: at, end: if at < s.len() { at + 1 } else { at }, expected }
}

fn only(expected: Expected) -> (r: Vec<Expected>)
    ensures
        r@ == seq![expected],
{
    let r = vec![expected];
    assert(r@ =~= seq![expected]);
    r
}

fn report_missing(line: &Vec<char>, at: usize, expected: Vec<Expected>) -> (r: ParseError)
    requires
        at <= line.len(),
    ensures
        r@ == missing(line@, at as int, expected@),
{
    let end = if at < line.len() { at + 1 } else { at };
    ParseError::Malformed { start: at, end, expected }
}

/// What becomes of a version literal that stands from `start` to `end`, once `semver` has read
/// it: the exact version, or an error that carries the reason.
pub open spec fn exact_version_of(
    outcome: Result<VersionView, Seq<char>>,
    start: int,
    end: int,
) -> Result<CrateVersionView, ParseErrorView> {
    match outcome {
        Ok(version) => Ok(CrateVersionView::Specific(version)),
        Err(message) => Err(
            ParseErrorView::Invalid { start, end, problem: ProblemView::SemVer(message) },
        ),
    }
}

/// The version-spec that starts at `at`, and where it ends: the word `latest`, or else the
/// longest run of loose characters, read as a semantic version.
pub open spec fn version_at(s: Seq<char>, at: int) -> Result<(CrateVersionView, int), ParseErrorView> {
    if keyword_at(s, at, Keyword::Latest) {
        Ok((CrateVersionView::Latest, word_end(s, at)))
    } else {
        let end = run_end(s, at, Class::Loose);
        if end == at {
            Err(missing(s, at, seq![Expected::Keyword(Keyword::Latest), Expected::Version]))
        } else {
            match exact_version_of(semver_parse(s.subrange(at, end)), at, end) {
                Ok(version) => Ok((version, end)),
                Err(e) => Err(e),
            }
        }
    }
}

/// A word ends inside the line, not before where it starts.
pub proof fn word_ends(s: Seq<char>, from: int)
    requires
        0 <= from <= s.len(),
    ensures
        from <= word_end(s, from) <= s.len(),
{
    if from < s.len() {
        run_end_is_longest(s, from + 1, Class::Word);
    }
}

/// A version-spec ends inside the line, not before where it starts.
pub proof fn version_ends(s: Seq<char>, at: int)
    requires
        0 <= at <= s.len(),
        version_at(s, at) is Ok,
    ensures
        at <= version_at(s, at)->Ok_0.1 <= s.len(),
{
    word_ends(s, at);
    run_end_is_longest(s, at, Class::Loose);
}

/// The feature that starts at `at`, and where it ends: a name, switched off by a `!` directly
/// before it.
pub open spec fn feature_at(s: Seq<char>, at: int) -> Option<(FeatureView, int)> {
    if 0 <= at < s.len() && s[at] == '!' {
        let end = run_end(s, at + 1, Class::Name);
        if end > at + 1 {
            Some((FeatureView::Disable(s.subrange(at + 1, end)), end))
        } else {
            None
        }
    } else {
        let end = run_end(s, at, Class::Name);
        if end > at {
            Some((FeatureView::Enable(s.subrange(at, end)), end))
        } else {
            None
        }
    }
}

/// The features that follow the one that ends at `at`, each after at least one whitespace
/// character, and where the last of them ends.
pub open spec fn more_features(s: Seq<char>, at: int) -> (Seq<FeatureView>, int)
    decreases s.len() - at,
    via more_features_ends
{
    let next = run_end(s, at, Class::Space);
    if next > at {
        match feature_at(s, next) {
            Some((feature, end)) => {
                let (rest, stop) = more_features(s, end);
                (seq![feature] + rest, stop)
            },
            None => (Seq::empty(), at),
        }
    } else {
        (Seq::empty(), at)
    }
}

#[via_fn]
proof fn more_features_ends(s: Seq<char>, at: int) {
    if 0 <= at <= s.len() {
        run_end_is_longest(s, at, Class::Space);
        let next = run_end(s, at, Class::Space);
        if 0 <= next < s.len() && s[next] == '!' {
            run_end_is_longest(s, next + 1, Class::Name);
        } else {
            run_end_is_longest(s, next, Class::Name);
        }
    }
}

/// A feature ends inside the line, behind where it starts.
pub proof fn feature_ends(s: Seq<char>, at: int)
    requires
        0 <= at <= s.len(),
        feature_at(s, at) is Some,
    ensures
        at < feature_at(s, at).unwrap().1 <= s.len(),
{
    if at < s.len() && s[at] == '!' {
        run_end_is_longest(s, at + 1, Class::Name);
    } else {
        run_end_is_longest(s, at, Class::Name);
    }
}

/// A run of further features ends inside the line, not before where it starts.
pub proof fn more_features_end(s: Seq<char>, at: int)
    requires
        0 <= at <= s.len(),
    ensures
        at <= more_features(s, at).1 <= s.len(),
    decreases s.len() - at,
{
    run_end_is_longest(s, at, Class::Space);
    let next = run_end(s, at, Class::Space);
    if next > at && feature_at(s, next) is Some {
        feature_ends(s, next);
        more_features_end(s, feature_at(s, next).unwrap().1);
    }
}

/// The feature list that starts at `at`, if `with` stands there, and where it ends: `with`,
/// then one or more features between `(` and `)`. Whitespace may stand around the keyword and
/// the brackets. Once `with` is read the list has to follow: a missing bracket or a missing
/// feature is an error.
pub open spec fn features_at(s: Seq<char>, at: int) -> Result<
    Option<(Seq<FeatureView>, int)>,
    ParseErrorView,
> {
    let open = run_end(s, word_end(s, at), Class::Space);
    let first = run_end(s, open + 1, Class::Space);
    if !keyword_at(s, at, Keyword::With) {
        Ok(None)
    } else if !(0 <= open < s.len() && s[open] == '(') {
        Err(missing(s, open, seq![Expected::Open]))
    } else {
        match feature_at(s, first) {
            Some((feature, end)) => {
                let (rest, stop) = more_features(s, end);
                let close = run_end(s, stop, Class::Space);
                if 0 <= close < s.len() && s[close] == ')' {
                    Ok(Some((seq![feature] + rest, run_end(s, close + 1, Class::Space))))
                } else if close > stop {
                    Err(missing(s, close, seq![Expected::Feature, Expected::Close]))
                } else {
                    Err(missing(s, close, seq![Expected::Close]))
                }
            },
            None => Err(missing(s, first, seq![Expected::Feature])),
        }
    }
}

/// A feature list ends inside the line, behind where it starts.
pub proof fn features_end(s: Seq<char>, at: int)
    requires
        0 <= at <= s.len(),
        features_at(s, at) is Ok,
        features_at(s, at)->Ok_0 is Some,
    ensures
        at < features_at(s, at)->Ok_0.unwrap().1 <= s.len(),
{
    word_ends(s, at);
    run_end_is_longest(s, word_end(s, at), Class::Space);
    let open = run_end(s, word_end(s, at), Class::Space);
    run_end_is_longest(s, open + 1, Class::Space);
    let first = run_end(s, open + 1, Class::Space);
    feature_ends(s, first);
    let end = feature_at(s, first).unwrap().1;
    more_features_end(s, end);
    let stop = more_features(s, end).1;
    run_end_is_longest(s, stop, Class::Space);
    let close = run_end(s, stop, Class::Space);
    run_end_is_longest(s, close + 1, Class::Space);
}

/// The crate-spec that starts at `at`, and where it ends: a name, a version-spec and, if one
/// follows, a feature list. Whitespace may stand before and between them, and is taken behind
/// them.
pub open spec fn crate_spec_at(s: Seq<char>, at: int) -> Result<(DependencyView, int), ParseErrorView> {
    let start = run_end(s, at, Class::Space);
    let end = run_end(s, start, Class::Name);
    if end == start {
        Err(missing(s, start, seq![Expected::Name]))
    } else {
        match version_at(s, run_end(s, end, Class::Space)) {
            Err(e) => Err(e),
            Ok((version, after)) => {
                let rest = run_end(s, after, Class::Space);
                let name = s.subrange(start, end);
                match features_at(s, rest) {
                    Ok(Some((features, stop))) => Ok(
                        (DependencyView { name, version, features }, stop),
                    ),
                    Ok(None) => Ok(
                        (DependencyView { name, version, features: Seq::empty() }, rest),
                    ),
                    Err(e) => Err(e),
                }
            },
        }
    }
}

/// A crate-spec ends inside the line, behind where it starts.
pub proof fn crate_spec_ends(s: Seq<char>, at: int)
    requires
        0 <= at <= s.len(),
        crate_spec_at(s, at) is Ok,
    ensures
        at < crate_spec_at(s, at)->Ok_0.1 <= s.len(),
{
    run_end_is_longest(s, at, Class::Space);
    let start = run_end(s, at, Class::Space);
    run_end_is_longest(s, start, Class::Name);
    let end = run_end(s, start, Class::Name);
    run_end_is_longest(s, end, Class::Space);
    let from = run_end(s, end, Class::Space);
    version_ends(s, from);
    let after = version_at(s, from)->Ok_0.1;
    run_end_is_longest(s, after, Class::Space);
    let rest = run_end(s, after, Class::Space);
    if features_at(s, rest)->Ok_0 is Some {
        features_end(s, rest);
    }
}

/// The dependencies that `front` and what follows it make up, where what follows was read.
pub open spec fn behind(
    front: Seq<DependencyView>,
    rest: Result<Seq<DependencyView>, ParseErrorView>,
) -> Result<Seq<DependencyView>, ParseErrorView> {
    match rest {
        Ok(more) => Ok(front + more),
        Err(e) => Err(e),
    }
}

/// The crate-specs that start at `at`: one, and one more behind each comma. A comma has to be
/// followed by a crate-spec: what is wrong with that one is wrong with the line.
pub open spec fn crate_specs_at(s: Seq<char>, at: int) -> Result<
    Seq<DependencyView>,
    ParseErrorView,
>
    decreases s.len() - at,
    via crate_specs_end
{
    match crate_spec_at(s, at) {
        Ok((dependency, after)) => {
            let comma = run_end(s, after, Class::Space);
            if 0 <= at <= s.len() && 0 <= comma < s.len() && s[comma] == ',' {
                behind(seq![dependency], crate_specs_at(s, run_end(s, comma + 1, Class::Space)))
            } else {
                Ok(seq![dependency])
            }
        },
        Err(e) => Err(e),
    }
}

#[via_fn]
proof fn crate_specs_end(s: Seq<char>, at: int) {
    if 0 <= at <= s.len() && crate_spec_at(s, at) is Ok {
        crate_spec_ends(s, at);
        let after = crate_spec_at(s, at)->Ok_0.1;
        run_end_is_longest(s, after, Class::Space);
        let comma = run_end(s, after, Class::Space);
        if comma < s.len() {
            run_end_is_longest(s, comma + 1, Class::Space);
        }
    }
}

/// What the line says, or why it says nothing. A directive opens the line, and what stands
/// behind a complete directive is not looked at. A directive that is begun has to be
/// completed, though: behind a comma a crate-spec has to follow, behind `with` a feature list,
/// behind `targeting` a target. `use` must be the line's first word; whitespace may stand
/// before the other keywords.
pub open spec fn parse_line(s: Seq<char>) -> Result<DirectiveView, ParseErrorView> {
    let start = run_end(s, 0, Class::Space);
    let from = run_end(s, word_end(s, start), Class::Space);
    if keyword_at(s, 0, Keyword::Use) {
        match crate_specs_at(s, word_end(s, 0)) {
            Ok(dependencies) => Ok(DirectiveView::Dependency(dependencies)),
            Err(e) => Err(e),
        }
    } else if keyword_at(s, start, Keyword::Edition) {
        let to = run_end(s, from, Class::Name);
        if to == from {
            Err(missing(s, from, seq![Expected::Name]))
        } else {
            match edition_of(s.subrange(from, to)) {
                Some(edition) => Ok(DirectiveView::Edition(edition)),
                None => Err(
                    ParseErrorView::Invalid { start: from, end: to, problem: ProblemView::Edition },
                ),
            }
        }
    } else if keyword_at(s, start, Keyword::Toolchain) {
        let to = run_end(s, from, Class::Loose);
        if to == from {
            Err(missing(s, from, seq![Expected::LooseName]))
        } else {
            match target_at(s, run_end(s, to, Class::Space)) {
                Ok(Some(target)) => Ok(
                    DirectiveView::ToolchainWithTarget(s.subrange(from, to), target),
                ),
                Ok(None) => Ok(DirectiveView::Toolchain(s.subrange(from, to))),
                Err(e) => Err(e),
            }
        }
    } else if keyword_at(s, start, Keyword::Optimise) || keyword_at(s, start, Keyword::Optimize) {
        let to = run_end(s, from, Class::Name);
        if to == from {
            Err(missing(s, from, seq![Expected::Name]))
        } else {
            match optimisation_of(s.subrange(from, to)) {
                Some(level) => Ok(DirectiveView::Optimise(level)),
                None => Err(
                    ParseErrorView::Invalid {
                        start: from,
                        end: to,
                        problem: ProblemView::Optimisation,
                    },
                ),
            }
        }
    } else {
        Err(no_keyword(s))
    }
}

/// The target that starts at `at`, if `targeting` stands there: `targeting`, then a toolchain
/// name. Once `targeting` is read the name has to follow.
pub open spec fn target_at(s: Seq<char>, at: int) -> Result<Option<Seq<char>>, ParseErrorView> {
    let from = run_end(s, word_end(s, at), Class::Space);
    let to = run_end(s, from, Class::Loose);
    if !keyword_at(s, at, Keyword::Targeting) {
        Ok(None)
    } else if to > from {
        Ok(Some(s.subrange(from, to)))
    } else {
        Err(missing(s, from, seq![Expected::LooseName]))
    }
}

/// The error for a line that opens with none of the keywords. The offending text is the word
/// that stands behind the leading whitespace or, where none stands there, one character. Every
/// keyword is expected there, but for `use` where whitespace leads: that one was looked for at
/// the very start.
pub open spec fn no_keyword(s: Seq<char>) -> ParseErrorView {
    let start = run_end(s, 0, Class::Space);
    ParseErrorView::Malformed {
        start,
        end: if word_end(s, start) > start {
            word_end(s, start)
        } else if start < s.len() {
            start + 1
        } else {
            start
        },
        expected: if start == 0 {
            seq![
                Expected::Keyword(Keyword::Use),
                Expected::Keyword(Keyword::Edition),
                Expected::Keyword(Keyword::Toolchain),
                Expected::Keyword(Keyword::Optimise),
                Expected::Keyword(Keyword::Optimize),
            ]
        } else {
            seq![
                Expected::Keyword(Keyword::Edition),
                Expected::Keyword(Keyword::Toolchain),
                Expected::Keyword(Keyword::Optimise),
                Expected::Keyword(Keyword::Optimize),
            ]
        },
    }
}

/// Turns what `semver` made of a version literal into the version-spec or the error that the
/// grammar gives for it. `start` and `end` bound the literal.
pub fn exact_version(outcome: Result<Version, String>, start: usize, end: usize) -> (r: Result<
    CrateVersion,
    ParseError,
>)
    ensures
        result_view(r) == exact_version_of(result_view(outcome), start as int, end as int),
{
    match outcome {
        Ok(version) => Ok(CrateVersion::Specific(version)),
        Err(message) => Err(ParseError::Invalid { start, end, problem: Problem::SemVer(message) }),
    }
}

fn read_version(line: &Vec<char>, at: usize) -> (r: Result<(CrateVersion, usize), ParseError>)
    requires
        at <= line.len(),
    ensures
        match r {
            Ok((version, end)) => version_at(line@, at as int) == Ok::<
                (CrateVersionView, int),
                ParseErrorView,
            >((version@, end as int)) && at <= end <= line.len(),
            Err(e) => version_at(line@, at as int) == Err::<
                (CrateVersionView, int),
                ParseErrorView,
            >(e@),
        },
{
    if has_keyword(line, at, Keyword::Latest) {
        return Ok((CrateVersion::Latest, read_word(line, at)));
    }
    let end = scan(line, at, Class::Loose);
    if end == at {
        return Err(
            report_missing(line, at, vec![Expected::Keyword(Keyword::Latest), Expected::Version]),
        );
    }
    let literal = string_of(line, at, end);
    match exact_version(Version::parse(literal.as_str()), at, end) {
        Ok(version) => Ok((version, end)),
        Err(e) => Err(e),
    }
}

fn read_feature(line: &Vec<char>, at: usize) -> (r: Option<(Feature, usize)>)
    requires
        at <= line.len(),
    ensures
        match r {
            Some((feature, end)) => feature_at(line@, at as int) == Some((feature@, end as int))
                && at < end <= line.len(),
            None => feature_at(line@, at as int) is None,
        },
{
    if at < line.len() && line[at] == '!' {
        let end = scan(line, at + 1, Class::Name);
        if end > at + 1 {
            Some((Feature::Disable(string_of(line, at + 1, end)), end))
        } else {
            None
        }
    } else {
        let end = scan(line, at, Class::Name);
        if end > at {
            Some((Feature::Enable(string_of(line, at, end)), end))
        } else {
            None
        }
    }
}

/// Reads the features that follow the one that ends at `at` onto the end of `features`.
fn read_more_features(line: &Vec<char>, at: usize, features: &mut Vec<Feature>) -> (stop: usize)
    requires
        at <= line.len(),
    ensures
        views(final(features)@) == views(old(features)@) + more_features(line@, at as int).0,
        stop == more_features(line@, at as int).1,
        at <= stop <= line.len(),
{
    let mut stop: usize = at;
    loop
        invariant
            at <= stop <= line.len(),
            views(old(features)@) + more_features(line@, at as int).0 == views(features@)
                + more_features(line@, stop as int).0,
            more_features(line@, at as int).1 == more_features(line@, stop as int).1,
        ensures
            views(features@) == views(old(features)@) + more_features(line@, at as int).0,
            stop == more_features(line@, at as int).1,
        decreases line.len() - stop,
    {
        let next = scan(line, stop, Class::Space);
        if next == stop {
            break ;
        }
        match read_feature(line, next) {
            Some((feature, end)) => {
                proof {
                    views_push(features@, feature);
                    let rest = more_features(line@, end as int).0;
                    assert(views(features@) + (seq![feature@] + rest) =~= views(features@).push(
                        feature@,
                    ) + rest);
                }
                features.push(feature);
                stop = end;
            },
            None => {
                break ;
            },
        }
    }
    stop
}

fn read_features(line: &Vec<char>, at: usize) -> (r: Result<
    Option<(Vec<Feature>, usize)>,
    ParseError,
>)
    requires
        at <= line.len(),
    ensures
        match r {
            Ok(Some((features, end))) => features_at(line@, at as int) == Ok::<
                Option<(Seq<FeatureView>, int)>,
                ParseErrorView,
            >(Some((views(features@), end as int))) && at < end <= line.len(),
            Ok(None) => features_at(line@, at as int) == Ok::<
                Option<(Seq<FeatureView>, int)>,
                ParseErrorView,
            >(None),
            Err(e) => features_at(line@, at as int) == Err::<
                Option<(Seq<FeatureView>, int)>,
                ParseErrorView,
            >(e@),
        },
{
    if !has_keyword(line, at, Keyword::With) {
        return Ok(None);
    }
    let open = scan(line, read_word(line, at), Class::Space);
    if !(open < line.len() && line[open] == '(') {
        return Err(report_missing(line, open, only(Expected::Open)));
    }
    let first = scan(line, open + 1, Class::Space);
    match read_feature(line, first) {
        None => Err(report_missing(line, first, only(Expected::Feature))),
        Some((feature, end)) => {
            let mut features: Vec<Feature> = Vec::new();
            proof {
                views_push(features@, feature);
            }
            features.push(feature);
            let stop = read_more_features(line, end, &mut features);
            let close = scan(line, stop, Class::Space);
            if close < line.len() && line[close] == ')' {
                proof {
                    assert(views(features@) =~= seq![feature@] + more_features(
                        line@,
                        end as int,
                    ).0);
                }
                Ok(Some((features, scan(line, close + 1, Class::Space))))
            } else if close > stop {
                let expected = vec![Expected::Feature, Expected::Close];
                assert(expected@ =~= seq![Expected::Feature, Expected::Close]);
                Err(report_missing(line, close, expected))
            } else {
                Err(report_missing(line, close, only(Expected::Close)))
            }
        },
    }
}

fn read_crate_spec(line: &Vec<char>, at: usize) -> (r: Result<(Dependency, usize), ParseError>)
    requires
        at <= line.len(),
    ensures
        match r {
            Ok((dependency, end)) => crate_spec_at(line@, at as int) == Ok::<
                (DependencyView, int),
                ParseErrorView,
            >((dependency@, end as int)) && at < end <= line.len(),
            Err(e) => crate_spec_at(line@, at as int) == Err::<
                (DependencyView, int),
                ParseErrorView,
            >(e@),
        },
{
    let start = scan(line, at, Class::Space);
    let end = scan(line, start, Class::Name);
    if end == start {
        return Err(report_missing(line, start, only(Expected::Name)));
    }
    let (version, after) = match read_version(line, scan(line, end, Class::Space)) {
        Ok(found) => found,
        Err(e) => {
            return Err(e);
        },
    };
    let rest = scan(line, after, Class::Space);
    let name = string_of(line, start, end);
    match read_features(line, rest) {
        Ok(Some((features, stop))) => Ok((Dependency { name, version, features }, stop)),
        Ok(None) => {
            let features: Vec<Feature> = Vec::new();
            assert(views(features@) =~= Seq::<FeatureView>::empty());
            Ok((Dependency { name, version, features }, rest))
        },
        Err(e) => Err(e),
    }
}

/// Reads the crate-specs that start at `at`.
fn read_crate_specs(line: &Vec<char>, at: usize) -> (r: Result<Vec<Dependency>, ParseError>)
    requires
        at <= line.len(),
    ensures
        match r {
            Ok(dependencies) => crate_specs_at(line@, at as int) == Ok::<
                Seq<DependencyView>,
                ParseErrorView,
            >(views(dependencies@)),
            Err(e) => crate_specs_at(line@, at as int) == Err::<
                Seq<DependencyView>,
                ParseErrorView,
            >(e@),
        },
{
    let mut dependencies: Vec<Dependency> = Vec::new();
    let mut from: usize = at;
    assert(behind(views(dependencies@), crate_specs_at(line@, at as int)) == crate_specs_at(
        line@,
        at as int,
    )) by {
        if crate_specs_at(line@, at as int) is Ok {
            assert(views(dependencies@) + crate_specs_at(line@, at as int)->Ok_0
                =~= crate_specs_at(line@, at as int)->Ok_0);
        }
    }
    loop
        invariant
            at <= from <= line.len(),
            crate_specs_at(line@, at as int) == behind(
                views(dependencies@),
                crate_specs_at(line@, from as int),
            ),
        decreases line.len() - from,
    {
        let (dependency, after) = match read_crate_spec(line, from) {
            Ok(found) => found,
            Err(e) => {
                return Err(e);
            },
        };
        let ghost before = views(dependencies@);
        proof {
            views_push(dependencies@, dependency);
        }
        dependencies.push(dependency);
        let comma = scan(line, after, Class::Space);
        if !(comma < line.len() && line[comma] == ',') {
            assert(before + seq![dependency@] =~= before.push(dependency@));
            return Ok(dependencies);
        }
        let next = scan(line, comma + 1, Class::Space);
        proof {
            let rest = crate_specs_at(line@, next as int);
            if rest is Ok {
                assert(before + (seq![dependency@] + rest->Ok_0) =~= before.push(dependency@)
                    + rest->Ok_0);
            }
        }
        from = next;
    }
}

fn read_target(line: &Vec<char>, at: usize) -> (r: Result<Option<String>, ParseError>)
    requires
        at <= line.len(),
    ensures
        match r {
            Ok(Some(target)) => target_at(line@, at as int) == Ok::<
                Option<Seq<char>>,
                ParseErrorView,
            >(Some(target@)),
            Ok(None) => target_at(line@, at as int) == Ok::<Option<Seq<char>>, ParseErrorView>(
                None,
            ),
            Err(e) => target_at(line@, at as int) == Err::<Option<Seq<char>>, ParseErrorView>(
                e@,
            ),
        },
{
    if !has_keyword(line, at, Keyword::Targeting) {
        return Ok(None);
    }
    let from = scan(line, read_word(line, at), Class::Space);
    let to = scan(line, from, Class::Loose);
    if to > from {
        Ok(Some(string_of(line, from, to)))
    } else {
        Err(report_missing(line, from, only(Expected::LooseName)))
    }
}

fn report_no_keyword(line: &Vec<char>) -> (r: ParseError)
    ensures
        r@ == no_keyword(line@),
{
    let start = scan(line, 0, Class::Space);
    let word = read_word(line, start);
    let end = if word > start {
        word
    } else if start < line.len() {
        start + 1
    } else {
        start
    };
    let expected = if start == 0 {
        vec![
            Expected::Keyword(Keyword::Use),
            Expected::Keyword(Keyword::Edition),
            Expected::Keyword(Keyword::Toolchain),
            Expected::Keyword(Keyword::Optimise),
            Expected::Keyword(Keyword::Optimize),
        ]
    } else {
        vec![
            Expected::Keyword(Keyword::Edition),
            Expected::Keyword(Keyword::Toolchain),
            Expected::Keyword(Keyword::Optimise),
            Expected::Keyword(Keyword::Optimize),
        ]
    };
    ParseError::Malformed { start, end, expected }
}

/// Reads one directive line, the marker already taken off: see [`parse_line`] for what each
/// line gives.
pub fn directive(line: &str) -> (r: Result<Directive, ParseError>)
    ensures
        result_view(r) == parse_line(line@),
{
    let chars = chars_of(line);
    let line = &chars;
    if has_keyword(line, 0, Keyword::Use) {
        return match read_crate_specs(line, read_word(line, 0)) {
            Ok(dependencies) => Ok(Directive::Dependency(dependencies)),
            Err(e) => Err(e),
        };
    }
    let start = scan(line, 0, Class::Space);
    let from = scan(line, read_word(line, start), Class::Space);
    if has_keyword(line, start, Keyword::Edition) {
        let to = scan(line, from, Class::Name);
        if to == from {
            return Err(report_missing(line, from, only(Expected::Name)));
        }
        match RustEdition::from_chars(&slice(line, from, to)) {
            Some(edition) => Ok(Directive::Edition(edition)),
            None => Err(ParseError::Invalid { start: from, end: to, problem: Problem::Edition }),
        }
    } else if has_keyword(line, start, Keyword::Toolchain) {
        let to = scan(line, from, Class::Loose);
        if to == from {
            return Err(report_missing(line, from, only(Expected::LooseName)));
        }
        let channel = string_of(line, from, to);
        match read_target(line, scan(line, to, Class::Space)) {
            Ok(Some(target)) => Ok(Directive::ToolchainWithTarget(channel, target)),
            Ok(None) => Ok(Directive::Toolchain(channel)),
            Err(e) => Err(e),
        }
    } else if has_keyword(line, start, Keyword::Optimise) || has_keyword(
        line,
        start,
        Keyword::Optimize,
    ) {
        let to = scan(line, from, Class::Name);
        if to == from {
            return Err(report_missing(line, from, only(Expected::Name)));
        }
        match OptimisationType::from_chars(&slice(line, from, to)) {
            Some(level) => Ok(Directive::Optimise(level)),
            None => Err(
                ParseError::Invalid { start: from, end: to, problem: Problem::Optimisation },
            ),
        }
    } else {
        Err(report_no_keyword(line))
    }
}

/// A line that is no directive: its place among the lines read, and why it is none.
#[derive(Debug, PartialEq, Eq)]
pub struct LineError {
    pub line: usize,
    pub error: ParseError,
}

impl View for LineError {
    type V = (int, ParseErrorView);

    open spec fn view(&self) -> (int, ParseErrorView) {
        (self.line as int, self.error@)
    }
}

/// The directives of the lines that are directives, in the order of the lines.
pub open spec fn directives_of(lines: Seq<Seq<char>>) -> Seq<DirectiveView>
    decreases lines.len(),
{
    if lines.len() == 0 {
        Seq::empty()
    } else {
        match parse_line(lines.last()) {
            Ok(directive) => directives_of(lines.drop_last()).push(directive),
            Err(_) => directives_of(lines.drop_last()),
        }
    }
}

/// The lines that are no directives, each with its place, in the order of the lines.
pub open spec fn failures_of(lines: Seq<Seq<char>>) -> Seq<(int, ParseErrorView)>
    decreases lines.len(),
{
    if lines.len() == 0 {
        Seq::empty()
    } else {
        match parse_line(lines.last()) {
            Ok(_) => failures_of(lines.drop_last()),
            Err(error) => failures_of(lines.drop_last()).push((lines.len() - 1, error)),
        }
    }
}

/// Every line is a directive or a failure: the two lists share the lines between them.
pub proof fn lines_are_accounted_for(lines: Seq<Seq<char>>)
    ensures
        directives_of(lines).len() + failures_of(lines).len() == lines.len(),
    decreases lines.len(),
{
    if lines.len() > 0 {
        lines_are_accounted_for(lines.drop_last());
    }
}

/// Reads all directive lines of a file. One line that is no directive fails the file, but
/// not before every line has been tried: all the lines that failed are reported together.
pub fn parse_lines(lines: &Vec<String>) -> (r: Result<Vec<Directive>, Vec<LineError>>)
    ensures
        match r {
            Ok(directives) => failures_of(views(lines@)).len() == 0 && views(directives@)
                == directives_of(views(lines@)),
            Err(failures) => failures@.len() > 0 && views(failures@) == failures_of(
                views(lines@),
            ),
        },
{
    let mut directives: Vec<Directive> = Vec::new();
    let mut failures: Vec<LineError> = Vec::new();
    let ghost all = views(lines@);
    assert(views(directives@) =~= Seq::<DirectiveView>::empty());
    assert(views(failures@) =~= Seq::<(int, ParseErrorView)>::empty());
    assert(all.take(0) =~= Seq::<Seq<char>>::empty());
    let mut i: usize = 0;
    while i < lines.len()
        invariant
            i <= lines.len(),
            all == views(lines@),
            views(directives@) == directives_of(all.take(i as int)),
            views(failures@) == failures_of(all.take(i as int)),
        decreases lines.len() - i,
    {
        proof {
            assert(all.take(i + 1).drop_last() =~= all.take(i as int));
            assert(all.take(i + 1).last() == lines@[i as int]@);
        }
        match directive(lines[i].as_str()) {
            Ok(found) => {
                proof {
                    views_push(directives@, found);
                }
                directives.push(found);
            },
            Err(error) => {
                let failure = LineError { line: i, error };
                proof {
                    views_push(failures@, failure);
                }
                failures.push(failure);
            },
        }
        i += 1;
    }
    assert(all.take(i as int) =~= all);
    if failures.len() == 0 {
        Ok(directives)
    } else {
        Err(failures)
    }
}

} // verus!
