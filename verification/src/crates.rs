//! Versions of packages, and how to reach the registry that publishes them.

use vstd::prelude::*;
use vstd::string::StringExecFns;
use crate::text::{chars_of, string_from};

verus! {

/// A semantic version, held as the five parts that make it up.
#[derive(Debug, PartialEq, Eq)]
pub struct Version {
    pub major: u64,
    pub minor: u64,
    pub patch: u64,
    /// Pre-release identifiers, without the leading `-`; empty if there are none.
    pub pre: String,
    /// Build metadata, without the leading `+`; empty if there is none.
    pub build: String,
}

/// The mathematical value of a [`Version`].
pub struct VersionView {
    pub major: u64,
    pub minor: u64,
    pub patch: u64,
    pub pre: Seq<char>,
    pub build: Seq<char>,
}

impl View for Version {
    type V = VersionView;

    open spec fn view(&self) -> VersionView {
        VersionView {
            major: self.major,
            minor: self.minor,
            patch: self.patch,
            pre: self.pre@,
            build: self.build@,
        }
    }
}

impl Clone for Version {
    fn clone(&self) -> (r: Self)
        ensures
            r@ == self@,
    {
        Version {
            major: self.major,
            minor: self.minor,
            patch: self.patch,
            pre: self.pre.clone(),
            build: self.build.clone(),
        }
    }
}

/// What `semver::Version::parse` makes of a text: the version that the text spells, or the
/// reason why it spells none.
pub uninterp spec fn semver_parse(text: Seq<char>) -> Result<VersionView, Seq<char>>;

/// Calls `semver::Version::parse`. The version comes back part by part, the pre-release and the
/// build metadata as the text that `as_str` gives for them; an error comes back as the message
/// that its `Display` writes. Which of the two it is, and what it holds, is taken on trust as
/// [`semver_parse`] of the text.
#[verifier::external_body]
fn parse_semver(text: &str) -> (r: Result<Version, String>)
    ensures
        match r {
            Ok(version) => semver_parse(text@) == Ok::<VersionView, Seq<char>>(version@),
            Err(message) => semver_parse(text@) == Err::<VersionView, Seq<char>>(message@),
        },
{
    match semver::Version::parse(text) {
        Ok(v) => Ok(
            Version {
                major: v.major,
                minor: v.minor,
                patch: v.patch,
                pre: v.pre.as_str().to_owned(),
                build: v.build.as_str().to_owned(),
            },
        ),
        Err(e) => Err(e.to_string()),
    }
}

impl Version {
    /// Reads a semantic version, as the `semver` crate understands one.
    pub fn parse(text: &str) -> (r: Result<Version, String>)
        ensures
            match r {
                Ok(version) => semver_parse(text@) == Ok::<VersionView, Seq<char>>(version@),
                Err(message) => semver_parse(text@) == Err::<VersionView, Seq<char>>(message@),
            },
    {
        parse_semver(text)
    }
}

/// The decimal digit for a value below ten.
pub open spec fn decimal_digit(value: int) -> char {
    seq!['0', '1', '2', '3', '4', '5', '6', '7', '8', '9'][value]
}

/// A number written in decimal, without leading zeros.
pub open spec fn decimal(n: nat) -> Seq<char>
    decreases n,
{
    if n < 10 {
        seq![decimal_digit(n as int)]
    } else {
        decimal(n / 10).push(decimal_digit((n % 10) as int))
    }
}

/// How a version is written: the three numbers with dots between them, then the pre-release
/// behind a `-` and the build metadata behind a `+`, each only where there is one.
pub open spec fn version_text(version: VersionView) -> Seq<char> {
    decimal(version.major as nat) + seq!['.'] + decimal(version.minor as nat) + seq!['.']
        + decimal(version.patch as nat) + (if version.pre.len() > 0 {
        seq!['-'] + version.pre
    } else {
        Seq::empty()
    }) + (if version.build.len() > 0 {
        seq!['+'] + version.build
    } else {
        Seq::empty()
    })
}

fn digit_char(value: u64) -> (c: char)
    requires
        value < 10,
    ensures
        c == decimal_digit(value as int),
{
    if value == 0 {
        '0'
    } else if value == 1 {
        '1'
    } else if value == 2 {
        '2'
    } else if value == 3 {
        '3'
    } else if value == 4 {
        '4'
    } else if value == 5 {
        '5'
    } else if value == 6 {
        '6'
    } else if value == 7 {
        '7'
    } else if value == 8 {
        '8'
    } else {
        '9'
    }
}

/// Writes `n` in decimal onto the end of `out`.
fn push_decimal(out: &mut Vec<char>, n: u64)
    ensures
        final(out)@ == old(out)@ + decimal(n as nat),
{
    let mut low: Vec<char> = Vec::new();
    let mut rest: u64 = n;
    while rest >= 10
        invariant
            decimal(n as nat) == decimal(rest as nat) + Seq::new(
                low@.len(),
                |i: int| low@[low@.len() - 1 - i],
            ),
        decreases rest,
    {
        let ghost before = low@;
        let ghost digit = decimal_digit((rest % 10) as int);
        low.push(digit_char(rest % 10));
        proof {
            let turned = Seq::new(before.len(), |i: int| before[before.len() - 1 - i]);
            let turned_now = Seq::new(low@.len(), |i: int| low@[low@.len() - 1 - i]);
            assert(turned_now =~= seq![digit] + turned);
            assert(decimal((rest / 10) as nat).push(digit) + turned =~= decimal(
                (rest / 10) as nat,
            ) + turned_now);
        }
        rest = rest / 10;
    }
    let ghost start = out@;
    out.push(digit_char(rest));
    let mut i: usize = low.len();
    while i > 0
        invariant
            i <= low@.len(),
            out@ == start + decimal(rest as nat) + Seq::new(
                (low@.len() - i) as nat,
                |k: int| low@[low@.len() - 1 - k],
            ),
        decreases i,
    {
        let ghost before = out@;
        i -= 1;
        out.push(low[i]);
        assert(out@ =~= start + decimal(rest as nat) + Seq::new(
            (low@.len() - i) as nat,
            |k: int| low@[low@.len() - 1 - k],
        ));
    }
    assert(out@ =~= start + decimal(n as nat));
}

fn push_all(out: &mut Vec<char>, text: &str)
    ensures
        final(out)@ == old(out)@ + text@,
{
    let chars = chars_of(text);
    let ghost start = out@;
    let mut i: usize = 0;
    while i < chars.len()
        invariant
            i <= chars.len(),
            out@ == start + chars@.take(i as int),
        decreases chars.len() - i,
    {
        out.push(chars[i]);
        i += 1;
        assert(out@ =~= start + chars@.take(i as int));
    }
    assert(chars@.take(i as int) =~= chars@);
}

impl Version {
    /// Writes the version out, as a manifest names it.
    pub fn render(&self) -> (r: String)
        ensures
            r@ == version_text(self@),
    {
        let mut out: Vec<char> = Vec::new();
        push_decimal(&mut out, self.major);
        out.push('.');
        push_decimal(&mut out, self.minor);
        out.push('.');
        push_decimal(&mut out, self.patch);
        let ghost numbers = out@;
        assert(numbers =~= decimal(self.major as nat) + seq!['.'] + decimal(self.minor as nat)
            + seq!['.'] + decimal(self.patch as nat));
        if self.pre.as_str().unicode_len() > 0 {
            out.push('-');
            push_all(&mut out, self.pre.as_str());
        }
        let ghost middle = out@;
        assert(middle =~= numbers + (if self.pre@.len() > 0 {
            seq!['-'] + self.pre@
        } else {
            Seq::empty()
        }));
        if self.build.as_str().unicode_len() > 0 {
            out.push('+');
            push_all(&mut out, self.build.as_str());
        }
        assert(out@ =~= middle + (if self.build@.len() > 0 {
            seq!['+'] + self.build@
        } else {
            Seq::empty()
        }));
        string_from(&out)
    }
}

/// Where the registry answers for a package: the address to ask for its newest version.
pub open spec fn registry_address(name: Seq<char>) -> Seq<char> {
    "https://crates.io/api/v1/crates/"@ + name
}

/// The address to ask for the newest published version of the package `name`.
pub fn registry_url(name: &str) -> (r: String)
    ensures
        r@ == registry_address(name@),
{
    String::from_str("https://crates.io/api/v1/crates/").concat(name)
}

/// How this client names itself to the registry, given its own version.
pub open spec fn client_name(version: Seq<char>) -> Seq<char> {
    "foof/"@ + version + " (https://github.com/ry00001/fluoroperoxide)"@
}

/// What to send as `User-Agent` with a request to the registry.
pub fn user_agent(version: &str) -> (r: String)
    ensures
        r@ == client_name(version@),
{
    String::from_str("foof/").concat(version).concat(
        " (https://github.com/ry00001/fluoroperoxide)",
    )
}

/// Which version of a package a dependency asks for.
#[derive(Debug, PartialEq, Eq)]
pub enum CrateVersion {
    /// The newest version that the registry has published.
    Latest,
    /// Exactly this version.
    Specific(Version),
}

/// The mathematical value of a [`CrateVersion`].
pub enum CrateVersionView {
    Latest,
    Specific(VersionView),
}

impl View for CrateVersion {
    type V = CrateVersionView;

    open spec fn view(&self) -> CrateVersionView {
        match self {
            CrateVersion::Latest => CrateVersionView::Latest,
            CrateVersion::Specific(v) => CrateVersionView::Specific(v@),
        }
    }
}

impl Clone for CrateVersion {
    fn clone(&self) -> (r: Self)
        ensures
            r@ == self@,
    {
        match self {
            CrateVersion::Latest => CrateVersion::Latest,
            CrateVersion::Specific(v) => CrateVersion::Specific(v.clone()),
        }
    }
}

/// A feature switch on a dependency.
#[derive(Debug, PartialEq, Eq)]
pub enum Feature {
    Enable(String),
    Disable(String),
}

/// The mathematical value of a [`Feature`].
pub enum FeatureView {
    Enable(Seq<char>),
    Disable(Seq<char>),
}

impl View for Feature {
    type V = FeatureView;

    open spec fn view(&self) -> FeatureView {
        match self {
            Feature::Enable(name) => FeatureView::Enable(name@),
            Feature::Disable(name) => FeatureView::Disable(name@),
        }
    }
}

impl Clone for Feature {
    fn clone(&self) -> (r: Self)
        ensures
            r@ == self@,
    {
        match self {
            Feature::Enable(name) => Feature::Enable(name.clone()),
            Feature::Disable(name) => Feature::Disable(name.clone()),
        }
    }
}

} // verus!
