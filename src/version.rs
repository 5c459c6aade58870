//! Semantic versions of addons, parsed and ordered by the `semver` crate.

use vstd::prelude::*;
use std::cmp::Ordering;

verus! {

/// A semantic version: its three numbers and its pre-release text (empty
/// for a release). Build metadata plays no part in precedence and is not
/// kept.
#[derive(Clone, Debug, PartialEq, Eq)]
pub struct Version {
    pub major: u64,
    pub minor: u64,
    pub patch: u64,
    pub pre: String,
}

/// What `semver::Version::parse` makes of a text, as a library version.
pub uninterp spec fn parsed_version(s: Seq<char>) -> Option<Version>;

/// `(a.major, a.minor, a.patch)` comes before `(b.major, b.minor, b.patch)`.
pub open spec fn triple_less(a: Version, b: Version) -> bool {
    a.major < b.major || (a.major == b.major && (a.minor < b.minor || (a.minor == b.minor
        && a.patch < b.patch)))
}

pub open spec fn same_triple(a: Version, b: Version) -> bool {
    a.major == b.major && a.minor == b.minor && a.patch == b.patch
}

/// Relies on `semver::Version::parse`: `None` where the text is no semantic
/// version, else its numbers and pre-release text.
#[verifier::external_body]
fn semver_parse(s: &str) -> (r: Option<Version>)
    ensures
        r == parsed_version(s@),
{
    match semver::Version::parse(s) {
        Ok(v) => Some(
            Version { major: v.major, minor: v.minor, patch: v.patch, pre: v.pre.as_str().to_string() },
        ),
        Err(_) => None,
    }
}

/// A version as the precedence order reads it: its three numbers and its
/// pre-release text.
pub open spec fn precedence_key(v: Version) -> (u64, u64, u64, Seq<char>) {
    (v.major, v.minor, v.patch, v.pre@)
}

/// What `semver::Version::cmp_precedence` says of two versions given by
/// their three numbers and pre-release texts.
pub uninterp spec fn precedence(a: (u64, u64, u64, Seq<char>), b: (u64, u64, u64, Seq<char>)) -> Ordering;

/// `a` has lower precedence than `b`: by the three numbers where they
/// differ; two releases with equal numbers rank level; otherwise as the
/// version crate orders the pre-release texts.
pub open spec fn version_less(a: Version, b: Version) -> bool {
    if !same_triple(a, b) {
        triple_less(a, b)
    } else if a.pre@.len() == 0 && b.pre@.len() == 0 {
        false
    } else {
        precedence(precedence_key(a), precedence_key(b)) == Ordering::Less
    }
}

/// Relies on `semver::Version::cmp_precedence`, which orders by the three
/// numbers first and puts two releases with equal numbers level; the
/// result depends on the numbers and pre-release texts alone.
#[verifier::external_body]
fn semver_cmp_precedence(a: &Version, b: &Version) -> (r: Ordering)
    ensures
        r == precedence(precedence_key(*a), precedence_key(*b)),
        triple_less(*a, *b) ==> r == Ordering::Less,
        triple_less(*b, *a) ==> r == Ordering::Greater,
        same_triple(*a, *b) && a.pre@.len() == 0 && b.pre@.len() == 0 ==> r == Ordering::Equal,
{
    let pa = semver::Prerelease::new(&a.pre).unwrap_or(semver::Prerelease::EMPTY);
    let pb = semver::Prerelease::new(&b.pre).unwrap_or(semver::Prerelease::EMPTY);
    let va = semver::Version { major: a.major, minor: a.minor, patch: a.patch, pre: pa, build: semver::BuildMetadata::EMPTY };
    let vb = semver::Version { major: b.major, minor: b.minor, patch: b.patch, pre: pb, build: semver::BuildMetadata::EMPTY };
    va.cmp_precedence(&vb)
}

impl Version {
    /// A copy of the version.
    pub fn copy(&self) -> (r: Version)
        ensures
            r == *self,
    {
        Version { major: self.major, minor: self.minor, patch: self.patch, pre: self.pre.clone() }
    }

    /// The release `major.minor.patch`.
    pub fn new(major: u64, minor: u64, patch: u64) -> (r: Version)
        ensures
            r.major == major,
            r.minor == minor,
            r.patch == patch,
            r.pre@.len() == 0,
    {
        Version { major, minor, patch, pre: String::new() }
    }

    /// Parses a semantic version; `None` where `s` is not one.
    pub fn parse(s: &str) -> (r: Option<Version>)
        ensures
            r == parsed_version(s@),
    {
        semver_parse(s)
    }

    /// Whether `self` has lower precedence than `other`.
    pub fn precedes(&self, other: &Version) -> (r: bool)
        ensures
            r == version_less(*self, *other),
    {
        match semver_cmp_precedence(self, other) {
            Ordering::Less => true,
            _ => false,
        }
    }
}

/// A version read from a release or tag name, after one leading `v` is
/// dropped.
pub open spec fn tag_version(tag: Seq<char>) -> Option<Version> {
    if tag.len() > 0 && tag[0] == 'v' {
        parsed_version(tag.subrange(1, tag.len() as int))
    } else {
        parsed_version(tag)
    }
}

/// Parses a tag as a version, with or without a leading `v`.
pub fn parse_tag(tag: &str) -> (r: Option<Version>)
    ensures
        r == tag_version(tag@),
{
    let n = tag.unicode_len();
    if n > 0 && tag.get_char(0) == 'v' {
        Version::parse(tag.substring_char(1, n))
    } else {
        Version::parse(tag)
    }
}

} // verus!
