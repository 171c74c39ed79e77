//! Semantic versions: parsing, precedence and printing.

use vstd::prelude::*;
use vstd::string::StringExecFns;
use crate::precedence::{
    build_ident_order, build_idents_from, build_order, full_order, ident_order, idents_from,
    is_digit, is_numeric, lex_from, order, pre_order, release, stripped, zeros_from, VersionView,
};
use crate::text::{chars_of, slice_of, split_chars, views};

verus! {

/// A semantic version.
///
/// `==` holds of two versions whose fields are all the same. `compare`
/// gives their precedence, in which build metadata takes no part;
/// `compare_fully` goes on to the build metadata where precedence is the
/// same.
#[derive(Debug, PartialEq, Eq)]
pub struct Version {
    pub major: u64,
    pub minor: u64,
    pub patch: u64,
    /// Pre-release text without the leading `-`; empty for a release.
    pub pre: String,
    /// Build metadata without the leading `+`; empty if there is none.
    pub build: String,
}

impl View for Version {
    type V = VersionView;

    open spec fn view(&self) -> VersionView {
        VersionView {
            major: self.major,
            minor: self.minor,
            patch: self.patch,
            pre: self.pre@,
            build: self.build@,
        }
    }
}

impl Clone for Version {
    fn clone(&self) -> (out: Self)
        ensures
            out == *self,
    {
        Version {
            major: self.major,
            minor: self.minor,
            patch: self.patch,
            pre: self.pre.clone(),
            build: self.build.clone(),
        }
    }
}

/// How one value stands to another in an order.
#[derive(Clone, Copy, Debug, PartialEq, Eq, Structural)]
pub enum Rank {
    Lower,
    Same,
    Higher,
}

/// The rank that a three-valued order result stands for.
pub open spec fn rank_of(o: int) -> Rank {
    if o < 0 {
        Rank::Lower
    } else if o == 0 {
        Rank::Same
    } else {
        Rank::Higher
    }
}

/// The lexicographic order of `a` and `b` by character code.
pub fn lex_rank(a: &Vec<char>, b: &Vec<char>) -> (r: Rank)
    ensures
        r == rank_of(lex_from(a@, b@, 0)),
{
    let mut i: usize = 0;
    while i < a.len() && i < b.len()
        invariant
            i <= a.len(),
            i <= b.len(),
            lex_from(a@, b@, 0) == lex_from(a@, b@, i as int),
        decreases a.len() - i,
    {
        if a[i] < b[i] {
            return Rank::Lower;
        }
        if a[i] > b[i] {
            return Rank::Higher;
        }
        i += 1;
    }
    if i < a.len() {
        Rank::Higher
    } else if i < b.len() {
        Rank::Lower
    } else {
        Rank::Same
    }
}

fn all_digits(a: &Vec<char>) -> (r: bool)
    ensures
        r == is_numeric(a@),
{
    let mut i: usize = 0;
    while i < a.len()
        invariant
            i <= a.len(),
            forall|j: int| 0 <= j < i ==> is_digit(#[trigger] a@[j]),
        decreases a.len() - i,
    {
        if !(a[i] >= '0' && a[i] <= '9') {
            return false;
        }
        i += 1;
    }
    true
}

fn ident_rank(a: &Vec<char>, b: &Vec<char>) -> (r: Rank)
    ensures
        r == rank_of(ident_order(a@, b@)),
{
    let na = all_digits(a);
    let nb = all_digits(b);
    if na && nb {
        if a.len() < b.len() {
            Rank::Lower
        } else if a.len() > b.len() {
            Rank::Higher
        } else {
            lex_rank(a, b)
        }
    } else if na {
        Rank::Lower
    } else if nb {
        Rank::Higher
    } else {
        lex_rank(a, b)
    }
}

fn idents_rank(a: &Vec<Vec<char>>, b: &Vec<Vec<char>>) -> (r: Rank)
    ensures
        r == rank_of(idents_from(views(a@), views(b@), 0)),
{
    let mut i: usize = 0;
    while i < a.len() && i < b.len()
        invariant
            i <= a.len(),
            i <= b.len(),
            idents_from(views(a@), views(b@), 0) == idents_from(views(a@), views(b@), i as int),
        decreases a.len() - i,
    {
        let r = ident_rank(&a[i], &b[i]);
        match r {
            Rank::Same => {},
            _ => {
                return r;
            },
        }
        i += 1;
    }
    if i < a.len() {
        Rank::Higher
    } else if i < b.len() {
        Rank::Lower
    } else {
        Rank::Same
    }
}

fn pre_rank(a: &str, b: &str) -> (r: Rank)
    ensures
        r == rank_of(pre_order(a@, b@)),
{
    let ca = chars_of(a);
    let cb = chars_of(b);
    if ca.len() == 0 {
        if cb.len() == 0 {
            Rank::Same
        } else {
            Rank::Higher
        }
    } else if cb.len() == 0 {
        Rank::Lower
    } else {
        let ia = split_chars(&ca, '.');
        let ib = split_chars(&cb, '.');
        idents_rank(&ia, &ib)
    }
}

fn without_zeros(a: &Vec<char>) -> (out: Vec<char>)
    ensures
        out@ == stripped(a@),
{
    let mut z: usize = 0;
    while z < a.len() && a[z] == '0'
        invariant
            z <= a.len(),
            zeros_from(a@, 0) == zeros_from(a@, z as int),
        decreases a.len() - z,
    {
        z += 1;
    }
    slice_of(a, z, a.len())
}

fn rank_usize(a: usize, b: usize) -> (r: Rank)
    ensures
        r == rank_of(a - b),
{
    if a < b {
        Rank::Lower
    } else if a > b {
        Rank::Higher
    } else {
        Rank::Same
    }
}

fn build_ident_rank(a: &Vec<char>, b: &Vec<char>) -> (r: Rank)
    ensures
        r == rank_of(build_ident_order(a@, b@)),
{
    let na = all_digits(a);
    let nb = all_digits(b);
    if na && nb {
        let x = without_zeros(a);
        let y = without_zeros(b);
        if x.len() != y.len() {
            return rank_usize(x.len(), y.len());
        }
        match lex_rank(&x, &y) {
            Rank::Same => rank_usize(a.len(), b.len()),
            r => r,
        }
    } else if na {
        Rank::Lower
    } else if nb {
        Rank::Higher
    } else {
        lex_rank(a, b)
    }
}

fn build_idents_rank(a: &Vec<Vec<char>>, b: &Vec<Vec<char>>) -> (r: Rank)
    ensures
        r == rank_of(build_idents_from(views(a@), views(b@), 0)),
{
    let mut i: usize = 0;
    while i < a.len() && i < b.len()
        invariant
            i <= a.len(),
            i <= b.len(),
            build_idents_from(views(a@), views(b@), 0) == build_idents_from(
                views(a@),
                views(b@),
                i as int,
            ),
        decreases a.len() - i,
    {
        let r = build_ident_rank(&a[i], &b[i]);
        match r {
            Rank::Same => {},
            _ => {
                return r;
            },
        }
        i += 1;
    }
    rank_usize(a.len(), b.len())
}

fn build_rank(a: &str, b: &str) -> (r: Rank)
    ensures
        r == rank_of(build_order(a@, b@)),
{
    let ia = split_chars(&chars_of(a), '.');
    let ib = split_chars(&chars_of(b), '.');
    build_idents_rank(&ia, &ib)
}

fn rank_u64(a: u64, b: u64) -> (r: Rank)
    ensures
        r == rank_of(a - b),
{
    if a < b {
        Rank::Lower
    } else if a > b {
        Rank::Higher
    } else {
        Rank::Same
    }
}

/// The error of the `semver` crate's parser. Nothing is known of what it
/// holds.
#[verifier::external_type_specification]
#[verifier::external_body]
pub struct ExSemverError(semver::Error);

/// What `semver::Version::parse` makes of a text: the version it reads, or
/// `None` where it rejects the text.
pub uninterp spec fn semver_parsed(text: Seq<char>) -> Option<VersionView>;

/// Calls `semver::Version::parse` and copies the fields of its result. The
/// contract is believed, not proved. It claims that the outcome is a
/// function of the text, named `semver_parsed`: what counts as a version
/// is for the `semver` crate to say. And it claims that the parser takes
/// canonical texts only: the text of a version that was read is the text
/// it was read from (numbers without leading zeros, pre-release and build
/// metadata as written, and nothing else).
#[verifier::external_body]
fn semver_parse(text: &str) -> (r: Result<Version, semver::Error>)
    ensures
        r is Ok <==> semver_parsed(text@) is Some,
        r matches Ok(v) ==> semver_parsed(text@) == Some(v@),
        r matches Ok(v) ==> text_of(v@) == text@,
{
    match semver::Version::parse(text) {
        Ok(v) => Ok(
            Version {
                major: v.major,
                minor: v.minor,
                patch: v.patch,
                pre: v.pre.as_str().to_owned(),
                build: v.build.as_str().to_owned(),
            },
        ),
        Err(e) => Err(e),
    }
}

/// Whether a version is what its own canonical text is read as.
pub open spec fn reads_back(v: VersionView) -> bool {
    semver_parsed(text_of(v)) == Some(v)
}

/// A text that is no semantic version.
#[derive(Debug, PartialEq, Eq)]
pub struct InvalidVersion {
    /// The rejected text.
    pub text: String,
}

/// The decimal digit `d` as a character.
pub open spec fn digit(d: int) -> char {
    ((48 + d) as u8) as char
}

/// The decimal numeral of `n`, without leading zeros.
pub open spec fn decimal(n: nat) -> Seq<char>
    decreases n,
{
    if n < 10 {
        seq![digit(n as int)]
    } else {
        decimal(n / 10).push(digit((n % 10) as int))
    }
}

/// The canonical text of a version: `major.minor.patch`, then `-` and the
/// pre-release if there is one, then `+` and the build metadata if there is
/// any.
pub open spec fn text_of(v: VersionView) -> Seq<char> {
    decimal(v.major as nat) + seq!['.'] + decimal(v.minor as nat) + seq!['.'] + decimal(
        v.patch as nat,
    ) + (if v.pre.len() > 0 {
        seq!['-'] + v.pre
    } else {
        Seq::empty()
    }) + (if v.build.len() > 0 {
        seq!['+'] + v.build
    } else {
        Seq::empty()
    })
}

fn push_decimal(out: &mut String, n: u64)
    ensures
        final(out)@ == old(out)@ + decimal(n as nat),
    decreases n,
{
    if n >= 10 {
        push_decimal(out, n / 10);
    }
    let d: u8 = (n % 10) as u8;
    out.push((48u8 + d) as char);
    assert(final(out)@ =~= old(out)@ + decimal(n as nat));
}

impl Version {
    /// Reads a semantic version. The text is one exactly when the `semver`
    /// crate accepts it, and then it is the canonical text of the version,
    /// so that printing the version and reading it again gives the version.
    pub fn parse(text: &str) -> (r: Result<Version, InvalidVersion>)
        ensures
            match r {
                Ok(v) => semver_parsed(text@) == Some(v@) && text_of(v@) == text@ && reads_back(
                    v@,
                ),
                Err(e) => semver_parsed(text@) is None && e.text@ == text@,
            },
    {
        match semver_parse(text) {
            Ok(v) => Ok(v),
            Err(_) => Err(InvalidVersion { text: text.to_owned() }),
        }
    }

    /// The canonical text of the version.
    pub fn to_string(&self) -> (out: String)
        ensures
            out@ == text_of(self@),
    {
        let mut out = String::new();
        push_decimal(&mut out, self.major);
        out.push('.');
        push_decimal(&mut out, self.minor);
        out.push('.');
        push_decimal(&mut out, self.patch);
        if !self.pre.as_str().is_empty() {
            out.push('-');
            out.append(self.pre.as_str());
        }
        if !self.build.as_str().is_empty() {
            out.push('+');
            out.append(self.build.as_str());
        }
        assert(out@ =~= text_of(self@));
        out
    }

    /// The release `major.minor.patch`, without pre-release or build metadata.
    pub fn new(major: u64, minor: u64, patch: u64) -> (out: Version)
        ensures
            out@ == release(major, minor, patch),
    {
        Version { major, minor, patch, pre: String::new(), build: String::new() }
    }

    /// The place of `self` relative to `other` in the full order:
    /// precedence, and between versions of the same precedence the build
    /// metadata. This is the order of the `semver` crate's versions.
    pub fn compare_fully(&self, other: &Version) -> (r: Rank)
        ensures
            r == rank_of(full_order(self@, other@)),
    {
        match self.compare(other) {
            Rank::Same => build_rank(self.build.as_str(), other.build.as_str()),
            r => r,
        }
    }

    /// The precedence of `self` relative to `other`.
    pub fn compare(&self, other: &Version) -> (r: Rank)
        ensures
            r == rank_of(order(self@, other@)),
    {
        if self.major != other.major {
            rank_u64(self.major, other.major)
        } else if self.minor != other.minor {
            rank_u64(self.minor, other.minor)
        } else if self.patch != other.patch {
            rank_u64(self.patch, other.patch)
        } else {
            pre_rank(self.pre.as_str(), other.pre.as_str())
        }
    }
}

} // verus!
