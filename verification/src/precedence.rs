//! The orders of semantic versions, as mathematical relations.
//!
//! There are two. Precedence goes by major, minor, patch and pre-release,
//! and is what versions are compared by. The full order goes by precedence
//! and then by build metadata, and decides between versions of the same
//! precedence.
//!
//! Orders are three-valued: a negative result means "lower", zero "same",
//! a positive result "higher". Every order here is total; the lemmas say
//! so.

use vstd::prelude::*;
use crate::text::split;

verus! {

/// What a version is compared and printed by.
pub struct VersionView {
    pub major: u64,
    pub minor: u64,
    pub patch: u64,
    /// Pre-release text without the leading `-`; empty for a release.
    pub pre: Seq<char>,
    /// Build metadata without the leading `+`; empty if there is none.
    pub build: Seq<char>,
}

/// The release `major.minor.patch`: no pre-release, no build metadata.
pub open spec fn release(major: u64, minor: u64, patch: u64) -> VersionView {
    VersionView { major, minor, patch, pre: Seq::empty(), build: Seq::empty() }
}

pub open spec fn is_digit(c: char) -> bool {
    '0' <= c <= '9'
}

/// An identifier made of digits only (the empty one included).
pub open spec fn is_numeric(id: Seq<char>) -> bool {
    forall|i: int| 0 <= i < id.len() ==> is_digit(#[trigger] id[i])
}

/// Lexicographic order of `a[i..]` and `b[i..]` by character code.
pub open spec fn lex_from(a: Seq<char>, b: Seq<char>, i: int) -> int
    decreases a.len() - i,
{
    if i < 0 {
        0
    } else if i >= a.len() {
        if i >= b.len() {
            0
        } else {
            -1
        }
    } else if i >= b.len() {
        1
    } else if a[i] < b[i] {
        -1
    } else if a[i] > b[i] {
        1
    } else {
        lex_from(a, b, i + 1)
    }
}

/// Order of two pre-release identifiers: numeric ones by value (shorter is
/// smaller, equal lengths digit by digit), a numeric one below any other,
/// the others by character code.
pub open spec fn ident_order(a: Seq<char>, b: Seq<char>) -> int {
    if is_numeric(a) && is_numeric(b) {
        if a.len() < b.len() {
            -1
        } else if a.len() > b.len() {
            1
        } else {
            lex_from(a, b, 0)
        }
    } else if is_numeric(a) {
        -1
    } else if is_numeric(b) {
        1
    } else {
        lex_from(a, b, 0)
    }
}

/// Order of the identifier lists `a[i..]` and `b[i..]`: the first pair that
/// differs decides; a list that is a proper prefix of the other is lower.
pub open spec fn idents_from(a: Seq<Seq<char>>, b: Seq<Seq<char>>, i: int) -> int
    decreases a.len() - i,
{
    if i < 0 {
        0
    } else if i >= a.len() {
        if i >= b.len() {
            0
        } else {
            -1
        }
    } else if i >= b.len() {
        1
    } else if ident_order(a[i], b[i]) != 0 {
        ident_order(a[i], b[i])
    } else {
        idents_from(a, b, i + 1)
    }
}

/// The dot-separated identifiers of a pre-release text.
pub open spec fn identifiers(s: Seq<char>) -> Seq<Seq<char>> {
    split(s, '.')
}

/// Order of two pre-release texts: a release (no pre-release) is above every
/// pre-release; two pre-releases go by their identifier lists.
pub open spec fn pre_order(a: Seq<char>, b: Seq<char>) -> int {
    if a.len() == 0 {
        if b.len() == 0 {
            0
        } else {
            1
        }
    } else if b.len() == 0 {
        -1
    } else {
        idents_from(identifiers(a), identifiers(b), 0)
    }
}

/// Precedence of two versions: major, then minor, then patch, then the
/// pre-release. Build metadata takes no part.
pub open spec fn order(a: VersionView, b: VersionView) -> int {
    if a.major != b.major {
        if a.major < b.major { -1 } else { 1 }
    } else if a.minor != b.minor {
        if a.minor < b.minor { -1 } else { 1 }
    } else if a.patch != b.patch {
        if a.patch < b.patch { -1 } else { 1 }
    } else {
        pre_order(a.pre, b.pre)
    }
}

/// `lex_from` is reversed when its arguments are swapped.
pub proof fn lemma_lex_dual(a: Seq<char>, b: Seq<char>, i: int)
    requires
        0 <= i,
    ensures
        lex_from(a, b, i) == -lex_from(b, a, i),
        -1 <= lex_from(a, b, i) <= 1,
    decreases a.len() - i,
{
    if i < a.len() && i < b.len() && a[i] == b[i] {
        lemma_lex_dual(a, b, i + 1);
    }
}

/// `lex_from` finds two sequences the same only where they agree from `i` on.
pub proof fn lemma_lex_same(a: Seq<char>, b: Seq<char>, i: int)
    requires
        0 <= i,
        lex_from(a, b, i) == 0,
    ensures
        i <= a.len() && i <= b.len() ==> a.len() == b.len(),
        forall|j: int| i <= j < a.len() ==> a[j] == b[j],
    decreases a.len() - i,
{
    if i < a.len() && i < b.len() && a[i] == b[i] {
        lemma_lex_same(a, b, i + 1);
    }
}

/// `lex_from` is transitive, and strictly so where one step is strict.
pub proof fn lemma_lex_trans(a: Seq<char>, b: Seq<char>, c: Seq<char>, i: int)
    requires
        0 <= i,
        lex_from(a, b, i) <= 0,
        lex_from(b, c, i) <= 0,
    ensures
        lex_from(a, c, i) <= 0,
        lex_from(a, b, i) < 0 || lex_from(b, c, i) < 0 ==> lex_from(a, c, i) < 0,
    decreases a.len() - i,
{
    if i < a.len() && i < b.len() && i < c.len() && a[i] == b[i] && b[i] == c[i] {
        lemma_lex_trans(a, b, c, i + 1);
    }
}

/// `ident_order` is reversed when its arguments are swapped.
pub proof fn lemma_ident_dual(a: Seq<char>, b: Seq<char>)
    ensures
        ident_order(a, b) == -ident_order(b, a),
        -1 <= ident_order(a, b) <= 1,
{
    lemma_lex_dual(a, b, 0);
}

/// Two identifiers that `ident_order` finds the same are equal.
pub proof fn lemma_ident_same(a: Seq<char>, b: Seq<char>)
    requires
        ident_order(a, b) == 0,
    ensures
        a == b,
{
    lemma_lex_same(a, b, 0);
    assert(a =~= b);
}

/// `ident_order` is transitive, and strictly so where one step is strict.
pub proof fn lemma_ident_trans(a: Seq<char>, b: Seq<char>, c: Seq<char>)
    requires
        ident_order(a, b) <= 0,
        ident_order(b, c) <= 0,
    ensures
        ident_order(a, c) <= 0,
        ident_order(a, b) < 0 || ident_order(b, c) < 0 ==> ident_order(a, c) < 0,
{
    lemma_lex_dual(a, b, 0);
    lemma_lex_dual(b, c, 0);
    lemma_lex_dual(a, c, 0);
    if lex_from(a, b, 0) <= 0 && lex_from(b, c, 0) <= 0 {
        lemma_lex_trans(a, b, c, 0);
    }
}

/// `idents_from` is reversed when its arguments are swapped.
pub proof fn lemma_idents_dual(a: Seq<Seq<char>>, b: Seq<Seq<char>>, i: int)
    requires
        0 <= i,
    ensures
        idents_from(a, b, i) == -idents_from(b, a, i),
        -1 <= idents_from(a, b, i) <= 1,
    decreases a.len() - i,
{
    if i < a.len() && i < b.len() {
        lemma_ident_dual(a[i], b[i]);
        if ident_order(a[i], b[i]) == 0 {
            lemma_idents_dual(a, b, i + 1);
        }
    }
}

/// `idents_from` is transitive, and strictly so where one step is strict.
pub proof fn lemma_idents_trans(a: Seq<Seq<char>>, b: Seq<Seq<char>>, c: Seq<Seq<char>>, i: int)
    requires
        0 <= i,
        idents_from(a, b, i) <= 0,
        idents_from(b, c, i) <= 0,
    ensures
        idents_from(a, c, i) <= 0,
        idents_from(a, b, i) < 0 || idents_from(b, c, i) < 0 ==> idents_from(a, c, i) < 0,
    decreases a.len() - i,
{
    if i < a.len() && i < b.len() && i < c.len() {
        lemma_ident_dual(a[i], b[i]);
        lemma_ident_dual(b[i], c[i]);
        lemma_ident_dual(a[i], c[i]);
        if ident_order(a[i], b[i]) <= 0 && ident_order(b[i], c[i]) <= 0 {
            lemma_ident_trans(a[i], b[i], c[i]);
        }
        if ident_order(a[i], b[i]) == 0 && ident_order(b[i], c[i]) == 0 {
            lemma_ident_same(a[i], b[i]);
            lemma_ident_same(b[i], c[i]);
            lemma_idents_trans(a, b, c, i + 1);
        }
    }
}

/// Swapping the two versions reverses their precedence.
pub proof fn lemma_order_dual(a: VersionView, b: VersionView)
    ensures
        order(a, b) == -order(b, a),
        -1 <= order(a, b) <= 1,
{
    lemma_idents_dual(identifiers(a.pre), identifiers(b.pre), 0);
}

/// A version has the precedence of itself.
pub proof fn lemma_order_reflexive(a: VersionView)
    ensures
        order(a, a) == 0,
{
    lemma_order_dual(a, a);
}

/// Precedence is transitive: if `a` is not above `b` and `b` is not above
/// `c`, then `a` is not above `c`, and it is below `c` if either step is
/// strict.
pub proof fn lemma_order_trans(a: VersionView, b: VersionView, c: VersionView)
    requires
        order(a, b) <= 0,
        order(b, c) <= 0,
    ensures
        order(a, c) <= 0,
        order(a, b) < 0 || order(b, c) < 0 ==> order(a, c) < 0,
{
    let (x, y, z) = (identifiers(a.pre), identifiers(b.pre), identifiers(c.pre));
    lemma_idents_dual(x, y, 0);
    lemma_idents_dual(y, z, 0);
    lemma_idents_dual(x, z, 0);
    if idents_from(x, y, 0) <= 0 && idents_from(y, z, 0) <= 0 {
        lemma_idents_trans(x, y, z, 0);
    }
}

/// The first index at or after `i` that holds no `0`, or the length of `id`.
pub open spec fn zeros_from(id: Seq<char>, i: int) -> int
    decreases id.len() - i,
{
    if i < 0 || i >= id.len() {
        id.len() as int
    } else if id[i] == '0' {
        zeros_from(id, i + 1)
    } else {
        i
    }
}

/// An identifier without its leading zeros.
pub open spec fn stripped(id: Seq<char>) -> Seq<char> {
    id.subrange(zeros_from(id, 0), id.len() as int)
}

/// Order of two identifiers of build metadata. Numeric ones go by value,
/// leading zeros set aside, and of two with the same value the shorter is
/// lower; a numeric one is below any other; the others go by character
/// code.
pub open spec fn build_ident_order(a: Seq<char>, b: Seq<char>) -> int {
    if is_numeric(a) && is_numeric(b) {
        let x = stripped(a);
        let y = stripped(b);
        if x.len() < y.len() {
            -1
        } else if x.len() > y.len() {
            1
        } else if lex_from(x, y, 0) != 0 {
            lex_from(x, y, 0)
        } else if a.len() < b.len() {
            -1
        } else if a.len() > b.len() {
            1
        } else {
            0
        }
    } else if is_numeric(a) {
        -1
    } else if is_numeric(b) {
        1
    } else {
        lex_from(a, b, 0)
    }
}

/// Order of the lists `a[i..]` and `b[i..]` of identifiers of build
/// metadata: the first pair that differs decides; a list that is a proper
/// prefix of the other is lower.
pub open spec fn build_idents_from(a: Seq<Seq<char>>, b: Seq<Seq<char>>, i: int) -> int
    decreases a.len() - i,
{
    if i < 0 {
        0
    } else if i >= a.len() {
        if i >= b.len() {
            0
        } else {
            -1
        }
    } else if i >= b.len() {
        1
    } else if build_ident_order(a[i], b[i]) != 0 {
        build_ident_order(a[i], b[i])
    } else {
        build_idents_from(a, b, i + 1)
    }
}

/// Order of two texts of build metadata, by their identifier lists. No
/// build metadata is below any.
pub open spec fn build_order(a: Seq<char>, b: Seq<char>) -> int {
    build_idents_from(identifiers(a), identifiers(b), 0)
}

/// The full order of two versions: precedence, and between versions of the
/// same precedence the build metadata.
pub open spec fn full_order(a: VersionView, b: VersionView) -> int {
    if order(a, b) != 0 {
        order(a, b)
    } else {
        build_order(a.build, b.build)
    }
}

/// `build_ident_order` is reversed when its arguments are swapped.
pub proof fn lemma_build_ident_dual(a: Seq<char>, b: Seq<char>)
    ensures
        build_ident_order(a, b) == -build_ident_order(b, a),
        -1 <= build_ident_order(a, b) <= 1,
{
    lemma_lex_dual(a, b, 0);
    lemma_lex_dual(stripped(a), stripped(b), 0);
}

/// `build_ident_order` is transitive, and strictly so where one step is
/// strict.
pub proof fn lemma_build_ident_trans(a: Seq<char>, b: Seq<char>, c: Seq<char>)
    requires
        build_ident_order(a, b) <= 0,
        build_ident_order(b, c) <= 0,
    ensures
        build_ident_order(a, c) <= 0,
        build_ident_order(a, b) < 0 || build_ident_order(b, c) < 0 ==> build_ident_order(a, c)
            < 0,
{
    let (x, y, z) = (stripped(a), stripped(b), stripped(c));
    lemma_lex_dual(a, b, 0);
    lemma_lex_dual(b, c, 0);
    lemma_lex_dual(a, c, 0);
    lemma_lex_dual(x, y, 0);
    lemma_lex_dual(y, z, 0);
    lemma_lex_dual(x, z, 0);
    if lex_from(a, b, 0) <= 0 && lex_from(b, c, 0) <= 0 {
        lemma_lex_trans(a, b, c, 0);
    }
    if lex_from(x, y, 0) <= 0 && lex_from(y, z, 0) <= 0 {
        lemma_lex_trans(x, y, z, 0);
    }
    if lex_from(z, y, 0) <= 0 && lex_from(y, x, 0) <= 0 {
        lemma_lex_dual(z, y, 0);
        lemma_lex_dual(y, x, 0);
        lemma_lex_dual(z, x, 0);
        lemma_lex_trans(z, y, x, 0);
    }
}

/// `build_idents_from` is reversed when its arguments are swapped.
pub proof fn lemma_build_idents_dual(a: Seq<Seq<char>>, b: Seq<Seq<char>>, i: int)
    requires
        0 <= i,
    ensures
        build_idents_from(a, b, i) == -build_idents_from(b, a, i),
        -1 <= build_idents_from(a, b, i) <= 1,
    decreases a.len() - i,
{
    if i < a.len() && i < b.len() {
        lemma_build_ident_dual(a[i], b[i]);
        if build_ident_order(a[i], b[i]) == 0 {
            lemma_build_idents_dual(a, b, i + 1);
        }
    }
}

/// `build_idents_from` is transitive, and strictly so where one step is
/// strict.
pub proof fn lemma_build_idents_trans(
    a: Seq<Seq<char>>,
    b: Seq<Seq<char>>,
    c: Seq<Seq<char>>,
    i: int,
)
    requires
        0 <= i,
        build_idents_from(a, b, i) <= 0,
        build_idents_from(b, c, i) <= 0,
    ensures
        build_idents_from(a, c, i) <= 0,
        build_idents_from(a, b, i) < 0 || build_idents_from(b, c, i) < 0 ==> build_idents_from(
            a,
            c,
            i,
        ) < 0,
    decreases a.len() - i,
{
    if i < a.len() && i < b.len() && i < c.len() {
        lemma_build_ident_dual(a[i], b[i]);
        lemma_build_ident_dual(b[i], c[i]);
        lemma_build_ident_dual(a[i], c[i]);
        lemma_build_ident_dual(c[i], b[i]);
        lemma_build_ident_dual(b[i], a[i]);
        if build_ident_order(a[i], b[i]) <= 0 && build_ident_order(b[i], c[i]) <= 0 {
            lemma_build_ident_trans(a[i], b[i], c[i]);
        }
        if build_ident_order(a[i], b[i]) == 0 && build_ident_order(b[i], c[i]) == 0 {
            lemma_build_ident_trans(c[i], b[i], a[i]);
            lemma_build_ident_dual(c[i], a[i]);
            lemma_build_idents_trans(a, b, c, i + 1);
        }
    }
}

/// Swapping the two versions reverses their full order.
pub proof fn lemma_full_dual(a: VersionView, b: VersionView)
    ensures
        full_order(a, b) == -full_order(b, a),
        -1 <= full_order(a, b) <= 1,
{
    lemma_order_dual(a, b);
    lemma_build_idents_dual(identifiers(a.build), identifiers(b.build), 0);
}

/// The full order is transitive, and strictly so where one step is strict.
pub proof fn lemma_full_trans(a: VersionView, b: VersionView, c: VersionView)
    requires
        full_order(a, b) <= 0,
        full_order(b, c) <= 0,
    ensures
        full_order(a, c) <= 0,
        full_order(a, b) < 0 || full_order(b, c) < 0 ==> full_order(a, c) < 0,
{
    lemma_order_dual(a, b);
    lemma_order_dual(b, c);
    lemma_order_dual(a, c);
    lemma_order_trans(a, b, c);
    if order(a, b) == 0 && order(b, c) == 0 {
        lemma_order_trans(c, b, a);
        let (x, y, z) = (identifiers(a.build), identifiers(b.build), identifiers(c.build));
        lemma_build_idents_trans(x, y, z, 0);
    }
}

/// The full order refines precedence: it never puts a version of lower
/// precedence higher.
pub proof fn lemma_full_refines(a: VersionView, b: VersionView)
    ensures
        full_order(a, b) <= 0 ==> order(a, b) <= 0,
        full_order(a, b) >= 0 ==> order(a, b) >= 0,
        order(a, b) != 0 ==> full_order(a, b) == order(a, b),
{
}

/// No build metadata is the lowest: nothing is below it, and only it has
/// its place.
pub proof fn lemma_no_build_is_lowest(build: Seq<char>)
    ensures
        build_order(build, Seq::empty()) >= 0,
        build_order(build, Seq::empty()) == 0 ==> build == Seq::<char>::empty(),
{
    let s = identifiers(build);
    let e = identifiers(Seq::<char>::empty());
    crate::text::lemma_split_join(build, '.');
    crate::text::lemma_split_from(build, '.', 0, 0);
    let none = Seq::<char>::empty();
    assert(none.subrange(0, 0) =~= none);
    assert(crate::text::split_from(none, '.', 0, 0) == seq![none.subrange(0, 0)]);
    assert(e == seq![none]);
    assert(stripped(Seq::<char>::empty()) =~= Seq::<char>::empty());
    reveal_with_fuel(build_idents_from, 3);
    lemma_lex_dual(stripped(s[0]), Seq::<char>::empty(), 0);
    if build_order(build, Seq::empty()) == 0 {
        assert(s.len() == 1);
        assert(s[0].len() == 0);
        assert(crate::text::join(s, '.') == s[0]);
        assert(build =~= Seq::<char>::empty());
    }
}

/// Only a release itself has the place of that release in the full order.
pub proof fn lemma_same_as_release(a: VersionView, major: u64, minor: u64, patch: u64)
    requires
        full_order(a, release(major, minor, patch)) == 0,
    ensures
        a == release(major, minor, patch),
{
    lemma_no_build_is_lowest(a.build);
    assert(a.pre =~= Seq::<char>::empty());
    assert(a.build =~= Seq::<char>::empty());
}

} // verus!
