//! Canonical module names.
//!
//! The registry writes a module's name as `owner-name`; manifests may write
//! `owner/name`. The canonical form has `-` wherever the name had `/`.

use vstd::prelude::*;
use crate::models::{branch_views, BranchMeta, BranchMetaView, Module, ModuleView};
use crate::precedence::{lemma_lex_dual, lemma_lex_same, lemma_lex_trans, lex_from};
use crate::text::chars_of;
use crate::version::{lex_rank, Rank};

verus! {

/// The canonical form of a name: every `/` replaced by `-`.
pub open spec fn canonical(name: Seq<char>) -> Seq<char> {
    Seq::new(
        name.len(),
        |i: int|
            if name[i] == '/' {
                '-'
            } else {
                name[i]
            },
    )
}

/// Whether a name holds no `/`.
pub open spec fn is_canonical(name: Seq<char>) -> bool {
    forall|i: int| 0 <= i < name.len() ==> #[trigger] name[i] != '/'
}

/// The canonical form of `name`.
pub fn canonical_name(name: &str) -> (out: String)
    ensures
        out@ == canonical(name@),
        is_canonical(out@),
{
    let chars = chars_of(name);
    let mut out = String::new();
    let mut i: usize = 0;
    while i < chars.len()
        invariant
            i <= chars.len(),
            chars@ == name@,
            out@ == canonical(name@).subrange(0, i as int),
        decreases chars.len() - i,
    {
        let c = chars[i];
        if c == '/' {
            out.push('-');
        } else {
            out.push(c);
        }
        i += 1;
        assert(out@ =~= canonical(name@).subrange(0, i as int));
    }
    assert(out@ =~= canonical(name@));
    out
}

/// A canonical form holds no `/`.
pub proof fn lemma_canonical_is_canonical(name: Seq<char>)
    ensures
        is_canonical(canonical(name)),
{
}

/// A name without `/` is its own canonical form.
pub proof fn lemma_canonical_fixed(name: Seq<char>)
    requires
        is_canonical(name),
    ensures
        canonical(name) == name,
{
    assert(canonical(name) =~= name);
}

/// Taking the canonical form twice is taking it once.
pub proof fn lemma_canonical_idempotent(name: Seq<char>)
    ensures
        canonical(canonical(name)) == canonical(name),
{
    assert(canonical(canonical(name)) =~= canonical(name));
}

/// The canonical form of `owner/name` is `owner-name`, where neither part
/// holds a `/`.
pub proof fn lemma_canonical_joins(owner: Seq<char>, name: Seq<char>)
    requires
        is_canonical(owner),
        is_canonical(name),
    ensures
        canonical(owner + seq!['/'] + name) == owner + seq!['-'] + name,
{
    assert(canonical(owner + seq!['/'] + name) =~= owner + seq!['-'] + name);
}

/// The views of a list of strings.
pub open spec fn string_views(names: Seq<String>) -> Seq<Seq<char>> {
    Seq::new(names.len(), |i: int| names[i]@)
}

/// Whether a list of names is in strictly ascending order by character
/// code, which leaves no name in it twice.
pub open spec fn ascending(names: Seq<Seq<char>>) -> bool {
    forall|i: int, j: int| 0 <= i < j < names.len() ==> lex_from(names[i], names[j], 0) < 0
}

/// Whether declaration number `m` of branch number `b` is the registry
/// module `name`.
pub open spec fn declares_at(branches: Seq<BranchMetaView>, b: int, m: int, name: Seq<char>) -> bool {
    0 <= b < branches.len() && 0 <= m < branches[b].modules.len() && (
    branches[b].modules[m] matches ModuleView::Forge(n, _) && n == name)
}

/// Whether one of the first `m` declarations of branch number `b`, or a
/// declaration of a branch before it, is the registry module `name`.
pub open spec fn declares_before(branches: Seq<BranchMetaView>, b: int, m: int, name: Seq<char>) -> bool {
    exists|x: int, y: int| #[trigger] declares_at(branches, x, y, name) && (x < b || (x == b && y < m))
}

/// Whether some branch declares the registry module `name`.
pub open spec fn declares(branches: Seq<BranchMetaView>, name: Seq<char>) -> bool {
    exists|x: int, y: int| #[trigger] declares_at(branches, x, y, name)
}

/// Puts `name` into an ascending list, unless it is there.
fn insert_name(out: &mut Vec<String>, name: &String)
    requires
        ascending(string_views(old(out)@)),
    ensures
        ascending(string_views(final(out)@)),
        forall|n: Seq<char>|
            string_views(final(out)@).contains(n) <==> (string_views(old(out)@).contains(n) || n
                == name@),
{
    let ghost before = string_views(out@);
    let wanted = chars_of(name.as_str());
    let mut p: usize = 0;
    while p < out.len()
        invariant
            p <= out.len(),
            out@ == old(out)@,
            wanted@ == name@,
            before == string_views(out@),
            ascending(before),
            forall|k: int| 0 <= k < p ==> lex_from(before[k], name@, 0) < 0,
        ensures
            p <= out.len(),
            out@ == old(out)@,
            p < out.len() ==> lex_from(before[p as int], name@, 0) > 0,
        decreases out.len() - p,
    {
        let current = chars_of(out[p].as_str());
        assert(before[p as int] == out@[p as int]@);
        match lex_rank(&current, &wanted) {
            Rank::Lower => {
                p += 1;
            },
            Rank::Same => {
                proof {
                    lemma_lex_same(before[p as int], name@, 0);
                    assert(before[p as int] =~= name@);
                    assert forall|n: Seq<char>| before.contains(n) || n == name@ implies before.contains(n) by {
                        if n == name@ {
                            assert(before[p as int] == n);
                        }
                    }
                }
                return;
            },
            Rank::Higher => {
                break;
            },
        }
    }
    proof {
        if p < out.len() {
            lemma_lex_dual(before[p as int], name@, 0);
        }
    }
    out.insert(p, name.clone());
    let ghost after = string_views(out@);
    assert(after =~= before.insert(p as int, name@));
    assert forall|i: int, j: int| 0 <= i < j < after.len() implies lex_from(after[i], after[j], 0)
        < 0 by {
        if j < p {
        } else if j == p {
        } else if i == p {
            if j - 1 > p {
                lemma_lex_trans(name@, before[p as int], before[j - 1], 0);
            }
        } else if i < p {
        } else {
        }
    }
    assert forall|n: Seq<char>| after.contains(n) <==> (before.contains(n) || n == name@) by {
        if after.contains(n) {
            let k = choose|k: int| 0 <= k < after.len() && after[k] == n;
            if k < p {
                assert(before[k] == n);
            } else if k > p {
                assert(before[k - 1] == n);
            }
        }
        if before.contains(n) {
            let k = choose|k: int| 0 <= k < before.len() && before[k] == n;
            if k < p {
                assert(after[k] == n);
            } else {
                assert(after[k + 1] == n);
            }
        }
        if n == name@ {
            assert(after[p as int] == n);
        }
    }
}

/// The names of the registry modules that the branches declare: each once,
/// in ascending order by character code.
pub fn forge_names(branches: &Vec<BranchMeta>) -> (out: Vec<String>)
    ensures
        ascending(string_views(out@)),
        forall|n: Seq<char>|
            string_views(out@).contains(n) <==> declares(branch_views(branches@), n),
{
    let ghost all = branch_views(branches@);
    let mut out: Vec<String> = Vec::new();
    let mut b: usize = 0;
    while b < branches.len()
        invariant
            b <= branches.len(),
            all == branch_views(branches@),
            ascending(string_views(out@)),
            forall|n: Seq<char>| string_views(out@).contains(n) <==> declares_before(all, b as int, 0, n),
        decreases branches.len() - b,
    {
        let modules = &branches[b].modules;
        assert(all[b as int] == branches@[b as int]@);
        let mut m: usize = 0;
        while m < modules.len()
            invariant
                b < branches.len(),
                m <= modules.len(),
                all == branch_views(branches@),
                all[b as int].modules == crate::models::module_views(modules@),
                ascending(string_views(out@)),
                forall|n: Seq<char>|
                    string_views(out@).contains(n) <==> declares_before(all, b as int, m as int, n),
            decreases modules.len() - m,
        {
            let ghost seen = string_views(out@);
            assert(all[b as int].modules[m as int] == modules@[m as int]@);
            match &modules[m] {
                Module::Forge(name, _) => {
                    insert_name(&mut out, name);
                    assert forall|n: Seq<char>|
                        string_views(out@).contains(n) <==> declares_before(
                            all,
                            b as int,
                            m + 1,
                            n,
                        ) by {
                        lemma_one_more(all, b as int, m as int, n);
                        assert(declares_at(all, b as int, m as int, n) <==> n == name@);
                    }
                },
                Module::Git(_, _) => {
                    assert forall|n: Seq<char>|
                        string_views(out@).contains(n) <==> declares_before(
                            all,
                            b as int,
                            m + 1,
                            n,
                        ) by {
                        lemma_one_more(all, b as int, m as int, n);
                    }
                },
            }
            m += 1;
        }
        assert forall|n: Seq<char>|
            string_views(out@).contains(n) <==> declares_before(all, b + 1, 0, n) by {
            lemma_next_branch(all, b as int, n);
        }
        b += 1;
    }
    assert forall|n: Seq<char>| string_views(out@).contains(n) <==> declares(all, n) by {
        lemma_all_branches(all, n);
    }
    out
}

/// Looking at one more declaration of a branch adds that declaration.
proof fn lemma_one_more(branches: Seq<BranchMetaView>, b: int, m: int, name: Seq<char>)
    ensures
        declares_before(branches, b, m + 1, name) <==> (declares_before(branches, b, m, name)
            || declares_at(branches, b, m, name)),
{
    if declares_before(branches, b, m + 1, name) {
        let (x, y) = choose|x: int, y: int| #[trigger]
            declares_at(branches, x, y, name) && (x < b || (x == b && y < m + 1));
        if !(x == b && y == m) {
            assert(declares_at(branches, x, y, name) && (x < b || (x == b && y < m)));
        }
    }
    if declares_before(branches, b, m, name) {
        let (x, y) = choose|x: int, y: int| #[trigger]
            declares_at(branches, x, y, name) && (x < b || (x == b && y < m));
        assert(declares_at(branches, x, y, name) && (x < b || (x == b && y < m + 1)));
    }
    if declares_at(branches, b, m, name) {
        assert(declares_at(branches, b, m, name) && (b < b || (b == b && m < m + 1)));
    }
}

/// All of a branch's declarations are those before the next branch.
proof fn lemma_next_branch(branches: Seq<BranchMetaView>, b: int, name: Seq<char>)
    requires
        0 <= b < branches.len(),
    ensures
        declares_before(branches, b + 1, 0, name) <==> declares_before(
            branches,
            b,
            branches[b].modules.len() as int,
            name,
        ),
{
    let end = branches[b].modules.len() as int;
    if declares_before(branches, b + 1, 0, name) {
        let (x, y) = choose|x: int, y: int| #[trigger]
            declares_at(branches, x, y, name) && (x < b + 1 || (x == b + 1 && y < 0));
        assert(declares_at(branches, x, y, name) && (x < b || (x == b && y < end)));
    }
    if declares_before(branches, b, end, name) {
        let (x, y) = choose|x: int, y: int| #[trigger]
            declares_at(branches, x, y, name) && (x < b || (x == b && y < end));
        assert(declares_at(branches, x, y, name) && (x < b + 1 || (x == b + 1 && y < 0)));
    }
}

/// The declarations before the end of the branches are all declarations.
proof fn lemma_all_branches(branches: Seq<BranchMetaView>, name: Seq<char>)
    ensures
        declares_before(branches, branches.len() as int, 0, name) <==> declares(branches, name),
{
    let end = branches.len() as int;
    if declares(branches, name) {
        let (x, y) = choose|x: int, y: int| #[trigger] declares_at(branches, x, y, name);
        assert(declares_at(branches, x, y, name) && (x < end || (x == end && y < 0)));
    }
}

} // verus!
