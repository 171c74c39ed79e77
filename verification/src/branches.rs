//! From the manifests of the branches to what each branch declares.

use vstd::prelude::*;
use crate::line::starts_with;
use crate::models::{BranchMeta, BranchMetaView};
use crate::puppetfile::{
    manifest_of, observation_views, read_manifest, Manifest, Observation, ObservationView,
    ParseError, ParseErrorView,
};
use crate::text::chars_of;

verus! {

/// The word that the names of remote branches start with.
pub open spec fn remote() -> Seq<char> {
    seq!['o', 'r', 'i', 'g', 'i', 'n']
}

/// Whether a branch is a remote one: its name starts with `origin`.
pub open spec fn follows_remote(name: Seq<char>) -> bool {
    starts_with(name, remote(), 0)
}

/// Whether the branch `name` is a remote one.
pub fn is_remote_branch(name: &str) -> (r: bool)
    ensures
        r == follows_remote(name@),
{
    let c = chars_of(name);
    let r = c.len() >= 6 && c[0] == 'o' && c[1] == 'r' && c[2] == 'i' && c[3] == 'g' && c[4] == 'i'
        && c[5] == 'n';
    proof {
        if r {
            assert(name@.subrange(0, 6) =~= remote());
        } else if name@.len() >= 6 {
            let piece = name@.subrange(0, 6);
            assert(piece[0] == name@[0] && piece[1] == name@[1] && piece[2] == name@[2]);
            assert(piece[3] == name@[3] && piece[4] == name@[4] && piece[5] == name@[5]);
        }
    }
    r
}

/// A branch whose manifest could not be read, and why.
#[derive(Debug, PartialEq, Eq)]
pub struct Rejected {
    /// The branch's name.
    pub name: String,
    pub error: ParseError,
}

pub struct RejectedView {
    pub name: Seq<char>,
    pub error: ParseErrorView,
}

impl View for Rejected {
    type V = RejectedView;

    open spec fn view(&self) -> RejectedView {
        RejectedView { name: self.name@, error: self.error@ }
    }
}

/// What the manifests of the branches gave.
#[derive(Debug, PartialEq, Eq)]
pub struct BranchScan {
    /// The remote branches whose manifest could be read, in their order.
    pub branches: Vec<BranchMeta>,
    /// For each of `branches`, what was observed of the lines of its
    /// manifest that were passed over.
    pub observations: Vec<Vec<Observation>>,
    /// The remote branches whose manifest could not be read, in their order.
    pub rejected: Vec<Rejected>,
}

/// The remote branches among the first `n` sources whose manifest can be
/// read, each with its declarations.
pub open spec fn readable(sources: Seq<(Seq<char>, Seq<char>)>, n: int) -> Seq<BranchMetaView>
    decreases n,
{
    if n <= 0 || n > sources.len() {
        Seq::empty()
    } else {
        let (name, text) = sources[n - 1];
        match manifest_of(text) {
            Ok(m) if follows_remote(name) => readable(sources, n - 1).push(
                BranchMetaView { name, modules: m.modules },
            ),
            _ => readable(sources, n - 1),
        }
    }
}

/// For each of the branches of `readable`, what was observed of its
/// manifest.
pub open spec fn observed(sources: Seq<(Seq<char>, Seq<char>)>, n: int) -> Seq<Seq<ObservationView>>
    decreases n,
{
    if n <= 0 || n > sources.len() {
        Seq::empty()
    } else {
        let (name, text) = sources[n - 1];
        match manifest_of(text) {
            Ok(m) if follows_remote(name) => observed(sources, n - 1).push(m.observations),
            _ => observed(sources, n - 1),
        }
    }
}

/// The views of a list of lists of observations.
pub open spec fn observations_views(notes: Seq<Vec<Observation>>) -> Seq<Seq<ObservationView>> {
    Seq::new(notes.len(), |i: int| observation_views(notes[i]@))
}

/// The remote branches among the first `n` sources whose manifest cannot
/// be read, each with the reason.
pub open spec fn unreadable(sources: Seq<(Seq<char>, Seq<char>)>, n: int) -> Seq<RejectedView>
    decreases n,
{
    if n <= 0 || n > sources.len() {
        Seq::empty()
    } else {
        let (name, text) = sources[n - 1];
        match manifest_of(text) {
            Err(error) if follows_remote(name) => unreadable(sources, n - 1).push(
                RejectedView { name, error },
            ),
            _ => unreadable(sources, n - 1),
        }
    }
}

/// The views of a list of sources.
pub open spec fn source_views(sources: Seq<(String, String)>) -> Seq<(Seq<char>, Seq<char>)> {
    Seq::new(sources.len(), |i: int| (sources[i].0@, sources[i].1@))
}

/// The views of a list of rejected branches.
pub open spec fn rejected_views(rejected: Seq<Rejected>) -> Seq<RejectedView> {
    Seq::new(rejected.len(), |i: int| rejected[i]@)
}

/// Reads the manifest of every remote branch. Each source is a branch's
/// name and the text of its manifest. Branches that are not remote are
/// passed over; a branch whose manifest cannot be read declares nothing and
/// is reported.
pub fn read_branches(sources: &Vec<(String, String)>) -> (scan: BranchScan)
    ensures
        crate::models::branch_views(scan.branches@) == readable(
            source_views(sources@),
            sources@.len() as int,
        ),
        observations_views(scan.observations@) == observed(
            source_views(sources@),
            sources@.len() as int,
        ),
        rejected_views(scan.rejected@) == unreadable(
            source_views(sources@),
            sources@.len() as int,
        ),
{
    let ghost all = source_views(sources@);
    let mut branches: Vec<BranchMeta> = Vec::new();
    let mut observations: Vec<Vec<Observation>> = Vec::new();
    let mut rejected: Vec<Rejected> = Vec::new();
    let mut i: usize = 0;
    assert(crate::models::branch_views(branches@) =~= readable(all, 0));
    assert(observations_views(observations@) =~= observed(all, 0));
    assert(rejected_views(rejected@) =~= unreadable(all, 0));
    while i < sources.len()
        invariant
            i <= sources.len(),
            all == source_views(sources@),
            crate::models::branch_views(branches@) == readable(all, i as int),
            observations_views(observations@) == observed(all, i as int),
            rejected_views(rejected@) == unreadable(all, i as int),
        decreases sources.len() - i,
    {
        assert(all[i as int] == (sources@[i as int].0@, sources@[i as int].1@));
        if is_remote_branch(sources[i].0.as_str()) {
            let ghost good = crate::models::branch_views(branches@);
            let ghost bad = rejected_views(rejected@);
            let ghost noted = observations_views(observations@);
            match read_manifest(sources[i].1.as_str()) {
                Ok(manifest) => {
                    let Manifest { modules, observations: notes } = manifest;
                    let branch = BranchMeta { name: sources[i].0.clone(), modules };
                    let ghost added = branch@;
                    branches.push(branch);
                    assert(crate::models::branch_views(branches@) =~= good.push(added));
                    let ghost seen = observation_views(notes@);
                    observations.push(notes);
                    assert(observations_views(observations@) =~= noted.push(seen));
                },
                Err(error) => {
                    let r = Rejected { name: sources[i].0.clone(), error };
                    let ghost added = r@;
                    rejected.push(r);
                    assert(rejected_views(rejected@) =~= bad.push(added));
                },
            }
        }
        i += 1;
    }
    BranchScan { branches, observations, rejected }
}

} // verus!
