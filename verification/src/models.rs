//! What a manifest declares: modules from the registry and modules from
//! source control.

use vstd::prelude::*;
use crate::precedence::VersionView;
use crate::version::Version;

verus! {

/// How the revision of a source-controlled module is chosen.
#[derive(Debug, Clone, PartialEq, Eq)]
pub enum GitRef {
    /// The newest commit of the default branch.
    Head,
    /// A commit, by its hash.
    Commit(String),
    /// The commit that a tag points to.
    Tag(String),
    /// The newest commit of a branch.
    Branch(String),
}

pub enum GitRefView {
    Head,
    Commit(Seq<char>),
    Tag(Seq<char>),
    Branch(Seq<char>),
}

impl View for GitRef {
    type V = GitRefView;

    open spec fn view(&self) -> GitRefView {
        match self {
            GitRef::Head => GitRefView::Head,
            GitRef::Commit(s) => GitRefView::Commit(s@),
            GitRef::Tag(s) => GitRefView::Tag(s@),
            GitRef::Branch(s) => GitRefView::Branch(s@),
        }
    }
}

/// Where a source-controlled module comes from and how it is checked out.
#[derive(Debug, Clone, PartialEq, Eq)]
pub struct GitSpec {
    /// Address of the repository.
    pub url: Option<String>,
    /// Which revision to take.
    pub reference: GitRef,
    /// Branch to fall back to where `reference` names a branch.
    pub fallback: Option<String>,
    /// Whether branches are linked.
    pub link: bool,
}

pub struct GitSpecView {
    pub url: Option<Seq<char>>,
    pub reference: GitRefView,
    pub fallback: Option<Seq<char>>,
    pub link: bool,
}

/// The view of an optional string.
pub open spec fn option_view(s: Option<String>) -> Option<Seq<char>> {
    match s {
        Some(t) => Some(t@),
        None => None,
    }
}

impl View for GitSpec {
    type V = GitSpecView;

    open spec fn view(&self) -> GitSpecView {
        GitSpecView {
            url: option_view(self.url),
            reference: self.reference@,
            fallback: option_view(self.fallback),
            link: self.link,
        }
    }
}

/// The specification that a module has before any attribute is read.
pub open spec fn default_spec() -> GitSpecView {
    GitSpecView { url: None, reference: GitRefView::Head, fallback: None, link: false }
}

/// One declaration of a manifest.
#[derive(Debug, Clone, PartialEq, Eq)]
pub enum Module {
    /// A module of the registry: canonical name and version.
    Forge(String, Version),
    /// A module under source control: name and where to get it.
    Git(String, GitSpec),
}

pub enum ModuleView {
    Forge(Seq<char>, VersionView),
    Git(Seq<char>, GitSpecView),
}

impl View for Module {
    type V = ModuleView;

    open spec fn view(&self) -> ModuleView {
        match self {
            Module::Forge(name, version) => ModuleView::Forge(name@, version@),
            Module::Git(name, spec) => ModuleView::Git(name@, spec@),
        }
    }
}

/// The views of a list of modules.
pub open spec fn module_views(modules: Seq<Module>) -> Seq<ModuleView> {
    Seq::new(modules.len(), |i: int| modules[i]@)
}

/// A branch and the declarations of its manifest, in the manifest's order.
#[derive(Debug, Clone, PartialEq, Eq)]
pub struct BranchMeta {
    pub name: String,
    pub modules: Vec<Module>,
}

pub struct BranchMetaView {
    pub name: Seq<char>,
    pub modules: Seq<ModuleView>,
}

impl View for BranchMeta {
    type V = BranchMetaView;

    open spec fn view(&self) -> BranchMetaView {
        BranchMetaView { name: self.name@, modules: module_views(self.modules@) }
    }
}

/// The views of a list of branches.
pub open spec fn branch_views(branches: Seq<BranchMeta>) -> Seq<BranchMetaView> {
    Seq::new(branches.len(), |i: int| branches[i]@)
}

} // verus!
