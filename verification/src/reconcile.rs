//! The matrix of modules and branches, and how its cells are judged.
//!
//! For each registry module there is one row: what the registry says of
//! the module, the version that each branch declares, and the highest of
//! those versions.

use vstd::prelude::*;
use crate::forge::{
    deprecation_answer, version_answer, CacheEntryView, CacheError, CacheErrorView, ForgeApi,
};
use crate::models::{branch_views, BranchMeta, BranchMetaView, Module, ModuleView};
use crate::precedence::{
    full_order, lemma_full_dual, lemma_full_refines, lemma_full_trans, lemma_no_build_is_lowest,
    lemma_same_as_release, order, release, VersionView,
};
use crate::version::{Rank, Version};

verus! {

/// What a branch says of a module: its name and the version it declares, if
/// it declares the module at all.
pub type CellView = (Seq<char>, Option<VersionView>);

/// The version `0.0.0`.
pub open spec fn zero() -> VersionView {
    release(0, 0, 0)
}

/// The version of the first declaration of the registry module `name` in
/// `modules[i..]`.
pub open spec fn declared_from(modules: Seq<ModuleView>, name: Seq<char>, i: int) -> Option<
    VersionView,
>
    decreases modules.len() - i,
{
    if i < 0 || i >= modules.len() {
        None
    } else {
        match modules[i] {
            ModuleView::Forge(n, v) if n == name => Some(v),
            _ => declared_from(modules, name, i + 1),
        }
    }
}

/// The version that a manifest declares for the registry module `name`:
/// that of its first declaration.
pub open spec fn declared(modules: Seq<ModuleView>, name: Seq<char>) -> Option<VersionView> {
    declared_from(modules, name, 0)
}

/// One cell per branch, in the order of the branches.
pub open spec fn cells_of(branches: Seq<BranchMetaView>, name: Seq<char>) -> Seq<CellView> {
    Seq::new(branches.len(), |i: int| (branches[i].name, declared(branches[i].modules, name)))
}

/// The higher of a maximum so far and a declared version. Between two
/// versions of the same precedence the full order decides, so that the one
/// with the higher build metadata is kept.
pub open spec fn raised(max: VersionView, version: Option<VersionView>) -> VersionView {
    match version {
        Some(v) if full_order(v, max) > 0 => v,
        _ => max,
    }
}

/// The highest version among the first `n` cells, starting from `0.0.0`:
/// highest by precedence, and among those of the highest precedence the
/// highest in the full order.
pub open spec fn max_in_use(cells: Seq<CellView>, n: int) -> VersionView
    decreases n,
{
    if n <= 0 || n > cells.len() {
        zero()
    } else {
        raised(max_in_use(cells, n - 1), cells[n - 1].1)
    }
}

/// One row of the matrix.
#[derive(Debug, PartialEq, Eq)]
pub struct ModuleRow {
    /// The module's canonical name.
    pub name: String,
    /// The latest version that the registry has.
    pub forge_version: Version,
    /// Whether the registry calls the module deprecated.
    pub forge_deprecated: bool,
    /// The highest version that any branch declares; `0.0.0` where no
    /// branch declares the module or every declared version is below
    /// `0.0.0`.
    pub max_in_use_version: Version,
    /// For each branch, in the branches' order, the version it declares.
    pub branch_versions: Vec<(String, Option<Version>)>,
}

pub struct ModuleRowView {
    pub name: Seq<char>,
    pub forge_version: VersionView,
    pub forge_deprecated: bool,
    pub max_in_use_version: VersionView,
    pub branch_versions: Seq<CellView>,
}

/// The view of an optional version.
pub open spec fn version_view(v: Option<Version>) -> Option<VersionView> {
    match v {
        Some(x) => Some(x@),
        None => None,
    }
}

/// The views of a list of cells.
pub open spec fn cell_views(cells: Seq<(String, Option<Version>)>) -> Seq<CellView> {
    Seq::new(cells.len(), |i: int| (cells[i].0@, version_view(cells[i].1)))
}

impl View for ModuleRow {
    type V = ModuleRowView;

    open spec fn view(&self) -> ModuleRowView {
        ModuleRowView {
            name: self.name@,
            forge_version: self.forge_version@,
            forge_deprecated: self.forge_deprecated,
            max_in_use_version: self.max_in_use_version@,
            branch_versions: cell_views(self.branch_versions@),
        }
    }
}

/// The row of the module `name`, given what the registry says of it.
pub open spec fn row_of(
    name: Seq<char>,
    latest: VersionView,
    deprecated: bool,
    branches: Seq<BranchMetaView>,
) -> ModuleRowView {
    ModuleRowView {
        name,
        forge_version: latest,
        forge_deprecated: deprecated,
        max_in_use_version: max_in_use(cells_of(branches, name), branches.len() as int),
        branch_versions: cells_of(branches, name),
    }
}

/// How the registry's latest version stands to what is in use.
#[derive(Clone, Copy, Debug, PartialEq, Eq, Structural)]
pub enum RegistryState {
    /// The module is deprecated, whatever its versions.
    Deprecated,
    /// The registry has a version above every version in use.
    AheadOfUse,
    /// Neither.
    Nominal,
}

/// How the version that a branch declares stands to the highest in use.
#[derive(Clone, Copy, Debug, PartialEq, Eq, Structural)]
pub enum CellState {
    BehindMax,
    AboveMax,
    AtMax,
}

/// The state of the registry's entry: deprecation counts first, then
/// whether the latest version is above the highest in use.
pub open spec fn registry_state_of(latest: VersionView, deprecated: bool, max: VersionView) -> RegistryState {
    if deprecated {
        RegistryState::Deprecated
    } else if order(latest, max) > 0 {
        RegistryState::AheadOfUse
    } else {
        RegistryState::Nominal
    }
}

/// The state of a cell that holds the version `v`.
pub open spec fn cell_state_of(v: VersionView, max: VersionView) -> CellState {
    if order(v, max) < 0 {
        CellState::BehindMax
    } else if order(v, max) > 0 {
        CellState::AboveMax
    } else {
        CellState::AtMax
    }
}

/// The state of the cell `cell`: none where the branch does not declare
/// the module.
pub open spec fn state_of_cell(cell: CellView, max: VersionView) -> Option<CellState> {
    match cell.1 {
        Some(v) => Some(cell_state_of(v, max)),
        None => None,
    }
}

/// The state of the registry's entry.
pub fn registry_state(latest: &Version, deprecated: bool, max: &Version) -> (r: RegistryState)
    ensures
        r == registry_state_of(latest@, deprecated, max@),
{
    if deprecated {
        RegistryState::Deprecated
    } else {
        match latest.compare(max) {
            Rank::Higher => RegistryState::AheadOfUse,
            _ => RegistryState::Nominal,
        }
    }
}

/// The state of a cell that holds the version `v`.
pub fn cell_state(v: &Version, max: &Version) -> (r: CellState)
    ensures
        r == cell_state_of(v@, max@),
{
    match v.compare(max) {
        Rank::Lower => CellState::BehindMax,
        Rank::Higher => CellState::AboveMax,
        Rank::Same => CellState::AtMax,
    }
}

impl ModuleRow {
    /// The state of the registry's entry of this row.
    pub fn registry_state(&self) -> (r: RegistryState)
        ensures
            r == registry_state_of(
                self@.forge_version,
                self@.forge_deprecated,
                self@.max_in_use_version,
            ),
    {
        registry_state(&self.forge_version, self.forge_deprecated, &self.max_in_use_version)
    }

    /// The state of the cell of branch number `i`; none where the branch
    /// does not declare the module, or where there is no such branch.
    pub fn cell_state(&self, i: usize) -> (r: Option<CellState>)
        ensures
            r == if i < self@.branch_versions.len() {
                state_of_cell(self@.branch_versions[i as int], self@.max_in_use_version)
            } else {
                None
            },
    {
        if i < self.branch_versions.len() {
            match &self.branch_versions[i].1 {
                Some(v) => Some(cell_state(v, &self.max_in_use_version)),
                None => None,
            }
        } else {
            None
        }
    }
}

/// The version that `modules` declares for the registry module `name`.
pub fn declared_version(modules: &Vec<Module>, name: &str) -> (r: Option<Version>)
    ensures
        version_view(r) == declared(crate::models::module_views(modules@), name@),
{
    let wanted = name.to_owned();
    let ghost views = crate::models::module_views(modules@);
    let mut i: usize = 0;
    while i < modules.len()
        invariant
            i <= modules.len(),
            wanted@ == name@,
            views == crate::models::module_views(modules@),
            declared(views, name@) == declared_from(views, name@, i as int),
        decreases modules.len() - i,
    {
        assert(views[i as int] == modules@[i as int]@);
        match &modules[i] {
            Module::Forge(n, v) => {
                if *n == wanted {
                    return Some(v.clone());
                }
            },
            Module::Git(_, _) => {},
        }
        i += 1;
    }
    None
}

/// The row of the module `name`, given what the registry says of it.
pub fn reconcile_row(name: &str, latest: Version, deprecated: bool, branches: &Vec<BranchMeta>) -> (row:
    ModuleRow)
    ensures
        row@ == row_of(name@, latest@, deprecated, branch_views(branches@)),
{
    let ghost all = cells_of(branch_views(branches@), name@);
    let mut max = Version::new(0, 0, 0);
    let mut cells: Vec<(String, Option<Version>)> = Vec::new();
    let mut i: usize = 0;
    while i < branches.len()
        invariant
            i <= branches.len(),
            all == cells_of(branch_views(branches@), name@),
            cell_views(cells@) == all.subrange(0, i as int),
            max@ == max_in_use(all, i as int),
        decreases branches.len() - i,
    {
        assert(branch_views(branches@)[i as int] == branches@[i as int]@);
        let found = declared_version(&branches[i].modules, name);
        match &found {
            Some(v) => {
                match v.compare_fully(&max) {
                    Rank::Higher => {
                        max = v.clone();
                    },
                    _ => {},
                }
            },
            None => {},
        }
        let ghost before = cell_views(cells@);
        let branch = branches[i].name.clone();
        cells.push((branch, found));
        assert(cell_views(cells@) =~= before.push(all[i as int]));
        i += 1;
        assert(cell_views(cells@) =~= all.subrange(0, i as int));
    }
    assert(cell_views(cells@) =~= all);
    ModuleRow {
        name: name.to_owned(),
        forge_version: latest,
        forge_deprecated: deprecated,
        max_in_use_version: max,
        branch_versions: cells,
    }
}

/// What reconciling one module gives: its row, or the reason why the cache
/// has no answer for it.
pub open spec fn outcome_of(
    cache: Map<Seq<char>, CacheEntryView>,
    name: Seq<char>,
    branches: Seq<BranchMetaView>,
    now: u64,
) -> Result<ModuleRowView, CacheErrorView> {
    match version_answer(cache, name, now) {
        Err(e) => Err(e),
        Ok(latest) => match deprecation_answer(cache, name, now) {
            Err(e) => Err(e),
            Ok(deprecated) => Ok(row_of(name, latest, deprecated, branches)),
        },
    }
}

/// The view of what reconciling one module gave.
pub open spec fn outcome_view(r: Result<ModuleRow, CacheError>) -> Result<
    ModuleRowView,
    CacheErrorView,
> {
    match r {
        Ok(row) => Ok(row@),
        Err(e) => Err(e@),
    }
}

/// Builds the matrix: for each name, in the order given, its row, or the
/// reason why the cache has no answer for it at `now`. One module without
/// an answer does not keep the others from theirs.
pub fn reconcile(names: &Vec<String>, branches: &Vec<BranchMeta>, cache: &ForgeApi, now: u64) -> (rows:
    Vec<Result<ModuleRow, CacheError>>)
    ensures
        rows@.len() == names@.len(),
        forall|i: int|
            0 <= i < names@.len() ==> outcome_view(#[trigger] rows@[i]) == outcome_of(
                cache@,
                names@[i]@,
                branch_views(branches@),
                now,
            ),
{
    let mut rows: Vec<Result<ModuleRow, CacheError>> = Vec::new();
    let mut i: usize = 0;
    while i < names.len()
        invariant
            i <= names.len(),
            rows@.len() == i,
            forall|j: int|
                0 <= j < i ==> outcome_view(#[trigger] rows@[j]) == outcome_of(
                    cache@,
                    names@[j]@,
                    branch_views(branches@),
                    now,
                ),
        decreases names.len() - i,
    {
        let name = names[i].as_str();
        let row = match cache.get_version(name, now) {
            Err(e) => Err(e),
            Ok(latest) => match cache.is_deprecated(name, now) {
                Err(e) => Err(e),
                Ok(deprecated) => Ok(reconcile_row(name, latest, deprecated, branches)),
            },
        };
        rows.push(row);
        i += 1;
    }
    rows
}

/// `0.0.0` is not above the highest version in use.
pub proof fn lemma_zero_is_not_above(cells: Seq<CellView>, n: int)
    requires
        0 <= n <= cells.len(),
    ensures
        full_order(zero(), max_in_use(cells, n)) <= 0,
        order(zero(), max_in_use(cells, n)) <= 0,
    decreases n,
{
    lemma_full_dual(zero(), zero());
    if n > 0 {
        lemma_zero_is_not_above(cells, n - 1);
        let before = max_in_use(cells, n - 1);
        if cells[n - 1].1 is Some {
            let last = cells[n - 1].1->0;
            lemma_full_dual(last, before);
            if full_order(last, before) > 0 {
                lemma_full_trans(zero(), before, last);
            }
        }
    }
    lemma_full_refines(zero(), max_in_use(cells, n));
}

/// No declared version is above the highest version in use, neither by
/// precedence nor in the full order.
pub proof fn lemma_max_is_upper_bound(cells: Seq<CellView>, n: int, i: int)
    requires
        0 <= i < n <= cells.len(),
    ensures
        cells[i].1 matches Some(v) ==> full_order(v, max_in_use(cells, n)) <= 0 && order(
            v,
            max_in_use(cells, n),
        ) <= 0,
    decreases n,
{
    let before = max_in_use(cells, n - 1);
    let now = max_in_use(cells, n);
    lemma_full_dual(before, before);
    if cells[n - 1].1 is Some {
        let last = cells[n - 1].1->0;
        lemma_full_dual(last, before);
        lemma_full_dual(last, last);
    }
    if i < n - 1 {
        lemma_max_is_upper_bound(cells, n - 1, i);
        if cells[i].1 is Some {
            lemma_full_trans(cells[i].1->0, before, now);
        }
    }
    if cells[i].1 is Some {
        lemma_full_refines(cells[i].1->0, now);
    }
}

/// The highest version in use is `0.0.0` or one of the declared versions.
pub proof fn lemma_max_is_declared_or_zero(cells: Seq<CellView>, n: int)
    requires
        0 <= n <= cells.len(),
    ensures
        max_in_use(cells, n) == zero() || exists|i: int|
            0 <= i < n && #[trigger] cells[i].1 == Some(max_in_use(cells, n)),
    decreases n,
{
    if n > 0 {
        lemma_max_is_declared_or_zero(cells, n - 1);
        let before = max_in_use(cells, n - 1);
        if max_in_use(cells, n) == before {
            if before != zero() {
                let i = choose|i: int| 0 <= i < n - 1 && #[trigger] cells[i].1 == Some(before);
                assert(cells[i].1 == Some(max_in_use(cells, n)));
            }
        } else {
            assert(cells[n - 1].1 == Some(max_in_use(cells, n)));
        }
    }
}

/// Where no branch declares the module, the highest version in use is
/// `0.0.0`.
pub proof fn lemma_max_of_nothing_is_zero(cells: Seq<CellView>, n: int)
    requires
        0 <= n <= cells.len(),
        forall|i: int| 0 <= i < n ==> (#[trigger] cells[i]).1 is None,
    ensures
        max_in_use(cells, n) == zero(),
    decreases n,
{
    if n > 0 {
        lemma_max_of_nothing_is_zero(cells, n - 1);
    }
}

/// Where every declared version is below `0.0.0`, the highest version in
/// use is `0.0.0`.
pub proof fn lemma_max_of_less_than_zero_is_zero(cells: Seq<CellView>, n: int)
    requires
        0 <= n <= cells.len(),
        forall|i: int| 0 <= i < n ==> ((#[trigger] cells[i]).1 matches Some(v) ==> order(v, zero()) < 0),
    ensures
        max_in_use(cells, n) == zero(),
    decreases n,
{
    if n > 0 {
        lemma_max_of_less_than_zero_is_zero(cells, n - 1);
        if cells[n - 1].1 is Some {
            lemma_full_refines(cells[n - 1].1->0, zero());
        }
    }
}

/// Where some declared version is not below `0.0.0`, the highest version in
/// use is the maximum of the declared versions: it is one of them, and none
/// of them is above it, neither by precedence nor in the full order.
pub proof fn lemma_max_is_the_maximum(cells: Seq<CellView>, n: int, witness: int)
    requires
        0 <= witness < n <= cells.len(),
        cells[witness].1 matches Some(v) && order(v, zero()) >= 0,
    ensures
        exists|i: int| 0 <= i < n && #[trigger] cells[i].1 == Some(max_in_use(cells, n)),
        forall|i: int|
            0 <= i < n ==> ((#[trigger] cells[i]).1 matches Some(v) ==> full_order(
                v,
                max_in_use(cells, n),
            ) <= 0 && order(v, max_in_use(cells, n)) <= 0),
{
    let max = max_in_use(cells, n);
    assert forall|i: int| 0 <= i < n implies ((#[trigger] cells[i]).1 matches Some(v)
        ==> full_order(v, max) <= 0 && order(v, max) <= 0) by {
        lemma_max_is_upper_bound(cells, n, i);
    }
    lemma_max_is_declared_or_zero(cells, n);
    if max == zero() {
        let v = cells[witness].1->0;
        lemma_max_is_upper_bound(cells, n, witness);
        lemma_full_refines(v, zero());
        lemma_no_build_is_lowest(v.build);
        lemma_same_as_release(v, 0, 0, 0);
        assert(cells[witness].1 == Some(max));
    }
}

/// In a row built from the branches, where some branch declares a version
/// that is not below `0.0.0`, the maximum is the version of one of the
/// cells.
pub proof fn lemma_row_maximum_is_declared(
    name: Seq<char>,
    latest: VersionView,
    deprecated: bool,
    branches: Seq<BranchMetaView>,
    witness: int,
)
    requires
        0 <= witness < branches.len(),
        cells_of(branches, name)[witness].1 matches Some(v) && order(v, zero()) >= 0,
    ensures
        ({
            let row = row_of(name, latest, deprecated, branches);
            exists|i: int|
                0 <= i < row.branch_versions.len() && (#[trigger] row.branch_versions[i]).1
                    == Some(row.max_in_use_version)
        }),
{
    let cells = cells_of(branches, name);
    lemma_max_is_the_maximum(cells, branches.len() as int, witness);
    let i = choose|i: int|
        0 <= i < branches.len() && #[trigger] cells[i].1 == Some(
            max_in_use(cells, branches.len() as int),
        );
    let row = row_of(name, latest, deprecated, branches);
    assert(row.branch_versions[i].1 == Some(row.max_in_use_version));
}

/// In a row built from the branches, no cell is above the maximum.
pub proof fn lemma_no_cell_above_max(
    name: Seq<char>,
    latest: VersionView,
    deprecated: bool,
    branches: Seq<BranchMetaView>,
    i: int,
)
    requires
        0 <= i < branches.len(),
    ensures
        ({
            let row = row_of(name, latest, deprecated, branches);
            state_of_cell(row.branch_versions[i], row.max_in_use_version) != Some(
                CellState::AboveMax,
            )
        }),
{
    lemma_max_is_upper_bound(cells_of(branches, name), branches.len() as int, i);
}

} // verus!
