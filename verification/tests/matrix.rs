use puppetfile_audit::forge::{CacheEntry, CacheError, ForgeApi};
use puppetfile_audit::models::{BranchMeta, GitRef, GitSpec, Module};
use puppetfile_audit::reconcile::{
    cell_state, declared_version, reconcile, reconcile_row, registry_state, CellState, ModuleRow,
    RegistryState,
};
use puppetfile_audit::version::Version;

fn v(text: &str) -> Version {
    Version::parse(text).unwrap()
}

fn forge(name: &str, version: &str) -> Module {
    Module::Forge(name.to_string(), v(version))
}

fn git(name: &str) -> Module {
    Module::Git(
        name.to_string(),
        GitSpec { url: None, reference: GitRef::Head, fallback: None, link: false },
    )
}

fn branch(name: &str, modules: Vec<Module>) -> BranchMeta {
    BranchMeta { name: name.to_string(), modules }
}

fn entry(version: &str, is_deprecated: bool, time_fetched: u64) -> CacheEntry {
    CacheEntry { version: version.to_string(), is_deprecated, time_fetched }
}

#[test]
fn two_branches_one_behind() {
    let branches = vec![
        branch("origin/a", vec![forge("puppetlabs-stdlib", "8.4.0")]),
        branch("origin/b", vec![forge("puppetlabs-stdlib", "8.5.0")]),
    ];
    let row = reconcile_row("puppetlabs-stdlib", v("8.5.0"), false, &branches);
    assert_eq!(row.max_in_use_version, v("8.5.0"));
    assert_eq!(
        row.branch_versions,
        vec![("origin/a".to_string(), Some(v("8.4.0"))), ("origin/b".to_string(), Some(v("8.5.0")))]
    );
    assert_eq!(row.cell_state(0), Some(CellState::BehindMax));
    assert_eq!(row.cell_state(1), Some(CellState::AtMax));
    assert_eq!(row.cell_state(2), None);
    assert_eq!(row.registry_state(), RegistryState::Nominal);
    assert_eq!(row.name, "puppetlabs-stdlib");
    assert_eq!(row.forge_version, v("8.5.0"));
    assert!(!row.forge_deprecated);
}

#[test]
fn branch_without_the_module_has_an_empty_cell() {
    let branches = vec![
        branch("origin/a", vec![forge("x-y", "1.0.0")]),
        branch("origin/b", vec![git("site"), forge("x-z", "9.0.0")]),
        branch("origin/c", vec![]),
    ];
    let row = reconcile_row("x-y", v("2.0.0"), false, &branches);
    assert_eq!(
        row.branch_versions,
        vec![
            ("origin/a".to_string(), Some(v("1.0.0"))),
            ("origin/b".to_string(), None),
            ("origin/c".to_string(), None),
        ]
    );
    assert_eq!(row.max_in_use_version, v("1.0.0"));
    assert_eq!(row.cell_state(1), None);
    assert_eq!(row.registry_state(), RegistryState::AheadOfUse);
}

#[test]
fn module_declared_nowhere_has_the_zero_version_as_maximum() {
    let branches = vec![branch("origin/a", vec![forge("x-y", "1.0.0")]), branch("origin/b", vec![])];
    let row = reconcile_row("no-body", v("0.0.0"), false, &branches);
    assert_eq!(row.max_in_use_version, Version::new(0, 0, 0));
    assert_eq!(row.registry_state(), RegistryState::Nominal);
    let none = reconcile_row("no-body", v("1.0.0"), false, &vec![]);
    assert_eq!(none.max_in_use_version, Version::new(0, 0, 0));
    assert_eq!(none.branch_versions, vec![]);
}

#[test]
fn maximum_is_the_highest_by_precedence() {
    let branches = vec![
        branch("b1", vec![forge("x-y", "1.9.9")]),
        branch("b2", vec![forge("x-y", "1.10.0-rc.1")]),
        branch("b3", vec![forge("x-y", "1.10.0")]),
        branch("b4", vec![forge("x-y", "1.10.0+build")]),
        branch("b5", vec![forge("x-y", "1.2.30")]),
    ];
    let row = reconcile_row("x-y", v("1.10.0"), false, &branches);
    assert_eq!(row.max_in_use_version, v("1.10.0+build"));
    assert_eq!(row.registry_state(), RegistryState::Nominal);
    assert_eq!(row.cell_state(0), Some(CellState::BehindMax));
    assert_eq!(row.cell_state(1), Some(CellState::BehindMax));
    assert_eq!(row.cell_state(2), Some(CellState::AtMax));
    assert_eq!(row.cell_state(3), Some(CellState::AtMax));
    assert_eq!(row.cell_state(4), Some(CellState::BehindMax));
}

#[test]
fn pre_release_of_zero_stays_below_the_zero_version() {
    let branches = vec![branch("b1", vec![forge("x-y", "0.0.0-alpha")])];
    let row = reconcile_row("x-y", v("0.0.0-alpha"), false, &branches);
    assert_eq!(row.max_in_use_version, Version::new(0, 0, 0));
    assert_eq!(row.cell_state(0), Some(CellState::BehindMax));
}

#[test]
fn first_declaration_of_a_branch_counts() {
    let modules = vec![git("x-y"), forge("x-y", "1.0.0"), forge("x-y", "3.0.0"), forge("a-b", "7.0.0")];
    assert_eq!(declared_version(&modules, "x-y"), Some(v("1.0.0")));
    assert_eq!(declared_version(&modules, "a-b"), Some(v("7.0.0")));
    assert_eq!(declared_version(&modules, "x"), None);
    let row = reconcile_row("x-y", v("3.0.0"), false, &vec![branch("b", modules)]);
    assert_eq!(row.max_in_use_version, v("1.0.0"));
}

#[test]
fn registry_state_puts_deprecation_first() {
    assert_eq!(registry_state(&v("2.0.0"), true, &v("1.0.0")), RegistryState::Deprecated);
    assert_eq!(registry_state(&v("1.0.0"), true, &v("1.0.0")), RegistryState::Deprecated);
    assert_eq!(registry_state(&v("0.1.0"), true, &v("1.0.0")), RegistryState::Deprecated);
    assert_eq!(registry_state(&v("2.0.0"), false, &v("1.0.0")), RegistryState::AheadOfUse);
    assert_eq!(registry_state(&v("1.0.0"), false, &v("1.0.0")), RegistryState::Nominal);
    assert_eq!(registry_state(&v("0.1.0"), false, &v("1.0.0")), RegistryState::Nominal);
    assert_eq!(registry_state(&v("1.0.0+b"), false, &v("1.0.0")), RegistryState::Nominal);
}

#[test]
fn cell_state_compares_with_the_maximum() {
    assert_eq!(cell_state(&v("8.4.0"), &v("8.5.0")), CellState::BehindMax);
    assert_eq!(cell_state(&v("8.5.0"), &v("8.5.0")), CellState::AtMax);
    assert_eq!(cell_state(&v("8.6.0"), &v("8.5.0")), CellState::AboveMax);
    assert_eq!(cell_state(&v("8.5.0-rc.1"), &v("8.5.0")), CellState::BehindMax);
}

#[test]
fn row_with_a_maximum_from_elsewhere_shows_cells_above_it() {
    let row = ModuleRow {
        name: "x-y".to_string(),
        forge_version: v("3.0.0"),
        forge_deprecated: false,
        max_in_use_version: v("1.0.0"),
        branch_versions: vec![("b".to_string(), Some(v("2.0.0")))],
    };
    assert_eq!(row.cell_state(0), Some(CellState::AboveMax));
}

#[test]
fn reconcile_gives_one_outcome_per_name_in_order() {
    let branches = vec![
        branch("origin/a", vec![forge("puppetlabs-stdlib", "8.4.0"), forge("x-y", "1.0.0")]),
        branch("origin/b", vec![forge("puppetlabs-stdlib", "8.5.0")]),
    ];
    let cache = ForgeApi::new(vec![
        ("puppetlabs-stdlib".to_string(), entry("8.5.0", false, 100)),
        ("x-y".to_string(), entry("2.0.0", true, 100)),
        ("old-one".to_string(), entry("2.0.0", true, 0)),
        ("bad-one".to_string(), entry("two", false, 100)),
    ]);
    let names: Vec<String> =
        ["puppetlabs-stdlib", "x-y", "old-one", "bad-one", "no-entry"].iter().map(|n| n.to_string()).collect();
    let rows = reconcile(&names, &branches, &cache, 3600);
    assert_eq!(rows.len(), 5);
    assert_eq!(
        rows[0],
        Ok(ModuleRow {
            name: "puppetlabs-stdlib".to_string(),
            forge_version: v("8.5.0"),
            forge_deprecated: false,
            max_in_use_version: v("8.5.0"),
            branch_versions: vec![
                ("origin/a".to_string(), Some(v("8.4.0"))),
                ("origin/b".to_string(), Some(v("8.5.0"))),
            ],
        })
    );
    assert_eq!(
        rows[1],
        Ok(ModuleRow {
            name: "x-y".to_string(),
            forge_version: v("2.0.0"),
            forge_deprecated: true,
            max_in_use_version: v("1.0.0"),
            branch_versions: vec![
                ("origin/a".to_string(), Some(v("1.0.0"))),
                ("origin/b".to_string(), None),
            ],
        })
    );
    assert_eq!(rows[1].as_ref().unwrap().registry_state(), RegistryState::Deprecated);
    assert_eq!(rows[2], Err(CacheError::NotFresh));
    assert_eq!(rows[3], Err(CacheError::InvalidVersion("two".to_string())));
    assert_eq!(rows[4], Err(CacheError::NotFresh));
}

#[test]
fn reconcile_of_no_names_is_empty() {
    let cache = ForgeApi::new(vec![]);
    assert_eq!(reconcile(&vec![], &vec![], &cache, 0), vec![]);
}

#[test]
fn maximum_is_a_declared_version_where_precedence_ties() {
    let only = vec![branch("b1", vec![forge("x-y", "0.0.0+x")])];
    let row = reconcile_row("x-y", v("0.0.0"), false, &only);
    assert_eq!(row.max_in_use_version, v("0.0.0+x"));
    assert_eq!(row.cell_state(0), Some(CellState::AtMax));

    let zero = vec![branch("b1", vec![forge("x-y", "0.0.0")])];
    assert_eq!(reconcile_row("x-y", v("0.0.0"), false, &zero).max_in_use_version, v("0.0.0"));

    let later = vec![
        branch("b1", vec![forge("x-y", "1.0.0")]),
        branch("b2", vec![forge("x-y", "1.0.0+b")]),
    ];
    assert_eq!(reconcile_row("x-y", v("1.0.0"), false, &later).max_in_use_version, v("1.0.0+b"));

    let earlier = vec![
        branch("b1", vec![forge("x-y", "1.0.0+b")]),
        branch("b2", vec![forge("x-y", "1.0.0")]),
        branch("b3", vec![forge("x-y", "1.0.0+a")]),
    ];
    let row = reconcile_row("x-y", v("1.0.0"), false, &earlier);
    assert_eq!(row.max_in_use_version, v("1.0.0+b"));
    assert_eq!(row.cell_state(1), Some(CellState::AtMax));
    assert_eq!(row.cell_state(2), Some(CellState::AtMax));
}

#[test]
fn maximum_agrees_with_the_semver_crate() {
    let versions = [
        "0.0.0+x", "1.0.0-alpha", "1.0.0", "0.9.9", "1.0.0-rc.1", "1.0.0+b", "1.0.0+a",
        "1.0.1-0", "1.0.0-beta.11", "1.0.0-beta.2", "0.0.1", "1.0.1-0.a", "1.0.1-0.a+01",
        "1.0.1-0.a+1", "1.0.1-0.a+001",
    ];
    let mut from = 0;
    while from < versions.len() {
        let mut upto = from;
        while upto <= versions.len() {
            let declared = &versions[from..upto];
            let branches: Vec<BranchMeta> = declared
                .iter()
                .enumerate()
                .map(|(i, text)| branch(&format!("b{i}"), vec![forge("x-y", text)]))
                .collect();
            let row = reconcile_row("x-y", v("1.0.0"), false, &branches);
            let mut best = semver::Version::new(0, 0, 0);
            for text in declared {
                best = std::cmp::max(semver::Version::parse(text).unwrap(), best);
            }
            assert_eq!(row.max_in_use_version.to_string(), best.to_string(), "{declared:?}");
            if !declared.is_empty() {
                assert!(declared.contains(&row.max_in_use_version.to_string().as_str()));
            }
            for i in 0..declared.len() {
                assert_ne!(row.cell_state(i), Some(CellState::AboveMax));
                assert_ne!(row.cell_state(i), None);
            }
            upto += 1;
        }
        from += 1;
    }
}
