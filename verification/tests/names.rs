use puppetfile_audit::branches::{is_remote_branch, read_branches, BranchScan, Rejected};
use puppetfile_audit::models::{BranchMeta, GitRef, GitSpec, Module};
use puppetfile_audit::names::{canonical_name, forge_names};
use puppetfile_audit::puppetfile::{Anomaly, Observation, ParseError};
use puppetfile_audit::version::Version;

fn forge(name: &str) -> Module {
    Module::Forge(name.to_string(), Version::new(1, 0, 0))
}

fn git(name: &str) -> Module {
    Module::Git(
        name.to_string(),
        GitSpec { url: None, reference: GitRef::Head, fallback: None, link: false },
    )
}

fn branch(name: &str, modules: Vec<Module>) -> BranchMeta {
    BranchMeta { name: name.to_string(), modules }
}

#[test]
fn canonical_name_replaces_the_slash() {
    assert_eq!(canonical_name("puppetlabs/stdlib"), "puppetlabs-stdlib");
    assert_eq!(canonical_name("a/b/c"), "a-b-c");
    assert_eq!(canonical_name("/"), "-");
    assert_eq!(canonical_name(""), "");
}

#[test]
fn canonical_name_leaves_a_canonical_name_alone() {
    assert_eq!(canonical_name("puppetlabs-stdlib"), "puppetlabs-stdlib");
    assert_eq!(canonical_name("stdlib"), "stdlib");
    let once = canonical_name("own/er/na-me");
    assert_eq!(canonical_name(&once), once);
}

#[test]
fn forge_names_are_distinct_and_ascending() {
    let branches = vec![
        branch("origin/main", vec![forge("puppetlabs-stdlib"), git("site"), forge("puppetlabs-apt")]),
        branch("origin/dev", vec![forge("puppetlabs-stdlib"), forge("a-b"), forge("puppet-nginx")]),
        branch("origin/old", vec![]),
        branch("origin/x", vec![forge("Zed-z"), forge("a-b"), forge("a-"), forge("a-bc")]),
    ];
    assert_eq!(
        forge_names(&branches),
        vec!["Zed-z", "a-", "a-b", "a-bc", "puppet-nginx", "puppetlabs-apt", "puppetlabs-stdlib"]
    );
}

#[test]
fn forge_names_follow_the_order_of_strings() {
    let names = ["b-é", "b-z", "b-", "B-a", "a-𝄞", "a-\u{ffff}", "a-b", "", "-"];
    let branches = vec![branch("origin/main", names.iter().map(|n| forge(n)).collect())];
    let mut sorted: Vec<String> = names.iter().map(|n| n.to_string()).collect();
    sorted.sort();
    assert_eq!(forge_names(&branches), sorted);
}

#[test]
fn forge_names_of_nothing_are_none() {
    assert_eq!(forge_names(&vec![]), Vec::<String>::new());
    assert_eq!(forge_names(&vec![branch("origin/main", vec![git("site")])]), Vec::<String>::new());
}

#[test]
fn remote_branches_start_with_origin() {
    assert!(is_remote_branch("origin/main"));
    assert!(is_remote_branch("origin"));
    assert!(is_remote_branch("originals"));
    assert!(!is_remote_branch("upstream/main"));
    assert!(!is_remote_branch("Origin/main"));
    assert!(!is_remote_branch("origi"));
    assert!(!is_remote_branch(""));
    assert!(!is_remote_branch(" origin/main"));
}

#[test]
fn read_branches_parses_each_remote_branch() {
    let sources = vec![
        ("origin/main".to_string(), "mod 'puppetlabs/stdlib', '8.5.0'\n".to_string()),
        ("upstream/main".to_string(), "mod 'a-b', '1.0.0'\n".to_string()),
        ("origin/dev".to_string(), "mod 'site',\nwhat\n".to_string()),
    ];
    assert_eq!(
        read_branches(&sources),
        BranchScan {
            branches: vec![
                branch(
                    "origin/main",
                    vec![Module::Forge("puppetlabs-stdlib".to_string(), Version::new(8, 5, 0))]
                ),
                branch("origin/dev", vec![git("site")]),
            ],
            observations: vec![vec![], vec![Observation { line: 2, anomaly: Anomaly::Unmatched }]],
            rejected: vec![],
        }
    );
}

#[test]
fn malformed_branch_is_reported_and_declares_nothing() {
    let sources = vec![
        ("origin/bad".to_string(), "mod 'x-y', '1.0.0'\nmod \"a\", \"not-a-version\"\n".to_string()),
        ("origin/good".to_string(), "mod 'x-y', '1.0.0'\n".to_string()),
    ];
    let scan = read_branches(&sources);
    assert_eq!(
        scan.rejected,
        vec![Rejected {
            name: "origin/bad".to_string(),
            error: ParseError { line: 2, version: "not-a-version".to_string() },
        }]
    );
    assert_eq!(
        scan.branches,
        vec![branch("origin/good", vec![Module::Forge("x-y".to_string(), Version::new(1, 0, 0))])]
    );
    assert_eq!(scan.observations, vec![vec![]]);
    assert_eq!(forge_names(&scan.branches), vec!["x-y"]);
}
