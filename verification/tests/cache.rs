use puppetfile_audit::forge::{CacheEntry, CacheError, ForgeApi, ForgeReply, Lookup, TTL};
use puppetfile_audit::version::{InvalidVersion, Version};

fn entry(version: &str, is_deprecated: bool, time_fetched: u64) -> CacheEntry {
    CacheEntry { version: version.to_string(), is_deprecated, time_fetched }
}

fn reply(version: &str, deprecated: bool) -> Result<ForgeReply, String> {
    Ok(ForgeReply { version: version.to_string(), deprecated })
}

#[test]
fn ttl_is_one_hour() {
    assert_eq!(TTL, 3600);
}

#[test]
fn missing_entry_asks_for_a_fetch_by_canonical_name() {
    let api = ForgeApi::new(vec![]);
    assert_eq!(api.lookup("x", 1000), Lookup::Fetch("x".to_string()));
    assert_eq!(
        api.lookup("puppetlabs/stdlib", 1000),
        Lookup::Fetch("puppetlabs-stdlib".to_string())
    );
    assert_eq!(api.get_version("x", 1000), Err(CacheError::NotFresh));
    assert_eq!(api.is_deprecated("x", 1000), Err(CacheError::NotFresh));
}

#[test]
fn fetched_entry_is_served_without_another_fetch() {
    let mut api = ForgeApi::new(vec![]);
    assert_eq!(api.lookup("x", 1000), Lookup::Fetch("x".to_string()));
    assert_eq!(api.store_fetched("x", reply("2.0.0", true), 1000), Ok(()));
    assert_eq!(api.is_deprecated("x", 1000), Ok(true));
    assert_eq!(api.lookup("x", 1000), Lookup::Fresh);
    assert_eq!(api.lookup("x", 1000 + TTL - 1), Lookup::Fresh);
    assert_eq!(api.get_version("x", 1000 + TTL - 1), Ok(Version::new(2, 0, 0)));
}

#[test]
fn entry_is_stale_from_ttl_on() {
    let api = ForgeApi::new(vec![("x".to_string(), entry("1.2.3", false, 5000))]);
    assert_eq!(api.lookup("x", 5000), Lookup::Fresh);
    assert_eq!(api.lookup("x", 5000 + 3599), Lookup::Fresh);
    assert_eq!(api.lookup("x", 5000 + 3600), Lookup::Fetch("x".to_string()));
    assert_eq!(api.lookup("x", 5000 + 3601), Lookup::Fetch("x".to_string()));
    assert_eq!(api.lookup("x", u64::MAX), Lookup::Fetch("x".to_string()));
    assert_eq!(api.get_version("x", 5000 + 3599), Ok(Version::new(1, 2, 3)));
    assert_eq!(api.get_version("x", 5000 + 3600), Err(CacheError::NotFresh));
    assert_eq!(api.is_deprecated("x", 5000 + 3599), Ok(false));
    assert_eq!(api.is_deprecated("x", 5000 + 3600), Err(CacheError::NotFresh));
}

#[test]
fn entry_from_the_future_is_fresh() {
    let api = ForgeApi::new(vec![("x".to_string(), entry("1.2.3", false, 5000))]);
    assert_eq!(api.lookup("x", 0), Lookup::Fresh);
    assert_eq!(api.lookup("x", 4999), Lookup::Fresh);
}

#[test]
fn stale_entry_is_overwritten_in_place() {
    let mut api = ForgeApi::new(vec![
        ("a".to_string(), entry("1.0.0", false, 10)),
        ("x".to_string(), entry("1.2.3", false, 10)),
        ("z".to_string(), entry("3.0.0", true, 10)),
    ]);
    let now = 10 + TTL;
    assert_eq!(api.lookup("x", now), Lookup::Fetch("x".to_string()));
    assert_eq!(api.store_fetched("x", reply("1.3.0", true), now), Ok(()));
    assert_eq!(api.lookup("x", now), Lookup::Fresh);
    assert_eq!(api.get_version("x", now), Ok(Version::new(1, 3, 0)));
    assert_eq!(api.is_deprecated("x", now), Ok(true));
    assert_eq!(
        api.store_cache(),
        vec![
            ("a".to_string(), entry("1.0.0", false, 10)),
            ("x".to_string(), entry("1.3.0", true, now)),
            ("z".to_string(), entry("3.0.0", true, 10)),
        ]
    );
    assert_eq!(api.lookup("a", now), Lookup::Fetch("a".to_string()));
}

#[test]
fn failed_fetch_is_reported_and_changes_nothing() {
    let mut api = ForgeApi::new(vec![("x".to_string(), entry("1.2.3", false, 10))]);
    assert_eq!(
        api.store_fetched("x", Err("connection refused".to_string()), 9000),
        Err(CacheError::Transport("connection refused".to_string()))
    );
    assert_eq!(api.store_cache(), vec![("x".to_string(), entry("1.2.3", false, 10))]);
    assert_eq!(api.lookup("x", 9000), Lookup::Fetch("x".to_string()));
}

#[test]
fn fetched_version_that_is_no_semver_is_refused() {
    let mut api = ForgeApi::new(vec![]);
    assert_eq!(
        api.store_fetched("x", reply("2.0", false), 1000),
        Err(CacheError::InvalidVersion("2.0".to_string()))
    );
    assert_eq!(api.store_cache(), vec![]);
    assert_eq!(api.lookup("x", 1000), Lookup::Fetch("x".to_string()));
}

#[test]
fn cached_version_that_is_no_semver_is_reported() {
    let api = ForgeApi::new(vec![("x".to_string(), entry("latest", false, 1000))]);
    assert_eq!(api.lookup("x", 1000), Lookup::Fresh);
    assert_eq!(api.get_version("x", 1000), Err(CacheError::InvalidVersion("latest".to_string())));
    assert_eq!(api.is_deprecated("x", 1000), Ok(false));
}

#[test]
fn snapshot_with_a_name_twice_keeps_the_later_entry() {
    let api = ForgeApi::new(vec![
        ("x".to_string(), entry("1.0.0", false, 1)),
        ("y".to_string(), entry("5.0.0", false, 2)),
        ("x".to_string(), entry("2.0.0", true, 3)),
    ]);
    assert_eq!(api.get_version("x", 3), Ok(Version::new(2, 0, 0)));
    assert_eq!(api.is_deprecated("x", 3), Ok(true));
    assert_eq!(
        api.store_cache(),
        vec![("x".to_string(), entry("2.0.0", true, 3)), ("y".to_string(), entry("5.0.0", false, 2))]
    );
}

#[test]
fn snapshot_goes_in_and_comes_out() {
    let snapshot = vec![
        ("puppetlabs-stdlib".to_string(), entry("8.5.0", false, 1700000000)),
        ("puppetlabs-apt".to_string(), entry("9.0.1", true, 1700000100)),
    ];
    let api = ForgeApi::new(snapshot.clone());
    assert_eq!(api.store_cache(), snapshot);
    assert_eq!(ForgeApi::new(vec![]).store_cache(), vec![]);
}

#[test]
fn names_are_kept_as_they_are_asked_for() {
    let mut api = ForgeApi::new(vec![]);
    assert_eq!(api.store_fetched("owner/name", reply("1.0.0", false), 10), Ok(()));
    assert_eq!(api.lookup("owner/name", 10), Lookup::Fresh);
    assert_eq!(api.lookup("owner-name", 10), Lookup::Fetch("owner-name".to_string()));
}

#[test]
fn parsed_reply_is_stored_as_it_was_written() {
    let mut api = ForgeApi::new(vec![("x".to_string(), entry("1.0.0", false, 5))]);
    let found = ForgeReply { version: "2.1.0".to_string(), deprecated: true };
    assert_eq!(api.store_parsed("x", found, Ok(Version::new(2, 1, 0)), 77), Ok(()));
    assert_eq!(api.store_cache(), vec![("x".to_string(), entry("2.1.0", true, 77))]);
    let found = ForgeReply { version: "3.0.0".to_string(), deprecated: false };
    assert_eq!(api.store_parsed("y", found, Ok(Version::new(3, 0, 0)), 78), Ok(()));
    assert_eq!(
        api.store_cache(),
        vec![("x".to_string(), entry("2.1.0", true, 77)), ("y".to_string(), entry("3.0.0", false, 78))]
    );
}

#[test]
fn unparsed_reply_is_refused() {
    let mut api = ForgeApi::new(vec![("x".to_string(), entry("1.0.0", false, 5))]);
    let found = ForgeReply { version: "two".to_string(), deprecated: true };
    let parsed = Err(InvalidVersion { text: "two".to_string() });
    assert_eq!(
        api.store_parsed("x", found, parsed, 77),
        Err(CacheError::InvalidVersion("two".to_string()))
    );
    assert_eq!(api.store_cache(), vec![("x".to_string(), entry("1.0.0", false, 5))]);
}
