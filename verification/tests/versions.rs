use puppetfile_audit::version::{InvalidVersion, Rank, Version};
use std::cmp::Ordering;

fn v(text: &str) -> Version {
    Version::parse(text).unwrap()
}

fn rank(o: Ordering) -> Rank {
    match o {
        Ordering::Less => Rank::Lower,
        Ordering::Equal => Rank::Same,
        Ordering::Greater => Rank::Higher,
    }
}

const SAMPLES: [&str; 56] = [
    "0.0.0",
    "0.0.0-alpha",
    "0.0.0+build",
    "0.0.1",
    "0.1.0",
    "1.0.0",
    "1.0.0-alpha",
    "1.0.0-alpha.1",
    "1.0.0-alpha.beta",
    "1.0.0-beta",
    "1.0.0-beta.2",
    "1.0.0-beta.11",
    "1.0.0-rc.1",
    "1.0.0-rc.1+build.5",
    "1.0.0+20130313144700",
    "1.0.0-0",
    "1.0.0-1",
    "1.0.0-9",
    "1.0.0-10",
    "1.0.0-99999999999999999999999",
    "1.0.0-100000000000000000000000",
    "1.0.0-a",
    "1.0.0-A",
    "1.0.0-a-",
    "1.0.0--",
    "1.0.0-a.b.c",
    "1.0.0-a.b",
    "1.0.0-a.1",
    "1.0.0-a.1a",
    "1.0.0-pre12",
    "1.0.0-pre8",
    "1.0.0-x.7.z.92",
    "1.2.3",
    "1.10.0",
    "1.9.9",
    "2.0.0",
    "8.4.0",
    "8.5.0",
    "10.20.30-alpha.7+build.5",
    "18446744073709551615.18446744073709551615.18446744073709551615",
    "1.0.0+0",
    "1.0.0+00",
    "1.0.0+1",
    "1.0.0+01",
    "1.0.0+001",
    "1.0.0+2",
    "1.0.0+02",
    "1.0.0+10",
    "1.0.0+a",
    "1.0.0+a.b",
    "1.0.0+a.1",
    "1.0.0+1.a",
    "1.0.0+-",
    "1.0.0+0a",
    "1.0.0-rc.1+build.05",
    "0.0.0+0",
];

#[test]
fn parse_reads_the_three_numbers() {
    let version = v("8.5.0");
    assert_eq!((version.major, version.minor, version.patch), (8, 5, 0));
    assert_eq!(version.pre, "");
    assert_eq!(version.build, "");
    assert_eq!(version, Version::new(8, 5, 0));
}

#[test]
fn parse_reads_pre_release_and_build() {
    let version = v("10.20.30-alpha.7+build.5");
    assert_eq!((version.major, version.minor, version.patch), (10, 20, 30));
    assert_eq!(version.pre, "alpha.7");
    assert_eq!(version.build, "build.5");
}

#[test]
fn parse_rejects_what_is_no_version() {
    for text in ["", "1", "1.0", "1.0.01", "1.0.unknown", "1.0.0-", "1.0.0+", "1.0.0-alpha_123",
        "23456789999999999999.0.0", " 1.0.0", "1.0.0 ", "not-a-version", "v1.0.0", "1.0.0-01"]
    {
        assert_eq!(Version::parse(text), Err(InvalidVersion { text: text.to_string() }), "{text:?}");
    }
}

#[test]
fn to_string_prints_the_canonical_text() {
    assert_eq!(Version::new(0, 0, 0).to_string(), "0.0.0");
    assert_eq!(Version::new(8, 5, 0).to_string(), "8.5.0");
    assert_eq!(Version::new(10, 209, 3000).to_string(), "10.209.3000");
    assert_eq!(
        Version::new(u64::MAX, 0, 9).to_string(),
        "18446744073709551615.0.9"
    );
    let with_pre =
        Version { major: 1, minor: 2, patch: 3, pre: "rc.1".to_string(), build: String::new() };
    assert_eq!(with_pre.to_string(), "1.2.3-rc.1");
    let with_build =
        Version { major: 1, minor: 2, patch: 3, pre: String::new(), build: "b7".to_string() };
    assert_eq!(with_build.to_string(), "1.2.3+b7");
}

#[test]
fn printing_a_parsed_version_gives_back_the_text() {
    for text in SAMPLES {
        assert_eq!(v(text).to_string(), text);
        assert_eq!(v(&v(text).to_string()), v(text));
        assert_eq!(v(text).to_string(), semver::Version::parse(text).unwrap().to_string());
    }
}

#[test]
fn precedence_chain_of_pre_releases() {
    let chain = [
        "1.0.0-alpha",
        "1.0.0-alpha.1",
        "1.0.0-alpha.beta",
        "1.0.0-beta",
        "1.0.0-beta.2",
        "1.0.0-beta.11",
        "1.0.0-rc.1",
        "1.0.0",
    ];
    for i in 0..chain.len() {
        for j in 0..chain.len() {
            assert_eq!(v(chain[i]).compare(&v(chain[j])), rank(i.cmp(&j)), "{} {}", chain[i], chain[j]);
        }
    }
}

#[test]
fn numbers_are_compared_by_value() {
    assert_eq!(v("1.9.9").compare(&v("1.10.0")), Rank::Lower);
    assert_eq!(v("8.5.0").compare(&v("8.4.0")), Rank::Higher);
    assert_eq!(v("2.0.0").compare(&v("10.0.0")), Rank::Lower);
    assert_eq!(v("1.0.0-9").compare(&v("1.0.0-10")), Rank::Lower);
    assert_eq!(v("1.0.0-pre12").compare(&v("1.0.0-pre8")), Rank::Lower);
    assert_eq!(v("1.0.0-1").compare(&v("1.0.0-a")), Rank::Lower);
}

#[test]
fn build_metadata_takes_no_part_in_precedence() {
    assert_eq!(v("1.0.0+a").compare(&v("1.0.0+b")), Rank::Same);
    assert_eq!(v("1.0.0+a").compare(&v("1.0.0")), Rank::Same);
    assert_eq!(v("1.0.0-rc.1+x").compare(&v("1.0.0-rc.1")), Rank::Same);
}

#[test]
fn precedence_agrees_with_the_semver_crate() {
    for a in SAMPLES {
        for b in SAMPLES {
            let theirs = semver::Version::parse(a).unwrap().cmp_precedence(&semver::Version::parse(b).unwrap());
            assert_eq!(v(a).compare(&v(b)), rank(theirs), "{a} {b}");
        }
    }
}

#[test]
fn precedence_is_a_total_order_on_the_samples() {
    for a in SAMPLES {
        assert_eq!(v(a).compare(&v(a)), Rank::Same);
        for b in SAMPLES {
            let ab = v(a).compare(&v(b));
            let ba = v(b).compare(&v(a));
            match ab {
                Rank::Lower => assert_eq!(ba, Rank::Higher),
                Rank::Same => assert_eq!(ba, Rank::Same),
                Rank::Higher => assert_eq!(ba, Rank::Lower),
            }
            for c in SAMPLES {
                if ab != Rank::Higher && v(b).compare(&v(c)) != Rank::Higher {
                    assert_ne!(v(a).compare(&v(c)), Rank::Higher, "{a} {b} {c}");
                }
            }
        }
    }
}

#[test]
fn clone_keeps_every_field() {
    let version = v("10.20.30-alpha.7+build.5");
    assert_eq!(version.clone(), version);
}

#[test]
fn full_order_agrees_with_the_semver_crate() {
    for a in SAMPLES {
        for b in SAMPLES {
            let theirs = semver::Version::parse(a).unwrap().cmp(&semver::Version::parse(b).unwrap());
            assert_eq!(v(a).compare_fully(&v(b)), rank(theirs), "{a} {b}");
        }
    }
}

#[test]
fn full_order_decides_between_versions_of_one_precedence() {
    assert_eq!(v("1.0.0").compare_fully(&v("1.0.0+b")), Rank::Lower);
    assert_eq!(v("0.0.0+x").compare_fully(&v("0.0.0")), Rank::Higher);
    assert_eq!(v("1.0.0+1").compare_fully(&v("1.0.0+01")), Rank::Lower);
    assert_eq!(v("1.0.0+01").compare_fully(&v("1.0.0+2")), Rank::Lower);
    assert_eq!(v("1.0.0+9").compare_fully(&v("1.0.0+a")), Rank::Lower);
    assert_eq!(v("1.0.0+a").compare_fully(&v("1.0.0+a.b")), Rank::Lower);
    assert_eq!(v("1.0.0+a").compare_fully(&v("1.0.0+a")), Rank::Same);
    assert_eq!(v("1.0.0-rc.1+z").compare_fully(&v("1.0.0+a")), Rank::Lower);
    assert_eq!(v("2.0.0").compare_fully(&v("1.0.0+z")), Rank::Higher);
}

#[test]
fn full_order_is_a_total_order_on_the_samples() {
    for a in SAMPLES {
        for b in SAMPLES {
            let ab = v(a).compare_fully(&v(b));
            assert_eq!(ab == Rank::Same, a == b, "{a} {b}");
            let ba = v(b).compare_fully(&v(a));
            match ab {
                Rank::Lower => assert_eq!(ba, Rank::Higher),
                Rank::Same => assert_eq!(ba, Rank::Same),
                Rank::Higher => assert_eq!(ba, Rank::Lower),
            }
            for c in SAMPLES {
                if ab != Rank::Higher && v(b).compare_fully(&v(c)) != Rank::Higher {
                    assert_ne!(v(a).compare_fully(&v(c)), Rank::Higher, "{a} {b} {c}");
                }
            }
        }
    }
}
