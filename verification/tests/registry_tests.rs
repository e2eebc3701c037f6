use moldau::errors::Error;
use moldau::order::Cmp;
use moldau::range::VersionReq;
use moldau::registry::resolve_in_package;
use moldau::specifier::Spec;
use moldau::registry::{NpmPackage, NpmVersion, NpmVersionDist};
use moldau::version::parse_version;

fn mk_version(key: &str) -> NpmVersion {
    NpmVersion {
        name: String::from("pnpm"),
        version: parse_version(key).unwrap_or_else(|| parse_version("0.0.0").unwrap()),
        bin: vec![(String::from("pnpm"), String::from("bin/pnpm.cjs"))],
        dist: NpmVersionDist {
            tarball: format!("https://example.invalid/pnpm-{key}.tgz"),
            shasum: String::new(),
            integrity: None,
            signatures: vec![],
        },
    }
}

fn mk_package(keys: &[&str], tags: &[(&str, &str)]) -> NpmPackage {
    NpmPackage {
        versions: keys.iter().map(|k| (String::from(*k), mk_version(k))).collect(),
        dist_tags: tags
            .iter()
            .map(|(t, v)| (String::from(*t), String::from(*v)))
            .collect(),
    }
}

#[test]
fn range_resolution_picks_the_highest_match() {
    let p = mk_package(&["1.0.0", "1.4.2", "1.9.0", "2.0.0", "0.9.0"], &[]);
    let req = VersionReq::parse("^1.0.0").unwrap();
    let found = p.find_version_req(&req).unwrap();
    assert_eq!(found.version.render(), "1.9.0");
}

#[test]
fn range_resolution_discards_unparsable_keys() {
    let p = mk_package(&["not-a-version", "1.2.0", "garbage"], &[]);
    let req = VersionReq::parse("*").unwrap();
    let found = p.find_version_req(&req).unwrap();
    assert_eq!(found.version.render(), "1.2.0");
}

#[test]
fn range_resolution_misses_when_nothing_matches() {
    let p = mk_package(&["1.0.0", "1.4.2"], &[]);
    let req = VersionReq::parse("^2.0.0").unwrap();
    assert!(p.find_version_req(&req).is_none());
}

#[test]
fn equal_precedence_candidates_differ_only_in_build_metadata() {
    // adversarial: two keys with equal precedence, one lower extra key
    let p = mk_package(&["1.2.3+one", "1.2.3+two", "1.0.0"], &[]);
    let req = VersionReq::parse(">=1.0.0").unwrap();
    let found = p.find_version_req(&req).unwrap();
    let winner = parse_version("1.2.3").unwrap();
    assert!(matches!(found.version.cmp_precedence(&winner), Cmp::Eq));
}

#[test]
fn dist_tag_resolution_follows_the_alias() {
    let p = mk_package(&["3.4.5", "3.0.0"], &[("latest", "3.4.5"), ("next", "9.9.9")]);
    let found = p.find_dist_tag("latest").unwrap();
    assert_eq!(found.version.render(), "3.4.5");
}

#[test]
fn dist_tag_resolution_misses_on_absent_tag() {
    let p = mk_package(&["3.4.5"], &[("latest", "3.4.5")]);
    assert!(p.find_dist_tag("beta").is_none());
}

#[test]
fn dist_tag_resolution_misses_on_dangling_alias() {
    let p = mk_package(&["3.0.0"], &[("latest", "3.4.5")]);
    assert!(p.find_dist_tag("latest").is_none());
}

#[test]
fn resolution_reports_the_specifier_on_a_miss() {
    let p = mk_package(&["1.0.0"], &[("latest", "1.0.0")]);
    let spec = Spec::parse("pnpm@^2.0.0").unwrap();
    let err = resolve_in_package(&spec, &p).unwrap_err();
    assert!(matches!(err, Error::NoMatchingVersion { ref spec } if spec == "pnpm@^2.0.0"));

    let spec = Spec::parse("pnpm@beta").unwrap();
    let err = resolve_in_package(&spec, &p).unwrap_err();
    assert!(matches!(err, Error::NoMatchingVersion { ref spec } if spec == "pnpm@beta"));

    let spec = Spec::parse("pnpm@latest").unwrap();
    let found = resolve_in_package(&spec, &p).unwrap();
    assert_eq!(found.version.render(), "1.0.0");
}
