use moldau::order::Cmp;
use moldau::range::VersionReq;
use moldau::version::parse_version;

#[test]
fn versions_parse_and_render() {
    let v = parse_version("1.2.3").unwrap();
    assert_eq!(v.major, 1);
    assert_eq!(v.minor, 2);
    assert_eq!(v.patch, 3);
    assert_eq!(v.render(), "1.2.3");

    let v = parse_version("10.0.1-alpha.1+build.5").unwrap();
    assert_eq!(v.render(), "10.0.1-alpha.1+build.5");
    assert_eq!(v.render_no_build(), "10.0.1-alpha.1");
}

#[test]
fn invalid_versions_are_rejected() {
    assert!(parse_version("").is_none());
    assert!(parse_version("1").is_none());
    assert!(parse_version("1.2").is_none());
    assert!(parse_version("01.2.3").is_none());
    assert!(parse_version("1.02.3").is_none());
    assert!(parse_version("1.2.3.4").is_none());
    assert!(parse_version("v1.2.3").is_none());
    assert!(parse_version("1.2.3-").is_none());
    assert!(parse_version("1.2.3-a..b").is_none());
    assert!(parse_version("1.2.3-01").is_none());
    assert!(parse_version("1.2.3+").is_none());
    assert!(parse_version("1.2.3 ").is_none());
    assert!(parse_version("18446744073709551616.0.0").is_none());
}

#[test]
fn numeric_bounds_parse() {
    let v = parse_version("18446744073709551615.0.0").unwrap();
    assert_eq!(v.major, u64::MAX);
}

#[test]
fn precedence_follows_the_ordering_rules() {
    let order = [
        "1.0.0-alpha",
        "1.0.0-alpha.1",
        "1.0.0-alpha.beta",
        "1.0.0-beta",
        "1.0.0-beta.2",
        "1.0.0-beta.11",
        "1.0.0-rc.1",
        "1.0.0",
        "2.0.0",
        "2.1.0",
        "2.1.1",
    ];
    let mut i = 0;
    while i + 1 < order.len() {
        let a = parse_version(order[i]).unwrap();
        let b = parse_version(order[i + 1]).unwrap();
        assert!(matches!(a.cmp_precedence(&b), Cmp::Lt), "{} < {}", order[i], order[i + 1]);
        assert!(matches!(b.cmp_precedence(&a), Cmp::Gt));
        i += 1;
    }
}

#[test]
fn build_metadata_is_ignored_in_precedence() {
    let a = parse_version("1.2.3+aaa").unwrap();
    let b = parse_version("1.2.3+zzz").unwrap();
    assert!(matches!(a.cmp_precedence(&b), Cmp::Eq));
}

#[test]
fn caret_requirements_match() {
    let r = VersionReq::parse("^1.2.3").unwrap();
    assert!(r.matches_version(&parse_version("1.2.3").unwrap()));
    assert!(r.matches_version(&parse_version("1.9.0").unwrap()));
    assert!(!r.matches_version(&parse_version("2.0.0").unwrap()));
    assert!(!r.matches_version(&parse_version("1.2.2").unwrap()));

    let r = VersionReq::parse("^0.2.3").unwrap();
    assert!(r.matches_version(&parse_version("0.2.9").unwrap()));
    assert!(!r.matches_version(&parse_version("0.3.0").unwrap()));

    let r = VersionReq::parse("^0.0.3").unwrap();
    assert!(r.matches_version(&parse_version("0.0.3").unwrap()));
    assert!(!r.matches_version(&parse_version("0.0.4").unwrap()));
}

#[test]
fn tilde_requirements_match() {
    let r = VersionReq::parse("~1.2.3").unwrap();
    assert!(r.matches_version(&parse_version("1.2.9").unwrap()));
    assert!(!r.matches_version(&parse_version("1.3.0").unwrap()));

    let r = VersionReq::parse("~1.2").unwrap();
    assert!(r.matches_version(&parse_version("1.2.0").unwrap()));
    assert!(!r.matches_version(&parse_version("1.3.0").unwrap()));
}

#[test]
fn comparator_lists_match() {
    let r = VersionReq::parse(">=1.0.0, <2").unwrap();
    assert!(r.matches_version(&parse_version("1.5.0").unwrap()));
    assert!(!r.matches_version(&parse_version("2.0.0").unwrap()));
    assert!(!r.matches_version(&parse_version("0.9.9").unwrap()));
    assert_eq!(r.render(), ">=1.0.0, <2");
}

#[test]
fn wildcard_requirements_match() {
    let r = VersionReq::parse("*").unwrap();
    assert!(r.matches_version(&parse_version("5.0.0").unwrap()));
    assert!(!r.matches_version(&parse_version("5.0.0-rc.1").unwrap()));
    assert_eq!(r.render(), "*");

    let r = VersionReq::parse("1.x").unwrap();
    assert!(r.matches_version(&parse_version("1.7.0").unwrap()));
    assert!(!r.matches_version(&parse_version("2.0.0").unwrap()));
    assert_eq!(r.render(), "1.*");

    let r = VersionReq::parse("1.2.*").unwrap();
    assert!(r.matches_version(&parse_version("1.2.7").unwrap()));
    assert!(!r.matches_version(&parse_version("1.3.0").unwrap()));
}

#[test]
fn prereleases_need_a_prerelease_comparator_on_the_same_triple() {
    let r = VersionReq::parse("^1.2.3-alpha").unwrap();
    assert!(r.matches_version(&parse_version("1.2.3-beta").unwrap()));
    assert!(r.matches_version(&parse_version("1.2.3").unwrap()));
    assert!(!r.matches_version(&parse_version("1.2.4-beta").unwrap()));
    assert!(r.matches_version(&parse_version("1.2.4").unwrap()));
}

#[test]
fn invalid_requirements_are_rejected() {
    assert!(VersionReq::parse("").is_none());
    assert!(VersionReq::parse("hello").is_none());
    assert!(VersionReq::parse(">=").is_none());
    assert!(VersionReq::parse("1.*.3").is_none());
    assert!(VersionReq::parse("* , 1.2").is_none());
}

#[test]
fn requirements_tolerate_spaces() {
    let r = VersionReq::parse("  >= 1.2.3 ,  <2 ").unwrap();
    assert!(r.matches_version(&parse_version("1.2.3").unwrap()));
    assert!(!r.matches_version(&parse_version("2.0.0").unwrap()));
    let r = VersionReq::parse(" * ").unwrap();
    assert_eq!(r.render(), "*");
}
