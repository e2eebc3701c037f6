use moldau::specifier::{Spec, SpecBin, SpecName, SpecVersion};

#[test]
fn parse_exact_round_trips() {
    let spec = Spec::parse("npm@10.2.4").unwrap();
    assert!(matches!(spec.name, SpecName::Npm));
    assert!(spec.version.is_exact());
    assert_eq!(spec.render(false), "npm@10.2.4");
    assert_eq!(spec.render(true), "npm@10.2.4");
}

#[test]
fn parse_exact_with_build_round_trips() {
    let s = "yarn@1.22.19+sha512.deadbeef";
    let spec = Spec::parse(s).unwrap();
    assert!(spec.version.is_exact());
    assert_eq!(spec.render(false), s);
    // the alternate form strips only the build metadata
    assert_eq!(spec.render(true), "yarn@1.22.19");
}

#[test]
fn parse_exact_with_prerelease_round_trips() {
    let s = "pnpm@9.0.0-rc.2";
    let spec = Spec::parse(s).unwrap();
    assert!(spec.version.is_exact());
    assert_eq!(spec.render(false), s);
    assert_eq!(spec.render(true), s);
}

#[test]
fn parse_range_selector() {
    let spec = Spec::parse("pnpm@^8.1.0").unwrap();
    assert!(matches!(spec.version, SpecVersion::SemverReq(_)));
    assert_eq!(spec.render(false), "pnpm@^8.1.0");
}

#[test]
fn parse_dist_tag_selector() {
    let spec = Spec::parse("yarn@latest").unwrap();
    assert!(spec.version.is_dist_tag());
    assert_eq!(spec.render(false), "yarn@latest");
}

#[test]
fn missing_selector_means_any_version() {
    let spec = Spec::parse("npm").unwrap();
    assert!(matches!(spec.version, SpecVersion::SemverReq(_)));
    assert_eq!(spec.render(false), "npm@*");
}

#[test]
fn unknown_name_is_rejected() {
    assert!(Spec::parse("bun@1.0.0").is_err());
    assert!(Spec::parse("@yarnpkg/cli-dist@4.0.0").is_err());
    assert!(Spec::parse("").is_err());
}

#[test]
fn exact_wins_over_range_and_tag() {
    // a literal version is preferred as exact even though it would also be a
    // valid range
    let spec = Spec::parse("npm@1.2.3").unwrap();
    assert!(spec.version.is_exact());
    // a range that is not a version stays a range, not a tag
    let spec = Spec::parse("npm@1.2").unwrap();
    assert!(matches!(spec.version, SpecVersion::SemverReq(_)));
    // leading zeros make the literal invalid as both, so it is a tag
    let spec = Spec::parse("npm@01.2.3").unwrap();
    assert!(spec.version.is_dist_tag());
}

#[test]
fn package_name_for_plain_tools() {
    assert_eq!(Spec::parse("npm@9.0.0").unwrap().to_npm_package_name(), "npm");
    assert_eq!(Spec::parse("pnpm@8.0.0").unwrap().to_npm_package_name(), "pnpm");
}

#[test]
fn package_name_for_classic_yarn() {
    assert_eq!(Spec::parse("yarn@1.22.19").unwrap().to_npm_package_name(), "yarn");
    assert_eq!(Spec::parse("yarn@^1.0.0").unwrap().to_npm_package_name(), "yarn");
    assert_eq!(Spec::parse("yarn@<2.0.0").unwrap().to_npm_package_name(), "yarn");
    assert_eq!(Spec::parse("yarn@<2.0").unwrap().to_npm_package_name(), "yarn");
    assert_eq!(Spec::parse("yarn@<2").unwrap().to_npm_package_name(), "yarn");
    assert_eq!(Spec::parse("yarn@~1.22").unwrap().to_npm_package_name(), "yarn");
}

#[test]
fn package_name_for_modern_yarn() {
    assert_eq!(Spec::parse("yarn@2.4.3").unwrap().to_npm_package_name(), "@yarnpkg/cli-dist");
    assert_eq!(Spec::parse("yarn@^4.0.0").unwrap().to_npm_package_name(), "@yarnpkg/cli-dist");
    assert_eq!(Spec::parse("yarn@>2.0.0").unwrap().to_npm_package_name(), "@yarnpkg/cli-dist");
    assert_eq!(Spec::parse("yarn@latest").unwrap().to_npm_package_name(), "@yarnpkg/cli-dist");
}

#[test]
fn tool_names_parse_and_render() {
    assert!(matches!(SpecName::parse("npm"), Some(SpecName::Npm)));
    assert!(matches!(SpecName::parse("yarn"), Some(SpecName::Yarn)));
    assert!(matches!(SpecName::parse("pnpm"), Some(SpecName::Pnpm)));
    assert!(SpecName::parse("Yarn").is_none());
    assert_eq!(SpecName::Yarn.render(), "yarn");
    assert_eq!(SpecName::variants().len(), 3);
}

#[test]
fn bins_parse_and_map_to_tools() {
    assert!(matches!(SpecBin::parse("npx"), Some(SpecBin::Npx)));
    assert!(matches!(SpecBin::parse("yarnpkg"), Some(SpecBin::Yarnpkg)));
    assert!(SpecBin::parse("cargo").is_none());
    assert!(matches!(SpecBin::Npx.to_name(), SpecName::Npm));
    assert!(matches!(SpecBin::Yarnpkg.to_name(), SpecName::Yarn));
    assert!(matches!(SpecBin::Pnpx.to_name(), SpecName::Pnpm));
    assert_eq!(SpecBin::variants().len(), 6);
    assert_eq!(SpecBin::Pnpx.render(), "pnpx");
}
