use moldau::package_json::{DevEngines, DevEnginesPackageManager, PackageJson};
use moldau::policy::{
    detect_eol, detect_indent, exec_decision, manifest_edit, resolved_spec, ExecDecision,
    ManifestEdit,
};
use moldau::integrity::SpecVersionIntegrity;
use moldau::signature::RegistryConfig;
use moldau::specifier::{Spec, SpecBin, SpecName, SpecVersion};
use moldau::urls::{package_url, version_url};
use moldau::version::parse_version;
use sha2::Digest as _;

#[test]
fn indentation_is_taken_from_the_first_indented_line() {
    assert_eq!(detect_indent(Some("{\n    \"a\": 1\n}")), "    ");
    assert_eq!(detect_indent(Some("{\n\t\"a\": 1\n}")), "\t");
    assert_eq!(detect_indent(Some("{}\n")), "  ");
    assert_eq!(detect_indent(Some("")), "  ");
    assert_eq!(detect_indent(None), "  ");
    // a windows line ending does not count as indentation
    assert_eq!(detect_indent(Some("{\r\n  \"a\": 1\r\n}")), "  ");
}

#[test]
fn line_endings_are_preserved() {
    assert_eq!(detect_eol(Some("a\r\nb")), "\r\n");
    assert_eq!(detect_eol(Some("a\nb")), "\n");
    assert_eq!(detect_eol(Some("")), "\n");
    assert_eq!(detect_eol(None), "\n");
}

#[test]
fn the_project_tool_runs_as_configured() {
    let project = Spec::parse("pnpm@8.6.0").unwrap();
    let r = exec_decision(SpecBin::Pnpm, None, Some(project.clone()), false);
    assert!(matches!(r, ExecDecision::Run(sp) if sp == project));
}

#[test]
fn without_a_project_spec_the_invoked_tool_runs() {
    let r = exec_decision(SpecBin::Yarn, None, None, false);
    match r {
        ExecDecision::Run(sp) => {
            assert!(matches!(sp.name, SpecName::Yarn));
            assert_eq!(sp.render(false), "yarn@*");
        },
        ExecDecision::Refuse => panic!("expected a run decision"),
    }
}

#[test]
fn a_different_tool_is_refused_under_strictness() {
    let project = Spec::parse("pnpm@8.6.0").unwrap();
    let r = exec_decision(SpecBin::Yarn, None, Some(project), false);
    assert!(matches!(r, ExecDecision::Refuse));
}

#[test]
fn transparent_invocations_run_anyway() {
    let project = Spec::parse("pnpm@8.6.0").unwrap();
    // the bundled tool and one-off runners are always transparent
    assert!(matches!(
        exec_decision(SpecBin::Npm, None, Some(project.clone()), false),
        ExecDecision::Run(_)
    ));
    assert!(matches!(
        exec_decision(SpecBin::Npx, None, Some(project.clone()), false),
        ExecDecision::Run(_)
    ));
    assert!(matches!(
        exec_decision(SpecBin::Pnpx, None, Some(Spec::parse("yarn@3.0.0").unwrap()), false),
        ExecDecision::Run(_)
    ));
    // project initialization is transparent
    let init = String::from("init");
    assert!(matches!(
        exec_decision(SpecBin::Yarn, Some(&init), Some(project.clone()), false),
        ExecDecision::Run(sp) if matches!(sp.name, SpecName::Yarn)
    ));
    // one-off execution via dlx is transparent for the tools that have it
    let dlx = String::from("dlx");
    assert!(matches!(
        exec_decision(SpecBin::Pnpm, Some(&dlx), Some(Spec::parse("yarn@3.0.0").unwrap()), false),
        ExecDecision::Run(_)
    ));
    // but an ordinary subcommand is not
    let install = String::from("install");
    assert!(matches!(
        exec_decision(SpecBin::Yarn, Some(&install), Some(project.clone()), false),
        ExecDecision::Refuse
    ));
    // unless strictness is disabled
    assert!(matches!(
        exec_decision(SpecBin::Yarn, Some(&install), Some(project), true),
        ExecDecision::Run(_)
    ));
}

#[test]
fn manifest_edits_fill_whichever_form_exists() {
    let spec = Spec::parse("pnpm@8.6.0").unwrap();
    match manifest_edit(&spec, true) {
        ManifestEdit::SetDevEngines { name, version } => {
            assert_eq!(name, "pnpm");
            assert_eq!(version, "8.6.0");
        },
        _ => panic!("expected the explicit pair"),
    }
    match manifest_edit(&spec, false) {
        ManifestEdit::SetPackageManager { value } => {
            assert_eq!(value, "pnpm@8.6.0");
        },
        _ => panic!("expected the single string"),
    }
}

#[test]
fn resolving_pins_the_integrity_into_the_build_metadata() {
    let digest = sha2::Sha512::digest(b"the executable").to_vec();
    let mut hex = String::new();
    for b in &digest {
        hex.push(char::from_digit((b >> 4) as u32, 16).unwrap());
        hex.push(char::from_digit((b & 0xf) as u32, 16).unwrap());
    }
    let version = parse_version("1.22.19").unwrap();
    let integ = SpecVersionIntegrity::SHA512(digest);
    let spec = resolved_spec(SpecName::Yarn, &version, &integ);
    assert_eq!(spec.render(false), format!("yarn@1.22.19+sha512.{hex}"));
    assert_eq!(spec.render(true), "yarn@1.22.19");
    // the pinned form parses back to the same integrity
    let again = Spec::parse(&spec.render(false)).unwrap();
    let pinned = again.version.integrity().unwrap().unwrap();
    assert_eq!(pinned.render(), format!("sha512.{hex}"));
}

#[test]
fn manifests_configure_a_spec_in_two_forms() {
    let m = PackageJson {
        package_manager: Some(String::from("pnpm@8.6.0")),
        dev_engines: None,
    };
    let sp = m.spec().unwrap().unwrap();
    assert_eq!(sp.render(false), "pnpm@8.6.0");

    let m = PackageJson {
        package_manager: None,
        dev_engines: Some(DevEngines {
            package_manager: Some(DevEnginesPackageManager {
                name: String::from("yarn"),
                version: Some(String::from("4.1.0")),
            }),
        }),
    };
    let sp = m.spec().unwrap().unwrap();
    assert_eq!(sp.render(false), "yarn@4.1.0");

    // the explicit pair wins over the single string
    let m = PackageJson {
        package_manager: Some(String::from("npm@9.0.0")),
        dev_engines: Some(DevEngines {
            package_manager: Some(DevEnginesPackageManager {
                name: String::from("pnpm"),
                version: Some(String::from("8.0.0")),
            }),
        }),
    };
    assert_eq!(m.spec().unwrap().unwrap().render(false), "pnpm@8.0.0");
}

#[test]
fn manifests_without_a_spec_configure_nothing() {
    let m = PackageJson { package_manager: None, dev_engines: None };
    assert!(m.spec().unwrap().is_none());
    let m = PackageJson {
        package_manager: None,
        dev_engines: Some(DevEngines { package_manager: None }),
    };
    assert!(m.spec().unwrap().is_none());
}

#[test]
fn manifests_must_pin_an_exact_version() {
    let m = PackageJson {
        package_manager: Some(String::from("pnpm@^8.0.0")),
        dev_engines: None,
    };
    assert!(m.spec().is_err());

    let m = PackageJson {
        package_manager: None,
        dev_engines: Some(DevEngines {
            package_manager: Some(DevEnginesPackageManager {
                name: String::from("yarn"),
                version: None,
            }),
        }),
    };
    assert!(m.spec().is_err());

    let m = PackageJson {
        package_manager: Some(String::from("bun@1.0.0")),
        dev_engines: None,
    };
    assert!(m.spec().is_err());
}

#[test]
fn registry_urls_encode_the_package_name() {
    let reg = RegistryConfig::default_registry();
    let npm = Spec::parse("npm@9.0.0").unwrap();
    assert_eq!(package_url(&reg, &npm), "https://registry.npmjs.org/npm");
    assert_eq!(version_url(&reg, &npm), "https://registry.npmjs.org/npm/9.0.0");

    let yarn = Spec::parse("yarn@4.0.0").unwrap();
    assert_eq!(
        package_url(&reg, &yarn),
        "https://registry.npmjs.org/@yarnpkg%2Fcli-dist"
    );

    // the version segment is the display form, without build metadata
    let pinned = Spec::parse("pnpm@8.0.0+sha512.00ff").unwrap();
    assert_eq!(
        version_url(&reg, &pinned),
        "https://registry.npmjs.org/pnpm/8.0.0"
    );
}

#[test]
fn spec_version_alternate_render_only_strips_build() {
    let v = SpecVersion::parse("1.2.3-rc.1+abc");
    assert_eq!(v.render(false), "1.2.3-rc.1+abc");
    assert_eq!(v.render(true), "1.2.3-rc.1");
    let v = SpecVersion::parse("^2.0");
    assert_eq!(v.render(true), "^2.0");
    let v = SpecVersion::parse("beta");
    assert_eq!(v.render(false), "beta");
}
