//! Differential checks against the reference semver implementation: parsing,
//! rendering, precedence and requirement matching must agree on a broad set
//! of inputs.

use moldau::order::Cmp;

const VERSIONS: &[&str] = &[
    "0.0.0",
    "1.2.3",
    "10.20.30",
    "1.2.3-alpha",
    "1.2.3-alpha.1",
    "1.2.3-alpha.beta",
    "1.2.3-0.3.7",
    "1.2.3-x-y-z.44",
    "1.2.3+build",
    "1.2.3+build.11.e0f985a",
    "1.2.3-rc.1+build.1",
    "18446744073709551615.0.0",
    "",
    "1",
    "1.2",
    "1.2.3.4",
    "01.2.3",
    "1.02.3",
    "1.2.03",
    "v1.2.3",
    "1.2.3-",
    "1.2.3-+",
    "1.2.3-a..b",
    "1.2.3-01",
    "1.2.3-00",
    "1.2.3-0a",
    "1.2.3+meta+meta",
    "1.2.3 ",
    " 1.2.3",
    "1.2.3-alpha_beta",
    "18446744073709551616.0.0",
    "1.2.3-9999999999999999999",
];

const REQS: &[&str] = &[
    "*",
    " * ",
    "x",
    "X",
    "1",
    "1.2",
    "1.2.3",
    "=1.2.3",
    ">1.2.3",
    ">=1.2.3",
    "<1.2.3",
    "<=1.2.3",
    "~1.2.3",
    "~1.2",
    "~1",
    "^1.2.3",
    "^0.2.3",
    "^0.0.3",
    "^0.0",
    "^0",
    "1.x",
    "1.2.x",
    "1.*",
    "1.2.*",
    ">=1.0.0, <2.0.0",
    ">=1.2.3, <1.8, >1.4.1",
    "<2.0.0",
    "<2.0",
    "<2",
    "^1.2.3-alpha",
    "~1.2.3-beta.2",
    "=1.2.3-rc.1",
    ">=1.2.3-0",
    "",
    "hello",
    ">=",
    "1.*.3",
    "* , 1.2",
    "1.2.3 4.5.6",
    "latest",
    "^1.2.3+meta",
];

#[test]
fn version_parsing_agrees_with_the_reference() {
    for s in VERSIONS {
        let mine = moldau::version::parse_version(s);
        let theirs = semver::Version::parse(s).ok();
        assert_eq!(
            mine.is_some(),
            theirs.is_some(),
            "validity disagreement on {s:?}"
        );
        if let (Some(m), Some(t)) = (mine, theirs) {
            assert_eq!(m.render(), t.to_string(), "render disagreement on {s:?}");
        }
    }
}

#[test]
fn precedence_agrees_with_the_reference() {
    for a in VERSIONS {
        for b in VERSIONS {
            let (Some(ma), Some(mb)) = (
                moldau::version::parse_version(a),
                moldau::version::parse_version(b),
            ) else {
                continue;
            };
            let (ta, tb) = (
                semver::Version::parse(a).unwrap(),
                semver::Version::parse(b).unwrap(),
            );
            let mine = match ma.cmp_precedence(&mb) {
                Cmp::Lt => std::cmp::Ordering::Less,
                Cmp::Eq => std::cmp::Ordering::Equal,
                Cmp::Gt => std::cmp::Ordering::Greater,
            };
            assert_eq!(mine, ta.cmp_precedence(&tb), "precedence disagreement on {a:?} vs {b:?}");
        }
    }
}

#[test]
fn requirement_parsing_agrees_with_the_reference() {
    for s in REQS {
        let mine = moldau::range::VersionReq::parse(s);
        let theirs = semver::VersionReq::parse(s).ok();
        assert_eq!(
            mine.is_some(),
            theirs.is_some(),
            "validity disagreement on {s:?}"
        );
        if let (Some(m), Some(t)) = (mine, theirs) {
            assert_eq!(m.render(), t.to_string(), "render disagreement on {s:?}");
        }
    }
}

#[test]
fn requirement_matching_agrees_with_the_reference() {
    for r in REQS {
        let (Some(mr), Ok(tr)) = (
            moldau::range::VersionReq::parse(r),
            semver::VersionReq::parse(r),
        ) else {
            continue;
        };
        for v in VERSIONS {
            let (Some(mv), Ok(tv)) = (
                moldau::version::parse_version(v),
                semver::Version::parse(v),
            ) else {
                continue;
            };
            assert_eq!(
                mr.matches_version(&mv),
                tr.matches(&tv),
                "matching disagreement for {r:?} against {v:?}"
            );
        }
    }
}
