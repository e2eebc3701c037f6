use base64::Engine as _;
use moldau::cache::CacheIndex;
use moldau::errors::Error;
use moldau::pipeline::{FetchAction, FetchEvent, FetchMachine, FetchState};
use moldau::registry::{NpmVersion, NpmVersionDist};
use moldau::signature::RegistryConfig;
use moldau::specifier::{Spec, SpecVersion};
use moldau::version::parse_version;
use sha2::Digest as _;

fn hex_of(bytes: &[u8]) -> String {
    let mut s = String::new();
    for b in bytes {
        s.push(char::from_digit((b >> 4) as u32, 16).unwrap());
        s.push(char::from_digit((b & 0xf) as u32, 16).unwrap());
    }
    s
}

fn rendered(idx: &CacheIndex) -> Vec<String> {
    idx.versions.iter().map(|v| v.render()).collect()
}

#[test]
fn inserting_then_enumerating_yields_exactly_that_version() {
    let mut idx = CacheIndex::new();
    idx.insert(&parse_version("1.2.3").unwrap());
    assert_eq!(rendered(&idx), vec![String::from("1.2.3")]);
}

#[test]
fn inserting_twice_never_duplicates() {
    let mut idx = CacheIndex::new();
    idx.insert(&parse_version("1.2.3").unwrap());
    idx.insert(&parse_version("1.2.3").unwrap());
    assert_eq!(rendered(&idx), vec![String::from("1.2.3")]);
    // even via a build-metadata variant of the same version
    idx.insert(&parse_version("1.2.3+cafe").unwrap());
    assert_eq!(rendered(&idx), vec![String::from("1.2.3")]);
}

#[test]
fn the_index_stays_sorted_by_precedence() {
    let mut idx = CacheIndex::new();
    idx.insert(&parse_version("2.0.0").unwrap());
    idx.insert(&parse_version("1.0.0").unwrap());
    idx.insert(&parse_version("1.1.0").unwrap());
    idx.insert(&parse_version("2.0.0-rc.1").unwrap());
    assert_eq!(
        rendered(&idx),
        vec![
            String::from("1.0.0"),
            String::from("1.1.0"),
            String::from("2.0.0-rc.1"),
            String::from("2.0.0"),
        ]
    );
}

#[test]
fn clean_keeps_the_single_highest_version() {
    let mut idx = CacheIndex::new();
    idx.insert(&parse_version("1.0.0").unwrap());
    idx.insert(&parse_version("1.1.0").unwrap());
    idx.insert(&parse_version("2.0.0").unwrap());
    let removed = idx.clean_selection(false);
    let removed: Vec<String> = removed.iter().map(|v| v.render()).collect();
    assert_eq!(removed, vec![String::from("1.0.0"), String::from("1.1.0")]);
    assert_eq!(removed.len(), 2);
    idx.retain_after_clean(false);
    assert_eq!(rendered(&idx), vec![String::from("2.0.0")]);
}

#[test]
fn clean_all_removes_everything() {
    let mut idx = CacheIndex::new();
    idx.insert(&parse_version("1.0.0").unwrap());
    idx.insert(&parse_version("1.1.0").unwrap());
    idx.insert(&parse_version("2.0.0").unwrap());
    let removed = idx.clean_selection(true);
    assert_eq!(removed.len(), 3);
    idx.retain_after_clean(true);
    assert!(idx.versions.is_empty());
}

#[test]
fn lookups_follow_the_selector_kind() {
    let mut idx = CacheIndex::new();
    idx.insert(&parse_version("1.0.0").unwrap());
    idx.insert(&parse_version("1.4.0").unwrap());
    idx.insert(&parse_version("2.0.0").unwrap());

    // exact matches by precedence, so pinned build metadata still hits
    let exact = Spec::parse("npm@1.4.0+sha512.00ff").unwrap().version;
    assert_eq!(idx.best_match(&exact).unwrap().render(), "1.4.0");

    // a requirement takes the highest admitted version
    let req = Spec::parse("npm@^1.0.0").unwrap().version;
    assert_eq!(idx.best_match(&req).unwrap().render(), "1.4.0");

    let req = Spec::parse("npm@>=3").unwrap().version;
    assert!(idx.best_match(&req).is_none());

    // a dist-tag can never be answered from the cache
    let tag = SpecVersion::DistTag(String::from("latest"));
    assert!(idx.best_match(&tag).is_none());
}

fn tarball_version(bytes: &[u8]) -> NpmVersion {
    let b64 = base64::engine::general_purpose::STANDARD.encode(sha2::Sha512::digest(bytes));
    NpmVersion {
        name: String::from("pnpm"),
        version: parse_version("8.0.0").unwrap(),
        bin: vec![(String::from("pnpm"), String::from("bin/pnpm.cjs"))],
        dist: NpmVersionDist {
            tarball: String::from("https://example.invalid/pnpm-8.0.0.tgz"),
            shasum: String::new(),
            integrity: Some(format!("sha512-{b64}")),
            signatures: vec![],
        },
    }
}

fn mirror() -> RegistryConfig {
    RegistryConfig::new(String::from("https://mirror.example.com"))
}

#[test]
fn the_pipeline_commits_a_clean_fetch() {
    let bytes = b"tarball bytes".to_vec();
    let digest = sha2::Sha512::digest(&bytes);
    let spec = Spec::parse(&format!("pnpm@8.0.0+sha512.{}", hex_of(&digest))).unwrap();
    let version = tarball_version(&bytes);
    let mut m = FetchMachine::new(spec, version, mirror());

    assert!(matches!(m.step(FetchEvent::Begin), Ok(FetchAction::CheckCache)));
    assert!(matches!(
        m.step(FetchEvent::CacheResult { hit: false }),
        Ok(FetchAction::CreateStaging)
    ));
    assert!(matches!(m.step(FetchEvent::StagingReady), Ok(FetchAction::Download)));
    assert!(matches!(
        m.step(FetchEvent::Downloaded { bytes: bytes.clone() }),
        Ok(FetchAction::Unpack)
    ));
    assert!(matches!(m.step(FetchEvent::Unpacked), Ok(FetchAction::LocateRoot)));
    assert!(matches!(m.step(FetchEvent::RootLocated), Ok(FetchAction::Commit)));
    assert!(matches!(m.step(FetchEvent::Committed), Ok(FetchAction::Stop)));
    assert!(matches!(m.state, FetchState::Done { cached: false }));
}

#[test]
fn a_mismatched_pin_fails_before_anything_reaches_the_cache() {
    // the registry digest matches the bytes, but the specifier pins a
    // different digest: the pipeline must fail with an integrity mismatch
    // and never ask for a commit
    let bytes = b"tarball bytes".to_vec();
    let wrong = sha2::Sha512::digest(b"something else entirely");
    let spec = Spec::parse(&format!("pnpm@8.0.0+sha512.{}", hex_of(&wrong))).unwrap();
    let version = tarball_version(&bytes);
    let mut m = FetchMachine::new(spec, version, mirror());

    let mut actions = Vec::new();
    actions.push(m.step(FetchEvent::Begin));
    actions.push(m.step(FetchEvent::CacheResult { hit: false }));
    actions.push(m.step(FetchEvent::StagingReady));
    actions.push(m.step(FetchEvent::Downloaded { bytes: bytes.clone() }));
    actions.push(m.step(FetchEvent::Unpacked));
    let last = m.step(FetchEvent::RootLocated);
    assert!(matches!(last, Err(Error::IntegrityMismatch { .. })));
    assert!(matches!(m.state, FetchState::Failed));
    for a in &actions {
        assert!(!matches!(a, Ok(FetchAction::Commit)));
    }
}

#[test]
fn a_mismatched_download_digest_is_fatal_at_once() {
    let bytes = b"tarball bytes".to_vec();
    let version = tarball_version(b"the registry promised different bytes");
    let spec = Spec::parse("pnpm@8.0.0").unwrap();
    let mut m = FetchMachine::new(spec, version, mirror());

    m.step(FetchEvent::Begin).unwrap();
    m.step(FetchEvent::CacheResult { hit: false }).unwrap();
    m.step(FetchEvent::StagingReady).unwrap();
    let r = m.step(FetchEvent::Downloaded { bytes });
    assert!(matches!(r, Err(Error::IntegrityMismatch { .. })));
    assert!(matches!(m.state, FetchState::Failed));
}

#[test]
fn a_cache_hit_ends_the_run_without_fetching() {
    let version = tarball_version(b"irrelevant");
    let spec = Spec::parse("pnpm@8.0.0").unwrap();
    let mut m = FetchMachine::new(spec, version, mirror());
    m.step(FetchEvent::Begin).unwrap();
    let r = m.step(FetchEvent::CacheResult { hit: true });
    assert!(matches!(r, Ok(FetchAction::Stop)));
    assert!(matches!(m.state, FetchState::Done { cached: true }));
}

#[test]
fn the_yarn_pin_is_checked_against_the_unpacked_executable() {
    let tarball = b"the tarball".to_vec();
    let bin_contents = b"#!/usr/bin/env node\nconsole.log(1)\n".to_vec();
    let bin_digest = sha2::Sha512::digest(&bin_contents);
    let spec = Spec::parse(&format!("yarn@1.22.19+sha512.{}", hex_of(&bin_digest))).unwrap();
    let b64 = base64::engine::general_purpose::STANDARD.encode(sha2::Sha512::digest(&tarball));
    let version = NpmVersion {
        name: String::from("yarn"),
        version: parse_version("1.22.19").unwrap(),
        bin: vec![(String::from("yarn"), String::from("bin/yarn.js"))],
        dist: NpmVersionDist {
            tarball: String::from("https://example.invalid/yarn-1.22.19.tgz"),
            shasum: String::new(),
            integrity: Some(format!("sha512-{b64}")),
            signatures: vec![],
        },
    };
    let mut m = FetchMachine::new(spec, version, mirror());
    m.step(FetchEvent::Begin).unwrap();
    m.step(FetchEvent::CacheResult { hit: false }).unwrap();
    m.step(FetchEvent::StagingReady).unwrap();
    m.step(FetchEvent::Downloaded { bytes: tarball }).unwrap();
    m.step(FetchEvent::Unpacked).unwrap();
    let r = m.step(FetchEvent::RootLocated).unwrap();
    assert!(matches!(r, FetchAction::ReadBin { ref path } if path == "bin/yarn.js"));
    let r = m.step(FetchEvent::BinRead { contents: Some(bin_contents) });
    assert!(matches!(r, Ok(FetchAction::Commit)));

    // and a corrupted executable is fatal
    let r2 = m.step(FetchEvent::Committed);
    assert!(matches!(r2, Ok(FetchAction::Stop)));
}

#[test]
fn a_corrupted_yarn_executable_is_fatal() {
    let tarball = b"the tarball".to_vec();
    let bin_contents = b"real contents".to_vec();
    let bin_digest = sha2::Sha512::digest(&bin_contents);
    let spec = Spec::parse(&format!("yarn@1.22.19+sha512.{}", hex_of(&bin_digest))).unwrap();
    let b64 = base64::engine::general_purpose::STANDARD.encode(sha2::Sha512::digest(&tarball));
    let version = NpmVersion {
        name: String::from("yarn"),
        version: parse_version("1.22.19").unwrap(),
        bin: vec![(String::from("yarn"), String::from("bin/yarn.js"))],
        dist: NpmVersionDist {
            tarball: String::from("https://example.invalid/yarn-1.22.19.tgz"),
            shasum: String::new(),
            integrity: Some(format!("sha512-{b64}")),
            signatures: vec![],
        },
    };
    let mut m = FetchMachine::new(spec, version, mirror());
    m.step(FetchEvent::Begin).unwrap();
    m.step(FetchEvent::CacheResult { hit: false }).unwrap();
    m.step(FetchEvent::StagingReady).unwrap();
    m.step(FetchEvent::Downloaded { bytes: tarball }).unwrap();
    m.step(FetchEvent::Unpacked).unwrap();
    m.step(FetchEvent::RootLocated).unwrap();
    let r = m.step(FetchEvent::BinRead { contents: Some(b"tampered".to_vec()) });
    assert!(matches!(r, Err(Error::IntegrityMismatch { .. })));
    assert!(matches!(m.state, FetchState::Failed));
}

#[test]
fn io_failures_abort_the_pipeline() {
    let version = tarball_version(b"x");
    let spec = Spec::parse("pnpm@8.0.0").unwrap();
    let mut m = FetchMachine::new(spec, version, mirror());
    m.step(FetchEvent::Begin).unwrap();
    m.step(FetchEvent::CacheResult { hit: false }).unwrap();
    let r = m.step(FetchEvent::IoFailed { message: String::from("disk full") });
    assert!(matches!(r, Err(Error::CacheIo { .. })));
    assert!(matches!(m.state, FetchState::Failed));
}

#[test]
fn a_failed_download_reports_the_status() {
    let version = tarball_version(b"x");
    let spec = Spec::parse("pnpm@8.0.0").unwrap();
    let mut m = FetchMachine::new(spec, version, mirror());
    m.step(FetchEvent::Begin).unwrap();
    m.step(FetchEvent::CacheResult { hit: false }).unwrap();
    m.step(FetchEvent::StagingReady).unwrap();
    let r = m.step(FetchEvent::DownloadFailed { status: 404 });
    assert!(matches!(r, Err(Error::RegistryStatus { status: 404 })));
}

#[test]
fn a_bad_signature_fails_the_download_step() {
    let bytes = b"tarball bytes".to_vec();
    let mut version = tarball_version(&bytes);
    let keyid = "SHA256:jl3bwswu80PjjokCgh0o2w5c2U4LhQAE57gj9cz1kzA";
    let sig = "bm90IGEgcmVhbCBzaWduYXR1cmU=";
    version.dist.signatures.push(moldau::registry::NpmVersionSignature {
        keyid: String::from(keyid),
        sig: String::from(sig),
    });
    let spec = Spec::parse("pnpm@8.0.0").unwrap();
    let mut m = FetchMachine::new(spec, version, RegistryConfig::default_registry());
    m.step(FetchEvent::Begin).unwrap();
    m.step(FetchEvent::CacheResult { hit: false }).unwrap();
    m.step(FetchEvent::StagingReady).unwrap();
    let r = m.step(FetchEvent::Downloaded { bytes });
    match r {
        Err(Error::IntegrityMismatch { expected, actual }) => {
            assert_eq!(expected, keyid);
            assert_eq!(actual, sig);
        },
        other => panic!("expected a signature failure, got {other:?}"),
    }
    assert!(matches!(m.state, FetchState::Failed));
}

#[test]
fn a_missing_yarn_executable_entry_is_fatal() {
    let tarball = b"the tarball".to_vec();
    let digest = sha2::Sha512::digest(b"whatever the pin says");
    let spec = Spec::parse(&format!("yarn@1.22.19+sha512.{}", hex_of(&digest))).unwrap();
    let b64 = base64::engine::general_purpose::STANDARD.encode(sha2::Sha512::digest(&tarball));
    let version = NpmVersion {
        name: String::from("yarn"),
        version: parse_version("1.22.19").unwrap(),
        bin: vec![],
        dist: NpmVersionDist {
            tarball: String::from("https://example.invalid/yarn-1.22.19.tgz"),
            shasum: String::new(),
            integrity: Some(format!("sha512-{b64}")),
            signatures: vec![],
        },
    };
    let mut m = FetchMachine::new(spec, version, mirror());
    m.step(FetchEvent::Begin).unwrap();
    m.step(FetchEvent::CacheResult { hit: false }).unwrap();
    m.step(FetchEvent::StagingReady).unwrap();
    m.step(FetchEvent::Downloaded { bytes: tarball }).unwrap();
    m.step(FetchEvent::Unpacked).unwrap();
    let r = m.step(FetchEvent::RootLocated);
    assert!(matches!(r, Err(Error::RegistryDecode)));
    assert!(matches!(m.state, FetchState::Failed));
}

#[test]
fn an_unreadable_yarn_executable_is_fatal() {
    let tarball = b"the tarball".to_vec();
    let digest = sha2::Sha512::digest(b"pinned contents");
    let spec = Spec::parse(&format!("yarn@1.22.19+sha512.{}", hex_of(&digest))).unwrap();
    let b64 = base64::engine::general_purpose::STANDARD.encode(sha2::Sha512::digest(&tarball));
    let version = NpmVersion {
        name: String::from("yarn"),
        version: parse_version("1.22.19").unwrap(),
        bin: vec![(String::from("yarn"), String::from("bin/yarn.js"))],
        dist: NpmVersionDist {
            tarball: String::from("https://example.invalid/yarn-1.22.19.tgz"),
            shasum: String::new(),
            integrity: Some(format!("sha512-{b64}")),
            signatures: vec![],
        },
    };
    let mut m = FetchMachine::new(spec, version, mirror());
    m.step(FetchEvent::Begin).unwrap();
    m.step(FetchEvent::CacheResult { hit: false }).unwrap();
    m.step(FetchEvent::StagingReady).unwrap();
    m.step(FetchEvent::Downloaded { bytes: tarball }).unwrap();
    m.step(FetchEvent::Unpacked).unwrap();
    m.step(FetchEvent::RootLocated).unwrap();
    let r = m.step(FetchEvent::BinRead { contents: None });
    assert!(matches!(r, Err(Error::CacheIo { .. })));
    assert!(matches!(m.state, FetchState::Failed));
}
