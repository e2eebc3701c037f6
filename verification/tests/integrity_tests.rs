use base64::Engine as _;
use moldau::integrity::SpecVersionIntegrity;
use moldau::registry::{NpmVersion, NpmVersionDist};
use moldau::signature::RegistryConfig;
use moldau::specifier::Spec;
use moldau::version::parse_version;
use sha2::Digest as _;

fn hex_of(bytes: &[u8]) -> String {
    let mut s = String::new();
    for b in bytes {
        s.push(char::from_digit((b >> 4) as u32, 16).unwrap());
        s.push(char::from_digit((b & 0xf) as u32, 16).unwrap());
    }
    s
}

#[test]
fn parse_recognizes_each_algorithm() {
    let cases = ["sha512", "sha384", "sha256", "sha224", "sha1"];
    for tag in cases {
        let s = format!("{tag}.00ff10");
        let integ = SpecVersionIntegrity::parse(&s).unwrap().unwrap();
        assert_eq!(integ.render(), s);
    }
}

#[test]
fn parse_unknown_tag_means_no_pinned_integrity() {
    assert!(SpecVersionIntegrity::parse("build.2024").unwrap().is_none());
    assert!(SpecVersionIntegrity::parse("").unwrap().is_none());
    assert!(SpecVersionIntegrity::parse("md5.00ff").unwrap().is_none());
}

#[test]
fn parse_bad_hex_is_an_error() {
    assert!(SpecVersionIntegrity::parse("sha512.xyz").is_err());
    assert!(SpecVersionIntegrity::parse("sha256.0").is_err());
}

#[test]
fn parse_accepts_uppercase_hex_and_renders_lowercase() {
    let integ = SpecVersionIntegrity::parse("sha1.DEADBEEF").unwrap().unwrap();
    assert_eq!(integ.render(), "sha1.deadbeef");
}

#[test]
fn verify_accepts_the_true_digest_for_every_algorithm() {
    let data = b"some artifact bytes";
    let checks: Vec<SpecVersionIntegrity> = vec![
        SpecVersionIntegrity::SHA512(sha2::Sha512::digest(data).to_vec()),
        SpecVersionIntegrity::SHA384(sha2::Sha384::digest(data).to_vec()),
        SpecVersionIntegrity::SHA256(sha2::Sha256::digest(data).to_vec()),
        SpecVersionIntegrity::SHA224(sha2::Sha224::digest(data).to_vec()),
        SpecVersionIntegrity::SHA1(sha1_checked::Sha1::digest(data).to_vec()),
    ];
    for c in &checks {
        assert!(c.verify(data).is_ok());
    }
}

#[test]
fn verify_detects_single_byte_mutations_for_every_algorithm() {
    let data = b"some artifact bytes".to_vec();
    let checks: Vec<SpecVersionIntegrity> = vec![
        SpecVersionIntegrity::SHA512(sha2::Sha512::digest(&data).to_vec()),
        SpecVersionIntegrity::SHA384(sha2::Sha384::digest(&data).to_vec()),
        SpecVersionIntegrity::SHA256(sha2::Sha256::digest(&data).to_vec()),
        SpecVersionIntegrity::SHA224(sha2::Sha224::digest(&data).to_vec()),
        SpecVersionIntegrity::SHA1(sha1_checked::Sha1::digest(&data).to_vec()),
    ];
    for c in &checks {
        for i in 0..data.len() {
            let mut mutated = data.clone();
            mutated[i] ^= 0x01;
            let err = c.verify(&mutated);
            assert!(err.is_err());
        }
    }
}

#[test]
fn verify_reports_expected_and_actual_in_hex() {
    let data = b"abc";
    let wrong = vec![0u8; 32];
    let c = SpecVersionIntegrity::SHA256(wrong.clone());
    let (expected, actual) = c.verify(data).unwrap_err();
    assert_eq!(expected, hex_of(&wrong));
    assert_eq!(actual, hex_of(&sha2::Sha256::digest(data)));
}

#[test]
fn selector_integrity_comes_from_build_metadata() {
    let spec = Spec::parse("pnpm@8.0.0+sha256.00ff").unwrap();
    let integ = spec.version.integrity().unwrap().unwrap();
    assert_eq!(integ.render(), "sha256.00ff");

    let spec = Spec::parse("pnpm@8.0.0").unwrap();
    assert!(spec.version.integrity().unwrap().is_none());

    let spec = Spec::parse("pnpm@^8.0.0").unwrap();
    assert!(spec.version.integrity().unwrap().is_none());
}

#[test]
fn pinned_verification_checks_the_given_data() {
    let data = b"tarball bytes";
    let digest = sha2::Sha512::digest(data);
    let s = format!("npm@1.0.0+sha512.{}", hex_of(&digest));
    let spec = Spec::parse(&s).unwrap();
    assert!(spec.verify_pinned(data).is_ok());
    assert!(spec.verify_pinned(b"other bytes").is_err());

    // no pinned integrity: nothing to check
    let spec = Spec::parse("npm@1.0.0").unwrap();
    assert!(spec.verify_pinned(data).is_ok());
}

fn version_with_integrity(integrity: Option<String>, shasum: &str) -> NpmVersion {
    NpmVersion {
        name: String::from("pnpm"),
        version: parse_version("8.0.0").unwrap(),
        bin: vec![],
        dist: NpmVersionDist {
            tarball: String::from("https://example.invalid/pnpm-8.0.0.tgz"),
            shasum: String::from(shasum),
            integrity,
            signatures: vec![],
        },
    }
}

#[test]
fn download_integrity_prefers_the_strong_digest() {
    let data = b"tarball";
    let b64 = base64::engine::general_purpose::STANDARD.encode(sha2::Sha512::digest(data));
    let v = version_with_integrity(Some(format!("sha512-{b64}")), "");
    assert!(v.verify_integrity(data).is_ok());
    assert!(v.verify_integrity(b"tampered").is_err());
}

#[test]
fn download_integrity_falls_back_to_the_legacy_digest() {
    let data = b"tarball";
    let sha1 = sha1_checked::Sha1::digest(data);
    let v = version_with_integrity(None, &hex_of(&sha1));
    assert!(v.verify_integrity(data).is_ok());
    assert!(v.verify_integrity(b"tampered").is_err());
}

#[test]
fn malformed_download_integrity_is_a_decode_error() {
    let v = version_with_integrity(Some(String::from("sha256-AAAA")), "");
    assert!(v.integrity().is_err());
    let v = version_with_integrity(Some(String::from("sha512-!!!")), "");
    assert!(v.integrity().is_err());
    let v = version_with_integrity(None, "zz");
    assert!(v.integrity().is_err());
}

#[test]
fn signatures_are_skipped_off_the_default_registry() {
    let mut v = version_with_integrity(None, "");
    v.dist.signatures.push(moldau::registry::NpmVersionSignature {
        keyid: String::from("SHA256:jl3bwswu80PjjokCgh0o2w5c2U4LhQAE57gj9cz1kzA"),
        sig: String::from("bm90IGEgcmVhbCBzaWduYXR1cmU="),
    });
    let mirror = RegistryConfig::new(String::from("https://mirror.example.com"));
    assert!(v.verify_signature(&mirror).is_ok());
}

#[test]
fn a_bad_signature_under_a_pinned_key_is_fatal() {
    let mut v = version_with_integrity(None, "");
    v.dist.signatures.push(moldau::registry::NpmVersionSignature {
        keyid: String::from("SHA256:jl3bwswu80PjjokCgh0o2w5c2U4LhQAE57gj9cz1kzA"),
        sig: String::from("bm90IGEgcmVhbCBzaWduYXR1cmU="),
    });
    let default = RegistryConfig::default_registry();
    assert!(v.verify_signature(&default).is_err());
}

#[test]
fn signatures_under_unknown_keys_are_ignored() {
    let mut v = version_with_integrity(None, "");
    v.dist.signatures.push(moldau::registry::NpmVersionSignature {
        keyid: String::from("SHA256:unknownunknownunknown"),
        sig: String::from("bm90IGEgcmVhbCBzaWduYXR1cmU="),
    });
    let default = RegistryConfig::default_registry();
    assert!(v.verify_signature(&default).is_ok());
}

#[test]
fn the_default_registry_host_is_recognized() {
    assert!(RegistryConfig::default_registry().is_default_host());
    assert!(RegistryConfig::new(String::from("https://registry.npmjs.org/")).is_default_host());
    assert!(!RegistryConfig::new(String::from("https://mirror.example.com")).is_default_host());
    assert!(!RegistryConfig::new(String::from("not a url")).is_default_host());
}
