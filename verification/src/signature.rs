//! Registry signature verification: for each signature entry whose key id
//! matches a pinned registry key, the signed message
//! `<name>@<version>:<integrity>` is checked with ECDSA over P-256.  The
//! whole check is skipped when the configured registry is not the default
//! host, which does not sign.

use vstd::prelude::*;

use crate::errors::Error;
use crate::integrity::b64_decode_of;
use crate::registry::{assoc, NpmVersion, NpmVersionView};
use crate::version::render_version;
use vstd::string::StringSliceAdditionalSpecFns;

verus! {

/// A pinned registry signing key: its id and its base64 DER public key.
#[derive(Clone, Debug, PartialEq, Eq)]
pub struct NpmRegistryPublicKey {
    pub keyid: String,
    pub key: String,
}

/// The pinned key list as id/key view pairs.
pub open spec fn keys_view(v: Seq<NpmRegistryPublicKey>) -> Seq<(Seq<char>, Seq<char>)> {
    Seq::new(v.len(), |i: int| (v[i].keyid@, v[i].key@))
}

pub open spec fn pinned_keys() -> Seq<(Seq<char>, Seq<char>)> {
    seq![
        (
            "SHA256:jl3bwswu80PjjokCgh0o2w5c2U4LhQAE57gj9cz1kzA"@,
            "MFkwEwYHKoZIzj0CAQYIKoZIzj0DAQcDQgAE1Olb3zMAFFxXKHiIkQO5cJ3Yhl5i6UPp+IhuteBJbuHcA5UogKo0EWtlWwW6KSaKoTNEYL7JlCQiVnkhBktUgg=="@,
        ),
        (
            "SHA256:DhQ8wR5APBvFHLF/+Tc+AYvPOdTpcIDqOhxsBHRwC7U"@,
            "MFkwEwYHKoZIzj0CAQYIKoZIzj0DAQcDQgAEY6Ya7W++7aUPzvMTrezH6Ycx3c+HOKYCcNGybJZSCJq/fd7Qa8uuAKtdIkUQtQiEKERhAmE5lMMJhP8OkDOa2g=="@,
        ),
    ]
}

/// The signing keys the default registry publishes.
pub fn npm_registry_public_keys() -> (r: Vec<NpmRegistryPublicKey>)
    ensures
        keys_view(r@) == pinned_keys(),
{
    let mut v: Vec<NpmRegistryPublicKey> = Vec::new();
    v.push(
        NpmRegistryPublicKey {
            keyid: String::from_str("SHA256:jl3bwswu80PjjokCgh0o2w5c2U4LhQAE57gj9cz1kzA"),
            key: String::from_str(
                "MFkwEwYHKoZIzj0CAQYIKoZIzj0DAQcDQgAE1Olb3zMAFFxXKHiIkQO5cJ3Yhl5i6UPp+IhuteBJbuHcA5UogKo0EWtlWwW6KSaKoTNEYL7JlCQiVnkhBktUgg==",
            ),
        },
    );
    v.push(
        NpmRegistryPublicKey {
            keyid: String::from_str("SHA256:DhQ8wR5APBvFHLF/+Tc+AYvPOdTpcIDqOhxsBHRwC7U"),
            key: String::from_str(
                "MFkwEwYHKoZIzj0CAQYIKoZIzj0DAQcDQgAEY6Ya7W++7aUPzvMTrezH6Ycx3c+HOKYCcNGybJZSCJq/fd7Qa8uuAKtdIkUQtQiEKERhAmE5lMMJhP8OkDOa2g==",
            ),
        },
    );
    proof {
        assert(keys_view(v@) =~= pinned_keys());
    }
    v
}

// ---------------------------------------------------------------------------
// The registry endpoint configuration
// ---------------------------------------------------------------------------

/// The registry host that signs its packages.
pub open spec fn default_host() -> Seq<char> {
    seq![
        'r',
        'e',
        'g',
        'i',
        's',
        't',
        'r',
        'y',
        '.',
        'n',
        'p',
        'm',
        'j',
        's',
        '.',
        'o',
        'r',
        'g',
    ]
}

/// The default registry endpoint.
pub open spec fn default_registry_chars() -> Seq<char> {
    seq!['h', 't', 't', 'p', 's', ':', '/', '/'] + default_host()
}

/// The first position at or after `i` where `"://"` starts, or the length.
pub open spec fn scan_scheme_sep(s: Seq<char>, i: int) -> int
    decreases s.len() - i,
{
    if i >= 0 && i + 3 <= s.len() {
        if s[i] == ':' && s[i + 1] == '/' && s[i + 2] == '/' {
            i
        } else {
            scan_scheme_sep(s, i + 1)
        }
    } else {
        s.len() as int
    }
}

pub open spec fn is_host_end(c: char) -> bool {
    c == '/' || c == ':' || c == '?' || c == '#'
}

pub open spec fn scan_host_end(s: Seq<char>, i: int) -> int
    decreases s.len() - i,
{
    if i < s.len() && !is_host_end(s[i]) {
        scan_host_end(s, i + 1)
    } else {
        i
    }
}

/// The host of a URL, by a simple grammar: the characters after the first
/// `"://"` up to a slash, colon, question mark or hash.  A string without
/// `"://"` has no host.  User-info segments are not recognized.
pub open spec fn host_of(s: Seq<char>) -> Seq<char> {
    let k = scan_scheme_sep(s, 0);
    if k == s.len() {
        Seq::empty()
    } else {
        s.subrange(k + 3, scan_host_end(s, k + 3))
    }
}

pub open spec fn spec_is_default_host(s: Seq<char>) -> bool {
    host_of(s) == default_host()
}

/// The registry endpoint in use; constructed once and passed to whatever
/// needs it.
#[derive(Clone, Debug, PartialEq, Eq)]
pub struct RegistryConfig {
    pub base: String,
}

proof fn lemma_scan_scheme_sep_fix(s: Seq<char>, i: int, j: int)
    requires
        0 <= i <= j,
        j + 3 <= s.len() || j == s.len(),
        forall|k: int|
            i <= k < j && k + 3 <= s.len() ==> !(#[trigger] s[k] == ':' && s[k + 1] == '/' && s[k
                + 2] == '/'),
        j + 3 <= s.len() ==> (s[j] == ':' && s[j + 1] == '/' && s[j + 2] == '/'),
        j == s.len() || j + 3 <= s.len(),
    ensures
        scan_scheme_sep(s, i) == j,
    decreases j - i,
{
    if i < j {
        if i + 3 <= s.len() {
            lemma_scan_scheme_sep_fix(s, i + 1, j);
        } else {
            assert(j == s.len() || j + 3 <= s.len());
            assert(j >= i + 1);
            assert(j + 3 > s.len());
            assert(j == s.len());
            assert(scan_scheme_sep(s, i) == s.len());
        }
    }
}

proof fn lemma_scan_host_end_fix(s: Seq<char>, i: int, j: int)
    requires
        0 <= i <= j <= s.len(),
        forall|k: int| i <= k < j ==> !is_host_end(#[trigger] s[k]),
        j == s.len() || is_host_end(s[j]),
    ensures
        scan_host_end(s, i) == j,
    decreases j - i,
{
    if i < j {
        lemma_scan_host_end_fix(s, i + 1, j);
    }
}

fn char_is_host_end(c: char) -> (b: bool)
    ensures
        b == is_host_end(c),
{
    c == '/' || c == ':' || c == '?' || c == '#'
}

impl RegistryConfig {
    /// A configuration for the given endpoint.
    pub fn new(base: String) -> (r: RegistryConfig)
        ensures
            r.base@ == base@,
    {
        RegistryConfig { base }
    }

    /// The default public registry endpoint.
    pub fn default_registry() -> (r: RegistryConfig)
        ensures
            r.base@ == default_registry_chars(),
    {
        let base = String::from_str("https://registry.npmjs.org");
        proof {
            reveal_strlit("https://registry.npmjs.org");
            assert(base@ =~= default_registry_chars());
        }
        RegistryConfig { base }
    }

    /// Whether the configured endpoint is the default signing host.
    pub fn is_default_host(&self) -> (b: bool)
        ensures
            b == spec_is_default_host(self.base@),
    {
        let chars = crate::text::str_to_chars(self.base.as_str());
        let v = chars.as_slice();
        let n = v.len();
        let mut i: usize = 0;
        let mut sep: usize = n;
        let mut found = false;
        while !found && n - i >= 3
            invariant
                0 <= i <= n,
                n == v@.len(),
                v@ == self.base@,
                !found ==> forall|k: int|
                    0 <= k < i && k + 3 <= n ==> !(#[trigger] v@[k] == ':' && v@[k + 1] == '/'
                        && v@[k + 2] == '/'),
                found ==> sep + 3 <= n && v@[sep as int] == ':' && v@[sep as int + 1] == '/'
                    && v@[sep as int + 2] == '/' && (forall|k: int|
                    0 <= k < sep && k + 3 <= n ==> !(#[trigger] v@[k] == ':' && v@[k + 1] == '/'
                        && v@[k + 2] == '/')),
            decreases n - i + (if found {
                0int
            } else {
                1int
            }),
        {
            if v[i] == ':' && v[i + 1] == '/' && v[i + 2] == '/' {
                sep = i;
                found = true;
            } else {
                i = i + 1;
            }
        }
        if !found {
            proof {
                lemma_scan_scheme_sep_fix(v@, 0, n as int);
                assert(host_of(self.base@) =~= Seq::<char>::empty());
                assert(default_host().len() == 18);
            }
            return false;
        }
        proof {
            lemma_scan_scheme_sep_fix(v@, 0, sep as int);
        }
        let hs = sep + 3;
        let mut he = hs;
        while he < n && !char_is_host_end(v[he])
            invariant
                hs <= he <= n,
                n == v@.len(),
                forall|k: int| hs <= k < he ==> !is_host_end(#[trigger] v@[k]),
            decreases n - he,
        {
            he = he + 1;
        }
        proof {
            lemma_scan_host_end_fix(v@, hs as int, he as int);
        }
        let host = crate::text::slice_range_to_vec(v, hs, he);
        proof {
            assert(host@ =~= host_of(self.base@));
        }
        let d = default_host_vec();
        let r = crate::integrity::check_prefix(host.as_slice(), d.as_slice());
        if r && host.len() == d.len() {
            proof {
                assert(host@.subrange(0, 18) =~= host@);
            }
            true
        } else {
            proof {
                if host@ == default_host() {
                    assert(host@.len() == 18);
                    assert(host@.subrange(0, 18) =~= default_host());
                }
            }
            false
        }
    }
}

fn default_host_vec() -> (r: Vec<char>)
    ensures
        r@ == default_host(),
{
    let mut v: Vec<char> = Vec::new();
    v.push('r');
    v.push('e');
    v.push('g');
    v.push('i');
    v.push('s');
    v.push('t');
    v.push('r');
    v.push('y');
    v.push('.');
    v.push('n');
    v.push('p');
    v.push('m');
    v.push('j');
    v.push('s');
    v.push('.');
    v.push('o');
    v.push('r');
    v.push('g');
    proof {
        assert(v@ =~= default_host());
    }
    v
}

// ---------------------------------------------------------------------------
// ECDSA over P-256
// ---------------------------------------------------------------------------

/// Whether the DER public key parses, the DER signature parses, and the
/// signature verifies over the message: a function of the three byte strings
/// alone.
pub uninterp spec fn p256_verify_ok(key_der: Seq<u8>, msg: Seq<u8>, sig_der: Seq<u8>) -> bool;

/// Relies on p256's `VerifyingKey::from_public_key_der`, ecdsa's
/// `Signature::from_der`, and the ECDSA `Verifier` implementation: whether a
/// key and signature in DER form verify over a message depends only on the
/// three byte strings.
#[verifier::external_body]
fn p256_verify(key_der: &[u8], msg: &[u8], sig_der: &[u8]) -> (r: bool)
    ensures
        r == p256_verify_ok(key_der@, msg@, sig_der@),
{
    let Ok(key) = <p256::ecdsa::VerifyingKey as p256::pkcs8::DecodePublicKey>::from_public_key_der(
        key_der,
    ) else { return false };
    let Ok(sig) = p256::ecdsa::Signature::from_der(sig_der) else { return false };
    p256::ecdsa::signature::Verifier::verify(&key, msg, &sig).is_ok()
}

// ---------------------------------------------------------------------------
// The signed message and the check
// ---------------------------------------------------------------------------

/// The signed message: `<name>@<version>:<integrity-or-empty>`, in UTF-8.
pub open spec fn spec_sig_message(v: NpmVersionView) -> Seq<u8> {
    vstd::utf8::encode_utf8(v.name) + seq![64u8] + vstd::utf8::encode_utf8(
        render_version(v.version),
    ) + seq![58u8] + vstd::utf8::encode_utf8(
        match v.integrity {
            Some(i) => i,
            None => Seq::empty(),
        },
    )
}

/// One signature entry passes when its base64 key and signature decode and
/// the ECDSA check accepts the message.
pub open spec fn spec_sig_ok(key_b64: Seq<char>, msg: Seq<u8>, sig_b64: Seq<char>) -> bool {
    match (b64_decode_of(key_b64), b64_decode_of(sig_b64)) {
        (Some(k), Some(s)) => p256_verify_ok(k, msg, s),
        _ => false,
    }
}

/// Every signature entry whose key id names a pinned key must pass; entries
/// under unknown key ids are ignored.
pub open spec fn spec_all_sigs_ok(v: NpmVersionView, keys: Seq<(Seq<char>, Seq<char>)>) -> bool {
    forall|i: int|
        0 <= i < v.signatures.len() ==> match assoc(keys, (#[trigger] v.signatures[i]).0) {
            Some(kb) => spec_sig_ok(kb, spec_sig_message(v), v.signatures[i].1),
            None => true,
        }
}

/// The reported values of a signature failure name a real failing entry: a
/// signature of the version whose key id matches a pinned key and whose
/// check does not pass.
pub open spec fn sig_failure_witness(v: NpmVersionView, expected: Seq<char>, actual: Seq<char>) -> bool {
    exists|i: int|
        0 <= i < v.signatures.len() && #[trigger] v.signatures[i] == (expected, actual) && match assoc(
            pinned_keys(),
            expected,
        ) {
            Some(kb) => !spec_sig_ok(kb, spec_sig_message(v), actual),
            None => false,
        }
}

fn push_str_bytes(out: &mut Vec<u8>, s: &str)
    ensures
        final(out)@ == old(out)@ + vstd::utf8::encode_utf8(s@),
{
    let b = s.as_bytes();
    let mut i: usize = 0;
    while i < b.len()
        invariant
            0 <= i <= b@.len(),
            b@ == s.spec_bytes(),
            out@ == old(out)@ + b@.subrange(0, i as int),
        decreases b@.len() - i,
    {
        out.push(b[i]);
        i = i + 1;
        proof {
            assert(out@ =~= old(out)@ + b@.subrange(0, i as int));
        }
    }
    proof {
        assert(b@.subrange(0, b@.len() as int) =~= b@);
    }
}

impl NpmVersion {
    /// The bytes this version's signatures sign.
    fn build_sig_message(&self) -> (m: Vec<u8>)
        ensures
            m@ == spec_sig_message(self@),
    {
        let mut out: Vec<u8> = Vec::new();
        push_str_bytes(&mut out, self.name.as_str());
        out.push(64);
        let ver = self.version.render();
        push_str_bytes(&mut out, ver.as_str());
        out.push(58);
        match &self.dist.integrity {
            Some(i) => {
                push_str_bytes(&mut out, i.as_str());
            },
            None => {
                proof {
                    assert(vstd::utf8::encode_utf8(Seq::<char>::empty()) =~= Seq::<u8>::empty());
                }
            },
        }
        proof {
            assert(out@ =~= spec_sig_message(self@));
        }
        out
    }

    /// Verifies this version's registry signatures against the pinned keys.
    /// Skipped entirely (and successful) when the configured registry is not
    /// the default host.  A failing entry is fatal; the error carries the key
    /// id and the signature for diagnosis.
    pub fn verify_signature(&self, registry: &RegistryConfig) -> (r: Result<(), Error>)
        ensures
            !spec_is_default_host(registry.base@) ==> r is Ok,
            spec_is_default_host(registry.base@) ==> (r is Ok <==> spec_all_sigs_ok(
                self@,
                pinned_keys(),
            )),
            r matches Err(e) ==> (e matches Error::IntegrityMismatch { expected, actual }
                && sig_failure_witness(self@, expected@, actual@)),
    {
        if !registry.is_default_host() {
            return Ok(());
        }
        let keys = npm_registry_public_keys();
        let msg = self.build_sig_message();
        let n = self.dist.signatures.len();
        let mut i: usize = 0;
        while i < n
            invariant
                0 <= i <= n,
                n == self.dist.signatures@.len(),
                spec_is_default_host(registry.base@),
                msg@ == spec_sig_message(self@),
                keys_view(keys@) == pinned_keys(),
                forall|k: int|
                    0 <= k < i ==> match assoc(pinned_keys(), (#[trigger] self@.signatures[k]).0) {
                        Some(kb) => spec_sig_ok(kb, spec_sig_message(self@), self@.signatures[k].1),
                        None => true,
                    },
            decreases n - i,
        {
            let sig = &self.dist.signatures[i];
            proof {
                assert(self@.signatures[i as int] == (sig.keyid@, sig.sig@));
            }
            let m = keys.len();
            let mut j: usize = 0;
            let mut key_found: Option<usize> = None;
            while j < m && key_found.is_none()
                invariant
                    0 <= j <= m,
                    m == keys@.len(),
                    keys_view(keys@) == pinned_keys(),
                    key_found is None ==> forall|k: int|
                        0 <= k < j ==> #[trigger] pinned_keys()[k].0 != sig.keyid@,
                    key_found matches Some(kj) ==> kj < m && pinned_keys()[kj as int].0
                        == sig.keyid@ && (forall|k: int|
                        0 <= k < kj ==> #[trigger] pinned_keys()[k].0 != sig.keyid@),
                decreases m - j + (if key_found is Some {
                    0int
                } else {
                    1int
                }),
            {
                if crate::registry::chars_eq_str(keys[j].keyid.as_str(), sig.keyid.as_str()) {
                    proof {
                        assert(pinned_keys()[j as int].0 == sig.keyid@);
                    }
                    key_found = Some(j);
                } else {
                    j = j + 1;
                }
            }
            match key_found {
                None => {
                    proof {
                        crate::registry::lemma_assoc_at(
                            pinned_keys(),
                            sig.keyid@,
                            pinned_keys().len() as int,
                        );
                    }
                },
                Some(kj) => {
                    proof {
                        crate::registry::lemma_assoc_at(pinned_keys(), sig.keyid@, kj as int);
                    }
                    let ghost kb = pinned_keys()[kj as int].1;
                    proof {
                        assert(keys@[kj as int].key@ == kb);
                    }
                    let key_der = match crate::integrity::base64_decode(keys[kj].key.as_str()) {
                        Some(b) => b,
                        None => {
                            proof {
                                assert(!spec_sig_ok(kb, msg@, sig.sig@));
                                assert(!spec_all_sigs_ok(self@, pinned_keys()));
                                assert(sig_failure_witness(self@, sig.keyid@, sig.sig@));
                            }
                            return Err(
                                Error::IntegrityMismatch {
                                    expected: sig.keyid.clone(),
                                    actual: sig.sig.clone(),
                                },
                            );
                        },
                    };
                    let sig_der = match crate::integrity::base64_decode(sig.sig.as_str()) {
                        Some(b) => b,
                        None => {
                            proof {
                                assert(!spec_sig_ok(kb, msg@, sig.sig@));
                                assert(!spec_all_sigs_ok(self@, pinned_keys()));
                                assert(sig_failure_witness(self@, sig.keyid@, sig.sig@));
                            }
                            return Err(
                                Error::IntegrityMismatch {
                                    expected: sig.keyid.clone(),
                                    actual: sig.sig.clone(),
                                },
                            );
                        },
                    };
                    if !p256_verify(key_der.as_slice(), msg.as_slice(), sig_der.as_slice()) {
                        proof {
                            assert(!spec_sig_ok(kb, msg@, sig.sig@));
                            assert(!spec_all_sigs_ok(self@, pinned_keys()));
                            assert(sig_failure_witness(self@, sig.keyid@, sig.sig@));
                        }
                        return Err(
                            Error::IntegrityMismatch {
                                expected: sig.keyid.clone(),
                                actual: sig.sig.clone(),
                            },
                        );
                    }
                },
            }
            i = i + 1;
        }
        Ok(())
    }
}

} // verus!
