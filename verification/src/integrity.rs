//! The integrity model: a tagged digest rendered as `<algorithm>.<hex>`,
//! parsed from a version's build metadata, and verified against bytes by
//! recomputing the digest.  Digests are compared as bytes, so hex casing
//! never matters.

use vstd::prelude::*;

use sha2::Digest;

use crate::errors::Error;
use crate::version::{digit_char, digit_val, is_digit};

verus! {

// ---------------------------------------------------------------------------
// Hexadecimal
// ---------------------------------------------------------------------------

pub open spec fn is_hex_digit(c: char) -> bool {
    is_digit(c) || (97 <= c as u32 && c as u32 <= 102) || (65 <= c as u32 && c as u32 <= 70)
}

pub open spec fn hex_val(c: char) -> int {
    if is_digit(c) {
        digit_val(c)
    } else if 97 <= c as u32 && c as u32 <= 102 {
        c as u32 - 97 + 10
    } else {
        c as u32 - 65 + 10
    }
}

/// The lowercase hex digit for a value below 16.
pub open spec fn hex_char(d: int) -> char {
    if d < 10 {
        digit_char(d)
    } else {
        (d - 10 + 97) as char
    }
}

/// Decodes a hex string two digits per byte; either case is accepted.
pub open spec fn hex_decode(s: Seq<char>) -> Option<Seq<u8>>
    decreases s.len(),
{
    if s.len() == 0 {
        Some(Seq::empty())
    } else if s.len() == 1 {
        None
    } else if is_hex_digit(s[0]) && is_hex_digit(s[1]) {
        match hex_decode(s.skip(2)) {
            Some(rest) => Some(seq![(hex_val(s[0]) * 16 + hex_val(s[1])) as u8] + rest),
            None => None,
        }
    } else {
        None
    }
}

/// Encodes bytes as lowercase hex, two digits per byte.
pub open spec fn hex_encode(b: Seq<u8>) -> Seq<char>
    decreases b.len(),
{
    if b.len() == 0 {
        Seq::empty()
    } else {
        seq![hex_char(b[0] as int / 16), hex_char(b[0] as int % 16)] + hex_encode(b.drop_first())
    }
}

proof fn lemma_hex_encode_push(b: Seq<u8>, x: u8)
    ensures
        hex_encode(b.push(x)) == hex_encode(b) + seq![hex_char(x as int / 16), hex_char(x as int % 16)],
    decreases b.len(),
{
    if b.len() == 0 {
        let w = b.push(x);
        assert(w.len() == 1);
        assert(w[0] == x);
        assert(w.drop_first() =~= Seq::<u8>::empty());
        assert(hex_encode(w.drop_first()) =~= Seq::<char>::empty());
        assert(hex_encode(w) == seq![hex_char(x as int / 16), hex_char(x as int % 16)]
            + hex_encode(w.drop_first()));
        assert(hex_encode(b) =~= Seq::<char>::empty());
        assert(hex_encode(b.push(x)) =~= hex_encode(b) + seq![
            hex_char(x as int / 16),
            hex_char(x as int % 16),
        ]);
    } else {
        lemma_hex_encode_push(b.drop_first(), x);
        assert(b.push(x).drop_first() =~= b.drop_first().push(x));
        assert(b.push(x)[0] == b[0]);
        assert(hex_encode(b.push(x)) =~= hex_encode(b) + seq![
            hex_char(x as int / 16),
            hex_char(x as int % 16),
        ]);
    }
}

fn char_hex_val(c: char) -> (r: Option<u8>)
    ensures
        r is Some <==> is_hex_digit(c),
        r matches Some(d) ==> d == hex_val(c) && d < 16,
{
    let u = c as u32;
    if 48 <= u && u <= 57 {
        Some((u - 48) as u8)
    } else if 97 <= u && u <= 102 {
        Some((u - 97 + 10) as u8)
    } else if 65 <= u && u <= 70 {
        Some((u - 65 + 10) as u8)
    } else {
        None
    }
}

fn hex_char_of(d: u8) -> (c: char)
    requires
        d < 16,
    ensures
        c == hex_char(d as int),
{
    if d < 10 {
        crate::version::digit_to_char(d as u64)
    } else {
        proof {
            vstd::utf8::char_u32_cast('a', 97);
            vstd::utf8::char_u32_cast('b', 98);
            vstd::utf8::char_u32_cast('c', 99);
            vstd::utf8::char_u32_cast('d', 100);
            vstd::utf8::char_u32_cast('e', 101);
            vstd::utf8::char_u32_cast('f', 102);
        }
        match d {
            10 => 'a',
            11 => 'b',
            12 => 'c',
            13 => 'd',
            14 => 'e',
            _ => 'f',
        }
    }
}

/// Decodes the hex region starting at `i`, exactly as [`hex_decode`].
fn hex_decode_at(v: &[char], i: usize) -> (r: Option<Vec<u8>>)
    requires
        i <= v.len(),
    ensures
        r is Some <==> hex_decode(v@.skip(i as int)) is Some,
        r matches Some(b) ==> Some(b@) == hex_decode(v@.skip(i as int)),
    decreases v.len() - i,
{
    let ghost s = v@.skip(i as int);
    if i == v.len() {
        let r: Vec<u8> = Vec::new();
        proof {
            assert(r@ =~= Seq::<u8>::empty());
        }
        Some(r)
    } else if i + 1 == v.len() {
        None
    } else {
        proof {
            assert(s[0] == v@[i as int]);
            assert(s[1] == v@[i as int + 1]);
        }
        let h = match char_hex_val(v[i]) {
            Some(h) => h,
            None => { return None },
        };
        let l = match char_hex_val(v[i + 1]) {
            Some(l) => l,
            None => { return None },
        };
        let mut rest = match hex_decode_at(v, i + 2) {
            Some(b) => b,
            None => {
                proof {
                    assert(s.skip(2) =~= v@.skip(i as int + 2));
                }
                return None;
            },
        };
        proof {
            assert(s.skip(2) =~= v@.skip(i as int + 2));
        }
        rest.insert(0, h * 16 + l);
        proof {
            assert(rest@ =~= seq![(hex_val(s[0]) * 16 + hex_val(s[1])) as u8] + hex_decode(
                s.skip(2),
            )->Some_0);
        }
        Some(rest)
    }
}

/// Decodes a hex string to bytes; `None` on odd length or a non-hex digit.
pub fn hex_decode_chars(v: &[char]) -> (r: Option<Vec<u8>>)
    ensures
        r is Some <==> hex_decode(v@) is Some,
        r matches Some(b) ==> Some(b@) == hex_decode(v@),
{
    let r = hex_decode_at(v, 0);
    proof {
        assert(v@.skip(0) =~= v@);
    }
    r
}

/// Appends the lowercase hex encoding of the bytes.
pub fn push_hex(out: &mut Vec<char>, b: &[u8])
    ensures
        final(out)@ == old(out)@ + hex_encode(b@),
{
    let mut i: usize = 0;
    while i < b.len()
        invariant
            0 <= i <= b@.len(),
            out@ == old(out)@ + hex_encode(b@.subrange(0, i as int)),
        decreases b@.len() - i,
    {
        let x = b[i];
        out.push(hex_char_of(x / 16));
        out.push(hex_char_of(x % 16));
        proof {
            lemma_hex_encode_push(b@.subrange(0, i as int), x);
            assert(b@.subrange(0, i as int).push(x) =~= b@.subrange(0, i as int + 1));
            assert(out@ =~= old(out)@ + hex_encode(b@.subrange(0, i as int + 1)));
        }
        i = i + 1;
    }
    proof {
        assert(b@.subrange(0, b@.len() as int) =~= b@);
    }
}

/// Encodes bytes as a lowercase hex string.
pub fn hex_encode_bytes(b: &[u8]) -> (s: String)
    ensures
        s@ == hex_encode(b@),
{
    let mut out: Vec<char> = Vec::new();
    push_hex(&mut out, b);
    crate::text::chars_to_string(out.as_slice())
}

/// Every character of a hex encoding is an identifier character, and the
/// encoding is twice as long as the bytes.
pub proof fn lemma_hex_encode_id_chars(b: Seq<u8>)
    ensures
        crate::version::all_id_chars(hex_encode(b)),
        hex_encode(b).len() == 2 * b.len(),
    decreases b.len(),
{
    if b.len() > 0 {
        lemma_hex_encode_id_chars(b.drop_first());
        let e = hex_encode(b);
        assert(crate::version::is_id_char(hex_char(b[0] as int / 16)));
        assert(crate::version::is_id_char(hex_char(b[0] as int % 16)));
        assert(forall|i: int|
            2 <= i < e.len() ==> #[trigger] e[i] == hex_encode(b.drop_first())[i - 2]);
        assert(crate::version::all_id_chars(e));
    }
}

// ---------------------------------------------------------------------------
// The tagged digest
// ---------------------------------------------------------------------------

/// A pinned digest: the algorithm tag and the expected bytes.
#[derive(Clone, Debug, PartialEq, Eq)]
pub enum SpecVersionIntegrity {
    SHA512(Vec<u8>),
    SHA384(Vec<u8>),
    SHA256(Vec<u8>),
    SHA224(Vec<u8>),
    SHA1(Vec<u8>),
}

pub ghost enum IntegrityView {
    SHA512(Seq<u8>),
    SHA384(Seq<u8>),
    SHA256(Seq<u8>),
    SHA224(Seq<u8>),
    SHA1(Seq<u8>),
}

impl View for SpecVersionIntegrity {
    type V = IntegrityView;

    open spec fn view(&self) -> IntegrityView {
        match self {
            SpecVersionIntegrity::SHA512(b) => IntegrityView::SHA512(b@),
            SpecVersionIntegrity::SHA384(b) => IntegrityView::SHA384(b@),
            SpecVersionIntegrity::SHA256(b) => IntegrityView::SHA256(b@),
            SpecVersionIntegrity::SHA224(b) => IntegrityView::SHA224(b@),
            SpecVersionIntegrity::SHA1(b) => IntegrityView::SHA1(b@),
        }
    }
}

/// The pinned bytes of a tagged digest.
pub open spec fn expected_bytes(iv: IntegrityView) -> Seq<u8> {
    match iv {
        IntegrityView::SHA512(b) => b,
        IntegrityView::SHA384(b) => b,
        IntegrityView::SHA256(b) => b,
        IntegrityView::SHA224(b) => b,
        IntegrityView::SHA1(b) => b,
    }
}

/// What standard base64 decoding yields for a string, when it is valid.
pub uninterp spec fn b64_decode_of(s: Seq<char>) -> Option<Seq<u8>>;

/// Relies on base64's standard engine `decode`: the result depends on the
/// input string alone; an invalid encoding yields nothing.
#[verifier::external_body]
pub(crate) fn base64_decode(s: &str) -> (r: Option<Vec<u8>>)
    ensures
        r is Some <==> b64_decode_of(s@) is Some,
        r matches Some(b) ==> Some(b@) == b64_decode_of(s@),
{
    base64::Engine::decode(&base64::engine::general_purpose::STANDARD, s).ok()
}

// The digests themselves are named, never written out: each is a function of
// the input bytes alone, computed by an outside implementation.
pub uninterp spec fn sha512_of(b: Seq<u8>) -> Seq<u8>;

pub uninterp spec fn sha384_of(b: Seq<u8>) -> Seq<u8>;

pub uninterp spec fn sha256_of(b: Seq<u8>) -> Seq<u8>;

pub uninterp spec fn sha224_of(b: Seq<u8>) -> Seq<u8>;

pub uninterp spec fn sha1_of(b: Seq<u8>) -> Seq<u8>;

/// The digest of `data` under the algorithm the tag names.
pub open spec fn computed_digest(iv: IntegrityView, data: Seq<u8>) -> Seq<u8> {
    match iv {
        IntegrityView::SHA512(_) => sha512_of(data),
        IntegrityView::SHA384(_) => sha384_of(data),
        IntegrityView::SHA256(_) => sha256_of(data),
        IntegrityView::SHA224(_) => sha224_of(data),
        IntegrityView::SHA1(_) => sha1_of(data),
    }
}

/// Relies on sha2's `Sha512` through the `Digest` trait: the digest depends
/// on the bytes alone and is 64 bytes long.
#[verifier::external_body]
fn digest_sha512(b: &[u8]) -> (r: Vec<u8>)
    ensures
        r@ == sha512_of(b@),
        r@.len() == 64,
{
    sha2::Sha512::digest(b).to_vec()
}

/// Relies on sha2's `Sha384` through the `Digest` trait: the digest depends
/// on the bytes alone and is 48 bytes long.
#[verifier::external_body]
fn digest_sha384(b: &[u8]) -> (r: Vec<u8>)
    ensures
        r@ == sha384_of(b@),
        r@.len() == 48,
{
    sha2::Sha384::digest(b).to_vec()
}

/// Relies on sha2's `Sha256` through the `Digest` trait: the digest depends
/// on the bytes alone and is 32 bytes long.
#[verifier::external_body]
fn digest_sha256(b: &[u8]) -> (r: Vec<u8>)
    ensures
        r@ == sha256_of(b@),
        r@.len() == 32,
{
    sha2::Sha256::digest(b).to_vec()
}

/// Relies on sha2's `Sha224` through the `Digest` trait: the digest depends
/// on the bytes alone and is 28 bytes long.
#[verifier::external_body]
fn digest_sha224(b: &[u8]) -> (r: Vec<u8>)
    ensures
        r@ == sha224_of(b@),
        r@.len() == 28,
{
    sha2::Sha224::digest(b).to_vec()
}

/// Relies on sha1-checked's `Sha1` through the `Digest` trait: the digest
/// depends on the bytes alone and is 20 bytes long.
#[verifier::external_body]
fn digest_sha1(b: &[u8]) -> (r: Vec<u8>)
    ensures
        r@ == sha1_of(b@),
        r@.len() == 20,
{
    sha1_checked::Sha1::digest(b).to_vec()
}

/// The SHA-512 integrity of the given bytes: what a fresh pin of this data
/// records.
pub fn sha512_integrity_of(data: &[u8]) -> (r: SpecVersionIntegrity)
    ensures
        r@ == IntegrityView::SHA512(sha512_of(data@)),
        expected_bytes(r@).len() == 64,
{
    SpecVersionIntegrity::SHA512(digest_sha512(data))
}

/// Byte-for-byte equality of two slices.
pub fn bytes_eq(a: &[u8], b: &[u8]) -> (r: bool)
    ensures
        r == (a@ == b@),
{
    if a.len() != b.len() {
        proof {
            assert(a@.len() != b@.len());
        }
        return false;
    }
    let mut i: usize = 0;
    while i < a.len()
        invariant
            0 <= i <= a@.len(),
            a@.len() == b@.len(),
            forall|k: int| 0 <= k < i ==> a@[k] == b@[k],
        decreases a@.len() - i,
    {
        if a[i] != b[i] {
            return false;
        }
        i = i + 1;
    }
    proof {
        assert(a@ =~= b@);
    }
    true
}

// ---------------------------------------------------------------------------
// Parsing, rendering, verifying
// ---------------------------------------------------------------------------

pub open spec fn sha512_tag() -> Seq<char> {
    seq!['s', 'h', 'a', '5', '1', '2']
}

pub open spec fn sha384_tag() -> Seq<char> {
    seq!['s', 'h', 'a', '3', '8', '4']
}

pub open spec fn sha256_tag() -> Seq<char> {
    seq!['s', 'h', 'a', '2', '5', '6']
}

pub open spec fn sha224_tag() -> Seq<char> {
    seq!['s', 'h', 'a', '2', '2', '4']
}

pub open spec fn sha1_tag() -> Seq<char> {
    seq!['s', 'h', 'a', '1']
}

pub open spec fn algo_tag(iv: IntegrityView) -> Seq<char> {
    match iv {
        IntegrityView::SHA512(_) => sha512_tag(),
        IntegrityView::SHA384(_) => sha384_tag(),
        IntegrityView::SHA256(_) => sha256_tag(),
        IntegrityView::SHA224(_) => sha224_tag(),
        IntegrityView::SHA1(_) => sha1_tag(),
    }
}

/// The string form: `<algorithm>.<lowercase hex>`.
pub open spec fn render_integrity(iv: IntegrityView) -> Seq<char> {
    algo_tag(iv) + seq!['.'] + hex_encode(expected_bytes(iv))
}

pub open spec fn has_prefix(s: Seq<char>, p: Seq<char>) -> bool {
    s.len() >= p.len() && s.subrange(0, p.len() as int) == p
}

/// Parses a build-metadata string as a pinned digest.  An unrecognized tag
/// means no pinned integrity, not an error; a recognized tag with bad hex is
/// an error.
pub open spec fn spec_parse_integrity(s: Seq<char>) -> Result<Option<IntegrityView>, ()> {
    if has_prefix(s, sha512_tag() + seq!['.']) {
        match hex_decode(s.skip(7)) {
            Some(b) => Ok(Some(IntegrityView::SHA512(b))),
            None => Err(()),
        }
    } else if has_prefix(s, sha384_tag() + seq!['.']) {
        match hex_decode(s.skip(7)) {
            Some(b) => Ok(Some(IntegrityView::SHA384(b))),
            None => Err(()),
        }
    } else if has_prefix(s, sha256_tag() + seq!['.']) {
        match hex_decode(s.skip(7)) {
            Some(b) => Ok(Some(IntegrityView::SHA256(b))),
            None => Err(()),
        }
    } else if has_prefix(s, sha224_tag() + seq!['.']) {
        match hex_decode(s.skip(7)) {
            Some(b) => Ok(Some(IntegrityView::SHA224(b))),
            None => Err(()),
        }
    } else if has_prefix(s, sha1_tag() + seq!['.']) {
        match hex_decode(s.skip(5)) {
            Some(b) => Ok(Some(IntegrityView::SHA1(b))),
            None => Err(()),
        }
    } else {
        Ok(None)
    }
}

/// Prefix test against an explicit pattern slice.
pub(crate) fn check_prefix(v: &[char], p: &[char]) -> (b: bool)
    ensures
        b == has_prefix(v@, p@),
{
    if v.len() < p.len() {
        return false;
    }
    let mut i: usize = 0;
    while i < p.len()
        invariant
            0 <= i <= p@.len() <= v@.len(),
            forall|k: int| 0 <= k < i ==> v@[k] == p@[k],
        decreases p@.len() - i,
    {
        if v[i] != p[i] {
            proof {
                assert(v@.subrange(0, p@.len() as int)[i as int] != p@[i as int]);
            }
            return false;
        }
        i = i + 1;
    }
    proof {
        assert(v@.subrange(0, p@.len() as int) =~= p@);
    }
    true
}

fn sha512_prefix_vec() -> (r: Vec<char>)
    ensures
        r@ == sha512_tag() + seq!['.'],
{
    let mut v: Vec<char> = Vec::new();
    v.push('s');
    v.push('h');
    v.push('a');
    v.push('5');
    v.push('1');
    v.push('2');
    v.push('.');
    proof {
        assert(v@ =~= sha512_tag() + seq!['.']);
    }
    v
}

fn sha384_prefix_vec() -> (r: Vec<char>)
    ensures
        r@ == sha384_tag() + seq!['.'],
{
    let mut v: Vec<char> = Vec::new();
    v.push('s');
    v.push('h');
    v.push('a');
    v.push('3');
    v.push('8');
    v.push('4');
    v.push('.');
    proof {
        assert(v@ =~= sha384_tag() + seq!['.']);
    }
    v
}

fn sha256_prefix_vec() -> (r: Vec<char>)
    ensures
        r@ == sha256_tag() + seq!['.'],
{
    let mut v: Vec<char> = Vec::new();
    v.push('s');
    v.push('h');
    v.push('a');
    v.push('2');
    v.push('5');
    v.push('6');
    v.push('.');
    proof {
        assert(v@ =~= sha256_tag() + seq!['.']);
    }
    v
}

fn sha224_prefix_vec() -> (r: Vec<char>)
    ensures
        r@ == sha224_tag() + seq!['.'],
{
    let mut v: Vec<char> = Vec::new();
    v.push('s');
    v.push('h');
    v.push('a');
    v.push('2');
    v.push('2');
    v.push('4');
    v.push('.');
    proof {
        assert(v@ =~= sha224_tag() + seq!['.']);
    }
    v
}

fn sha1_prefix_vec() -> (r: Vec<char>)
    ensures
        r@ == sha1_tag() + seq!['.'],
{
    let mut v: Vec<char> = Vec::new();
    v.push('s');
    v.push('h');
    v.push('a');
    v.push('1');
    v.push('.');
    proof {
        assert(v@ =~= sha1_tag() + seq!['.']);
    }
    v
}

impl SpecVersionIntegrity {
    /// Parses a build-metadata string, exactly as [`spec_parse_integrity`].
    /// The error carries the offending string.
    pub fn parse(s: &str) -> (r: Result<Option<SpecVersionIntegrity>, Error>)
        ensures
            r is Ok <==> spec_parse_integrity(s@) is Ok,
            r matches Ok(o) ==> match (o, spec_parse_integrity(s@)) {
                (Some(iv), Ok(Some(sv))) => iv@ == sv,
                (None, Ok(None)) => true,
                _ => false,
            },
            r matches Err(e) ==> e matches Error::InvalidSpecifier { input } && input@ == s@,
    {
        let chars = crate::text::str_to_chars(s);
        let v = chars.as_slice();
        let p512 = sha512_prefix_vec();
        let p384 = sha384_prefix_vec();
        let p256 = sha256_prefix_vec();
        let p224 = sha224_prefix_vec();
        let p1 = sha1_prefix_vec();
        if check_prefix(v, p512.as_slice()) {
            match hex_decode_at(v, 7) {
                Some(b) => Ok(Some(SpecVersionIntegrity::SHA512(b))),
                None => Err(Error::InvalidSpecifier { input: s.to_owned() }),
            }
        } else if check_prefix(v, p384.as_slice()) {
            match hex_decode_at(v, 7) {
                Some(b) => Ok(Some(SpecVersionIntegrity::SHA384(b))),
                None => Err(Error::InvalidSpecifier { input: s.to_owned() }),
            }
        } else if check_prefix(v, p256.as_slice()) {
            match hex_decode_at(v, 7) {
                Some(b) => Ok(Some(SpecVersionIntegrity::SHA256(b))),
                None => Err(Error::InvalidSpecifier { input: s.to_owned() }),
            }
        } else if check_prefix(v, p224.as_slice()) {
            match hex_decode_at(v, 7) {
                Some(b) => Ok(Some(SpecVersionIntegrity::SHA224(b))),
                None => Err(Error::InvalidSpecifier { input: s.to_owned() }),
            }
        } else if check_prefix(v, p1.as_slice()) {
            match hex_decode_at(v, 5) {
                Some(b) => Ok(Some(SpecVersionIntegrity::SHA1(b))),
                None => Err(Error::InvalidSpecifier { input: s.to_owned() }),
            }
        } else {
            Ok(None)
        }
    }

    /// The string form `<algorithm>.<hex>`.
    pub fn render(&self) -> (s: String)
        ensures
            s@ == render_integrity(self@),
    {
        let mut out: Vec<char> = Vec::new();
        match self {
            SpecVersionIntegrity::SHA512(b) => {
                let p = sha512_prefix_vec();
                out = p;
                push_hex(&mut out, b.as_slice());
                proof {
                    assert(out@ =~= render_integrity(self@));
                }
            },
            SpecVersionIntegrity::SHA384(b) => {
                let p = sha384_prefix_vec();
                out = p;
                push_hex(&mut out, b.as_slice());
                proof {
                    assert(out@ =~= render_integrity(self@));
                }
            },
            SpecVersionIntegrity::SHA256(b) => {
                let p = sha256_prefix_vec();
                out = p;
                push_hex(&mut out, b.as_slice());
                proof {
                    assert(out@ =~= render_integrity(self@));
                }
            },
            SpecVersionIntegrity::SHA224(b) => {
                let p = sha224_prefix_vec();
                out = p;
                push_hex(&mut out, b.as_slice());
                proof {
                    assert(out@ =~= render_integrity(self@));
                }
            },
            SpecVersionIntegrity::SHA1(b) => {
                let p = sha1_prefix_vec();
                out = p;
                push_hex(&mut out, b.as_slice());
                proof {
                    assert(out@ =~= render_integrity(self@));
                }
            },
        }
        crate::text::chars_to_string(out.as_slice())
    }

    /// Recomputes the digest of `bytes` and compares it with the pinned
    /// bytes; a mismatch reports both values in hex.
    pub fn verify(&self, bytes: &[u8]) -> (r: Result<(), (String, String)>)
        ensures
            r is Ok <==> expected_bytes(self@) == computed_digest(self@, bytes@),
            r matches Err(e) ==> e.0@ == hex_encode(expected_bytes(self@)) && e.1@ == hex_encode(
                computed_digest(self@, bytes@),
            ),
    {
        let (expected, actual): (&Vec<u8>, Vec<u8>) = match self {
            SpecVersionIntegrity::SHA512(h) => (h, digest_sha512(bytes)),
            SpecVersionIntegrity::SHA384(h) => (h, digest_sha384(bytes)),
            SpecVersionIntegrity::SHA256(h) => (h, digest_sha256(bytes)),
            SpecVersionIntegrity::SHA224(h) => (h, digest_sha224(bytes)),
            SpecVersionIntegrity::SHA1(h) => (h, digest_sha1(bytes)),
        };
        if bytes_eq(expected.as_slice(), actual.as_slice()) {
            Ok(())
        } else {
            Err((hex_encode_bytes(expected.as_slice()), hex_encode_bytes(actual.as_slice())))
        }
    }
}

// ---------------------------------------------------------------------------
// The integrity pinned in a specifier
// ---------------------------------------------------------------------------

/// The integrity a selector pins: parsed from an exact version's build
/// metadata; other selectors pin nothing.
pub open spec fn spec_selector_integrity(sel: crate::specifier::SelectorView) -> Result<
    Option<IntegrityView>,
    (),
> {
    match sel {
        crate::specifier::SelectorView::Exact(v) => spec_parse_integrity(
            crate::version::join_dots(v.build),
        ),
        _ => Ok(None),
    }
}

impl crate::specifier::SpecVersion {
    /// The integrity pinned in this selector's build metadata, if any,
    /// exactly as [`spec_selector_integrity`].
    pub fn integrity(&self) -> (r: Result<Option<SpecVersionIntegrity>, Error>)
        ensures
            r is Ok <==> spec_selector_integrity(self@) is Ok,
            r matches Ok(o) ==> match (o, spec_selector_integrity(self@)) {
                (Some(iv), Ok(Some(sv))) => iv@ == sv,
                (None, Ok(None)) => true,
                _ => false,
            },
            r matches Err(e) ==> e is InvalidSpecifier,
    {
        match self {
            crate::specifier::SpecVersion::Exact(v) => {
                let mut out: Vec<char> = Vec::new();
                if v.build.len() > 0 {
                    crate::version::push_ids(&mut out, &v.build);
                } else {
                    proof {
                        assert(crate::version::join_dots(crate::version::ids_view(v.build@))
                            =~= Seq::<char>::empty());
                    }
                }
                let s = crate::text::chars_to_string(out.as_slice());
                SpecVersionIntegrity::parse(s.as_str())
            },
            _ => Ok(None),
        }
    }
}

impl crate::specifier::Spec {
    /// Verifies this specifier's pinned integrity, if any, against the given
    /// data.  Callers choose the data the pin speaks about: the downloaded
    /// archive bytes, or the tool's unpacked executable.
    pub fn verify_pinned(&self, data: &[u8]) -> (r: Result<(), Error>)
        ensures
            spec_selector_integrity(self@.version) is Err ==> (r matches Err(e)
                && e is InvalidSpecifier),
            spec_selector_integrity(self@.version) matches Ok(None) ==> r is Ok,
            spec_selector_integrity(self@.version) matches Ok(Some(iv)) ==> {
                &&& (r is Ok <==> expected_bytes(iv) == computed_digest(iv, data@))
                &&& (r matches Err(e) ==> e matches Error::IntegrityMismatch {
                    expected,
                    actual,
                } && expected@ == hex_encode(expected_bytes(iv)) && actual@ == hex_encode(
                    computed_digest(iv, data@),
                ))
            },
    {
        let integ = match self.version.integrity() {
            Ok(Some(i)) => i,
            Ok(None) => { return Ok(()) },
            Err(e) => { return Err(e) },
        };
        match integ.verify(data) {
            Ok(()) => Ok(()),
            Err((expected, actual)) => Err(Error::IntegrityMismatch { expected, actual }),
        }
    }
}

} // verus!
