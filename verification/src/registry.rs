//! The registry model: package metadata (all versions and dist-tags) and
//! single-version metadata, with the resolver's selection rules.  Lookups in
//! the association lists take the first match.

use vstd::prelude::*;

use crate::errors::Error;
use crate::integrity::{hex_decode, IntegrityView, SpecVersionIntegrity};
use crate::order::{cmp_prec, Cmp};
use crate::range::{req_matches, ComparatorView, VersionReq};
use crate::version::{spec_parse_version, SemVer, VersionView};

verus! {

/// One signature entry of a version's distribution.
#[derive(Clone, Debug, PartialEq, Eq)]
pub struct NpmVersionSignature {
    pub keyid: String,
    pub sig: String,
}

/// The distribution of a version: where the tarball lives and how it is
/// authenticated.
#[derive(Clone, Debug, PartialEq, Eq)]
pub struct NpmVersionDist {
    pub tarball: String,
    pub shasum: String,
    pub integrity: Option<String>,
    pub signatures: Vec<NpmVersionSignature>,
}

/// Single-version metadata from the registry; never mutated after
/// construction.
#[derive(Clone, Debug, PartialEq, Eq)]
pub struct NpmVersion {
    pub name: String,
    pub version: SemVer,
    pub bin: Vec<(String, String)>,
    pub dist: NpmVersionDist,
}

/// Package metadata: all versions keyed by their version strings, and the
/// dist-tag aliases.
#[derive(Clone, Debug, PartialEq, Eq)]
pub struct NpmPackage {
    pub versions: Vec<(String, NpmVersion)>,
    pub dist_tags: Vec<(String, String)>,
}

pub ghost struct NpmVersionView {
    pub name: Seq<char>,
    pub version: VersionView,
    pub bin: Seq<(Seq<char>, Seq<char>)>,
    pub tarball: Seq<char>,
    pub shasum: Seq<char>,
    pub integrity: Option<Seq<char>>,
    pub signatures: Seq<(Seq<char>, Seq<char>)>,
}

pub open spec fn pairs_view(v: Seq<(String, String)>) -> Seq<(Seq<char>, Seq<char>)> {
    Seq::new(v.len(), |i: int| (v[i].0@, v[i].1@))
}

pub open spec fn signatures_view(v: Seq<NpmVersionSignature>) -> Seq<(Seq<char>, Seq<char>)> {
    Seq::new(v.len(), |i: int| (v[i].keyid@, v[i].sig@))
}

impl View for NpmVersion {
    type V = NpmVersionView;

    open spec fn view(&self) -> NpmVersionView {
        NpmVersionView {
            name: self.name@,
            version: self.version@,
            bin: pairs_view(self.bin@),
            tarball: self.dist.tarball@,
            shasum: self.dist.shasum@,
            integrity: match self.dist.integrity {
                Some(ref s) => Some(s@),
                None => None,
            },
            signatures: signatures_view(self.dist.signatures@),
        }
    }
}

pub ghost struct NpmPackageView {
    pub versions: Seq<(Seq<char>, NpmVersionView)>,
    pub dist_tags: Seq<(Seq<char>, Seq<char>)>,
}

pub open spec fn entries_view(v: Seq<(String, NpmVersion)>) -> Seq<(Seq<char>, NpmVersionView)> {
    Seq::new(v.len(), |i: int| (v[i].0@, v[i].1@))
}

impl View for NpmPackage {
    type V = NpmPackageView;

    open spec fn view(&self) -> NpmPackageView {
        NpmPackageView {
            versions: entries_view(self.versions@),
            dist_tags: pairs_view(self.dist_tags@),
        }
    }
}

// ---------------------------------------------------------------------------
// Duplication with exact views
// ---------------------------------------------------------------------------

pub(crate) fn copy_ids(ids: &Vec<Vec<char>>) -> (r: Vec<Vec<char>>)
    ensures
        crate::version::ids_view(r@) == crate::version::ids_view(ids@),
{
    let mut r: Vec<Vec<char>> = Vec::new();
    let mut i: usize = 0;
    while i < ids.len()
        invariant
            0 <= i <= ids@.len(),
            r@.len() == i,
            forall|k: int| 0 <= k < i ==> #[trigger] r@[k]@ == ids@[k]@,
        decreases ids@.len() - i,
    {
        let mut id: Vec<char> = Vec::new();
        let mut j: usize = 0;
        while j < ids[i].len()
            invariant
                0 <= j <= ids@[i as int]@.len(),
                i < ids@.len(),
                id@ == ids@[i as int]@.subrange(0, j as int),
            decreases ids@[i as int]@.len() - j,
        {
            id.push(ids[i][j]);
            j = j + 1;
            proof {
                assert(id@ =~= ids@[i as int]@.subrange(0, j as int));
            }
        }
        proof {
            assert(id@ =~= ids@[i as int]@);
        }
        r.push(id);
        i = i + 1;
    }
    proof {
        assert(crate::version::ids_view(r@) =~= crate::version::ids_view(ids@));
    }
    r
}

impl SemVer {
    /// A copy with the same value.
    pub fn duplicate(&self) -> (r: SemVer)
        ensures
            r@ == self@,
    {
        SemVer {
            major: self.major,
            minor: self.minor,
            patch: self.patch,
            pre: copy_ids(&self.pre),
            build: copy_ids(&self.build),
        }
    }
}

fn copy_pairs(v: &Vec<(String, String)>) -> (r: Vec<(String, String)>)
    ensures
        pairs_view(r@) == pairs_view(v@),
{
    let mut r: Vec<(String, String)> = Vec::new();
    let mut i: usize = 0;
    while i < v.len()
        invariant
            0 <= i <= v@.len(),
            r@.len() == i,
            forall|k: int|
                0 <= k < i ==> #[trigger] r@[k].0@ == v@[k].0@ && r@[k].1@ == v@[k].1@,
        decreases v@.len() - i,
    {
        let (a, b) = (&v[i].0, &v[i].1);
        r.push((a.clone(), b.clone()));
        i = i + 1;
    }
    proof {
        assert(pairs_view(r@) =~= pairs_view(v@));
    }
    r
}

impl NpmVersion {
    /// A copy with the same value.
    pub fn duplicate(&self) -> (r: NpmVersion)
        ensures
            r@ == self@,
    {
        let mut sigs: Vec<NpmVersionSignature> = Vec::new();
        let n = self.dist.signatures.len();
        let mut i: usize = 0;
        while i < n
            invariant
                0 <= i <= n,
                n == self.dist.signatures@.len(),
                sigs@.len() == i,
                forall|k: int|
                    0 <= k < i ==> #[trigger] sigs@[k].keyid@ == self.dist.signatures@[k].keyid@
                        && sigs@[k].sig@ == self.dist.signatures@[k].sig@,
            decreases n - i,
        {
            let s = &self.dist.signatures[i];
            sigs.push(NpmVersionSignature { keyid: s.keyid.clone(), sig: s.sig.clone() });
            i = i + 1;
        }
        let r = NpmVersion {
            name: self.name.clone(),
            version: self.version.duplicate(),
            bin: copy_pairs(&self.bin),
            dist: NpmVersionDist {
                tarball: self.dist.tarball.clone(),
                shasum: self.dist.shasum.clone(),
                integrity: match &self.dist.integrity {
                    Some(s) => Some(s.clone()),
                    None => None,
                },
                signatures: sigs,
            },
        };
        proof {
            assert(signatures_view(r.dist.signatures@) =~= signatures_view(
                self.dist.signatures@,
            ));
        }
        r
    }
}

// ---------------------------------------------------------------------------
// Lookups
// ---------------------------------------------------------------------------

/// First-match lookup in an association list.
pub open spec fn assoc(pairs: Seq<(Seq<char>, Seq<char>)>, key: Seq<char>) -> Option<Seq<char>>
    decreases pairs.len(),
{
    if pairs.len() == 0 {
        None
    } else if pairs[0].0 == key {
        Some(pairs[0].1)
    } else {
        assoc(pairs.drop_first(), key)
    }
}

/// First-match lookup among the version entries.
pub open spec fn ventry(entries: Seq<(Seq<char>, NpmVersionView)>, key: Seq<char>) -> Option<
    NpmVersionView,
>
    decreases entries.len(),
{
    if entries.len() == 0 {
        None
    } else if entries[0].0 == key {
        Some(entries[0].1)
    } else {
        ventry(entries.drop_first(), key)
    }
}

/// What a dist-tag resolves to: the tag's version string looked up among the
/// version entries.
pub open spec fn spec_find_dist_tag(p: NpmPackageView, tag: Seq<char>) -> Option<NpmVersionView> {
    match assoc(p.dist_tags, tag) {
        None => None,
        Some(vs) => ventry(p.versions, vs),
    }
}

pub(crate) fn chars_eq_str(a: &str, b: &str) -> (r: bool)
    ensures
        r == (a@ == b@),
{
    let va = crate::text::str_to_chars(a);
    let vb = crate::text::str_to_chars(b);
    if va.len() != vb.len() {
        return false;
    }
    let mut i: usize = 0;
    while i < va.len()
        invariant
            0 <= i <= va@.len(),
            va@.len() == vb@.len(),
            va@ == a@,
            vb@ == b@,
            forall|k: int| 0 <= k < i ==> va@[k] == vb@[k],
        decreases va@.len() - i,
    {
        if va[i] != vb[i] {
            return false;
        }
        i = i + 1;
    }
    proof {
        assert(a@ =~= b@);
    }
    true
}

pub(crate) proof fn lemma_assoc_at(pairs: Seq<(Seq<char>, Seq<char>)>, key: Seq<char>, i: int)
    requires
        0 <= i <= pairs.len(),
        forall|k: int| 0 <= k < i ==> #[trigger] pairs[k].0 != key,
        i == pairs.len() || pairs[i].0 == key,
    ensures
        assoc(pairs, key) == if i == pairs.len() {
            None::<Seq<char>>
        } else {
            Some(pairs[i].1)
        },
    decreases i,
{
    if i > 0 {
        lemma_assoc_at(pairs.drop_first(), key, i - 1);
    }
}

proof fn lemma_ventry_at(entries: Seq<(Seq<char>, NpmVersionView)>, key: Seq<char>, i: int)
    requires
        0 <= i <= entries.len(),
        forall|k: int| 0 <= k < i ==> #[trigger] entries[k].0 != key,
        i == entries.len() || entries[i].0 == key,
    ensures
        ventry(entries, key) == if i == entries.len() {
            None::<NpmVersionView>
        } else {
            Some(entries[i].1)
        },
    decreases i,
{
    if i > 0 {
        lemma_ventry_at(entries.drop_first(), key, i - 1);
    }
}

impl NpmPackage {
    /// Resolves a dist-tag: the tag names a version string, which must name a
    /// version entry; a miss at either step is a miss.
    pub fn find_dist_tag(&self, dist_tag: &str) -> (r: Option<NpmVersion>)
        ensures
            r is Some <==> spec_find_dist_tag(self@, dist_tag@) is Some,
            r matches Some(v) ==> Some(v@) == spec_find_dist_tag(self@, dist_tag@),
    {
        let n = self.dist_tags.len();
        let mut i: usize = 0;
        while i < n
            invariant
                0 <= i <= n,
                n == self.dist_tags@.len(),
                forall|k: int| 0 <= k < i ==> #[trigger] self@.dist_tags[k].0 != dist_tag@,
            decreases n - i,
        {
            if chars_eq_str(self.dist_tags[i].0.as_str(), dist_tag) {
                proof {
                    assert(self@.dist_tags[i as int].0 == dist_tag@);
                    lemma_assoc_at(self@.dist_tags, dist_tag@, i as int);
                }
                let vs: &String = &self.dist_tags[i].1;
                let m = self.versions.len();
                let mut j: usize = 0;
                while j < m
                    invariant
                        0 <= j <= m,
                        m == self.versions@.len(),
                        i < self.dist_tags@.len(),
                        assoc(self@.dist_tags, dist_tag@) == Some(self.dist_tags@[i as int].1@),
                        vs@ == self.dist_tags@[i as int].1@,
                        forall|k: int| 0 <= k < j ==> #[trigger] self@.versions[k].0 != vs@,
                    decreases m - j,
                {
                    if chars_eq_str(self.versions[j].0.as_str(), vs.as_str()) {
                        proof {
                            assert(self@.versions[j as int].0 == vs@);
                            lemma_ventry_at(self@.versions, vs@, j as int);
                        }
                        return Some(self.versions[j].1.duplicate());
                    }
                    j = j + 1;
                }
                proof {
                    lemma_ventry_at(self@.versions, vs@, m as int);
                }
                return None;
            }
            i = i + 1;
        }
        proof {
            lemma_assoc_at(self@.dist_tags, dist_tag@, n as int);
        }
        None
    }
}

// ---------------------------------------------------------------------------
// Range resolution
// ---------------------------------------------------------------------------

/// The parsed version of an entry's key, if its key parses.
pub open spec fn entry_version(e: (Seq<char>, NpmVersionView)) -> Option<VersionView> {
    spec_parse_version(e.0)
}

/// Whether an entry's key parses and satisfies the requirement.
pub open spec fn entry_matches(e: (Seq<char>, NpmVersionView), rs: Seq<ComparatorView>) -> bool {
    entry_version(e) matches Some(v) && req_matches(rs, v)
}

impl NpmPackage {
    /// Selects, among the entries whose keys parse and satisfy the
    /// requirement, one of maximal precedence; `None` when no entry matches.
    /// Unparsable keys are silently discarded.
    pub fn find_version_req(&self, req: &VersionReq) -> (r: Option<NpmVersion>)
        ensures
            r is None ==> forall|j: int|
                0 <= j < self@.versions.len() ==> !entry_matches(#[trigger] self@.versions[j], req@),
            r matches Some(x) ==> exists|i: int|
                0 <= i < self@.versions.len() && entry_matches(#[trigger] self@.versions[i], req@)
                    && x@ == self@.versions[i].1 && (forall|j: int|
                    0 <= j < self@.versions.len() && entry_matches(
                        #[trigger] self@.versions[j],
                        req@,
                    ) ==> cmp_prec(
                    entry_version(self@.versions[j])->Some_0,
                    entry_version(self@.versions[i])->Some_0,
                ) != Cmp::Gt),
    {
        let n = self.versions.len();
        let mut best: Option<(usize, SemVer)> = None;
        let mut i: usize = 0;
        while i < n
            invariant
                0 <= i <= n,
                n == self.versions@.len(),
                best is None ==> forall|j: int|
                    0 <= j < i ==> !entry_matches(#[trigger] self@.versions[j], req@),
                best matches Some((bi, bsv)) ==> 0 <= bi < i && entry_matches(
                    self@.versions[bi as int],
                    req@,
                ) && Some(bsv@) == entry_version(self@.versions[bi as int]) && (forall|j: int|
                    0 <= j < i && entry_matches(#[trigger] self@.versions[j], req@) ==> cmp_prec(
                        entry_version(self@.versions[j])->Some_0,
                        bsv@,
                    ) != Cmp::Gt),
            decreases n - i,
        {
            let key = &self.versions[i].0;
            proof {
                assert(self@.versions[i as int].0 == key@);
            }
            if let Some(sv) = crate::version::parse_version(key.as_str()) {
                if req.matches_version(&sv) {
                    proof {
                        assert(entry_matches(self@.versions[i as int], req@));
                    }
                    match &best {
                        None => {
                            proof {
                                crate::order::lemma_cmp_prec_refl(sv@);
                            }
                            best = Some((i, sv));
                        },
                        Some((bi, bsv)) => {
                            if sv.cmp_precedence(bsv) == Cmp::Gt {
                                proof {
                                    let old_b = bsv@;
                                    crate::order::lemma_cmp_prec_flip(sv@, old_b);
                                    crate::order::lemma_cmp_prec_refl(sv@);
                                    assert forall|j: int|
                                        0 <= j < i + 1 && entry_matches(
                                            #[trigger] self@.versions[j],
                                            req@,
                                        ) implies cmp_prec(
                                        entry_version(self@.versions[j])->Some_0,
                                        sv@,
                                    ) != Cmp::Gt by {
                                        if j < i {
                                            let vj = entry_version(self@.versions[j])->Some_0;
                                            assert(cmp_prec(vj, old_b) != Cmp::Gt);
                                            assert(cmp_prec(old_b, sv@) == Cmp::Lt);
                                            crate::order::lemma_cmp_prec_le_trans(
                                                vj,
                                                old_b,
                                                sv@,
                                            );
                                        }
                                    }
                                }
                                best = Some((i, sv));
                            } else {
                                proof {
                                    assert(cmp_prec(sv@, bsv@) != Cmp::Gt);
                                }
                            }
                        },
                    }
                }
            } else {
                proof {
                    assert(!entry_matches(self@.versions[i as int], req@));
                }
            }
            i = i + 1;
        }
        match best {
            None => None,
            Some((bi, _)) => Some(self.versions[bi].1.duplicate()),
        }
    }
}

// ---------------------------------------------------------------------------
// Download integrity
// ---------------------------------------------------------------------------

pub open spec fn sha512_dash() -> Seq<char> {
    seq!['s', 'h', 'a', '5', '1', '2', '-']
}

/// The digest a version's distribution pins: the base64 payload of a
/// `sha512-` integrity string when present, otherwise the legacy hex
/// `shasum`.  An unrecognized or undecodable field is an error.
pub open spec fn spec_npm_integrity(v: NpmVersionView) -> Result<IntegrityView, ()> {
    match v.integrity {
        Some(istr) => if crate::integrity::has_prefix(istr, sha512_dash()) {
            match crate::integrity::b64_decode_of(istr.skip(7)) {
                Some(b) => Ok(IntegrityView::SHA512(b)),
                None => Err(()),
            }
        } else {
            Err(())
        },
        None => match hex_decode(v.shasum) {
            Some(b) => Ok(IntegrityView::SHA1(b)),
            None => Err(()),
        },
    }
}

fn sha512_dash_vec() -> (r: Vec<char>)
    ensures
        r@ == sha512_dash(),
{
    let mut v: Vec<char> = Vec::new();
    v.push('s');
    v.push('h');
    v.push('a');
    v.push('5');
    v.push('1');
    v.push('2');
    v.push('-');
    proof {
        assert(v@ =~= sha512_dash());
    }
    v
}

impl NpmVersion {
    /// The digest this version's registry metadata pins, exactly as
    /// [`spec_npm_integrity`].
    pub fn integrity(&self) -> (r: Result<SpecVersionIntegrity, Error>)
        ensures
            r is Ok <==> spec_npm_integrity(self@) is Ok,
            r matches Ok(iv) ==> Ok::<IntegrityView, ()>(iv@) == spec_npm_integrity(self@),
            r matches Err(e) ==> e is RegistryDecode,
    {
        match &self.dist.integrity {
            Some(istr) => {
                let chars = crate::text::str_to_chars(istr.as_str());
                let p = sha512_dash_vec();
                if crate::integrity::check_prefix(chars.as_slice(), p.as_slice()) {
                    let rest = crate::text::slice_range_to_vec(chars.as_slice(), 7, chars.len());
                    proof {
                        assert(rest@ =~= istr@.skip(7));
                    }
                    let rest_str = crate::text::chars_to_string(rest.as_slice());
                    match crate::integrity::base64_decode(rest_str.as_str()) {
                        Some(b) => Ok(SpecVersionIntegrity::SHA512(b)),
                        None => Err(Error::RegistryDecode),
                    }
                } else {
                    Err(Error::RegistryDecode)
                }
            },
            None => {
                let chars = crate::text::str_to_chars(self.dist.shasum.as_str());
                match crate::integrity::hex_decode_chars(chars.as_slice()) {
                    Some(b) => Ok(SpecVersionIntegrity::SHA1(b)),
                    None => Err(Error::RegistryDecode),
                }
            },
        }
    }

    /// Verifies the downloaded bytes against the pinned digest.  An
    /// undecodable integrity field is a decode error; a differing digest is
    /// an integrity mismatch carrying both hex values.
    pub fn verify_integrity(&self, bytes: &[u8]) -> (r: Result<(), Error>)
        ensures
            spec_npm_integrity(self@) is Err ==> (r matches Err(e) && e is RegistryDecode),
            spec_npm_integrity(self@) matches Ok(iv) ==> {
                &&& (r is Ok <==> crate::integrity::expected_bytes(iv)
                    == crate::integrity::computed_digest(iv, bytes@))
                &&& (r matches Err(e) ==> e matches Error::IntegrityMismatch {
                    expected,
                    actual,
                } && expected@ == crate::integrity::hex_encode(
                    crate::integrity::expected_bytes(iv),
                ) && actual@ == crate::integrity::hex_encode(
                    crate::integrity::computed_digest(iv, bytes@),
                ))
            },
    {
        let integ = match self.integrity() {
            Ok(i) => i,
            Err(e) => { return Err(e) },
        };
        match integ.verify(bytes) {
            Ok(()) => Ok(()),
            Err((expected, actual)) => Err(Error::IntegrityMismatch { expected, actual }),
        }
    }
}


// ---------------------------------------------------------------------------
// Resolution against package metadata
// ---------------------------------------------------------------------------

/// Resolves a non-exact selector against fetched package metadata: a
/// requirement selects its highest admitted version, a dist-tag follows the
/// alias; a miss is `NoMatchingVersion`, reported with the rendered
/// specifier.  (An exact selector is resolved against the single-version
/// endpoint instead and never consults package metadata.)
pub fn resolve_in_package(spec: &crate::specifier::Spec, package: &NpmPackage) -> (r: Result<
    NpmVersion,
    Error,
>)
    requires
        !(spec@.version is Exact),
    ensures
        spec@.version matches crate::specifier::SelectorView::Req(rs) ==> {
            &&& (r is Err <==> (forall|j: int|
                0 <= j < package@.versions.len() ==> !entry_matches(
                    #[trigger] package@.versions[j],
                    rs,
                )))
            &&& (r matches Ok(x) ==> exists|i: int|
                0 <= i < package@.versions.len() && entry_matches(
                    #[trigger] package@.versions[i],
                    rs,
                ) && x@ == package@.versions[i].1 && (forall|j: int|
                    0 <= j < package@.versions.len() && entry_matches(
                        #[trigger] package@.versions[j],
                        rs,
                    ) ==> cmp_prec(
                    entry_version(package@.versions[j])->Some_0,
                    entry_version(package@.versions[i])->Some_0,
                ) != Cmp::Gt))
        },
        spec@.version matches crate::specifier::SelectorView::Tag(t) ==> {
            &&& (r is Ok <==> spec_find_dist_tag(package@, t) is Some)
            &&& (r matches Ok(x) ==> Some(x@) == spec_find_dist_tag(package@, t))
        },
        r matches Err(e) ==> e matches Error::NoMatchingVersion { spec: sp } && sp@
            == crate::specifier::render_spec(spec@, false),
{
    let found = match &spec.version {
        crate::specifier::SpecVersion::SemverReq(req) => package.find_version_req(req),
        crate::specifier::SpecVersion::DistTag(tag) => package.find_dist_tag(tag.as_str()),
        crate::specifier::SpecVersion::Exact(_) => None,
    };
    match found {
        Some(v) => Ok(v),
        None => Err(Error::NoMatchingVersion { spec: spec.render(false) }),
    }
}

} // verus!\n