//! The cache store's bookkeeping: the set of cached versions of one tool,
//! kept strictly ordered by precedence and without build metadata, exactly as
//! the on-disk directory names are.  A version is present at most once; the
//! clean operation keeps the single highest version unless asked to drop all.

use vstd::prelude::*;

use crate::order::{cmp_prec, Cmp};
use crate::range::req_matches;
use crate::specifier::{SelectorView, SpecVersion};
use crate::version::{SemVer, VersionView};

verus! {

/// The cached versions of one tool, ascending by precedence.
#[derive(Clone, Debug, PartialEq, Eq)]
pub struct CacheIndex {
    pub versions: Vec<SemVer>,
}

/// The version values of an index's entries.
pub open spec fn sem_views(s: Seq<SemVer>) -> Seq<VersionView> {
    Seq::new(s.len(), |i: int| s[i]@)
}

/// Well-formed: no build metadata, strictly ascending precedence (hence no
/// duplicates).
pub open spec fn index_wf(s: Seq<SemVer>) -> bool {
    &&& (forall|i: int| 0 <= i < s.len() ==> (#[trigger] s[i]@).build.len() == 0)
    &&& (forall|i: int, j: int|
        0 <= i < j < s.len() ==> cmp_prec(#[trigger] s[i]@, #[trigger] s[j]@) == Cmp::Lt)
}

/// Whether a precedence-equal version is present.
pub open spec fn contains_prec(s: Seq<SemVer>, v: VersionView) -> bool {
    exists|i: int| 0 <= i < s.len() && cmp_prec(#[trigger] s[i]@, v) == Cmp::Eq
}

/// Precedence-equal versions are interchangeable in a membership test.
proof fn lemma_contains_congr(s: Seq<SemVer>, v: VersionView, w: VersionView)
    requires
        cmp_prec(w, v) == Cmp::Eq,
        contains_prec(s, v),
    ensures
        contains_prec(s, w),
{
    let k = choose|k: int| 0 <= k < s.len() && cmp_prec(#[trigger] s[k]@, v) == Cmp::Eq;
    let x = s[k]@;
    crate::order::lemma_cmp_prec_flip(w, v);
    crate::order::lemma_cmp_prec_flip(x, v);
    crate::order::lemma_cmp_prec_le_trans(x, v, w);
    crate::order::lemma_cmp_prec_le_trans(w, v, x);
    crate::order::lemma_cmp_prec_flip(x, w);
    assert(cmp_prec(x, w) == Cmp::Eq);
}

/// Inserting a fresh version at its ordered position keeps the index well
/// formed and adjusts membership by exactly that version.
#[verifier::rlimit(60)]
proof fn lemma_index_insert(olds: Seq<SemVer>, x: SemVer, v: VersionView, i: int)
    requires
        index_wf(olds),
        0 <= i <= olds.len(),
        x@.build.len() == 0,
        cmp_prec(x@, v) == Cmp::Eq,
        forall|k: int| 0 <= k < i ==> cmp_prec(#[trigger] olds[k]@, v) == Cmp::Lt,
        i < olds.len() ==> cmp_prec(olds[i]@, v) == Cmp::Gt,
    ensures
        index_wf(olds.insert(i, x)),
        contains_prec(olds.insert(i, x), v),
        !contains_prec(olds, v),
        forall|w: VersionView|
            #[trigger] contains_prec(olds.insert(i, x), w) <==> (contains_prec(olds, w)
                || cmp_prec(w, v) == Cmp::Eq),
{
    let news = olds.insert(i, x);
    crate::order::lemma_cmp_prec_flip(x@, v);
    assert(news[i] == x);
    assert(forall|k: int| 0 <= k < i ==> news[k] == olds[k]);
    assert(forall|k: int| i < k < news.len() ==> news[k] == olds[k - 1]);
    if contains_prec(olds, v) {
        let k = choose|k: int| 0 <= k < olds.len() && cmp_prec(#[trigger] olds[k]@, v) == Cmp::Eq;
        if k > i {
            assert(cmp_prec(olds[i]@, olds[k]@) == Cmp::Lt);
            crate::order::lemma_cmp_prec_flip(olds[i]@, v);
            crate::order::lemma_cmp_prec_trans(v, olds[i]@, olds[k]@);
            crate::order::lemma_cmp_prec_flip(olds[k]@, v);
        }
        assert(false);
    }
    assert forall|a: int, b: int| 0 <= a < b < news.len() implies cmp_prec(
        #[trigger] news[a]@,
        #[trigger] news[b]@,
    ) == Cmp::Lt by {
        if a == i {
            let y = olds[b - 1]@;
            assert(i < olds.len());
            crate::order::lemma_cmp_prec_flip(olds[i]@, v);
            if b - 1 > i {
                assert(cmp_prec(olds[i]@, y) == Cmp::Lt);
                crate::order::lemma_cmp_prec_trans(v, olds[i]@, y);
            }
            assert(cmp_prec(v, y) == Cmp::Lt);
            if cmp_prec(x@, y) != Cmp::Lt {
                crate::order::lemma_cmp_prec_flip(x@, y);
                crate::order::lemma_cmp_prec_flip(x@, v);
                crate::order::lemma_cmp_prec_le_trans(y, x@, v);
                crate::order::lemma_cmp_prec_flip(v, y);
                assert(false);
            }
        } else if b == i {
            assert(cmp_prec(olds[a]@, v) == Cmp::Lt);
            if cmp_prec(olds[a]@, x@) != Cmp::Lt {
                crate::order::lemma_cmp_prec_flip(olds[a]@, x@);
                crate::order::lemma_cmp_prec_flip(x@, v);
                crate::order::lemma_cmp_prec_le_trans(v, x@, olds[a]@);
                crate::order::lemma_cmp_prec_flip(olds[a]@, v);
                assert(false);
            }
        }
    }
    assert(cmp_prec(news[i]@, v) == Cmp::Eq);
    assert(contains_prec(news, v));
    assert forall|w: VersionView| #[trigger]
        contains_prec(news, w) <==> (contains_prec(olds, w) || cmp_prec(w, v) == Cmp::Eq) by {
        if contains_prec(news, w) {
            let k = choose|k: int|
                0 <= k < news.len() && cmp_prec(#[trigger] news[k]@, w) == Cmp::Eq;
            if k == i {
                crate::order::lemma_cmp_prec_flip(x@, w);
                crate::order::lemma_cmp_prec_flip(x@, v);
                crate::order::lemma_cmp_prec_le_trans(w, x@, v);
                crate::order::lemma_cmp_prec_flip(w, v);
                crate::order::lemma_cmp_prec_le_trans(v, x@, w);
                assert(cmp_prec(w, v) == Cmp::Eq);
            } else if k < i {
                assert(cmp_prec(olds[k]@, w) == Cmp::Eq);
                assert(contains_prec(olds, w));
            } else {
                assert(cmp_prec(olds[k - 1]@, w) == Cmp::Eq);
                assert(contains_prec(olds, w));
            }
        }
        if contains_prec(olds, w) {
            let k = choose|k: int|
                0 <= k < olds.len() && cmp_prec(#[trigger] olds[k]@, w) == Cmp::Eq;
            if k < i {
                assert(cmp_prec(news[k]@, w) == Cmp::Eq);
            } else {
                assert(cmp_prec(news[k + 1]@, w) == Cmp::Eq);
            }
            assert(contains_prec(news, w));
        }
        if cmp_prec(w, v) == Cmp::Eq {
            lemma_contains_congr(news, v, w);
        }
    }
}

impl CacheIndex {
    pub open spec fn wf(&self) -> bool {
        index_wf(self.versions@)
    }

    /// An empty index.
    pub fn new() -> (r: CacheIndex)
        ensures
            r.wf(),
            r.versions@.len() == 0,
    {
        CacheIndex { versions: Vec::new() }
    }

    /// Records a version, stripping its build metadata; a precedence-equal
    /// version that is already present is left alone, never duplicated.
    pub fn insert(&mut self, v: &SemVer)
        requires
            old(self).wf(),
        ensures
            final(self).wf(),
            contains_prec(final(self).versions@, v@),
            forall|w: VersionView|
                #[trigger] contains_prec(final(self).versions@, w) <==> (contains_prec(
                    old(self).versions@,
                    w,
                ) || cmp_prec(w, v@) == Cmp::Eq),
            contains_prec(old(self).versions@, v@) ==> final(self).versions@ == old(
                self,
            ).versions@,
            !contains_prec(old(self).versions@, v@) ==> final(self).versions@.len() == old(
                self,
            ).versions@.len() + 1,
    {
        let stripped = v.strip_build();
        proof {
            crate::order::lemma_cmp_prec_refl(v@);
            assert(cmp_prec(stripped@, v@) == Cmp::Eq);
        }
        let n = self.versions.len();
        let mut i: usize = 0;
        let mut stop = false;
        while !stop && i < n
            invariant
                0 <= i <= n,
                n == self.versions@.len(),
                self.versions@ == old(self).versions@,
                index_wf(self.versions@),
                cmp_prec(stripped@, v@) == Cmp::Eq,
                stripped@.build.len() == 0,
                forall|k: int|
                    0 <= k < i ==> cmp_prec(#[trigger] self.versions@[k]@, v@) == Cmp::Lt,
                stop ==> i < n && cmp_prec(self.versions@[i as int]@, v@) == Cmp::Gt,
            decreases n - i + (if stop {
                0int
            } else {
                1int
            }),
        {
            let c = self.versions[i].cmp_precedence(v);
            if c == Cmp::Eq {
                proof {
                    assert(contains_prec(self.versions@, v@));
                    assert forall|w: VersionView| #[trigger]
                        contains_prec(self.versions@, w) <==> (contains_prec(self.versions@, w)
                            || cmp_prec(w, v@) == Cmp::Eq) by {
                        if cmp_prec(w, v@) == Cmp::Eq {
                            lemma_contains_congr(self.versions@, v@, w);
                        }
                    }
                }
                return ;
            }
            if c == Cmp::Gt {
                stop = true;
            } else {
                i = i + 1;
            }
        }
        proof {
            lemma_index_insert(self.versions@, stripped, v@, i as int);
        }
        self.versions.insert(i, stripped);
    }

    /// The versions the clean operation removes: everything, or everything
    /// but the single highest.
    pub fn clean_selection(&self, all: bool) -> (r: Vec<SemVer>)
        ensures
            all ==> sem_views(r@) == sem_views(self.versions@),
            !all && self.versions@.len() > 0 ==> sem_views(r@) == sem_views(
                self.versions@,
            ).drop_last(),
            !all && self.versions@.len() == 0 ==> r@.len() == 0,
    {
        let n = self.versions.len();
        let stop: usize = if all || n == 0 {
            n
        } else {
            n - 1
        };
        let mut r: Vec<SemVer> = Vec::new();
        let mut i: usize = 0;
        while i < stop
            invariant
                0 <= i <= stop <= n,
                n == self.versions@.len(),
                r@.len() == i,
                forall|k: int| 0 <= k < i ==> (#[trigger] r@[k])@ == self.versions@[k]@,
            decreases stop - i,
        {
            r.push(self.versions[i].duplicate());
            i = i + 1;
        }
        proof {
            if all || n == 0 {
                assert(sem_views(r@) =~= sem_views(self.versions@));
            } else {
                assert(sem_views(r@) =~= sem_views(self.versions@).drop_last());
            }
        }
        r
    }

    /// The best cached version for a selector.  A dist-tag always misses:
    /// nothing ties a cached directory to a tag without re-resolving.  An
    /// exact selector matches by precedence equality (build metadata aside);
    /// a requirement takes the highest version it admits.
    pub fn best_match(&self, selector: &SpecVersion) -> (r: Option<SemVer>)
        requires
            self.wf(),
        ensures
            selector@ is Tag ==> r is None,
            selector@ matches SelectorView::Exact(v) ==> match r {
                Some(x) => cmp_prec(x@, v) == Cmp::Eq && contains_prec(self.versions@, v),
                None => !contains_prec(self.versions@, v),
            },
            selector@ matches SelectorView::Req(rs) ==> match r {
                Some(x) => (exists|i: int|
                    0 <= i < self.versions@.len() && (#[trigger] self.versions@[i])@ == x@)
                    && req_matches(rs, x@) && (forall|j: int|
                    0 <= j < self.versions@.len() && req_matches(
                        rs,
                        (#[trigger] self.versions@[j])@,
                    ) ==> cmp_prec(self.versions@[j]@, x@) != Cmp::Gt),
                None => forall|j: int|
                    0 <= j < self.versions@.len() ==> !req_matches(
                        rs,
                        (#[trigger] self.versions@[j])@,
                    ),
            },
    {
        match selector {
            SpecVersion::DistTag(_) => None,
            SpecVersion::Exact(v) => {
                let n = self.versions.len();
                let mut i: usize = 0;
                while i < n
                    invariant
                        0 <= i <= n,
                        n == self.versions@.len(),
                        selector@ == SelectorView::Exact(v@),
                        forall|k: int|
                            0 <= k < i ==> cmp_prec(#[trigger] self.versions@[k]@, v@)
                                != Cmp::Eq,
                    decreases n - i,
                {
                    if self.versions[i].cmp_precedence(v) == Cmp::Eq {
                        proof {
                            assert(contains_prec(self.versions@, v@));
                        }
                        return Some(self.versions[i].duplicate());
                    }
                    i = i + 1;
                }
                None
            },
            SpecVersion::SemverReq(req) => {
                let n = self.versions.len();
                let mut best: Option<usize> = None;
                let mut i: usize = 0;
                while i < n
                    invariant
                        0 <= i <= n,
                        n == self.versions@.len(),
                        selector@ == SelectorView::Req(req@),
                        index_wf(self.versions@),
                        best is None ==> forall|k: int|
                            0 <= k < i ==> !req_matches(
                                req@,
                                (#[trigger] self.versions@[k])@,
                            ),
                        best matches Some(b) ==> b < i && req_matches(
                            req@,
                            self.versions@[b as int]@,
                        ) && (forall|k: int|
                            0 <= k < i && req_matches(req@, (#[trigger] self.versions@[k])@)
                                ==> k <= b),
                    decreases n - i,
                {
                    if req.matches_version(&self.versions[i]) {
                        best = Some(i);
                    }
                    i = i + 1;
                }
                match best {
                    None => None,
                    Some(b) => {
                        let x = self.versions[b].duplicate();
                        proof {
                            crate::order::lemma_cmp_prec_refl(x@);
                            assert forall|j: int|
                                0 <= j < self.versions@.len() && req_matches(
                                    req@,
                                    (#[trigger] self.versions@[j])@,
                                ) implies cmp_prec(self.versions@[j]@, x@) != Cmp::Gt by {
                                if j < b {
                                    assert(cmp_prec(
                                        self.versions@[j]@,
                                        self.versions@[b as int]@,
                                    ) == Cmp::Lt);
                                }
                            }
                        }
                        Some(x)
                    },
                }
            },
        }
    }

    /// Applies the clean operation to the bookkeeping itself.
    pub fn retain_after_clean(&mut self, all: bool)
        requires
            old(self).wf(),
        ensures
            final(self).wf(),
            all ==> final(self).versions@.len() == 0,
            !all && old(self).versions@.len() > 0 ==> final(self).versions@.len() == 1
                && final(self).versions@[0]@ == old(self).versions@.last()@,
            !all && old(self).versions@.len() == 0 ==> final(self).versions@.len() == 0,
    {
        if all || self.versions.len() == 0 {
            self.versions = Vec::new();
            return ;
        }
        let last = self.versions[self.versions.len() - 1].duplicate();
        let mut vs: Vec<SemVer> = Vec::new();
        vs.push(last);
        self.versions = vs;
    }
}

} // verus!
