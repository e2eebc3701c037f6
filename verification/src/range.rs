//! Version requirements: comparator lists, their grammar, and the matching
//! rules.  A requirement is a comma-separated list of comparators such as
//! `>=1.2.3, <2` or `^1.2`; the empty comparator list (written `*`) matches
//! everything.  A version with a prerelease only satisfies a requirement if
//! some comparator with the same `major.minor.patch` also has a prerelease.

use vstd::prelude::*;

use crate::order::{cmp_pre, Cmp};
use crate::version::{ids_view, VersionView};

verus! {

/// A comparator operator.
#[derive(Clone, Copy, Debug, PartialEq, Eq, Structural)]
pub enum Op {
    Exact,
    Greater,
    GreaterEq,
    Less,
    LessEq,
    Tilde,
    Caret,
    Wildcard,
}

/// One comparator: an operator applied to a partial version.
#[derive(Clone, Debug, PartialEq, Eq)]
pub struct Comparator {
    pub op: Op,
    pub major: u64,
    pub minor: Option<u64>,
    pub patch: Option<u64>,
    pub pre: Vec<Vec<char>>,
}

pub ghost struct ComparatorView {
    pub op: Op,
    pub major: int,
    pub minor: Option<int>,
    pub patch: Option<int>,
    pub pre: Seq<Seq<char>>,
}

impl View for Comparator {
    type V = ComparatorView;

    open spec fn view(&self) -> ComparatorView {
        ComparatorView {
            op: self.op,
            major: self.major as int,
            minor: match self.minor {
                Some(m) => Some(m as int),
                None => None,
            },
            patch: match self.patch {
                Some(p) => Some(p as int),
                None => None,
            },
            pre: ids_view(self.pre@),
        }
    }
}

/// A version requirement: all comparators must hold.
#[derive(Clone, Debug, PartialEq, Eq)]
pub struct VersionReq {
    pub comparators: Vec<Comparator>,
}

pub open spec fn comparators_view(v: Seq<Comparator>) -> Seq<ComparatorView> {
    Seq::new(v.len(), |i: int| v[i]@)
}

impl View for VersionReq {
    type V = Seq<ComparatorView>;

    open spec fn view(&self) -> Seq<ComparatorView> {
        comparators_view(self.comparators@)
    }
}

// ---------------------------------------------------------------------------
// Matching
// ---------------------------------------------------------------------------

pub open spec fn matches_exact(c: ComparatorView, v: VersionView) -> bool {
    &&& v.major == c.major
    &&& (c.minor matches Some(m) ==> v.minor == m)
    &&& (c.patch matches Some(p) ==> v.patch == p)
    &&& v.pre == c.pre
}

pub open spec fn matches_greater(c: ComparatorView, v: VersionView) -> bool {
    if v.major != c.major {
        v.major > c.major
    } else {
        match c.minor {
            None => false,
            Some(m) => if v.minor != m {
                v.minor > m
            } else {
                match c.patch {
                    None => false,
                    Some(p) => if v.patch != p {
                        v.patch > p
                    } else {
                        cmp_pre(v.pre, c.pre) == Cmp::Gt
                    },
                }
            },
        }
    }
}

pub open spec fn matches_less(c: ComparatorView, v: VersionView) -> bool {
    if v.major != c.major {
        v.major < c.major
    } else {
        match c.minor {
            None => false,
            Some(m) => if v.minor != m {
                v.minor < m
            } else {
                match c.patch {
                    None => false,
                    Some(p) => if v.patch != p {
                        v.patch < p
                    } else {
                        cmp_pre(v.pre, c.pre) == Cmp::Lt
                    },
                }
            },
        }
    }
}

pub open spec fn matches_tilde(c: ComparatorView, v: VersionView) -> bool {
    if v.major != c.major {
        false
    } else if c.minor matches Some(m) && v.minor != m {
        false
    } else {
        match c.patch {
            Some(p) => if v.patch != p {
                v.patch > p
            } else {
                cmp_pre(v.pre, c.pre) != Cmp::Lt
            },
            None => cmp_pre(v.pre, c.pre) != Cmp::Lt,
        }
    }
}

pub open spec fn matches_caret(c: ComparatorView, v: VersionView) -> bool {
    if v.major != c.major {
        false
    } else {
        match c.minor {
            None => true,
            Some(m) => match c.patch {
                None => if c.major > 0 {
                    v.minor >= m
                } else {
                    v.minor == m
                },
                Some(p) => if c.major > 0 {
                    if v.minor != m {
                        v.minor > m
                    } else if v.patch != p {
                        v.patch > p
                    } else {
                        cmp_pre(v.pre, c.pre) != Cmp::Lt
                    }
                } else if m > 0 {
                    if v.minor != m {
                        false
                    } else if v.patch != p {
                        v.patch > p
                    } else {
                        cmp_pre(v.pre, c.pre) != Cmp::Lt
                    }
                } else if v.minor != m || v.patch != p {
                    false
                } else {
                    cmp_pre(v.pre, c.pre) != Cmp::Lt
                },
            },
        }
    }
}

/// Whether a single comparator admits a version, prerelease rule aside.
pub open spec fn matches_impl(c: ComparatorView, v: VersionView) -> bool {
    match c.op {
        Op::Exact | Op::Wildcard => matches_exact(c, v),
        Op::Greater => matches_greater(c, v),
        Op::GreaterEq => matches_exact(c, v) || matches_greater(c, v),
        Op::Less => matches_less(c, v),
        Op::LessEq => matches_exact(c, v) || matches_less(c, v),
        Op::Tilde => matches_tilde(c, v),
        Op::Caret => matches_caret(c, v),
    }
}

/// A comparator that licenses a prerelease of the same `major.minor.patch`.
pub open spec fn pre_compatible(c: ComparatorView, v: VersionView) -> bool {
    &&& c.major == v.major
    &&& c.minor == Some(v.minor)
    &&& c.patch == Some(v.patch)
    &&& c.pre.len() > 0
}

/// Whether a requirement admits a version: every comparator must hold, and a
/// prerelease version needs at least one prerelease comparator on the same
/// `major.minor.patch`.
pub open spec fn req_matches(rs: Seq<ComparatorView>, v: VersionView) -> bool {
    &&& (forall|i: int| 0 <= i < rs.len() ==> matches_impl(#[trigger] rs[i], v))
    &&& (v.pre.len() > 0 ==> exists|i: int|
        0 <= i < rs.len() && pre_compatible(#[trigger] rs[i], v))
}

// ---------------------------------------------------------------------------
// Executable matching
// ---------------------------------------------------------------------------

/// Equality test on prerelease lists.
fn pre_eq(a: &Vec<Vec<char>>, b: &Vec<Vec<char>>) -> (r: bool)
    ensures
        r == (ids_view(a@) == ids_view(b@)),
{
    let c = crate::order::cmp_pre_exec(a, b);
    proof {
        let av = ids_view(a@);
        let bv = ids_view(b@);
        if c == Cmp::Eq {
            if av.len() > 0 && bv.len() > 0 {
                crate::order::lemma_cmp_id_list_eq(av, bv);
            } else {
                assert(av =~= bv);
            }
        }
        if av == bv {
            if av.len() > 0 {
                crate::order::lemma_cmp_id_list_refl(av);
            }
        }
    }
    c == Cmp::Eq
}

impl Comparator {
    pub fn matches_version(&self, v: &crate::version::SemVer) -> (r: bool)
        ensures
            r == matches_impl(self@, v@),
    {
        match self.op {
            Op::Exact | Op::Wildcard => self.matches_exact_part(v),
            Op::Greater => self.matches_greater_part(v),
            Op::GreaterEq => self.matches_exact_part(v) || self.matches_greater_part(v),
            Op::Less => self.matches_less_part(v),
            Op::LessEq => self.matches_exact_part(v) || self.matches_less_part(v),
            Op::Tilde => self.matches_tilde_part(v),
            Op::Caret => self.matches_caret_part(v),
        }
    }

    fn matches_exact_part(&self, v: &crate::version::SemVer) -> (r: bool)
        ensures
            r == matches_exact(self@, v@),
    {
        if v.major != self.major {
            return false;
        }
        if let Some(m) = self.minor {
            if v.minor != m {
                return false;
            }
        }
        if let Some(p) = self.patch {
            if v.patch != p {
                return false;
            }
        }
        pre_eq(&v.pre, &self.pre)
    }

    fn matches_greater_part(&self, v: &crate::version::SemVer) -> (r: bool)
        ensures
            r == matches_greater(self@, v@),
    {
        if v.major != self.major {
            return v.major > self.major;
        }
        let m = match self.minor {
            None => { return false },
            Some(m) => m,
        };
        if v.minor != m {
            return v.minor > m;
        }
        let p = match self.patch {
            None => { return false },
            Some(p) => p,
        };
        if v.patch != p {
            return v.patch > p;
        }
        let c = crate::order::cmp_pre_exec(&v.pre, &self.pre);
        c == Cmp::Gt
    }

    fn matches_less_part(&self, v: &crate::version::SemVer) -> (r: bool)
        ensures
            r == matches_less(self@, v@),
    {
        if v.major != self.major {
            return v.major < self.major;
        }
        let m = match self.minor {
            None => { return false },
            Some(m) => m,
        };
        if v.minor != m {
            return v.minor < m;
        }
        let p = match self.patch {
            None => { return false },
            Some(p) => p,
        };
        if v.patch != p {
            return v.patch < p;
        }
        let c = crate::order::cmp_pre_exec(&v.pre, &self.pre);
        c == Cmp::Lt
    }

    fn matches_tilde_part(&self, v: &crate::version::SemVer) -> (r: bool)
        ensures
            r == matches_tilde(self@, v@),
    {
        if v.major != self.major {
            return false;
        }
        if let Some(m) = self.minor {
            if v.minor != m {
                return false;
            }
        }
        if let Some(p) = self.patch {
            if v.patch != p {
                return v.patch > p;
            }
        }
        let c = crate::order::cmp_pre_exec(&v.pre, &self.pre);
        c != Cmp::Lt
    }

    fn matches_caret_part(&self, v: &crate::version::SemVer) -> (r: bool)
        ensures
            r == matches_caret(self@, v@),
    {
        if v.major != self.major {
            return false;
        }
        let m = match self.minor {
            None => { return true },
            Some(m) => m,
        };
        let p = match self.patch {
            None => {
                if self.major > 0 {
                    return v.minor >= m;
                } else {
                    return v.minor == m;
                }
            },
            Some(p) => p,
        };
        if self.major > 0 {
            if v.minor != m {
                return v.minor > m;
            } else if v.patch != p {
                return v.patch > p;
            }
        } else if m > 0 {
            if v.minor != m {
                return false;
            } else if v.patch != p {
                return v.patch > p;
            }
        } else if v.minor != m || v.patch != p {
            return false;
        }
        let c = crate::order::cmp_pre_exec(&v.pre, &self.pre);
        c != Cmp::Lt
    }

    fn pre_compatible_part(&self, v: &crate::version::SemVer) -> (r: bool)
        ensures
            r == pre_compatible(self@, v@),
    {
        if self.major != v.major {
            return false;
        }
        match self.minor {
            Some(m) if m == v.minor => {},
            _ => { return false },
        }
        match self.patch {
            Some(p) if p == v.patch => {},
            _ => { return false },
        }
        self.pre.len() > 0
    }
}

impl VersionReq {
    /// Whether this requirement admits the version.
    pub fn matches_version(&self, v: &crate::version::SemVer) -> (r: bool)
        ensures
            r == req_matches(self@, v@),
    {
        let n = self.comparators.len();
        let mut i: usize = 0;
        while i < n
            invariant
                0 <= i <= n,
                n == self.comparators@.len(),
                forall|k: int| 0 <= k < i ==> matches_impl(#[trigger] self@[k], v@),
            decreases n - i,
        {
            if !self.comparators[i].matches_version(v) {
                proof {
                    assert(self@[i as int] == self.comparators@[i as int]@);
                }
                return false;
            }
            i = i + 1;
        }
        if v.pre.len() == 0 {
            return true;
        }
        let mut i: usize = 0;
        while i < n
            invariant
                0 <= i <= n,
                n == self.comparators@.len(),
                forall|k: int| 0 <= k < n ==> matches_impl(#[trigger] self@[k], v@),
                forall|k: int| 0 <= k < i ==> !pre_compatible(#[trigger] self@[k], v@),
            decreases n - i,
        {
            if self.comparators[i].pre_compatible_part(v) {
                proof {
                    assert(pre_compatible(self@[i as int], v@));
                }
                return true;
            }
            i = i + 1;
        }
        false
    }

    /// The requirement that admits every version.
    pub fn star() -> (r: VersionReq)
        ensures
            r@ == Seq::<ComparatorView>::empty(),
    {
        let r = VersionReq { comparators: Vec::new() };
        proof {
            assert(r@ =~= Seq::<ComparatorView>::empty());
        }
        r
    }
}

/// The star requirement admits every well-formed release and, having no
/// comparators, no prerelease at all.
pub proof fn lemma_star_matches(v: VersionView)
    ensures
        v.pre.len() == 0 ==> req_matches(Seq::<ComparatorView>::empty(), v),
        v.pre.len() > 0 ==> !req_matches(Seq::<ComparatorView>::empty(), v),
{
}

// ---------------------------------------------------------------------------
// The requirement grammar, at the specification level
// ---------------------------------------------------------------------------

pub open spec fn is_wc_char(c: char) -> bool {
    c == '*' || c == 'x' || c == 'X'
}

pub open spec fn is_dotted_char(c: char) -> bool {
    crate::version::is_id_char(c) || c == '.'
}

/// The first position at or after `i` that does not hold a space.
pub open spec fn scan_spaces(s: Seq<char>, i: int) -> int
    decreases s.len() - i,
{
    if i < s.len() && s[i] == ' ' {
        scan_spaces(s, i + 1)
    } else {
        i
    }
}

/// The first position at or after `i` outside identifier characters and dots.
pub open spec fn scan_dotted(s: Seq<char>, i: int) -> int
    decreases s.len() - i,
{
    if i < s.len() && is_dotted_char(s[i]) {
        scan_dotted(s, i + 1)
    } else {
        i
    }
}

/// Reads an operator prefix; without one the operator defaults to caret and
/// no character is consumed.
pub open spec fn spec_parse_op(s: Seq<char>, i: int) -> (Op, int) {
    if i < s.len() && s[i] == '=' {
        (Op::Exact, i + 1)
    } else if i < s.len() && s[i] == '>' {
        if i + 1 < s.len() && s[i + 1] == '=' {
            (Op::GreaterEq, i + 2)
        } else {
            (Op::Greater, i + 1)
        }
    } else if i < s.len() && s[i] == '<' {
        if i + 1 < s.len() && s[i + 1] == '=' {
            (Op::LessEq, i + 2)
        } else {
            (Op::Less, i + 1)
        }
    } else if i < s.len() && s[i] == '~' {
        (Op::Tilde, i + 1)
    } else if i < s.len() && s[i] == '^' {
        (Op::Caret, i + 1)
    } else {
        (Op::Caret, i)
    }
}

pub open spec fn cmp_view(
    op: Op,
    major: int,
    minor: Option<int>,
    patch: Option<int>,
    pre: Seq<Seq<char>>,
) -> ComparatorView {
    ComparatorView { op, major, minor, patch, pre }
}

/// The optional build segment of a comparator (parsed, validated, discarded),
/// then trailing spaces.
pub open spec fn spec_parse_cmp_build(
    s: Seq<char>,
    op: Op,
    major: int,
    minor: Option<int>,
    patch: Option<int>,
    pre: Seq<Seq<char>>,
    e: int,
) -> Option<(ComparatorView, int)> {
    if e < s.len() && s[e] == '+' {
        let d = scan_dotted(s, e + 1);
        let ids = crate::version::split_dots(s.subrange(e + 1, d));
        if crate::version::valid_build_ids(ids) {
            Some((cmp_view(op, major, minor, patch, pre), scan_spaces(s, d)))
        } else {
            None
        }
    } else {
        Some((cmp_view(op, major, minor, patch, pre), scan_spaces(s, e)))
    }
}

/// The optional prerelease segment of a comparator, then the build segment.
pub open spec fn spec_parse_cmp_pre(
    s: Seq<char>,
    op: Op,
    major: int,
    minor: Option<int>,
    patch: Option<int>,
    e: int,
) -> Option<(ComparatorView, int)> {
    if e < s.len() && s[e] == '-' {
        let d = scan_dotted(s, e + 1);
        let ids = crate::version::split_dots(s.subrange(e + 1, d));
        if crate::version::valid_pre_ids(ids) {
            spec_parse_cmp_build(s, op, major, minor, patch, ids, d)
        } else {
            None
        }
    } else {
        spec_parse_cmp_build(s, op, major, minor, patch, Seq::empty(), e)
    }
}

/// A comparator without prerelease or build (used where the patch part is
/// absent or a wildcard): just trailing spaces remain.
pub open spec fn spec_finish_cmp(
    s: Seq<char>,
    op: Op,
    major: int,
    minor: Option<int>,
    patch: Option<int>,
    e: int,
) -> Option<(ComparatorView, int)> {
    Some((cmp_view(op, major, minor, patch, Seq::empty()), scan_spaces(s, e)))
}

/// Parses one comparator starting at `i`; on success returns it and the
/// position after its trailing spaces.
pub open spec fn spec_parse_comparator(s: Seq<char>, i: int) -> Option<(ComparatorView, int)> {
    let (op0, j0) = spec_parse_op(s, i);
    let defaulted = j0 == i;
    let j1 = scan_spaces(s, j0);
    let e1 = crate::version::scan_digits(s, j1);
    let maj = s.subrange(j1, e1);
    if !crate::version::valid_num(maj) {
        None
    } else {
        let major = crate::version::seq_val(maj);
        if e1 < s.len() && s[e1] == '.' {
            let k = e1 + 1;
            if k < s.len() && is_wc_char(s[k]) {
                let op1 = if defaulted {
                    Op::Wildcard
                } else {
                    op0
                };
                if k + 1 < s.len() && s[k + 1] == '.' {
                    let k2 = k + 2;
                    if k2 < s.len() && is_wc_char(s[k2]) {
                        spec_finish_cmp(s, op1, major, None, None, k2 + 1)
                    } else {
                        None
                    }
                } else {
                    spec_finish_cmp(s, op1, major, None, None, k + 1)
                }
            } else {
                let e2 = crate::version::scan_digits(s, k);
                let min = s.subrange(k, e2);
                if !crate::version::valid_num(min) {
                    None
                } else {
                    let minor = crate::version::seq_val(min);
                    if e2 < s.len() && s[e2] == '.' {
                        let k2 = e2 + 1;
                        if k2 < s.len() && is_wc_char(s[k2]) {
                            let op1 = if defaulted {
                                Op::Wildcard
                            } else {
                                op0
                            };
                            spec_finish_cmp(s, op1, major, Some(minor), None, k2 + 1)
                        } else {
                            let e3 = crate::version::scan_digits(s, k2);
                            let pat = s.subrange(k2, e3);
                            if !crate::version::valid_num(pat) {
                                None
                            } else {
                                spec_parse_cmp_pre(
                                    s,
                                    op0,
                                    major,
                                    Some(minor),
                                    Some(crate::version::seq_val(pat)),
                                    e3,
                                )
                            }
                        }
                    } else {
                        spec_finish_cmp(s, op0, major, Some(minor), None, e2)
                    }
                }
            }
        } else {
            spec_finish_cmp(s, op0, major, None, None, e1)
        }
    }
}

/// At most this many comparators are accepted in one requirement.
pub open spec fn max_comparators() -> int {
    32
}

/// Parses the comma-separated comparator list starting at `i`.
pub open spec fn spec_parse_req_rec(s: Seq<char>, i: int, depth: int) -> Option<
    Seq<ComparatorView>,
>
    decreases max_comparators() - depth,
{
    if depth < 0 || depth >= max_comparators() {
        None
    } else {
        match spec_parse_comparator(s, i) {
            None => None,
            Some((c, j)) => {
                if j == s.len() {
                    Some(seq![c])
                } else if s[j] == ',' {
                    if depth + 1 == max_comparators() {
                        None
                    } else {
                        let k = scan_spaces(s, j + 1);
                        match spec_parse_req_rec(s, k, depth + 1) {
                            None => None,
                            Some(rest) => Some(seq![c] + rest),
                        }
                    }
                } else {
                    None
                }
            },
        }
    }
}

/// Parses a requirement: leading spaces, then either a lone wildcard (the
/// match-everything requirement) or a comparator list.
pub open spec fn spec_parse_req(s: Seq<char>) -> Option<Seq<ComparatorView>> {
    let i0 = scan_spaces(s, 0);
    if i0 < s.len() && is_wc_char(s[i0]) {
        if scan_spaces(s, i0 + 1) == s.len() {
            Some(Seq::empty())
        } else {
            None
        }
    } else {
        spec_parse_req_rec(s, i0, 0)
    }
}

// ---------------------------------------------------------------------------
// Executable requirement parsing
// ---------------------------------------------------------------------------

proof fn lemma_scan_spaces_fix(s: Seq<char>, i: int, j: int)
    requires
        0 <= i <= j <= s.len(),
        forall|k: int| i <= k < j ==> #[trigger] s[k] == ' ',
        j == s.len() || s[j] != ' ',
    ensures
        scan_spaces(s, i) == j,
    decreases j - i,
{
    if i < j {
        lemma_scan_spaces_fix(s, i + 1, j);
    }
}

proof fn lemma_scan_dotted_fix(s: Seq<char>, i: int, j: int)
    requires
        0 <= i <= j <= s.len(),
        forall|k: int| i <= k < j ==> is_dotted_char(#[trigger] s[k]),
        j == s.len() || !is_dotted_char(s[j]),
    ensures
        scan_dotted(s, i) == j,
    decreases j - i,
{
    if i < j {
        lemma_scan_dotted_fix(s, i + 1, j);
    }
}

fn find_space_end(v: &[char], from: usize) -> (r: usize)
    requires
        from <= v.len(),
    ensures
        r == scan_spaces(v@, from as int),
        from <= r <= v.len(),
{
    let mut i = from;
    while i < v.len() && v[i] == ' '
        invariant
            from <= i <= v@.len(),
            forall|k: int| from <= k < i ==> #[trigger] v@[k] == ' ',
        decreases v@.len() - i,
    {
        i = i + 1;
    }
    proof {
        lemma_scan_spaces_fix(v@, from as int, i as int);
    }
    i
}

fn char_is_dotted(c: char) -> (b: bool)
    ensures
        b == is_dotted_char(c),
{
    crate::version::char_is_id(c) || c == '.'
}

fn find_dotted_end(v: &[char], from: usize) -> (r: usize)
    requires
        from <= v.len(),
    ensures
        r == scan_dotted(v@, from as int),
        from <= r <= v.len(),
{
    let mut i = from;
    while i < v.len() && char_is_dotted(v[i])
        invariant
            from <= i <= v@.len(),
            forall|k: int| from <= k < i ==> is_dotted_char(#[trigger] v@[k]),
        decreases v@.len() - i,
    {
        i = i + 1;
    }
    proof {
        lemma_scan_dotted_fix(v@, from as int, i as int);
    }
    i
}

fn char_is_wc(c: char) -> (b: bool)
    ensures
        b == is_wc_char(c),
{
    c == '*' || c == 'x' || c == 'X'
}

fn parse_op(v: &[char], i: usize) -> (r: (Op, usize))
    requires
        i <= v.len(),
    ensures
        (r.0, r.1 as int) == spec_parse_op(v@, i as int),
        i <= r.1 <= v.len(),
        r.1 <= i + 2,
{
    if i < v.len() && v[i] == '=' {
        (Op::Exact, i + 1)
    } else if i < v.len() && v[i] == '>' {
        if i + 1 < v.len() && v[i + 1] == '=' {
            (Op::GreaterEq, i + 2)
        } else {
            (Op::Greater, i + 1)
        }
    } else if i < v.len() && v[i] == '<' {
        if i + 1 < v.len() && v[i + 1] == '=' {
            (Op::LessEq, i + 2)
        } else {
            (Op::Less, i + 1)
        }
    } else if i < v.len() && v[i] == '~' {
        (Op::Tilde, i + 1)
    } else if i < v.len() && v[i] == '^' {
        (Op::Caret, i + 1)
    } else {
        (Op::Caret, i)
    }
}

/// Parses the number in `[from, to)`, as in the version grammar.
fn parse_num_range(v: &[char], from: usize, to: usize) -> (r: Option<u64>)
    requires
        from <= to <= v.len(),
    ensures
        r is Some <==> crate::version::valid_num(v@.subrange(from as int, to as int)),
        r matches Some(n) ==> n == crate::version::seq_val(v@.subrange(from as int, to as int)),
{
    crate::version::parse_num(v, from, to)
}

/// Parses one comparator, mirroring [`spec_parse_comparator`].
fn parse_comparator(v: &[char], i: usize) -> (r: Option<(Comparator, usize)>)
    requires
        i <= v.len(),
    ensures
        r is Some <==> spec_parse_comparator(v@, i as int) is Some,
        r matches Some((c, j)) ==> spec_parse_comparator(v@, i as int) == Some((c@, j as int)) && j
            <= v.len(),
{
    let (op0, j0) = parse_op(v, i);
    let defaulted = j0 == i;
    let j1 = find_space_end(v, j0);
    let e1 = crate::version::find_digits_end(v, j1);
    let major = match parse_num_range(v, j1, e1) {
        Some(n) => n,
        None => { return None },
    };
    if e1 < v.len() && v[e1] == '.' {
        let k = e1 + 1;
        if k < v.len() && char_is_wc(v[k]) {
            let op1 = if defaulted {
                Op::Wildcard
            } else {
                op0
            };
            if k + 1 < v.len() && v[k + 1] == '.' {
                let k2 = k + 2;
                if k2 < v.len() && char_is_wc(v[k2]) {
                    finish_cmp(v, op1, major, None, None, k2 + 1)
                } else {
                    None
                }
            } else {
                finish_cmp(v, op1, major, None, None, k + 1)
            }
        } else {
            let e2 = crate::version::find_digits_end(v, k);
            let minor = match parse_num_range(v, k, e2) {
                Some(n) => n,
                None => { return None },
            };
            if e2 < v.len() && v[e2] == '.' {
                let k2 = e2 + 1;
                if k2 < v.len() && char_is_wc(v[k2]) {
                    let op1 = if defaulted {
                        Op::Wildcard
                    } else {
                        op0
                    };
                    finish_cmp(v, op1, major, Some(minor), None, k2 + 1)
                } else {
                    let e3 = crate::version::find_digits_end(v, k2);
                    let patch = match parse_num_range(v, k2, e3) {
                        Some(n) => n,
                        None => { return None },
                    };
                    parse_cmp_pre(v, op0, major, Some(minor), Some(patch), e3)
                }
            } else {
                finish_cmp(v, op0, major, Some(minor), None, e2)
            }
        }
    } else {
        finish_cmp(v, op0, major, None, None, e1)
    }
}

fn finish_cmp(v: &[char], op: Op, major: u64, minor: Option<u64>, patch: Option<u64>, e: usize) -> (r:
    Option<(Comparator, usize)>)
    requires
        e <= v.len(),
    ensures
        ({
            let sp = spec_finish_cmp(
                v@,
                op,
                major as int,
                match minor {
                    Some(m) => Some(m as int),
                    None => None,
                },
                match patch {
                    Some(p) => Some(p as int),
                    None => None,
                },
                e as int,
            );
            r is Some && sp is Some && r->Some_0.1 <= v.len() && sp == Some(
                (r->Some_0.0@, r->Some_0.1 as int),
            )
        }),
{
    let f = find_space_end(v, e);
    let c = Comparator { op, major, minor, patch, pre: Vec::new() };
    proof {
        assert(ids_view(c.pre@) =~= Seq::<Seq<char>>::empty());
    }
    Some((c, f))
}

fn parse_cmp_pre(
    v: &[char],
    op: Op,
    major: u64,
    minor: Option<u64>,
    patch: Option<u64>,
    e: usize,
) -> (r: Option<(Comparator, usize)>)
    requires
        e <= v.len(),
    ensures
        ({
            let sp = spec_parse_cmp_pre(
                v@,
                op,
                major as int,
                match minor {
                    Some(m) => Some(m as int),
                    None => None,
                },
                match patch {
                    Some(p) => Some(p as int),
                    None => None,
                },
                e as int,
            );
            &&& (r is Some <==> sp is Some)
            &&& (r matches Some((c, j)) ==> sp == Some((c@, j as int)) && j <= v.len())
        }),
{
    if e < v.len() && v[e] == '-' {
        let d = find_dotted_end(v, e + 1);
        let ids = crate::version::split_dots_exec(v, e + 1, d);
        if !crate::version::check_pre_ids(&ids) {
            return None;
        }
        parse_cmp_build(v, op, major, minor, patch, ids, d)
    } else {
        let empty: Vec<Vec<char>> = Vec::new();
        proof {
            assert(ids_view(empty@) =~= Seq::<Seq<char>>::empty());
        }
        parse_cmp_build(v, op, major, minor, patch, empty, e)
    }
}

fn parse_cmp_build(
    v: &[char],
    op: Op,
    major: u64,
    minor: Option<u64>,
    patch: Option<u64>,
    pre: Vec<Vec<char>>,
    e: usize,
) -> (r: Option<(Comparator, usize)>)
    requires
        e <= v.len(),
    ensures
        ({
            let sp = spec_parse_cmp_build(
                v@,
                op,
                major as int,
                match minor {
                    Some(m) => Some(m as int),
                    None => None,
                },
                match patch {
                    Some(p) => Some(p as int),
                    None => None,
                },
                ids_view(pre@),
                e as int,
            );
            &&& (r is Some <==> sp is Some)
            &&& (r matches Some((c, j)) ==> sp == Some((c@, j as int)) && j <= v.len())
        }),
{
    if e < v.len() && v[e] == '+' {
        let d = find_dotted_end(v, e + 1);
        let ids = crate::version::split_dots_exec(v, e + 1, d);
        if !crate::version::check_build_ids(&ids) {
            return None;
        }
        let f = find_space_end(v, d);
        Some((Comparator { op, major, minor, patch, pre }, f))
    } else {
        let f = find_space_end(v, e);
        Some((Comparator { op, major, minor, patch, pre }, f))
    }
}

/// Parses the comparator list, mirroring [`spec_parse_req_rec`].
fn parse_req_rec(v: &[char], i: usize, depth: usize) -> (r: Option<Vec<Comparator>>)
    requires
        i <= v.len(),
        depth < 32,
    ensures
        r is Some <==> spec_parse_req_rec(v@, i as int, depth as int) is Some,
        r matches Some(cs) ==> spec_parse_req_rec(v@, i as int, depth as int) == Some(
            comparators_view(cs@),
        ),
    decreases 32 - depth,
{
    let (c, j) = match parse_comparator(v, i) {
        Some(p) => p,
        None => { return None },
    };
    if j == v.len() {
        let mut cs: Vec<Comparator> = Vec::new();
        cs.push(c);
        proof {
            assert(comparators_view(cs@) =~= seq![c@]);
        }
        return Some(cs);
    }
    if v[j] != ',' {
        return None;
    }
    if depth + 1 == 32 {
        return None;
    }
    let k = find_space_end(v, j + 1);
    let rest = match parse_req_rec(v, k, depth + 1) {
        Some(cs) => cs,
        None => { return None },
    };
    let mut cs = rest;
    cs.insert(0, c);
    proof {
        let sp = spec_parse_req_rec(v@, k as int, depth as int + 1);
        assert(comparators_view(cs@) =~= seq![c@] + sp->Some_0);
    }
    Some(cs)
}

impl VersionReq {
    /// Parses a requirement from its characters, exactly as [`spec_parse_req`].
    pub fn parse_chars(v: &[char]) -> (r: Option<VersionReq>)
        ensures
            r is Some <==> spec_parse_req(v@) is Some,
            r matches Some(req) ==> spec_parse_req(v@) == Some(req@),
    {
        let i0 = find_space_end(v, 0);
        if i0 < v.len() && char_is_wc(v[i0]) {
            if find_space_end(v, i0 + 1) == v.len() {
                Some(VersionReq::star())
            } else {
                None
            }
        } else {
            match parse_req_rec(v, i0, 0) {
                Some(cs) => Some(VersionReq { comparators: cs }),
                None => None,
            }
        }
    }

    /// Parses a requirement string.
    pub fn parse(s: &str) -> (r: Option<VersionReq>)
        ensures
            r is Some <==> spec_parse_req(s@) is Some,
            r matches Some(req) ==> spec_parse_req(s@) == Some(req@),
    {
        let chars = crate::text::str_to_chars(s);
        VersionReq::parse_chars(chars.as_slice())
    }
}

// ---------------------------------------------------------------------------
// Rendering
// ---------------------------------------------------------------------------

pub open spec fn op_str(op: Op) -> Seq<char> {
    match op {
        Op::Exact => seq!['='],
        Op::Greater => seq!['>'],
        Op::GreaterEq => seq!['>', '='],
        Op::Less => seq!['<'],
        Op::LessEq => seq!['<', '='],
        Op::Tilde => seq!['~'],
        Op::Caret => seq!['^'],
        Op::Wildcard => Seq::empty(),
    }
}

/// The string form of one comparator.
pub open spec fn render_comparator(c: ComparatorView) -> Seq<char> {
    op_str(c.op) + crate::version::dec_str(c.major) + (match c.minor {
        None => if c.op == Op::Wildcard {
            seq!['.', '*']
        } else {
            Seq::<char>::empty()
        },
        Some(m) => seq!['.'] + crate::version::dec_str(m) + (match c.patch {
            None => if c.op == Op::Wildcard {
                seq!['.', '*']
            } else {
                Seq::<char>::empty()
            },
            Some(p) => seq!['.'] + crate::version::dec_str(p) + (if c.pre.len() > 0 {
                seq!['-'] + crate::version::join_dots(c.pre)
            } else {
                Seq::<char>::empty()
            }),
        }),
    })
}

/// The string form of a requirement; the empty comparator list renders `*`.
pub open spec fn render_req(rs: Seq<ComparatorView>) -> Seq<char>
    decreases rs.len(),
{
    if rs.len() == 0 {
        seq!['*']
    } else if rs.len() == 1 {
        render_comparator(rs[0])
    } else {
        render_comparator(rs[0]) + seq![',', ' '] + render_req(rs.drop_first())
    }
}

proof fn lemma_render_req_push(rs: Seq<ComparatorView>, c: ComparatorView)
    requires
        rs.len() >= 1,
    ensures
        render_req(rs.push(c)) == render_req(rs) + seq![',', ' '] + render_comparator(c),
    decreases rs.len(),
{
    if rs.len() == 1 {
        let w = rs.push(c);
        assert(w.len() == 2);
        assert(w[0] == rs[0]);
        assert(w.drop_first() =~= seq![c]);
        assert(render_req(seq![c]) == render_comparator(c));
        assert(render_req(w) =~= render_req(rs) + seq![',', ' '] + render_comparator(c));
    } else {
        lemma_render_req_push(rs.drop_first(), c);
        let w = rs.push(c);
        assert(w.drop_first() =~= rs.drop_first().push(c));
        assert(render_req(w) =~= render_req(rs) + seq![',', ' '] + render_comparator(c));
    }
}

fn push_op(out: &mut Vec<char>, op: Op)
    ensures
        final(out)@ == old(out)@ + op_str(op),
{
    match op {
        Op::Exact => out.push('='),
        Op::Greater => out.push('>'),
        Op::GreaterEq => {
            out.push('>');
            out.push('=');
        },
        Op::Less => out.push('<'),
        Op::LessEq => {
            out.push('<');
            out.push('=');
        },
        Op::Tilde => out.push('~'),
        Op::Caret => out.push('^'),
        Op::Wildcard => {},
    }
    proof {
        assert(out@ =~= old(out)@ + op_str(op));
    }
}

#[verifier::rlimit(60)]
fn push_comparator(out: &mut Vec<char>, c: &Comparator)
    ensures
        final(out)@ == old(out)@ + render_comparator(c@),
{
    push_op(out, c.op);
    crate::version::push_u64(out, c.major);
    match c.minor {
        None => {
            if c.op == Op::Wildcard {
                out.push('.');
                out.push('*');
            }
        },
        Some(m) => {
            out.push('.');
            crate::version::push_u64(out, m);
            match c.patch {
                None => {
                    if c.op == Op::Wildcard {
                        out.push('.');
                        out.push('*');
                    }
                },
                Some(p) => {
                    out.push('.');
                    crate::version::push_u64(out, p);
                    if c.pre.len() > 0 {
                        out.push('-');
                        crate::version::push_ids(out, &c.pre);
                    }
                },
            }
        },
    }
    proof {
        assert(out@ =~= old(out)@ + render_comparator(c@));
    }
}

impl VersionReq {
    /// Appends the string form of this requirement.
    pub fn push_chars(&self, out: &mut Vec<char>)
        ensures
            final(out)@ == old(out)@ + render_req(self@),
    {
        if self.comparators.len() == 0 {
            out.push('*');
            proof {
                assert(out@ =~= old(out)@ + render_req(self@));
            }
            return ;
        }
        let ghost whole = self@;
        let mut i: usize = 0;
        while i < self.comparators.len()
            invariant
                0 <= i <= self.comparators@.len(),
                whole == self@,
                whole.len() == self.comparators@.len(),
                i == 0 ==> out@ == old(out)@,
                i > 0 ==> out@ == old(out)@ + render_req(whole.subrange(0, i as int)),
            decreases self.comparators@.len() - i,
        {
            if i > 0 {
                out.push(',');
                out.push(' ');
            }
            push_comparator(out, &self.comparators[i]);
            proof {
                assert(whole[i as int] == self.comparators@[i as int]@);
                if i == 0 {
                    assert(whole.subrange(0, 1) =~= seq![whole[0]]);
                    assert(out@ =~= old(out)@ + render_req(whole.subrange(0, 1)));
                } else {
                    lemma_render_req_push(whole.subrange(0, i as int), whole[i as int]);
                    assert(whole.subrange(0, i as int).push(whole[i as int]) =~= whole.subrange(
                        0,
                        i as int + 1,
                    ));
                    assert(out@ =~= old(out)@ + render_req(whole.subrange(0, i as int + 1)));
                }
            }
            i = i + 1;
        }
        proof {
            assert(whole.subrange(0, whole.len() as int) =~= whole);
        }
    }

    /// The string form of this requirement.
    pub fn render(&self) -> (s: String)
        ensures
            s@ == render_req(self@),
    {
        let mut out: Vec<char> = Vec::new();
        self.push_chars(&mut out);
        crate::text::chars_to_string(out.as_slice())
    }
}

} // verus!
