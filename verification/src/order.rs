//! Precedence ordering of versions: numeric fields first, then the
//! prerelease identifier lists (a release outranks any prerelease; numeric
//! identifiers rank below alphanumeric ones and are compared by value;
//! alphanumeric ones lexically).  Build metadata never participates.

use vstd::prelude::*;

use crate::version::{all_digits, ids_view, SemVer, VersionView};

verus! {

/// A three-way comparison outcome.
#[derive(Clone, Copy, Debug, PartialEq, Eq, Structural)]
pub enum Cmp {
    Lt,
    Eq,
    Gt,
}

pub open spec fn flip(c: Cmp) -> Cmp {
    match c {
        Cmp::Lt => Cmp::Gt,
        Cmp::Eq => Cmp::Eq,
        Cmp::Gt => Cmp::Lt,
    }
}

pub open spec fn cmp_then(a: Cmp, b: Cmp) -> Cmp {
    if a == Cmp::Eq {
        b
    } else {
        a
    }
}

pub open spec fn cmp_int(a: int, b: int) -> Cmp {
    if a < b {
        Cmp::Lt
    } else if a > b {
        Cmp::Gt
    } else {
        Cmp::Eq
    }
}

/// Lexicographic comparison of character sequences by code point.
pub open spec fn cmp_lex(a: Seq<char>, b: Seq<char>) -> Cmp
    decreases a.len() + b.len(),
{
    if a.len() == 0 && b.len() == 0 {
        Cmp::Eq
    } else if a.len() == 0 {
        Cmp::Lt
    } else if b.len() == 0 {
        Cmp::Gt
    } else if (a[0] as u32) < (b[0] as u32) {
        Cmp::Lt
    } else if (a[0] as u32) > (b[0] as u32) {
        Cmp::Gt
    } else {
        cmp_lex(a.drop_first(), b.drop_first())
    }
}

/// Comparison of two identifiers: numeric ones sort below alphanumeric ones
/// and are compared by value (their canonical forms by length, then lexically).
pub open spec fn cmp_ident(a: Seq<char>, b: Seq<char>) -> Cmp {
    if all_digits(a) && all_digits(b) {
        cmp_then(cmp_int(a.len() as int, b.len() as int), cmp_lex(a, b))
    } else if all_digits(a) {
        Cmp::Lt
    } else if all_digits(b) {
        Cmp::Gt
    } else {
        cmp_lex(a, b)
    }
}

/// Lexicographic comparison of identifier lists; a shorter list that is a
/// prefix of the longer one sorts first.
pub open spec fn cmp_id_list(a: Seq<Seq<char>>, b: Seq<Seq<char>>) -> Cmp
    decreases a.len() + b.len(),
{
    if a.len() == 0 && b.len() == 0 {
        Cmp::Eq
    } else if a.len() == 0 {
        Cmp::Lt
    } else if b.len() == 0 {
        Cmp::Gt
    } else if cmp_ident(a[0], b[0]) == Cmp::Eq {
        cmp_id_list(a.drop_first(), b.drop_first())
    } else {
        cmp_ident(a[0], b[0])
    }
}

/// Comparison of prerelease lists: absence (the release itself) outranks any
/// prerelease.
pub open spec fn cmp_pre(a: Seq<Seq<char>>, b: Seq<Seq<char>>) -> Cmp {
    if a.len() == 0 && b.len() == 0 {
        Cmp::Eq
    } else if a.len() == 0 {
        Cmp::Gt
    } else if b.len() == 0 {
        Cmp::Lt
    } else {
        cmp_id_list(a, b)
    }
}

/// Version precedence: numeric fields, then the prerelease list.  Build
/// metadata is ignored.
pub open spec fn cmp_prec(a: VersionView, b: VersionView) -> Cmp {
    cmp_then(
        cmp_int(a.major, b.major),
        cmp_then(
            cmp_int(a.minor, b.minor),
            cmp_then(cmp_int(a.patch, b.patch), cmp_pre(a.pre, b.pre)),
        ),
    )
}

// ---------------------------------------------------------------------------
// Order laws
// ---------------------------------------------------------------------------

pub proof fn lemma_cmp_lex_flip(a: Seq<char>, b: Seq<char>)
    ensures
        cmp_lex(b, a) == flip(cmp_lex(a, b)),
    decreases a.len() + b.len(),
{
    if a.len() > 0 && b.len() > 0 && a[0] as u32 == b[0] as u32 {
        lemma_cmp_lex_flip(a.drop_first(), b.drop_first());
    }
}

pub proof fn lemma_cmp_lex_eq(a: Seq<char>, b: Seq<char>)
    requires
        cmp_lex(a, b) == Cmp::Eq,
    ensures
        a == b,
    decreases a.len() + b.len(),
{
    if a.len() == 0 && b.len() == 0 {
        assert(a =~= b);
    } else {
        vstd::utf8::char_u32_cast(a[0], a[0] as u32);
        vstd::utf8::char_u32_cast(b[0], b[0] as u32);
        assert(a[0] == b[0]);
        lemma_cmp_lex_eq(a.drop_first(), b.drop_first());
        assert(a.drop_first() == b.drop_first());
        assert(a.drop_first().len() == b.drop_first().len());
        assert(a.len() == b.len());
        assert(forall|i: int|
            1 <= i < a.len() ==> #[trigger] a[i] == a.drop_first()[i - 1] && b[i]
                == b.drop_first()[i - 1]);
        assert(a =~= b);
    }
}

pub proof fn lemma_cmp_lex_trans(a: Seq<char>, b: Seq<char>, c: Seq<char>)
    requires
        cmp_lex(a, b) == Cmp::Lt,
        cmp_lex(b, c) == Cmp::Lt,
    ensures
        cmp_lex(a, c) == Cmp::Lt,
    decreases a.len() + b.len() + c.len(),
{
    if a.len() == 0 {
    } else {
        if a[0] as u32 == b[0] as u32 && b[0] as u32 == c[0] as u32 {
            lemma_cmp_lex_trans(a.drop_first(), b.drop_first(), c.drop_first());
        }
    }
}

pub proof fn lemma_cmp_ident_flip(a: Seq<char>, b: Seq<char>)
    ensures
        cmp_ident(b, a) == flip(cmp_ident(a, b)),
{
    lemma_cmp_lex_flip(a, b);
}

pub proof fn lemma_cmp_ident_eq(a: Seq<char>, b: Seq<char>)
    requires
        cmp_ident(a, b) == Cmp::Eq,
    ensures
        a == b,
{
    lemma_cmp_lex_eq(a, b);
}

pub proof fn lemma_cmp_ident_trans(a: Seq<char>, b: Seq<char>, c: Seq<char>)
    requires
        cmp_ident(a, b) == Cmp::Lt,
        cmp_ident(b, c) == Cmp::Lt,
    ensures
        cmp_ident(a, c) == Cmp::Lt,
{
    if all_digits(a) && all_digits(b) && all_digits(c) {
        if a.len() == b.len() && b.len() == c.len() {
            lemma_cmp_lex_trans(a, b, c);
        }
    } else if !all_digits(a) && !all_digits(b) && !all_digits(c) {
        lemma_cmp_lex_trans(a, b, c);
    }
}

pub proof fn lemma_cmp_id_list_flip(a: Seq<Seq<char>>, b: Seq<Seq<char>>)
    ensures
        cmp_id_list(b, a) == flip(cmp_id_list(a, b)),
    decreases a.len() + b.len(),
{
    if a.len() > 0 && b.len() > 0 {
        lemma_cmp_ident_flip(a[0], b[0]);
        if cmp_ident(a[0], b[0]) == Cmp::Eq {
            lemma_cmp_id_list_flip(a.drop_first(), b.drop_first());
        }
    }
}

pub proof fn lemma_cmp_id_list_eq(a: Seq<Seq<char>>, b: Seq<Seq<char>>)
    requires
        cmp_id_list(a, b) == Cmp::Eq,
    ensures
        a == b,
    decreases a.len() + b.len(),
{
    if a.len() == 0 && b.len() == 0 {
        assert(a =~= b);
    } else {
        lemma_cmp_ident_eq(a[0], b[0]);
        lemma_cmp_id_list_eq(a.drop_first(), b.drop_first());
        assert(a.len() == b.len());
        assert(forall|i: int|
            1 <= i < a.len() ==> #[trigger] a[i] == a.drop_first()[i - 1] && b[i]
                == b.drop_first()[i - 1]);
        assert(a =~= b);
    }
}

pub proof fn lemma_cmp_id_list_trans(a: Seq<Seq<char>>, b: Seq<Seq<char>>, c: Seq<Seq<char>>)
    requires
        cmp_id_list(a, b) == Cmp::Lt,
        cmp_id_list(b, c) == Cmp::Lt,
    ensures
        cmp_id_list(a, c) == Cmp::Lt,
    decreases a.len() + b.len() + c.len(),
{
    if a.len() == 0 {
    } else {
        let ab = cmp_ident(a[0], b[0]);
        let bc = cmp_ident(b[0], c[0]);
        if ab == Cmp::Eq {
            lemma_cmp_ident_eq(a[0], b[0]);
        }
        if bc == Cmp::Eq {
            lemma_cmp_ident_eq(b[0], c[0]);
        }
        if ab == Cmp::Eq && bc == Cmp::Eq {
            lemma_cmp_id_list_trans(a.drop_first(), b.drop_first(), c.drop_first());
        } else if ab == Cmp::Lt && bc == Cmp::Lt {
            lemma_cmp_ident_trans(a[0], b[0], c[0]);
        }
    }
}

pub proof fn lemma_cmp_pre_flip(a: Seq<Seq<char>>, b: Seq<Seq<char>>)
    ensures
        cmp_pre(b, a) == flip(cmp_pre(a, b)),
{
    lemma_cmp_id_list_flip(a, b);
}

pub proof fn lemma_cmp_pre_trans(a: Seq<Seq<char>>, b: Seq<Seq<char>>, c: Seq<Seq<char>>)
    requires
        cmp_pre(a, b) == Cmp::Lt,
        cmp_pre(b, c) == Cmp::Lt,
    ensures
        cmp_pre(a, c) == Cmp::Lt,
{
    if a.len() > 0 && b.len() > 0 && c.len() > 0 {
        lemma_cmp_id_list_trans(a, b, c);
    }
}

/// Precedence is antisymmetric: comparing in the other direction flips the
/// outcome.
pub proof fn lemma_cmp_prec_flip(a: VersionView, b: VersionView)
    ensures
        cmp_prec(b, a) == flip(cmp_prec(a, b)),
{
    lemma_cmp_pre_flip(a.pre, b.pre);
}

/// Precedence is transitive.
pub proof fn lemma_cmp_prec_trans(a: VersionView, b: VersionView, c: VersionView)
    requires
        cmp_prec(a, b) == Cmp::Lt,
        cmp_prec(b, c) == Cmp::Lt,
    ensures
        cmp_prec(a, c) == Cmp::Lt,
{
    if a.major == b.major && b.major == c.major && a.minor == b.minor && b.minor == c.minor
        && a.patch == b.patch && b.patch == c.patch {
        lemma_cmp_pre_trans(a.pre, b.pre, c.pre);
    }
}

pub proof fn lemma_cmp_lex_refl(a: Seq<char>)
    ensures
        cmp_lex(a, a) == Cmp::Eq,
    decreases a.len(),
{
    if a.len() > 0 {
        lemma_cmp_lex_refl(a.drop_first());
    }
}

pub proof fn lemma_cmp_ident_refl(a: Seq<char>)
    ensures
        cmp_ident(a, a) == Cmp::Eq,
{
    lemma_cmp_lex_refl(a);
}

pub proof fn lemma_cmp_id_list_refl(a: Seq<Seq<char>>)
    ensures
        cmp_id_list(a, a) == Cmp::Eq,
    decreases a.len(),
{
    if a.len() > 0 {
        lemma_cmp_ident_refl(a[0]);
        lemma_cmp_id_list_refl(a.drop_first());
    }
}

pub proof fn lemma_cmp_pre_refl(a: Seq<Seq<char>>)
    ensures
        cmp_pre(a, a) == Cmp::Eq,
{
    if a.len() > 0 {
        lemma_cmp_id_list_refl(a);
    }
}

/// Precedence is reflexive: a version never outranks itself.
pub proof fn lemma_cmp_prec_refl(a: VersionView)
    ensures
        cmp_prec(a, a) == Cmp::Eq,
{
    lemma_cmp_pre_refl(a.pre);
}

pub proof fn lemma_cmp_ident_le_trans(a: Seq<char>, b: Seq<char>, c: Seq<char>)
    requires
        cmp_ident(a, b) != Cmp::Gt,
        cmp_ident(b, c) != Cmp::Gt,
    ensures
        cmp_ident(a, c) != Cmp::Gt,
{
    if cmp_ident(a, b) == Cmp::Eq {
        lemma_cmp_ident_eq(a, b);
    } else if cmp_ident(b, c) == Cmp::Eq {
        lemma_cmp_ident_eq(b, c);
    } else {
        lemma_cmp_ident_trans(a, b, c);
    }
}

pub proof fn lemma_cmp_id_list_le_trans(a: Seq<Seq<char>>, b: Seq<Seq<char>>, c: Seq<Seq<char>>)
    requires
        cmp_id_list(a, b) != Cmp::Gt,
        cmp_id_list(b, c) != Cmp::Gt,
    ensures
        cmp_id_list(a, c) != Cmp::Gt,
{
    if cmp_id_list(a, b) == Cmp::Eq {
        lemma_cmp_id_list_eq(a, b);
    } else if cmp_id_list(b, c) == Cmp::Eq {
        lemma_cmp_id_list_eq(b, c);
    } else {
        lemma_cmp_id_list_trans(a, b, c);
    }
}

pub proof fn lemma_cmp_pre_le_trans(a: Seq<Seq<char>>, b: Seq<Seq<char>>, c: Seq<Seq<char>>)
    requires
        cmp_pre(a, b) != Cmp::Gt,
        cmp_pre(b, c) != Cmp::Gt,
    ensures
        cmp_pre(a, c) != Cmp::Gt,
{
    if a.len() > 0 && b.len() > 0 && c.len() > 0 {
        lemma_cmp_id_list_le_trans(a, b, c);
    }
}

/// Precedence is transitive in its non-strict form.
pub proof fn lemma_cmp_prec_le_trans(a: VersionView, b: VersionView, c: VersionView)
    requires
        cmp_prec(a, b) != Cmp::Gt,
        cmp_prec(b, c) != Cmp::Gt,
    ensures
        cmp_prec(a, c) != Cmp::Gt,
{
    if a.major == b.major && b.major == c.major && a.minor == b.minor && b.minor == c.minor
        && a.patch == b.patch && b.patch == c.patch {
        lemma_cmp_pre_le_trans(a.pre, b.pre, c.pre);
    }
}

// ---------------------------------------------------------------------------
// Executable comparison
// ---------------------------------------------------------------------------

fn cmp_u64(a: u64, b: u64) -> (r: Cmp)
    ensures
        r == cmp_int(a as int, b as int),
{
    if a < b {
        Cmp::Lt
    } else if a > b {
        Cmp::Gt
    } else {
        Cmp::Eq
    }
}

fn cmp_chars_at(a: &[char], b: &[char], i: usize) -> (r: Cmp)
    requires
        i <= a.len(),
        i <= b.len(),
    ensures
        r == cmp_lex(a@.skip(i as int), b@.skip(i as int)),
    decreases a.len() - i,
{
    let ghost sa = a@.skip(i as int);
    let ghost sb = b@.skip(i as int);
    if i == a.len() && i == b.len() {
        Cmp::Eq
    } else if i == a.len() {
        Cmp::Lt
    } else if i == b.len() {
        Cmp::Gt
    } else {
        let ca = a[i] as u32;
        let cb = b[i] as u32;
        proof {
            assert(sa[0] == a@[i as int]);
            assert(sb[0] == b@[i as int]);
        }
        if ca < cb {
            Cmp::Lt
        } else if ca > cb {
            Cmp::Gt
        } else {
            let r = cmp_chars_at(a, b, i + 1);
            proof {
                assert(sa.drop_first() =~= a@.skip(i as int + 1));
                assert(sb.drop_first() =~= b@.skip(i as int + 1));
            }
            r
        }
    }
}

fn cmp_chars(a: &[char], b: &[char]) -> (r: Cmp)
    ensures
        r == cmp_lex(a@, b@),
{
    let r = cmp_chars_at(a, b, 0);
    proof {
        assert(a@.skip(0) =~= a@);
        assert(b@.skip(0) =~= b@);
    }
    r
}

fn is_numeric_ident(id: &[char]) -> (b: bool)
    ensures
        b == all_digits(id@),
{
    let mut i: usize = 0;
    while i < id.len()
        invariant
            0 <= i <= id@.len(),
            forall|k: int| 0 <= k < i ==> crate::version::is_digit(#[trigger] id@[k]),
        decreases id@.len() - i,
    {
        if !crate::version::char_is_digit(id[i]) {
            return false;
        }
        i = i + 1;
    }
    true
}

fn cmp_ident_exec(a: &Vec<char>, b: &Vec<char>) -> (r: Cmp)
    ensures
        r == cmp_ident(a@, b@),
{
    let an = is_numeric_ident(a.as_slice());
    let bn = is_numeric_ident(b.as_slice());
    if an && bn {
        let byl = cmp_u64(a.len() as u64, b.len() as u64);
        if byl == Cmp::Eq {
            cmp_chars(a.as_slice(), b.as_slice())
        } else {
            byl
        }
    } else if an {
        Cmp::Lt
    } else if bn {
        Cmp::Gt
    } else {
        cmp_chars(a.as_slice(), b.as_slice())
    }
}

fn cmp_id_list_at(a: &Vec<Vec<char>>, b: &Vec<Vec<char>>, i: usize) -> (r: Cmp)
    requires
        i <= a.len(),
        i <= b.len(),
    ensures
        r == cmp_id_list(ids_view(a@).skip(i as int), ids_view(b@).skip(i as int)),
    decreases a.len() - i,
{
    let ghost sa = ids_view(a@).skip(i as int);
    let ghost sb = ids_view(b@).skip(i as int);
    if i == a.len() && i == b.len() {
        Cmp::Eq
    } else if i == a.len() {
        Cmp::Lt
    } else if i == b.len() {
        Cmp::Gt
    } else {
        proof {
            assert(sa[0] == a@[i as int]@);
            assert(sb[0] == b@[i as int]@);
        }
        let c = cmp_ident_exec(&a[i], &b[i]);
        if c == Cmp::Eq {
            let r = cmp_id_list_at(a, b, i + 1);
            proof {
                assert(sa.drop_first() =~= ids_view(a@).skip(i as int + 1));
                assert(sb.drop_first() =~= ids_view(b@).skip(i as int + 1));
            }
            r
        } else {
            c
        }
    }
}

/// Compares two prerelease identifier lists, the empty list ranking highest.
pub fn cmp_pre_exec(a: &Vec<Vec<char>>, b: &Vec<Vec<char>>) -> (r: Cmp)
    ensures
        r == cmp_pre(ids_view(a@), ids_view(b@)),
{
    if a.len() == 0 && b.len() == 0 {
        Cmp::Eq
    } else if a.len() == 0 {
        Cmp::Gt
    } else if b.len() == 0 {
        Cmp::Lt
    } else {
        let r = cmp_id_list_at(a, b, 0);
        proof {
            assert(ids_view(a@).skip(0) =~= ids_view(a@));
            assert(ids_view(b@).skip(0) =~= ids_view(b@));
        }
        r
    }
}

impl SemVer {
    /// Compares two versions by precedence; build metadata is ignored.
    pub fn cmp_precedence(&self, other: &SemVer) -> (r: Cmp)
        ensures
            r == cmp_prec(self@, other@),
    {
        let c = cmp_u64(self.major, other.major);
        if c != Cmp::Eq {
            return c;
        }
        let c = cmp_u64(self.minor, other.minor);
        if c != Cmp::Eq {
            return c;
        }
        let c = cmp_u64(self.patch, other.patch);
        if c != Cmp::Eq {
            return c;
        }
        cmp_pre_exec(&self.pre, &other.pre)
    }
}

} // verus!
