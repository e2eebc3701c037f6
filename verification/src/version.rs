//! The semantic-version model: parsing, rendering and well-formedness.
//!
//! A version is `major.minor.patch`, optionally followed by `-` and a dotted
//! prerelease identifier list, optionally followed by `+` and a dotted build
//! identifier list.  Numeric fields are canonical decimal (no leading zeros)
//! and must fit in a `u64`.  Parsing is specified by the deterministic
//! [`spec_parse_version`]; rendering by [`render_version`].  The round-trip
//! law (a parsed string renders back to itself) is [`lemma_parse_version_render`].

use vstd::prelude::*;

verus! {

// ---------------------------------------------------------------------------
// Characters and decimal numbers
// ---------------------------------------------------------------------------

pub open spec fn is_digit(c: char) -> bool {
    48 <= c as u32 && c as u32 <= 57
}

pub open spec fn digit_val(c: char) -> int {
    c as u32 - 48
}

pub open spec fn digit_char(d: int) -> char {
    (d + 48) as char
}

pub broadcast proof fn lemma_digit_char_val(c: char)
    requires
        is_digit(c),
    ensures
        #[trigger] digit_char(digit_val(c)) == c,
        0 <= digit_val(c) <= 9,
{
    vstd::utf8::char_u32_cast(c, c as u32);
    assert(digit_val(c) + 48 == c as u32);
}

pub open spec fn all_digits(s: Seq<char>) -> bool {
    forall|i: int| 0 <= i < s.len() ==> is_digit(#[trigger] s[i])
}

/// The numeric value of a digit string.
pub open spec fn seq_val(s: Seq<char>) -> int
    decreases s.len(),
{
    if s.len() == 0 {
        0
    } else {
        seq_val(s.drop_last()) * 10 + digit_val(s.last())
    }
}

/// The canonical decimal rendering of a nonnegative integer.
pub open spec fn dec_str(n: int) -> Seq<char>
    decreases n,
{
    if n < 10 {
        seq![digit_char(n)]
    } else {
        dec_str(n / 10).push(digit_char(n % 10))
    }
}

/// A digit string that is the canonical rendering of its value: nonempty,
/// all digits, and no leading zero.
pub open spec fn canonical_num(s: Seq<char>) -> bool {
    &&& s.len() > 0
    &&& all_digits(s)
    &&& (s.len() > 1 ==> s[0] != '0')
}

pub proof fn lemma_seq_val_nonneg(s: Seq<char>)
    requires
        all_digits(s),
    ensures
        seq_val(s) >= 0,
    decreases s.len(),
{
    if s.len() > 0 {
        lemma_seq_val_nonneg(s.drop_last());
    }
}

pub proof fn lemma_seq_val_pos(s: Seq<char>)
    requires
        all_digits(s),
        s.len() > 0,
        s[0] != '0',
    ensures
        seq_val(s) >= 1,
    decreases s.len(),
{
    if s.len() == 1 {
        assert(is_digit(s[0]));
        if s[0] as u32 == 48 {
            vstd::utf8::char_u32_cast(s[0], 48);
            vstd::utf8::char_u32_cast('0', 48);
            assert(s[0] == '0');
        }
        assert(digit_val(s[0]) >= 1);
        assert(seq_val(s) == seq_val(s.drop_last()) * 10 + digit_val(s.last()));
        assert(s.drop_last().len() == 0);
        assert(seq_val(s.drop_last()) == 0);
        assert(s.last() == s[0]);
    } else {
        let p = s.drop_last();
        assert(forall|i: int| 0 <= i < p.len() ==> p[i] == s[i]);
        lemma_seq_val_pos(p);
        assert(is_digit(s.last()));
        assert(digit_val(s.last()) >= 0);
        assert(seq_val(s) == seq_val(p) * 10 + digit_val(s.last()));
    }
}

/// Canonical digit strings are recovered exactly by `dec_str` from their value.
pub proof fn lemma_dec_str_of_val(s: Seq<char>)
    requires
        canonical_num(s),
    ensures
        dec_str(seq_val(s)) == s,
    decreases s.len(),
{
    lemma_seq_val_nonneg(s.drop_last());
    if s.len() == 1 {
        assert(is_digit(s[0]));
        assert(seq_val(s) == digit_val(s[0]));
        lemma_digit_char_val(s[0]);
        assert(dec_str(seq_val(s)) =~= s);
    } else {
        let p = s.drop_last();
        let d = digit_val(s.last());
        assert(p[0] == s[0]);
        assert(canonical_num(p));
        lemma_seq_val_pos(p);
        let v = seq_val(s);
        assert(v == seq_val(p) * 10 + d);
        assert(is_digit(s.last()));
        assert(0 <= d < 10);
        assert(seq_val(p) >= 1);
        assert(v >= 10) by (nonlinear_arith)
            requires
                v == seq_val(p) * 10 + d,
                seq_val(p) >= 1,
                d >= 0,
        ;
        assert(v / 10 == seq_val(p) && v % 10 == d) by (nonlinear_arith)
            requires
                v == seq_val(p) * 10 + d,
                0 <= d < 10,
                seq_val(p) >= 0,
        ;
        lemma_dec_str_of_val(p);
        lemma_digit_char_val(s.last());
        assert(digit_char(d) == s.last());
        assert(dec_str(v) == dec_str(seq_val(p)).push(s.last()));
        assert(dec_str(v) =~= s);
    }
}

// ---------------------------------------------------------------------------
// Identifiers
// ---------------------------------------------------------------------------

pub open spec fn is_alpha(c: char) -> bool {
    (65 <= c as u32 && c as u32 <= 90) || (97 <= c as u32 && c as u32 <= 122)
}

/// Characters allowed inside a prerelease or build identifier.
pub open spec fn is_id_char(c: char) -> bool {
    is_digit(c) || is_alpha(c) || c == '-'
}

pub open spec fn all_id_chars(s: Seq<char>) -> bool {
    forall|i: int| 0 <= i < s.len() ==> is_id_char(#[trigger] s[i])
}

/// A prerelease identifier: nonempty, identifier characters only, and if it
/// is all digits it must not have a leading zero.
pub open spec fn valid_pre_id(s: Seq<char>) -> bool {
    &&& s.len() > 0
    &&& all_id_chars(s)
    &&& (all_digits(s) && s.len() > 1 ==> s[0] != '0')
}

/// A build identifier: nonempty, identifier characters only.
pub open spec fn valid_build_id(s: Seq<char>) -> bool {
    &&& s.len() > 0
    &&& all_id_chars(s)
}

pub open spec fn valid_pre_ids(ids: Seq<Seq<char>>) -> bool {
    forall|i: int| 0 <= i < ids.len() ==> valid_pre_id(#[trigger] ids[i])
}

pub open spec fn valid_build_ids(ids: Seq<Seq<char>>) -> bool {
    forall|i: int| 0 <= i < ids.len() ==> valid_build_id(#[trigger] ids[i])
}

// ---------------------------------------------------------------------------
// Splitting on and joining with dots
// ---------------------------------------------------------------------------

/// Splits a character sequence at every `'.'`; always yields at least one
/// (possibly empty) segment.
pub open spec fn split_dots(s: Seq<char>) -> Seq<Seq<char>>
    decreases s.len(),
{
    if s.len() == 0 {
        seq![Seq::<char>::empty()]
    } else if s[0] == '.' {
        seq![Seq::<char>::empty()] + split_dots(s.drop_first())
    } else {
        let r = split_dots(s.drop_first());
        seq![seq![s[0]] + r[0]] + r.drop_first()
    }
}

/// Joins segments with `'.'` between them.
pub open spec fn join_dots(ids: Seq<Seq<char>>) -> Seq<char>
    decreases ids.len(),
{
    if ids.len() == 0 {
        Seq::empty()
    } else if ids.len() == 1 {
        ids[0]
    } else {
        ids[0] + seq!['.'] + join_dots(ids.drop_first())
    }
}

pub proof fn lemma_split_dots_len(s: Seq<char>)
    ensures
        split_dots(s).len() >= 1,
    decreases s.len(),
{
    if s.len() != 0 {
        lemma_split_dots_len(s.drop_first());
    }
}

/// Joining the split of a sequence gives the sequence back.
pub proof fn lemma_join_split(s: Seq<char>)
    ensures
        join_dots(split_dots(s)) == s,
    decreases s.len(),
{
    if s.len() == 0 {
        assert(join_dots(split_dots(s)) =~= s);
    } else if s[0] == '.' {
        lemma_join_split(s.drop_first());
        lemma_split_dots_len(s.drop_first());
        let r = split_dots(s.drop_first());
        let w = seq![Seq::<char>::empty()] + r;
        assert(w.len() >= 2);
        assert(w[0] =~= Seq::<char>::empty());
        assert(w.drop_first() =~= r);
        assert(join_dots(w) == w[0] + seq!['.'] + join_dots(r));
        assert(join_dots(w) =~= s);
    } else {
        lemma_join_split(s.drop_first());
        lemma_split_dots_len(s.drop_first());
        let r = split_dots(s.drop_first());
        let w = seq![seq![s[0]] + r[0]] + r.drop_first();
        if r.len() == 1 {
            assert(w.len() == 1);
            assert(join_dots(w) == seq![s[0]] + r[0]);
            assert(join_dots(r) == r[0]);
            assert(join_dots(w) =~= s);
        } else {
            assert(w.len() >= 2);
            assert(w[0] == seq![s[0]] + r[0]);
            assert(w.drop_first() =~= r.drop_first());
            assert(join_dots(w) == w[0] + seq!['.'] + join_dots(r.drop_first()));
            assert(join_dots(r) == r[0] + seq!['.'] + join_dots(r.drop_first()));
            assert(join_dots(w) =~= seq![s[0]] + join_dots(r));
            assert(join_dots(w) =~= s);
        }
    }
}

// ---------------------------------------------------------------------------
// The version model
// ---------------------------------------------------------------------------

/// The mathematical value of a semantic version: numeric fields as integers,
/// prerelease and build as identifier lists (empty list means absent).
pub ghost struct VersionView {
    pub major: int,
    pub minor: int,
    pub patch: int,
    pub pre: Seq<Seq<char>>,
    pub build: Seq<Seq<char>>,
}

/// A semantic version.  `pre` and `build` hold the dot-separated identifiers;
/// an empty vector means the segment is absent.
#[derive(Clone, Debug, PartialEq, Eq)]
pub struct SemVer {
    pub major: u64,
    pub minor: u64,
    pub patch: u64,
    pub pre: Vec<Vec<char>>,
    pub build: Vec<Vec<char>>,
}

/// The sequence of character sequences held by a vector of identifier vectors.
pub open spec fn ids_view(v: Seq<Vec<char>>) -> Seq<Seq<char>> {
    Seq::new(v.len(), |i: int| v[i]@)
}

impl View for SemVer {
    type V = VersionView;

    open spec fn view(&self) -> VersionView {
        VersionView {
            major: self.major as int,
            minor: self.minor as int,
            patch: self.patch as int,
            pre: ids_view(self.pre@),
            build: ids_view(self.build@),
        }
    }
}

pub open spec fn version_wf(v: VersionView) -> bool {
    &&& 0 <= v.major <= u64::MAX
    &&& 0 <= v.minor <= u64::MAX
    &&& 0 <= v.patch <= u64::MAX
    &&& valid_pre_ids(v.pre)
    &&& valid_build_ids(v.build)
}

/// The canonical string form of a version.
pub open spec fn render_version(v: VersionView) -> Seq<char> {
    dec_str(v.major) + seq!['.'] + dec_str(v.minor) + seq!['.'] + dec_str(v.patch) + (if v.pre.len()
        > 0 {
        seq!['-'] + join_dots(v.pre)
    } else {
        Seq::<char>::empty()
    }) + (if v.build.len() > 0 {
        seq!['+'] + join_dots(v.build)
    } else {
        Seq::<char>::empty()
    })
}

/// The string form with build metadata stripped.
pub open spec fn render_version_no_build(v: VersionView) -> Seq<char> {
    render_version(
        VersionView {
            major: v.major,
            minor: v.minor,
            patch: v.patch,
            pre: v.pre,
            build: Seq::empty(),
        },
    )
}

// ---------------------------------------------------------------------------
// The deterministic parser, at the specification level
// ---------------------------------------------------------------------------

/// The first position at or after `i` that does not hold a digit.
pub open spec fn scan_digits(s: Seq<char>, i: int) -> int
    decreases s.len() - i,
{
    if i < s.len() && is_digit(s[i]) {
        scan_digits(s, i + 1)
    } else {
        i
    }
}

/// The first position at or after `i` that holds `'+'`, or the length.
pub open spec fn scan_plus(s: Seq<char>, i: int) -> int
    decreases s.len() - i,
{
    if i < s.len() && s[i] != '+' {
        scan_plus(s, i + 1)
    } else {
        i
    }
}

/// A numeric field: canonical digits whose value fits in a `u64`.
pub open spec fn valid_num(s: Seq<char>) -> bool {
    canonical_num(s) && seq_val(s) <= u64::MAX
}

/// Parses a version string; `None` on any deviation from the grammar.
pub open spec fn spec_parse_version(s: Seq<char>) -> Option<VersionView> {
    let e1 = scan_digits(s, 0);
    let maj = s.subrange(0, e1);
    if !(valid_num(maj) && e1 < s.len() && s[e1] == '.') {
        None
    } else {
        let e2 = scan_digits(s, e1 + 1);
        let min = s.subrange(e1 + 1, e2);
        if !(valid_num(min) && e2 < s.len() && s[e2] == '.') {
            None
        } else {
            let e3 = scan_digits(s, e2 + 1);
            let pat = s.subrange(e2 + 1, e3);
            if !valid_num(pat) {
                None
            } else {
                let major = seq_val(maj);
                let minor = seq_val(min);
                let patch = seq_val(pat);
                if e3 == s.len() {
                    Some(
                        VersionView {
                            major,
                            minor,
                            patch,
                            pre: Seq::empty(),
                            build: Seq::empty(),
                        },
                    )
                } else if s[e3] == '-' {
                    let pb = scan_plus(s, e3 + 1);
                    let pre = split_dots(s.subrange(e3 + 1, pb));
                    if !valid_pre_ids(pre) {
                        None
                    } else if pb == s.len() {
                        Some(VersionView { major, minor, patch, pre, build: Seq::empty() })
                    } else {
                        let build = split_dots(s.subrange(pb + 1, s.len() as int));
                        if valid_build_ids(build) {
                            Some(VersionView { major, minor, patch, pre, build })
                        } else {
                            None
                        }
                    }
                } else if s[e3] == '+' {
                    let build = split_dots(s.subrange(e3 + 1, s.len() as int));
                    if valid_build_ids(build) {
                        Some(VersionView { major, minor, patch, pre: Seq::empty(), build })
                    } else {
                        None
                    }
                } else {
                    None
                }
            }
        }
    }
}

pub proof fn lemma_scan_digits_bounds(s: Seq<char>, i: int)
    requires
        0 <= i <= s.len(),
    ensures
        i <= scan_digits(s, i) <= s.len(),
        forall|k: int| i <= k < scan_digits(s, i) ==> is_digit(#[trigger] s[k]),
        scan_digits(s, i) < s.len() ==> !is_digit(s[scan_digits(s, i)]),
    decreases s.len() - i,
{
    if i < s.len() && is_digit(s[i]) {
        lemma_scan_digits_bounds(s, i + 1);
    }
}

pub proof fn lemma_scan_plus_bounds(s: Seq<char>, i: int)
    requires
        0 <= i <= s.len(),
    ensures
        i <= scan_plus(s, i) <= s.len(),
        forall|k: int| i <= k < scan_plus(s, i) ==> #[trigger] s[k] != '+',
        scan_plus(s, i) < s.len() ==> s[scan_plus(s, i)] == '+',
    decreases s.len() - i,
{
    if i < s.len() && s[i] != '+' {
        lemma_scan_plus_bounds(s, i + 1);
    }
}

/// Soundness of the parser against the renderer: a string that parses is the
/// canonical rendering of its result, and the result is well formed.
pub proof fn lemma_parse_version_render(s: Seq<char>)
    requires
        spec_parse_version(s) is Some,
    ensures
        version_wf(spec_parse_version(s)->Some_0),
        render_version(spec_parse_version(s)->Some_0) == s,
{
    let v = spec_parse_version(s)->Some_0;
    let e1 = scan_digits(s, 0);
    lemma_scan_digits_bounds(s, 0);
    let maj = s.subrange(0, e1);
    let e2 = scan_digits(s, e1 + 1);
    lemma_scan_digits_bounds(s, e1 + 1);
    let min = s.subrange(e1 + 1, e2);
    let e3 = scan_digits(s, e2 + 1);
    lemma_scan_digits_bounds(s, e2 + 1);
    let pat = s.subrange(e2 + 1, e3);
    lemma_dec_str_of_val(maj);
    lemma_dec_str_of_val(min);
    lemma_dec_str_of_val(pat);
    lemma_seq_val_nonneg(maj);
    lemma_seq_val_nonneg(min);
    lemma_seq_val_nonneg(pat);
    let head = dec_str(v.major) + seq!['.'] + dec_str(v.minor) + seq!['.'] + dec_str(v.patch);
    assert(head =~= s.subrange(0, e3));
    if e3 == s.len() {
        assert(render_version(v) =~= s);
    } else if s[e3] == '-' {
        let pb = scan_plus(s, e3 + 1);
        lemma_scan_plus_bounds(s, e3 + 1);
        lemma_join_split(s.subrange(e3 + 1, pb));
        lemma_split_dots_len(s.subrange(e3 + 1, pb));
        assert(v.pre.len() > 0);
        if pb == s.len() {
            assert(render_version(v) =~= s);
        } else {
            lemma_join_split(s.subrange(pb + 1, s.len() as int));
            lemma_split_dots_len(s.subrange(pb + 1, s.len() as int));
            assert(v.build.len() > 0);
            assert(render_version(v) =~= s);
        }
    } else {
        lemma_join_split(s.subrange(e3 + 1, s.len() as int));
        lemma_split_dots_len(s.subrange(e3 + 1, s.len() as int));
        assert(v.build.len() > 0);
        assert(render_version(v) =~= s);
    }
}

// ---------------------------------------------------------------------------
// Executable character tests
// ---------------------------------------------------------------------------

pub fn char_is_digit(c: char) -> (b: bool)
    ensures
        b == is_digit(c),
{
    let u = c as u32;
    48 <= u && u <= 57
}

pub fn char_is_id(c: char) -> (b: bool)
    ensures
        b == is_id_char(c),
{
    let u = c as u32;
    (48 <= u && u <= 57) || (65 <= u && u <= 90) || (97 <= u && u <= 122) || c == '-'
}

pub(crate) fn digit_to_char(d: u64) -> (c: char)
    requires
        d < 10,
    ensures
        c == digit_char(d as int),
{
    proof {
        vstd::utf8::char_u32_cast('0', 48);
        vstd::utf8::char_u32_cast('1', 49);
        vstd::utf8::char_u32_cast('2', 50);
        vstd::utf8::char_u32_cast('3', 51);
        vstd::utf8::char_u32_cast('4', 52);
        vstd::utf8::char_u32_cast('5', 53);
        vstd::utf8::char_u32_cast('6', 54);
        vstd::utf8::char_u32_cast('7', 55);
        vstd::utf8::char_u32_cast('8', 56);
        vstd::utf8::char_u32_cast('9', 57);
    }
    match d {
        0 => '0',
        1 => '1',
        2 => '2',
        3 => '3',
        4 => '4',
        5 => '5',
        6 => '6',
        7 => '7',
        8 => '8',
        _ => '9',
    }
}

// ---------------------------------------------------------------------------
// Executable scanning and numeric parsing
// ---------------------------------------------------------------------------

proof fn lemma_scan_digits_fix(s: Seq<char>, i: int, j: int)
    requires
        0 <= i <= j <= s.len(),
        forall|k: int| i <= k < j ==> is_digit(#[trigger] s[k]),
        j == s.len() || !is_digit(s[j]),
    ensures
        scan_digits(s, i) == j,
    decreases j - i,
{
    if i < j {
        lemma_scan_digits_fix(s, i + 1, j);
    }
}

proof fn lemma_scan_plus_fix(s: Seq<char>, i: int, j: int)
    requires
        0 <= i <= j <= s.len(),
        forall|k: int| i <= k < j ==> #[trigger] s[k] != '+',
        j == s.len() || s[j] == '+',
    ensures
        scan_plus(s, i) == j,
    decreases j - i,
{
    if i < j {
        lemma_scan_plus_fix(s, i + 1, j);
    }
}

pub(crate) fn find_digits_end(v: &[char], from: usize) -> (r: usize)
    requires
        from <= v.len(),
    ensures
        r == scan_digits(v@, from as int),
        from <= r <= v.len(),
{
    let mut i = from;
    while i < v.len() && char_is_digit(v[i])
        invariant
            from <= i <= v@.len(),
            forall|k: int| from <= k < i ==> is_digit(#[trigger] v@[k]),
        decreases v@.len() - i,
    {
        i = i + 1;
    }
    proof {
        lemma_scan_digits_fix(v@, from as int, i as int);
    }
    i
}

fn find_plus(v: &[char], from: usize) -> (r: usize)
    requires
        from <= v.len(),
    ensures
        r == scan_plus(v@, from as int),
        from <= r <= v.len(),
{
    let mut i = from;
    while i < v.len() && v[i] != '+'
        invariant
            from <= i <= v@.len(),
            forall|k: int| from <= k < i ==> #[trigger] v@[k] != '+',
        decreases v@.len() - i,
    {
        i = i + 1;
    }
    proof {
        lemma_scan_plus_fix(v@, from as int, i as int);
    }
    i
}

proof fn lemma_seq_val_prefix_le(t: Seq<char>, m: int)
    requires
        all_digits(t),
        0 <= m <= t.len(),
    ensures
        seq_val(t.subrange(0, m)) <= seq_val(t),
    decreases t.len() - m,
{
    if m == t.len() {
        assert(t.subrange(0, m) =~= t);
    } else {
        lemma_seq_val_prefix_le(t, m + 1);
        let a = t.subrange(0, m);
        let b = t.subrange(0, m + 1);
        assert(b.drop_last() =~= a);
        assert(is_digit(t[m]));
        assert(seq_val(b) == seq_val(a) * 10 + digit_val(t[m]));
        lemma_seq_val_nonneg(a);
    }
}

/// Parses the digit region `[from, to)` as a canonical `u64`.
pub(crate) fn parse_num(v: &[char], from: usize, to: usize) -> (r: Option<u64>)
    requires
        from <= to <= v.len(),
    ensures
        r is Some <==> valid_num(v@.subrange(from as int, to as int)),
        r matches Some(n) ==> n == seq_val(v@.subrange(from as int, to as int)),
{
    let ghost s = v@.subrange(from as int, to as int);
    if from == to {
        return None;
    }
    if to - from > 1 && v[from] == '0' {
        return None;
    }
    let mut n: u64 = 0;
    let mut i = from;
    while i < to
        invariant
            from <= i <= to <= v@.len(),
            s == v@.subrange(from as int, to as int),
            forall|k: int| from <= k < i ==> is_digit(#[trigger] v@[k]),
            n == seq_val(v@.subrange(from as int, i as int)),
        decreases to - i,
    {
        let c = v[i];
        if !char_is_digit(c) {
            proof {
                assert(s[i - from] == c);
                assert(!all_digits(s));
            }
            return None;
        }
        let d: u64 = (c as u32 - 48) as u64;
        proof {
            assert(d == digit_val(c));
        }
        if n > (u64::MAX - d) / 10 {
            proof {
                let a = v@.subrange(from as int, i as int);
                let b = v@.subrange(from as int, i as int + 1);
                assert(b.drop_last() =~= a);
                assert(seq_val(b) == n * 10 + d);
                assert(n * 10 + d > u64::MAX) by (nonlinear_arith)
                    requires
                        n > (u64::MAX - d) / 10,
                        0 <= d <= 9,
                        n >= 0,
                ;
                if all_digits(s) {
                    lemma_seq_val_prefix_le(s, i - from + 1);
                    assert(b =~= s.subrange(0, i - from + 1));
                }
            }
            return None;
        }
        proof {
            assert(n * 10 + d <= u64::MAX) by (nonlinear_arith)
                requires
                    n <= (u64::MAX - d) / 10,
                    0 <= d <= 9,
                    n >= 0,
            ;
            let a = v@.subrange(from as int, i as int);
            let b = v@.subrange(from as int, i as int + 1);
            assert(b.drop_last() =~= a);
        }
        n = n * 10 + d;
        i = i + 1;
    }
    proof {
        assert(v@.subrange(from as int, i as int) =~= s);
        assert(all_digits(s));
        assert(s[0] == v@[from as int]);
        assert(canonical_num(s));
    }
    Some(n)
}

// ---------------------------------------------------------------------------
// Executable splitting and identifier validation
// ---------------------------------------------------------------------------

pub(crate) fn split_dots_exec(v: &[char], from: usize, to: usize) -> (r: Vec<Vec<char>>)
    requires
        from <= to <= v.len(),
    ensures
        ids_view(r@) == split_dots(v@.subrange(from as int, to as int)),
        r@.len() >= 1,
    decreases to - from,
{
    let ghost s = v@.subrange(from as int, to as int);
    if from == to {
        let mut r: Vec<Vec<char>> = Vec::new();
        r.push(Vec::new());
        proof {
            assert(ids_view(r@) =~= split_dots(s));
        }
        r
    } else if v[from] == '.' {
        let mut r = split_dots_exec(v, from + 1, to);
        proof {
            assert(s.drop_first() =~= v@.subrange(from as int + 1, to as int));
        }
        r.insert(0, Vec::new());
        proof {
            assert(ids_view(r@) =~= seq![Seq::<char>::empty()] + split_dots(s.drop_first()));
        }
        r
    } else {
        let mut r = split_dots_exec(v, from + 1, to);
        proof {
            assert(s.drop_first() =~= v@.subrange(from as int + 1, to as int));
            lemma_split_dots_len(s.drop_first());
        }
        let ghost sub = split_dots(s.drop_first());
        let mut first = r.remove(0);
        first.insert(0, v[from]);
        r.insert(0, first);
        proof {
            assert(s[0] == v@[from as int]);
            assert(first@ =~= seq![s[0]] + sub[0]);
            assert(ids_view(r@) =~= seq![seq![s[0]] + sub[0]] + sub.drop_first());
        }
        r
    }
}

fn check_pre_id(id: &Vec<char>) -> (b: bool)
    ensures
        b == valid_pre_id(id@),
{
    if id.len() == 0 {
        return false;
    }
    let mut alldig = true;
    let mut i: usize = 0;
    while i < id.len()
        invariant
            0 <= i <= id@.len(),
            forall|k: int| 0 <= k < i ==> is_id_char(#[trigger] id@[k]),
            alldig == (forall|k: int| 0 <= k < i ==> is_digit(#[trigger] id@[k])),
        decreases id@.len() - i,
    {
        let c = id[i];
        if !char_is_id(c) {
            return false;
        }
        if !char_is_digit(c) {
            alldig = false;
        }
        i = i + 1;
    }
    if alldig && id.len() > 1 && id[0] == '0' {
        return false;
    }
    true
}

fn check_build_id(id: &Vec<char>) -> (b: bool)
    ensures
        b == valid_build_id(id@),
{
    if id.len() == 0 {
        return false;
    }
    let mut i: usize = 0;
    while i < id.len()
        invariant
            0 <= i <= id@.len(),
            forall|k: int| 0 <= k < i ==> is_id_char(#[trigger] id@[k]),
        decreases id@.len() - i,
    {
        if !char_is_id(id[i]) {
            return false;
        }
        i = i + 1;
    }
    true
}

pub fn check_pre_ids(ids: &Vec<Vec<char>>) -> (b: bool)
    ensures
        b == valid_pre_ids(ids_view(ids@)),
{
    let mut i: usize = 0;
    while i < ids.len()
        invariant
            0 <= i <= ids@.len(),
            forall|k: int| 0 <= k < i ==> valid_pre_id(#[trigger] ids_view(ids@)[k]),
        decreases ids@.len() - i,
    {
        if !check_pre_id(&ids[i]) {
            proof {
                assert(ids_view(ids@)[i as int] == ids@[i as int]@);
            }
            return false;
        }
        i = i + 1;
    }
    true
}

pub fn check_build_ids(ids: &Vec<Vec<char>>) -> (b: bool)
    ensures
        b == valid_build_ids(ids_view(ids@)),
{
    let mut i: usize = 0;
    while i < ids.len()
        invariant
            0 <= i <= ids@.len(),
            forall|k: int| 0 <= k < i ==> valid_build_id(#[trigger] ids_view(ids@)[k]),
        decreases ids@.len() - i,
    {
        if !check_build_id(&ids[i]) {
            proof {
                assert(ids_view(ids@)[i as int] == ids@[i as int]@);
            }
            return false;
        }
        i = i + 1;
    }
    true
}

// ---------------------------------------------------------------------------
// Parsing and rendering a version
// ---------------------------------------------------------------------------

/// Parses a version from its characters, exactly as [`spec_parse_version`].
pub fn parse_version_chars(v: &[char]) -> (r: Option<SemVer>)
    ensures
        r is Some <==> spec_parse_version(v@) is Some,
        r matches Some(sv) ==> sv@ == spec_parse_version(v@)->Some_0,
{
    let e1 = find_digits_end(v, 0);
    let major = match parse_num(v, 0, e1) {
        Some(n) => n,
        None => { return None },
    };
    if !(e1 < v.len() && v[e1] == '.') {
        return None;
    }
    let e2 = find_digits_end(v, e1 + 1);
    let minor = match parse_num(v, e1 + 1, e2) {
        Some(n) => n,
        None => { return None },
    };
    if !(e2 < v.len() && v[e2] == '.') {
        return None;
    }
    let e3 = find_digits_end(v, e2 + 1);
    let patch = match parse_num(v, e2 + 1, e3) {
        Some(n) => n,
        None => { return None },
    };
    if e3 == v.len() {
        let sv = SemVer { major, minor, patch, pre: Vec::new(), build: Vec::new() };
        proof {
            assert(ids_view(sv.pre@) =~= Seq::<Seq<char>>::empty());
            assert(ids_view(sv.build@) =~= Seq::<Seq<char>>::empty());
        }
        return Some(sv);
    }
    let c = v[e3];
    if c == '-' {
        let pb = find_plus(v, e3 + 1);
        let pre = split_dots_exec(v, e3 + 1, pb);
        if !check_pre_ids(&pre) {
            return None;
        }
        if pb == v.len() {
            let sv = SemVer { major, minor, patch, pre, build: Vec::new() };
            proof {
                assert(ids_view(sv.build@) =~= Seq::<Seq<char>>::empty());
            }
            return Some(sv);
        }
        let build = split_dots_exec(v, pb + 1, v.len());
        if !check_build_ids(&build) {
            return None;
        }
        let sv = SemVer { major, minor, patch, pre, build };
        Some(sv)
    } else if c == '+' {
        let build = split_dots_exec(v, e3 + 1, v.len());
        if !check_build_ids(&build) {
            return None;
        }
        let sv = SemVer { major, minor, patch, pre: Vec::new(), build };
        proof {
            assert(ids_view(sv.pre@) =~= Seq::<Seq<char>>::empty());
        }
        Some(sv)
    } else {
        None
    }
}

/// Parses a version string.
pub fn parse_version(s: &str) -> (r: Option<SemVer>)
    ensures
        r is Some <==> spec_parse_version(s@) is Some,
        r matches Some(sv) ==> sv@ == spec_parse_version(s@)->Some_0,
{
    let chars = crate::text::str_to_chars(s);
    parse_version_chars(chars.as_slice())
}

/// Appends the canonical decimal rendering of `n`.
pub(crate) fn push_u64(out: &mut Vec<char>, n: u64)
    ensures
        final(out)@ == old(out)@ + dec_str(n as int),
    decreases n,
{
    if n < 10 {
        out.push(digit_to_char(n));
        proof {
            assert(out@ =~= old(out)@ + dec_str(n as int));
        }
    } else {
        push_u64(out, n / 10);
        out.push(digit_to_char(n % 10));
        proof {
            assert(out@ =~= old(out)@ + dec_str(n as int));
        }
    }
}

proof fn lemma_join_dots_push(ids: Seq<Seq<char>>, x: Seq<char>)
    requires
        ids.len() >= 1,
    ensures
        join_dots(ids.push(x)) == join_dots(ids) + seq!['.'] + x,
    decreases ids.len(),
{
    if ids.len() == 1 {
        let w = ids.push(x);
        assert(w.len() == 2);
        assert(w[0] == ids[0]);
        assert(w.drop_first() =~= seq![x]);
        assert(join_dots(seq![x]) == x);
        assert(join_dots(w) =~= join_dots(ids) + seq!['.'] + x);
    } else {
        lemma_join_dots_push(ids.drop_first(), x);
        let w = ids.push(x);
        assert(w.drop_first() =~= ids.drop_first().push(x));
        assert(join_dots(w) == w[0] + seq!['.'] + join_dots(ids.drop_first().push(x)));
        assert(join_dots(w) =~= join_dots(ids) + seq!['.'] + x);
    }
}

/// Appends the identifiers joined with dots.
pub(crate) fn push_ids(out: &mut Vec<char>, ids: &Vec<Vec<char>>)
    requires
        ids@.len() >= 1,
    ensures
        final(out)@ == old(out)@ + join_dots(ids_view(ids@)),
{
    let ghost whole = ids_view(ids@);
    let mut i: usize = 0;
    while i < ids.len()
        invariant
            0 <= i <= ids@.len(),
            whole == ids_view(ids@),
            i == 0 ==> out@ == old(out)@,
            i > 0 ==> out@ == old(out)@ + join_dots(whole.subrange(0, i as int)),
        decreases ids@.len() - i,
    {
        if i > 0 {
            out.push('.');
        }
        let mut j: usize = 0;
        let ghost mid = out@;
        while j < ids[i].len()
            invariant
                0 <= j <= ids@[i as int]@.len(),
                i < ids@.len(),
                out@ == mid + ids@[i as int]@.subrange(0, j as int),
            decreases ids@[i as int]@.len() - j,
        {
            out.push(ids[i][j]);
            proof {
                assert(out@ =~= mid + ids@[i as int]@.subrange(0, j as int + 1));
            }
            j = j + 1;
        }
        proof {
            assert(ids@[i as int]@.subrange(0, ids@[i as int]@.len() as int) =~= ids@[i as int]@);
            assert(whole[i as int] == ids@[i as int]@);
            if i == 0 {
                assert(whole.subrange(0, 1) =~= seq![whole[0]]);
                assert(join_dots(seq![whole[0]]) == whole[0]);
                assert(out@ =~= old(out)@ + join_dots(whole.subrange(0, 1)));
            } else {
                lemma_join_dots_push(whole.subrange(0, i as int), whole[i as int]);
                assert(whole.subrange(0, i as int).push(whole[i as int]) =~= whole.subrange(
                    0,
                    i as int + 1,
                ));
                assert(out@ =~= old(out)@ + join_dots(whole.subrange(0, i as int + 1)));
            }
        }
        i = i + 1;
    }
    proof {
        assert(whole.subrange(0, whole.len() as int) =~= whole);
    }
}

impl SemVer {
    /// The canonical string form, optionally without the build metadata.
    pub fn render_opt_build(&self, with_build: bool) -> (s: String)
        ensures
            with_build ==> s@ == render_version(self@),
            !with_build ==> s@ == render_version_no_build(self@),
    {
        let mut out: Vec<char> = Vec::new();
        push_u64(&mut out, self.major);
        out.push('.');
        push_u64(&mut out, self.minor);
        out.push('.');
        push_u64(&mut out, self.patch);
        if self.pre.len() > 0 {
            out.push('-');
            push_ids(&mut out, &self.pre);
        }
        if with_build && self.build.len() > 0 {
            out.push('+');
            push_ids(&mut out, &self.build);
        }
        proof {
            if with_build {
                assert(out@ =~= render_version(self@));
            } else {
                assert(out@ =~= render_version_no_build(self@));
            }
        }
        crate::text::chars_to_string(out.as_slice())
    }

    /// The canonical string form.
    pub fn render(&self) -> (s: String)
        ensures
            s@ == render_version(self@),
    {
        self.render_opt_build(true)
    }

    /// The string form with build metadata stripped.
    pub fn render_no_build(&self) -> (s: String)
        ensures
            s@ == render_version_no_build(self@),
    {
        self.render_opt_build(false)
    }

    /// A copy of this version with the build metadata removed.
    pub fn strip_build(&self) -> (r: SemVer)
        ensures
            r@ == (VersionView {
                major: self@.major,
                minor: self@.minor,
                patch: self@.patch,
                pre: self@.pre,
                build: Seq::empty(),
            }),
    {
        let r = SemVer {
            major: self.major,
            minor: self.minor,
            patch: self.patch,
            pre: self.pre.clone(),
            build: Vec::new(),
        };
        proof {
            assert(ids_view(r.build@) =~= Seq::<Seq<char>>::empty());
            assert(r.pre@.len() == self.pre@.len());
            assert(ids_view(r.pre@) =~= ids_view(self.pre@));
        }
        r
    }
}

} // verus!
