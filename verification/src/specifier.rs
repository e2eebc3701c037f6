//! The specifier model: `name@selector` strings naming one of the three
//! supported package managers and a version selector — an exact version, a
//! requirement, or an opaque dist-tag.  Parsing prefers the exact form, then
//! the requirement form, and otherwise treats the selector as a dist-tag, so
//! the discrimination is lossless.

use vstd::prelude::*;

use crate::errors::Error;
use crate::range::{render_req, spec_parse_req, ComparatorView, Op, VersionReq};
use crate::version::{
    render_version, render_version_no_build, spec_parse_version, SemVer, VersionView,
};

verus! {

/// The closed set of supported package managers.
#[derive(Clone, Copy, Debug, PartialEq, Eq, Structural)]
pub enum SpecName {
    Npm,
    Yarn,
    Pnpm,
}

/// The executable names the tools install.
#[derive(Clone, Copy, Debug, PartialEq, Eq, Structural)]
pub enum SpecBin {
    Npm,
    Npx,
    Yarn,
    Yarnpkg,
    Pnpm,
    Pnpx,
}

pub open spec fn npm_chars() -> Seq<char> {
    seq!['n', 'p', 'm']
}

pub open spec fn yarn_chars() -> Seq<char> {
    seq!['y', 'a', 'r', 'n']
}

pub open spec fn pnpm_chars() -> Seq<char> {
    seq!['p', 'n', 'p', 'm']
}

/// The registry package name of the modern yarn line.
pub open spec fn yarn_modern_chars() -> Seq<char> {
    seq!['@', 'y', 'a', 'r', 'n', 'p', 'k', 'g', '/', 'c', 'l', 'i', '-', 'd', 'i', 's', 't']
}

pub open spec fn name_chars(n: SpecName) -> Seq<char> {
    match n {
        SpecName::Npm => npm_chars(),
        SpecName::Yarn => yarn_chars(),
        SpecName::Pnpm => pnpm_chars(),
    }
}

pub open spec fn bin_chars(b: SpecBin) -> Seq<char> {
    match b {
        SpecBin::Npm => seq!['n', 'p', 'm'],
        SpecBin::Npx => seq!['n', 'p', 'x'],
        SpecBin::Yarn => seq!['y', 'a', 'r', 'n'],
        SpecBin::Yarnpkg => seq!['y', 'a', 'r', 'n', 'p', 'k', 'g'],
        SpecBin::Pnpm => seq!['p', 'n', 'p', 'm'],
        SpecBin::Pnpx => seq!['p', 'n', 'p', 'x'],
    }
}

/// The classic yarn executable name, as a vector.
pub fn yarn_chars_vec() -> (r: Vec<char>)
    ensures
        r@ == yarn_chars(),
{
    let mut v: Vec<char> = Vec::new();
    v.push('y');
    v.push('a');
    v.push('r');
    v.push('n');
    proof {
        assert(v@ =~= yarn_chars());
    }
    v
}

pub open spec fn spec_parse_name(s: Seq<char>) -> Option<SpecName> {
    if s == npm_chars() {
        Some(SpecName::Npm)
    } else if s == yarn_chars() {
        Some(SpecName::Yarn)
    } else if s == pnpm_chars() {
        Some(SpecName::Pnpm)
    } else {
        None
    }
}

pub open spec fn spec_parse_bin(s: Seq<char>) -> Option<SpecBin> {
    if s == bin_chars(SpecBin::Npm) {
        Some(SpecBin::Npm)
    } else if s == bin_chars(SpecBin::Npx) {
        Some(SpecBin::Npx)
    } else if s == bin_chars(SpecBin::Yarnpkg) {
        Some(SpecBin::Yarnpkg)
    } else if s == bin_chars(SpecBin::Yarn) {
        Some(SpecBin::Yarn)
    } else if s == bin_chars(SpecBin::Pnpm) {
        Some(SpecBin::Pnpm)
    } else if s == bin_chars(SpecBin::Pnpx) {
        Some(SpecBin::Pnpx)
    } else {
        None
    }
}

impl SpecName {
    /// The three names, in their fixed order.
    pub fn variants() -> (r: Vec<SpecName>)
        ensures
            r@ == seq![SpecName::Npm, SpecName::Yarn, SpecName::Pnpm],
    {
        let mut v: Vec<SpecName> = Vec::new();
        v.push(SpecName::Npm);
        v.push(SpecName::Yarn);
        v.push(SpecName::Pnpm);
        proof {
            assert(v@ =~= seq![SpecName::Npm, SpecName::Yarn, SpecName::Pnpm]);
        }
        v
    }

    pub fn push_chars(&self, out: &mut Vec<char>)
        ensures
            final(out)@ == old(out)@ + name_chars(*self),
    {
        match self {
            SpecName::Npm => {
                out.push('n');
                out.push('p');
                out.push('m');
            },
            SpecName::Yarn => {
                out.push('y');
                out.push('a');
                out.push('r');
                out.push('n');
            },
            SpecName::Pnpm => {
                out.push('p');
                out.push('n');
                out.push('p');
                out.push('m');
            },
        }
        proof {
            assert(out@ =~= old(out)@ + name_chars(*self));
        }
    }

    /// The tool's name as a string.
    pub fn render(&self) -> (s: String)
        ensures
            s@ == name_chars(*self),
    {
        let mut out: Vec<char> = Vec::new();
        self.push_chars(&mut out);
        crate::text::chars_to_string(out.as_slice())
    }

    /// Parses a tool name; only the three exact names are accepted.
    pub fn parse_chars(v: &[char]) -> (r: Option<SpecName>)
        ensures
            r == spec_parse_name(v@),
    {
        if v.len() == 3 && v[0] == 'n' && v[1] == 'p' && v[2] == 'm' {
            proof {
                assert(v@ =~= npm_chars());
            }
            Some(SpecName::Npm)
        } else if v.len() == 4 && v[0] == 'y' && v[1] == 'a' && v[2] == 'r' && v[3] == 'n' {
            proof {
                assert(v@ =~= yarn_chars());
            }
            Some(SpecName::Yarn)
        } else if v.len() == 4 && v[0] == 'p' && v[1] == 'n' && v[2] == 'p' && v[3] == 'm' {
            proof {
                assert(v@ =~= pnpm_chars());
            }
            Some(SpecName::Pnpm)
        } else {
            proof {
                if v@ == npm_chars() {
                    assert(v@.len() == 3 && v@[0] == 'n' && v@[1] == 'p' && v@[2] == 'm');
                }
                if v@ == yarn_chars() {
                    assert(v@.len() == 4 && v@[0] == 'y' && v@[1] == 'a' && v@[2] == 'r' && v@[3]
                        == 'n');
                }
                if v@ == pnpm_chars() {
                    assert(v@.len() == 4 && v@[0] == 'p' && v@[1] == 'n' && v@[2] == 'p' && v@[3]
                        == 'm');
                }
            }
            None
        }
    }

    /// Parses a tool name from a string.
    pub fn parse(s: &str) -> (r: Option<SpecName>)
        ensures
            r == spec_parse_name(s@),
    {
        let chars = crate::text::str_to_chars(s);
        SpecName::parse_chars(chars.as_slice())
    }
}

impl SpecBin {
    /// The six executable names, in their fixed order.
    pub fn variants() -> (r: Vec<SpecBin>)
        ensures
            r@ == seq![
                SpecBin::Npm,
                SpecBin::Npx,
                SpecBin::Yarn,
                SpecBin::Yarnpkg,
                SpecBin::Pnpm,
                SpecBin::Pnpx,
            ],
    {
        let mut v: Vec<SpecBin> = Vec::new();
        v.push(SpecBin::Npm);
        v.push(SpecBin::Npx);
        v.push(SpecBin::Yarn);
        v.push(SpecBin::Yarnpkg);
        v.push(SpecBin::Pnpm);
        v.push(SpecBin::Pnpx);
        proof {
            assert(v@ =~= seq![
                SpecBin::Npm,
                SpecBin::Npx,
                SpecBin::Yarn,
                SpecBin::Yarnpkg,
                SpecBin::Pnpm,
                SpecBin::Pnpx,
            ]);
        }
        v
    }

    /// The tool a binary belongs to, at the specification level.
    pub open spec fn to_name_spec(self) -> SpecName {
        match self {
            SpecBin::Npm | SpecBin::Npx => SpecName::Npm,
            SpecBin::Yarn | SpecBin::Yarnpkg => SpecName::Yarn,
            SpecBin::Pnpm | SpecBin::Pnpx => SpecName::Pnpm,
        }
    }

    /// The tool a binary belongs to.
    pub fn to_name(self) -> (r: SpecName)
        ensures
            r == self.to_name_spec(),
    {
        match self {
            SpecBin::Npm | SpecBin::Npx => SpecName::Npm,
            SpecBin::Yarn | SpecBin::Yarnpkg => SpecName::Yarn,
            SpecBin::Pnpm | SpecBin::Pnpx => SpecName::Pnpm,
        }
    }

    pub fn push_chars(&self, out: &mut Vec<char>)
        ensures
            final(out)@ == old(out)@ + bin_chars(*self),
    {
        match self {
            SpecBin::Npm => {
                out.push('n');
                out.push('p');
                out.push('m');
            },
            SpecBin::Npx => {
                out.push('n');
                out.push('p');
                out.push('x');
            },
            SpecBin::Yarn => {
                out.push('y');
                out.push('a');
                out.push('r');
                out.push('n');
            },
            SpecBin::Yarnpkg => {
                out.push('y');
                out.push('a');
                out.push('r');
                out.push('n');
                out.push('p');
                out.push('k');
                out.push('g');
            },
            SpecBin::Pnpm => {
                out.push('p');
                out.push('n');
                out.push('p');
                out.push('m');
            },
            SpecBin::Pnpx => {
                out.push('p');
                out.push('n');
                out.push('p');
                out.push('x');
            },
        }
        proof {
            assert(out@ =~= old(out)@ + bin_chars(*self));
        }
    }

    /// The executable's name as a string.
    pub fn render(&self) -> (s: String)
        ensures
            s@ == bin_chars(*self),
    {
        let mut out: Vec<char> = Vec::new();
        self.push_chars(&mut out);
        crate::text::chars_to_string(out.as_slice())
    }

    /// Parses an executable name; only the six exact names are accepted.
    pub fn parse(s: &str) -> (r: Option<SpecBin>)
        ensures
            r == spec_parse_bin(s@),
    {
        let v = crate::text::str_to_chars(s);
        let n = v.len();
        if n == 3 && v[0] == 'n' && v[1] == 'p' && v[2] == 'm' {
            proof {
                assert(s@ =~= bin_chars(SpecBin::Npm));
            }
            Some(SpecBin::Npm)
        } else if n == 3 && v[0] == 'n' && v[1] == 'p' && v[2] == 'x' {
            proof {
                assert(s@ =~= bin_chars(SpecBin::Npx));
            }
            Some(SpecBin::Npx)
        } else if n == 4 && v[0] == 'y' && v[1] == 'a' && v[2] == 'r' && v[3] == 'n' {
            proof {
                assert(s@ =~= bin_chars(SpecBin::Yarn));
            }
            Some(SpecBin::Yarn)
        } else if n == 7 && v[0] == 'y' && v[1] == 'a' && v[2] == 'r' && v[3] == 'n' && v[4] == 'p'
            && v[5] == 'k' && v[6] == 'g' {
            proof {
                assert(s@ =~= bin_chars(SpecBin::Yarnpkg));
            }
            Some(SpecBin::Yarnpkg)
        } else if n == 4 && v[0] == 'p' && v[1] == 'n' && v[2] == 'p' && v[3] == 'm' {
            proof {
                assert(s@ =~= bin_chars(SpecBin::Pnpm));
            }
            Some(SpecBin::Pnpm)
        } else if n == 4 && v[0] == 'p' && v[1] == 'n' && v[2] == 'p' && v[3] == 'x' {
            proof {
                assert(s@ =~= bin_chars(SpecBin::Pnpx));
            }
            Some(SpecBin::Pnpx)
        } else {
            proof {
                if s@ == bin_chars(SpecBin::Npm) {
                    assert(s@.len() == 3 && s@[0] == 'n' && s@[1] == 'p' && s@[2] == 'm');
                }
                if s@ == bin_chars(SpecBin::Npx) {
                    assert(s@.len() == 3 && s@[0] == 'n' && s@[1] == 'p' && s@[2] == 'x');
                }
                if s@ == bin_chars(SpecBin::Yarn) {
                    assert(s@.len() == 4 && s@[0] == 'y' && s@[1] == 'a' && s@[2] == 'r' && s@[3]
                        == 'n');
                }
                if s@ == bin_chars(SpecBin::Yarnpkg) {
                    assert(s@.len() == 7 && s@[0] == 'y' && s@[1] == 'a' && s@[2] == 'r' && s@[3]
                        == 'n' && s@[4] == 'p' && s@[5] == 'k' && s@[6] == 'g');
                }
                if s@ == bin_chars(SpecBin::Pnpm) {
                    assert(s@.len() == 4 && s@[0] == 'p' && s@[1] == 'n' && s@[2] == 'p' && s@[3]
                        == 'm');
                }
                if s@ == bin_chars(SpecBin::Pnpx) {
                    assert(s@.len() == 4 && s@[0] == 'p' && s@[1] == 'n' && s@[2] == 'p' && s@[3]
                        == 'x');
                }
            }
            None
        }
    }
}

// ---------------------------------------------------------------------------
// Version selectors
// ---------------------------------------------------------------------------

/// The version selector of a specifier.
#[derive(Clone, Debug, PartialEq, Eq)]
pub enum SpecVersion {
    Exact(SemVer),
    SemverReq(VersionReq),
    DistTag(String),
}

/// The value of a selector.
pub ghost enum SelectorView {
    Exact(VersionView),
    Req(Seq<ComparatorView>),
    Tag(Seq<char>),
}

impl View for SpecVersion {
    type V = SelectorView;

    open spec fn view(&self) -> SelectorView {
        match self {
            SpecVersion::Exact(v) => SelectorView::Exact(v@),
            SpecVersion::SemverReq(r) => SelectorView::Req(r@),
            SpecVersion::DistTag(t) => SelectorView::Tag(t@),
        }
    }
}

/// How a selector string is classified: an exact version wins, then a
/// requirement, and anything else is an opaque dist-tag.
pub open spec fn spec_parse_selector(s: Seq<char>) -> SelectorView {
    if spec_parse_version(s) is Some {
        SelectorView::Exact(spec_parse_version(s)->Some_0)
    } else if spec_parse_req(s) is Some {
        SelectorView::Req(spec_parse_req(s)->Some_0)
    } else {
        SelectorView::Tag(s)
    }
}

/// The string form of a selector; the alternate form strips build metadata
/// from an exact version.
pub open spec fn render_selector(v: SelectorView, alternate: bool) -> Seq<char> {
    match v {
        SelectorView::Exact(sv) => if alternate {
            render_version_no_build(sv)
        } else {
            render_version(sv)
        },
        SelectorView::Req(rs) => render_req(rs),
        SelectorView::Tag(t) => t,
    }
}

impl SpecVersion {
    /// Parses a selector; never fails, falling back to a dist-tag.
    pub fn parse_chars(v: &[char]) -> (r: SpecVersion)
        ensures
            r@ == spec_parse_selector(v@),
    {
        if let Some(sv) = crate::version::parse_version_chars(v) {
            return SpecVersion::Exact(sv);
        }
        if let Some(req) = VersionReq::parse_chars(v) {
            return SpecVersion::SemverReq(req);
        }
        SpecVersion::DistTag(crate::text::chars_to_string(v))
    }

    /// Parses a selector string.
    pub fn parse(s: &str) -> (r: SpecVersion)
        ensures
            r@ == spec_parse_selector(s@),
    {
        let chars = crate::text::str_to_chars(s);
        SpecVersion::parse_chars(chars.as_slice())
    }

    /// The selector used when a specifier names no version: any version.
    pub fn default_any() -> (r: SpecVersion)
        ensures
            r@ == SelectorView::Req(Seq::<ComparatorView>::empty()),
    {
        SpecVersion::SemverReq(VersionReq::star())
    }

    /// Whether this selector is an exact version.
    pub fn is_exact(&self) -> (r: bool)
        ensures
            r == (self@ is Exact),
    {
        match self {
            SpecVersion::Exact(_) => true,
            _ => false,
        }
    }

    /// Whether this selector is a dist-tag.
    pub fn is_dist_tag(&self) -> (r: bool)
        ensures
            r == (self@ is Tag),
    {
        match self {
            SpecVersion::DistTag(_) => true,
            _ => false,
        }
    }

    pub fn push_chars(&self, out: &mut Vec<char>, alternate: bool)
        ensures
            final(out)@ == old(out)@ + render_selector(self@, alternate),
    {
        match self {
            SpecVersion::Exact(v) => {
                let rendered = v.render_opt_build(!alternate);
                let chars = crate::text::str_to_chars(rendered.as_str());
                let mut i: usize = 0;
                while i < chars.len()
                    invariant
                        0 <= i <= chars@.len(),
                        out@ == old(out)@ + chars@.subrange(0, i as int),
                    decreases chars@.len() - i,
                {
                    out.push(chars[i]);
                    proof {
                        assert(out@ =~= old(out)@ + chars@.subrange(0, i as int + 1));
                    }
                    i = i + 1;
                }
                proof {
                    assert(chars@.subrange(0, chars@.len() as int) =~= chars@);
                }
            },
            SpecVersion::SemverReq(r) => {
                r.push_chars(out);
            },
            SpecVersion::DistTag(t) => {
                let chars = crate::text::str_to_chars(t.as_str());
                let mut i: usize = 0;
                while i < chars.len()
                    invariant
                        0 <= i <= chars@.len(),
                        out@ == old(out)@ + chars@.subrange(0, i as int),
                    decreases chars@.len() - i,
                {
                    out.push(chars[i]);
                    proof {
                        assert(out@ =~= old(out)@ + chars@.subrange(0, i as int + 1));
                    }
                    i = i + 1;
                }
                proof {
                    assert(chars@.subrange(0, chars@.len() as int) =~= chars@);
                }
            },
        }
    }

    /// The selector's string form.
    pub fn render(&self, alternate: bool) -> (s: String)
        ensures
            s@ == render_selector(self@, alternate),
    {
        let mut out: Vec<char> = Vec::new();
        self.push_chars(&mut out, alternate);
        crate::text::chars_to_string(out.as_slice())
    }
}

// ---------------------------------------------------------------------------
// The specifier itself
// ---------------------------------------------------------------------------

/// A package-manager specifier: a tool and a version selector.
#[derive(Clone, Debug, PartialEq, Eq)]
pub struct Spec {
    pub name: SpecName,
    pub version: SpecVersion,
}

pub ghost struct SpecView {
    pub name: SpecName,
    pub version: SelectorView,
}

impl View for Spec {
    type V = SpecView;

    open spec fn view(&self) -> SpecView {
        SpecView { name: self.name, version: self.version@ }
    }
}

/// The first position at or after `i` that holds `'@'`, or the length.
pub open spec fn scan_at(s: Seq<char>, i: int) -> int
    decreases s.len() - i,
{
    if i < s.len() && s[i] != '@' {
        scan_at(s, i + 1)
    } else {
        i
    }
}

proof fn lemma_scan_at_fix(s: Seq<char>, i: int, j: int)
    requires
        0 <= i <= j <= s.len(),
        forall|k: int| i <= k < j ==> #[trigger] s[k] != '@',
        j == s.len() || s[j] == '@',
    ensures
        scan_at(s, i) == j,
    decreases j - i,
{
    if i < j {
        lemma_scan_at_fix(s, i + 1, j);
    }
}

pub proof fn lemma_scan_at_bounds(s: Seq<char>, i: int)
    requires
        0 <= i <= s.len(),
    ensures
        i <= scan_at(s, i) <= s.len(),
        scan_at(s, i) < s.len() ==> s[scan_at(s, i)] == '@',
    decreases s.len() - i,
{
    if i < s.len() && s[i] != '@' {
        lemma_scan_at_bounds(s, i + 1);
    }
}

fn find_at(v: &[char], from: usize) -> (r: usize)
    requires
        from <= v.len(),
    ensures
        r == scan_at(v@, from as int),
        from <= r <= v.len(),
{
    let mut i = from;
    while i < v.len() && v[i] != '@'
        invariant
            from <= i <= v@.len(),
            forall|k: int| from <= k < i ==> #[trigger] v@[k] != '@',
        decreases v@.len() - i,
    {
        i = i + 1;
    }
    proof {
        lemma_scan_at_fix(v@, from as int, i as int);
    }
    i
}

/// Parses `name@selector`: the part before the first `'@'` must be one of
/// the three tool names; an absent selector means any version.
pub open spec fn spec_parse_spec(s: Seq<char>) -> Option<SpecView> {
    let a = scan_at(s, 0);
    match spec_parse_name(s.subrange(0, a)) {
        None => None,
        Some(n) => if a == s.len() {
            Some(SpecView { name: n, version: SelectorView::Req(Seq::empty()) })
        } else {
            Some(SpecView { name: n, version: spec_parse_selector(s.subrange(a + 1, s.len() as int)) })
        },
    }
}

/// The string form of a specifier.
pub open spec fn render_spec(sp: SpecView, alternate: bool) -> Seq<char> {
    name_chars(sp.name) + seq!['@'] + render_selector(sp.version, alternate)
}

impl Spec {
    /// Parses a specifier; a name outside the closed set is rejected.
    pub fn parse(s: &str) -> (r: Result<Spec, Error>)
        ensures
            r is Ok <==> spec_parse_spec(s@) is Some,
            r matches Ok(sp) ==> sp@ == spec_parse_spec(s@)->Some_0,
            r matches Err(e) ==> e matches Error::InvalidSpecifier { input } && input@ == s@,
    {
        let chars = crate::text::str_to_chars(s);
        let v = chars.as_slice();
        let a = find_at(v, 0);
        let name_part: Vec<char> = crate::text::slice_range_to_vec(v, 0, a);
        let name = match SpecName::parse_chars(name_part.as_slice()) {
            Some(n) => n,
            None => {
                proof {
                    assert(name_part@ =~= v@.subrange(0, a as int));
                }
                return Err(Error::InvalidSpecifier { input: s.to_owned() });
            },
        };
        proof {
            assert(name_part@ =~= v@.subrange(0, a as int));
        }
        if a == v.len() {
            Ok(Spec { name, version: SpecVersion::default_any() })
        } else {
            let rest: Vec<char> = crate::text::slice_range_to_vec(v, a + 1, v.len());
            proof {
                assert(rest@ =~= v@.subrange(a as int + 1, v@.len() as int));
            }
            let version = SpecVersion::parse_chars(rest.as_slice());
            Ok(Spec { name, version })
        }
    }

    /// The string form; the alternate form strips build metadata from an
    /// exact selector.
    pub fn render(&self, alternate: bool) -> (r: String)
        ensures
            r@ == render_spec(self@, alternate),
    {
        let mut out: Vec<char> = Vec::new();
        self.name.push_chars(&mut out);
        out.push('@');
        self.version.push_chars(&mut out, alternate);
        proof {
            assert(out@ =~= render_spec(self@, alternate));
        }
        crate::text::chars_to_string(out.as_slice())
    }
}

/// Parsing a well-formed `name@exact-version` string and rendering the result
/// gives the string back; the alternate form strips only the build metadata,
/// preserving name, numeric fields and prerelease.
pub proof fn lemma_spec_exact_roundtrip(s: Seq<char>)
    requires
        spec_parse_spec(s) matches Some(sp) && sp.version is Exact,
    ensures
        render_spec(spec_parse_spec(s)->Some_0, false) == s,
        ({
            let sp = spec_parse_spec(s)->Some_0;
            render_spec(sp, true) == name_chars(sp.name) + seq!['@'] + render_version_no_build(
                sp.version->Exact_0,
            )
        }),
        ({
            let sp = spec_parse_spec(s)->Some_0;
            sp.version->Exact_0.build.len() == 0 ==> render_spec(sp, true) == s
        }),
{
    let sp = spec_parse_spec(s)->Some_0;
    let a = scan_at(s, 0);
    lemma_scan_at_bounds(s, 0);
    let name_part = s.subrange(0, a);
    assert(a < s.len());
    let rest = s.subrange(a + 1, s.len() as int);
    assert(spec_parse_version(rest) is Some);
    crate::version::lemma_parse_version_render(rest);
    let v = sp.version->Exact_0;
    assert(render_version(v) == rest);
    assert(name_chars(sp.name) == name_part);
    assert(render_spec(sp, false) =~= s);
    if v.build.len() == 0 {
        assert(render_version_no_build(v) =~= render_version(v));
        assert(render_spec(sp, true) =~= s);
    }
}

// ---------------------------------------------------------------------------
// Registry package names
// ---------------------------------------------------------------------------

/// A comparator that pins the classic (pre-2.0) yarn line.
pub open spec fn comparator_classic(c: ComparatorView) -> bool {
    match c.op {
        Op::Exact | Op::LessEq | Op::Tilde | Op::Caret => c.major <= 1,
        Op::Less => c.major <= 1 || (c.major == 2 && (c.minor is None || c.minor == Some(0int))
            && (c.patch is None || c.patch == Some(0int))),
        _ => false,
    }
}

pub open spec fn any_classic(rs: Seq<ComparatorView>) -> bool {
    exists|i: int| 0 <= i < rs.len() && comparator_classic(#[trigger] rs[i])
}

/// Whether a selector denotes the classic yarn line: an exact version with
/// major at most 1, or a requirement with any classic comparator.  Dist-tags
/// never count as classic.
pub open spec fn spec_is_classic_yarn(v: SelectorView) -> bool {
    match v {
        SelectorView::Exact(sv) => sv.major <= 1,
        SelectorView::Req(rs) => any_classic(rs),
        SelectorView::Tag(_) => false,
    }
}

/// The registry package name a specifier resolves against.  One tool is
/// published under two names: the classic line under its plain name, the
/// modern line under a scoped name.
pub open spec fn spec_npm_package_name(sp: SpecView) -> Seq<char> {
    match sp.name {
        SpecName::Npm => npm_chars(),
        SpecName::Pnpm => pnpm_chars(),
        SpecName::Yarn => if spec_is_classic_yarn(sp.version) {
            yarn_chars()
        } else {
            yarn_modern_chars()
        },
    }
}

/// Whether this selector pins the classic yarn line.
fn is_classic_yarn(version: &SpecVersion) -> (b: bool)
    ensures
        b == spec_is_classic_yarn(version@),
{
    match version {
        SpecVersion::Exact(v) => { return v.major <= 1 },
        SpecVersion::SemverReq(req) => {
            let mut found = false;
            let n = req.comparators.len();
            let mut i: usize = 0;
            while i < n
                invariant
                    0 <= i <= n,
                    n == req.comparators@.len(),
                    found == exists|k: int|
                        0 <= k < i && comparator_classic(#[trigger] req@[k]),
                decreases n - i,
            {
                let c = &req.comparators[i];
                let cc: bool = match c.op {
                    Op::Exact | Op::LessEq | Op::Tilde | Op::Caret => c.major <= 1,
                    Op::Less => c.major <= 1 || (c.major == 2 && (match c.minor {
                        None => true,
                        Some(m) => m == 0,
                    }) && (match c.patch {
                        None => true,
                        Some(p) => p == 0,
                    })),
                    _ => false,
                };
                proof {
                    assert(req@[i as int] == req.comparators@[i as int]@);
                    assert(cc == comparator_classic(req@[i as int]));
                }
                if cc {
                    found = true;
                }
                i = i + 1;
            }
            proof {
                assert(version@ == SelectorView::Req(req@));
                assert(req@.len() == req.comparators@.len());
                assert(i as int == req@.len());
                if found {
                    let k = choose|k: int|
                        0 <= k < i && comparator_classic(#[trigger] req@[k]);
                    assert(0 <= k < req@.len() && comparator_classic(req@[k]));
                    assert(any_classic(req@));
                } else {
                    if any_classic(req@) {
                        let k = choose|k: int|
                            0 <= k < req@.len() && comparator_classic(#[trigger] req@[k]);
                        assert(0 <= k < i && comparator_classic(req@[k]));
                    }
                }
            }
            return found;
        },
        SpecVersion::DistTag(_) => { return false },
    }
}

impl Spec {
    /// The registry package name to fetch for this specifier.
    pub fn to_npm_package_name(&self) -> (r: String)
        ensures
            r@ == spec_npm_package_name(self@),
    {
        match self.name {
            SpecName::Npm => {
                let r = SpecName::Npm.render();
                proof {
                    assert(r@ =~= spec_npm_package_name(self@));
                }
                r
            },
            SpecName::Pnpm => {
                let r = SpecName::Pnpm.render();
                proof {
                    assert(r@ =~= spec_npm_package_name(self@));
                }
                r
            },
            SpecName::Yarn => {
                let classic = is_classic_yarn(&self.version);
                if classic {
                    let r = SpecName::Yarn.render();
                    proof {
                        assert(r@ =~= spec_npm_package_name(self@));
                    }
                    r
                } else {
                    let mut out: Vec<char> = Vec::new();
                    out.push('@');
                    out.push('y');
                    out.push('a');
                    out.push('r');
                    out.push('n');
                    out.push('p');
                    out.push('k');
                    out.push('g');
                    out.push('/');
                    out.push('c');
                    out.push('l');
                    out.push('i');
                    out.push('-');
                    out.push('d');
                    out.push('i');
                    out.push('s');
                    out.push('t');
                    proof {
                        assert(out@ =~= yarn_modern_chars());
                    }
                    crate::text::chars_to_string(out.as_slice())
                }
            },
        }
    }
}

} // verus!