//! Decisions around running and recording a tool: which specifier an
//! invocation effectively runs under, what edit a manifest needs, and how a
//! resolved version is pinned back into a specifier.  Also the small text
//! heuristics used when rewriting a manifest in place.

use vstd::prelude::*;

use crate::integrity::{expected_bytes, render_integrity, SpecVersionIntegrity};
use crate::specifier::{name_chars, render_selector, render_spec, Spec, SpecBin, SpecName};
use crate::version::{ids_view, join_dots, SemVer};

verus! {

// ---------------------------------------------------------------------------
// Whitespace and line heuristics
// ---------------------------------------------------------------------------

/// Rust's notion of a whitespace character.
pub open spec fn is_ws(c: char) -> bool {
    ||| c as u32 == 0x09
    ||| c as u32 == 0x0a
    ||| c as u32 == 0x0b
    ||| c as u32 == 0x0c
    ||| c as u32 == 0x0d
    ||| c as u32 == 0x20
    ||| c as u32 == 0x85
    ||| c as u32 == 0xa0
    ||| c as u32 == 0x1680
    ||| (0x2000 <= c as u32 && c as u32 <= 0x200a)
    ||| c as u32 == 0x2028
    ||| c as u32 == 0x2029
    ||| c as u32 == 0x202f
    ||| c as u32 == 0x205f
    ||| c as u32 == 0x3000
}

fn char_is_ws(c: char) -> (b: bool)
    ensures
        b == is_ws(c),
{
    let u = c as u32;
    u == 0x09 || u == 0x0a || u == 0x0b || u == 0x0c || u == 0x0d || u == 0x20 || u == 0x85 || u
        == 0xa0 || u == 0x1680 || (0x2000 <= u && u <= 0x200a) || u == 0x2028 || u == 0x2029 || u
        == 0x202f || u == 0x205f || u == 0x3000
}

/// The first position at or after `i` holding `'\n'`, or the length.
pub open spec fn scan_nl(s: Seq<char>, i: int) -> int
    decreases s.len() - i,
{
    if i < s.len() && s[i] != '\n' {
        scan_nl(s, i + 1)
    } else {
        i
    }
}

/// The first position at or after `i` holding a non-whitespace character, or
/// the length.
pub open spec fn scan_ws_end(s: Seq<char>, i: int) -> int
    decreases s.len() - i,
{
    if i < s.len() && is_ws(s[i]) {
        scan_ws_end(s, i + 1)
    } else {
        i
    }
}

/// One line without a trailing carriage return.
pub open spec fn strip_cr(line: Seq<char>) -> Seq<char> {
    if line.len() > 0 && line.last() == '\r' {
        line.drop_last()
    } else {
        line
    }
}

/// The leading whitespace of the first line at or after `i` that has any:
/// the indentation the text already uses.
pub open spec fn first_indent_from(s: Seq<char>, i: int) -> Option<Seq<char>>
    decreases s.len() - i,
    when 0 <= i <= s.len()
    via first_indent_dec
{
    let e = scan_nl(s, i);
    let line = strip_cr(s.subrange(i, e));
    let w = scan_ws_end(line, 0);
    if w > 0 {
        Some(line.subrange(0, w))
    } else if e >= s.len() {
        None
    } else {
        first_indent_from(s, e + 1)
    }
}

#[via_fn]
proof fn first_indent_dec(s: Seq<char>, i: int) {
    lemma_scan_nl_bounds(s, i);
}

pub open spec fn first_indent(s: Seq<char>) -> Option<Seq<char>> {
    first_indent_from(s, 0)
}

/// The indentation to use when rewriting: what the text uses, or two spaces.
pub open spec fn spec_detect_indent(s: Option<Seq<char>>) -> Seq<char> {
    match s {
        Some(t) => match first_indent(t) {
            Some(w) => w,
            None => seq![' ', ' '],
        },
        None => seq![' ', ' '],
    }
}

/// Whether the text uses Windows line endings anywhere.
pub open spec fn has_crlf(s: Seq<char>) -> bool {
    exists|i: int| 0 <= i && i + 1 < s.len() && #[trigger] s[i] == '\r' && s[i + 1] == '\n'
}

pub open spec fn spec_detect_eol(s: Option<Seq<char>>) -> Seq<char> {
    match s {
        Some(t) => if has_crlf(t) {
            seq!['\r', '\n']
        } else {
            seq!['\n']
        },
        None => seq!['\n'],
    }
}

proof fn lemma_scan_nl_bounds(s: Seq<char>, i: int)
    requires
        0 <= i <= s.len(),
    ensures
        i <= scan_nl(s, i) <= s.len(),
    decreases s.len() - i,
{
    if i < s.len() && s[i] != '\n' {
        lemma_scan_nl_bounds(s, i + 1);
    }
}

proof fn lemma_scan_nl_fix(s: Seq<char>, i: int, j: int)
    requires
        0 <= i <= j <= s.len(),
        forall|k: int| i <= k < j ==> #[trigger] s[k] != '\n',
        j == s.len() || s[j] == '\n',
    ensures
        scan_nl(s, i) == j,
    decreases j - i,
{
    if i < j {
        lemma_scan_nl_fix(s, i + 1, j);
    }
}

proof fn lemma_scan_ws_fix(s: Seq<char>, i: int, j: int)
    requires
        0 <= i <= j <= s.len(),
        forall|k: int| i <= k < j ==> is_ws(#[trigger] s[k]),
        j == s.len() || !is_ws(s[j]),
    ensures
        scan_ws_end(s, i) == j,
    decreases j - i,
{
    if i < j {
        lemma_scan_ws_fix(s, i + 1, j);
    }
}

fn first_indent_at(v: &[char], from: usize) -> (r: Option<Vec<char>>)
    requires
        from <= v.len(),
    ensures
        r is Some <==> first_indent_from(v@, from as int) is Some,
        r matches Some(w) ==> Some(w@) == first_indent_from(v@, from as int),
    decreases v.len() - from,
{
    let mut e = from;
    while e < v.len() && v[e] != '\n'
        invariant
            from <= e <= v@.len(),
            forall|k: int| from <= k < e ==> #[trigger] v@[k] != '\n',
        decreases v@.len() - e,
    {
        e = e + 1;
    }
    proof {
        lemma_scan_nl_fix(v@, from as int, e as int);
    }
    // the line, without a trailing carriage return
    let mut le = e;
    if le > from && v[le - 1] == '\r' {
        le = le - 1;
    }
    proof {
        assert(strip_cr(v@.subrange(from as int, e as int)) =~= v@.subrange(
            from as int,
            le as int,
        ));
    }
    let mut w = from;
    while w < le && char_is_ws(v[w])
        invariant
            from <= w <= le <= v@.len(),
            forall|k: int| from <= k < w ==> is_ws(#[trigger] v@[k]),
        decreases le - w,
    {
        w = w + 1;
    }
    proof {
        let line = strip_cr(v@.subrange(from as int, e as int));
        assert(line.len() == le - from);
        assert(forall|k: int| 0 <= k < line.len() ==> line[k] == v@[k + from]);
        if w < le {
            assert(!is_ws(line[w - from]));
        }
        lemma_scan_ws_fix(line, 0, w - from);
    }
    if w > from {
        let ws = crate::text::slice_range_to_vec(v, from, w);
        proof {
            let line = strip_cr(v@.subrange(from as int, e as int));
            assert(ws@ =~= line.subrange(0, w - from));
        }
        return Some(ws);
    }
    if e >= v.len() {
        return None;
    }
    first_indent_at(v, e + 1)
}

/// The indentation of the first indented line of the text, or two spaces.
pub fn detect_indent(s: Option<&str>) -> (r: String)
    ensures
        r@ == spec_detect_indent(
            match s {
                Some(t) => Some(t@),
                None => None,
            },
        ),
{
    match s {
        None => {
            let mut out: Vec<char> = Vec::new();
            out.push(' ');
            out.push(' ');
            proof {
                assert(out@ =~= seq![' ', ' ']);
            }
            crate::text::chars_to_string(out.as_slice())
        },
        Some(t) => {
            let chars = crate::text::str_to_chars(t);
            proof {
                assert(chars@.skip(0) =~= chars@);
            }
            match first_indent_at(chars.as_slice(), 0) {
                Some(w) => crate::text::chars_to_string(w.as_slice()),
                None => {
                    let mut out: Vec<char> = Vec::new();
                    out.push(' ');
                    out.push(' ');
                    proof {
                        assert(out@ =~= seq![' ', ' ']);
                    }
                    crate::text::chars_to_string(out.as_slice())
                },
            }
        },
    }
}

/// The line ending the text uses: Windows endings if any occur, otherwise a
/// bare newline.
pub fn detect_eol(s: Option<&str>) -> (r: String)
    ensures
        r@ == spec_detect_eol(
            match s {
                Some(t) => Some(t@),
                None => None,
            },
        ),
{
    let crlf: bool = match s {
        None => false,
        Some(t) => {
            let chars = crate::text::str_to_chars(t);
            let v = chars.as_slice();
            let mut i: usize = 0;
            let mut found = false;
            while !found && v.len() > 0 && i < v.len() - 1
                invariant
                    0 <= i <= v@.len(),
                    v@ == t@,
                    !found ==> forall|k: int|
                        0 <= k < i && k + 1 < v@.len() ==> !(#[trigger] v@[k] == '\r' && v@[k + 1]
                            == '\n'),
                    found ==> has_crlf(t@),
                decreases v@.len() - i + (if found {
                    0int
                } else {
                    1int
                }),
            {
                if v[i] == '\r' && v[i + 1] == '\n' {
                    found = true;
                } else {
                    i = i + 1;
                }
            }
            proof {
                if !found && has_crlf(t@) {
                    let k = choose|k: int|
                        0 <= k && k + 1 < t@.len() && #[trigger] t@[k] == '\r' && t@[k + 1]
                            == '\n';
                    assert(false);
                }
            }
            found
        },
    };
    let mut out: Vec<char> = Vec::new();
    if crlf {
        out.push('\r');
        out.push('\n');
        proof {
            assert(out@ =~= seq!['\r', '\n']);
        }
    } else {
        out.push('\n');
        proof {
            assert(out@ =~= seq!['\n']);
        }
    }
    crate::text::chars_to_string(out.as_slice())
}

// ---------------------------------------------------------------------------
// The execution policy
// ---------------------------------------------------------------------------

/// What an invocation should do: run under the given specifier, or refuse
/// because the project pins a different tool.
#[derive(Clone, Debug, PartialEq, Eq)]
pub enum ExecDecision {
    Run(Spec),
    Refuse,
}

pub open spec fn init_chars() -> Seq<char> {
    seq!['i', 'n', 'i', 't']
}

pub open spec fn dlx_chars() -> Seq<char> {
    seq!['d', 'l', 'x']
}

/// A transparent invocation: allowed to run regardless of the project's
/// configured tool.  One-off execution and initialization commands count,
/// and the tool bundled with the runtime always does.
pub open spec fn spec_transparent(bin: SpecBin, first_arg: Option<Seq<char>>) -> bool {
    ||| bin == SpecBin::Npm
    ||| bin == SpecBin::Npx
    ||| bin == SpecBin::Pnpx
    ||| (first_arg matches Some(a) && a == init_chars())
    ||| ((bin.to_name_spec() == SpecName::Yarn || bin.to_name_spec() == SpecName::Pnpm) && (
    first_arg matches Some(a) && a == dlx_chars()))
}

/// The effective decision: a project specifier for the same tool runs as
/// configured; for a different tool, only a transparent invocation or the
/// strictness override runs (under the invoked tool's default specifier),
/// and anything else is refused.
pub fn exec_decision(
    bin: SpecBin,
    first_arg: Option<&String>,
    project: Option<Spec>,
    strict_disabled: bool,
) -> (r: ExecDecision)
    ensures
        ({
            let arg = match first_arg {
                Some(a) => Some(a@),
                None => None,
            };
            match project {
                None => (r matches ExecDecision::Run(sp) && sp@.name == bin.to_name_spec() && (
                sp@.version matches crate::specifier::SelectorView::Req(c) && c.len() == 0)),
                Some(p) => if p@.name == bin.to_name_spec() {
                    r matches ExecDecision::Run(sp) && sp@ == p@
                } else if strict_disabled || spec_transparent(bin, arg) {
                    r matches ExecDecision::Run(sp) && sp@.name == bin.to_name_spec() && (
                    sp@.version matches crate::specifier::SelectorView::Req(c) && c.len() == 0)
                } else {
                    r is Refuse
                },
            }
        }),
{
    let default_spec = Spec {
        name: bin.to_name(),
        version: crate::specifier::SpecVersion::default_any(),
    };
    let project_spec = match project {
        Some(p) => p,
        None => { return ExecDecision::Run(default_spec) },
    };
    if name_eq(project_spec.name, bin.to_name()) {
        return ExecDecision::Run(project_spec);
    }
    let transparent: bool = match bin {
        SpecBin::Npm | SpecBin::Npx | SpecBin::Pnpx => true,
        _ => {
            let by_arg: bool = match first_arg {
                Some(a) => {
                    let chars = crate::text::str_to_chars(a.as_str());
                    let v = chars.as_slice();
                    let is_init = v.len() == 4 && v[0] == 'i' && v[1] == 'n' && v[2] == 'i'
                        && v[3] == 't';
                    proof {
                        if a@ == init_chars() {
                            assert(a@.len() == 4 && a@[0] == 'i' && a@[1] == 'n' && a@[2] == 'i'
                                && a@[3] == 't');
                        }
                        if is_init {
                            assert(a@ =~= init_chars());
                        }
                    }
                    let dlx_ok: bool = match bin.to_name() {
                        SpecName::Yarn | SpecName::Pnpm => {
                            let is_dlx = v.len() == 3 && v[0] == 'd' && v[1] == 'l' && v[2]
                                == 'x';
                            proof {
                                if a@ == dlx_chars() {
                                    assert(a@.len() == 3 && a@[0] == 'd' && a@[1] == 'l' && a@[2]
                                        == 'x');
                                }
                                if is_dlx {
                                    assert(a@ =~= dlx_chars());
                                }
                            }
                            is_dlx
                        },
                        _ => false,
                    };
                    is_init || dlx_ok
                },
                None => false,
            };
            by_arg
        },
    };
    if strict_disabled || transparent {
        ExecDecision::Run(default_spec)
    } else {
        ExecDecision::Refuse
    }
}

fn name_eq(a: SpecName, b: SpecName) -> (r: bool)
    ensures
        r == (a == b),
{
    match (a, b) {
        (SpecName::Npm, SpecName::Npm) => true,
        (SpecName::Yarn, SpecName::Yarn) => true,
        (SpecName::Pnpm, SpecName::Pnpm) => true,
        _ => false,
    }
}

// ---------------------------------------------------------------------------
// Recording a resolved version
// ---------------------------------------------------------------------------

/// The edit a manifest rewrite must perform: fill the explicit name/version
/// pair where one exists, else set the single specifier string.
#[derive(Clone, Debug, PartialEq, Eq)]
pub enum ManifestEdit {
    SetDevEngines { name: String, version: String },
    SetPackageManager { value: String },
}

/// Decides the manifest edit for an exact, resolved specifier.
pub fn manifest_edit(spec: &Spec, has_dev_engines_pm: bool) -> (r: ManifestEdit)
    requires
        spec@.version is Exact,
    ensures
        has_dev_engines_pm ==> (r matches ManifestEdit::SetDevEngines { name, version } && name@
            == name_chars(spec@.name) && version@ == render_selector(spec@.version, false)),
        !has_dev_engines_pm ==> (r matches ManifestEdit::SetPackageManager { value } && value@
            == render_spec(spec@, false)),
{
    if has_dev_engines_pm {
        ManifestEdit::SetDevEngines { name: spec.name.render(), version: spec.version.render(false) }
    } else {
        ManifestEdit::SetPackageManager { value: spec.render(false) }
    }
}

/// Pins a resolved version: the integrity's string form becomes the exact
/// version's build metadata, giving a specifier that can later verify the
/// artifact again.
pub fn resolved_spec(name: SpecName, version: &SemVer, integ: &SpecVersionIntegrity) -> (r: Spec)
    requires
        expected_bytes(integ@).len() > 0,
    ensures
        r@.name == name,
        r@.version matches crate::specifier::SelectorView::Exact(v) && v.major == version@.major
            && v.minor == version@.minor && v.patch == version@.patch && v.pre == version@.pre
            && join_dots(v.build) == render_integrity(integ@)
            && crate::version::valid_build_ids(v.build),
{
    let mut tag: Vec<char> = Vec::new();
    match integ {
        SpecVersionIntegrity::SHA512(_) => {
            tag.push('s');
            tag.push('h');
            tag.push('a');
            tag.push('5');
            tag.push('1');
            tag.push('2');
            proof {
                assert(tag@ =~= crate::integrity::sha512_tag());
                assert(tag@ == crate::integrity::algo_tag(integ@));
            }
        },
        SpecVersionIntegrity::SHA384(_) => {
            tag.push('s');
            tag.push('h');
            tag.push('a');
            tag.push('3');
            tag.push('8');
            tag.push('4');
            proof {
                assert(tag@ =~= crate::integrity::sha384_tag());
                assert(tag@ == crate::integrity::algo_tag(integ@));
            }
        },
        SpecVersionIntegrity::SHA256(_) => {
            tag.push('s');
            tag.push('h');
            tag.push('a');
            tag.push('2');
            tag.push('5');
            tag.push('6');
            proof {
                assert(tag@ =~= crate::integrity::sha256_tag());
                assert(tag@ == crate::integrity::algo_tag(integ@));
            }
        },
        SpecVersionIntegrity::SHA224(_) => {
            tag.push('s');
            tag.push('h');
            tag.push('a');
            tag.push('2');
            tag.push('2');
            tag.push('4');
            proof {
                assert(tag@ =~= crate::integrity::sha224_tag());
                assert(tag@ == crate::integrity::algo_tag(integ@));
            }
        },
        SpecVersionIntegrity::SHA1(_) => {
            tag.push('s');
            tag.push('h');
            tag.push('a');
            tag.push('1');
            proof {
                assert(tag@ =~= crate::integrity::sha1_tag());
                assert(tag@ == crate::integrity::algo_tag(integ@));
            }
        },
    }
    let mut hex: Vec<char> = Vec::new();
    match integ {
        SpecVersionIntegrity::SHA512(b) => {
            crate::integrity::push_hex(&mut hex, b.as_slice());
            proof {
                assert(hex@ == crate::integrity::hex_encode(expected_bytes(integ@)));
            }
        },
        SpecVersionIntegrity::SHA384(b) => {
            crate::integrity::push_hex(&mut hex, b.as_slice());
            proof {
                assert(hex@ == crate::integrity::hex_encode(expected_bytes(integ@)));
            }
        },
        SpecVersionIntegrity::SHA256(b) => {
            crate::integrity::push_hex(&mut hex, b.as_slice());
            proof {
                assert(hex@ == crate::integrity::hex_encode(expected_bytes(integ@)));
            }
        },
        SpecVersionIntegrity::SHA224(b) => {
            crate::integrity::push_hex(&mut hex, b.as_slice());
            proof {
                assert(hex@ == crate::integrity::hex_encode(expected_bytes(integ@)));
            }
        },
        SpecVersionIntegrity::SHA1(b) => {
            crate::integrity::push_hex(&mut hex, b.as_slice());
            proof {
                assert(hex@ == crate::integrity::hex_encode(expected_bytes(integ@)));
            }
        },
    }
    proof {
        crate::integrity::lemma_hex_encode_id_chars(expected_bytes(integ@));
    }
    let mut build: Vec<Vec<char>> = Vec::new();
    build.push(tag);
    build.push(hex);
    let sv = SemVer {
        major: version.major,
        minor: version.minor,
        patch: version.patch,
        pre: crate::registry::copy_ids(&version.pre),
        build,
    };
    proof {
        let ids = ids_view(sv.build@);
        assert(ids.len() == 2);
        assert(ids[0] == crate::integrity::algo_tag(integ@));
        assert(ids[1] == crate::integrity::hex_encode(expected_bytes(integ@)));
        assert(ids.drop_first() =~= seq![ids[1]]);
        assert(join_dots(seq![ids[1]]) == ids[1]);
        assert(join_dots(ids) == ids[0] + seq!['.'] + join_dots(ids.drop_first()));
        assert(join_dots(ids) =~= render_integrity(integ@));
        assert(crate::version::all_id_chars(ids[0]));
        assert(crate::version::valid_build_ids(ids));
    }
    Spec { name, version: crate::specifier::SpecVersion::Exact(sv) }
}

} // verus!
