//! Registry request URLs: `<base>/<encoded package name>` for full package
//! metadata and `<base>/<encoded package name>/<encoded version>` for one
//! version.  Path segments are percent-encoded byte-wise, so a scoped
//! package name's slash never splits the segment.

use vstd::prelude::*;

use crate::signature::RegistryConfig;
use crate::specifier::{render_selector, spec_npm_package_name, Spec};
use crate::version::digit_char;
use vstd::string::StringSliceAdditionalSpecFns;

verus! {

/// Bytes a path segment must escape: controls, space and delete, and the
/// segment-breaking or reserved characters.
pub open spec fn needs_escape(b: u8) -> bool {
    ||| b < 0x21
    ||| b > 0x7e
    ||| b == 0x22
    ||| b == 0x23
    ||| b == 0x25
    ||| b == 0x2f
    ||| b == 0x3c
    ||| b == 0x3e
    ||| b == 0x3f
    ||| b == 0x60
    ||| b == 0x7b
    ||| b == 0x7d
}

/// The uppercase hex digit for a value below 16.
pub open spec fn hex_upper(d: int) -> char {
    if d < 10 {
        digit_char(d)
    } else {
        (d - 10 + 65) as char
    }
}

/// Percent-encodes bytes as one path segment.
pub open spec fn url_encode(bs: Seq<u8>) -> Seq<char>
    decreases bs.len(),
{
    if bs.len() == 0 {
        Seq::empty()
    } else {
        (if needs_escape(bs[0]) {
            seq!['%', hex_upper(bs[0] as int / 16), hex_upper(bs[0] as int % 16)]
        } else {
            seq![bs[0] as char]
        }) + url_encode(bs.drop_first())
    }
}

/// The URL of a package's full metadata.
pub open spec fn spec_package_url(base: Seq<char>, name_bytes: Seq<u8>) -> Seq<char> {
    base + seq!['/'] + url_encode(name_bytes)
}

/// The URL of one version's metadata.
pub open spec fn spec_version_url(
    base: Seq<char>,
    name_bytes: Seq<u8>,
    version_bytes: Seq<u8>,
) -> Seq<char> {
    spec_package_url(base, name_bytes) + seq!['/'] + url_encode(version_bytes)
}

proof fn lemma_url_encode_push(bs: Seq<u8>, x: u8)
    ensures
        url_encode(bs.push(x)) == url_encode(bs) + (if needs_escape(x) {
            seq!['%', hex_upper(x as int / 16), hex_upper(x as int % 16)]
        } else {
            seq![x as char]
        }),
    decreases bs.len(),
{
    let piece = if needs_escape(x) {
        seq!['%', hex_upper(x as int / 16), hex_upper(x as int % 16)]
    } else {
        seq![x as char]
    };
    if bs.len() == 0 {
        let w = bs.push(x);
        assert(w[0] == x);
        assert(w.drop_first() =~= Seq::<u8>::empty());
        assert(url_encode(w.drop_first()) =~= Seq::<char>::empty());
        assert(url_encode(w) =~= url_encode(bs) + piece);
    } else {
        lemma_url_encode_push(bs.drop_first(), x);
        assert(bs.push(x).drop_first() =~= bs.drop_first().push(x));
        assert(bs.push(x)[0] == bs[0]);
        assert(url_encode(bs.push(x)) =~= url_encode(bs) + piece);
    }
}

fn hex_upper_of(d: u8) -> (c: char)
    requires
        d < 16,
    ensures
        c == hex_upper(d as int),
{
    if d < 10 {
        crate::version::digit_to_char(d as u64)
    } else {
        proof {
            vstd::utf8::char_u32_cast('A', 65);
            vstd::utf8::char_u32_cast('B', 66);
            vstd::utf8::char_u32_cast('C', 67);
            vstd::utf8::char_u32_cast('D', 68);
            vstd::utf8::char_u32_cast('E', 69);
            vstd::utf8::char_u32_cast('F', 70);
        }
        match d {
            10 => 'A',
            11 => 'B',
            12 => 'C',
            13 => 'D',
            14 => 'E',
            _ => 'F',
        }
    }
}

fn byte_needs_escape(b: u8) -> (r: bool)
    ensures
        r == needs_escape(b),
{
    b < 0x21 || b > 0x7e || b == 0x22 || b == 0x23 || b == 0x25 || b == 0x2f || b == 0x3c || b
        == 0x3e || b == 0x3f || b == 0x60 || b == 0x7b || b == 0x7d
}

/// Appends the percent-encoded form of one path segment.
fn push_encoded(out: &mut Vec<char>, s: &str)
    ensures
        final(out)@ == old(out)@ + url_encode(vstd::utf8::encode_utf8(s@)),
{
    let b = s.as_bytes();
    let mut i: usize = 0;
    while i < b.len()
        invariant
            0 <= i <= b@.len(),
            b@ == s.spec_bytes(),
            out@ == old(out)@ + url_encode(b@.subrange(0, i as int)),
        decreases b@.len() - i,
    {
        let x = b[i];
        if byte_needs_escape(x) {
            out.push('%');
            out.push(hex_upper_of(x / 16));
            out.push(hex_upper_of(x % 16));
        } else {
            proof {
                vstd::utf8::char_u32_cast((x as char), x as u32);
            }
            out.push(x as char);
        }
        proof {
            lemma_url_encode_push(b@.subrange(0, i as int), x);
            assert(b@.subrange(0, i as int).push(x) =~= b@.subrange(0, i as int + 1));
            assert(out@ =~= old(out)@ + url_encode(b@.subrange(0, i as int + 1)));
        }
        i = i + 1;
    }
    proof {
        assert(b@.subrange(0, b@.len() as int) =~= b@);
    }
}

fn push_str_chars(out: &mut Vec<char>, s: &str)
    ensures
        final(out)@ == old(out)@ + s@,
{
    let chars = crate::text::str_to_chars(s);
    let mut i: usize = 0;
    while i < chars.len()
        invariant
            0 <= i <= chars@.len(),
            chars@ == s@,
            out@ == old(out)@ + chars@.subrange(0, i as int),
        decreases chars@.len() - i,
    {
        out.push(chars[i]);
        i = i + 1;
        proof {
            assert(out@ =~= old(out)@ + chars@.subrange(0, i as int));
        }
    }
    proof {
        assert(chars@.subrange(0, chars@.len() as int) =~= chars@);
    }
}

/// The URL to fetch a package's full metadata from.
pub fn package_url(registry: &RegistryConfig, spec: &Spec) -> (r: String)
    ensures
        r@ == spec_package_url(
            registry.base@,
            vstd::utf8::encode_utf8(spec_npm_package_name(spec@)),
        ),
{
    let name = spec.to_npm_package_name();
    let mut out: Vec<char> = Vec::new();
    push_str_chars(&mut out, registry.base.as_str());
    out.push('/');
    push_encoded(&mut out, name.as_str());
    proof {
        assert(out@ =~= spec_package_url(
            registry.base@,
            vstd::utf8::encode_utf8(spec_npm_package_name(spec@)),
        ));
    }
    crate::text::chars_to_string(out.as_slice())
}

/// The URL to fetch one version's metadata from; the version segment is the
/// selector's display form without build metadata.
pub fn version_url(registry: &RegistryConfig, spec: &Spec) -> (r: String)
    ensures
        r@ == spec_version_url(
            registry.base@,
            vstd::utf8::encode_utf8(spec_npm_package_name(spec@)),
            vstd::utf8::encode_utf8(render_selector(spec@.version, true)),
        ),
{
    let name = spec.to_npm_package_name();
    let ver = spec.version.render(true);
    let mut out: Vec<char> = Vec::new();
    push_str_chars(&mut out, registry.base.as_str());
    out.push('/');
    push_encoded(&mut out, name.as_str());
    out.push('/');
    push_encoded(&mut out, ver.as_str());
    proof {
        assert(out@ =~= spec_version_url(
            registry.base@,
            vstd::utf8::encode_utf8(spec_npm_package_name(spec@)),
            vstd::utf8::encode_utf8(render_selector(spec@.version, true)),
        ));
    }
    crate::text::chars_to_string(out.as_slice())
}

} // verus!
