//! Host paths in the form QEMU accepts on Windows.
use crate::text::{chars_from, chars_of, starts_with, starts_with_chars, string_of};
use vstd::prelude::*;

verus! {

/// `p` with every backslash turned into a forward slash.
pub open spec fn slashes(p: Seq<char>) -> Seq<char> {
    p.map_values(|c: char|
        if c == '\\' {
            '/'
        } else {
            c
        })
}

pub open spec fn extended_unc_prefix() -> Seq<char> {
    "//?/UNC/"@
}

pub open spec fn extended_prefix() -> Seq<char> {
    "//?/"@
}

/// The rendering of a host path: slashes normalised, and the extended-length prefix that
/// path canonicalisation may add removed (keeping the `//` of a UNC path).
pub open spec fn render_spec(p: Seq<char>) -> Seq<char> {
    let r = slashes(p);
    if starts_with(r, extended_unc_prefix()) {
        "//"@ + r.skip(extended_unc_prefix().len() as int)
    } else if starts_with(r, extended_prefix()) {
        r.skip(extended_prefix().len() as int)
    } else {
        r
    }
}

/// Renders a host path in the form accepted by QEMU on Windows. QEMU does not understand
/// the `\\?\` extended-length prefix once slashes are normalised, so it is removed.
pub fn render(path: &str) -> (r: String)
    ensures
        r@ == render_spec(path@),
{
    let chars = chars_of(path);
    let mut v: Vec<char> = Vec::new();
    let mut i: usize = 0;
    while i < chars.len()
        invariant
            i <= chars.len(),
            v@ == slashes(chars@.subrange(0, i as int)),
        decreases chars.len() - i,
    {
        let c = chars[i];
        if c == '\\' {
            v.push('/');
        } else {
            v.push(c);
        }
        i += 1;
        assert(v@ =~= slashes(chars@.subrange(0, i as int)));
    }
    assert(chars@.subrange(0, chars.len() as int) =~= chars@);
    let unc = chars_of("//?/UNC/");
    let plain = chars_of("//?/");
    if starts_with_chars(&v, &unc) {
        let mut out = chars_of("//");
        let rest = chars_from(&v, unc.len());
        let mut k: usize = 0;
        let ghost start = out@;
        while k < rest.len()
            invariant
                k <= rest.len(),
                out@ == start + rest@.subrange(0, k as int),
            decreases rest.len() - k,
        {
            out.push(rest[k]);
            k += 1;
            assert(out@ =~= start + rest@.subrange(0, k as int));
        }
        assert(rest@.subrange(0, rest.len() as int) =~= rest@);
        string_of(&out)
    } else if starts_with_chars(&v, &plain) {
        let rest = chars_from(&v, plain.len());
        string_of(&rest)
    } else {
        string_of(&v)
    }
}

/// `p` with every backslash turned into a forward slash.
pub fn slashed(p: &str) -> (r: String)
    ensures
        r@ == slashes(p@),
{
    let chars = chars_of(p);
    let mut v: Vec<char> = Vec::new();
    let mut i: usize = 0;
    while i < chars.len()
        invariant
            i <= chars.len(),
            v@ == slashes(chars@.subrange(0, i as int)),
        decreases chars.len() - i,
    {
        let c = chars[i];
        if c == '\\' {
            v.push('/');
        } else {
            v.push(c);
        }
        i += 1;
        assert(v@ =~= slashes(chars@.subrange(0, i as int)));
    }
    assert(chars@.subrange(0, chars.len() as int) =~= chars@);
    string_of(&v)
}

} // verus!
