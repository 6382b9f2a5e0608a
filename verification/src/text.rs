//! Byte-level text helpers shared by the scanner and the synthesizer.

use vstd::prelude::*;
use vstd::string::StringSliceAdditionalSpecFns;

verus! {

/// The bytes of a string literal, as the scanner and the synthesizer see them.
pub open spec fn bytes_of(s: &str) -> Seq<u8> {
    s.spec_bytes()
}

/// Appends every byte of `s` to `out`.
pub fn push_bytes(out: &mut Vec<u8>, s: &[u8])
    ensures
        final(out)@ == old(out)@ + s@,
{
    let mut i: usize = 0;
    while i < s.len()
        invariant
            0 <= i <= s@.len(),
            out@ == old(out)@ + s@.subrange(0, i as int),
        decreases s@.len() - i,
    {
        out.push(s[i]);
        assert(s@.subrange(0, i as int).push(s@[i as int]) =~= s@.subrange(0, i + 1 as int));
        i = i + 1;
    }
    assert(s@.subrange(0, s@.len() as int) =~= s@);
}

/// Appends the bytes of the literal `s` to `out`.
pub fn push_str_bytes(out: &mut Vec<u8>, s: &str)
    ensures
        final(out)@ == old(out)@ + bytes_of(s),
{
    push_bytes(out, s.as_bytes());
}

/// The bytes of the literal `s` as a fresh vector.
pub fn str_to_vec(s: &str) -> (r: Vec<u8>)
    ensures
        r@ == bytes_of(s),
{
    let mut v: Vec<u8> = Vec::new();
    push_str_bytes(&mut v, s);
    v
}

/// A copy of the byte vector `v`.
pub fn clone_bytes(v: &Vec<u8>) -> (r: Vec<u8>)
    ensures
        r@ == v@,
{
    let r = copy_range(v.as_slice(), 0, v.len());
    proof {
        assert(v@.subrange(0, v@.len() as int) =~= v@);
    }
    r
}

/// A copy of `text[a..b]`.
pub fn copy_range(text: &[u8], a: usize, b: usize) -> (r: Vec<u8>)
    requires
        a <= b <= text@.len(),
    ensures
        r@ == text@.subrange(a as int, b as int),
{
    let mut v: Vec<u8> = Vec::new();
    let mut i: usize = a;
    while i < b
        invariant
            a <= i <= b <= text@.len(),
            v@ == text@.subrange(a as int, i as int),
        decreases b - i,
    {
        v.push(text[i]);
        assert(text@.subrange(a as int, i as int).push(text@[i as int]) =~= text@.subrange(
            a as int,
            i + 1 as int,
        ));
        i = i + 1;
    }
    v
}

} // verus!
