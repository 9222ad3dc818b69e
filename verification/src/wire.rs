//! Little-endian integer fields of byte frames.
use vstd::prelude::*;

verus! {

/// The `u16` stored little-endian at `at`.
pub open spec fn spec_u16_le(b: Seq<u8>, at: int) -> u16 {
    (b[at] as u16) | ((b[at + 1] as u16) << 8u16)
}

/// The `u32` stored little-endian at `at`.
pub open spec fn spec_u32_le(b: Seq<u8>, at: int) -> u32 {
    (b[at] as u32) | ((b[at + 1] as u32) << 8u32) | ((b[at + 2] as u32) << 16u32) | ((b[at
        + 3] as u32) << 24u32)
}

/// The `u64` stored little-endian at `at`.
pub open spec fn spec_u64_le(b: Seq<u8>, at: int) -> u64 {
    (b[at] as u64) | ((b[at + 1] as u64) << 8u64) | ((b[at + 2] as u64) << 16u64) | ((b[at
        + 3] as u64) << 24u64) | ((b[at + 4] as u64) << 32u64) | ((b[at + 5] as u64) << 40u64)
        | ((b[at + 6] as u64) << 48u64) | ((b[at + 7] as u64) << 56u64)
}

/// Little-endian bytes of a `u16`.
pub open spec fn spec_u16_bytes(v: u16) -> Seq<u8> {
    seq![(v & 0xff) as u8, (v >> 8u16) as u8]
}

/// Little-endian bytes of a `u32`.
pub open spec fn spec_u32_bytes(v: u32) -> Seq<u8> {
    seq![
        (v & 0xff) as u8,
        ((v >> 8u32) & 0xff) as u8,
        ((v >> 16u32) & 0xff) as u8,
        (v >> 24u32) as u8,
    ]
}

/// Little-endian bytes of a `u64`.
pub open spec fn spec_u64_bytes(v: u64) -> Seq<u8> {
    seq![
        (v & 0xff) as u8,
        ((v >> 8u64) & 0xff) as u8,
        ((v >> 16u64) & 0xff) as u8,
        ((v >> 24u64) & 0xff) as u8,
        ((v >> 32u64) & 0xff) as u8,
        ((v >> 40u64) & 0xff) as u8,
        ((v >> 48u64) & 0xff) as u8,
        (v >> 56u64) as u8,
    ]
}

pub fn read_u16_le(b: &[u8], at: usize) -> (r: u16)
    requires
        at + 2 <= b@.len(),
    ensures
        r == spec_u16_le(b@, at as int),
{
    (b[at] as u16) | ((b[at + 1] as u16) << 8u16)
}

pub fn read_u32_le(b: &[u8], at: usize) -> (r: u32)
    requires
        at + 4 <= b@.len(),
    ensures
        r == spec_u32_le(b@, at as int),
{
    (b[at] as u32) | ((b[at + 1] as u32) << 8u32) | ((b[at + 2] as u32) << 16u32) | ((b[at
        + 3] as u32) << 24u32)
}

pub fn read_u64_le(b: &[u8], at: usize) -> (r: u64)
    requires
        at + 8 <= b@.len(),
    ensures
        r == spec_u64_le(b@, at as int),
{
    (b[at] as u64) | ((b[at + 1] as u64) << 8u64) | ((b[at + 2] as u64) << 16u64) | ((b[at
        + 3] as u64) << 24u64) | ((b[at + 4] as u64) << 32u64) | ((b[at + 5] as u64) << 40u64)
        | ((b[at + 6] as u64) << 48u64) | ((b[at + 7] as u64) << 56u64)
}

pub fn u16_bytes(v: u16) -> (r: [u8; 2])
    ensures
        r@ == spec_u16_bytes(v),
{
    let r = [(v & 0xff) as u8, (v >> 8u16) as u8];
    assert(r@ =~= spec_u16_bytes(v));
    r
}

pub fn u32_bytes(v: u32) -> (r: [u8; 4])
    ensures
        r@ == spec_u32_bytes(v),
{
    let r = [
        (v & 0xff) as u8,
        ((v >> 8u32) & 0xff) as u8,
        ((v >> 16u32) & 0xff) as u8,
        (v >> 24u32) as u8,
    ];
    assert(r@ =~= spec_u32_bytes(v));
    r
}

pub fn u64_bytes(v: u64) -> (r: [u8; 8])
    ensures
        r@ == spec_u64_bytes(v),
{
    let r = [
        (v & 0xff) as u8,
        ((v >> 8u64) & 0xff) as u8,
        ((v >> 16u64) & 0xff) as u8,
        ((v >> 24u64) & 0xff) as u8,
        ((v >> 32u64) & 0xff) as u8,
        ((v >> 40u64) & 0xff) as u8,
        ((v >> 48u64) & 0xff) as u8,
        (v >> 56u64) as u8,
    ];
    assert(r@ =~= spec_u64_bytes(v));
    r
}

/// Appends the bytes of `tail` to `out`.
pub fn extend_bytes(out: &mut Vec<u8>, tail: &[u8])
    ensures
        final(out)@ == old(out)@ + tail@,
{
    let mut i: usize = 0;
    while i < tail.len()
        invariant
            i <= tail@.len(),
            out@ == old(out)@ + tail@.subrange(0, i as int),
        decreases tail@.len() - i,
    {
        out.push(tail[i]);
        i = i + 1;
        assert(tail@.subrange(0, i as int) =~= tail@.subrange(0, i - 1) + seq![tail@[i - 1]]);
    }
    assert(tail@.subrange(0, tail@.len() as int) =~= tail@);
}

/// Reading back the bytes of a `u16` gives the value.
pub proof fn lemma_u16_roundtrip(v: u16, s: Seq<u8>, at: int)
    requires
        0 <= at,
        at + 2 <= s.len(),
        s.subrange(at, at + 2) == spec_u16_bytes(v),
    ensures
        spec_u16_le(s, at) == v,
{
    assert(s[at] == spec_u16_bytes(v)[0]);
    assert(s[at + 1] == spec_u16_bytes(v)[1]);
    let b0 = (v & 0xff) as u8;
    let b1 = (v >> 8u16) as u8;
    assert((b0 as u16) | ((b1 as u16) << 8u16) == v) by (bit_vector)
        requires
            b0 == (v & 0xff) as u8,
            b1 == (v >> 8u16) as u8,
    ;
}

/// Reading back the bytes of a `u32` gives the value.
pub proof fn lemma_u32_roundtrip(v: u32, s: Seq<u8>, at: int)
    requires
        0 <= at,
        at + 4 <= s.len(),
        s.subrange(at, at + 4) == spec_u32_bytes(v),
    ensures
        spec_u32_le(s, at) == v,
{
    let e = spec_u32_bytes(v);
    assert(s[at] == e[0] && s[at + 1] == e[1] && s[at + 2] == e[2] && s[at + 3] == e[3]);
    let b0 = (v & 0xff) as u8;
    let b1 = ((v >> 8u32) & 0xff) as u8;
    let b2 = ((v >> 16u32) & 0xff) as u8;
    let b3 = (v >> 24u32) as u8;
    assert((b0 as u32) | ((b1 as u32) << 8u32) | ((b2 as u32) << 16u32) | ((b3 as u32) << 24u32)
        == v) by (bit_vector)
        requires
            b0 == (v & 0xff) as u8,
            b1 == ((v >> 8u32) & 0xff) as u8,
            b2 == ((v >> 16u32) & 0xff) as u8,
            b3 == (v >> 24u32) as u8,
    ;
}

/// Writing back the `u32` read at `at` gives the four bytes it was read from.
pub proof fn lemma_u32_rewrite(s: Seq<u8>, at: int)
    requires
        0 <= at,
        at + 4 <= s.len(),
    ensures
        spec_u32_bytes(spec_u32_le(s, at)) == s.subrange(at, at + 4),
{
    let b0 = s[at];
    let b1 = s[at + 1];
    let b2 = s[at + 2];
    let b3 = s[at + 3];
    let v = spec_u32_le(s, at);
    assert(v == (b0 as u32) | ((b1 as u32) << 8u32) | ((b2 as u32) << 16u32) | ((b3 as u32) << 24u32));
    assert((v & 0xff) as u8 == b0 && ((v >> 8u32) & 0xff) as u8 == b1 && ((v >> 16u32) & 0xff) as u8
        == b2 && (v >> 24u32) as u8 == b3) by (bit_vector)
        requires
            v == (b0 as u32) | ((b1 as u32) << 8u32) | ((b2 as u32) << 16u32) | ((b3 as u32) << 24u32),
    ;
    assert(spec_u32_bytes(v) =~= s.subrange(at, at + 4));
}

/// Writing back the `u64` read at `at` gives the eight bytes it was read from.
pub proof fn lemma_u64_rewrite(s: Seq<u8>, at: int)
    requires
        0 <= at,
        at + 8 <= s.len(),
    ensures
        spec_u64_bytes(spec_u64_le(s, at)) == s.subrange(at, at + 8),
{
    let b0 = s[at];
    let b1 = s[at + 1];
    let b2 = s[at + 2];
    let b3 = s[at + 3];
    let b4 = s[at + 4];
    let b5 = s[at + 5];
    let b6 = s[at + 6];
    let b7 = s[at + 7];
    let v = spec_u64_le(s, at);
    assert(v == (b0 as u64) | ((b1 as u64) << 8u64) | ((b2 as u64) << 16u64) | ((b3 as u64) << 24u64)
        | ((b4 as u64) << 32u64) | ((b5 as u64) << 40u64) | ((b6 as u64) << 48u64) | ((b7 as u64)
        << 56u64));
    assert((v & 0xff) as u8 == b0 && ((v >> 8u64) & 0xff) as u8 == b1 && ((v >> 16u64) & 0xff) as u8
        == b2 && ((v >> 24u64) & 0xff) as u8 == b3 && ((v >> 32u64) & 0xff) as u8 == b4 && ((v
        >> 40u64) & 0xff) as u8 == b5 && ((v >> 48u64) & 0xff) as u8 == b6 && (v >> 56u64) as u8
        == b7) by (bit_vector)
        requires
            v == (b0 as u64) | ((b1 as u64) << 8u64) | ((b2 as u64) << 16u64) | ((b3 as u64)
                << 24u64) | ((b4 as u64) << 32u64) | ((b5 as u64) << 40u64) | ((b6 as u64)
                << 48u64) | ((b7 as u64) << 56u64),
    ;
    assert(spec_u64_bytes(v) =~= s.subrange(at, at + 8));
}

/// Reading back the bytes of a `u64` gives the value.
pub proof fn lemma_u64_roundtrip(v: u64, s: Seq<u8>, at: int)
    requires
        0 <= at,
        at + 8 <= s.len(),
        s.subrange(at, at + 8) == spec_u64_bytes(v),
    ensures
        spec_u64_le(s, at) == v,
{
    let e = spec_u64_bytes(v);
    assert(s[at] == e[0] && s[at + 1] == e[1] && s[at + 2] == e[2] && s[at + 3] == e[3]);
    assert(s[at + 4] == e[4] && s[at + 5] == e[5] && s[at + 6] == e[6] && s[at + 7] == e[7]);
    let b0 = (v & 0xff) as u8;
    let b1 = ((v >> 8u64) & 0xff) as u8;
    let b2 = ((v >> 16u64) & 0xff) as u8;
    let b3 = ((v >> 24u64) & 0xff) as u8;
    let b4 = ((v >> 32u64) & 0xff) as u8;
    let b5 = ((v >> 40u64) & 0xff) as u8;
    let b6 = ((v >> 48u64) & 0xff) as u8;
    let b7 = (v >> 56u64) as u8;
    assert((b0 as u64) | ((b1 as u64) << 8u64) | ((b2 as u64) << 16u64) | ((b3 as u64) << 24u64)
        | ((b4 as u64) << 32u64) | ((b5 as u64) << 40u64) | ((b6 as u64) << 48u64) | ((b7 as u64)
        << 56u64) == v) by (bit_vector)
        requires
            b0 == (v & 0xff) as u8,
            b1 == ((v >> 8u64) & 0xff) as u8,
            b2 == ((v >> 16u64) & 0xff) as u8,
            b3 == ((v >> 24u64) & 0xff) as u8,
            b4 == ((v >> 32u64) & 0xff) as u8,
            b5 == ((v >> 40u64) & 0xff) as u8,
            b6 == ((v >> 48u64) & 0xff) as u8,
            b7 == (v >> 56u64) as u8,
    ;
}

/// `d` with the bytes from `at` on replaced by `s`.
pub open spec fn spec_overwrite(d: Seq<u8>, at: int, s: Seq<u8>) -> Seq<u8> {
    d.subrange(0, at) + s + d.subrange(at + s.len(), d.len() as int)
}

/// Copies the bytes of `b` from `start` up to `end` into a new vector.
pub fn copy_range(b: &[u8], start: usize, end: usize) -> (r: Vec<u8>)
    requires
        start <= end <= b@.len(),
    ensures
        r@ == b@.subrange(start as int, end as int),
{
    let mut out: Vec<u8> = Vec::new();
    let mut i: usize = start;
    while i < end
        invariant
            start <= i <= end <= b@.len(),
            out@ == b@.subrange(start as int, i as int),
        decreases end - i,
    {
        out.push(b[i]);
        i = i + 1;
        assert(out@ =~= b@.subrange(start as int, i as int));
    }
    out
}

/// Writes `src` over `dst` from byte `at` on.
pub fn overwrite(dst: &mut Vec<u8>, at: usize, src: &[u8])
    requires
        at + src@.len() <= old(dst)@.len(),
    ensures
        final(dst)@ == spec_overwrite(old(dst)@, at as int, src@),
{
    let n = dst.len();
    let mut i: usize = 0;
    while i < src.len()
        invariant
            at + src@.len() <= dst@.len(),
            dst@.len() == old(dst)@.len(),
            dst@.len() == n,
            i <= src@.len(),
            forall|j: int| 0 <= j < dst@.len() && !(at <= j < at + i) ==> dst@[j] == old(dst)@[j],
            forall|j: int| at <= j < at + i ==> dst@[j] == src@[j - at],
        decreases src@.len() - i,
    {
        dst.set(at + i, src[i]);
        i = i + 1;
    }
    assert(dst@ =~= spec_overwrite(old(dst)@, at as int, src@));
}

} // verus!
