//! Byte-buffer helpers shared by the layout codecs and the processor.

use vstd::prelude::*;

verus! {

/// The bytes of `b` with the range starting at `at` replaced by `s`.
pub open spec fn splice(b: Seq<u8>, at: int, s: Seq<u8>) -> Seq<u8> {
    b.subrange(0, at) + s + b.subrange(at + s.len(), b.len() as int)
}

/// Copies all of `src` into `dst` starting at `at`; every byte outside the
/// written range keeps its value.
pub fn write_range(dst: &mut Vec<u8>, at: usize, src: &Vec<u8>)
    requires
        at + src@.len() <= old(dst)@.len(),
    ensures
        final(dst)@ == splice(old(dst)@, at as int, src@),
{
    let n: usize = dst.len();
    let m: usize = src.len();
    let mut i: usize = 0;
    while i < m
        invariant
            m == src@.len(),
            n == dst@.len(),
            at + src@.len() <= dst@.len(),
            dst@.len() == old(dst)@.len(),
            0 <= i <= src@.len(),
            forall|j: int| 0 <= j < at ==> dst@[j] == old(dst)@[j],
            forall|j: int| at <= j < at + i ==> dst@[j] == src@[j - at],
            forall|j: int| at + src@.len() <= j < dst@.len() ==> dst@[j] == old(dst)@[j],
            forall|j: int| at + i <= j < at + src@.len() ==> dst@[j] == old(dst)@[j],
        decreases src@.len() - i,
    {
        dst[at + i] = src[i];
        i = i + 1;
    }
    assert(dst@ =~= splice(old(dst)@, at as int, src@));
}

/// Returns a copy of the `len` bytes of `src` starting at `at`.
pub fn read_range(src: &Vec<u8>, at: usize, len: usize) -> (out: Vec<u8>)
    requires
        at + len <= src@.len(),
    ensures
        out@ == src@.subrange(at as int, at + len),
{
    let n: usize = src.len();
    let mut out: Vec<u8> = Vec::new();
    let mut i: usize = 0;
    while i < len
        invariant
            n == src@.len(),
            at + len <= src@.len(),
            0 <= i <= len,
            out@.len() == i,
            forall|j: int| 0 <= j < i ==> out@[j] == src@[at + j],
        decreases len - i,
    {
        out.push(src[at + i]);
        i = i + 1;
    }
    assert(out@ =~= src@.subrange(at as int, at + len));
    out
}

/// Sets every byte of `dst` to zero, keeping its length.
pub fn zero_fill(dst: &mut Vec<u8>)
    ensures
        final(dst)@.len() == old(dst)@.len(),
        forall|j: int| 0 <= j < final(dst)@.len() ==> final(dst)@[j] == 0u8,
{
    let n: usize = dst.len();
    let mut i: usize = 0;
    while i < n
        invariant
            dst@.len() == n,
            0 <= i <= n,
            forall|j: int| 0 <= j < i ==> dst@[j] == 0u8,
        decreases n - i,
    {
        dst[i] = 0u8;
        i = i + 1;
    }
}

} // verus!
