//! Curve points and 256-bit words as they travel in call data.
use vstd::prelude::*;
use crate::bytes::{be_u64_at, push_u64, u64_bytes, u64_of};

verus! {

/// A point of the balance group: two 256-bit coordinates, each as four
/// 64-bit limbs, least significant limb first.
#[derive(Clone, Copy, Debug, PartialEq, Eq)]
pub struct Point {
    pub x: [u64; 4],
    pub y: [u64; 4],
}

/// The limbs, least significant first, of the big-endian 256-bit word in the first 32 bytes of `b`.
pub open spec fn word_of(b: Seq<u8>) -> Seq<u64> {
    seq![
        u64_of(b.subrange(24, 32)),
        u64_of(b.subrange(16, 24)),
        u64_of(b.subrange(8, 16)),
        u64_of(b.subrange(0, 8)),
    ]
}

/// The 32 big-endian bytes of a word given by four limbs, least significant first.
pub open spec fn word_bytes(w: Seq<u64>) -> Seq<u8> {
    u64_bytes(w[3]) + u64_bytes(w[2]) + u64_bytes(w[1]) + u64_bytes(w[0])
}

/// The point whose coordinates are the two big-endian words in the first 64 bytes of `b`.
pub open spec fn point_of(b: Seq<u8>) -> Point {
    Point { x: word_from(b.subrange(0, 32)), y: word_from(b.subrange(32, 64)) }
}

/// The array of limbs of the word in the first 32 bytes of `b`.
pub open spec fn word_from(b: Seq<u8>) -> [u64; 4] {
    [u64_of(b.subrange(24, 32)), u64_of(b.subrange(16, 24)), u64_of(b.subrange(8, 16)), u64_of(b.subrange(0, 8))]
}

/// Reads the big-endian 256-bit word that starts at `off`.
pub fn word_at(b: &[u8], off: usize) -> (r: [u64; 4])
    requires
        off + 32 <= b@.len(),
    ensures
        r == word_from(b@.subrange(off as int, off + 32)),
        r@ == word_of(b@.subrange(off as int, off + 32)),
{
    proof {
        assert(off + 32 <= b.len());
    }
    let r = [be_u64_at(b, off + 24), be_u64_at(b, off + 16), be_u64_at(b, off + 8), be_u64_at(b, off)];
    proof {
        let s = b@.subrange(off as int, off + 32);
        assert(s.subrange(24, 32) =~= b@.subrange(off + 24, off + 32));
        assert(s.subrange(16, 24) =~= b@.subrange(off + 16, off + 24));
        assert(s.subrange(8, 16) =~= b@.subrange(off + 8, off + 16));
        assert(s.subrange(0, 8) =~= b@.subrange(off as int, off + 8));
        assert(r@ =~= word_of(s));
    }
    r
}

/// Reads the point whose two big-endian coordinates start at `off`.
pub fn point_at(b: &[u8], off: usize) -> (r: Point)
    requires
        off + 64 <= b@.len(),
    ensures
        r == point_of(b@.subrange(off as int, off + 64)),
{
    proof {
        assert(off + 64 <= b.len());
    }
    let x = word_at(b, off);
    let y = word_at(b, off + 32);
    proof {
        let s = b@.subrange(off as int, off + 64);
        assert(s.subrange(0, 32) =~= b@.subrange(off as int, off + 32));
        assert(s.subrange(32, 64) =~= b@.subrange(off + 32, off + 64));
    }
    Point { x, y }
}

/// Appends the 32 big-endian bytes of a word.
pub fn push_word(out: &mut Vec<u8>, w: &[u64; 4])
    ensures
        final(out)@ == old(out)@ + word_bytes(w@),
{
    push_u64(out, w[3]);
    push_u64(out, w[2]);
    push_u64(out, w[1]);
    push_u64(out, w[0]);
    assert(final(out)@ =~= old(out)@ + word_bytes(w@));
}

/// Copies the 32 bytes that start at `off`.
pub fn bytes32_at(b: &[u8], off: usize) -> (r: [u8; 32])
    requires
        off + 32 <= b@.len(),
    ensures
        r@ == b@.subrange(off as int, off + 32),
{
    let mut r = [0u8; 32];
    let n = b.len();
    let mut i: usize = 0;
    while i < 32
        invariant
            0 <= i <= 32,
            n == b@.len(),
            off + 32 <= b@.len(),
            r@.len() == 32,
            forall|j: int| 0 <= j < i ==> r@[j] == b@[off + j],
        decreases 32 - i,
    {
        r[i] = b[off + i];
        i += 1;
    }
    assert(r@ =~= b@.subrange(off as int, off + 32));
    r
}

/// Copies the 20 bytes that start at `off`.
pub fn bytes20_at(b: &[u8], off: usize) -> (r: [u8; 20])
    requires
        off + 20 <= b@.len(),
    ensures
        r@ == b@.subrange(off as int, off + 20),
{
    let mut r = [0u8; 20];
    let n = b.len();
    let mut i: usize = 0;
    while i < 20
        invariant
            0 <= i <= 20,
            n == b@.len(),
            off + 20 <= b@.len(),
            r@.len() == 20,
            forall|j: int| 0 <= j < i ==> r@[j] == b@[off + j],
        decreases 20 - i,
    {
        r[i] = b[off + i];
        i += 1;
    }
    assert(r@ =~= b@.subrange(off as int, off + 20));
    r
}

/// Copies the bytes from `lo` up to `hi`.
pub fn bytes_range(b: &[u8], lo: usize, hi: usize) -> (r: Vec<u8>)
    requires
        lo <= hi <= b@.len(),
    ensures
        r@ == b@.subrange(lo as int, hi as int),
{
    let mut r: Vec<u8> = Vec::new();
    let mut i: usize = lo;
    while i < hi
        invariant
            lo <= i <= hi <= b@.len(),
            r@ =~= b@.subrange(lo as int, i as int),
        decreases hi - i,
    {
        r.push(b[i]);
        i += 1;
    }
    r
}

} // verus!
