//! Big-endian words and their byte encodings.
use vstd::prelude::*;

verus! {

/// The eight big-endian bytes of `x`, most significant first.
pub open spec fn u64_bytes(x: u64) -> Seq<u8> {
    seq![
        (x >> 56u64) as u8,
        (x >> 48u64) as u8,
        (x >> 40u64) as u8,
        (x >> 32u64) as u8,
        (x >> 24u64) as u8,
        (x >> 16u64) as u8,
        (x >> 8u64) as u8,
        x as u8,
    ]
}

/// The word whose big-endian bytes are the first eight of `b`.
pub open spec fn u64_of(b: Seq<u8>) -> u64 {
    ((b[0] as u64) << 56u64) | ((b[1] as u64) << 48u64) | ((b[2] as u64) << 40u64) | ((b[3]
        as u64) << 32u64) | ((b[4] as u64) << 24u64) | ((b[5] as u64) << 16u64) | ((b[6] as u64)
        << 8u64) | (b[7] as u64)
}

/// Reading back the bytes of a word gives the word.
pub proof fn lemma_u64_round_trip(x: u64)
    ensures
        u64_of(u64_bytes(x)) == x,
{
    let b = u64_bytes(x);
    assert(b[0] == (x >> 56u64) as u8);
    assert(b[7] == x as u8);
    assert(((((x >> 56u64) as u8) as u64) << 56u64) | ((((x >> 48u64) as u8) as u64) << 48u64)
        | ((((x >> 40u64) as u8) as u64) << 40u64) | ((((x >> 32u64) as u8) as u64) << 32u64)
        | ((((x >> 24u64) as u8) as u64) << 24u64) | ((((x >> 16u64) as u8) as u64) << 16u64)
        | ((((x >> 8u64) as u8) as u64) << 8u64) | ((x as u8) as u64) == x) by (bit_vector);
}

/// Writes `x` as eight big-endian bytes.
pub fn u64_to_be(x: u64) -> (r: [u8; 8])
    ensures
        r@ == u64_bytes(x),
{
    let r = [
        (x >> 56u64) as u8,
        (x >> 48u64) as u8,
        (x >> 40u64) as u8,
        (x >> 32u64) as u8,
        (x >> 24u64) as u8,
        (x >> 16u64) as u8,
        (x >> 8u64) as u8,
        x as u8,
    ];
    assert(r@ =~= u64_bytes(x));
    r
}

pub proof fn lemma_u64_bytes_zero()
    ensures
        u64_bytes(0) == Seq::new(8, |i: int| 0u8),
{
    assert((0u64 >> 56u64) as u8 == 0u8) by (bit_vector);
    assert((0u64 >> 48u64) as u8 == 0u8) by (bit_vector);
    assert((0u64 >> 40u64) as u8 == 0u8) by (bit_vector);
    assert((0u64 >> 32u64) as u8 == 0u8) by (bit_vector);
    assert((0u64 >> 24u64) as u8 == 0u8) by (bit_vector);
    assert((0u64 >> 16u64) as u8 == 0u8) by (bit_vector);
    assert((0u64 >> 8u64) as u8 == 0u8) by (bit_vector);
    assert(u64_bytes(0) =~= Seq::new(8, |i: int| 0u8));
}

/// Reads the big-endian word that starts at `off`.
pub fn be_u64_at(b: &[u8], off: usize) -> (r: u64)
    requires
        off + 8 <= b@.len(),
    ensures
        r == u64_of(b@.subrange(off as int, off + 8)),
{
    ((b[off] as u64) << 56u64) | ((b[off + 1] as u64) << 48u64) | ((b[off + 2] as u64) << 40u64)
        | ((b[off + 3] as u64) << 32u64) | ((b[off + 4] as u64) << 24u64) | ((b[off + 5] as u64)
        << 16u64) | ((b[off + 6] as u64) << 8u64) | (b[off + 7] as u64)
}

/// Reads eight bytes as one big-endian word.
pub fn u8to64(nums: [u8; 8]) -> (r: u64)
    ensures
        r == u64_of(nums@),
{
    let r = be_u64_at(&nums, 0);
    assert(nums@.subrange(0, 8) =~= nums@);
    r
}

/// The big-endian bytes of each word in turn.
pub open spec fn words_bytes(ws: Seq<u64>) -> Seq<u8>
    decreases ws.len(),
{
    if ws.len() == 0 {
        seq![]
    } else {
        words_bytes(ws.drop_last()) + u64_bytes(ws.last())
    }
}

/// The words read from consecutive eight-byte chunks; a short tail is ignored.
pub open spec fn bytes_words(b: Seq<u8>) -> Seq<u64> {
    Seq::new(b.len() / 8, |k: int| u64_of(b.subrange(8 * k, 8 * k + 8)))
}

pub proof fn lemma_words_bytes_len(ws: Seq<u64>)
    ensures
        words_bytes(ws).len() == 8 * ws.len(),
    decreases ws.len(),
{
    if ws.len() > 0 {
        lemma_words_bytes_len(ws.drop_last());
    }
}

/// The chunk of word `k` holds the bytes of that word.
pub proof fn lemma_words_bytes_chunk(ws: Seq<u64>, k: int)
    requires
        0 <= k < ws.len(),
    ensures
        words_bytes(ws).subrange(8 * k, 8 * k + 8) == u64_bytes(ws[k]),
    decreases ws.len(),
{
    let init = ws.drop_last();
    lemma_words_bytes_len(init);
    if k < ws.len() - 1 {
        lemma_words_bytes_chunk(init, k);
        assert(words_bytes(ws).subrange(8 * k, 8 * k + 8) =~= words_bytes(init).subrange(
            8 * k,
            8 * k + 8,
        ));
    } else {
        assert(words_bytes(ws).subrange(8 * k, 8 * k + 8) =~= u64_bytes(ws[k]));
    }
}

pub proof fn lemma_words_bytes_concat(a: Seq<u64>, b: Seq<u64>)
    ensures
        words_bytes(a + b) == words_bytes(a) + words_bytes(b),
    decreases b.len(),
{
    if b.len() == 0 {
        assert(a + b =~= a);
        assert(words_bytes(a) + words_bytes(b) =~= words_bytes(a));
    } else {
        lemma_words_bytes_concat(a, b.drop_last());
        assert((a + b).drop_last() =~= a + b.drop_last());
        assert(words_bytes(a + b) =~= words_bytes(a) + words_bytes(b));
    }
}

/// Reading back the bytes of a word sequence gives the words.
pub proof fn lemma_words_round_trip(ws: Seq<u64>)
    ensures
        bytes_words(words_bytes(ws)) == ws,
{
    lemma_words_bytes_len(ws);
    let b = words_bytes(ws);
    assert forall|k: int| 0 <= k < ws.len() implies #[trigger] bytes_words(b)[k] == ws[k] by {
        lemma_words_bytes_chunk(ws, k);
        lemma_u64_round_trip(ws[k]);
    }
    assert(bytes_words(b) =~= ws);
}

/// Appends the big-endian bytes of `x`.
pub fn push_u64(out: &mut Vec<u8>, x: u64)
    ensures
        final(out)@ == old(out)@ + u64_bytes(x),
{
    let b = u64_to_be(x);
    let mut i: usize = 0;
    while i < 8
        invariant
            0 <= i <= 8,
            b@ == u64_bytes(x),
            out@ == old(out)@ + b@.take(i as int),
        decreases 8 - i,
    {
        out.push(b[i]);
        assert(b@.take(i + 1) =~= b@.take(i as int).push(b@[i as int]));
        i += 1;
    }
    assert(b@.take(8) =~= b@);
}

/// Appends the big-endian bytes of each word of `ws` in turn.
pub fn push_words(out: &mut Vec<u8>, ws: &[u64])
    ensures
        final(out)@ == old(out)@ + words_bytes(ws@),
{
    let mut i: usize = 0;
    while i < ws.len()
        invariant
            0 <= i <= ws@.len(),
            out@ == old(out)@ + words_bytes(ws@.take(i as int)),
        decreases ws@.len() - i,
    {
        push_u64(out, ws[i]);
        assert(ws@.take(i + 1).drop_last() =~= ws@.take(i as int));
        i += 1;
    }
    assert(ws@.take(ws@.len() as int) =~= ws@);
}

/// Splits `vec` into eight-byte big-endian words; a short tail is ignored.
pub fn u8_2_u64(vec: Vec<u8>) -> (r: Vec<u64>)
    ensures
        r@ == bytes_words(vec@),
{
    let len = vec.len();
    let n = len / 8;
    let mut out: Vec<u64> = Vec::new();
    let mut k: usize = 0;
    while k < n
        invariant
            len == vec@.len(),
            n == len / 8,
            0 <= k <= n,
            out@ =~= bytes_words(vec@).take(k as int),
        decreases n - k,
    {
        proof {
            assert(8 * k + 8 <= vec@.len()) by (nonlinear_arith)
                requires
                    k < n,
                    n == len / 8,
                    len == vec@.len(),
            ;
        }
        let w = be_u64_at(vec.as_slice(), 8 * k);
        out.push(w);
        k += 1;
    }
    out
}

} // verus!
