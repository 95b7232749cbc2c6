//! The fixed-length binary encoding of a proof.
use vstd::prelude::*;
use crate::bytes::{be_u64_at, bytes_words, push_words, u64_of, words_bytes, lemma_words_round_trip, lemma_words_bytes_len};
use crate::error::PrivacyError;

verus! {

/// Number of 64-bit words in a proof.
pub const PROOF_WORDS: usize = 48;

/// Length in bytes of an encoded proof: the words, then one byte per flag.
pub const PROOF_LEN: usize = 387;

/// A SNARK proof as three curve elements, each with its sign bit:
/// `A` (x, y), `B` ((x0, x1), (y0, y1)) and `C` (x, y).
#[derive(Clone, Copy, Debug, PartialEq, Eq)]
pub struct Proof(
    pub ([u64; 6], [u64; 6], bool),
    pub (([u64; 6], [u64; 6]), ([u64; 6], [u64; 6]), bool),
    pub ([u64; 6], [u64; 6], bool),
);

impl View for Proof {
    /// The 48 coordinate words in wire order, and the three flags.
    type V = (Seq<u64>, Seq<bool>);

    open spec fn view(&self) -> (Seq<u64>, Seq<bool>) {
        (
            self.0.0@ + self.0.1@ + self.1.0.0@ + self.1.0.1@ + self.1.1.0@ + self.1.1.1@
                + self.2.0@ + self.2.1@,
            seq![self.0.2, self.1.2, self.2.2],
        )
    }
}

pub open spec fn flag_byte(f: bool) -> u8 {
    if f {
        1
    } else {
        0
    }
}

/// The encoding of a proof: its words big-endian, then a byte per flag.
pub open spec fn encode_proof(v: (Seq<u64>, Seq<bool>)) -> Seq<u8> {
    words_bytes(v.0) + v.1.map_values(|f: bool| flag_byte(f))
}

/// What a well-sized encoding decodes to: any nonzero flag byte reads as set.
pub open spec fn decode_proof(b: Seq<u8>) -> (Seq<u64>, Seq<bool>) {
    (bytes_words(b.take(384)), b.subrange(384, 387).map_values(|x: u8| x != 0))
}

/// Reads six consecutive words, starting at word `base`.
fn read6(b: &Vec<u8>, base: usize) -> (r: [u64; 6])
    requires
        base + 6 <= PROOF_WORDS,
        b@.len() >= 384,
    ensures
        forall|j: int|
            0 <= j < 6 ==> #[trigger] r@[j] == u64_of(
                b@.subrange(8 * (base + j), 8 * (base + j) + 8),
            ),
{
    let s = b.as_slice();
    let o = 8 * base;
    [
        be_u64_at(s, o),
        be_u64_at(s, o + 8),
        be_u64_at(s, o + 16),
        be_u64_at(s, o + 24),
        be_u64_at(s, o + 32),
        be_u64_at(s, o + 40),
    ]
}

impl Proof {
    /// Encodes the proof in its fixed layout of `PROOF_LEN` bytes.
    pub fn serialize(&self) -> (r: Vec<u8>)
        ensures
            r@ == encode_proof(self@),
            r@.len() == PROOF_LEN,
    {
        let mut out: Vec<u8> = Vec::new();
        push_words(&mut out, self.0.0.as_slice());
        push_words(&mut out, self.0.1.as_slice());
        push_words(&mut out, self.1.0.0.as_slice());
        push_words(&mut out, self.1.0.1.as_slice());
        push_words(&mut out, self.1.1.0.as_slice());
        push_words(&mut out, self.1.1.1.as_slice());
        push_words(&mut out, self.2.0.as_slice());
        push_words(&mut out, self.2.1.as_slice());
        out.push(if self.0.2 { 1u8 } else { 0u8 });
        out.push(if self.1.2 { 1u8 } else { 0u8 });
        out.push(if self.2.2 { 1u8 } else { 0u8 });
        proof {
            let a = self.0.0@;
            let b = self.0.1@;
            let c = self.1.0.0@;
            let d = self.1.0.1@;
            let e = self.1.1.0@;
            let f = self.1.1.1@;
            let g = self.2.0@;
            let h = self.2.1@;
            crate::bytes::lemma_words_bytes_concat(a, b);
            crate::bytes::lemma_words_bytes_concat(a + b, c);
            crate::bytes::lemma_words_bytes_concat(a + b + c, d);
            crate::bytes::lemma_words_bytes_concat(a + b + c + d, e);
            crate::bytes::lemma_words_bytes_concat(a + b + c + d + e, f);
            crate::bytes::lemma_words_bytes_concat(a + b + c + d + e + f, g);
            crate::bytes::lemma_words_bytes_concat(a + b + c + d + e + f + g, h);
            lemma_words_bytes_len(self@.0);
            assert(out@ =~= encode_proof(self@));
        }
        out
    }

    /// Decodes a proof from exactly `PROOF_LEN` bytes.
    pub fn deserialize(bytes: &Vec<u8>) -> (r: Result<Proof, PrivacyError>)
        ensures
            bytes@.len() != PROOF_LEN <==> r is Err,
            r matches Err(e) ==> e == PrivacyError::FormatError,
            r matches Ok(p) ==> p@ == decode_proof(bytes@),
    {
        if bytes.len() != PROOF_LEN {
            return Err(PrivacyError::FormatError);
        }
        let p = Proof(
            (read6(bytes, 0), read6(bytes, 6), bytes[384] != 0),
            ((read6(bytes, 12), read6(bytes, 18)), (read6(bytes, 24), read6(bytes, 30)), bytes[385] != 0),
            (read6(bytes, 36), read6(bytes, 42), bytes[386] != 0),
        );
        proof {
            let b = bytes@;
            assert forall|k: int| 0 <= k < 48 implies #[trigger] bytes_words(b.take(384))[k]
                == u64_of(b.subrange(8 * k, 8 * k + 8)) by {
                assert(b.take(384).subrange(8 * k, 8 * k + 8) =~= b.subrange(8 * k, 8 * k + 8));
            }
            assert(p@.0 =~= bytes_words(b.take(384)));
            assert(p@.1 =~= decode_proof(b).1);
        }
        Ok(p)
    }
}

/// Decoding the encoding of a proof gives back that proof.
pub proof fn lemma_codec_round_trip(p: Proof, q: Proof)
    requires
        q@ == decode_proof(encode_proof(p@)),
    ensures
        q == p,
{
    let e = encode_proof(p@);
    lemma_words_bytes_len(p@.0);
    assert(e.take(384) =~= words_bytes(p@.0));
    lemma_words_round_trip(p@.0);
    assert(q@.0 =~= p@.0);
    assert(q@.1 =~= p@.1);
    assert(q.0.0@ =~= q@.0.subrange(0, 6));
    assert(p.0.0@ =~= p@.0.subrange(0, 6));
    assert(q.0.1@ =~= q@.0.subrange(6, 12));
    assert(p.0.1@ =~= p@.0.subrange(6, 12));
    assert(q.1.0.0@ =~= q@.0.subrange(12, 18));
    assert(p.1.0.0@ =~= p@.0.subrange(12, 18));
    assert(q.1.0.1@ =~= q@.0.subrange(18, 24));
    assert(p.1.0.1@ =~= p@.0.subrange(18, 24));
    assert(q.1.1.0@ =~= q@.0.subrange(24, 30));
    assert(p.1.1.0@ =~= p@.0.subrange(24, 30));
    assert(q.1.1.1@ =~= q@.0.subrange(30, 36));
    assert(p.1.1.1@ =~= p@.0.subrange(30, 36));
    assert(q.2.0@ =~= q@.0.subrange(36, 42));
    assert(p.2.0@ =~= p@.0.subrange(36, 42));
    assert(q.2.1@ =~= q@.0.subrange(42, 48));
    assert(p.2.1@ =~= p@.0.subrange(42, 48));
    assert(q@.1[0] == p@.1[0]);
    assert(q@.1[1] == p@.1[1]);
    assert(q@.1[2] == p@.1[2]);
    broadcast use vstd::array::axiom_array_ext_equal;

    assert(q.0 == p.0);
    assert(q.1.0 == p.1.0);
    assert(q.1.1 == p.1.1);
    assert(q.2 == p.2);
}

} // verus!
