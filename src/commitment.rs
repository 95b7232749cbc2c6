//! The record of a transfer to a receiver.
use vstd::prelude::*;
use crate::bytes::{push_u64, u64_bytes};
use crate::error::PrivacyError;
use crate::point::{bytes20_at, bytes32_at, bytes_range};
use crate::rlp_codec::{bytes_at, encode_list3, item_count, rlp_list3};

verus! {

/// A transfer of `value` to `receiver`, salted with `rand`.
#[derive(Clone, Copy, Debug, PartialEq, Eq, Default)]
pub struct Commitment {
    pub receiver: [u8; 20],
    pub value: u128,
    pub rand: [u8; 32],
}

/// `s` without its leading zero bytes.
pub open spec fn strip_zeros(s: Seq<u8>) -> Seq<u8>
    decreases s.len(),
{
    if s.len() > 0 && s[0] == 0 {
        strip_zeros(s.skip(1))
    } else {
        s
    }
}

/// The sixteen big-endian bytes of `v`.
pub open spec fn u128_bytes(v: u128) -> Seq<u8> {
    u64_bytes((v >> 64u128) as u64) + u64_bytes(v as u64)
}

/// The shortest big-endian form of `v`: empty for zero.
pub open spec fn value_bytes(v: u128) -> Seq<u8> {
    strip_zeros(u128_bytes(v))
}

/// The bytes of `b` from `start` on, without the leading zeros among them.
fn strip_from(b: &Vec<u8>, start: usize) -> (r: Vec<u8>)
    requires
        start <= b@.len(),
    ensures
        r@ == strip_zeros(b@.skip(start as int)),
    decreases b@.len() - start,
{
    if start < b.len() && b[start] == 0 {
        assert(b@.skip(start as int).skip(1) =~= b@.skip(start + 1));
        strip_from(b, start + 1)
    } else {
        let mut r: Vec<u8> = Vec::new();
        let mut i: usize = start;
        while i < b.len()
            invariant
                start <= i <= b@.len(),
                r@ =~= b@.subrange(start as int, i as int),
            decreases b@.len() - i,
        {
            r.push(b[i]);
            i += 1;
        }
        assert(r@ =~= b@.skip(start as int));
        r
    }
}

proof fn lemma_strip_zeros_len(s: Seq<u8>)
    ensures
        strip_zeros(s).len() <= s.len(),
    decreases s.len(),
{
    if s.len() > 0 && s[0] == 0 {
        lemma_strip_zeros_len(s.skip(1));
    }
}

/// The number whose big-endian bytes are `s`.
pub open spec fn be_nat(s: Seq<u8>) -> nat
    decreases s.len(),
{
    if s.len() == 0 {
        0
    } else {
        be_nat(s.drop_last()) * 256 + s.last() as nat
    }
}

/// The encoding of a record: receiver, value as its shortest big-endian bytes, salt.
pub open spec fn commitment_rlp(c: Commitment) -> Seq<u8> {
    rlp_list3(c.receiver@, value_bytes(c.value), c.rand@)
}

proof fn lemma_be_nat_push(s: Seq<u8>, b: u8)
    ensures
        be_nat(s.push(b)) == be_nat(s) * 256 + b,
{
    assert(s.push(b).drop_last() =~= s);
}

proof fn lemma_be_nat_concat(a: Seq<u8>, b: Seq<u8>)
    ensures
        be_nat(a + b) == be_nat(a) * pow256(b.len()) + be_nat(b),
    decreases b.len(),
{
    if b.len() == 0 {
        assert(a + b =~= a);
        assert(be_nat(b) == 0);
        assert(pow256(0) == 1);
    } else {
        let init = b.drop_last();
        lemma_be_nat_concat(a, init);
        assert((a + b).drop_last() =~= a + init);
        assert((a + b).last() == b.last());
        assert(be_nat(a + b) == be_nat(a + init) * 256 + b.last());
        assert(be_nat(b) == be_nat(init) * 256 + b.last());
        assert(pow256(b.len()) == pow256(init.len()) * 256);
        assert((be_nat(a) * pow256(init.len()) + be_nat(init)) * 256 + b.last() == be_nat(a) * (
        pow256(init.len()) * 256) + (be_nat(init) * 256 + b.last())) by (nonlinear_arith);
    }
}

pub open spec fn pow256(n: nat) -> nat
    decreases n,
{
    if n == 0 {
        1
    } else {
        pow256((n - 1) as nat) * 256
    }
}

proof fn lemma_be_nat_u64(x: u64)
    ensures
        be_nat(u64_bytes(x)) == x,
{
    let b0 = (x >> 56u64) as u8;
    let b1 = (x >> 48u64) as u8;
    let b2 = (x >> 40u64) as u8;
    let b3 = (x >> 32u64) as u8;
    let b4 = (x >> 24u64) as u8;
    let b5 = (x >> 16u64) as u8;
    let b6 = (x >> 8u64) as u8;
    let b7 = x as u8;
    let e = Seq::<u8>::empty();
    lemma_be_nat_push(e, b0);
    lemma_be_nat_push(e.push(b0), b1);
    lemma_be_nat_push(e.push(b0).push(b1), b2);
    lemma_be_nat_push(e.push(b0).push(b1).push(b2), b3);
    lemma_be_nat_push(e.push(b0).push(b1).push(b2).push(b3), b4);
    lemma_be_nat_push(e.push(b0).push(b1).push(b2).push(b3).push(b4), b5);
    lemma_be_nat_push(e.push(b0).push(b1).push(b2).push(b3).push(b4).push(b5), b6);
    lemma_be_nat_push(e.push(b0).push(b1).push(b2).push(b3).push(b4).push(b5).push(b6), b7);
    assert(u64_bytes(x) =~= e.push(b0).push(b1).push(b2).push(b3).push(b4).push(b5).push(b6).push(
        b7,
    ));
    assert(x == (((((((((x >> 56u64) as u8) as u64) * 256 + (((x >> 48u64) as u8) as u64)) * 256
        + (((x >> 40u64) as u8) as u64)) * 256 + (((x >> 32u64) as u8) as u64)) * 256 + (((x
        >> 24u64) as u8) as u64)) * 256 + (((x >> 16u64) as u8) as u64)) * 256 + (((x >> 8u64)
        as u8) as u64)) * 256 + ((x as u8) as u64)) by (bit_vector);
}

proof fn lemma_be_nat_u128(v: u128)
    ensures
        be_nat(u128_bytes(v)) == v,
{
    let hi = (v >> 64u128) as u64;
    let lo = v as u64;
    lemma_be_nat_concat(u64_bytes(hi), u64_bytes(lo));
    reveal_with_fuel(pow256, 9);
    assert(pow256(8) == 0x1_0000_0000_0000_0000);
    lemma_be_nat_u64(hi);
    lemma_be_nat_u64(lo);
    assert(v == ((v >> 64u128) as u64) as u128 * 0x1_0000_0000_0000_0000u128 + (v as u64) as u128)
        by (bit_vector);
}

proof fn lemma_strip_zeros_value(s: Seq<u8>)
    ensures
        be_nat(strip_zeros(s)) == be_nat(s),
        strip_zeros(s).len() > 0 ==> strip_zeros(s)[0] != 0,
    decreases s.len(),
{
    if s.len() > 0 && s[0] == 0 {
        lemma_strip_zeros_value(s.skip(1));
        lemma_leading_zero(s.skip(1));
        assert(seq![0u8] + s.skip(1) =~= s);
    }
}

proof fn lemma_leading_zero(t: Seq<u8>)
    ensures
        be_nat(seq![0u8] + t) == be_nat(t),
    decreases t.len(),
{
    if t.len() > 0 {
        lemma_leading_zero(t.drop_last());
        assert((seq![0u8] + t).drop_last() =~= seq![0u8] + t.drop_last());
        assert((seq![0u8] + t).last() == t.last());
        assert(be_nat(seq![0u8] + t) == be_nat(seq![0u8] + t.drop_last()) * 256 + t.last());
    } else {
        assert(seq![0u8] + t =~= seq![0u8]);
        assert(seq![0u8].drop_last() =~= Seq::<u8>::empty());
        assert(be_nat(Seq::<u8>::empty()) == 0);
        assert(be_nat(seq![0u8]) == be_nat(Seq::<u8>::empty()) * 256 + 0);
    }
}

/// The number whose big-endian bytes are `b`, of at most sixteen bytes.
fn be_u128(b: &Vec<u8>) -> (r: u128)
    requires
        b@.len() <= 16,
    ensures
        r == be_nat(b@),
{
    let mut acc: u128 = 0;
    let mut i: usize = 0;
    while i < b.len()
        invariant
            0 <= i <= b@.len() <= 16,
            acc == be_nat(b@.take(i as int)),
            acc < pow256(i as nat),
        decreases b@.len() - i,
    {
        proof {
            lemma_be_nat_push(b@.take(i as int), b@[i as int]);
            assert(b@.take(i as int).push(b@[i as int]) =~= b@.take(i + 1));
            lemma_pow256_le(i as nat);
            assert(acc * 256 + b@[i as int] < pow256(i as nat) * 256) by (nonlinear_arith)
                requires
                    acc < pow256(i as nat),
                    b@[i as int] < 256,
            ;
        }
        acc = acc * 256 + b[i] as u128;
        i += 1;
    }
    assert(b@.take(b@.len() as int) =~= b@);
    acc
}

proof fn lemma_pow256_le(n: nat)
    requires
        n < 16,
    ensures
        pow256(n) * 256 <= 0x1_0000_0000_0000_0000_0000_0000_0000_0000,
{
    lemma_pow256_mono(n, 15);
    reveal_with_fuel(pow256, 17);
    assert(pow256(15) * 256 == 0x1_0000_0000_0000_0000_0000_0000_0000_0000);
}

proof fn lemma_pow256_mono(n: nat, m: nat)
    requires
        n <= m,
    ensures
        pow256(n) <= pow256(m),
    decreases m,
{
    if n < m {
        lemma_pow256_mono(n, (m - 1) as nat);
    }
}

impl Commitment {
    /// The shortest big-endian bytes of the value.
    pub fn value_bytes(&self) -> (r: Vec<u8>)
        ensures
            r@ == value_bytes(self.value),
    {
        let mut full: Vec<u8> = Vec::new();
        push_u64(&mut full, (self.value >> 64u128) as u64);
        push_u64(&mut full, self.value as u64);
        assert(full@.skip(0) =~= u128_bytes(self.value));
        strip_from(&full, 0)
    }

    /// The encoding of the record as an RLP list: receiver, value as its shortest
    /// big-endian bytes, salt.
    pub fn rlp(&self) -> (r: Vec<u8>)
        ensures
            r@ == commitment_rlp(*self),
    {
        let receiver = bytes_range(&self.receiver, 0, 20);
        let value = self.value_bytes();
        let rand = bytes_range(&self.rand, 0, 32);
        proof {
            lemma_strip_zeros_len(u128_bytes(self.value));
            assert(receiver@ =~= self.receiver@);
            assert(rand@ =~= self.rand@);
        }
        encode_list3(&receiver, &value, &rand)
    }

    /// Decodes a record from its RLP list. The encoding of every record decodes to
    /// that record; what else is refused or accepted is up to the RLP decoder, with
    /// the receiver and salt of their full widths and the value in its shortest form.
    pub fn decode(bytes: &Vec<u8>) -> (r: Result<Commitment, PrivacyError>)
        ensures
            forall|c: Commitment| bytes@ == #[trigger] commitment_rlp(c) ==> r == Ok::<
                Commitment,
                PrivacyError,
            >(c),
    {
        proof {
            assert forall|c: Commitment| bytes@ == #[trigger] commitment_rlp(c) implies value_bytes(
                c.value,
            ).len() <= 16 && be_nat(value_bytes(c.value)) == c.value && (value_bytes(c.value).len()
                > 0 ==> value_bytes(c.value)[0] != 0) by {
                lemma_strip_zeros_len(u128_bytes(c.value));
                lemma_strip_zeros_value(u128_bytes(c.value));
                lemma_be_nat_u128(c.value);
            }
        }
        match item_count(bytes) {
            Some(n) => {
                if n != 3 {
                    return Err(PrivacyError::FormatError);
                }
            },
            None => return Err(PrivacyError::FormatError),
        }
        let receiver = match bytes_at(bytes, 0) {
            Some(v) => v,
            None => return Err(PrivacyError::FormatError),
        };
        let value = match bytes_at(bytes, 1) {
            Some(v) => v,
            None => return Err(PrivacyError::FormatError),
        };
        let rand = match bytes_at(bytes, 2) {
            Some(v) => v,
            None => return Err(PrivacyError::FormatError),
        };
        if receiver.len() != 20 || rand.len() != 32 || value.len() > 16 {
            return Err(PrivacyError::FormatError);
        }
        if value.len() > 0 && value[0] == 0 {
            return Err(PrivacyError::FormatError);
        }
        let c = Commitment {
            receiver: bytes20_at(receiver.as_slice(), 0),
            value: be_u128(&value),
            rand: bytes32_at(rand.as_slice(), 0),
        };
        proof {
            broadcast use vstd::array::axiom_array_ext_equal;

            assert forall|d: Commitment| bytes@ == #[trigger] commitment_rlp(d) implies c == d by {
                lemma_strip_zeros_len(u128_bytes(d.value));
                let items = seq![d.receiver@, value_bytes(d.value), d.rand@];
                assert(bytes@ == rlp_list3(d.receiver@, value_bytes(d.value), d.rand@));
                assert(items[0] == d.receiver@);
                assert(items[1] == value_bytes(d.value));
                assert(items[2] == d.rand@);
                assert(value@ == value_bytes(d.value));
                assert(receiver@ == d.receiver@);
                assert(receiver@.subrange(0, 20) =~= receiver@);
                assert(rand@.subrange(0, 32) =~= rand@);
                assert(c.receiver@ =~= d.receiver@);
                assert(c.rand@ =~= d.rand@);
                assert(c.receiver == d.receiver);
                assert(c.rand == d.rand);
                assert(be_nat(value_bytes(d.value)) == d.value);
                assert(c.value == d.value);
            }
        }
        Ok(c)
    }
}

} // verus!
