//! Recursive length prefix encoding of short records.
use vstd::prelude::*;

verus! {

/// The encoding of a byte string shorter than 56 bytes: a single byte below `0x80`
/// stands for itself, anything else follows a prefix of `0x80` plus its length.
pub open spec fn rlp_string(b: Seq<u8>) -> Seq<u8> {
    if b.len() == 1 && b[0] < 0x80 {
        b
    } else {
        seq![(0x80 + b.len()) as u8] + b
    }
}

/// The prefix of a list whose items take `len` bytes, for `len` below 256.
pub open spec fn rlp_list_prefix(len: nat) -> Seq<u8> {
    if len < 56 {
        seq![(0xc0 + len) as u8]
    } else {
        seq![0xf8u8, len as u8]
    }
}

/// The encoding of a list of three short byte strings.
pub open spec fn rlp_list3(a: Seq<u8>, b: Seq<u8>, c: Seq<u8>) -> Seq<u8> {
    let items = rlp_string(a) + rlp_string(b) + rlp_string(c);
    rlp_list_prefix(items.len()) + items
}

/// Relies on rlp::RlpStream (`new_list`, `append` of byte strings, `out`): the
/// encoding of a list of three byte strings, each shorter than 56 bytes.
#[verifier::external_body]
pub(crate) fn encode_list3(a: &Vec<u8>, b: &Vec<u8>, c: &Vec<u8>) -> (r: Vec<u8>)
    requires
        a@.len() < 56,
        b@.len() < 56,
        c@.len() < 56,
    ensures
        r@ == rlp_list3(a@, b@, c@),
{
    let mut s = rlp::RlpStream::new_list(3);
    s.append(a);
    s.append(b);
    s.append(c);
    s.out()
}

/// Relies on rlp::Rlp::item_count: the number of items of an RLP list, which is three
/// for the encoding of a list of three short byte strings. `None` stands for the
/// crate's error.
#[verifier::external_body]
pub(crate) fn item_count(bytes: &Vec<u8>) -> (r: Option<usize>)
    ensures
        forall|a: Seq<u8>, b: Seq<u8>, c: Seq<u8>|
            a.len() < 56 && b.len() < 56 && c.len() < 56 && bytes@ == #[trigger] rlp_list3(a, b, c)
                ==> r == Some(3usize),
{
    rlp::Rlp::new(bytes.as_slice()).item_count().ok()
}

/// Relies on rlp::Rlp::val_at, read as a byte string: item `i` of an RLP list. On the
/// encoding of a list of three short byte strings it gives back each of them. `None`
/// stands for the crate's error.
#[verifier::external_body]
pub(crate) fn bytes_at(bytes: &Vec<u8>, i: usize) -> (r: Option<Vec<u8>>)
    ensures
        forall|a: Seq<u8>, b: Seq<u8>, c: Seq<u8>|
            a.len() < 56 && b.len() < 56 && c.len() < 56 && bytes@ == #[trigger] rlp_list3(a, b, c)
                && i < 3 ==> r is Some && r.unwrap()@ == seq![a, b, c][i as int],
{
    rlp::Rlp::new(bytes.as_slice()).val_at::<Vec<u8>>(i).ok()
}

} // verus!
