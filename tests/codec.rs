use zkprivacy::bytes::{u64_to_be, u8_2_u64, u8to64};
use zkprivacy::codec::{Proof, PROOF_LEN};
use zkprivacy::error::PrivacyError;

fn sample_proof() -> Proof {
    let mut w = [[0u64; 6]; 8];
    for (i, arr) in w.iter_mut().enumerate() {
        for (j, x) in arr.iter_mut().enumerate() {
            *x = ((i as u64) << 56) | ((j as u64) << 8) | 0x0102_0304_0506_0700u64 >> 8;
        }
    }
    Proof(
        (w[0], w[1], true),
        ((w[2], w[3]), (w[4], w[5]), false),
        (w[6], w[7], true),
    )
}

#[test]
fn serialize_has_fixed_length_and_layout() {
    let p = sample_proof();
    let b = p.serialize();
    assert_eq!(b.len(), PROOF_LEN);
    assert_eq!(&b[0..8], &p.0 .0[0].to_be_bytes());
    assert_eq!(&b[8 * 47..8 * 48], &p.2 .1[5].to_be_bytes());
    assert_eq!(&b[384..], &[1u8, 0u8, 1u8]);
}

#[test]
fn codec_round_trip() {
    let p = sample_proof();
    let q = Proof::deserialize(&p.serialize()).unwrap();
    assert_eq!(q, p);
}

#[test]
fn deserialize_wrong_length_is_format_error() {
    let p = sample_proof();
    let mut b = p.serialize();
    b.pop();
    assert_eq!(Proof::deserialize(&b), Err(PrivacyError::FormatError));
    b.push(0);
    b.push(0);
    assert_eq!(Proof::deserialize(&b), Err(PrivacyError::FormatError));
    assert_eq!(Proof::deserialize(&Vec::new()), Err(PrivacyError::FormatError));
}

#[test]
fn deserialize_reads_any_nonzero_flag_as_set() {
    let mut b = vec![0u8; PROOF_LEN];
    b[7] = 5;
    b[384] = 0x7f;
    b[386] = 0xff;
    let q = Proof::deserialize(&b).unwrap();
    assert_eq!(q.0 .0[0], 5);
    assert!(q.0 .2);
    assert!(!q.1 .2);
    assert!(q.2 .2);
}

#[test]
fn words_are_big_endian() {
    assert_eq!(u8to64([1, 2, 3, 4, 5, 6, 7, 8]), 0x0102030405060708);
    assert_eq!(u64_to_be(0x0102030405060708), [1, 2, 3, 4, 5, 6, 7, 8]);
    let v = vec![0, 0, 0, 0, 0, 0, 0, 9, 0, 0, 0, 0, 0, 0, 1, 0, 0xff];
    assert_eq!(u8_2_u64(v), vec![9u64, 256u64]);
    assert_eq!(u8_2_u64(vec![1, 2, 3]), Vec::<u64>::new());
}
