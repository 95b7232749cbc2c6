use zkprivacy::account::{Account, KEY_BITS};
use zkprivacy::commitment::Commitment;
use zkprivacy::error::PrivacyError;
use zkprivacy::point::Point;

fn pt(s: u64) -> Point {
    Point { x: [s; 4], y: [s + 1; 4] }
}

fn account(value: u128) -> Account {
    Account::new(vec![true; KEY_BITS], vec![false; KEY_BITS], value, pt(1))
}

#[test]
fn new_account_holds_what_it_was_given() {
    let a = account(42);
    assert_eq!(a.get_value(), 42);
    assert_eq!(a.get_balance(), pt(1));
    assert_eq!(a.get_address(), &vec![false; KEY_BITS]);
    assert_eq!(a.get_blinding().len(), KEY_BITS);
}

#[test]
fn sub_balance_checks_underflow() {
    let mut a = account(42);
    assert_eq!(a.sub_balance(43, pt(9)), Err(PrivacyError::BalanceUnderflow));
    assert_eq!(a.get_value(), 42);
    assert_eq!(a.get_balance(), pt(1));
    assert_eq!(a.sub_balance(42, pt(9)), Ok(()));
    assert_eq!(a.get_value(), 0);
    assert_eq!(a.get_balance(), pt(9));
}

#[test]
fn add_balance_checks_overflow() {
    let mut a = account(u128::MAX - 1);
    assert_eq!(a.add_balance(2, pt(5)), Err(PrivacyError::BalanceOverflow));
    assert_eq!(a.get_value(), u128::MAX - 1);
    assert_eq!(a.add_balance(1, pt(5)), Ok(()));
    assert_eq!(a.get_value(), u128::MAX);
    assert_eq!(a.get_balance(), pt(5));
}

#[test]
fn commitment_needs_enough_value() {
    let a = account(42);
    assert_eq!(a.commitment(43, [7; 20]), None);
    let c = a.commitment(42, [7; 20]).unwrap();
    assert_eq!(c.receiver, [7; 20]);
    assert_eq!(c.value, 42);
}

#[test]
fn commitment_rlp_encoding() {
    let c = Commitment { receiver: [0x11; 20], value: 0x0400, rand: [0x22; 32] };
    let mut expect = vec![0xf8, 21 + 3 + 33, 0x94];
    expect.extend_from_slice(&[0x11; 20]);
    expect.extend_from_slice(&[0x82, 0x04, 0x00, 0xa0]);
    expect.extend_from_slice(&[0x22; 32]);
    assert_eq!(c.rlp(), expect);
}

#[test]
fn commitment_rlp_small_values() {
    let zero = Commitment { receiver: [0; 20], value: 0, rand: [0; 32] };
    let e = zero.rlp();
    // 55 bytes of items still take the one-byte list prefix.
    assert_eq!(e.len(), 56);
    assert_eq!(e[0], 0xc0 + 55);
    assert_eq!(e[1], 0x94);
    assert_eq!(e[22], 0x80);
    let one = Commitment { receiver: [0; 20], value: 5, rand: [0; 32] };
    assert_eq!(one.rlp()[22], 0x05);
    assert_eq!(one.value_bytes(), vec![5u8]);
    assert_eq!(zero.value_bytes(), Vec::<u8>::new());
}

#[test]
fn commitment_decode_round_trip() {
    for value in [0u128, 5, 0x80, 0x0400, u128::MAX] {
        let c = Commitment { receiver: [0x33; 20], value, rand: [0x44; 32] };
        assert_eq!(Commitment::decode(&c.rlp()), Ok(c));
    }
}

#[test]
fn commitment_decode_refuses_other_shapes() {
    assert_eq!(Commitment::decode(&Vec::new()), Err(PrivacyError::FormatError));
    // A list of two items.
    assert_eq!(Commitment::decode(&vec![0xc2, 0x01, 0x02]), Err(PrivacyError::FormatError));
    // A receiver that is one byte short.
    let mut d = vec![0xc0 + 20 + 1 + 33, 0x93];
    d.extend_from_slice(&[0x11; 19]);
    d.push(0x80);
    d.push(0xa0);
    d.extend_from_slice(&[0x22; 32]);
    assert_eq!(Commitment::decode(&d), Err(PrivacyError::FormatError));
    // A value with a leading zero byte.
    let mut e = vec![0xf8, 21 + 3 + 33, 0x94];
    e.extend_from_slice(&[0x11; 20]);
    e.extend_from_slice(&[0x82, 0x00, 0x05, 0xa0]);
    e.extend_from_slice(&[0x22; 32]);
    assert_eq!(Commitment::decode(&e), Err(PrivacyError::FormatError));
}
