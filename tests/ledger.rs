use zkprivacy::codec::Proof;
use zkprivacy::error::PrivacyError;
use zkprivacy::point::Point;
use zkprivacy::privacy::{
    parse_collection, parse_remittance, Privacy, COLLECTION_LEN, OPERATION_COST,
    REMITTANCE_LEN,
};

fn sample_proof() -> Proof {
    Proof(
        ([1; 6], [2; 6], true),
        (([3; 6], [4; 6]), ([5; 6], [6; 6]), false),
        ([7; 6], [8; 6], true),
    )
}

fn point(seed: u64) -> Point {
    Point { x: [seed, seed + 1, seed + 2, seed + 3], y: [seed + 4, seed + 5, seed + 6, seed + 7] }
}

fn push_point(out: &mut Vec<u8>, p: &Point) {
    for w in [&p.x, &p.y] {
        for limb in w.iter().rev() {
            out.extend_from_slice(&limb.to_be_bytes());
        }
    }
}

fn id(n: u8) -> [u8; 32] {
    let mut r = [0u8; 32];
    r[31] = n;
    r
}

fn addr(n: u8) -> [u8; 20] {
    let mut r = [0u8; 20];
    r[0] = 0xaa;
    r[19] = n;
    r
}

fn remittance_payload(coin: [u8; 32], hb: &Point, delt: &Point) -> Vec<u8> {
    let mut d = vec![0xde, 0xad, 0xbe, 0xef];
    d.extend(sample_proof().serialize());
    d.extend_from_slice(&coin);
    push_point(&mut d, hb);
    push_point(&mut d, delt);
    push_point(&mut d, &point(100));
    d.extend_from_slice(&id(0x55));
    d
}

fn collection_payload(nullifier: [u8; 32], delt: &Point) -> Vec<u8> {
    let mut d = vec![0xca, 0xfe, 0xba, 0xbe];
    d.extend(sample_proof().serialize());
    d.extend_from_slice(&nullifier);
    d.extend_from_slice(&id(0x66));
    push_point(&mut d, delt);
    d
}

fn balance_query(a: &[u8; 20]) -> Vec<u8> {
    let mut d = vec![0u8; 16];
    d.extend_from_slice(a);
    d
}

#[test]
fn parse_remittance_reads_fixed_offsets() {
    let d = remittance_payload(id(17), &point(10), &point(20));
    assert_eq!(d.len(), REMITTANCE_LEN);
    let call = parse_remittance(&d).unwrap();
    assert_eq!(call.proof, sample_proof());
    assert_eq!(call.coin, id(17));
    assert_eq!(call.hb, point(10));
    assert_eq!(call.delt_ba, point(20));
    assert_eq!(call.rp, point(100));
    assert_eq!(call.enc, id(0x55));
}

#[test]
fn parse_collection_reads_fixed_offsets() {
    let d = collection_payload(id(9), &point(30));
    assert_eq!(d.len(), COLLECTION_LEN);
    let call = parse_collection(&d).unwrap();
    assert_eq!(call.proof, sample_proof());
    assert_eq!(call.nullifier, id(9));
    assert_eq!(call.root, id(0x66));
    assert_eq!(call.delt_ba, point(30));
}

#[test]
fn short_remittance_is_refused() {
    let d = vec![1u8; 300];
    assert_eq!(parse_remittance(&d), Err(PrivacyError::PayloadTooShort));
    let full = remittance_payload(id(1), &point(1), &point(2));
    assert_eq!(parse_remittance(&full[..REMITTANCE_LEN - 1].to_vec()), Err(PrivacyError::PayloadTooShort));
}

#[test]
fn short_collection_is_refused() {
    let full = collection_payload(id(1), &point(1));
    assert_eq!(parse_collection(&full[..COLLECTION_LEN - 1].to_vec()), Err(PrivacyError::PayloadTooShort));
    assert_eq!(parse_collection(&Vec::new()), Err(PrivacyError::PayloadTooShort));
}

#[test]
fn set_and_get_plain_balance() {
    let mut ledger = Privacy::new();
    let a = addr(1);
    let mut d = vec![0u8; 16];
    d.extend_from_slice(&a);
    let mut value = [0u8; 32];
    value[30] = 0x12;
    value[31] = 0x34;
    value[0] = 0x80;
    d.extend_from_slice(&value);
    assert_eq!(ledger.set_accounts(&d), Ok(OPERATION_COST));
    assert_eq!(ledger.get_balance(&balance_query(&a)), Ok(value.to_vec()));
    assert_eq!(ledger.get_balance(&balance_query(&addr(2))), Ok(vec![0u8; 32]));
    assert_eq!(ledger.set_accounts(&d[..67].to_vec()), Err(PrivacyError::PayloadTooShort));
    assert_eq!(ledger.get_balance(&d[..35].to_vec()), Err(PrivacyError::PayloadTooShort));
}

#[test]
fn rejected_remittance_changes_nothing() {
    let mut ledger = Privacy::new();
    let a = addr(1);
    let call = parse_remittance(&remittance_payload(id(17), &point(10), &point(20))).unwrap();
    let before = ledger.get_balance(&balance_query(&a));
    assert_eq!(
        ledger.send_remittance(a, &call, false, point(5)),
        Err(PrivacyError::ProofVerificationFailed)
    );
    assert_eq!(ledger.get_balance(&balance_query(&a)), before);
    assert!(!ledger.is_committed(&id(17)));
}

#[test]
fn shield_collect_and_replay() {
    let mut ledger = Privacy::new();
    let a = addr(0xa);
    let b = addr(0xb);
    // A shields: its balance becomes hb - delt_ba and the coin is registered.
    let rcall = parse_remittance(&remittance_payload(id(17), &point(10), &point(20))).unwrap();
    let rest = point(42);
    assert_eq!(ledger.send_remittance(a, &rcall, true, rest), Ok(OPERATION_COST));
    assert_eq!(ledger.shielded_balance(&a), Some(rest));
    assert!(ledger.is_committed(&id(17)));
    let mut expect = Vec::new();
    push_point(&mut expect, &rest);
    assert_eq!(ledger.get_balance(&balance_query(&a)), Ok(expect));
    // The same coin cannot be registered twice.
    assert_eq!(
        ledger.send_remittance(b, &rcall, true, point(1)),
        Err(PrivacyError::DuplicateCommitment)
    );
    // B collects with nullifier 9.
    let payload = collection_payload(id(9), &point(30));
    let ccall = parse_collection(&payload).unwrap();
    let total = point(77);
    assert!(!ledger.is_spent(&id(9)));
    assert_eq!(ledger.send_collection(b, &ccall, true, total), Ok(OPERATION_COST));
    assert!(ledger.is_spent(&id(9)));
    assert_eq!(ledger.shielded_balance(&b), Some(total));
    // Replaying the identical payload is a double spend and changes nothing.
    let replay = parse_collection(&payload).unwrap();
    assert_eq!(ledger.send_collection(b, &replay, true, point(99)), Err(PrivacyError::DoubleSpend));
    assert_eq!(ledger.shielded_balance(&b), Some(total));
    assert_eq!(ledger.shielded_balance(&a), Some(rest));
}

#[test]
fn double_spend_wins_over_any_verdict() {
    let mut ledger = Privacy::new();
    let b = addr(0xb);
    let first = parse_collection(&collection_payload(id(9), &point(30))).unwrap();
    assert_eq!(ledger.send_collection(b, &first, true, point(1)), Ok(OPERATION_COST));
    let other = parse_collection(&collection_payload(id(9), &point(31))).unwrap();
    assert_eq!(ledger.send_collection(addr(3), &other, false, point(2)), Err(PrivacyError::DoubleSpend));
    assert_eq!(ledger.send_collection(addr(3), &other, true, point(2)), Err(PrivacyError::DoubleSpend));
    assert_eq!(ledger.shielded_balance(&addr(3)), None);
    assert_eq!(ledger.shielded_balance(&b), Some(point(1)));
}

#[test]
fn rejected_collection_changes_nothing() {
    let mut ledger = Privacy::new();
    let b = addr(0xb);
    let call = parse_collection(&collection_payload(id(4), &point(30))).unwrap();
    assert_eq!(
        ledger.send_collection(b, &call, false, point(1)),
        Err(PrivacyError::ProofVerificationFailed)
    );
    assert!(!ledger.is_spent(&id(4)));
    assert_eq!(ledger.shielded_balance(&b), None);
    assert_eq!(ledger.get_balance(&balance_query(&b)), Ok(vec![0u8; 32]));
}
