//! The shielded ledger: call decoding and the state machine over the three maps.
use vstd::prelude::*;
use crate::codec::{decode_proof, Proof, PROOF_LEN};
use crate::error::PrivacyError;
use crate::point::{
    bytes20_at, bytes32_at, bytes_range, point_at, point_of, push_word, word_at, word_bytes,
    word_from, Point,
};
use crate::table::Table;

verus! {

/// Gas charged for each operation.
pub const OPERATION_COST: u64 = 100;

/// Length of the selector that starts every call.
pub const SELECTOR_LEN: usize = 4;

/// Shortest call data for `set_accounts`: selector, address slot, balance.
pub const SET_ACCOUNTS_LEN: usize = 68;

/// Shortest call data for `get_balance`: selector, address slot.
pub const GET_BALANCE_LEN: usize = 36;

/// Shortest call data for `send_remittance`:
/// selector, proof, coin, `hb`, `delt_ba`, `rp`, `enc`.
pub const REMITTANCE_LEN: usize = 647;

/// Shortest call data for `send_collection`: selector, proof, nullifier, root, `delt_ba`.
pub const COLLECTION_LEN: usize = 519;

/// What the ledger holds for an address: a plain value or a shielded balance point.
#[derive(Clone, Copy, Debug, PartialEq, Eq)]
pub enum Balance {
    Plain([u64; 4]),
    Shielded(Point),
}

/// A decoded shield call.
#[derive(Clone, Copy, Debug, PartialEq, Eq)]
pub struct Remittance {
    pub proof: Proof,
    /// Id of the new coin.
    pub coin: [u8; 32],
    /// The sender's balance point before the transfer.
    pub hb: Point,
    /// The point of the transferred value.
    pub delt_ba: Point,
    pub rp: Point,
    pub enc: [u8; 32],
}

/// A decoded unshield call.
#[derive(Clone, Copy, Debug, PartialEq, Eq)]
pub struct Collection {
    pub proof: Proof,
    /// Tag of the spend; accepted at most once.
    pub nullifier: [u8; 32],
    /// Root of the commitment tree the spend was proved against.
    pub root: [u8; 32],
    /// The point of the collected value.
    pub delt_ba: Point,
}

/// The three maps of the ledger.
pub struct LedgerState {
    pub accounts: Map<Seq<u8>, Balance>,
    pub nullifiers: Map<Seq<u8>, [u8; 20]>,
    pub commitments: Map<Seq<u8>, [u8; 20]>,
}

/// The address that sits right-aligned in the 32-byte slot at `off`.
pub open spec fn address_in(data: Seq<u8>, off: int) -> Seq<u8> {
    data.subrange(off + 12, off + 32)
}

/// The outcome of a shield call by `sender` for coin `coin`, given the verdict of the
/// proof system and the sender's remaining balance point `rest`.
pub open spec fn remit_step(
    s: LedgerState,
    sender: [u8; 20],
    coin: Seq<u8>,
    verified: bool,
    rest: Point,
) -> (LedgerState, Result<u64, PrivacyError>) {
    if s.commitments.contains_key(coin) {
        (s, Err(PrivacyError::DuplicateCommitment))
    } else if !verified {
        (s, Err(PrivacyError::ProofVerificationFailed))
    } else {
        (
            LedgerState {
                accounts: s.accounts.insert(sender@, Balance::Shielded(rest)),
                nullifiers: s.nullifiers,
                commitments: s.commitments.insert(coin, sender),
            },
            Ok(OPERATION_COST),
        )
    }
}

/// The outcome of an unshield call by `sender` spending `nullifier`, given the verdict
/// of the proof system and the sender's credited balance point `total`.
pub open spec fn collect_step(
    s: LedgerState,
    sender: [u8; 20],
    nullifier: Seq<u8>,
    verified: bool,
    total: Point,
) -> (LedgerState, Result<u64, PrivacyError>) {
    if s.nullifiers.contains_key(nullifier) {
        (s, Err(PrivacyError::DoubleSpend))
    } else if !verified {
        (s, Err(PrivacyError::ProofVerificationFailed))
    } else {
        (
            LedgerState {
                accounts: s.accounts.insert(sender@, Balance::Shielded(total)),
                nullifiers: s.nullifiers.insert(nullifier, sender),
                commitments: s.commitments,
            },
            Ok(OPERATION_COST),
        )
    }
}

/// The bytes that `get_balance` returns for what an address holds.
pub open spec fn balance_bytes(b: Option<Balance>) -> Seq<u8> {
    match b {
        None => Seq::new(32, |i: int| 0u8),
        Some(Balance::Plain(w)) => word_bytes(w@),
        Some(Balance::Shielded(p)) => word_bytes(p.x@) + word_bytes(p.y@),
    }
}

/// The shield call that `data` encodes, fields at their fixed offsets.
pub open spec fn remittance_fields(data: Seq<u8>, r: Remittance) -> bool {
    &&& r.proof@ == decode_proof(data.subrange(4, 391))
    &&& r.coin@ == data.subrange(391, 423)
    &&& r.hb == point_of(data.subrange(423, 487))
    &&& r.delt_ba == point_of(data.subrange(487, 551))
    &&& r.rp == point_of(data.subrange(551, 615))
    &&& r.enc@ == data.subrange(615, 647)
}

/// The unshield call that `data` encodes, fields at their fixed offsets.
pub open spec fn collection_fields(data: Seq<u8>, c: Collection) -> bool {
    &&& c.proof@ == decode_proof(data.subrange(4, 391))
    &&& c.nullifier@ == data.subrange(391, 423)
    &&& c.root@ == data.subrange(423, 455)
    &&& c.delt_ba == point_of(data.subrange(455, 519))
}

/// Decodes the proof that follows the selector.
fn proof_at_start(data: &Vec<u8>) -> (r: Result<Proof, PrivacyError>)
    requires
        data@.len() >= SELECTOR_LEN + PROOF_LEN,
    ensures
        r matches Ok(p) && p@ == decode_proof(data@.subrange(4, 391)),
{
    let bytes = bytes_range(data.as_slice(), SELECTOR_LEN, SELECTOR_LEN + PROOF_LEN);
    Proof::deserialize(&bytes)
}

/// Decodes the call data of a shield call.
pub fn parse_remittance(data: &Vec<u8>) -> (r: Result<Remittance, PrivacyError>)
    ensures
        data@.len() < REMITTANCE_LEN <==> r is Err,
        r matches Err(e) ==> e == PrivacyError::PayloadTooShort,
        r matches Ok(call) ==> remittance_fields(data@, call),
{
    if data.len() < REMITTANCE_LEN {
        return Err(PrivacyError::PayloadTooShort);
    }
    let proof = match proof_at_start(data) {
        Ok(p) => p,
        Err(e) => return Err(e),
    };
    let s = data.as_slice();
    Ok(
        Remittance {
            proof,
            coin: bytes32_at(s, 391),
            hb: point_at(s, 423),
            delt_ba: point_at(s, 487),
            rp: point_at(s, 551),
            enc: bytes32_at(s, 615),
        },
    )
}

/// Decodes the call data of an unshield call.
pub fn parse_collection(data: &Vec<u8>) -> (r: Result<Collection, PrivacyError>)
    ensures
        data@.len() < COLLECTION_LEN <==> r is Err,
        r matches Err(e) ==> e == PrivacyError::PayloadTooShort,
        r matches Ok(call) ==> collection_fields(data@, call),
{
    if data.len() < COLLECTION_LEN {
        return Err(PrivacyError::PayloadTooShort);
    }
    let proof = match proof_at_start(data) {
        Ok(p) => p,
        Err(e) => return Err(e),
    };
    let s = data.as_slice();
    Ok(
        Collection {
            proof,
            nullifier: bytes32_at(s, 391),
            root: bytes32_at(s, 423),
            delt_ba: point_at(s, 455),
        },
    )
}

/// The ledger: balances by address, spent nullifiers and registered coins.
pub struct Privacy {
    accounts: Table<20, Balance>,
    nullifiers: Table<32, [u8; 20]>,
    commitments: Table<32, [u8; 20]>,
}

impl View for Privacy {
    type V = LedgerState;

    closed spec fn view(&self) -> LedgerState {
        LedgerState {
            accounts: self.accounts@,
            nullifiers: self.nullifiers@,
            commitments: self.commitments@,
        }
    }
}

impl Privacy {
    pub closed spec fn wf(&self) -> bool {
        &&& self.accounts.wf()
        &&& self.nullifiers.wf()
        &&& self.commitments.wf()
    }

    /// A ledger with no accounts, no spends and no coins.
    pub fn new() -> (r: Self)
        ensures
            r.wf(),
            r@.accounts == Map::<Seq<u8>, Balance>::empty(),
            r@.nullifiers == Map::<Seq<u8>, [u8; 20]>::empty(),
            r@.commitments == Map::<Seq<u8>, [u8; 20]>::empty(),
    {
        Privacy { accounts: Table::new(), nullifiers: Table::new(), commitments: Table::new() }
    }

    /// Overwrites the balance of the address in `data[16..36]` with the plain value in
    /// `data[36..68]`. Not gated by any proof.
    pub fn set_accounts(&mut self, data: &Vec<u8>) -> (r: Result<u64, PrivacyError>)
        requires
            old(self).wf(),
        ensures
            final(self).wf(),
            data@.len() < SET_ACCOUNTS_LEN ==> r == Err::<u64, PrivacyError>(
                PrivacyError::PayloadTooShort,
            ) && final(self)@ == old(self)@,
            data@.len() >= SET_ACCOUNTS_LEN ==> r == Ok::<u64, PrivacyError>(OPERATION_COST)
                && final(self)@ == (LedgerState {
                accounts: old(self)@.accounts.insert(
                    address_in(data@, 4),
                    Balance::Plain(word_from(data@.subrange(36, 68))),
                ),
                ..old(self)@
            }),
    {
        if data.len() < SET_ACCOUNTS_LEN {
            return Err(PrivacyError::PayloadTooShort);
        }
        let s = data.as_slice();
        let address = bytes20_at(s, 16);
        let bal = word_at(s, 36);
        self.accounts.insert(address, Balance::Plain(bal));
        Ok(OPERATION_COST)
    }

    /// What the address in `data[16..36]` holds, as big-endian bytes: 32 for a plain
    /// value (zero for an address with nothing), 64 for a balance point.
    pub fn get_balance(&self, data: &Vec<u8>) -> (r: Result<Vec<u8>, PrivacyError>)
        requires
            self.wf(),
        ensures
            data@.len() < GET_BALANCE_LEN <==> r is Err,
            r matches Err(e) ==> e == PrivacyError::PayloadTooShort,
            r matches Ok(out) ==> out@ == balance_bytes(
                if self@.accounts.contains_key(address_in(data@, 4)) {
                    Some(self@.accounts[address_in(data@, 4)])
                } else {
                    None
                },
            ),
    {
        if data.len() < GET_BALANCE_LEN {
            return Err(PrivacyError::PayloadTooShort);
        }
        let address = bytes20_at(data.as_slice(), 16);
        let mut out: Vec<u8> = Vec::new();
        match self.accounts.get(&address) {
            None => {
                push_word(&mut out, &[0u64; 4]);
                assert(out@ =~= balance_bytes(None)) by {
                    crate::bytes::lemma_u64_bytes_zero();
                }
            },
            Some(Balance::Plain(w)) => {
                push_word(&mut out, w);
                assert(out@ =~= word_bytes(w@));
            },
            Some(Balance::Shielded(p)) => {
                push_word(&mut out, &p.x);
                push_word(&mut out, &p.y);
                assert(out@ =~= word_bytes(p.x@) + word_bytes(p.y@));
            },
        }
        Ok(out)
    }

    /// The balance point of `address`, if it holds one: the base to which an unshield
    /// call adds the collected value.
    pub fn shielded_balance(&self, address: &[u8; 20]) -> (r: Option<Point>)
        requires
            self.wf(),
        ensures
            r matches Some(p) ==> self@.accounts.contains_key(address@)
                && self@.accounts[address@] == Balance::Shielded(p),
            r is None ==> !(self@.accounts.contains_key(address@)
                && self@.accounts[address@] is Shielded),
    {
        match self.accounts.get(address) {
            Some(Balance::Shielded(p)) => Some(*p),
            _ => None,
        }
    }

    /// Whether `nullifier` has been spent.
    pub fn is_spent(&self, nullifier: &[u8; 32]) -> (r: bool)
        requires
            self.wf(),
        ensures
            r == self@.nullifiers.contains_key(nullifier@),
    {
        self.nullifiers.contains_key(nullifier)
    }

    /// Whether `coin` has been registered.
    pub fn is_committed(&self, coin: &[u8; 32]) -> (r: bool)
        requires
            self.wf(),
        ensures
            r == self@.commitments.contains_key(coin@),
    {
        self.commitments.contains_key(coin)
    }

    /// Applies a shield call of `sender`. `verified` is the proof system's verdict on
    /// the call, and `rest` is `hb - delt_ba` in the balance group. On success the
    /// sender's balance becomes `rest` and the coin is registered to the sender; on any
    /// failure nothing changes.
    pub fn send_remittance(
        &mut self,
        sender: [u8; 20],
        call: &Remittance,
        verified: bool,
        rest: Point,
    ) -> (r: Result<u64, PrivacyError>)
        requires
            old(self).wf(),
        ensures
            final(self).wf(),
            (final(self)@, r) == remit_step(old(self)@, sender, call.coin@, verified, rest),
    {
        if self.commitments.contains_key(&call.coin) {
            return Err(PrivacyError::DuplicateCommitment);
        }
        if !verified {
            return Err(PrivacyError::ProofVerificationFailed);
        }
        self.accounts.insert(sender, Balance::Shielded(rest));
        self.commitments.insert(call.coin, sender);
        Ok(OPERATION_COST)
    }

    /// Applies an unshield call of `sender`. `verified` is the proof system's verdict
    /// on the call, and `total` is the sender's balance point plus `delt_ba`. A spent
    /// nullifier is refused whatever the verdict. On success the sender's balance
    /// becomes `total` and the nullifier is recorded as spent by the sender; on any
    /// failure nothing changes.
    pub fn send_collection(
        &mut self,
        sender: [u8; 20],
        call: &Collection,
        verified: bool,
        total: Point,
    ) -> (r: Result<u64, PrivacyError>)
        requires
            old(self).wf(),
        ensures
            final(self).wf(),
            (final(self)@, r) == collect_step(old(self)@, sender, call.nullifier@, verified, total),
    {
        if self.nullifiers.contains_key(&call.nullifier) {
            return Err(PrivacyError::DoubleSpend);
        }
        if !verified {
            return Err(PrivacyError::ProofVerificationFailed);
        }
        self.accounts.insert(sender, Balance::Shielded(total));
        self.nullifiers.insert(call.nullifier, sender);
        Ok(OPERATION_COST)
    }
}

/// Once a nullifier has been spent, every later unshield call that presents it is
/// refused as a double spend, whoever sends it and whatever the proof system says,
/// and leaves the ledger as it was.
pub proof fn lemma_no_double_spend(
    s: LedgerState,
    first: [u8; 20],
    second: [u8; 20],
    nullifier: Seq<u8>,
    verified_first: bool,
    verified_second: bool,
    total_first: Point,
    total_second: Point,
)
    requires
        collect_step(s, first, nullifier, verified_first, total_first).1 is Ok,
    ensures
        ({
            let t = collect_step(s, first, nullifier, verified_first, total_first).0;
            collect_step(t, second, nullifier, verified_second, total_second) == (
                t,
                Err::<u64, PrivacyError>(PrivacyError::DoubleSpend),
            )
        }),
{
}

/// Coins and spends are only ever added: after any shield or unshield call, every
/// registered coin and every spent nullifier is still there, with the same owner.
pub proof fn lemma_append_only(
    s: LedgerState,
    sender: [u8; 20],
    id: Seq<u8>,
    verified: bool,
    p: Point,
)
    ensures
        ({
            let t = remit_step(s, sender, id, verified, p).0;
            &&& forall|k: Seq<u8>| #[trigger]
                s.commitments.contains_key(k) ==> t.commitments.contains_key(k)
                    && t.commitments[k] == s.commitments[k]
            &&& t.nullifiers == s.nullifiers
        }),
        ({
            let t = collect_step(s, sender, id, verified, p).0;
            &&& forall|k: Seq<u8>| #[trigger]
                s.nullifiers.contains_key(k) ==> t.nullifiers.contains_key(k)
                    && t.nullifiers[k] == s.nullifiers[k]
            &&& t.commitments == s.commitments
        }),
{
}

/// A shield call whose proof the proof system rejects leaves the accounts and the
/// registered coins as they were.
pub proof fn lemma_rejected_remittance_changes_nothing(
    s: LedgerState,
    sender: [u8; 20],
    coin: Seq<u8>,
    rest: Point,
)
    ensures
        remit_step(s, sender, coin, false, rest).0 == s,
        remit_step(s, sender, coin, false, rest).1 is Err,
{
}

} // verus!
