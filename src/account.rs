//! A participant of the ledger: key material, known shielded value and balance point.
use vstd::prelude::*;
use crate::commitment::Commitment;
use crate::entropy::{random_bits, random_bytes32};
use crate::error::PrivacyError;
use crate::point::Point;

verus! {

/// Length in bits of an address, a secret key and the blinding randomness.
pub const KEY_BITS: usize = 256;

/// One participant. The address is derived from the secret key by the pedersen hash;
/// `value` is the shielded value the account knows it holds, and `balance` the point
/// that commits to it.
#[derive(Clone, Debug, PartialEq, Eq)]
pub struct Account {
    addr: Vec<bool>,
    addr_sk: Vec<bool>,
    value: u128,
    balance: Point,
    rh: Vec<bool>,
}

impl Account {
    /// An account for secret key `sk` with address `addr` (the pedersen hash of
    /// `sk`), holding `value` under the balance point `balance`. The blinding
    /// randomness is drawn fresh.
    pub fn new(sk: Vec<bool>, addr: Vec<bool>, value: u128, balance: Point) -> (r: Account)
        ensures
            r.address() == addr@,
            r.secret_key() == sk@,
            r.value() == value,
            r.balance() == balance,
            r.blinding().len() == KEY_BITS,
    {
        let rh = random_bits(KEY_BITS);
        Account { addr, addr_sk: sk, value, balance, rh }
    }

    pub closed spec fn address(&self) -> Seq<bool> {
        self.addr@
    }

    pub closed spec fn secret_key(&self) -> Seq<bool> {
        self.addr_sk@
    }

    pub closed spec fn value(&self) -> u128 {
        self.value
    }

    pub closed spec fn balance(&self) -> Point {
        self.balance
    }

    pub closed spec fn blinding(&self) -> Seq<bool> {
        self.rh@
    }

    /// The account's address.
    pub fn get_address(&self) -> (r: &Vec<bool>)
        ensures
            r@ == self.address(),
    {
        &self.addr
    }

    /// The account's balance point.
    pub fn get_balance(&self) -> (r: Point)
        ensures
            r == self.balance(),
    {
        self.balance
    }

    /// The shielded value the account holds.
    pub fn get_value(&self) -> (r: u128)
        ensures
            r == self.value(),
    {
        self.value
    }

    /// The secret key, for the prover of unshield transfers only.
    pub fn get_secret_key(&self) -> (r: &Vec<bool>)
        ensures
            r@ == self.secret_key(),
    {
        &self.addr_sk
    }

    /// The blinding randomness used for new commitments.
    pub fn get_blinding(&self) -> (r: &Vec<bool>)
        ensures
            r@ == self.blinding(),
    {
        &self.rh
    }

    /// Credits `amount`; `balance` is the old balance point plus the point of
    /// `amount`. Fails, changing nothing, where the value would pass 128 bits.
    pub fn add_balance(&mut self, amount: u128, balance: Point) -> (r: Result<(), PrivacyError>)
        ensures
            old(self).value() + amount > u128::MAX ==> r == Err::<(), PrivacyError>(
                PrivacyError::BalanceOverflow,
            ) && *final(self) == *old(self),
            old(self).value() + amount <= u128::MAX ==> r is Ok && final(self).value() == old(
                self,
            ).value() + amount && final(self).balance() == balance && final(self).address()
                == old(self).address() && final(self).secret_key() == old(self).secret_key()
                && final(self).blinding() == old(self).blinding(),
    {
        match self.value.checked_add(amount) {
            None => Err(PrivacyError::BalanceOverflow),
            Some(v) => {
                self.value = v;
                self.balance = balance;
                Ok(())
            },
        }
    }

    /// Debits `amount`; `balance` is the old balance point minus the point of
    /// `amount`. Fails, changing nothing, where `amount` exceeds the value held.
    pub fn sub_balance(&mut self, amount: u128, balance: Point) -> (r: Result<(), PrivacyError>)
        ensures
            amount > old(self).value() ==> r == Err::<(), PrivacyError>(
                PrivacyError::BalanceUnderflow,
            ) && *final(self) == *old(self),
            amount <= old(self).value() ==> r is Ok && final(self).value() == old(self).value()
                - amount && final(self).balance() == balance && final(self).address() == old(
                self,
            ).address() && final(self).secret_key() == old(self).secret_key()
                && final(self).blinding() == old(self).blinding(),
    {
        if amount > self.value {
            return Err(PrivacyError::BalanceUnderflow);
        }
        self.value = self.value - amount;
        self.balance = balance;
        Ok(())
    }

    /// A record of a transfer of `value` to `receiver` with a fresh random salt, or
    /// `None` where the account holds less than `value`.
    pub fn commitment(&self, value: u128, receiver: [u8; 20]) -> (r: Option<Commitment>)
        ensures
            self.value() < value <==> r is None,
            r matches Some(c) ==> c.receiver == receiver && c.value == value,
    {
        if self.value < value {
            return None;
        }
        let rand = random_bytes32();
        Some(Commitment { receiver, value, rand })
    }
}

} // verus!
