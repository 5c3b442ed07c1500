//! An account of the fly ledger: coins of its owner are deposited into its
//! balance, and amounts leave it by withdrawal or transfer. Every change
//! counts in the account's sequence number.
use vstd::prelude::*;
use crate::fly_coin::FlyCoin;
use crate::text::str_equal;

verus! {

pub const ADDRESS_LENGTH: usize = 32;

/// An account as the contracts speak of it.
pub struct AccountView {
    pub own_id: Seq<char>,
    pub address: Seq<u8>,
    pub sequence_num: u64,
    pub balance: u64,
    pub reserve_balance: u64,
    pub frozen_balance: u64,
}

pub struct FlyAccount {
    own_id: String,
    address: [u8; ADDRESS_LENGTH],
    sequence_num: u64,
    balance: u64,
    reserve_balance: u64,
    frozen_balance: u64,
}

impl View for FlyAccount {
    type V = AccountView;

    closed spec fn view(&self) -> AccountView {
        AccountView {
            own_id: self.own_id@,
            address: self.address@,
            sequence_num: self.sequence_num,
            balance: self.balance,
            reserve_balance: self.reserve_balance,
            frozen_balance: self.frozen_balance,
        }
    }
}

/// The account after one more change with the given balance.
pub open spec fn changed(a: AccountView, balance: u64) -> AccountView {
    AccountView { balance, sequence_num: (a.sequence_num + 1) as u64, ..a }
}

impl FlyAccount {
    /// An empty account at address `ads` owned by `ownId`.
    pub fn new(ads: [u8; ADDRESS_LENGTH], ownId: String) -> (account: FlyAccount)
        ensures
            account@ == (AccountView {
                own_id: ownId@,
                address: ads@,
                sequence_num: 0,
                balance: 0,
                reserve_balance: 0,
                frozen_balance: 0,
            }),
    {
        FlyAccount {
            address: ads,
            sequence_num: 0,
            balance: 0,
            reserve_balance: 0,
            frozen_balance: 0,
            own_id: ownId,
        }
    }

    pub fn get_balance(&self) -> (balance: u64)
        ensures
            balance == self@.balance,
    {
        self.balance
    }

    pub fn get_sequence_num(&self) -> (n: u64)
        ensures
            n == self@.sequence_num,
    {
        self.sequence_num
    }

    /// Deposits a coin of the account's owner: its amount joins the balance.
    /// A coin of another owner is refused (and spent).
    pub fn deposit(self, coin: FlyCoin) -> (r: core::result::Result<FlyAccount, &'static str>)
        requires
            coin@.owner == self@.own_id ==> self@.balance + coin@.amount <= u64::MAX
                && self@.sequence_num < u64::MAX,
        ensures
            coin@.owner != self@.own_id ==> (r matches Err(msg) && msg@ == "not your coin, can not deposit"@),
            coin@.owner == self@.own_id ==> (r matches Ok(a)
                && a@ == changed(self@, (self@.balance + coin@.amount) as u64)),
    {
        let mut this = self;
        if !str_equal(this.own_id.as_str(), coin.get_ownId()) {
            return Err("not your coin, can not deposit");
        }
        this.balance = this.balance + coin.get_amount();
        this.sequence_num = this.sequence_num + 1;
        Ok(this)
    }

    /// Withdraws `amount` from the balance; a larger amount than the balance is refused.
    pub fn withdraw(self, amount: u64) -> (r: core::result::Result<FlyAccount, &'static str>)
        requires
            self@.balance >= amount ==> self@.sequence_num < u64::MAX,
        ensures
            self@.balance < amount ==> (r matches Err(msg) && msg@ == "balance not enough, can not withdraw"@),
            self@.balance >= amount ==> (r matches Ok(a) && a@ == changed(self@, (self@.balance - amount) as u64)),
    {
        let mut this = self;
        if this.balance < amount {
            return Err("balance not enough, can not withdraw");
        }
        this.sequence_num = this.sequence_num + 1;
        this.balance = this.balance - amount;
        Ok(this)
    }

    /// Transfers `amount` from this account to `accountB`; a larger amount
    /// than the balance is refused.
    pub fn transfer(self, accountB: FlyAccount, amount: u64) -> (r: core::result::Result<(FlyAccount, FlyAccount), &'static str>)
        requires
            self@.balance >= amount ==> self@.sequence_num < u64::MAX && accountB@.sequence_num < u64::MAX
                && accountB@.balance + amount <= u64::MAX,
        ensures
            self@.balance < amount ==> (r matches Err(msg) && msg@ == "balance not enough, can not transfer"@),
            self@.balance >= amount ==> (r matches Ok(pair)
                && pair.0@ == changed(self@, (self@.balance - amount) as u64)
                && pair.1@ == changed(accountB@, (accountB@.balance + amount) as u64)),
    {
        let mut this = self;
        let mut other = accountB;
        if this.balance < amount {
            return Err("balance not enough, can not transfer");
        }
        this.sequence_num = this.sequence_num + 1;
        this.balance = this.balance - amount;
        other.sequence_num = other.sequence_num + 1;
        other.balance = other.balance + amount;
        Ok((this, other))
    }

    /// Reserving is not implemented: the account is handed back unchanged.
    pub fn reserve(self, accountB: u64) -> (r: core::result::Result<FlyAccount, FlyAccount>)
        ensures
            r matches Ok(a) && a@ == self@,
    {
        Ok(self)
    }

    /// The account's address as text is not implemented: a fixed placeholder.
    pub fn account_address(&self) -> (text: &str)
        ensures
            text@ == "not finish"@,
    {
        "not finish"
    }
}

} // verus!

verus! {

/// A transfer moves the amount from one balance to the other: the sum of
/// the two balances stays, and each account counts one more change.
pub proof fn law_transfer_keeps_total(a: AccountView, b: AccountView, amount: u64)
    requires
        a.balance >= amount,
        b.balance + amount <= u64::MAX,
        a.sequence_num < u64::MAX,
        b.sequence_num < u64::MAX,
    ensures
        changed(a, (a.balance - amount) as u64).balance + changed(b, (b.balance + amount) as u64).balance
            == a.balance + b.balance,
        changed(a, (a.balance - amount) as u64).sequence_num == a.sequence_num + 1,
        changed(b, (b.balance + amount) as u64).sequence_num == b.sequence_num + 1,
{
}

/// Withdrawing the amount of a deposit gives back the balance from before
/// the deposit, after two changes.
pub proof fn law_withdraw_undoes_deposit(a: AccountView, amount: u64)
    requires
        a.balance + amount <= u64::MAX,
        a.sequence_num + 2 <= u64::MAX,
    ensures
        ({
            let after = changed(a, (a.balance + amount) as u64);
            &&& after.balance >= amount
            &&& changed(after, (after.balance - amount) as u64) == (AccountView {
                sequence_num: (a.sequence_num + 2) as u64,
                ..a
            })
        }),
{
}

} // verus!
