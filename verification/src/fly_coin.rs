//! A coin of the fly ledger: an amount of a currency owned by an account.
//! Coins are values that move: moving, joining and splitting hand the coins
//! back, and no operation creates or destroys any amount.
use vstd::prelude::*;
use crate::fly_result::{Error, Result};
use crate::text::str_equal;

verus! {

/// A coin as the contracts speak of it.
pub struct CoinView {
    pub amount: u64,
    pub currency: Seq<char>,
    pub owner: Seq<char>,
}

pub struct FlyCoin {
    amount: u64,
    currency: String,
    ownId: String,
}

impl View for FlyCoin {
    type V = CoinView;

    closed spec fn view(&self) -> CoinView {
        CoinView { amount: self.amount, currency: self.currency@, owner: self.ownId@ }
    }
}

/// Whether a failure carries the code "FAIL" and the given message.
pub open spec fn is_failure<T>(r: Result<T>, msg: Seq<char>) -> bool {
    r matches Result::FAIL { error, .. } && error.code@ == "FAIL"@ && error.msg@ == msg
}

/// Whether two coins can be joined: the same owner and the same currency.
pub open spec fn can_join(a: CoinView, b: CoinView) -> bool {
    a.owner == b.owner && a.currency == b.currency
}

/// Two coins after a join: the first holds both amounts, the second none.
pub open spec fn joined(a: CoinView, b: CoinView) -> (CoinView, CoinView) {
    (CoinView { amount: (a.amount + b.amount) as u64, ..a }, CoinView { amount: 0, ..b })
}

/// A coin after `amount` is split off it: the rest, and the part split off.
pub open spec fn split(c: CoinView, amount: u64) -> (CoinView, CoinView) {
    (CoinView { amount: (c.amount - amount) as u64, ..c }, CoinView { amount, ..c })
}

impl FlyCoin {
    pub fn get_amount(&self) -> (amount: u64)
        ensures
            amount == self@.amount,
    {
        self.amount
    }

    pub fn get_currency(&self) -> (currency: &str)
        ensures
            currency@ == self@.currency,
    {
        self.currency.as_str()
    }

    pub fn get_ownId(&self) -> (owner: &str)
        ensures
            owner@ == self@.owner,
    {
        self.ownId.as_str()
    }

    /// A coin of `amountNum` in `currencyCode` owned by `ownAdId`.
    pub fn create(amountNum: u64, currencyCode: String, ownAdId: String) -> (coin: FlyCoin)
        ensures
            coin@ == (CoinView { amount: amountNum, currency: currencyCode@, owner: ownAdId@ }),
    {
        FlyCoin { amount: amountNum, currency: currencyCode, ownId: ownAdId }
    }

    /// Gives the coin to `toAddress`. Giving a coin to its own owner fails
    /// and hands the coin back unchanged.
    pub fn moveTo(self, toAddress: String) -> (r: Result<FlyCoin>)
        ensures
            toAddress@ == self@.owner ==> is_failure(r, "can not give coin to self"@) && r.spec_item()@ == self@,
            toAddress@ != self@.owner ==> r is SUCCESS
                && r.spec_item()@ == (CoinView { owner: toAddress@, ..self@ }),
    {
        if str_equal(toAddress.as_str(), self.ownId.as_str()) {
            Result::FAIL { error: Error::new("FAIL", "can not give coin to self"), item: self }
        } else {
            let coin = FlyCoin { amount: self.amount, currency: self.currency, ownId: toAddress };
            Result::SUCCESS { item: coin }
        }
    }

    /// Joins `anotherCoin` into this coin: this coin takes the whole amount
    /// and the other is left empty. Coins of different owners or currencies
    /// are handed back unchanged.
    pub fn add(self, anotherCoin: FlyCoin) -> (r: Result<(FlyCoin, FlyCoin)>)
        requires
            can_join(self@, anotherCoin@) ==> self@.amount + anotherCoin@.amount <= u64::MAX,
        ensures
            self@.owner != anotherCoin@.owner ==> is_failure(r, "can add the coin to not same account"@)
                && r.spec_item().0@ == self@ && r.spec_item().1@ == anotherCoin@,
            self@.owner == anotherCoin@.owner && self@.currency != anotherCoin@.currency
                ==> is_failure(r, "can add the coin to not same currency"@)
                && r.spec_item().0@ == self@ && r.spec_item().1@ == anotherCoin@,
            can_join(self@, anotherCoin@) ==> r is SUCCESS
                && (r.spec_item().0@, r.spec_item().1@) == joined(self@, anotherCoin@),
    {
        let mut this = self;
        let mut other = anotherCoin;
        if !str_equal(this.ownId.as_str(), other.ownId.as_str()) {
            return Result::FAIL {
                error: Error::new("FAIL", "can add the coin to not same account"),
                item: (this, other),
            };
        }
        if !str_equal(this.currency.as_str(), other.currency.as_str()) {
            return Result::FAIL {
                error: Error::new("FAIL", "can add the coin to not same currency"),
                item: (this, other),
            };
        }
        this.amount = this.amount + other.amount;
        other.amount = 0;
        Result::SUCCESS { item: (this, other) }
    }

    /// Splits `subAmount` off this coin into a new coin of the same owner and
    /// currency. If the coin holds less, it is handed back with an empty coin.
    pub fn sub(self, subAmount: u64) -> (r: Result<(FlyCoin, FlyCoin)>)
        ensures
            self@.amount < subAmount ==> is_failure(r, "can sub the coin less than"@)
                && r.spec_item().0@ == self@ && r.spec_item().1@ == (CoinView { amount: 0, ..self@ }),
            self@.amount >= subAmount ==> r is SUCCESS
                && (r.spec_item().0@, r.spec_item().1@) == split(self@, subAmount),
    {
        let mut this = self;
        if this.amount < subAmount {
            let another_coin = FlyCoin { amount: 0, currency: this.currency.clone(), ownId: this.ownId.clone() };
            return Result::FAIL { error: Error::new("FAIL", "can sub the coin less than"), item: (this, another_coin) };
        }
        this.amount = this.amount - subAmount;
        let another_coin = FlyCoin { amount: subAmount, currency: this.currency.clone(), ownId: this.ownId.clone() };
        Result::SUCCESS { item: (this, another_coin) }
    }
}

} // verus!

verus! {

/// Joining the two coins that a split gives back gives the coin that was
/// split, beside an empty coin: no amount is made or lost.
pub proof fn law_join_undoes_split(c: CoinView, amount: u64)
    requires
        amount <= c.amount,
    ensures
        can_join(split(c, amount).0, split(c, amount).1),
        split(c, amount).0.amount + split(c, amount).1.amount <= u64::MAX,
        joined(split(c, amount).0, split(c, amount).1).0 == c,
        joined(split(c, amount).0, split(c, amount).1).1.amount == 0,
{
}

/// A join keeps the total amount of the two coins.
pub proof fn law_join_keeps_total(a: CoinView, b: CoinView)
    requires
        a.amount + b.amount <= u64::MAX,
    ensures
        joined(a, b).0.amount + joined(a, b).1.amount == a.amount + b.amount,
{
}

} // verus!
