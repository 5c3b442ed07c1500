//! The earliest form of the fly coin, generic in what an operation hands
//! back: a success holds one item, a failure the credit and the debit.
use vstd::prelude::*;
use crate::text::str_equal;

verus! {

pub enum Result<T> {
    SUCCESS { code: String, msg: String, item: T },
    FAIL { code: String, msg: String, credit: T, debit: T },
}

pub struct FlyCoin {
    pub amount: u64,
    pub currency: String,
    pub ownAccountId: String,
}

/// Whether `r` succeeded with `item`, code "SUCCESS" and message "Move coin to new account".
pub open spec fn is_success(r: Result<FlyCoin>, item: FlyCoin) -> bool {
    r matches Result::SUCCESS { code, msg, item: i } && code@ == "SUCCESS"@
        && msg@ == "Move coin to new account"@ && i == item
}

/// Whether `r` failed with code "FAIL", message `msg`, and the given coins.
pub open spec fn is_failure(r: Result<FlyCoin>, msg: Seq<char>, credit: FlyCoin, debit: FlyCoin) -> bool {
    r matches Result::FAIL { code, msg: m, credit: c, debit: d } && code@ == "FAIL"@ && m@ == msg
        && c == credit && d == debit
}

/// Whether two coins have one owner and one currency.
pub open spec fn same_kind(a: FlyCoin, b: FlyCoin) -> bool {
    a.ownAccountId@ == b.ownAccountId@ && a.currency@ == b.currency@
}

impl FlyCoin {
    pub fn create(amountNum: u64, currencyCode: String, ownAdId: String) -> (coin: FlyCoin)
        ensures
            coin == (FlyCoin { amount: amountNum, currency: currencyCode, ownAccountId: ownAdId }),
    {
        FlyCoin { amount: amountNum, currency: currencyCode, ownAccountId: ownAdId }
    }

    /// Moves the coin to `toAddress`; moving it to its own owner fails.
    pub fn moveTo(self, toAddress: String) -> (r: Result<FlyCoin>)
        ensures
            toAddress@ == self.ownAccountId@ ==> is_failure(
                r,
                "can move the coin to same account"@,
                self,
                FlyCoin { amount: 0, currency: self.currency, ownAccountId: toAddress },
            ),
            toAddress@ != self.ownAccountId@ ==> is_success(
                r,
                FlyCoin { amount: self.amount, currency: self.currency, ownAccountId: toAddress },
            ),
    {
        if str_equal(toAddress.as_str(), self.ownAccountId.as_str()) {
            let coin = FlyCoin { amount: 0, currency: self.currency.clone(), ownAccountId: toAddress };
            Result::FAIL {
                code: "FAIL".to_string(),
                msg: "can move the coin to same account".to_string(),
                credit: self,
                debit: coin,
            }
        } else {
            let coin = FlyCoin { amount: self.amount, currency: self.currency, ownAccountId: toAddress };
            Result::SUCCESS { code: "SUCCESS".to_string(), msg: "Move coin to new account".to_string(), item: coin }
        }
    }

    /// Joins two coins of one owner and currency into one coin of their total.
    pub fn add(self, anotherCoin: FlyCoin) -> (r: Result<FlyCoin>)
        requires
            same_kind(self, anotherCoin) ==> self.amount + anotherCoin.amount <= u64::MAX,
        ensures
            self.ownAccountId@ != anotherCoin.ownAccountId@ ==> is_failure(
                r, "can add the coin to not same account"@, self, anotherCoin),
            self.ownAccountId@ == anotherCoin.ownAccountId@ && self.currency@ != anotherCoin.currency@
                ==> is_failure(r, "can add the coin to not same currency"@, self, anotherCoin),
            same_kind(self, anotherCoin) ==> is_success(
                r,
                FlyCoin {
                    amount: (self.amount + anotherCoin.amount) as u64,
                    currency: self.currency,
                    ownAccountId: self.ownAccountId,
                },
            ),
    {
        if !str_equal(self.ownAccountId.as_str(), anotherCoin.ownAccountId.as_str()) {
            return Result::FAIL {
                code: "FAIL".to_string(),
                msg: "can add the coin to not same account".to_string(),
                credit: self,
                debit: anotherCoin,
            };
        }
        if !str_equal(self.currency.as_str(), anotherCoin.currency.as_str()) {
            return Result::FAIL {
                code: "FAIL".to_string(),
                msg: "can add the coin to not same currency".to_string(),
                credit: self,
                debit: anotherCoin,
            };
        }
        let coin = FlyCoin {
            amount: self.amount + anotherCoin.amount,
            currency: self.currency,
            ownAccountId: self.ownAccountId,
        };
        Result::SUCCESS { code: "SUCCESS".to_string(), msg: "Move coin to new account".to_string(), item: coin }
    }

    /// Takes the amount of `anotherCoin` out of this coin, for coins of one
    /// owner and currency where this coin holds enough.
    pub fn sub(self, anotherCoin: FlyCoin) -> (r: Result<FlyCoin>)
        ensures
            self.ownAccountId@ != anotherCoin.ownAccountId@ ==> is_failure(
                r, "can sub the coin to not same account"@, self, anotherCoin),
            self.ownAccountId@ == anotherCoin.ownAccountId@ && self.currency@ != anotherCoin.currency@
                ==> is_failure(r, "can sub the coin to not same currency"@, self, anotherCoin),
            same_kind(self, anotherCoin) && self.amount < anotherCoin.amount ==> is_failure(
                r, "can sub the coin less than"@, self, anotherCoin),
            same_kind(self, anotherCoin) && self.amount >= anotherCoin.amount ==> is_success(
                r,
                FlyCoin {
                    amount: (self.amount - anotherCoin.amount) as u64,
                    currency: self.currency,
                    ownAccountId: self.ownAccountId,
                },
            ),
    {
        if !str_equal(self.ownAccountId.as_str(), anotherCoin.ownAccountId.as_str()) {
            return Result::FAIL {
                code: "FAIL".to_string(),
                msg: "can sub the coin to not same account".to_string(),
                credit: self,
                debit: anotherCoin,
            };
        }
        if !str_equal(self.currency.as_str(), anotherCoin.currency.as_str()) {
            return Result::FAIL {
                code: "FAIL".to_string(),
                msg: "can sub the coin to not same currency".to_string(),
                credit: self,
                debit: anotherCoin,
            };
        }
        if self.amount < anotherCoin.amount {
            return Result::FAIL {
                code: "FAIL".to_string(),
                msg: "can sub the coin less than".to_string(),
                credit: self,
                debit: anotherCoin,
            };
        }
        let coin = FlyCoin {
            amount: self.amount - anotherCoin.amount,
            currency: self.currency,
            ownAccountId: self.ownAccountId,
        };
        Result::SUCCESS { code: "SUCCESS".to_string(), msg: "Move coin to new account".to_string(), item: coin }
    }
}

} // verus!
