//! The first form of the fly coin: an operation answers with a code and a
//! message, and with the coins it produced or, on failure, the coins it was
//! given (credit) and the coin it would have produced (debit).
use vstd::prelude::*;
use crate::text::str_equal;

verus! {

pub struct FlyCoin {
    pub amount: u64,
    pub currency: String,
    pub ownAccountId: String,
}

pub enum Result {
    SUCCESS { code: String, msg: String, item: FlyCoin },
    SUCCESS_BOTH { code: String, msg: String, credit: FlyCoin, debit: FlyCoin },
    FAIL { code: String, msg: String, credit: FlyCoin, debit: FlyCoin },
}

/// Whether `r` succeeded with `item`, code "SUCCESS" and message `msg`.
pub open spec fn is_success(r: Result, item: FlyCoin, msg: Seq<char>) -> bool {
    r matches Result::SUCCESS { code, msg: m, item: i } && code@ == "SUCCESS"@ && m@ == msg && i == item
}

/// Whether `r` failed with code "FAIL", message `msg`, and the given coins.
pub open spec fn is_failure(r: Result, msg: Seq<char>, credit: FlyCoin, debit: FlyCoin) -> bool {
    r matches Result::FAIL { code, msg: m, credit: c, debit: d } && code@ == "FAIL"@ && m@ == msg
        && c == credit && d == debit
}

impl FlyCoin {
    pub fn create(amountNum: u64, currencyCode: String, ownAdId: String) -> (coin: FlyCoin)
        ensures
            coin == (FlyCoin { amount: amountNum, currency: currencyCode, ownAccountId: ownAdId }),
    {
        FlyCoin { amount: amountNum, currency: currencyCode, ownAccountId: ownAdId }
    }

    /// Moves the coin to `toAddress`; moving it to its own owner fails, with
    /// the coin as credit and an empty coin for the address as debit.
    pub fn moveTo(self, toAddress: String) -> (r: Result)
        ensures
            toAddress@ == self.ownAccountId@ ==> is_failure(
                r,
                "can move the coin to same account"@,
                self,
                FlyCoin { amount: 0, currency: self.currency, ownAccountId: toAddress },
            ),
            toAddress@ != self.ownAccountId@ ==> is_success(
                r,
                FlyCoin { amount: self.amount, currency: self.currency, ownAccountId: toAddress },
                "Move coin to new account"@,
            ),
    {
        if str_equal(toAddress.as_str(), self.ownAccountId.as_str()) {
            let coin = FlyCoin { amount: 0, currency: self.currency.clone(), ownAccountId: toAddress };
            Result::FAIL {
                code: "FAIL".to_string(),
                msg: "can move the coin to same account".to_string(),
                credit: self,
                debit: coin,
            }
        } else {
            let coin = FlyCoin { amount: self.amount, currency: self.currency, ownAccountId: toAddress };
            Result::SUCCESS {
                code: "SUCCESS".to_string(),
                msg: "Move coin to new account".to_string(),
                item: coin,
            }
        }
    }

    /// Joins two coins of one owner and currency into a new coin of their
    /// total amount; other coins are handed back as credit and debit.
    pub fn add(self, anotherCoin: FlyCoin) -> (r: Result)
        requires
            self.ownAccountId@ == anotherCoin.ownAccountId@ && self.currency@ == anotherCoin.currency@
                ==> self.amount + anotherCoin.amount <= u64::MAX,
        ensures
            self.ownAccountId@ != anotherCoin.ownAccountId@ ==> is_failure(
                r, "can add the coin to not same account"@, self, anotherCoin),
            self.ownAccountId@ == anotherCoin.ownAccountId@ && self.currency@ != anotherCoin.currency@
                ==> is_failure(r, "can add the coin to not same currency"@, self, anotherCoin),
            self.ownAccountId@ == anotherCoin.ownAccountId@ && self.currency@ == anotherCoin.currency@
                ==> is_success(
                r,
                FlyCoin {
                    amount: (self.amount + anotherCoin.amount) as u64,
                    currency: self.currency,
                    ownAccountId: self.ownAccountId,
                },
                "Move coin to new account"@,
            ),
    {
        if !str_equal(self.ownAccountId.as_str(), anotherCoin.ownAccountId.as_str()) {
            return Result::FAIL {
                code: "FAIL".to_string(),
                msg: "can add the coin to not same account".to_string(),
                credit: self,
                debit: anotherCoin,
            };
        }
        if !str_equal(self.currency.as_str(), anotherCoin.currency.as_str()) {
            return Result::FAIL {
                code: "FAIL".to_string(),
                msg: "can add the coin to not same currency".to_string(),
                credit: self,
                debit: anotherCoin,
            };
        }
        let coin = FlyCoin {
            amount: self.amount + anotherCoin.amount,
            currency: self.currency,
            ownAccountId: self.ownAccountId,
        };
        Result::SUCCESS { code: "SUCCESS".to_string(), msg: "Move coin to new account".to_string(), item: coin }
    }

    /// Pays `subAmount` of the coin to `toAddress`: the payment is the credit
    /// and the rest, still the owner's, the debit. A coin holding less fails,
    /// with the coin as credit and an empty coin for the address as debit.
    pub fn sub(self, subAmount: u64, toAddress: &String) -> (r: Result)
        ensures
            self.amount < subAmount ==> is_failure(
                r,
                "can sub the coin less than"@,
                self,
                FlyCoin { amount: 0, currency: self.currency, ownAccountId: *toAddress },
            ),
            self.amount >= subAmount ==> (r matches Result::SUCCESS_BOTH { code, msg, credit, debit }
                && code@ == "SUCCESS"@ && msg@ == "Move coin to new account"@
                && credit == (FlyCoin { amount: subAmount, currency: self.currency, ownAccountId: *toAddress })
                && debit == (FlyCoin {
                    amount: (self.amount - subAmount) as u64,
                    currency: self.currency,
                    ownAccountId: self.ownAccountId,
                })),
    {
        if self.amount < subAmount {
            let coin = FlyCoin { amount: 0, currency: self.currency.clone(), ownAccountId: toAddress.clone() };
            return Result::FAIL {
                code: "FAIL".to_string(),
                msg: "can sub the coin less than".to_string(),
                credit: self,
                debit: coin,
            };
        }
        let coin_b = FlyCoin { amount: subAmount, currency: self.currency.clone(), ownAccountId: toAddress.clone() };
        let coin_a = FlyCoin {
            amount: self.amount - subAmount,
            currency: self.currency,
            ownAccountId: self.ownAccountId,
        };
        Result::SUCCESS_BOTH {
            code: "SUCCESS".to_string(),
            msg: "Move coin to new account".to_string(),
            credit: coin_b,
            debit: coin_a,
        }
    }
}

} // verus!
