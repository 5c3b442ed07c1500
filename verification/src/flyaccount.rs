//! The first form of the fly account: deposits and withdrawals answer with a
//! code and a message, and a withdrawal hands out a coin.
use vstd::prelude::*;
use crate::flycoin::FlyCoin;

verus! {

pub enum Result {
    SUCCESS { code: String, msg: String },
    SUCCESS_WITHDRAW { code: String, msg: String, coin: FlyCoin },
    FAIL { code: String, msg: String },
}

pub struct FlyAccount {
    pub balance: u64,
    pub available_balance: u64,
    pub frozen_balance: u64,
    pub currency: String,
    pub ownAccount_id: String,
}

impl FlyAccount {
    /// An empty account in "CNY" owned by `owdAddress`.
    pub fn create(owdAddress: &String) -> (account: FlyAccount)
        ensures
            account.balance == 0,
            account.available_balance == 0,
            account.frozen_balance == 0,
            account.currency@ == "CNY"@,
            account.ownAccount_id == *owdAddress,
    {
        FlyAccount {
            balance: 0,
            available_balance: 0,
            frozen_balance: 0,
            currency: "CNY".to_string(),
            ownAccount_id: owdAddress.clone(),
        }
    }

    /// Adds the coin's amount to the balance.
    pub fn deposit(&mut self, coin: FlyCoin) -> (r: Result)
        requires
            old(self).balance + coin.amount <= u64::MAX,
        ensures
            *final(self) == (FlyAccount { balance: (old(self).balance + coin.amount) as u64, ..*old(self) }),
            r matches Result::SUCCESS { code, msg } && code@ == "SUCCESS"@ && msg@ == "Move coin to new account"@,
    {
        self.balance = self.balance + coin.amount;
        Result::SUCCESS { code: "SUCCESS".to_string(), msg: "Move coin to new account".to_string() }
    }

    /// Withdraws a coin of `withdraw_amout` if the available balance covers
    /// it; the balance is then set to the available plus the frozen balance.
    pub fn withdrawal(&mut self, withdraw_amout: u64) -> (r: Result)
        requires
            old(self).available_balance >= withdraw_amout
                ==> old(self).available_balance + old(self).frozen_balance <= u64::MAX,
        ensures
            old(self).available_balance < withdraw_amout ==> *final(self) == *old(self)
                && (r matches Result::FAIL { code, msg } && code@ == "FAIL"@
                && msg@ == "acount available balance not enough"@),
            old(self).available_balance >= withdraw_amout ==> *final(self) == (FlyAccount {
                balance: (old(self).available_balance + old(self).frozen_balance) as u64,
                ..*old(self)
            }) && (r matches Result::SUCCESS_WITHDRAW { code, msg, coin } && code@ == "SUCCESS"@
                && msg@ == "Move coin to new account"@
                && coin == (FlyCoin {
                    amount: withdraw_amout,
                    currency: old(self).currency,
                    ownAccountId: old(self).ownAccount_id,
                })),
    {
        if self.available_balance < withdraw_amout {
            return Result::FAIL {
                code: "FAIL".to_string(),
                msg: "acount available balance not enough".to_string(),
            };
        }
        self.balance = self.available_balance - withdraw_amout;
        self.balance = self.available_balance + self.frozen_balance;
        let coin_a = FlyCoin {
            amount: withdraw_amout,
            currency: self.currency.clone(),
            ownAccountId: self.ownAccount_id.clone(),
        };
        Result::SUCCESS_WITHDRAW {
            code: "SUCCESS".to_string(),
            msg: "Move coin to new account".to_string(),
            coin: coin_a,
        }
    }
}

} // verus!
