use rand::rngs::OsRng;
use rand::Rng;
use rust_demo::basic_coin;
use rust_demo::fly_account::FlyAccount;
use rust_demo::fly_coin::FlyCoin;
use rust_demo::fly_result;
use rust_demo::flyaccount;
use rust_demo::flycoin;

#[test]
fn flycoin_test_lfy() {
    let coin_a = flycoin::FlyCoin::create(100, String::from("CNY"), String::from("address_A"));
    let move_result = coin_a.moveTo(String::from("address_B"));
    let coin_b = match move_result {
        flycoin::Result::SUCCESS { item, .. } => item,
        flycoin::Result::SUCCESS_BOTH { credit, .. } => credit,
        flycoin::Result::FAIL { credit, .. } => credit,
    };
    assert_eq!(coin_b.amount, 100);
    assert_eq!(coin_b.ownAccountId, "address_B");

    let coin_c = flycoin::FlyCoin::create(50, String::from("CNY"), String::from("address_B"));
    let add_result = coin_b.add(coin_c);
    let coin_d = match add_result {
        flycoin::Result::SUCCESS { item, .. } => item,
        flycoin::Result::SUCCESS_BOTH { credit, .. } => credit,
        flycoin::Result::FAIL { credit, .. } => credit,
    };
    assert_eq!(coin_d.amount, 150);
}

#[test]
fn fly_coin_test_lfy() {
    let coin_a = FlyCoin::create(100, String::from("CNY"), String::from("address_A"));
    let move_result = coin_a.moveTo(String::from("address_B"));
    let coin_b = move_result.unwrap();
    assert_eq!(coin_b.get_ownId(), "address_B");

    let coin_c = FlyCoin::create(50, String::from("CNY"), String::from("address_B"));
    let add_result = coin_b.add(coin_c);
    let (coin_b, coin_c) = add_result.unwrap();
    assert_eq!(coin_b.get_amount(), 150);
    assert_eq!(coin_c.get_amount(), 0);
}

#[test]
fn lib_it_works() {
    assert_eq!(2 + 2, 4);
}

#[test]
fn test_flycoin_it_works() {
    let coin1 = basic_coin::FlyCoin::create(100, String::from("CNY"), String::from("address_A"));
    let coin2 = match coin1.moveTo(String::from("address_B")) {
        basic_coin::Result::SUCCESS { item, .. } => item,
        basic_coin::Result::FAIL { credit, .. } => credit,
    };
    let coin3 = basic_coin::FlyCoin::create(50, String::from("CNY"), String::from("address_B"));
    let coin4 = match coin2.add(coin3) {
        basic_coin::Result::SUCCESS { item, .. } => item,
        basic_coin::Result::FAIL { credit, .. } => credit,
    };
    assert_eq!(coin4.amount, 150);
    assert_eq!(coin4.ownAccountId, "address_B");
}

#[test]
fn test_account_base() {
    let mut rng = OsRng::new().expect("can't access OsRng");
    let buf: [u8; 32] = rng.gen();
    let account_bob = FlyAccount::new(buf, String::from("Bob"));
    let buf2: [u8; 32] = rng.gen();
    let account_alan = FlyAccount::new(buf2, String::from("Alan"));

    let coin_bob = FlyCoin::create(101, String::from("CNY"), String::from("Bob"));
    let coin_alan = FlyCoin::create(202, String::from("CNY"), String::from("Alan"));

    let account_bob = account_bob.deposit(coin_bob).unwrap();
    let account_alan = account_alan.deposit(coin_alan).unwrap();

    assert_eq!(account_alan.get_balance(), 202);
    assert_eq!(account_bob.get_balance(), 101);
    assert_eq!(account_alan.get_sequence_num(), 1);
    assert_eq!(account_bob.get_sequence_num(), 1);

    let (account_alan, account_bob) = account_alan.transfer(account_bob, 50).unwrap();

    assert_eq!(account_alan.get_balance(), 152);
    assert_eq!(account_bob.get_balance(), 151);
    assert_eq!(account_alan.get_sequence_num(), 2);
    assert_eq!(account_bob.get_sequence_num(), 2);
}

#[test]
fn flycoin_move_to_own_owner_fails() {
    let coin = flycoin::FlyCoin::create(7, String::from("CNY"), String::from("a"));
    match coin.moveTo(String::from("a")) {
        flycoin::Result::FAIL { code, msg, credit, debit } => {
            assert_eq!(code, "FAIL");
            assert_eq!(msg, "can move the coin to same account");
            assert_eq!(credit.amount, 7);
            assert_eq!(debit.amount, 0);
            assert_eq!(debit.ownAccountId, "a");
        }
        _ => panic!("moving a coin to its owner must fail"),
    }
}

#[test]
fn flycoin_add_refuses_other_owner_and_currency() {
    let a = flycoin::FlyCoin::create(1, String::from("CNY"), String::from("a"));
    let b = flycoin::FlyCoin::create(2, String::from("CNY"), String::from("b"));
    match a.add(b) {
        flycoin::Result::FAIL { msg, credit, debit, .. } => {
            assert_eq!(msg, "can add the coin to not same account");
            assert_eq!(credit.amount + debit.amount, 3);
        }
        _ => panic!("coins of two owners must not join"),
    }
    let a = flycoin::FlyCoin::create(1, String::from("CNY"), String::from("a"));
    let b = flycoin::FlyCoin::create(2, String::from("USD"), String::from("a"));
    match a.add(b) {
        flycoin::Result::FAIL { msg, .. } => assert_eq!(msg, "can add the coin to not same currency"),
        _ => panic!("coins of two currencies must not join"),
    }
}

#[test]
fn flycoin_sub_splits_and_refuses_too_much() {
    let coin = flycoin::FlyCoin::create(100, String::from("CNY"), String::from("a"));
    let to = String::from("b");
    match coin.sub(30, &to) {
        flycoin::Result::SUCCESS_BOTH { code, credit, debit, .. } => {
            assert_eq!(code, "SUCCESS");
            assert_eq!(credit.amount, 30);
            assert_eq!(credit.ownAccountId, "b");
            assert_eq!(debit.amount, 70);
            assert_eq!(debit.ownAccountId, "a");
        }
        _ => panic!("a coin of 100 pays 30"),
    }
    let coin = flycoin::FlyCoin::create(10, String::from("CNY"), String::from("a"));
    match coin.sub(30, &to) {
        flycoin::Result::FAIL { msg, credit, debit, .. } => {
            assert_eq!(msg, "can sub the coin less than");
            assert_eq!(credit.amount, 10);
            assert_eq!(debit.amount, 0);
        }
        _ => panic!("a coin of 10 does not pay 30"),
    }
}

#[test]
fn fly_coin_refusals_hand_coins_back() {
    let coin = FlyCoin::create(5, String::from("CNY"), String::from("a"));
    match coin.moveTo(String::from("a")) {
        fly_result::Result::FAIL { error, item } => {
            assert_eq!(error.code, "FAIL");
            assert_eq!(error.msg, "can not give coin to self");
            assert_eq!(item.get_amount(), 5);
        }
        _ => panic!("giving a coin to its owner must fail"),
    }
    let a = FlyCoin::create(5, String::from("CNY"), String::from("a"));
    let b = FlyCoin::create(6, String::from("CNY"), String::from("b"));
    match a.add(b) {
        fly_result::Result::FAIL { error, item } => {
            assert_eq!(error.msg, "can add the coin to not same account");
            assert_eq!(item.0.get_amount(), 5);
            assert_eq!(item.1.get_amount(), 6);
        }
        _ => panic!("coins of two owners must not join"),
    }
    let a = FlyCoin::create(5, String::from("CNY"), String::from("a"));
    let b = FlyCoin::create(6, String::from("USD"), String::from("a"));
    match a.add(b) {
        fly_result::Result::FAIL { error, .. } => assert_eq!(error.msg, "can add the coin to not same currency"),
        _ => panic!("coins of two currencies must not join"),
    }
}

#[test]
fn fly_coin_sub_keeps_the_total() {
    let coin = FlyCoin::create(80, String::from("CNY"), String::from("a"));
    let (rest, part) = coin.sub(30).unwrap();
    assert_eq!(rest.get_amount(), 50);
    assert_eq!(part.get_amount(), 30);
    assert_eq!(part.get_ownId(), "a");
    assert_eq!(part.get_currency(), "CNY");
    let coin = FlyCoin::create(10, String::from("CNY"), String::from("a"));
    match coin.sub(30) {
        fly_result::Result::FAIL { error, item } => {
            assert_eq!(error.msg, "can sub the coin less than");
            assert_eq!(item.0.get_amount(), 10);
            assert_eq!(item.1.get_amount(), 0);
        }
        _ => panic!("a coin of 10 does not give 30"),
    }
}

#[test]
fn fly_result_error_and_unwrap() {
    let e = fly_result::Error::new("E1", "broken");
    assert_eq!(e.code, "E1");
    assert_eq!(e.msg, "broken");
    let r: fly_result::Result<u32> = fly_result::Result::FAIL { error: e, item: 9 };
    assert_eq!(r.unwrap(), 9);
}

#[test]
fn fly_account_refusals() {
    let account = FlyAccount::new([0u8; 32], String::from("Bob"));
    let coin = FlyCoin::create(10, String::from("CNY"), String::from("Alan"));
    match account.deposit(coin) {
        Err(msg) => assert_eq!(msg, "not your coin, can not deposit"),
        Ok(_) => panic!("a coin of another owner must be refused"),
    }
    let account = FlyAccount::new([0u8; 32], String::from("Bob"));
    match account.withdraw(1) {
        Err(msg) => assert_eq!(msg, "balance not enough, can not withdraw"),
        Ok(_) => panic!("an empty account pays nothing"),
    }
    let account = FlyAccount::new([0u8; 32], String::from("Bob"));
    let other = FlyAccount::new([1u8; 32], String::from("Alan"));
    match account.transfer(other, 1) {
        Err(msg) => assert_eq!(msg, "balance not enough, can not transfer"),
        Ok(_) => panic!("an empty account transfers nothing"),
    }
    let account = FlyAccount::new([0u8; 32], String::from("Bob"));
    let coin = FlyCoin::create(10, String::from("CNY"), String::from("Bob"));
    let account = account.deposit(coin).unwrap().withdraw(4).unwrap();
    assert_eq!(account.get_balance(), 6);
    assert_eq!(account.get_sequence_num(), 2);
    let account = account.reserve(3).ok().unwrap();
    assert_eq!(account.get_balance(), 6);
    assert_eq!(account.account_address(), "not finish");
}

#[test]
fn flyaccount_deposit_and_withdrawal() {
    let owner = String::from("a");
    let mut account = flyaccount::FlyAccount::create(&owner);
    assert_eq!(account.currency, "CNY");
    let coin = flycoin::FlyCoin::create(40, String::from("CNY"), String::from("a"));
    match account.deposit(coin) {
        flyaccount::Result::SUCCESS { code, .. } => assert_eq!(code, "SUCCESS"),
        _ => panic!("a deposit succeeds"),
    }
    assert_eq!(account.balance, 40);
    match account.withdrawal(10) {
        flyaccount::Result::FAIL { msg, .. } => assert_eq!(msg, "acount available balance not enough"),
        _ => panic!("nothing is available yet"),
    }
    account.available_balance = 30;
    account.frozen_balance = 5;
    match account.withdrawal(10) {
        flyaccount::Result::SUCCESS_WITHDRAW { coin, .. } => {
            assert_eq!(coin.amount, 10);
            assert_eq!(coin.ownAccountId, "a");
        }
        _ => panic!("30 available pays 10"),
    }
    assert_eq!(account.balance, 35);
}

#[test]
fn basic_coin_sub_and_refusals() {
    let a = basic_coin::FlyCoin::create(9, String::from("CNY"), String::from("a"));
    let b = basic_coin::FlyCoin::create(4, String::from("CNY"), String::from("a"));
    match a.sub(b) {
        basic_coin::Result::SUCCESS { item, .. } => assert_eq!(item.amount, 5),
        _ => panic!("9 less 4 is 5"),
    }
    let a = basic_coin::FlyCoin::create(3, String::from("CNY"), String::from("a"));
    let b = basic_coin::FlyCoin::create(4, String::from("CNY"), String::from("a"));
    match a.sub(b) {
        basic_coin::Result::FAIL { msg, .. } => assert_eq!(msg, "can sub the coin less than"),
        _ => panic!("3 does not cover 4"),
    }
    let a = basic_coin::FlyCoin::create(3, String::from("CNY"), String::from("a"));
    match a.moveTo(String::from("a")) {
        basic_coin::Result::FAIL { msg, .. } => assert_eq!(msg, "can move the coin to same account"),
        _ => panic!("moving a coin to its owner must fail"),
    }
}

#[test]
fn fly_coin_join_undoes_split() {
    let coin = FlyCoin::create(90, String::from("CNY"), String::from("a"));
    let (rest, part) = coin.sub(25).unwrap();
    let (joined, empty) = rest.add(part).unwrap();
    assert_eq!(joined.get_amount(), 90);
    assert_eq!(joined.get_ownId(), "a");
    assert_eq!(empty.get_amount(), 0);
}
