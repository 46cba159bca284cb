use tfn_test_launchpad::common::amounts::{token_amount, ONE};
use tfn_test_launchpad::common::config::{Launchpad, Status};
use tfn_test_launchpad::common::types::{Address, EsdtTokenPayment, LaunchpadError};

fn addr(n: u8) -> Address {
    Address([n; 32])
}

fn sample() -> Launchpad {
    Launchpad {
        id: 3,
        owner: addr(1),
        description: b"idea".to_vec(),
        token: "IDEA-a1b2c3".to_string(),
        amount: 100 * ONE,
        payment_token: "USDC-c76f1f".to_string(),
        price: 2_000_000,
        min_buy_amount: ONE,
        max_buy_amount: 10 * ONE,
        start_time: 100,
        end_time: 200,
        total_raised: 0,
        total_sold: 0,
        launched: false,
        status: Status::Pending,
        user_bought: 0,
    }
}

fn usdc(amount: u128) -> Option<EsdtTokenPayment> {
    Some(EsdtTokenPayment { token_identifier: "USDC-c76f1f".to_string(), token_nonce: 0, amount })
}

#[test]
fn one_is_ten_to_the_eighteen() {
    assert_eq!(ONE, 1_000_000_000_000_000_000);
}

#[test]
fn token_amount_exact_values() {
    assert_eq!(token_amount(4_000_000, 2_000_000), Some(2 * ONE));
    assert_eq!(token_amount(1, 3), Some(333_333_333_333_333_333));
    assert_eq!(token_amount(0, 7), Some(0));
    assert_eq!(token_amount(u128::MAX, u128::MAX), Some(ONE));
    // 1000 units of an 18-decimal payment token at 1 unit per token: the
    // product exceeds u128 but the result does not.
    assert_eq!(token_amount(1000 * ONE, ONE), Some(1000 * ONE));
    assert_eq!(token_amount(u128::MAX, 1), None);
    assert_eq!(token_amount(u128::MAX / ONE + 1, 1), None);
    assert_eq!(token_amount(u128::MAX / ONE, 1), Some((u128::MAX / ONE) * ONE));
}

#[test]
fn is_active_window_and_stock() {
    let mut lp = sample();
    assert!(!lp.is_active(99));
    assert!(lp.is_active(100));
    assert!(lp.is_active(200));
    assert!(!lp.is_active(201));
    lp.total_sold = lp.amount;
    assert!(!lp.is_active(150));
}

#[test]
fn get_status_at_each_time() {
    let mut lp = sample();
    assert_eq!(lp.get_status(50), Status::Pending);
    assert_eq!(lp.get_status(100), Status::Active);
    assert_eq!(lp.get_status(200), Status::Active);
    assert_eq!(lp.get_status(201), Status::Ended);
    lp.launched = true;
    assert_eq!(lp.get_status(201), Status::Launched);
    // an empty launchpad is still Active by status, though not open for buying
    let empty = Launchpad { amount: 0, ..sample() };
    assert_eq!(empty.get_status(150), Status::Active);
    assert!(!empty.is_active(150));
}

#[test]
fn quote_purchase_rules() {
    let lp = sample();
    assert_eq!(lp.quote_purchase(150, &usdc(4_000_000), 0), Ok(2 * ONE));
    assert_eq!(lp.quote_purchase(99, &usdc(4_000_000), 0), Err(LaunchpadError::LaunchpadInactive));
    assert_eq!(lp.quote_purchase(150, &None, 0), Err(LaunchpadError::IncorrectPayment));
    let wrong = Some(EsdtTokenPayment { token_identifier: "WEGLD-bd4d79".to_string(), token_nonce: 0, amount: 4_000_000 });
    assert_eq!(lp.quote_purchase(150, &wrong, 0), Err(LaunchpadError::WrongToken));
    assert_eq!(lp.quote_purchase(150, &usdc(1_000_000), 0), Err(LaunchpadError::LowAmount));
    // the minimum applies to this purchase alone, whatever the buyer holds
    assert_eq!(lp.quote_purchase(150, &usdc(1_000_000), ONE / 2), Err(LaunchpadError::LowAmount));
    assert_eq!(lp.quote_purchase(150, &usdc(1_000_000), ONE), Err(LaunchpadError::LowAmount));
    assert_eq!(lp.quote_purchase(150, &usdc(2_000_000), ONE), Ok(ONE));
    assert_eq!(lp.quote_purchase(150, &usdc(22_000_000), 0), Err(LaunchpadError::HighAmount));
    assert_eq!(lp.quote_purchase(150, &usdc(4_000_000), 9 * ONE), Err(LaunchpadError::HighAmount));
    assert_eq!(lp.quote_purchase(150, &usdc(u128::MAX), 0), Err(LaunchpadError::HighAmount));
    let nearly_sold = Launchpad { total_sold: 99 * ONE, ..sample() };
    assert_eq!(nearly_sold.quote_purchase(150, &usdc(4_000_000), 0), Err(LaunchpadError::InsufficientFunds));
    assert_eq!(nearly_sold.quote_purchase(150, &usdc(2_000_000), 0), Ok(ONE));
    let nearly_full = Launchpad { total_raised: u128::MAX - 1_000_000, ..sample() };
    assert_eq!(nearly_full.quote_purchase(150, &usdc(2_000_000), 0), Err(LaunchpadError::AmountOutOfRange));
    assert_eq!(nearly_full.quote_purchase(150, &usdc(1_000_000), 0), Err(LaunchpadError::LowAmount));
}

#[test]
fn purchase_below_minimum_after_a_holding_is_refused() {
    // a buyer who holds one whole token pays 1 USDC at 2 USDC per token
    let lp = Launchpad { total_raised: 2_000_000, total_sold: ONE, amount: 10 * ONE, max_buy_amount: 5 * ONE, ..sample() };
    assert_eq!(lp.quote_purchase(150, &usdc(1_000_000), ONE), Err(LaunchpadError::LowAmount));
    assert!(lp.sell(150, &usdc(1_000_000), ONE).is_err());
}

#[test]
fn sell_records_the_sale() {
    let lp = sample();
    let sale = lp.sell(150, &usdc(4_000_000), ONE).unwrap();
    assert_eq!(sale.bought, 2 * ONE);
    assert_eq!(sale.holding, 3 * ONE);
    assert_eq!(sale.launchpad, Launchpad { total_raised: 4_000_000, total_sold: 2 * ONE, ..sample() });
    assert_eq!(lp.sell(99, &usdc(4_000_000), 0).err(), Some(LaunchpadError::LaunchpadInactive));
}

#[test]
fn deposit_launch_and_refund_records() {
    let lp = sample();
    let idea = Some(EsdtTokenPayment { token_identifier: "IDEA-a1b2c3".to_string(), token_nonce: 0, amount: 7 });
    assert_eq!(lp.deposit(150, &idea), Ok(Launchpad { amount: 100 * ONE + 7, ..sample() }));
    assert_eq!(lp.deposit(150, &usdc(7)), Err(LaunchpadError::WrongToken));
    let (launched, payments) = lp.launch(201).unwrap();
    assert_eq!(launched, Launchpad { launched: true, ..sample() });
    assert_eq!(payments, lp.launch_payments());
    assert_eq!(lp.launch(200).err(), Some(LaunchpadError::LaunchpadNotEnded));
    assert_eq!(
        lp.refund(),
        Some(EsdtTokenPayment { token_identifier: "IDEA-a1b2c3".to_string(), token_nonce: 0, amount: 100 * ONE })
    );
    assert_eq!(Launchpad { amount: 0, ..sample() }.refund(), None);
}

#[test]
fn quote_deposit_rules() {
    let lp = sample();
    let idea = |amount: u128| Some(EsdtTokenPayment { token_identifier: "IDEA-a1b2c3".to_string(), token_nonce: 0, amount });
    assert_eq!(lp.quote_deposit(150, &idea(5)), Ok(100 * ONE + 5));
    assert_eq!(lp.quote_deposit(10, &idea(5)), Ok(100 * ONE + 5));
    assert_eq!(lp.quote_deposit(200, &idea(5)), Err(LaunchpadError::LaunchpadInactive));
    assert_eq!(lp.quote_deposit(150, &None), Err(LaunchpadError::IncorrectPayment));
    assert_eq!(lp.quote_deposit(150, &usdc(5)), Err(LaunchpadError::WrongToken));
    assert_eq!(lp.quote_deposit(150, &idea(u128::MAX)), Err(LaunchpadError::AmountOutOfRange));
}

#[test]
fn launch_payments_cases() {
    let sold = Launchpad { total_raised: 8_000_000, total_sold: 4 * ONE, ..sample() };
    assert_eq!(
        sold.launch_payments(),
        vec![
            EsdtTokenPayment { token_identifier: "USDC-c76f1f".to_string(), token_nonce: 0, amount: 8_000_000 },
            EsdtTokenPayment { token_identifier: "IDEA-a1b2c3".to_string(), token_nonce: 0, amount: 96 * ONE },
        ]
    );
    let unsold = sample();
    assert_eq!(
        unsold.launch_payments(),
        vec![EsdtTokenPayment { token_identifier: "IDEA-a1b2c3".to_string(), token_nonce: 0, amount: 100 * ONE }]
    );
    let sold_out = Launchpad { total_raised: 200_000_000, total_sold: 100 * ONE, ..sample() };
    assert_eq!(
        sold_out.launch_payments(),
        vec![EsdtTokenPayment { token_identifier: "USDC-c76f1f".to_string(), token_nonce: 0, amount: 200_000_000 }]
    );
    let nothing = Launchpad { amount: 0, ..sample() };
    assert!(nothing.launch_payments().is_empty());
}

#[test]
fn address_comparison() {
    assert!(addr(4).same(&addr(4)));
    let mut bytes = [4u8; 32];
    bytes[31] = 5;
    assert!(!addr(4).same(&Address(bytes)));
}

#[test]
fn launchpad_clone_keeps_every_field() {
    let lp = sample();
    assert_eq!(lp.clone(), lp);
}

#[test]
fn cancel_and_launch_checks() {
    let lp = sample();
    assert_eq!(lp.check_cancel(&addr(1)), Ok(()));
    assert_eq!(lp.check_cancel(&addr(2)), Err(LaunchpadError::OnlyLaunchpadOwner));
    let sold = Launchpad { total_sold: 1, ..sample() };
    assert_eq!(sold.check_cancel(&addr(1)), Err(LaunchpadError::DeletingLaunchpad));
    assert_eq!(lp.check_launch(200), Err(LaunchpadError::LaunchpadNotEnded));
    assert_eq!(lp.check_launch(201), Ok(()));
    let launched = Launchpad { launched: true, ..sample() };
    assert_eq!(launched.check_launch(201), Err(LaunchpadError::AlreadyLaunched));
}
