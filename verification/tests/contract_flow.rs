use tfn_test_launchpad::common::amounts::ONE;
use tfn_test_launchpad::common::config::{Env, Launchpad, State, Status};
use tfn_test_launchpad::common::types::{Address, EsdtTokenPayment, LaunchpadError, Transfer};
use tfn_test_launchpad::contract::{check_gate, check_new_launchpad, TFNTestLaunchpadContract};

fn addr(n: u8) -> Address {
    Address([n; 32])
}

const PLATFORM: u8 = 1;
const OWNER: u8 = 2;
const ALICE: u8 = 3;
const BOB: u8 = 4;
const CAROL: u8 = 5;

fn env(caller: u8, now: u64) -> Env {
    Env { caller: addr(caller), contract_owner: addr(PLATFORM), block_timestamp: now }
}

fn pay(token: &str, amount: u128) -> Option<EsdtTokenPayment> {
    Some(EsdtTokenPayment { token_identifier: token.to_string(), token_nonce: 0, amount })
}

fn deployed() -> TFNTestLaunchpadContract {
    TFNTestLaunchpadContract::init(addr(PLATFORM), true)
}

/// A launchpad of OWNER selling IDEA for USDC at 2 USDC per token, open
/// during [100, 200], with 1..=10 tokens per buyer.
fn with_launchpad(c: &mut TFNTestLaunchpadContract, token: &str) -> u64 {
    c.new_launchpad(&env(OWNER, 50), true, b"idea".to_vec(), token.to_string(), "USDC-c76f1f".to_string(), 2_000_000, ONE, 10 * ONE, 100, 200)
        .unwrap()
}

#[test]
fn init_by_platform_is_active() {
    let c = deployed();
    assert_eq!(c.config.get_state(), State::Active);
    assert_eq!(c.config.get_platform_address(), Some(addr(PLATFORM)));
    assert_eq!(c.config.get_last_launchpad_id(), 0);
    assert_eq!(c.config.get_governance_token(), None);
}

#[test]
fn init_by_user_is_inactive_until_configured() {
    let mut c = TFNTestLaunchpadContract::init(addr(OWNER), false);
    assert_eq!(c.config.get_state(), State::Inactive);
    assert_eq!(c.config.get_platform_address(), None);
    let owner_env = Env { caller: addr(OWNER), contract_owner: addr(OWNER), block_timestamp: 1 };
    let stranger = Env { caller: addr(ALICE), contract_owner: addr(OWNER), block_timestamp: 1 };
    assert_eq!(c.config.set_state_active(&owner_env), Err(LaunchpadError::PlatformNotSet));
    let tfn = "TFN-a1b2c3".to_string();
    assert_eq!(c.config.get_governance_token(), None);
    assert_eq!(c.config.set_platform_address(&stranger, addr(PLATFORM), tfn.clone()), Err(LaunchpadError::OnlyOwner));
    assert_eq!(c.config.get_governance_token(), None);
    assert_eq!(c.config.set_platform_address(&owner_env, addr(PLATFORM), tfn.clone()), Ok(()));
    assert_eq!(c.config.get_platform_address(), Some(addr(PLATFORM)));
    assert_eq!(c.config.get_governance_token(), Some(tfn.clone()));
    assert_eq!(c.config.set_platform_address(&owner_env, addr(BOB), "OTHER-000000".to_string()), Err(LaunchpadError::PlatformAlreadySet));
    assert_eq!(c.config.get_governance_token(), Some(tfn));
    assert_eq!(c.config.set_state_active(&stranger), Err(LaunchpadError::OnlyOwner));
    assert_eq!(c.config.set_state_active(&owner_env), Ok(()));
    assert_eq!(c.config.get_state(), State::Active);
    assert_eq!(c.config.set_state_inactive(&stranger), Err(LaunchpadError::OnlyOwner));
    assert_eq!(c.config.set_state_inactive(&owner_env), Ok(()));
    assert_eq!(c.config.get_state(), State::Inactive);
}

#[test]
fn upgrade_keeps_storage() {
    let mut c = deployed();
    with_launchpad(&mut c, "IDEA-a1b2c3");
    c.upgrade();
    assert_eq!(c.config.get_last_launchpad_id(), 1);
    assert!(c.config.get_launchpad(0).is_some());
}

#[test]
fn new_launchpad_stores_it() {
    let mut c = deployed();
    let id = with_launchpad(&mut c, "IDEA-a1b2c3");
    assert_eq!(id, 0);
    let lp = c.config.get_launchpad(0).unwrap();
    assert_eq!(
        lp,
        Launchpad {
            id: 0,
            owner: addr(OWNER),
            description: b"idea".to_vec(),
            token: "IDEA-a1b2c3".to_string(),
            amount: 0,
            payment_token: "USDC-c76f1f".to_string(),
            price: 2_000_000,
            min_buy_amount: ONE,
            max_buy_amount: 10 * ONE,
            start_time: 100,
            end_time: 200,
            total_raised: 0,
            total_sold: 0,
            launched: false,
            status: Status::Pending,
            user_bought: 0,
        }
    );
    assert_eq!(c.config.get_launchpad_id_by_token(&"IDEA-a1b2c3".to_string()), 0);
    assert_eq!(c.config.get_launchpad_id_by_token(&"OTHER-000000".to_string()), 0);
    assert_eq!(with_launchpad(&mut c, "SECOND-d4e5f6"), 1);
    assert_eq!(c.config.get_launchpad_id_by_token(&"SECOND-d4e5f6".to_string()), 1);
    assert_eq!(c.config.get_last_launchpad_id(), 2);
    assert!(c.config.get_launchpad(2).is_none());
}

#[test]
fn new_launchpad_errors_in_order() {
    let mut c = deployed();
    with_launchpad(&mut c, "IDEA-a1b2c3");
    let try_new = |c: &mut TFNTestLaunchpadContract, wl: bool, token: &str, price: u128, min: u128, max: u128, start: u64, end: u64| {
        c.new_launchpad(&env(ALICE, 50), wl, vec![], token.to_string(), "USDC-c76f1f".to_string(), price, min, max, start, end)
    };
    assert_eq!(try_new(&mut c, false, "NEW-111111", 1, 1, 2, 100, 200), Err(LaunchpadError::NotWhitelisted));
    assert_eq!(try_new(&mut c, true, "NEW-111111", 0, 1, 2, 100, 200), Err(LaunchpadError::ZeroPrice));
    assert_eq!(try_new(&mut c, true, "NEW-111111", 1, 3, 2, 100, 200), Err(LaunchpadError::WrongMinMaxAmounts));
    assert_eq!(try_new(&mut c, true, "NEW-111111", 1, 1, 2, 50, 200), Err(LaunchpadError::WrongStartTime));
    assert_eq!(try_new(&mut c, true, "NEW-111111", 1, 1, 2, 100, 100), Err(LaunchpadError::WrongEndTime));
    assert_eq!(try_new(&mut c, true, "IDEA-a1b2c3", 1, 1, 2, 100, 200), Err(LaunchpadError::TokenAlreadyLaunched));
    // the first broken rule wins
    assert_eq!(try_new(&mut c, false, "IDEA-a1b2c3", 0, 3, 2, 10, 5), Err(LaunchpadError::NotWhitelisted));
    assert_eq!(c.config.get_last_launchpad_id(), 1);
    let owner_env = env(PLATFORM, 50);
    c.config.set_state_inactive(&owner_env).unwrap();
    assert_eq!(try_new(&mut c, true, "NEW-111111", 1, 1, 2, 100, 200), Err(LaunchpadError::NotActive));
}

#[test]
fn check_new_launchpad_accepts_valid_parameters() {
    assert_eq!(check_new_launchpad(State::Active, true, 1, 0, 0, 1, 2, 3, false, 0), Ok(()));
    assert_eq!(check_new_launchpad(State::Inactive, true, 1, 0, 0, 1, 2, 3, false, 0), Err(LaunchpadError::NotActive));
    assert_eq!(check_new_launchpad(State::Active, true, 1, 0, 0, 1, 2, 3, false, u64::MAX - 1), Ok(()));
    assert_eq!(check_new_launchpad(State::Active, true, 1, 0, 0, 1, 2, 3, false, u64::MAX), Err(LaunchpadError::IdsExhausted));
    assert_eq!(check_new_launchpad(State::Active, true, 1, 0, 0, 1, 2, 3, true, u64::MAX), Err(LaunchpadError::TokenAlreadyLaunched));
}

#[test]
fn add_tokens_rules() {
    let mut c = deployed();
    let id = with_launchpad(&mut c, "IDEA-a1b2c3");
    assert_eq!(c.add_tokens(&env(OWNER, 60), 9, pay("IDEA-a1b2c3", 5)), Err(LaunchpadError::LaunchpadNotFound));
    assert_eq!(c.add_tokens(&env(OWNER, 60), id, None), Err(LaunchpadError::IncorrectPayment));
    assert_eq!(c.add_tokens(&env(OWNER, 60), id, pay("USDC-c76f1f", 5)), Err(LaunchpadError::WrongToken));
    assert_eq!(c.add_tokens(&env(OWNER, 200), id, pay("IDEA-a1b2c3", 5)), Err(LaunchpadError::LaunchpadInactive));
    assert_eq!(c.add_tokens(&env(OWNER, 60), id, pay("IDEA-a1b2c3", 60 * ONE)), Ok(()));
    // anyone may add tokens, also while the sale runs
    assert_eq!(c.add_tokens(&env(BOB, 150), id, pay("IDEA-a1b2c3", 40 * ONE)), Ok(()));
    assert_eq!(c.config.get_launchpad(id).unwrap().amount, 100 * ONE);
    c.config.set_state_inactive(&env(PLATFORM, 1)).unwrap();
    assert_eq!(c.add_tokens(&env(OWNER, 60), id, pay("IDEA-a1b2c3", 5)), Err(LaunchpadError::NotActive));
}

fn funded() -> (TFNTestLaunchpadContract, u64) {
    let mut c = deployed();
    let id = with_launchpad(&mut c, "IDEA-a1b2c3");
    c.add_tokens(&env(OWNER, 60), id, pay("IDEA-a1b2c3", 100 * ONE)).unwrap();
    (c, id)
}

#[test]
fn buy_sends_tokens_and_records_participation() {
    let (mut c, id) = funded();
    let t = c.buy(&env(ALICE, 150), id, pay("USDC-c76f1f", 4_000_000)).unwrap();
    assert_eq!(
        t,
        Transfer::Esdt {
            to: addr(ALICE),
            payment: EsdtTokenPayment { token_identifier: "IDEA-a1b2c3".to_string(), token_nonce: 0, amount: 2 * ONE },
        }
    );
    let lp = c.config.get_launchpad(id).unwrap();
    assert_eq!(lp.total_raised, 4_000_000);
    assert_eq!(lp.total_sold, 2 * ONE);
    assert_eq!(c.config.get_user_participation(addr(ALICE), id), 2 * ONE);
    c.buy(&env(BOB, 160), id, pay("USDC-c76f1f", 3_000_000)).unwrap();
    c.buy(&env(ALICE, 170), id, pay("USDC-c76f1f", 2_000_000)).unwrap();
    assert_eq!(c.config.get_user_participation(addr(ALICE), id), 3 * ONE);
    assert_eq!(c.config.get_user_participation(addr(BOB), id), 3 * ONE / 2);
    assert_eq!(c.config.get_user_participation(addr(CAROL), id), 0);
    assert_eq!(c.config.get_launchpad_users(id), vec![addr(ALICE), addr(BOB)]);
    assert_eq!(c.config.get_user_launchpads(addr(ALICE)), vec![id]);
    let lp = c.config.get_launchpad(id).unwrap();
    assert_eq!(lp.total_raised, 9_000_000);
    assert_eq!(lp.total_sold, 9 * ONE / 2);
}

#[test]
fn buy_errors() {
    let (mut c, id) = funded();
    assert_eq!(c.buy(&env(ALICE, 150), 7, pay("USDC-c76f1f", 4_000_000)), Err(LaunchpadError::LaunchpadNotFound));
    assert_eq!(c.buy(&env(ALICE, 99), id, pay("USDC-c76f1f", 4_000_000)), Err(LaunchpadError::LaunchpadInactive));
    assert_eq!(c.buy(&env(ALICE, 201), id, pay("USDC-c76f1f", 4_000_000)), Err(LaunchpadError::LaunchpadInactive));
    assert_eq!(c.buy(&env(ALICE, 150), id, None), Err(LaunchpadError::IncorrectPayment));
    assert_eq!(c.buy(&env(ALICE, 150), id, pay("IDEA-a1b2c3", 4_000_000)), Err(LaunchpadError::WrongToken));
    assert_eq!(c.buy(&env(ALICE, 150), id, pay("USDC-c76f1f", 1_999_999)), Err(LaunchpadError::LowAmount));
    assert_eq!(c.buy(&env(ALICE, 150), id, pay("USDC-c76f1f", 20_000_002)), Err(LaunchpadError::HighAmount));
    c.buy(&env(ALICE, 150), id, pay("USDC-c76f1f", 20_000_000)).unwrap();
    assert_eq!(c.buy(&env(ALICE, 150), id, pay("USDC-c76f1f", 2_000_000)), Err(LaunchpadError::HighAmount));
    // below the minimum on its own, whatever the buyer holds
    assert_eq!(c.buy(&env(ALICE, 150), id, pay("USDC-c76f1f", 2)), Err(LaunchpadError::LowAmount));
    // a refused call changes nothing
    assert_eq!(c.config.get_user_participation(addr(ALICE), id), 10 * ONE);
    assert_eq!(c.config.get_launchpad(id).unwrap().total_sold, 10 * ONE);
}

#[test]
fn buy_stops_at_offered_amount() {
    let mut c = deployed();
    let id = with_launchpad(&mut c, "IDEA-a1b2c3");
    c.add_tokens(&env(OWNER, 60), id, pay("IDEA-a1b2c3", 3 * ONE)).unwrap();
    c.buy(&env(ALICE, 150), id, pay("USDC-c76f1f", 4_000_000)).unwrap();
    assert_eq!(c.buy(&env(BOB, 150), id, pay("USDC-c76f1f", 4_000_000)), Err(LaunchpadError::InsufficientFunds));
    c.buy(&env(BOB, 150), id, pay("USDC-c76f1f", 2_000_000)).unwrap();
    // sold out: no longer open
    assert_eq!(c.buy(&env(CAROL, 150), id, pay("USDC-c76f1f", 2_000_000)), Err(LaunchpadError::LaunchpadInactive));
}

#[test]
fn cancel_rules_and_refund() {
    let (mut c, id) = funded();
    assert_eq!(c.cancel_launchpad(&env(ALICE, 60), id), Err(LaunchpadError::OnlyLaunchpadOwner));
    assert_eq!(c.cancel_launchpad(&env(OWNER, 60), 5), Err(LaunchpadError::LaunchpadNotFound));
    let refund = c.cancel_launchpad(&env(OWNER, 60), id).unwrap();
    assert_eq!(
        refund,
        Some(Transfer::Esdt {
            to: addr(OWNER),
            payment: EsdtTokenPayment { token_identifier: "IDEA-a1b2c3".to_string(), token_nonce: 0, amount: 100 * ONE },
        })
    );
    assert!(c.config.get_launchpad(id).is_none());
    assert_eq!(c.cancel_launchpad(&env(OWNER, 60), id), Err(LaunchpadError::LaunchpadNotFound));
    // the token is free again, under a new id
    assert_eq!(with_launchpad(&mut c, "IDEA-a1b2c3"), 1);
    assert_eq!(c.config.get_launchpad_id_by_token(&"IDEA-a1b2c3".to_string()), 1);
    // nothing deposited: nothing to refund
    assert_eq!(c.cancel_launchpad(&env(OWNER, 60), 1), Ok(None));
}

#[test]
fn cancel_refused_after_a_sale() {
    let (mut c, id) = funded();
    c.buy(&env(ALICE, 150), id, pay("USDC-c76f1f", 4_000_000)).unwrap();
    assert_eq!(c.cancel_launchpad(&env(OWNER, 150), id), Err(LaunchpadError::DeletingLaunchpad));
    assert!(c.config.get_launchpad(id).is_some());
}

#[test]
fn launch_pays_owner_once() {
    let (mut c, id) = funded();
    c.buy(&env(ALICE, 150), id, pay("USDC-c76f1f", 8_000_000)).unwrap();
    assert_eq!(c.launch(&env(OWNER, 200), id), Err(LaunchpadError::LaunchpadNotEnded));
    assert_eq!(c.launch(&env(OWNER, 201), 3), Err(LaunchpadError::LaunchpadNotFound));
    let payout = c.launch(&env(CAROL, 201), id).unwrap();
    assert_eq!(
        payout,
        Some(Transfer::MultiEsdt {
            to: addr(OWNER),
            payments: vec![
                EsdtTokenPayment { token_identifier: "USDC-c76f1f".to_string(), token_nonce: 0, amount: 8_000_000 },
                EsdtTokenPayment { token_identifier: "IDEA-a1b2c3".to_string(), token_nonce: 0, amount: 96 * ONE },
            ],
        })
    );
    assert!(c.config.get_launchpad(id).unwrap().launched);
    assert_eq!(c.launch(&env(OWNER, 300), id), Err(LaunchpadError::AlreadyLaunched));
}

#[test]
fn launch_of_empty_launchpad_pays_nothing() {
    let mut c = deployed();
    let id = with_launchpad(&mut c, "IDEA-a1b2c3");
    assert_eq!(c.launch(&env(OWNER, 201), id), Ok(None));
    assert_eq!(c.launch(&env(OWNER, 202), id), Err(LaunchpadError::AlreadyLaunched));
}

#[test]
fn inactive_contract_refuses_launchpad_operations() {
    let (mut c, id) = funded();
    c.config.set_state_inactive(&env(PLATFORM, 1)).unwrap();
    assert_eq!(c.buy(&env(ALICE, 150), id, pay("USDC-c76f1f", 4_000_000)), Err(LaunchpadError::NotActive));
    assert_eq!(c.cancel_launchpad(&env(OWNER, 150), id), Err(LaunchpadError::NotActive));
    assert_eq!(c.launch(&env(OWNER, 250), id), Err(LaunchpadError::NotActive));
    assert_eq!(c.add_tokens(&env(OWNER, 60), id, pay("IDEA-a1b2c3", 1)), Err(LaunchpadError::NotActive));
}

#[test]
fn gate_checks_state_then_existence() {
    assert_eq!(check_gate(State::Active, true), Ok(()));
    assert_eq!(check_gate(State::Active, false), Err(LaunchpadError::LaunchpadNotFound));
    assert_eq!(check_gate(State::Inactive, false), Err(LaunchpadError::NotActive));
    assert_eq!(check_gate(State::Inactive, true), Err(LaunchpadError::NotActive));
}

#[test]
fn buy_refused_when_raised_total_leaves_128_bits() {
    let mut c = deployed();
    let price: u128 = 100_000_000_000_000_000_000_000_000_000_000_000_000;
    let id = c
        .new_launchpad(&env(OWNER, 50), true, vec![], "BIG-000001".to_string(), "USDC-c76f1f".to_string(), price, 0, 100 * ONE, 100, 200)
        .unwrap();
    c.add_tokens(&env(OWNER, 60), id, pay("BIG-000001", 10 * ONE)).unwrap();
    c.buy(&env(ALICE, 150), id, pay("USDC-c76f1f", 3 * price)).unwrap();
    assert_eq!(c.config.get_launchpad(id).unwrap().total_raised, 3 * price);
    assert_eq!(c.buy(&env(BOB, 150), id, pay("USDC-c76f1f", price)), Err(LaunchpadError::AmountOutOfRange));
    assert_eq!(c.config.get_launchpad(id).unwrap().total_sold, 3 * ONE);
    assert_eq!(c.config.get_user_participation(addr(BOB), id), 0);
}

#[test]
fn deposit_refused_when_amount_leaves_128_bits() {
    let mut c = deployed();
    let id = with_launchpad(&mut c, "IDEA-a1b2c3");
    c.add_tokens(&env(OWNER, 60), id, pay("IDEA-a1b2c3", u128::MAX - 1)).unwrap();
    assert_eq!(c.add_tokens(&env(OWNER, 60), id, pay("IDEA-a1b2c3", 2)), Err(LaunchpadError::AmountOutOfRange));
    assert_eq!(c.add_tokens(&env(OWNER, 60), id, pay("IDEA-a1b2c3", 1)), Ok(()));
    assert_eq!(c.config.get_launchpad(id).unwrap().amount, u128::MAX);
}

#[test]
fn ids_grow_across_cancellations() {
    let mut c = deployed();
    let first = with_launchpad(&mut c, "IDEA-a1b2c3");
    c.cancel_launchpad(&env(OWNER, 60), first).unwrap();
    let second = with_launchpad(&mut c, "IDEA-a1b2c3");
    assert!(second > first);
    assert_eq!(second, first + 1);
    assert_eq!(c.config.get_last_launchpad_id(), 2);
}

#[test]
fn consecutive_creations_get_consecutive_ids() {
    let mut c = deployed();
    let first = with_launchpad(&mut c, "IDEA-a1b2c3");
    c.add_tokens(&env(OWNER, 60), first, pay("IDEA-a1b2c3", ONE)).unwrap();
    c.config.set_state_inactive(&env(PLATFORM, 60)).unwrap();
    c.config.set_state_active(&env(PLATFORM, 60)).unwrap();
    let second = with_launchpad(&mut c, "SECOND-d4e5f6");
    assert_eq!(second, first + 1);
}
