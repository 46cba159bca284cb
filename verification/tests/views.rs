use tfn_test_launchpad::common::amounts::ONE;
use tfn_test_launchpad::common::config::{Env, Launchpad, Status};
use tfn_test_launchpad::common::types::{Address, EsdtTokenPayment};
use tfn_test_launchpad::common::views::{list_launchpads, total_raised};
use tfn_test_launchpad::contract::TFNTestLaunchpadContract;

fn addr(n: u8) -> Address {
    Address([n; 32])
}

fn env(caller: u8, now: u64) -> Env {
    Env { caller: addr(caller), contract_owner: addr(1), block_timestamp: now }
}

fn pay(token: &str, amount: u128) -> Option<EsdtTokenPayment> {
    Some(EsdtTokenPayment { token_identifier: token.to_string(), token_nonce: 0, amount })
}

/// Four launchpads (ids 0..=3), the second one cancelled:
/// 0: IDEA  [100, 200], paid in USDC, Alice bought 2 tokens for 4 USDC
/// 1: cancelled
/// 2: GAME  [300, 400], paid in USDC, Bob bought 1 token for 2 USDC
/// 3: BOOK  [100, 150], paid in WEGLD, nothing sold, funded
fn market() -> TFNTestLaunchpadContract {
    let mut c = TFNTestLaunchpadContract::init(addr(1), true);
    let mk = |c: &mut TFNTestLaunchpadContract, token: &str, payment: &str, start: u64, end: u64| {
        c.new_launchpad(&env(2, 10), true, vec![], token.to_string(), payment.to_string(), 2_000_000, 0, 10 * ONE, start, end)
            .unwrap()
    };
    let idea = mk(&mut c, "IDEA-111111", "USDC-c76f1f", 100, 200);
    let gone = mk(&mut c, "GONE-222222", "USDC-c76f1f", 100, 200);
    let game = mk(&mut c, "GAME-333333", "USDC-c76f1f", 300, 400);
    let book = mk(&mut c, "BOOK-444444", "WEGLD-bd4d79", 100, 150);
    c.cancel_launchpad(&env(2, 20), gone).unwrap();
    c.add_tokens(&env(2, 20), idea, pay("IDEA-111111", 50 * ONE)).unwrap();
    c.add_tokens(&env(2, 20), game, pay("GAME-333333", 50 * ONE)).unwrap();
    c.add_tokens(&env(2, 20), book, pay("BOOK-444444", 50 * ONE)).unwrap();
    c.buy(&env(3, 120), idea, pay("USDC-c76f1f", 4_000_000)).unwrap();
    c.buy(&env(4, 350), game, pay("USDC-c76f1f", 2_000_000)).unwrap();
    c
}

fn ids(v: &[Launchpad]) -> Vec<u64> {
    v.iter().map(|l| l.id).collect()
}

#[test]
fn all_launchpads_lists_stored_ones_with_status_and_participation() {
    let c = market();
    let all = c.config.get_all_launchpads(160, 0, 0, addr(3), None);
    assert_eq!(ids(&all), vec![0, 2, 3]);
    assert_eq!(all[0].status, Status::Active);
    assert_eq!(all[1].status, Status::Pending);
    assert_eq!(all[2].status, Status::Ended);
    assert_eq!(all[0].user_bought, 2 * ONE);
    assert_eq!(all[1].user_bought, 0);
    // stored launchpads keep the status they were created with
    assert_eq!(c.config.get_launchpad(3).unwrap().status, Status::Pending);
}

#[test]
fn all_launchpads_filters_and_pages() {
    let c = market();
    let pending = c.config.get_all_launchpads(160, 0, 0, addr(4), Some(Status::Pending));
    assert_eq!(ids(&pending), vec![2]);
    // numbers count stored launchpads in id order, whatever the filter: 0 -> #0, 2 -> #1, 3 -> #2
    assert_eq!(ids(&c.config.get_all_launchpads(160, 1, 2, addr(4), None)), vec![2, 3]);
    assert_eq!(ids(&c.config.get_all_launchpads(160, 0, 1, addr(4), None)), vec![0, 2]);
    assert_eq!(ids(&c.config.get_all_launchpads(160, 2, 2, addr(4), Some(Status::Pending))), Vec::<u64>::new());
    assert_eq!(ids(&c.config.get_all_launchpads(160, 1, 1, addr(4), Some(Status::Pending))), vec![2]);
    let for_bob = c.config.get_all_launchpads(500, 0, 0, addr(4), Some(Status::Ended));
    assert_eq!(ids(&for_bob), vec![0, 2, 3]);
    assert_eq!(for_bob[1].user_bought, ONE);
}

#[test]
fn launchpads_count_by_status() {
    let c = market();
    assert_eq!(c.config.get_launchpads_count(160, None), 3);
    assert_eq!(c.config.get_launchpads_count(160, Some(Status::Active)), 1);
    assert_eq!(c.config.get_launchpads_count(160, Some(Status::Pending)), 1);
    assert_eq!(c.config.get_launchpads_count(160, Some(Status::Ended)), 1);
    assert_eq!(c.config.get_launchpads_count(160, Some(Status::Launched)), 0);
}

#[test]
fn count_agrees_with_listing_and_statuses_partition() {
    let c = market();
    for now in [0u64, 100, 160, 250, 350, 500] {
        let mut sum = 0;
        for status in [Status::Pending, Status::Active, Status::Ended, Status::Launched] {
            let n = c.config.get_launchpads_count(now, Some(status));
            assert_eq!(n as usize, c.config.get_all_launchpads(now, 0, 0, addr(3), Some(status)).len());
            sum += n;
        }
        assert_eq!(sum, c.config.get_launchpads_count(now, None));
    }
}

#[test]
fn launchpads_since_a_time() {
    let c = market();
    let since = c.config.get_all_launchpads_since(160, 180);
    assert_eq!(ids(&since), vec![0, 2]);
    assert_eq!(since[0].status, Status::Active);
    assert_eq!(since[1].status, Status::Pending);
    assert!(c.config.get_all_launchpads_since(160, 400).is_empty());
}

#[test]
fn active_and_ended_launchpads() {
    let mut c = market();
    assert_eq!(ids(&c.config.get_active_launchpads(120)), vec![0, 3]);
    assert_eq!(ids(&c.config.get_active_launchpads(160)), vec![0]);
    assert_eq!(ids(&c.config.get_ended_launchpads_not_launched(160)), vec![2, 3]);
    c.launch(&env(2, 170), 3).unwrap();
    assert_eq!(ids(&c.config.get_ended_launchpads_not_launched(160)), vec![2]);
}

#[test]
fn total_raised_per_payment_token() {
    let c = market();
    assert_eq!(
        c.config.get_total_raised().unwrap(),
        vec![
            EsdtTokenPayment { token_identifier: "USDC-c76f1f".to_string(), token_nonce: 0, amount: 6_000_000 },
            EsdtTokenPayment { token_identifier: "WEGLD-bd4d79".to_string(), token_nonce: 0, amount: 0 },
        ]
    );
}

#[test]
fn users_and_user_launchpads() {
    let c = market();
    assert_eq!(c.config.get_launchpad_users(0), vec![addr(3)]);
    assert_eq!(c.config.get_launchpad_users(2), vec![addr(4)]);
    assert!(c.config.get_launchpad_users(1).is_empty());
    assert_eq!(c.config.get_user_launchpads(addr(4)), vec![2]);
    assert!(c.config.get_user_launchpads(addr(5)).is_empty());
}

fn stored(id: u64, payment_token: &str, total_raised: u128) -> Option<Launchpad> {
    Some(Launchpad {
        id,
        owner: addr(2),
        description: vec![],
        token: format!("T{}-000000", id),
        amount: 0,
        payment_token: payment_token.to_string(),
        price: 1,
        min_buy_amount: 0,
        max_buy_amount: 0,
        start_time: 1,
        end_time: 2,
        total_raised,
        total_sold: 0,
        launched: false,
        status: Status::Pending,
        user_bought: 0,
    })
}

#[test]
fn total_raised_groups_in_first_appearance_order() {
    let entries = vec![stored(0, "B-1", 5), None, stored(2, "A-1", 7), stored(3, "B-1", 1)];
    assert_eq!(
        total_raised(&entries).unwrap(),
        vec![
            EsdtTokenPayment { token_identifier: "B-1".to_string(), token_nonce: 0, amount: 6 },
            EsdtTokenPayment { token_identifier: "A-1".to_string(), token_nonce: 0, amount: 7 },
        ]
    );
    assert_eq!(total_raised(&vec![]).unwrap(), vec![]);
}

#[test]
fn total_raised_refuses_a_sum_beyond_u128() {
    let entries = vec![stored(0, "B-1", u128::MAX), stored(1, "A-1", 1), stored(2, "B-1", 1)];
    assert_eq!(total_raised(&entries), None);
    let fits = vec![stored(0, "B-1", u128::MAX), stored(1, "A-1", u128::MAX)];
    assert!(total_raised(&fits).is_some());
}

#[test]
fn list_launchpads_uses_bought_by_position() {
    let entries = vec![stored(0, "B-1", 5), None, stored(2, "A-1", 7)];
    let listed = list_launchpads(&entries, &vec![10, 20, 30], 5, 0, 0, None);
    assert_eq!(ids(&listed), vec![0, 2]);
    assert_eq!(listed[0].user_bought, 10);
    assert_eq!(listed[1].user_bought, 30);
    assert_eq!(listed[1].status, Status::Ended);
    // numbers skip the empty slot: entry 2 is number 1
    assert_eq!(ids(&list_launchpads(&entries, &vec![0, 0, 0], 5, 1, 1, None)), vec![2]);
}

#[test]
fn two_pages_join_to_the_full_listing() {
    let c = market();
    let n = c.config.get_launchpads_count(160, None);
    assert_eq!(n, 3);
    let full = c.config.get_all_launchpads(160, 0, 0, addr(3), None);
    for k in 2..n {
        let mut joined = c.config.get_all_launchpads(160, 0, k - 1, addr(3), None);
        joined.extend(c.config.get_all_launchpads(160, k, n - 1, addr(3), None));
        assert_eq!(ids(&joined), ids(&full));
        assert_eq!(joined, full);
    }
}

#[test]
fn total_raised_grows_by_a_purchase() {
    let mut c = market();
    let before = c.config.get_total_raised().unwrap();
    c.buy(&env(5, 130), 0, pay("USDC-c76f1f", 3_000_000)).unwrap();
    let after = c.config.get_total_raised().unwrap();
    assert_eq!(after.len(), before.len());
    assert_eq!(after[0].amount, before[0].amount + 3_000_000);
    assert_eq!(after[0].token_identifier, before[0].token_identifier);
    assert_eq!(after[1], before[1]);
}
