//! Properties of the launchpad contract that span several endpoints or
//! several calls.
use vstd::prelude::*;

use crate::common::amounts::{tokens_for, ONE};
use crate::common::config::{
    buyer_in, launchpad_of, lemma_bought_absent, step, lemma_bought_after_purchase, lemma_bought_at, sells, sold_to_buyers,
    with_purchase, within_limits, ConfigView, LaunchpadView, Participation, State, Status,
};
use crate::common::types::{Address, LaunchpadError, PaymentView};
use crate::common::views::{listing, payment_tokens, pick_active, pick_ending_after, pick_with_status, present_count, raised_in};
use crate::contract::new_launchpad_verdict;

verus! {

/// A launchpad created under `id` is read back as created: `get_launchpad(id)`
/// returns it, `get_launchpad_id_by_token` maps its token to `id`, the next id
/// is `id + 1`, and every other id reads as before.
pub proof fn law_created_launchpad_is_read_back(
    before: ConfigView,
    after: ConfigView,
    lp: LaunchpadView,
    other: u64,
)
    requires
        before.wf(),
        after.wf(),
        after == (ConfigView { launchpads: before.launchpads.push(Some(lp)), ..before }),
    ensures
        after.launchpad(before.last_launchpad_id() as u64) == Some(lp),
        after.token_launchpad_id(lp.token) == Some(before.last_launchpad_id() as u64),
        after.last_launchpad_id() == before.last_launchpad_id() + 1,
        other != before.last_launchpad_id() ==> after.launchpad(other) == before.launchpad(other),
{
    let n = before.launchpads.len() as int;
    assert(after.launchpads[n] == Some(lp));
    assert(sells(after.launchpads[n], lp.token));
    let c = choose|id: int| 0 <= id < after.launchpads.len() && sells(#[trigger] after.launchpads[id], lp.token);
    assert(after.launchpads[c] is Some && after.launchpads[n] is Some);
}

/// At most one stored launchpad sells a given token.
pub proof fn law_one_launchpad_per_token(s: ConfigView, i: u64, j: u64, token: Seq<char>)
    requires
        s.wf(),
        s.launchpad(i) matches Some(a) && a.token == token,
        s.launchpad(j) matches Some(b) && b.token == token,
    ensures
        i == j,
{
    assert(s.launchpads[i as int] is Some && s.launchpads[j as int] is Some);
}

/// A token that has a launchpad cannot get a second one.
pub proof fn law_token_launched_once(
    s: ConfigView,
    caller_whitelisted: bool,
    price: u128,
    min_buy_amount: u128,
    max_buy_amount: u128,
    now: u64,
    start_time: u64,
    end_time: u64,
    id: u64,
)
    requires
        s.launchpad(id) is Some,
    ensures
        new_launchpad_verdict(s.state, caller_whitelisted, price, min_buy_amount, max_buy_amount, now, start_time, end_time,
            s.token_taken(s.launchpad(id)->0.token), s.last_launchpad_id() as u64) is Err,
{
    assert(sells(s.launchpads[id as int], s.launchpad(id)->0.token));
}

/// A stored launchpad never sells more than it offers, the amounts its
/// buyers hold add up to what it sold, and every buyer holds an amount within
/// its buy limits.
pub proof fn law_sales_are_accounted(s: ConfigView, id: u64, user: Address)
    requires
        s.wf(),
        s.launchpad(id) is Some,
    ensures
        s.launchpad(id)->0.total_sold <= s.launchpad(id)->0.amount,
        sold_to_buyers(s.participations, id) == s.launchpad(id)->0.total_sold,
        s.participation(user, id) <= s.launchpad(id)->0.max_buy_amount,
        s.participation(user, id) == 0 || s.launchpad(id)->0.min_buy_amount <= s.participation(user, id),
{
    let ps = s.participations;
    assert(s.launchpads[id as int] is Some);
    if exists|k: int| 0 <= k < ps.len() && ps[k].user == user && ps[k].launchpad_id == id {
        let k = choose|k: int| 0 <= k < ps.len() && ps[k].user == user && ps[k].launchpad_id == id;
        lemma_bought_at(ps, k);
        assert(within_limits(s.launchpads[ps[k].launchpad_id as int], ps[k]));
    } else {
        lemma_bought_absent(ps, user, id);
    }
}

/// A purchase adds the bought units to what the buyer holds in that
/// launchpad and to what it sold, adds the payment to what it raised, and
/// leaves every other holding as it was.
pub proof fn law_purchase_is_recorded(
    before: ConfigView,
    after: ConfigView,
    caller: Address,
    now: u64,
    id: u64,
    payment: PaymentView,
    other: Address,
    other_id: u64,
)
    requires
        before.wf(),
        before.buy_verdict(caller, now, id, Some(payment)) is Ok,
        after == (ConfigView {
            launchpads: before.launchpads.update(id as int, Some(LaunchpadView {
                total_raised: (before.launchpad(id)->0.total_raised + payment.amount) as u128,
                total_sold: (before.launchpad(id)->0.total_sold + before.buy_verdict(caller, now, id, Some(payment))->Ok_0) as u128,
                ..before.launchpad(id)->0
            })),
            participations: with_purchase(before.participations, caller, id, before.buy_verdict(caller, now, id, Some(payment))->Ok_0),
            ..before
        }),
    ensures
        before.buy_verdict(caller, now, id, Some(payment))->Ok_0 == tokens_for(payment.amount, before.launchpad(id)->0.price),
        after.participation(caller, id) == before.participation(caller, id) + before.buy_verdict(caller, now, id, Some(payment))->Ok_0,
        after.launchpad(id)->0.total_sold == before.launchpad(id)->0.total_sold + before.buy_verdict(caller, now, id, Some(payment))->Ok_0,
        after.launchpad(id)->0.total_raised == before.launchpad(id)->0.total_raised + payment.amount,
        !(other == caller && other_id == id) ==> after.participation(other, other_id) == before.participation(other, other_id),
{
    let bought = before.buy_verdict(caller, now, id, Some(payment))->Ok_0;
    lemma_bought_after_purchase(before.participations, caller, id, bought, other, other_id);
}

/// A cancelled launchpad is gone, its token is free for a new launchpad, the
/// next id stays as it was, and the cancelled id is never handed out again.
pub proof fn law_cancel_frees_token(before: ConfigView, after: ConfigView, caller: Address, id: u64)
    requires
        before.wf(),
        before.cancel_verdict(caller, id) is Ok,
        after == (ConfigView { launchpads: before.launchpads.update(id as int, None), ..before }),
    ensures
        after.launchpad(id) is None,
        !after.token_taken(before.launchpad(id)->0.token),
        after.last_launchpad_id() == before.last_launchpad_id(),
        after.last_launchpad_id() > id,
{
    let token = before.launchpad(id)->0.token;
    if after.token_taken(token) {
        let c = choose|c: int| 0 <= c < after.launchpads.len() && sells(#[trigger] after.launchpads[c], token);
        assert(before.launchpads[c] is Some && before.launchpads[id as int] is Some);
    }
}

/// A launched launchpad cannot be launched again.
pub proof fn law_launch_once(before: ConfigView, after: ConfigView, now: u64, later: u64, id: u64)
    requires
        before.launch_verdict(now, id) is Ok,
        now <= later,
        after == (ConfigView {
            launchpads: before.launchpads.update(id as int, Some(LaunchpadView { launched: true, ..before.launchpad(id)->0 })),
            ..before
        }),
    ensures
        after.launch_verdict(later, id) == Err::<(), LaunchpadError>(LaunchpadError::AlreadyLaunched),
{
}

/// An inactive contract refuses every launchpad operation with `NotActive`.
pub proof fn law_inactive_refuses(
    s: ConfigView,
    caller: Address,
    now: u64,
    id: u64,
    payment: Option<PaymentView>,
    caller_whitelisted: bool,
    price: u128,
    min_buy_amount: u128,
    max_buy_amount: u128,
    start_time: u64,
    end_time: u64,
    token: Seq<char>,
)
    requires
        s.state == State::Inactive,
    ensures
        new_launchpad_verdict(s.state, caller_whitelisted, price, min_buy_amount, max_buy_amount, now, start_time, end_time,
            s.token_taken(token), s.last_launchpad_id() as u64) == Err::<(), LaunchpadError>(LaunchpadError::NotActive),
        s.deposit_verdict(now, id, payment) == Err::<u128, LaunchpadError>(LaunchpadError::NotActive),
        s.cancel_verdict(caller, id) == Err::<(), LaunchpadError>(LaunchpadError::NotActive),
        s.buy_verdict(caller, now, id, payment) == Err::<u128, LaunchpadError>(LaunchpadError::NotActive),
        s.launch_verdict(now, id) == Err::<(), LaunchpadError>(LaunchpadError::NotActive),
{
}

/// The contract is active only while a platform address is set.
pub proof fn law_active_needs_platform(s: ConfigView)
    requires
        s.wf(),
        s.state == State::Active,
    ensures
        s.platform_sc is Some,
{
}

/// A launchpad open for buying has the status `Active`.
pub proof fn law_open_means_active(lp: LaunchpadView, now: u64)
    requires
        lp.is_active_at(now),
    ensures
        lp.status_at(now) == Status::Active,
{
}

proof fn lemma_count_listing(entries: Seq<Option<LaunchpadView>>, bought: Seq<u128>, now: u64, filter: Option<Status>)
    ensures
        listing(entries, bought, now, 0, 0, filter).len() == entries.filter_map(pick_with_status(now, filter)).len(),
    decreases entries.len(),
{
    if entries.len() > 0 {
        lemma_count_listing(entries.drop_last(), bought, now, filter);
    }
}

/// `get_launchpads_count` with a status filter counts exactly what
/// `get_all_launchpads` lists with that filter and no index range.
pub proof fn law_count_matches_listing(s: ConfigView, now: u64, address: Address, filter: Option<Status>)
    ensures
        s.launchpads_count(now, filter) == s.all_launchpads(now, 0, 0, address, filter).len(),
{
    lemma_count_listing(s.launchpads, s.bought_by_user(address), now, filter);
}

proof fn lemma_status_partition(entries: Seq<Option<LaunchpadView>>, now: u64)
    ensures
        entries.filter_map(pick_with_status(now, None)).len() == entries.filter_map(pick_with_status(now, Some(Status::Pending))).len()
            + entries.filter_map(pick_with_status(now, Some(Status::Active))).len()
            + entries.filter_map(pick_with_status(now, Some(Status::Ended))).len()
            + entries.filter_map(pick_with_status(now, Some(Status::Launched))).len(),
    decreases entries.len(),
{
    if entries.len() > 0 {
        lemma_status_partition(entries.drop_last(), now);
    }
}

/// Every stored launchpad has exactly one status: the count of all stored
/// launchpads is the sum of the counts per status.
pub proof fn law_status_partition(s: ConfigView, now: u64)
    ensures
        s.launchpads_count(now, None) == s.launchpads_count(now, Some(Status::Pending)) + s.launchpads_count(now, Some(Status::Active))
            + s.launchpads_count(now, Some(Status::Ended)) + s.launchpads_count(now, Some(Status::Launched)),
{
    lemma_status_partition(s.launchpads, now);
}

proof fn lemma_filter_map_push<A, B>(ps: Seq<A>, e: A, f: spec_fn(A) -> Option<B>)
    ensures
        ps.push(e).filter_map(f) == match f(e) {
            Some(b) => ps.filter_map(f).push(b),
            None => ps.filter_map(f),
        },
{
    assert(ps.push(e).drop_last() =~= ps);
    match f(e) {
        Some(b) => assert(ps.filter_map(f) + seq![b] =~= ps.filter_map(f).push(b)),
        None => {},
    }
}

proof fn lemma_filter_map_update<A, B>(ps: Seq<A>, k: int, e: A, f: spec_fn(A) -> Option<B>)
    requires
        0 <= k < ps.len(),
        f(e) == f(ps[k]),
    ensures
        ps.update(k, e).filter_map(f) == ps.filter_map(f),
    decreases ps.len(),
{
    let u = ps.update(k, e);
    if k == ps.len() - 1 {
        assert(u.drop_last() =~= ps.drop_last());
    } else {
        assert(u.drop_last() =~= ps.drop_last().update(k, e));
        lemma_filter_map_update(ps.drop_last(), k, e, f);
    }
}

proof fn lemma_filter_map_has<A, B>(ps: Seq<A>, k: int, f: spec_fn(A) -> Option<B>)
    requires
        0 <= k < ps.len(),
        f(ps[k]) is Some,
    ensures
        ps.filter_map(f).contains(f(ps[k])->0),
    decreases ps.len(),
{
    let d = ps.drop_last();
    if k == ps.len() - 1 {
        assert(ps.filter_map(f) == d.filter_map(f) + seq![f(ps[k])->0]);
        assert(ps.filter_map(f)[d.filter_map(f).len() as int] == f(ps[k])->0);
    } else {
        lemma_filter_map_has(d, k, f);
        let j = choose|j: int| 0 <= j < d.filter_map(f).len() && d.filter_map(f)[j] == f(ps[k])->0;
        match f(ps.last()) {
            Some(b) => assert(ps.filter_map(f)[j] == (d.filter_map(f) + seq![b])[j]),
            None => {},
        }
    }
}

/// A purchase adds the buyer to the buyers of the launchpad, and the
/// launchpad to the launchpads of the buyer, each at the end and only the
/// first time.
pub proof fn law_purchase_joins_buyer_lists(before: ConfigView, caller: Address, id: u64, bought: u128)
    requires
        before.wf(),
        before.participation(caller, id) + bought <= u128::MAX,
    ensures
        ({
            let after = ConfigView { participations: with_purchase(before.participations, caller, id, bought), ..before };
            &&& after.launchpad_users(id) == if before.launchpad_users(id).contains(caller) {
                before.launchpad_users(id)
            } else {
                before.launchpad_users(id).push(caller)
            }
            &&& after.user_launchpads(caller) == if before.user_launchpads(caller).contains(id) {
                before.user_launchpads(caller)
            } else {
                before.user_launchpads(caller).push(id)
            }
        }),
{
    let ps = before.participations;
    let fu = buyer_in(id);
    let fl = launchpad_of(caller);
    let had = exists|k: int| 0 <= k < ps.len() && ps[k].user == caller && ps[k].launchpad_id == id;
    // the buyer is listed for `id` exactly when an entry of the pair exists, and likewise
    if ps.filter_map(fu).contains(caller) {
        ps.lemma_filter_map_contains(fu, caller);
    }
    if ps.filter_map(fl).contains(id) {
        ps.lemma_filter_map_contains(fl, id);
    }
    if had {
        let k = choose|k: int| 0 <= k < ps.len() && ps[k].user == caller && ps[k].launchpad_id == id;
        let e = Participation { user: caller, launchpad_id: id, amount: (ps[k].amount + bought) as u128 };
        lemma_filter_map_has(ps, k, fu);
        lemma_filter_map_has(ps, k, fl);
        lemma_filter_map_update(ps, k, e, fu);
        lemma_filter_map_update(ps, k, e, fl);
    } else {
        let e = Participation { user: caller, launchpad_id: id, amount: bought };
        lemma_filter_map_push(ps, e, fu);
        lemma_filter_map_push(ps, e, fl);
    }
}

/// Whether each state of `ss` follows the one before by an endpoint call.
pub open spec fn is_run(ss: Seq<ConfigView>) -> bool {
    forall|k: int| 0 <= k < ss.len() - 1 ==> step(#[trigger] ss[k], ss[k + 1])
}

proof fn lemma_run_from(ss: Seq<ConfigView>, i: int, j: int)
    requires
        is_run(ss),
        0 <= i <= j < ss.len(),
    ensures
        ss[i].wf() ==> ss[j].wf(),
        ss[i].launchpads.len() <= ss[j].launchpads.len(),
        forall|n: int| 0 <= n < ss[i].launchpads.len() ==> (#[trigger] ss[i].launchpads[n] is None ==> ss[j].launchpads[n] is None),
        forall|n: int| 0 <= n < ss[i].launchpads.len() ==> (#[trigger] ss[i].launchpads[n] matches Some(l) && l.launched
            ==> (ss[j].launchpads[n] is None || ss[j].launchpads[n]->0.launched)),
    decreases j - i,
{
    if i < j {
        lemma_run_from(ss, i, j - 1);
        assert(step(ss[j - 1], ss[j]));
        assert forall|n: int| 0 <= n < ss[i].launchpads.len() implies (#[trigger] ss[i].launchpads[n] is None ==> ss[j].launchpads[n] is None) by {
            if ss[i].launchpads[n] is None {
                assert(ss[j - 1].launchpads[n] is None);
            }
        }
        assert forall|n: int| 0 <= n < ss[i].launchpads.len() implies (#[trigger] ss[i].launchpads[n] matches Some(l) && l.launched
            ==> (ss[j].launchpads[n] is None || ss[j].launchpads[n]->0.launched)) by {
            if ss[i].launchpads[n] is Some && ss[i].launchpads[n]->0.launched {
                if ss[j - 1].launchpads[n] is None {
                    assert(ss[j].launchpads[n] is None);
                } else {
                    assert(ss[j - 1].launchpads[n] matches Some(l) && l.launched);
                }
            }
        }
    }
}

/// Every state reached from a well-formed one, such as the state `init`
/// leaves, by any sequence of endpoint calls is well-formed: each stored
/// launchpad keeps its id, a positive price, ordered limits and times, sells
/// no more than it offers, and its buyers' holdings add up to what it sold
/// and stay within its limits.
pub proof fn law_reachable_states_are_well_formed(ss: Seq<ConfigView>, k: int)
    requires
        ss.len() > 0,
        ss[0].wf(),
        is_run(ss),
        0 <= k < ss.len(),
    ensures
        ss[k].wf(),
{
    lemma_run_from(ss, 0, k);
}

/// Launchpad ids only grow over any sequence of calls: the next id never
/// goes down, a launchpad created at one call has a smaller id than any
/// created later, and an id whose launchpad was cancelled is never filled
/// again.
pub proof fn law_ids_only_grow(ss: Seq<ConfigView>, i: int, j: int, n: int)
    requires
        is_run(ss),
        0 <= i < j < ss.len(),
    ensures
        ss[i].last_launchpad_id() <= ss[j].last_launchpad_id(),
        ss[i + 1].last_launchpad_id() == ss[i].last_launchpad_id() + 1 ==> ss[i].last_launchpad_id() < ss[j].last_launchpad_id(),
        0 <= n < ss[i].launchpads.len() && ss[i].launchpads[n] is None ==> ss[j].launchpads[n] is None,
{
    lemma_run_from(ss, i + 1, j);
    lemma_run_from(ss, i, j);
    assert(step(ss[i], ss[i + 1]));
}

/// A launched launchpad is never paid out again: after it was launched, a
/// launch of it fails at any later time, whatever calls come between.
pub proof fn law_launch_pays_out_once(ss: Seq<ConfigView>, id: u64, k: int, now: u64)
    requires
        is_run(ss),
        ss.len() > 0,
        ss[0].launchpad(id) matches Some(l) && l.launched,
        0 <= k < ss.len(),
    ensures
        ss[k].launch_verdict(now, id) is Err,
{
    lemma_run_from(ss, 0, k);
    assert(ss[0].launchpads[id as int] is Some);
}

proof fn lemma_present_count_bound(e: Seq<Option<LaunchpadView>>)
    ensures
        present_count(e) <= e.len(),
    decreases e.len(),
{
    if e.len() > 0 {
        lemma_present_count_bound(e.drop_last());
    }
}

proof fn lemma_count_all_is_present(e: Seq<Option<LaunchpadView>>, now: u64)
    ensures
        e.filter_map(pick_with_status(now, None)).len() == present_count(e),
    decreases e.len(),
{
    if e.len() > 0 {
        lemma_count_all_is_present(e.drop_last(), now);
    }
}

proof fn lemma_page_beyond(e: Seq<Option<LaunchpadView>>, bought: Seq<u128>, now: u64, a: u64, b: u64, f: Option<Status>)
    requires
        a >= present_count(e),
        !(a == 0 && b == 0),
    ensures
        listing(e, bought, now, a, b, f) == Seq::<LaunchpadView>::empty(),
    decreases e.len(),
{
    if e.len() > 0 {
        lemma_page_beyond(e.drop_last(), bought, now, a, b, f);
    }
}

proof fn lemma_pages_join(e: Seq<Option<LaunchpadView>>, bought: Seq<u128>, now: u64, a: u64, b: u64, c: u64, f: Option<Status>)
    requires
        a <= b < c,
        !(a == 0 && b == 0),
    ensures
        listing(e, bought, now, a, b, f) + listing(e, bought, now, (b + 1) as u64, c, f) == listing(e, bought, now, a, c, f),
    decreases e.len(),
{
    if e.len() == 0 {
        assert(Seq::<LaunchpadView>::empty() + Seq::<LaunchpadView>::empty() =~= Seq::<LaunchpadView>::empty());
    } else {
        let d = e.drop_last();
        lemma_pages_join(d, bought, now, a, b, c, f);
        let m = present_count(d);
        if e.last() is Some && m <= b {
            lemma_page_beyond(d, bought, now, (b + 1) as u64, c, f);
            let l1 = listing(d, bought, now, a, b, f);
            assert(l1 + Seq::<LaunchpadView>::empty() =~= l1);
        }
        let l1 = listing(d, bought, now, a, b, f);
        let l2 = listing(d, bought, now, (b + 1) as u64, c, f);
        match e.last() {
            Some(lp) => {
                let x = LaunchpadView { status: lp.status_at(now), user_bought: bought[e.len() - 1], ..lp };
                assert(l1 + l2.push(x) =~= (l1 + l2).push(x));
                assert(l1.push(x) + Seq::<LaunchpadView>::empty() =~= l1.push(x));
            },
            None => {},
        }
    }
}

proof fn lemma_page_whole(e: Seq<Option<LaunchpadView>>, bought: Seq<u128>, now: u64, c: u64, f: Option<Status>)
    requires
        c >= 1,
        present_count(e) <= c + 1,
    ensures
        listing(e, bought, now, 0, c, f) == listing(e, bought, now, 0, 0, f),
    decreases e.len(),
{
    if e.len() > 0 {
        lemma_page_whole(e.drop_last(), bought, now, c, f);
    }
}

/// Pages of `get_all_launchpads` join up: with `n` stored launchpads and
/// `2 <= k < n`, the page of numbers `0..=k-1` followed by the page
/// `k..=n-1` is the listing of all of them, under any status filter.
pub proof fn law_pages_join(s: ConfigView, now: u64, k: u64, address: Address, filter: Option<Status>)
    requires
        s.wf(),
        2 <= k < s.launchpads_count(now, None),
    ensures
        s.all_launchpads(now, 0, (k - 1) as u64, address, filter)
            + s.all_launchpads(now, k, (s.launchpads_count(now, None) - 1) as u64, address, filter)
            == s.all_launchpads(now, 0, 0, address, filter),
{
    let e = s.launchpads;
    let n = s.launchpads_count(now, None);
    lemma_count_all_is_present(e, now);
    lemma_present_count_bound(e);
    let b = s.bought_by_user(address);
    lemma_pages_join(e, b, now, 0, (k - 1) as u64, (n - 1) as u64, filter);
    lemma_page_whole(e, b, now, (n - 1) as u64, filter);
}

proof fn lemma_raise_one(e: Seq<Option<LaunchpadView>>, i: int, lp: LaunchpadView, x: u128)
    requires
        0 <= i < e.len(),
        e[i] matches Some(old) && old.payment_token == lp.payment_token && lp.total_raised == old.total_raised + x,
    ensures
        payment_tokens(e.update(i, Some(lp))) == payment_tokens(e),
        forall|t: Seq<char>| #[trigger] raised_in(e.update(i, Some(lp)), t) == raised_in(e, t) + if t == lp.payment_token { x as nat } else { 0 },
    decreases e.len(),
{
    let u = e.update(i, Some(lp));
    if i == e.len() - 1 {
        assert(u.drop_last() =~= e.drop_last());
    } else {
        assert(u.drop_last() =~= e.drop_last().update(i, Some(lp)));
        lemma_raise_one(e.drop_last(), i, lp, x);
    }
    assert forall|t: Seq<char>| #[trigger] raised_in(u, t) == raised_in(e, t) + if t == lp.payment_token { x as nat } else { 0 } by {
        assert(raised_in(u, t) == raised_in(u.drop_last(), t) + match u.last() {
            Some(l) => if l.payment_token == t { l.total_raised as nat } else { 0 },
            None => 0,
        });
    }
}

/// After a purchase, the total raised in its payment token grows by the
/// payment, and every other entry of `get_total_raised` and the order of the
/// entries stay as they were.
pub proof fn law_purchase_adds_to_total_raised(
    before: ConfigView,
    after: ConfigView,
    caller: Address,
    now: u64,
    id: u64,
    payment: PaymentView,
)
    requires
        before.wf(),
        before.buy_verdict(caller, now, id, Some(payment)) is Ok,
        after == (ConfigView {
            launchpads: before.launchpads.update(id as int, Some(LaunchpadView {
                total_raised: (before.launchpad(id)->0.total_raised + payment.amount) as u128,
                total_sold: (before.launchpad(id)->0.total_sold + before.buy_verdict(caller, now, id, Some(payment))->Ok_0) as u128,
                ..before.launchpad(id)->0
            })),
            participations: with_purchase(before.participations, caller, id, before.buy_verdict(caller, now, id, Some(payment))->Ok_0),
            ..before
        }),
        forall|t: Seq<char>| raised_in(after.launchpads, t) <= u128::MAX,
    ensures
        after.total_raised().len() == before.total_raised().len(),
        forall|k: int| 0 <= k < after.total_raised().len() ==> {
            &&& (#[trigger] after.total_raised()[k]).token == before.total_raised()[k].token
            &&& after.total_raised()[k].amount == before.total_raised()[k].amount
                + if before.total_raised()[k].token == payment.token { payment.amount as int } else { 0 }
        },
{
    let lp = after.launchpads[id as int]->0;
    lemma_raise_one(before.launchpads, id as int, lp, payment.amount);
    assert forall|k: int| 0 <= k < after.total_raised().len() implies {
        &&& (#[trigger] after.total_raised()[k]).token == before.total_raised()[k].token
        &&& after.total_raised()[k].amount == before.total_raised()[k].amount
            + if before.total_raised()[k].token == payment.token { payment.amount as int } else { 0 }
    } by {
        let t = payment_tokens(before.launchpads)[k];
        assert(raised_in(after.launchpads, t) <= u128::MAX);
    }
}

/// Between two calls that each create a launchpad, with no creation in
/// between, the second one hands out the id right after the first: a call
/// that creates a launchpad is one that adds an id.
pub proof fn law_consecutive_ids(ss: Seq<ConfigView>, i: int, j: int)
    requires
        is_run(ss),
        0 <= i < j,
        j + 1 < ss.len(),
        ss[i + 1].last_launchpad_id() == ss[i].last_launchpad_id() + 1,
        ss[j + 1].last_launchpad_id() == ss[j].last_launchpad_id() + 1,
        forall|k: int| i < k < j ==> #[trigger] ss[k + 1].last_launchpad_id() == ss[k].last_launchpad_id(),
    ensures
        ss[j].last_launchpad_id() == ss[i].last_launchpad_id() + 1,
        ss[j + 1].last_launchpad_id() == ss[i + 1].last_launchpad_id() + 1,
{
    lemma_ids_unchanged(ss, i + 1, j);
}

proof fn lemma_ids_unchanged(ss: Seq<ConfigView>, a: int, b: int)
    requires
        0 <= a <= b < ss.len(),
        forall|k: int| a <= k < b ==> #[trigger] ss[k + 1].last_launchpad_id() == ss[k].last_launchpad_id(),
    ensures
        ss[b].last_launchpad_id() == ss[a].last_launchpad_id(),
    decreases b - a,
{
    if a < b {
        lemma_ids_unchanged(ss, a, b - 1);
        assert(ss[(b - 1) + 1].last_launchpad_id() == ss[b - 1].last_launchpad_id());
    }
}

/// After a purchase, the sum raised in its payment token grows by the
/// payment, the sums in every other token stay, and the payment tokens keep
/// their order of first appearance, whatever the size of the sums.
pub proof fn law_purchase_adds_to_raised_sums(
    before: ConfigView,
    after: ConfigView,
    caller: Address,
    now: u64,
    id: u64,
    payment: PaymentView,
)
    requires
        before.wf(),
        before.buy_verdict(caller, now, id, Some(payment)) is Ok,
        after == (ConfigView {
            launchpads: before.launchpads.update(id as int, Some(LaunchpadView {
                total_raised: (before.launchpad(id)->0.total_raised + payment.amount) as u128,
                total_sold: (before.launchpad(id)->0.total_sold + before.buy_verdict(caller, now, id, Some(payment))->Ok_0) as u128,
                ..before.launchpad(id)->0
            })),
            participations: with_purchase(before.participations, caller, id, before.buy_verdict(caller, now, id, Some(payment))->Ok_0),
            ..before
        }),
    ensures
        payment_tokens(after.launchpads) == payment_tokens(before.launchpads),
        forall|t: Seq<char>| #[trigger] raised_in(after.launchpads, t)
            == raised_in(before.launchpads, t) + if t == payment.token { payment.amount as nat } else { 0 },
{
    let lp = after.launchpads[id as int]->0;
    lemma_raise_one(before.launchpads, id as int, lp, payment.amount);
}

/// A purchase in the sale window of a launchpad with unsold tokens, paid in
/// its payment token, that buys `payment * ONE / price` units reaching the
/// minimum, keeping the buyer's holding within the maximum, the units sold
/// within those offered and the raised total within 128 bits, succeeds with
/// those units, whatever the buyer already holds.
pub proof fn law_purchase_within_limits_succeeds(s: ConfigView, caller: Address, now: u64, id: u64, payment: PaymentView)
    requires
        s.state == State::Active,
        s.launchpad(id) is Some,
        ({
            let lp = s.launchpad(id)->0;
            let units = (payment.amount * ONE) / (lp.price as int);
            &&& lp.start_time <= now <= lp.end_time
            &&& lp.total_sold < lp.amount
            &&& payment.token == lp.payment_token
            &&& lp.min_buy_amount <= units
            &&& s.participation(caller, id) + units <= lp.max_buy_amount
            &&& lp.total_sold + units <= lp.amount
            &&& lp.total_raised + payment.amount <= u128::MAX
        }),
    ensures
        s.buy_verdict(caller, now, id, Some(payment)) == Ok::<u128, LaunchpadError>(
            ((payment.amount * ONE) / (s.launchpad(id)->0.price as int)) as u128,
        ),
{
}

/// A purchase is refused for want of tokens only when the units it buys,
/// added to the units already sold by the launchpad, exceed those offered;
/// what the buyer held before does not count against the stock.
pub proof fn law_insufficient_funds_means_stock_exceeded(s: ConfigView, caller: Address, now: u64, id: u64, payment: PaymentView)
    requires
        s.buy_verdict(caller, now, id, Some(payment)) == Err::<u128, LaunchpadError>(LaunchpadError::InsufficientFunds),
    ensures
        s.launchpad(id) is Some,
        (payment.amount * ONE) / (s.launchpad(id)->0.price as int) + s.launchpad(id)->0.total_sold > s.launchpad(id)->0.amount,
{
}

/// A launchpad is launched only after its end time; before or at its end a
/// launch of an existing launchpad in an active contract is refused with
/// `LaunchpadNotEnded`, whatever was sold.
pub proof fn law_launch_only_after_end(s: ConfigView, now: u64, id: u64)
    ensures
        s.launch_verdict(now, id) is Ok ==> s.launchpad(id) is Some && s.launchpad(id)->0.end_time < now,
        s.state == State::Active && s.launchpad(id) is Some && now <= s.launchpad(id)->0.end_time
            ==> s.launch_verdict(now, id) == Err::<(), LaunchpadError>(LaunchpadError::LaunchpadNotEnded),
{
}

/// Only the owner of a launchpad can cancel it, and only before any sale;
/// any other caller is refused with `OnlyLaunchpadOwner` when the contract is
/// active and the launchpad exists, whatever was deposited.
pub proof fn law_only_owner_cancels(s: ConfigView, caller: Address, id: u64)
    ensures
        s.cancel_verdict(caller, id) is Ok ==> s.launchpad(id) is Some && s.launchpad(id)->0.owner == caller
            && s.launchpad(id)->0.total_sold == 0,
        s.state == State::Active && s.launchpad(id) is Some && s.launchpad(id)->0.owner != caller
            ==> s.cancel_verdict(caller, id) == Err::<(), LaunchpadError>(LaunchpadError::OnlyLaunchpadOwner),
{
}

/// `get_all_launchpads_since(now, timestamp)` lists exactly the stored
/// launchpads that end after `timestamp`, each as stored but with its status
/// at the current time `now`: `Active` within its window, `Pending` before it,
/// and after it `Launched` or `Ended`.
pub proof fn law_since_lists_status_at_current_time(s: ConfigView, now: u64, timestamp: u64, l: LaunchpadView)
    ensures
        s.launchpads_since(now, timestamp).contains(l) <==> exists|id: int|
            0 <= id < s.launchpads.len() && (#[trigger] s.launchpads[id]) is Some && {
                let lp = s.launchpads[id]->0;
                &&& lp.end_time > timestamp
                &&& l == (LaunchpadView { status: l.status, ..lp })
                &&& l.status == if lp.start_time <= now && now <= lp.end_time {
                    Status::Active
                } else if lp.end_time < now {
                    if lp.launched { Status::Launched } else { Status::Ended }
                } else {
                    Status::Pending
                }
            },
{
    let e = s.launchpads;
    let f = pick_ending_after(now, timestamp);
    if e.filter_map(f).contains(l) {
        e.lemma_filter_map_contains(f, l);
        let t = choose|t: Option<LaunchpadView>| #[trigger] e.contains(t) && f(t) == Some(l);
        let id = choose|id: int| 0 <= id < e.len() && e[id] == t;
        assert(e[id] is Some);
    }
    if exists|id: int| 0 <= id < e.len() && (#[trigger] e[id]) is Some && {
        let lp = e[id]->0;
        &&& lp.end_time > timestamp
        &&& l == (LaunchpadView { status: l.status, ..lp })
        &&& l.status == if lp.start_time <= now && now <= lp.end_time {
            Status::Active
        } else if lp.end_time < now {
            if lp.launched { Status::Launched } else { Status::Ended }
        } else {
            Status::Pending
        }
    } {
        let id = choose|id: int| 0 <= id < e.len() && (#[trigger] e[id]) is Some && {
            let lp = e[id]->0;
            &&& lp.end_time > timestamp
            &&& l == (LaunchpadView { status: l.status, ..lp })
            &&& l.status == if lp.start_time <= now && now <= lp.end_time {
                Status::Active
            } else if lp.end_time < now {
                if lp.launched { Status::Launched } else { Status::Ended }
            } else {
                Status::Pending
            }
        };
        lemma_filter_map_has(e, id, f);
        assert(f(e[id])->0 == l);
    }
}

/// `get_active_launchpads(now)` lists exactly the stored launchpads, as
/// stored, that are open for buying at `now`: within their window and with
/// tokens left unsold. A sold-out launchpad, or one with nothing deposited,
/// is not listed.
pub proof fn law_active_lists_open_launchpads(s: ConfigView, now: u64, l: LaunchpadView)
    ensures
        s.active_launchpads(now).contains(l) <==> exists|id: int|
            0 <= id < s.launchpads.len() && #[trigger] s.launchpads[id] == Some(l)
                && l.start_time <= now && now <= l.end_time && l.total_sold < l.amount,
{
    let e = s.launchpads;
    let f = pick_active(now);
    if e.filter_map(f).contains(l) {
        e.lemma_filter_map_contains(f, l);
        let t = choose|t: Option<LaunchpadView>| #[trigger] e.contains(t) && f(t) == Some(l);
        let id = choose|id: int| 0 <= id < e.len() && e[id] == t;
        assert(e[id] == Some(l));
    }
    if exists|id: int| 0 <= id < e.len() && #[trigger] e[id] == Some(l) && l.start_time <= now && now <= l.end_time
        && l.total_sold < l.amount {
        let id = choose|id: int| 0 <= id < e.len() && #[trigger] e[id] == Some(l) && l.start_time <= now && now <= l.end_time
            && l.total_sold < l.amount;
        lemma_filter_map_has(e, id, f);
    }
}

} // verus!
