//! The read-only views over the stored launchpads, as functions of the
//! launchpad entries indexed by id (`None` where a launchpad was cancelled).
use vstd::prelude::*;

use crate::common::config::{sells, Launchpad, LaunchpadView, Status};
use crate::common::types::{payments_view, EsdtTokenPayment, PaymentView};

verus! {

/// A launchpad with its status at `now` filled in.
pub open spec fn with_status(lp: LaunchpadView, now: u64) -> LaunchpadView {
    LaunchpadView { status: lp.status_at(now), ..lp }
}

/// Whether `status` passes the optional status `filter`.
pub open spec fn status_matches(filter: Option<Status>, status: Status) -> bool {
    match filter {
        None => true,
        Some(f) => status == f,
    }
}

/// Picks the stored launchpads that end after `timestamp`, with their status
/// at `now`.
pub open spec fn pick_ending_after(now: u64, timestamp: u64) -> spec_fn(Option<LaunchpadView>) -> Option<LaunchpadView> {
    |e: Option<LaunchpadView>| match e {
        Some(lp) => if lp.end_time > timestamp { Some(with_status(lp, now)) } else { None },
        None => None,
    }
}

/// Picks the stored launchpads that are active at `now`.
pub open spec fn pick_active(now: u64) -> spec_fn(Option<LaunchpadView>) -> Option<LaunchpadView> {
    |e: Option<LaunchpadView>| match e {
        Some(lp) => if lp.is_active_at(now) { Some(lp) } else { None },
        None => None,
    }
}

/// Picks the stored launchpads that are neither launched nor active at `now`.
pub open spec fn pick_ended_not_launched(now: u64) -> spec_fn(Option<LaunchpadView>) -> Option<LaunchpadView> {
    |e: Option<LaunchpadView>| match e {
        Some(lp) => if !lp.launched && !lp.is_active_at(now) { Some(lp) } else { None },
        None => None,
    }
}

/// Picks the stored launchpads whose status at `now` passes `filter`.
pub open spec fn pick_with_status(now: u64, filter: Option<Status>) -> spec_fn(Option<LaunchpadView>) -> Option<LaunchpadView> {
    |e: Option<LaunchpadView>| match e {
        Some(lp) => if status_matches(filter, lp.status_at(now)) { Some(lp) } else { None },
        None => None,
    }
}

/// The number of stored launchpads among `entries`.
pub open spec fn present_count(entries: Seq<Option<LaunchpadView>>) -> nat
    decreases entries.len(),
{
    if entries.len() == 0 {
        0
    } else {
        present_count(entries.drop_last()) + if entries.last() is Some { 1nat } else { 0 }
    }
}

/// The launchpads as plain values.
pub open spec fn launchpads_view(v: Seq<Launchpad>) -> Seq<LaunchpadView> {
    v.map_values(|l: Launchpad| l@)
}

/// The listing of `get_all_launchpads` over `entries`: each stored
/// launchpad, numbered in id order among the stored ones, is listed when its
/// status at `now` passes `filter` and its number lies within
/// `start_idx..=end_idx` (any number when both are 0); it is listed with that
/// status and with `bought` at its position, what the asking address bought
/// in it.
pub open spec fn listing(
    entries: Seq<Option<LaunchpadView>>,
    bought: Seq<u128>,
    now: u64,
    start_idx: u64,
    end_idx: u64,
    filter: Option<Status>,
) -> Seq<LaunchpadView>
    decreases entries.len(),
{
    if entries.len() == 0 {
        seq![]
    } else {
        let rest = listing(entries.drop_last(), bought, now, start_idx, end_idx, filter);
        match entries.last() {
            None => rest,
            Some(lp) => {
                let number = present_count(entries.drop_last());
                let status = lp.status_at(now);
                let index_ok = (start_idx == 0 && end_idx == 0) || (start_idx <= number && number <= end_idx);
                if status_matches(filter, status) && index_ok {
                    rest.push(LaunchpadView { status, user_bought: bought[entries.len() - 1], ..lp })
                } else {
                    rest
                }
            },
        }
    }
}

/// The stored entries as plain values.
pub open spec fn entries_view(entries: Seq<Option<Launchpad>>) -> Seq<Option<LaunchpadView>> {
    entries.map_values(|e: Option<Launchpad>| entry_view(e))
}

/// A stored entry as plain values.
pub open spec fn entry_view(entry: Option<Launchpad>) -> Option<LaunchpadView> {
    match entry {
        Some(lp) => Some(lp@),
        None => None,
    }
}

/// Whether a stored entry holds a launchpad that sells `token`.
pub fn sells_token(entry: &Option<Launchpad>, token: &String) -> (r: bool)
    ensures
        r == sells(entry_view(*entry), token@),
{
    match entry {
        Some(lp) => lp.token == *token,
        None => false,
    }
}

/// The distinct payment tokens of the stored launchpads among `entries`, in
/// the order in which they first appear.
pub open spec fn payment_tokens(entries: Seq<Option<LaunchpadView>>) -> Seq<Seq<char>>
    decreases entries.len(),
{
    if entries.len() == 0 {
        seq![]
    } else {
        let tokens = payment_tokens(entries.drop_last());
        match entries.last() {
            Some(lp) => if tokens.contains(lp.payment_token) {
                tokens
            } else {
                tokens.push(lp.payment_token)
            },
            None => tokens,
        }
    }
}

/// The sum raised in `token` by the stored launchpads among `entries`.
pub open spec fn raised_in(entries: Seq<Option<LaunchpadView>>, token: Seq<char>) -> nat
    decreases entries.len(),
{
    if entries.len() == 0 {
        0
    } else {
        raised_in(entries.drop_last(), token) + match entries.last() {
            Some(lp) => if lp.payment_token == token { lp.total_raised as nat } else { 0 },
            None => 0,
        }
    }
}

/// For each distinct payment token of the stored launchpads among
/// `entries`, in order of first appearance, the sum raised in it.
pub open spec fn raised_totals(entries: Seq<Option<LaunchpadView>>) -> Seq<PaymentView> {
    payment_tokens(entries).map_values(|t: Seq<char>| PaymentView { token: t, nonce: 0, amount: raised_in(entries, t) as u128 })
}

proof fn lemma_payment_tokens_distinct(entries: Seq<Option<LaunchpadView>>)
    ensures
        forall|a: int, b: int| 0 <= a < b < payment_tokens(entries).len() ==> payment_tokens(entries)[a] != payment_tokens(entries)[b],
    decreases entries.len(),
{
    if entries.len() > 0 {
        let d = entries.drop_last();
        lemma_payment_tokens_distinct(d);
        let t = payment_tokens(d);
        match entries.last() {
            Some(lp) => if !t.contains(lp.payment_token) {
                assert forall|a: int| 0 <= a < t.len() implies t[a] != lp.payment_token by {
                    if t[a] == lp.payment_token {
                        assert(t.contains(lp.payment_token));
                    }
                }
            },
            None => {},
        }
    }
}

proof fn lemma_raised_in_absent(entries: Seq<Option<LaunchpadView>>, token: Seq<char>)
    requires
        !payment_tokens(entries).contains(token),
    ensures
        raised_in(entries, token) == 0,
    decreases entries.len(),
{
    if entries.len() > 0 {
        let d = entries.drop_last();
        let t = payment_tokens(d);
        if t.contains(token) {
            let k = choose|k: int| 0 <= k < t.len() && t[k] == token;
            match entries.last() {
                Some(lp) => if !t.contains(lp.payment_token) {
                    assert(payment_tokens(entries)[k] == token);
                } else {
                    assert(payment_tokens(entries)[k] == token);
                },
                None => { assert(payment_tokens(entries)[k] == token); },
            }
        }
        match entries.last() {
            Some(lp) => if lp.payment_token == token {
                if t.contains(lp.payment_token) {
                } else {
                    assert(payment_tokens(entries)[t.len() as int] == token);
                }
            },
            None => {},
        }
        lemma_raised_in_absent(d, token);
    }
}

proof fn lemma_raised_in_prefix(entries: Seq<Option<LaunchpadView>>, i: int, token: Seq<char>)
    requires
        0 <= i <= entries.len(),
    ensures
        raised_in(entries.take(i), token) <= raised_in(entries, token),
    decreases entries.len(),
{
    if i == entries.len() {
        assert(entries.take(i) =~= entries);
    } else {
        let d = entries.drop_last();
        assert(entries.take(i) =~= d.take(i));
        lemma_raised_in_prefix(d, i, token);
    }
}


proof fn lemma_token_count(raised: Seq<EsdtTokenPayment>, entries: Seq<Option<LaunchpadView>>)
    requires
        payments_view(raised) == raised_totals(entries),
    ensures
        raised.len() == payment_tokens(entries).len(),
{
    assert(payments_view(raised).len() == raised.len());
}

proof fn lemma_token_at(raised: Seq<EsdtTokenPayment>, entries: Seq<Option<LaunchpadView>>, k: int)
    requires
        payments_view(raised) == raised_totals(entries),
        0 <= k < raised.len(),
    ensures
        raised[k].token_identifier@ == payment_tokens(entries)[k],
        raised[k].amount == raised_in(entries, payment_tokens(entries)[k]) as u128,
        raised[k].token_nonce == 0,
{
    lemma_token_count(raised, entries);
    assert(payments_view(raised)[k].token == raised[k].token_identifier@);
    assert(raised_totals(entries)[k].token == payment_tokens(entries)[k]);
    assert(payments_view(raised)[k] == raised_totals(entries)[k]);
}

/// Lists the stored launchpads among `entries`, each with its status at
/// `current_time` and with `bought` at its position. Launchpads are numbered
/// in id order among the stored ones; when `start_idx` or `end_idx` is
/// nonzero only those numbered `start_idx..=end_idx` are listed, and when
/// `status` is given only those with that status.
pub fn list_launchpads(
    entries: &Vec<Option<Launchpad>>,
    bought: &Vec<u128>,
    current_time: u64,
    start_idx: u64,
    end_idx: u64,
    status: Option<Status>,
) -> (r: Vec<Launchpad>)
    requires
        bought.len() == entries.len(),
    ensures
        launchpads_view(r@) == listing(entries_view(entries@), bought@, current_time, start_idx, end_idx, status),
{
    let ghost ev = entries_view(entries@);
    let all_indexes = start_idx == 0 && end_idx == 0;
    let mut launchpads: Vec<Launchpad> = Vec::new();
    let mut real_idx: u64 = 0;
    let n = entries.len();
    let mut i: usize = 0;
    while i < n
        invariant
            n == entries.len(),
            n == bought.len(),
            i <= n,
            ev == entries_view(entries@),
            all_indexes == (start_idx == 0 && end_idx == 0),
            real_idx == present_count(ev.take(i as int)),
            real_idx <= i,
            launchpads_view(launchpads@) == listing(ev.take(i as int), bought@, current_time, start_idx, end_idx, status),
        decreases n - i,
    {
        assert(ev.take(i + 1).drop_last() =~= ev.take(i as int));
        assert(entry_view(entries@[i as int]) == ev[i as int]);
        match &entries[i] {
            None => {},
            Some(stored) => {
                let mut launchpad = stored.clone();
                launchpad.status = launchpad.get_status(current_time);
                let status_ok = match status {
                    None => true,
                    Some(f) => launchpad.status == f,
                };
                let idx_ok = all_indexes || (real_idx >= start_idx && real_idx <= end_idx);
                if status_ok && idx_ok {
                    launchpad.user_bought = bought[i];
                    let ghost before = launchpads@;
                    launchpads.push(launchpad);
                    assert(launchpads_view(launchpads@) =~= launchpads_view(before).push(launchpad@));
                }
                real_idx = real_idx + 1;
            },
        }
        i += 1;
    }
    assert(ev.take(n as int) =~= ev);
    launchpads
}

/// Counts the stored launchpads among `entries` whose status at
/// `current_time` is `status`, or all of them when `status` is `None`.
pub fn count_launchpads(entries: &Vec<Option<Launchpad>>, current_time: u64, status: Option<Status>) -> (r: u64)
    ensures
        r == entries_view(entries@).filter_map(pick_with_status(current_time, status)).len(),
{
    let ghost ev = entries_view(entries@);
    let mut count: u64 = 0;
    let n = entries.len();
    let mut i: usize = 0;
    while i < n
        invariant
            n == entries.len(),
            i <= n,
            ev == entries_view(entries@),
            count == ev.take(i as int).filter_map(pick_with_status(current_time, status)).len(),
            count <= i,
        decreases n - i,
    {
        proof { ev.lemma_filter_map_take_succ(pick_with_status(current_time, status), i as int); }
        assert(entry_view(entries@[i as int]) == ev[i as int]);
        match &entries[i] {
            None => {},
            Some(launchpad) => {
                let ok = match status {
                    None => true,
                    Some(f) => launchpad.get_status(current_time) == f,
                };
                if ok {
                    count = count + 1;
                }
            },
        }
        i += 1;
    }
    assert(ev.take(n as int) =~= ev);
    count
}

/// The stored launchpads among `entries` that end after `timestamp`, each
/// with its status at `current_time`.
pub fn launchpads_ending_after(entries: &Vec<Option<Launchpad>>, current_time: u64, timestamp: u64) -> (r: Vec<Launchpad>)
    ensures
        launchpads_view(r@) == entries_view(entries@).filter_map(pick_ending_after(current_time, timestamp)),
{
    let ghost ev = entries_view(entries@);
    let mut launchpads: Vec<Launchpad> = Vec::new();
    let n = entries.len();
    let mut i: usize = 0;
    while i < n
        invariant
            n == entries.len(),
            i <= n,
            ev == entries_view(entries@),
            launchpads_view(launchpads@) == ev.take(i as int).filter_map(pick_ending_after(current_time, timestamp)),
        decreases n - i,
    {
        proof { ev.lemma_filter_map_take_succ(pick_ending_after(current_time, timestamp), i as int); }
        assert(entry_view(entries@[i as int]) == ev[i as int]);
        match &entries[i] {
            None => {},
            Some(stored) => {
                if stored.end_time > timestamp {
                    let mut launchpad = stored.clone();
                    launchpad.status = launchpad.get_status(current_time);
                    let ghost before = launchpads@;
                    launchpads.push(launchpad);
                    assert(launchpads_view(launchpads@) =~= launchpads_view(before) + seq![launchpad@]);
                }
            },
        }
        i += 1;
    }
    assert(ev.take(n as int) =~= ev);
    launchpads
}

/// The stored launchpads among `entries` that are active at `now`.
pub fn active_launchpads(entries: &Vec<Option<Launchpad>>, now: u64) -> (r: Vec<Launchpad>)
    ensures
        launchpads_view(r@) == entries_view(entries@).filter_map(pick_active(now)),
{
    let ghost ev = entries_view(entries@);
    let mut launchpads: Vec<Launchpad> = Vec::new();
    let n = entries.len();
    let mut i: usize = 0;
    while i < n
        invariant
            n == entries.len(),
            i <= n,
            ev == entries_view(entries@),
            launchpads_view(launchpads@) == ev.take(i as int).filter_map(pick_active(now)),
        decreases n - i,
    {
        proof { ev.lemma_filter_map_take_succ(pick_active(now), i as int); }
        assert(entry_view(entries@[i as int]) == ev[i as int]);
        match &entries[i] {
            None => {},
            Some(stored) => {
                if stored.is_active(now) {
                    let ghost before = launchpads@;
                    launchpads.push(stored.clone());
                    assert(launchpads_view(launchpads@) =~= launchpads_view(before) + seq![stored@]);
                }
            },
        }
        i += 1;
    }
    assert(ev.take(n as int) =~= ev);
    launchpads
}

/// The stored launchpads among `entries` that are neither launched nor
/// active at `now`.
pub fn ended_launchpads_not_launched(entries: &Vec<Option<Launchpad>>, now: u64) -> (r: Vec<Launchpad>)
    ensures
        launchpads_view(r@) == entries_view(entries@).filter_map(pick_ended_not_launched(now)),
{
    let ghost ev = entries_view(entries@);
    let mut launchpads: Vec<Launchpad> = Vec::new();
    let n = entries.len();
    let mut i: usize = 0;
    while i < n
        invariant
            n == entries.len(),
            i <= n,
            ev == entries_view(entries@),
            launchpads_view(launchpads@) == ev.take(i as int).filter_map(pick_ended_not_launched(now)),
        decreases n - i,
    {
        proof { ev.lemma_filter_map_take_succ(pick_ended_not_launched(now), i as int); }
        assert(entry_view(entries@[i as int]) == ev[i as int]);
        match &entries[i] {
            None => {},
            Some(stored) => {
                if !stored.launched && !stored.is_active(now) {
                    let ghost before = launchpads@;
                    launchpads.push(stored.clone());
                    assert(launchpads_view(launchpads@) =~= launchpads_view(before) + seq![stored@]);
                }
            },
        }
        i += 1;
    }
    assert(ev.take(n as int) =~= ev);
    launchpads
}

/// Appending one entry to `entries`: the tokens gain its payment token if
/// new, and the sum of that token grows by what it raised.
proof fn lemma_totals_step(e: Seq<Option<LaunchpadView>>, x: Option<LaunchpadView>)
    ensures
        payment_tokens(e.push(x)) == match x {
            Some(lp) => if payment_tokens(e).contains(lp.payment_token) {
                payment_tokens(e)
            } else {
                payment_tokens(e).push(lp.payment_token)
            },
            None => payment_tokens(e),
        },
        forall|t: Seq<char>| #[trigger] raised_in(e.push(x), t) == raised_in(e, t) + match x {
            Some(lp) => if lp.payment_token == t { lp.total_raised as nat } else { 0 },
            None => 0,
        },
{
    assert(e.push(x).drop_last() =~= e);
}

/// For each payment token of the stored launchpads among `entries`, in order
/// of first appearance, the sum they raised in it; `None` when such a sum
/// does not fit in a `u128`.
pub fn total_raised(entries: &Vec<Option<Launchpad>>) -> (r: Option<Vec<EsdtTokenPayment>>)
    ensures
        r is Some <==> forall|t: Seq<char>| raised_in(entries_view(entries@), t) <= u128::MAX,
        r matches Some(v) ==> payments_view(v@) == raised_totals(entries_view(entries@)),
{
    let ghost ev = entries_view(entries@);
    let mut raised: Vec<EsdtTokenPayment> = Vec::new();
    let n = entries.len();
    let mut i: usize = 0;
    assert(payments_view(raised@) =~= raised_totals(ev.take(0)));
    while i < n
        invariant
            n == entries.len(),
            i <= n,
            ev == entries_view(entries@),
            forall|t: Seq<char>| raised_in(ev.take(i as int), t) <= u128::MAX,
            payments_view(raised@) == raised_totals(ev.take(i as int)),
        decreases n - i,
    {
        let ghost e = ev.take(i as int);
        let ghost e1 = ev.take(i + 1);
        assert(e1 =~= e.push(ev[i as int]));
        proof {
            lemma_payment_tokens_distinct(e);
            lemma_totals_step(e, ev[i as int]);
            lemma_token_count(raised@, e);
        }
        let ghost tokens = payment_tokens(e);
        assert(entry_view(entries@[i as int]) == ev[i as int]);
        match &entries[i] {
            None => {
                assert forall|k: int| 0 <= k < tokens.len() implies #[trigger] payments_view(raised@)[k] == raised_totals(e1)[k] by {
                    lemma_token_at(raised@, e, k);
                }
                assert(payments_view(raised@) =~= raised_totals(e1));
            },
            Some(launchpad) => {
                let ghost token = launchpad.payment_token@;
                let m = raised.len();
                let mut j: usize = 0;
                let mut found = false;
                while j < m
                    invariant_except_break
                        !found,
                    invariant
                        m == raised.len(),
                        j <= m,
                        token == launchpad.payment_token@,
                        forall|k: int| 0 <= k < j ==> (#[trigger] raised@[k]).token_identifier@ != token,
                    ensures
                        found ==> j < m && raised@[j as int].token_identifier@ == token,
                        !found ==> forall|k: int| 0 <= k < m ==> (#[trigger] raised@[k]).token_identifier@ != token,
                    decreases m - j,
                {
                    if raised[j].token_identifier == launchpad.payment_token {
                        found = true;
                        break;
                    }
                    j += 1;
                }
                proof {
                    lemma_raised_in_prefix(ev, i + 1, token);
                }
                if found {
                    proof { lemma_token_at(raised@, e, j as int); }
                    assert(tokens[j as int] == token);
                    assert(tokens.contains(token));
                    let ghost before = raised@;
                    let amount = match raised[j].amount.checked_add(launchpad.total_raised) {
                        Some(a) => a,
                        None => {
                            assert(raised_in(e1, token) > u128::MAX);
                            return None;
                        },
                    };
                    raised.set(j, EsdtTokenPayment { token_identifier: launchpad.payment_token.clone(), token_nonce: 0, amount });
                    assert forall|k: int| 0 <= k < tokens.len() implies #[trigger] payments_view(raised@)[k] == raised_totals(e1)[k] by {
                        lemma_token_at(before, e, k);
                        if k != j {
                            if k < j { assert(tokens[k] != tokens[j as int]); } else { assert(tokens[j as int] != tokens[k]); }
                        }
                    }
                    assert(payments_view(raised@) =~= raised_totals(e1));
                } else {
                    assert(!tokens.contains(token)) by {
                        if tokens.contains(token) {
                            let k = choose|k: int| 0 <= k < tokens.len() && tokens[k] == token;
                            lemma_token_at(raised@, e, k);
                        }
                    }
                    proof { lemma_raised_in_absent(e, token); }
                    let ghost before = raised@;
                    raised.push(EsdtTokenPayment::fungible(&launchpad.payment_token, launchpad.total_raised));
                    assert forall|k: int| 0 <= k < tokens.len() + 1 implies #[trigger] payments_view(raised@)[k] == raised_totals(e1)[k] by {
                        if k < tokens.len() {
                            lemma_token_at(before, e, k);
                            assert(tokens[k] != token);
                        }
                    }
                    assert(payments_view(raised@) =~= raised_totals(e1));
                }
            },
        }
        i += 1;
    }
    assert(ev.take(n as int) =~= ev);
    Some(raised)
}

} // verus!
