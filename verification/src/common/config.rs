//! The contract's types and its configuration module: the contract state,
//! the platform address, the stored launchpads with their buyers, and the
//! views over them.
use vstd::prelude::*;

use crate::common::amounts::{token_amount, tokens_for};
use crate::common::views::{
    active_launchpads, count_launchpads, ended_launchpads_not_launched, entries_view, entry_view, launchpads_ending_after,
    launchpads_view, list_launchpads, listing, pick_active, pick_ended_not_launched, pick_ending_after, pick_with_status,
    raised_in, raised_totals, total_raised,
};
use crate::common::types::{attached_view, payments_view, Address, EsdtTokenPayment, LaunchpadError, PaymentView};

verus! {

/// Whether the contract accepts launchpad operations.
#[derive(Clone, Copy, Debug, PartialEq, Eq, Structural)]
pub enum State {
    Inactive,
    Active,
}

/// Where a launchpad stands at a given time.
#[derive(Clone, Copy, Debug, PartialEq, Eq, Structural)]
pub enum Status {
    Pending,
    Active,
    Ended,
    Launched,
}

/// A token sale: `amount` units of `token` are offered at `price` units of
/// `payment_token` per whole token, between `start_time` and `end_time`.
#[derive(Debug, PartialEq, Eq)]
pub struct Launchpad {
    pub id: u64,
    pub owner: Address,
    pub description: Vec<u8>,
    pub token: String,
    pub amount: u128,
    pub payment_token: String,
    pub price: u128,
    pub min_buy_amount: u128,
    pub max_buy_amount: u128,
    pub start_time: u64,
    pub end_time: u64,
    pub total_raised: u128,
    pub total_sold: u128,
    pub launched: bool,
    pub status: Status,
    pub user_bought: u128,
}

/// A launchpad as plain values.
pub struct LaunchpadView {
    pub id: u64,
    pub owner: Address,
    pub description: Seq<u8>,
    pub token: Seq<char>,
    pub amount: u128,
    pub payment_token: Seq<char>,
    pub price: u128,
    pub min_buy_amount: u128,
    pub max_buy_amount: u128,
    pub start_time: u64,
    pub end_time: u64,
    pub total_raised: u128,
    pub total_sold: u128,
    pub launched: bool,
    pub status: Status,
    pub user_bought: u128,
}

impl View for Launchpad {
    type V = LaunchpadView;

    open spec fn view(&self) -> LaunchpadView {
        LaunchpadView {
            id: self.id,
            owner: self.owner,
            description: self.description@,
            token: self.token@,
            amount: self.amount,
            payment_token: self.payment_token@,
            price: self.price,
            min_buy_amount: self.min_buy_amount,
            max_buy_amount: self.max_buy_amount,
            start_time: self.start_time,
            end_time: self.end_time,
            total_raised: self.total_raised,
            total_sold: self.total_sold,
            launched: self.launched,
            status: self.status,
            user_bought: self.user_bought,
        }
    }
}

impl Clone for Launchpad {
    fn clone(&self) -> (r: Self)
        ensures
            r@ == self@,
    {
        let description = self.description.clone();
        assert(description@ =~= self.description@);
        Launchpad {
            id: self.id,
            owner: self.owner,
            description,
            token: self.token.clone(),
            amount: self.amount,
            payment_token: self.payment_token.clone(),
            price: self.price,
            min_buy_amount: self.min_buy_amount,
            max_buy_amount: self.max_buy_amount,
            start_time: self.start_time,
            end_time: self.end_time,
            total_raised: self.total_raised,
            total_sold: self.total_sold,
            launched: self.launched,
            status: self.status,
            user_bought: self.user_bought,
        }
    }
}

impl LaunchpadView {
    /// Open for buying at `now`: within its time window, with unsold tokens.
    pub open spec fn is_active_at(self, now: u64) -> bool {
        now >= self.start_time && now <= self.end_time && self.total_sold < self.amount
    }

    /// The status at `now`: `Active` within the time window, `Pending` before
    /// it, and after it `Launched` or `Ended` depending on `launched`.
    pub open spec fn status_at(self, now: u64) -> Status {
        if self.start_time <= now && self.end_time >= now {
            Status::Active
        } else if self.end_time < now {
            if self.launched {
                Status::Launched
            } else {
                Status::Ended
            }
        } else {
            Status::Pending
        }
    }

    /// The answer to a buyer who already holds `already_bought` units and
    /// attaches `payment` at `now`: the units bought, or the first rule broken.
    /// This purchase alone must reach the minimum buy amount, and the buyer's
    /// total after it must stay within the maximum and the unsold tokens.
    /// Last, the raised total must stay within the 128 bits that hold it.
    pub open spec fn purchase_quote(
        self,
        now: u64,
        payment: Option<PaymentView>,
        already_bought: u128,
    ) -> Result<u128, LaunchpadError> {
        if !self.is_active_at(now) {
            Err(LaunchpadError::LaunchpadInactive)
        } else {
            match payment {
                None => Err(LaunchpadError::IncorrectPayment),
                Some(p) => {
                    let bought = tokens_for(p.amount, self.price);
                    if p.token != self.payment_token {
                        Err(LaunchpadError::WrongToken)
                    } else if bought < self.min_buy_amount {
                        Err(LaunchpadError::LowAmount)
                    } else if bought + already_bought > self.max_buy_amount {
                        Err(LaunchpadError::HighAmount)
                    } else if bought + self.total_sold > self.amount {
                        Err(LaunchpadError::InsufficientFunds)
                    } else if self.total_raised + p.amount > u128::MAX {
                        Err(LaunchpadError::AmountOutOfRange)
                    } else {
                        Ok(bought as u128)
                    }
                },
            }
        }
    }

    /// The answer to a deposit of `payment` at `now`: the new amount on
    /// offer, or the first rule broken. Last, the amount on offer must stay
    /// within the 128 bits that hold it.
    pub open spec fn deposit_quote(self, now: u64, payment: Option<PaymentView>) -> Result<u128, LaunchpadError> {
        if !(self.end_time > now) {
            Err(LaunchpadError::LaunchpadInactive)
        } else {
            match payment {
                None => Err(LaunchpadError::IncorrectPayment),
                Some(p) => if p.token != self.token {
                    Err(LaunchpadError::WrongToken)
                } else if self.amount + p.amount > u128::MAX {
                    Err(LaunchpadError::AmountOutOfRange)
                } else {
                    Ok((self.amount + p.amount) as u128)
                },
            }
        }
    }

    /// Whether `caller` may cancel the launchpad: only its owner, and only
    /// before any token was sold.
    pub open spec fn cancel_check(self, caller: Address) -> Result<(), LaunchpadError> {
        if self.owner != caller {
            Err(LaunchpadError::OnlyLaunchpadOwner)
        } else if self.total_sold != 0 {
            Err(LaunchpadError::DeletingLaunchpad)
        } else {
            Ok(())
        }
    }

    /// Whether the launchpad may be launched at `now`: only after it ended,
    /// and only once.
    pub open spec fn launch_check(self, now: u64) -> Result<(), LaunchpadError> {
        if !(self.end_time < now) {
            Err(LaunchpadError::LaunchpadNotEnded)
        } else if self.launched {
            Err(LaunchpadError::AlreadyLaunched)
        } else {
            Ok(())
        }
    }

    /// What the owner receives at launch: the raised payment tokens, if any,
    /// then the unsold tokens, if any.
    pub open spec fn launch_payouts(self) -> Seq<PaymentView> {
        let raised = if self.total_raised > 0 {
            seq![PaymentView { token: self.payment_token, nonce: 0, amount: self.total_raised }]
        } else {
            seq![]
        };
        let left = self.amount - self.total_sold;
        if left > 0 {
            raised.push(PaymentView { token: self.token, nonce: 0, amount: left as u128 })
        } else {
            raised
        }
    }
}

impl Launchpad {
    /// Whether the launchpad is open for buying at `current_timestamp`.
    pub fn is_active(&self, current_timestamp: u64) -> (r: bool)
        ensures
            r == self@.is_active_at(current_timestamp),
    {
        current_timestamp >= self.start_time && current_timestamp <= self.end_time
            && self.total_sold < self.amount
    }

    /// The status of the launchpad at `current_timestamp`.
    pub fn get_status(&self, current_timestamp: u64) -> (r: Status)
        ensures
            r == self@.status_at(current_timestamp),
    {
        if self.start_time <= current_timestamp && self.end_time >= current_timestamp {
            Status::Active
        } else if self.end_time < current_timestamp {
            if self.launched {
                Status::Launched
            } else {
                Status::Ended
            }
        } else {
            Status::Pending
        }
    }

    /// Checks a purchase: the launchpad must be active at `now`, the call
    /// must carry one transfer of the payment token, the units bought,
    /// `payment * ONE / price` rounded down, must reach the minimum buy
    /// amount, and the buyer's total must stay within the maximum and the
    /// unsold tokens. Returns the units bought.
    pub fn quote_purchase(&self, now: u64, payment: &Option<EsdtTokenPayment>, already_bought: u128) -> (r: Result<u128, LaunchpadError>)
        requires
            self.price > 0,
        ensures
            r == self@.purchase_quote(now, attached_view(*payment), already_bought),
    {
        if !self.is_active(now) {
            return Err(LaunchpadError::LaunchpadInactive);
        }
        match payment {
            None => Err(LaunchpadError::IncorrectPayment),
            Some(p) => {
                if !(p.token_identifier == self.payment_token) {
                    return Err(LaunchpadError::WrongToken);
                }
                match token_amount(p.amount, self.price) {
                    None => Err(LaunchpadError::HighAmount),
                    Some(bought) => {
                        if bought < self.min_buy_amount {
                            return Err(LaunchpadError::LowAmount);
                        }
                        match bought.checked_add(already_bought) {
                            None => Err(LaunchpadError::HighAmount),
                            Some(total) => if total > self.max_buy_amount {
                                Err(LaunchpadError::HighAmount)
                            } else {
                                match bought.checked_add(self.total_sold) {
                                    None => Err(LaunchpadError::InsufficientFunds),
                                    Some(sold) => if sold > self.amount {
                                        Err(LaunchpadError::InsufficientFunds)
                                    } else if self.total_raised.checked_add(p.amount).is_none() {
                                        Err(LaunchpadError::AmountOutOfRange)
                                    } else {
                                        Ok(bought)
                                    },
                                }
                            },
                        }
                    },
                }
            },
        }
    }

    /// Checks a deposit of tokens for sale: the launchpad must not have
    /// ended at `now`, and the call must carry one transfer of its token.
    /// Returns the new amount on offer.
    pub fn quote_deposit(&self, now: u64, payment: &Option<EsdtTokenPayment>) -> (r: Result<u128, LaunchpadError>)
        ensures
            r == self@.deposit_quote(now, attached_view(*payment)),
    {
        if !(self.end_time > now) {
            return Err(LaunchpadError::LaunchpadInactive);
        }
        match payment {
            None => Err(LaunchpadError::IncorrectPayment),
            Some(p) => if !(p.token_identifier == self.token) {
                Err(LaunchpadError::WrongToken)
            } else {
                match self.amount.checked_add(p.amount) {
                    None => Err(LaunchpadError::AmountOutOfRange),
                    Some(amount) => Ok(amount),
                }
            },
        }
    }

    /// Checks that `caller` may cancel the launchpad.
    pub fn check_cancel(&self, caller: &Address) -> (r: Result<(), LaunchpadError>)
        ensures
            r == self@.cancel_check(*caller),
    {
        if !self.owner.same(caller) {
            Err(LaunchpadError::OnlyLaunchpadOwner)
        } else if self.total_sold != 0 {
            Err(LaunchpadError::DeletingLaunchpad)
        } else {
            Ok(())
        }
    }

    /// Checks that the launchpad may be launched at `now`.
    pub fn check_launch(&self, now: u64) -> (r: Result<(), LaunchpadError>)
        ensures
            r == self@.launch_check(now),
    {
        if !(self.end_time < now) {
            Err(LaunchpadError::LaunchpadNotEnded)
        } else if self.launched {
            Err(LaunchpadError::AlreadyLaunched)
        } else {
            Ok(())
        }
    }

    /// The payments the owner receives at launch.
    pub fn launch_payments(&self) -> (r: Vec<EsdtTokenPayment>)
        requires
            self.total_sold <= self.amount,
        ensures
            payments_view(r@) == self@.launch_payouts(),
    {
        let mut payments: Vec<EsdtTokenPayment> = Vec::new();
        if self.total_raised > 0 {
            payments.push(EsdtTokenPayment::fungible(&self.payment_token, self.total_raised));
        }
        let left = self.amount - self.total_sold;
        if left > 0 {
            payments.push(EsdtTokenPayment::fungible(&self.token, left));
        }
        assert(payments_view(payments@) =~= self@.launch_payouts());
        payments
    }

    /// Sells to a buyer who already holds `already_bought` units: the checks
    /// of `quote_purchase`, then the launchpad with the payment added to what
    /// it raised and the units bought to what it sold, and the buyer's new
    /// holding.
    pub fn sell(&self, now: u64, payment: &Option<EsdtTokenPayment>, already_bought: u128) -> (r: Result<Sale, LaunchpadError>)
        requires
            self.price > 0,
        ensures
            r is Err <==> self@.purchase_quote(now, attached_view(*payment), already_bought) is Err,
            r matches Err(e) ==> self@.purchase_quote(now, attached_view(*payment), already_bought) == Err::<u128, LaunchpadError>(e),
            r matches Ok(sale) ==> {
                let bought = self@.purchase_quote(now, attached_view(*payment), already_bought)->Ok_0;
                &&& sale.bought == bought
                &&& sale.holding == already_bought + bought
                &&& sale.launchpad@ == (LaunchpadView {
                    total_raised: (self.total_raised + payment->0.amount) as u128,
                    total_sold: (self.total_sold + bought) as u128,
                    ..self@
                })
            },
    {
        match self.quote_purchase(now, payment, already_bought) {
            Err(e) => Err(e),
            Ok(bought) => {
                let paid = match payment {
                    Some(p) => p.amount,
                    None => 0,
                };
                let mut launchpad = self.clone();
                launchpad.total_raised = self.total_raised + paid;
                launchpad.total_sold = self.total_sold + bought;
                Ok(Sale { bought, launchpad, holding: already_bought + bought })
            },
        }
    }

    /// Deposits `payment` for sale at `now`: the checks of `quote_deposit`,
    /// then the launchpad with its new amount on offer.
    pub fn deposit(&self, now: u64, payment: &Option<EsdtTokenPayment>) -> (r: Result<Launchpad, LaunchpadError>)
        ensures
            r is Err <==> self@.deposit_quote(now, attached_view(*payment)) is Err,
            r matches Err(e) ==> self@.deposit_quote(now, attached_view(*payment)) == Err::<u128, LaunchpadError>(e),
            r matches Ok(lp) ==> lp@ == (LaunchpadView {
                amount: self@.deposit_quote(now, attached_view(*payment))->Ok_0,
                ..self@
            }),
    {
        match self.quote_deposit(now, payment) {
            Err(e) => Err(e),
            Ok(amount) => {
                let mut launchpad = self.clone();
                launchpad.amount = amount;
                Ok(launchpad)
            },
        }
    }

    /// Launches at `now`: the checks of `check_launch`, then the launchpad
    /// marked launched and the payments its owner receives.
    pub fn launch(&self, now: u64) -> (r: Result<(Launchpad, Vec<EsdtTokenPayment>), LaunchpadError>)
        requires
            self.total_sold <= self.amount,
        ensures
            r is Err <==> self@.launch_check(now) is Err,
            r matches Err(e) ==> self@.launch_check(now) == Err::<(), LaunchpadError>(e),
            r matches Ok((lp, payments)) ==> (lp@ == (LaunchpadView { launched: true, ..self@ })
                && payments_view(payments@) == self@.launch_payouts()),
    {
        if let Err(e) = self.check_launch(now) {
            return Err(e);
        }
        let mut launchpad = self.clone();
        launchpad.launched = true;
        Ok((launchpad, self.launch_payments()))
    }

    /// What the owner gets back when the launchpad is cancelled: the tokens
    /// deposited for sale, if any.
    pub fn refund(&self) -> (r: Option<EsdtTokenPayment>)
        ensures
            self.amount > 0 ==> (r matches Some(p) && p@ == (PaymentView { token: self.token@, nonce: 0, amount: self.amount })),
            self.amount == 0 ==> r is None,
    {
        if self.amount > 0 {
            Some(EsdtTokenPayment::fungible(&self.token, self.amount))
        } else {
            None
        }
    }
}

/// The outcome of a sale: the units bought, the launchpad with the sale
/// recorded, and the buyer's holding after it.
pub struct Sale {
    pub bought: u128,
    pub launchpad: Launchpad,
    pub holding: u128,
}


/// The caller of an endpoint and the chain context of the call.
#[derive(Clone, Copy, Debug, PartialEq, Eq)]
pub struct Env {
    /// The account that calls the endpoint.
    pub caller: Address,
    /// The owner of the contract.
    pub contract_owner: Address,
    /// The timestamp of the current block.
    pub block_timestamp: u64,
}

/// What every endpoint keeps from one storage state `s` to the next `t`:
/// the invariant, the ids handed out, the gaps of cancelled launchpads, and
/// the launched flag of a launchpad that is still stored.
pub open spec fn step(s: ConfigView, t: ConfigView) -> bool {
    &&& s.wf() ==> t.wf()
    &&& s.launchpads.len() <= t.launchpads.len()
    &&& forall|i: int| 0 <= i < s.launchpads.len() ==> (#[trigger] s.launchpads[i] is None ==> t.launchpads[i] is None)
    &&& forall|i: int| 0 <= i < s.launchpads.len() ==> (#[trigger] s.launchpads[i] matches Some(l) && l.launched
        ==> (t.launchpads[i] is None || t.launchpads[i]->0.launched))
}

/// What one buyer bought in one launchpad.
#[derive(Clone, Copy, Debug, PartialEq, Eq)]
pub struct Participation {
    pub user: Address,
    pub launchpad_id: u64,
    pub amount: u128,
}

/// The storage of the contract as plain values.
pub struct ConfigView {
    pub state: State,
    pub platform_sc: Option<Address>,
    /// The platform's governance token id, once retrieved from the platform.
    pub governance_token: Option<Seq<char>>,
    /// Indexed by launchpad id; `None` where a launchpad was cancelled.
    pub launchpads: Seq<Option<LaunchpadView>>,
    /// One entry per buyer and launchpad, in the order of first purchase.
    pub participations: Seq<Participation>,
}

/// The amount recorded for `user` in launchpad `id`, or 0.
pub open spec fn bought_by(ps: Seq<Participation>, user: Address, id: u64) -> u128
    decreases ps.len(),
{
    if ps.len() == 0 {
        0
    } else if ps.last().user == user && ps.last().launchpad_id == id {
        ps.last().amount
    } else {
        bought_by(ps.drop_last(), user, id)
    }
}

/// The sum of the amounts recorded for launchpad `id`.
pub open spec fn sold_to_buyers(ps: Seq<Participation>, id: u64) -> nat
    decreases ps.len(),
{
    if ps.len() == 0 {
        0
    } else {
        sold_to_buyers(ps.drop_last(), id) + if ps.last().launchpad_id == id {
            ps.last().amount as nat
        } else {
            0
        }
    }
}

/// `ps` after `user` bought `amount` more units in launchpad `id`: the
/// buyer's entry grows, or a new entry is appended.
pub open spec fn with_purchase(ps: Seq<Participation>, user: Address, id: u64, amount: u128) -> Seq<Participation> {
    if exists|k: int| 0 <= k < ps.len() && ps[k].user == user && ps[k].launchpad_id == id {
        let k = choose|k: int| 0 <= k < ps.len() && ps[k].user == user && ps[k].launchpad_id == id;
        ps.update(k, Participation { user, launchpad_id: id, amount: (ps[k].amount + amount) as u128 })
    } else {
        ps.push(Participation { user, launchpad_id: id, amount })
    }
}

/// Whether a storage entry holds a launchpad that sells `token`.
pub open spec fn sells(entry: Option<LaunchpadView>, token: Seq<char>) -> bool {
    entry matches Some(lp) && lp.token == token
}

impl LaunchpadView {
    /// The invariant of a stored launchpad with id `id`.
    pub open spec fn well_formed(self, id: int) -> bool {
        &&& self.id == id
        &&& self.price > 0
        &&& self.min_buy_amount <= self.max_buy_amount
        &&& self.start_time < self.end_time
        &&& self.total_sold <= self.amount
        &&& self.status == Status::Pending
        &&& self.user_bought == 0
    }
}

/// Whether what a buyer bought lies within the buy limits of the stored
/// launchpad, if any.
pub open spec fn within_limits(entry: Option<LaunchpadView>, p: Participation) -> bool {
    entry matches Some(lp) ==> lp.min_buy_amount <= p.amount <= lp.max_buy_amount
}

/// Picks the buyer out of an entry of launchpad `id`.
pub open spec fn buyer_in(id: u64) -> spec_fn(Participation) -> Option<Address> {
    |p: Participation| if p.launchpad_id == id { Some(p.user) } else { None }
}

/// Picks the launchpad id out of an entry of `user`.
pub open spec fn launchpad_of(user: Address) -> spec_fn(Participation) -> Option<u64> {
    |p: Participation| if p.user == user { Some(p.launchpad_id) } else { None }
}

impl ConfigView {
    /// The id the next launchpad receives.
    pub open spec fn last_launchpad_id(self) -> nat {
        self.launchpads.len()
    }

    /// The launchpad stored under `id`.
    pub open spec fn launchpad(self, id: u64) -> Option<LaunchpadView> {
        if id < self.launchpads.len() {
            self.launchpads[id as int]
        } else {
            None
        }
    }

    /// Whether a stored launchpad sells `token`.
    pub open spec fn token_taken(self, token: Seq<char>) -> bool {
        exists|id: int| 0 <= id < self.launchpads.len() && sells(#[trigger] self.launchpads[id], token)
    }

    /// The id of the stored launchpad that sells `token`, if any.
    pub open spec fn token_launchpad_id(self, token: Seq<char>) -> Option<u64> {
        if self.token_taken(token) {
            Some((choose|id: int| 0 <= id < self.launchpads.len() && sells(#[trigger] self.launchpads[id], token)) as u64)
        } else {
            None
        }
    }

    /// What `user` bought in launchpad `id`.
    pub open spec fn participation(self, user: Address, id: u64) -> u128 {
        bought_by(self.participations, user, id)
    }

    /// The buyers of launchpad `id`, in the order of their first purchase.
    pub open spec fn launchpad_users(self, id: u64) -> Seq<Address> {
        self.participations.filter_map(buyer_in(id))
    }

    /// The launchpads `user` bought in, in the order of the first purchase.
    pub open spec fn user_launchpads(self, user: Address) -> Seq<u64> {
        self.participations.filter_map(launchpad_of(user))
    }

    /// The invariant of the storage.
    pub open spec fn wf(self) -> bool {
        &&& self.launchpads.len() <= u64::MAX
        &&& self.state == State::Active ==> self.platform_sc is Some
        &&& forall|id: int| 0 <= id < self.launchpads.len() ==> (#[trigger] self.launchpads[id] matches Some(lp) ==> lp.well_formed(id))
        &&& forall|i: int, j: int|
            0 <= i < self.launchpads.len() && 0 <= j < self.launchpads.len()
                && #[trigger] self.launchpads[i] is Some && #[trigger] self.launchpads[j] is Some
                && self.launchpads[i]->0.token == self.launchpads[j]->0.token ==> i == j
        &&& forall|k: int| 0 <= k < self.participations.len() ==> (#[trigger] self.participations[k]).launchpad_id < self.launchpads.len()
        &&& forall|k: int, l: int|
            0 <= k < l < self.participations.len() ==> !(#[trigger] self.participations[k].user == #[trigger] self.participations[l].user
                && self.participations[k].launchpad_id == self.participations[l].launchpad_id)
        &&& forall|id: int| 0 <= id < self.launchpads.len() ==> (#[trigger] self.launchpads[id] matches Some(lp)
            ==> sold_to_buyers(self.participations, id as u64) == lp.total_sold)
        &&& forall|k: int| 0 <= k < self.participations.len()
            ==> within_limits(self.launchpads[self.participations[k].launchpad_id as int], #[trigger] self.participations[k])
    }
}

/// Nothing is sold in a launchpad that has no recorded buyer.
proof fn lemma_sold_none(ps: Seq<Participation>, id: u64)
    requires
        forall|k: int| 0 <= k < ps.len() ==> (#[trigger] ps[k]).launchpad_id != id,
    ensures
        sold_to_buyers(ps, id) == 0,
    decreases ps.len(),
{
    if ps.len() > 0 {
        lemma_sold_none(ps.drop_last(), id);
    }
}

/// Appending an entry adds its amount to the sum of its launchpad.
proof fn lemma_sold_push(ps: Seq<Participation>, e: Participation, id: u64)
    ensures
        sold_to_buyers(ps.push(e), id) == sold_to_buyers(ps, id) + if e.launchpad_id == id { e.amount as nat } else { 0 },
{
    assert(ps.push(e).drop_last() =~= ps);
}

/// Replacing an entry replaces its amount in the sum of its launchpad.
proof fn lemma_sold_update(ps: Seq<Participation>, k: int, e: Participation, id: u64)
    requires
        0 <= k < ps.len(),
    ensures
        sold_to_buyers(ps.update(k, e), id) + (if ps[k].launchpad_id == id { ps[k].amount as nat } else { 0 })
            == sold_to_buyers(ps, id) + (if e.launchpad_id == id { e.amount as nat } else { 0 }),
    decreases ps.len(),
{
    let u = ps.update(k, e);
    if k == ps.len() - 1 {
        assert(u.drop_last() =~= ps.drop_last());
    } else {
        assert(u.drop_last() =~= ps.drop_last().update(k, e));
        lemma_sold_update(ps.drop_last(), k, e, id);
    }
}

/// With distinct buyer and launchpad pairs, the amount of a pair is that of
/// its entry.
pub proof fn lemma_bought_at(ps: Seq<Participation>, k: int)
    requires
        0 <= k < ps.len(),
        forall|a: int, b: int| 0 <= a < b < ps.len() ==> !(#[trigger] ps[a].user == #[trigger] ps[b].user && ps[a].launchpad_id == ps[b].launchpad_id),
    ensures
        bought_by(ps, ps[k].user, ps[k].launchpad_id) == ps[k].amount,
    decreases ps.len(),
{
    if k < ps.len() - 1 {
        let d = ps.drop_last();
        assert(!(ps[k].user == ps[ps.len() - 1].user && ps[k].launchpad_id == ps[ps.len() - 1].launchpad_id));
        assert forall|a: int, b: int| 0 <= a < b < d.len() implies !(#[trigger] d[a].user == #[trigger] d[b].user && d[a].launchpad_id == d[b].launchpad_id) by {
            assert(d[a] == ps[a] && d[b] == ps[b]);
        }
        lemma_bought_at(d, k);
    }
}

/// A pair without an entry has bought nothing.
pub proof fn lemma_bought_absent(ps: Seq<Participation>, user: Address, id: u64)
    requires
        forall|k: int| 0 <= k < ps.len() ==> !((#[trigger] ps[k]).user == user && ps[k].launchpad_id == id),
    ensures
        bought_by(ps, user, id) == 0,
    decreases ps.len(),
{
    if ps.len() > 0 {
        lemma_bought_absent(ps.drop_last(), user, id);
    }
}

/// Replacing the entry of one pair leaves what any other pair bought as it was.
proof fn lemma_bought_update_other(ps: Seq<Participation>, k: int, e: Participation, user: Address, id: u64)
    requires
        0 <= k < ps.len(),
        e.user == ps[k].user && e.launchpad_id == ps[k].launchpad_id,
        !(e.user == user && e.launchpad_id == id),
    ensures
        bought_by(ps.update(k, e), user, id) == bought_by(ps, user, id),
    decreases ps.len(),
{
    let u = ps.update(k, e);
    if k == ps.len() - 1 {
        assert(u.drop_last() =~= ps.drop_last());
    } else {
        assert(u.drop_last() =~= ps.drop_last().update(k, e));
        lemma_bought_update_other(ps.drop_last(), k, e, user, id);
    }
}

/// After `user` bought `amount` more units in launchpad `id`, the recorded
/// amount of that pair grew by `amount` and that of every other pair stayed.
pub proof fn lemma_bought_after_purchase(ps: Seq<Participation>, user: Address, id: u64, amount: u128, other: Address, other_id: u64)
    requires
        forall|a: int, b: int| 0 <= a < b < ps.len() ==> !(#[trigger] ps[a].user == #[trigger] ps[b].user && ps[a].launchpad_id == ps[b].launchpad_id),
        bought_by(ps, user, id) + amount <= u128::MAX,
    ensures
        bought_by(with_purchase(ps, user, id, amount), user, id) == bought_by(ps, user, id) + amount,
        !(other == user && other_id == id) ==> bought_by(with_purchase(ps, user, id, amount), other, other_id) == bought_by(ps, other, other_id),
{
    if exists|k: int| 0 <= k < ps.len() && ps[k].user == user && ps[k].launchpad_id == id {
        let k = choose|k: int| 0 <= k < ps.len() && ps[k].user == user && ps[k].launchpad_id == id;
        lemma_bought_at(ps, k);
        let e = Participation { user, launchpad_id: id, amount: (ps[k].amount + amount) as u128 };
        let u = ps.update(k, e);
        assert forall|a: int, b: int| 0 <= a < b < u.len() implies !(#[trigger] u[a].user == #[trigger] u[b].user && u[a].launchpad_id == u[b].launchpad_id) by {
            assert(!(ps[a].user == ps[b].user && ps[a].launchpad_id == ps[b].launchpad_id));
        }
        lemma_bought_at(u, k);
        if !(other == user && other_id == id) {
            lemma_bought_update_other(ps, k, e, other, other_id);
        }
    } else {
        lemma_bought_absent(ps, user, id);
        let e = Participation { user, launchpad_id: id, amount };
        assert(ps.push(e).drop_last() =~= ps);
    }
}

/// The fields of the contract storage.
struct Storage {
    state: State,
    platform_sc: Option<Address>,
    governance_token: Option<String>,
    launchpads: Vec<Option<Launchpad>>,
    participations: Vec<Participation>,
}

impl View for Storage {
    type V = ConfigView;

    closed spec fn view(&self) -> ConfigView {
        ConfigView {
            state: self.state,
            platform_sc: self.platform_sc,
            governance_token: match &self.governance_token {
                Some(t) => Some(t@),
                None => None,
            },
            launchpads: entries_view(self.launchpads@),
            participations: self.participations@,
        }
    }
}

/// The storage of the contract: its state, the platform address, the
/// launchpads by id and what each buyer bought. It is always well-formed.
pub struct ConfigModule {
    storage: Storage,
}

impl View for ConfigModule {
    type V = ConfigView;

    closed spec fn view(&self) -> ConfigView {
        self.storage@
    }
}

impl ConfigModule {
    /// Every endpoint keeps the storage well-formed.
    #[verifier::type_invariant]
    spec fn storage_is_well_formed(self) -> bool {
        self.storage@.wf()
    }

    /// Takes the storage out, leaving empty storage in its place.
    fn take_storage(&mut self) -> (r: Storage)
        ensures
            r@ == old(self)@,
            r@.wf(),
    {
        proof { use_type_invariant(&*self); }
        let mut storage = Storage::empty();
        std::mem::swap(&mut storage, &mut self.storage);
        storage
    }
}

impl Storage {
    /// Empty storage: inactive, no platform, no launchpads.
    fn empty() -> (r: Storage)
        ensures
            r@.wf(),
            r@.state == State::Inactive,
            r@.platform_sc is None,
            r@.governance_token is None,
            r@.launchpads.len() == 0,
            r@.participations.len() == 0,
    {
        let r = Storage { state: State::Inactive, platform_sc: None, governance_token: None, launchpads: Vec::new(), participations: Vec::new() };
        assert(r@.launchpads =~= Seq::<Option<LaunchpadView>>::empty());
        r
    }
}

impl ConfigModule {
    /// Empty storage: inactive, no platform, no launchpads.
    pub fn new() -> (r: ConfigModule)
        ensures
            r@.wf(),
            r@.state == State::Inactive,
            r@.platform_sc is None,
            r@.governance_token is None,
            r@.launchpads.len() == 0,
            r@.participations.len() == 0,
    {
        ConfigModule { storage: Storage::empty() }
    }

    /// The contract state.
    pub fn get_state(&self) -> (r: State)
        ensures
            r == self@.state,
            self@.wf(),
    {
        proof { use_type_invariant(self); }
        self.storage.state
    }

    /// The platform address, if set.
    pub fn get_platform_address(&self) -> (r: Option<Address>)
        ensures
            r == self@.platform_sc,
    {
        self.storage.platform_sc
    }

    /// The id the next launchpad receives.
    pub fn get_last_launchpad_id(&self) -> (r: u64)
        ensures
            r == self@.last_launchpad_id(),
            self@.wf(),
    {
        proof { use_type_invariant(self); }
        self.storage.launchpads.len() as u64
    }

    /// The launchpad stored under `id`, if any.
    pub fn get_launchpad(&self, id: u64) -> (r: Option<Launchpad>)
        ensures
            entry_view(r) == self@.launchpad(id),
    {
        if id < self.storage.launchpads.len() as u64 {
            let i = id as usize;
            match &self.storage.launchpads[i] {
                Some(lp) => Some(lp.clone()),
                None => None,
            }
        } else {
            None
        }
    }

    /// The id of the launchpad that sells `token`, or 0 when none does.
    pub fn get_launchpad_id_by_token(&self, token: &String) -> (r: u64)
        ensures
            r == match self@.token_launchpad_id(token@) {
                Some(id) => id,
                None => 0,
            },
    {
        match self.find_token(token) {
            Some(id) => id,
            None => 0,
        }
    }

    /// Looks up the launchpad that sells `token`.
    pub(crate) fn find_token(&self, token: &String) -> (r: Option<u64>)
        ensures
            r == self@.token_launchpad_id(token@),
    {
        proof { use_type_invariant(self); }
        let n = self.storage.launchpads.len();
        let mut i: usize = 0;
        while i < n
            invariant
                n == self.storage.launchpads.len(),
                i <= n,
                self@.wf(),
                forall|j: int| 0 <= j < i ==> !sells(#[trigger] self@.launchpads[j], token@),
            decreases n - i,
        {
            match &self.storage.launchpads[i] {
                Some(lp) => {
                    if lp.token == *token {
                        proof {
                            assert(sells(self@.launchpads[i as int], token@));
                            let c = choose|id: int| 0 <= id < self@.launchpads.len() && sells(#[trigger] self@.launchpads[id], token@);
                            assert(self@.launchpads[c] is Some && self@.launchpads[i as int] is Some);
                        }
                        return Some(i as u64);
                    }
                },
                None => {},
            }
            i += 1;
        }
        None
    }

    /// What `user` bought in launchpad `id`; 0 when nothing.
    pub fn get_user_participation(&self, user: Address, id: u64) -> (r: u128)
        ensures
            r == self@.participation(user, id),
    {
        let ghost ps = self.storage.participations@;
        let mut i: usize = self.storage.participations.len();
        assert(ps.take(i as int) =~= ps);
        while i > 0
            invariant
                i <= ps.len(),
                ps == self.storage.participations@,
                bought_by(ps, user, id) == bought_by(ps.take(i as int), user, id),
            decreases i,
        {
            let p = self.storage.participations[i - 1];
            assert(ps.take(i as int).drop_last() =~= ps.take(i - 1));
            if p.user.same(&user) && p.launchpad_id == id {
                return p.amount;
            }
            i -= 1;
        }
        0
    }

    /// The buyers of launchpad `id`, in the order of their first purchase.
    pub fn get_launchpad_users(&self, id: u64) -> (r: Vec<Address>)
        ensures
            r@ == self@.launchpad_users(id),
    {
        let ghost ps = self.storage.participations@;
        let mut r: Vec<Address> = Vec::new();
        let n = self.storage.participations.len();
        let mut i: usize = 0;
        while i < n
            invariant
                n == ps.len(),
                i <= n,
                ps == self.storage.participations@,
                r@ == ps.take(i as int).filter_map(buyer_in(id)),
            decreases n - i,
        {
            proof { ps.lemma_filter_map_take_succ(buyer_in(id), i as int); }
            let p = self.storage.participations[i];
            if p.launchpad_id == id {
                r.push(p.user);
            }
            i += 1;
        }
        assert(ps.take(n as int) =~= ps);
        r
    }

    /// The launchpads `user` bought in, in the order of the first purchase.
    pub fn get_user_launchpads(&self, user: Address) -> (r: Vec<u64>)
        ensures
            r@ == self@.user_launchpads(user),
    {
        let ghost ps = self.storage.participations@;
        let mut r: Vec<u64> = Vec::new();
        let n = self.storage.participations.len();
        let mut i: usize = 0;
        while i < n
            invariant
                n == ps.len(),
                i <= n,
                ps == self.storage.participations@,
                r@ == ps.take(i as int).filter_map(launchpad_of(user)),
            decreases n - i,
        {
            proof { ps.lemma_filter_map_take_succ(launchpad_of(user), i as int); }
            let p = self.storage.participations[i];
            if p.user.same(&user) {
                r.push(p.launchpad_id);
            }
            i += 1;
        }
        assert(ps.take(n as int) =~= ps);
        r
    }

    /// Activates the contract. Only the contract owner may call it, and only
    /// once the platform address is set.
    pub fn set_state_active(&mut self, env: &Env) -> (r: Result<(), LaunchpadError>)
        ensures
            final(self)@.wf(),
            step(old(self)@, final(self)@),
            r == (if !(env.caller == env.contract_owner) {
                Err(LaunchpadError::OnlyOwner)
            } else if old(self)@.platform_sc is None {
                Err(LaunchpadError::PlatformNotSet)
            } else {
                Ok(())
            }),
            r is Ok ==> final(self)@ == (ConfigView { state: State::Active, ..old(self)@ }),
            r is Err ==> final(self)@ == old(self)@,
    {
        proof { use_type_invariant(&*self); }
        if !env.caller.same(&env.contract_owner) {
            return Err(LaunchpadError::OnlyOwner);
        }
        self.activate()
    }

    /// Activates the contract once the platform address is set.
    pub(crate) fn activate(&mut self) -> (r: Result<(), LaunchpadError>)
        ensures
            final(self)@.wf(),
            r == (if old(self)@.platform_sc is None {
                Err(LaunchpadError::PlatformNotSet)
            } else {
                Ok(())
            }),
            r is Ok ==> final(self)@ == (ConfigView { state: State::Active, ..old(self)@ }),
            r is Err ==> final(self)@ == old(self)@,
    {
        let mut storage = self.take_storage();
        let r = storage.activate();
        self.storage = storage;
        r
    }

    /// Deactivates the contract. Only the contract owner may call it.
    pub fn set_state_inactive(&mut self, env: &Env) -> (r: Result<(), LaunchpadError>)
        ensures
            final(self)@.wf(),
            step(old(self)@, final(self)@),
            r == (if !(env.caller == env.contract_owner) {
                Err(LaunchpadError::OnlyOwner)
            } else {
                Ok(())
            }),
            r is Ok ==> final(self)@ == (ConfigView { state: State::Inactive, ..old(self)@ }),
            r is Err ==> final(self)@ == old(self)@,
    {
        proof { use_type_invariant(&*self); }
        if !env.caller.same(&env.contract_owner) {
            return Err(LaunchpadError::OnlyOwner);
        }
        let mut storage = self.take_storage();
        storage.state = State::Inactive;
        self.storage = storage;
        Ok(())
    }

    /// Sets the platform address and keeps the platform's governance token
    /// id, `governance_token`, which the platform gives when asked. Only the
    /// contract owner may call it, and only while no platform address is set.
    pub fn set_platform_address(&mut self, env: &Env, platform_sc: Address, governance_token: String) -> (r: Result<(), LaunchpadError>)
        ensures
            final(self)@.wf(),
            step(old(self)@, final(self)@),
            r == (if !(env.caller == env.contract_owner) {
                Err(LaunchpadError::OnlyOwner)
            } else if old(self)@.platform_sc is Some {
                Err(LaunchpadError::PlatformAlreadySet)
            } else {
                Ok(())
            }),
            r is Ok ==> final(self)@ == (ConfigView {
                platform_sc: Some(platform_sc),
                governance_token: Some(governance_token@),
                ..old(self)@
            }),
            r is Err ==> final(self)@ == old(self)@,
    {
        proof { use_type_invariant(&*self); }
        if !env.caller.same(&env.contract_owner) {
            return Err(LaunchpadError::OnlyOwner);
        }
        let mut storage = self.take_storage();
        let r = storage.store_platform(platform_sc);
        if r.is_ok() {
            storage.governance_token = Some(governance_token);
        }
        self.storage = storage;
        r
    }

    /// The platform's governance token id, once retrieved.
    pub fn get_governance_token(&self) -> (r: Option<String>)
        ensures
            match r {
                Some(t) => self@.governance_token == Some(t@),
                None => self@.governance_token is None,
            },
    {
        match &self.storage.governance_token {
            Some(t) => Some(t.clone()),
            None => None,
        }
    }

    /// Stores the platform address while none is set.
    pub(crate) fn store_platform(&mut self, platform_sc: Address) -> (r: Result<(), LaunchpadError>)
        ensures
            final(self)@.wf(),
            r == (if old(self)@.platform_sc is Some {
                Err(LaunchpadError::PlatformAlreadySet)
            } else {
                Ok(())
            }),
            r is Ok ==> final(self)@ == (ConfigView { platform_sc: Some(platform_sc), ..old(self)@ }),
            r is Err ==> final(self)@ == old(self)@,
    {
        let mut storage = self.take_storage();
        let r = storage.store_platform(platform_sc);
        self.storage = storage;
        r
    }
}

impl Storage {
    /// Activates the contract once the platform address is set.
    fn activate(&mut self) -> (r: Result<(), LaunchpadError>)
        requires
            old(self)@.wf(),
        ensures
            final(self)@.wf(),
            r == (if old(self)@.platform_sc is None {
                Err(LaunchpadError::PlatformNotSet)
            } else {
                Ok(())
            }),
            r is Ok ==> final(self)@ == (ConfigView { state: State::Active, ..old(self)@ }),
            r is Err ==> final(self)@ == old(self)@,
    {
        if self.platform_sc.is_none() {
            return Err(LaunchpadError::PlatformNotSet);
        }
        self.state = State::Active;
        Ok(())
    }

    /// Stores the platform address while none is set.
    fn store_platform(&mut self, platform_sc: Address) -> (r: Result<(), LaunchpadError>)
        requires
            old(self)@.wf(),
        ensures
            final(self)@.wf(),
            r == (if old(self)@.platform_sc is Some {
                Err(LaunchpadError::PlatformAlreadySet)
            } else {
                Ok(())
            }),
            r is Ok ==> final(self)@ == (ConfigView { platform_sc: Some(platform_sc), ..old(self)@ }),
            r is Err ==> final(self)@ == old(self)@,
    {
        if self.platform_sc.is_some() {
            return Err(LaunchpadError::PlatformAlreadySet);
        }
        self.platform_sc = Some(platform_sc);
        Ok(())
    }
}

impl Storage {
    /// Stores a new launchpad under the next id.
    fn insert_launchpad(&mut self, lp: Launchpad)
        requires
            old(self)@.wf(),
            old(self)@.launchpads.len() < u64::MAX,
            lp@.well_formed(old(self)@.launchpads.len() as int),
            lp@.total_sold == 0,
            !old(self)@.token_taken(lp.token@),
        ensures
            final(self)@.wf(),
            final(self)@ == (ConfigView { launchpads: old(self)@.launchpads.push(Some(lp@)), ..old(self)@ }),
    {
        let ghost old_view = self@;
        self.launchpads.push(Some(lp));
        let ghost v = self@;
        assert(v.launchpads =~= old_view.launchpads.push(Some(lp@)));
        proof {
            let n = old_view.launchpads.len() as int;
            assert forall|k: int| 0 <= k < v.participations.len() implies (#[trigger] v.participations[k]).launchpad_id != n as u64 by {
                assert(old_view.participations[k].launchpad_id < n);
            }
            lemma_sold_none(v.participations, n as u64);
            assert forall|i: int, j: int|
                0 <= i < v.launchpads.len() && 0 <= j < v.launchpads.len()
                    && #[trigger] v.launchpads[i] is Some && #[trigger] v.launchpads[j] is Some
                    && v.launchpads[i]->0.token == v.launchpads[j]->0.token implies i == j by {
                if i == n && j < n {
                    assert(sells(old_view.launchpads[j], lp.token@));
                }
                if j == n && i < n {
                    assert(sells(old_view.launchpads[i], lp.token@));
                }
            }
        }
    }

    /// Sets the amount on offer of the stored launchpad `id`.
    fn set_amount(&mut self, id: u64, amount: u128)
        requires
            old(self)@.wf(),
            old(self)@.launchpad(id) matches Some(lp) && lp.total_sold <= amount,
        ensures
            final(self)@.wf(),
            final(self)@ == (ConfigView {
                launchpads: old(self)@.launchpads.update(id as int, Some(LaunchpadView { amount, ..old(self)@.launchpad(id)->0 })),
                ..old(self)@
            }),
    {
        let ghost old_view = self@;
        assert(id < self.launchpads.len());
        let i = id as usize;
        assert(entry_view(self.launchpads@[i as int]) == self@.launchpads[i as int]);
        let mut lp = self.launchpads[i].take().unwrap();
        lp.amount = amount;
        self.launchpads.set(i, Some(lp));
        assert(self@.launchpads =~= old_view.launchpads.update(id as int, Some(lp@)));
        proof { self.lemma_replaced(old_view, id, lp@); }
    }

    /// Marks the stored launchpad `id` as launched.
    fn set_launched(&mut self, id: u64)
        requires
            old(self)@.wf(),
            old(self)@.launchpad(id) is Some,
        ensures
            final(self)@.wf(),
            final(self)@ == (ConfigView {
                launchpads: old(self)@.launchpads.update(id as int, Some(LaunchpadView { launched: true, ..old(self)@.launchpad(id)->0 })),
                ..old(self)@
            }),
    {
        let ghost old_view = self@;
        assert(id < self.launchpads.len());
        let i = id as usize;
        assert(entry_view(self.launchpads@[i as int]) == self@.launchpads[i as int]);
        let mut lp = self.launchpads[i].take().unwrap();
        lp.launched = true;
        self.launchpads.set(i, Some(lp));
        assert(self@.launchpads =~= old_view.launchpads.update(id as int, Some(lp@)));
        proof { self.lemma_replaced(old_view, id, lp@); }
    }

    /// Removes the stored launchpad `id` and returns it.
    fn remove_launchpad(&mut self, id: u64) -> (r: Launchpad)
        requires
            old(self)@.wf(),
            old(self)@.launchpad(id) is Some,
        ensures
            final(self)@.wf(),
            Some(r@) == old(self)@.launchpad(id),
            final(self)@ == (ConfigView { launchpads: old(self)@.launchpads.update(id as int, None), ..old(self)@ }),
    {
        let ghost old_view = self@;
        assert(id < self.launchpads.len());
        let i = id as usize;
        assert(entry_view(self.launchpads@[i as int]) == self@.launchpads[i as int]);
        let lp = self.launchpads[i].take().unwrap();
        assert(self@.launchpads =~= old_view.launchpads.update(id as int, None));
        lp
    }

    /// Records that `user` paid `paid` and bought `bought` units in the
    /// stored launchpad `id`.
    fn record_purchase(&mut self, id: u64, user: Address, paid: u128, bought: u128)
        requires
            old(self)@.wf(),
            old(self)@.launchpad(id) matches Some(lp) && lp.total_raised + paid <= u128::MAX
                && lp.total_sold + bought <= lp.amount,
            old(self)@.launchpad(id) matches Some(lp) && lp.min_buy_amount <= old(self)@.participation(user, id) + bought
                <= lp.max_buy_amount,
        ensures
            final(self)@.wf(),
            final(self)@ == (ConfigView {
                launchpads: old(self)@.launchpads.update(id as int, Some(LaunchpadView {
                    total_raised: (old(self)@.launchpad(id)->0.total_raised + paid) as u128,
                    total_sold: (old(self)@.launchpad(id)->0.total_sold + bought) as u128,
                    ..old(self)@.launchpad(id)->0
                })),
                participations: with_purchase(old(self)@.participations, user, id, bought),
                ..old(self)@
            }),
    {
        let ghost old_view = self@;
        let ghost ps = self.participations@;
        assert(id < self.launchpads.len());
        let i = id as usize;
        assert(entry_view(self.launchpads@[i as int]) == self@.launchpads[i as int]);
        let mut lp = self.launchpads[i].take().unwrap();
        lp.total_raised = lp.total_raised + paid;
        lp.total_sold = lp.total_sold + bought;
        self.launchpads.set(i, Some(lp));
        // find the buyer's entry
        let n = self.participations.len();
        let mut k: usize = 0;
        let mut found = false;
        while k < n
            invariant_except_break
                !found,
            invariant
                n == ps.len(),
                k <= n,
                ps == self.participations@,
                forall|j: int| 0 <= j < k ==> !((#[trigger] ps[j]).user == user && ps[j].launchpad_id == id),
            ensures
                k <= n,
                found ==> k < n && ps[k as int].user == user && ps[k as int].launchpad_id == id,
                !found ==> forall|j: int| 0 <= j < n ==> !((#[trigger] ps[j]).user == user && ps[j].launchpad_id == id),
            decreases n - k,
        {
            let p = self.participations[k];
            if p.user.same(&user) && p.launchpad_id == id {
                found = true;
                break;
            }
            k += 1;
        }
        let ghost new_ps: Seq<Participation>;
        if found {
            let p = self.participations[k];
            proof {
                lemma_bought_at(ps, k as int);
                let c = choose|c: int| 0 <= c < ps.len() && ps[c].user == user && ps[c].launchpad_id == id;
                if c != k as int {
                    if c < k as int {
                        assert(!(ps[c].user == ps[k as int].user && ps[c].launchpad_id == ps[k as int].launchpad_id));
                    } else {
                        assert(!(ps[k as int].user == ps[c].user && ps[k as int].launchpad_id == ps[c].launchpad_id));
                    }
                }
            }
            self.participations.set(k, Participation { user, launchpad_id: id, amount: p.amount + bought });
            proof {
                new_ps = self.participations@;
                assert(new_ps == with_purchase(ps, user, id, bought));
                lemma_sold_update(ps, k as int, new_ps[k as int], id);
            }
        } else {
            self.participations.push(Participation { user, launchpad_id: id, amount: bought });
            proof {
                lemma_bought_absent(ps, user, id);
                new_ps = self.participations@;
                assert(new_ps == with_purchase(ps, user, id, bought));
            }
        }
        proof {
            let v = self@;
            assert(v.launchpads =~= old_view.launchpads.update(id as int, Some(lp@)));
            assert forall|j: int| 0 <= j < v.launchpads.len() implies (#[trigger] v.launchpads[j] matches Some(l)
                ==> sold_to_buyers(v.participations, j as u64) == l.total_sold) by {
                if v.launchpads[j] is Some {
                    if found {
                        lemma_sold_update(ps, k as int, new_ps[k as int], j as u64);
                    } else {
                        lemma_sold_push(ps, new_ps.last(), j as u64);
                        assert(new_ps =~= ps.push(new_ps.last()));
                    }
                }
            }
            assert forall|a: int, b: int| 0 <= a < b < new_ps.len() implies !(#[trigger] new_ps[a].user == #[trigger] new_ps[b].user && new_ps[a].launchpad_id == new_ps[b].launchpad_id) by {
                if !found && b == ps.len() {
                    assert(!(ps[a].user == user && ps[a].launchpad_id == id));
                }
            }
            assert forall|j: int| 0 <= j < new_ps.len() implies (#[trigger] new_ps[j]).launchpad_id < v.launchpads.len() by {
                if !found && j == ps.len() {
                } else {
                    assert(new_ps[j].launchpad_id == ps[j].launchpad_id);
                }
            }
            assert forall|q: int| 0 <= q < new_ps.len()
                implies within_limits(v.launchpads[new_ps[q].launchpad_id as int], #[trigger] new_ps[q]) by {
                if (found && q == k as int) || (!found && q == ps.len()) {
                    assert(new_ps[q].launchpad_id == id);
                } else {
                    assert(new_ps[q] == ps[q]);
                    assert(within_limits(old_view.launchpads[ps[q].launchpad_id as int], ps[q]));
                }
            }
        }
    }

    /// The invariant still holds after the stored launchpad `id` was
    /// replaced by one that keeps its id, token, price, limits, times and
    /// sales and offers no fewer tokens than it sold.
    proof fn lemma_replaced(&self, old_view: ConfigView, id: u64, lp: LaunchpadView)
        requires
            old_view.wf(),
            old_view.launchpad(id) matches Some(o) && lp == (LaunchpadView { amount: lp.amount, launched: lp.launched, ..o }),
            lp.total_sold <= lp.amount,
            self@ == (ConfigView { launchpads: old_view.launchpads.update(id as int, Some(lp)), ..old_view }),
        ensures
            self@.wf(),
    {
        let v = self@;
        assert forall|i: int, j: int|
            0 <= i < v.launchpads.len() && 0 <= j < v.launchpads.len()
                && #[trigger] v.launchpads[i] is Some && #[trigger] v.launchpads[j] is Some
                && v.launchpads[i]->0.token == v.launchpads[j]->0.token implies i == j by {
            assert(old_view.launchpads[i] is Some && old_view.launchpads[j] is Some);
        }
        assert forall|j: int| 0 <= j < v.launchpads.len() implies (#[trigger] v.launchpads[j] matches Some(l)
            ==> sold_to_buyers(v.participations, j as u64) == l.total_sold) by {
            assert(old_view.launchpads[j] is Some ==> sold_to_buyers(old_view.participations, j as u64) == old_view.launchpads[j]->0.total_sold);
        }
    }
}

impl ConfigModule {
    /// Stores a new launchpad under the next id.
    pub(crate) fn insert_launchpad(&mut self, lp: Launchpad)
        requires
            old(self)@.launchpads.len() < u64::MAX,
            lp@.well_formed(old(self)@.launchpads.len() as int),
            lp@.total_sold == 0,
            !old(self)@.token_taken(lp.token@),
        ensures
            final(self)@.wf(),
            final(self)@ == (ConfigView { launchpads: old(self)@.launchpads.push(Some(lp@)), ..old(self)@ }),
    {
        let mut storage = self.take_storage();
        storage.insert_launchpad(lp);
        self.storage = storage;
    }

    /// Sets the amount on offer of the stored launchpad `id`.
    pub(crate) fn set_amount(&mut self, id: u64, amount: u128)
        requires
            old(self)@.launchpad(id) matches Some(lp) && lp.total_sold <= amount,
        ensures
            final(self)@.wf(),
            final(self)@ == (ConfigView {
                launchpads: old(self)@.launchpads.update(id as int, Some(LaunchpadView { amount, ..old(self)@.launchpad(id)->0 })),
                ..old(self)@
            }),
    {
        let mut storage = self.take_storage();
        storage.set_amount(id, amount);
        self.storage = storage;
    }

    /// Marks the stored launchpad `id` as launched.
    pub(crate) fn set_launched(&mut self, id: u64)
        requires
            old(self)@.launchpad(id) is Some,
        ensures
            final(self)@.wf(),
            final(self)@ == (ConfigView {
                launchpads: old(self)@.launchpads.update(id as int, Some(LaunchpadView { launched: true, ..old(self)@.launchpad(id)->0 })),
                ..old(self)@
            }),
    {
        let mut storage = self.take_storage();
        storage.set_launched(id);
        self.storage = storage;
    }

    /// Removes the stored launchpad `id` and returns it.
    pub(crate) fn remove_launchpad(&mut self, id: u64) -> (r: Launchpad)
        requires
            old(self)@.launchpad(id) is Some,
        ensures
            final(self)@.wf(),
            Some(r@) == old(self)@.launchpad(id),
            final(self)@ == (ConfigView { launchpads: old(self)@.launchpads.update(id as int, None), ..old(self)@ }),
    {
        let mut storage = self.take_storage();
        let r = storage.remove_launchpad(id);
        self.storage = storage;
        r
    }

    /// Records that `user` paid `paid` and bought `bought` units in the
    /// stored launchpad `id`.
    pub(crate) fn record_purchase(&mut self, id: u64, user: Address, paid: u128, bought: u128)
        requires
            old(self)@.launchpad(id) matches Some(lp) && lp.total_raised + paid <= u128::MAX
                && lp.total_sold + bought <= lp.amount,
            old(self)@.launchpad(id) matches Some(lp) && lp.min_buy_amount <= old(self)@.participation(user, id) + bought
                <= lp.max_buy_amount,
        ensures
            final(self)@.wf(),
            final(self)@ == (ConfigView {
                launchpads: old(self)@.launchpads.update(id as int, Some(LaunchpadView {
                    total_raised: (old(self)@.launchpad(id)->0.total_raised + paid) as u128,
                    total_sold: (old(self)@.launchpad(id)->0.total_sold + bought) as u128,
                    ..old(self)@.launchpad(id)->0
                })),
                participations: with_purchase(old(self)@.participations, user, id, bought),
                ..old(self)@
            }),
    {
        let mut storage = self.take_storage();
        storage.record_purchase(id, user, paid, bought);
        self.storage = storage;
    }
}

impl ConfigView {
    /// What `address` bought in each launchpad, by id.
    pub open spec fn bought_by_user(self, address: Address) -> Seq<u128> {
        Seq::new(self.launchpads.len(), |id: int| self.participation(address, id as u64))
    }

    /// What `get_all_launchpads` returns.
    pub open spec fn all_launchpads(self, now: u64, start_idx: u64, end_idx: u64, address: Address, filter: Option<Status>) -> Seq<LaunchpadView> {
        listing(self.launchpads, self.bought_by_user(address), now, start_idx, end_idx, filter)
    }

    /// The number of stored launchpads whose status at `now` passes `filter`.
    pub open spec fn launchpads_count(self, now: u64, filter: Option<Status>) -> nat {
        self.launchpads.filter_map(pick_with_status(now, filter)).len()
    }

    /// The stored launchpads that end after `timestamp`, with their status at
    /// `now`.
    pub open spec fn launchpads_since(self, now: u64, timestamp: u64) -> Seq<LaunchpadView> {
        self.launchpads.filter_map(pick_ending_after(now, timestamp))
    }

    /// The stored launchpads that are active at `now`.
    pub open spec fn active_launchpads(self, now: u64) -> Seq<LaunchpadView> {
        self.launchpads.filter_map(pick_active(now))
    }

    /// The stored launchpads that are neither launched nor active at `now`.
    pub open spec fn ended_launchpads_not_launched(self, now: u64) -> Seq<LaunchpadView> {
        self.launchpads.filter_map(pick_ended_not_launched(now))
    }

    /// For each payment token, in order of first appearance, the sum the
    /// stored launchpads raised in it.
    pub open spec fn total_raised(self) -> Seq<PaymentView> {
        raised_totals(self.launchpads)
    }
}

impl ConfigModule {
    /// The stored launchpads, each with its status at `current_time` and
    /// with what `address` bought in it. Launchpads are numbered in id order
    /// among the stored ones; when `start_idx` or `end_idx` is nonzero only
    /// those numbered `start_idx..=end_idx` are listed, and when `status` is
    /// given only those with that status.
    pub fn get_all_launchpads(
        &self,
        current_time: u64,
        start_idx: u64,
        end_idx: u64,
        address: Address,
        status: Option<Status>,
    ) -> (r: Vec<Launchpad>)
        ensures
            launchpads_view(r@) == self@.all_launchpads(current_time, start_idx, end_idx, address, status),
    {
        let n = self.storage.launchpads.len();
        let mut bought: Vec<u128> = Vec::new();
        let mut i: usize = 0;
        while i < n
            invariant
                n == self.storage.launchpads.len(),
                i <= n,
                bought@ =~= self@.bought_by_user(address).take(i as int),
            decreases n - i,
        {
            bought.push(self.get_user_participation(address, i as u64));
            i += 1;
        }
        assert(bought@ =~= self@.bought_by_user(address));
        list_launchpads(&self.storage.launchpads, &bought, current_time, start_idx, end_idx, status)
    }

    /// The number of stored launchpads whose status at `current_time` is
    /// `status`, or of all stored launchpads when `status` is `None`.
    pub fn get_launchpads_count(&self, current_time: u64, status: Option<Status>) -> (r: u64)
        ensures
            r == self@.launchpads_count(current_time, status),
    {
        count_launchpads(&self.storage.launchpads, current_time, status)
    }

    /// The stored launchpads that end after `timestamp`, each with its status
    /// at `current_time`.
    pub fn get_all_launchpads_since(&self, current_time: u64, timestamp: u64) -> (r: Vec<Launchpad>)
        ensures
            launchpads_view(r@) == self@.launchpads_since(current_time, timestamp),
    {
        launchpads_ending_after(&self.storage.launchpads, current_time, timestamp)
    }

    /// The stored launchpads that are active at `now`.
    pub fn get_active_launchpads(&self, now: u64) -> (r: Vec<Launchpad>)
        ensures
            launchpads_view(r@) == self@.active_launchpads(now),
    {
        active_launchpads(&self.storage.launchpads, now)
    }

    /// The stored launchpads that are neither launched nor active at `now`.
    pub fn get_ended_launchpads_not_launched(&self, now: u64) -> (r: Vec<Launchpad>)
        ensures
            launchpads_view(r@) == self@.ended_launchpads_not_launched(now),
    {
        ended_launchpads_not_launched(&self.storage.launchpads, now)
    }

    /// For each payment token, in order of first appearance, the sum the
    /// stored launchpads raised in it; `None` when such a sum does not fit in
    /// a `u128`.
    pub fn get_total_raised(&self) -> (r: Option<Vec<EsdtTokenPayment>>)
        ensures
            r is Some <==> forall|t: Seq<char>| raised_in(self@.launchpads, t) <= u128::MAX,
            r matches Some(v) ==> payments_view(v@) == self@.total_raised(),
    {
        assert(self@.launchpads == entries_view(self.storage.launchpads@));
        total_raised(&self.storage.launchpads)
    }
}

} // verus!
