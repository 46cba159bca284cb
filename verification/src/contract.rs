//! The launchpad endpoints: creating a launchpad, depositing the tokens for
//! sale, cancelling, buying and launching.
use vstd::prelude::*;

use crate::common::config::{step, with_purchase, ConfigModule, ConfigView, Env, Launchpad, LaunchpadView, State, Status};
use crate::common::types::{attached_view, Address, EsdtTokenPayment, LaunchpadError, PaymentView, Transfer, TransferView};

verus! {

/// The verdict on the parameters of a new launchpad: the first rule that
/// they break, in the order the contract checks them.
pub open spec fn new_launchpad_verdict(
    state: State,
    caller_whitelisted: bool,
    price: u128,
    min_buy_amount: u128,
    max_buy_amount: u128,
    now: u64,
    start_time: u64,
    end_time: u64,
    token_taken: bool,
    last_launchpad_id: u64,
) -> Result<(), LaunchpadError> {
    if state != State::Active {
        Err(LaunchpadError::NotActive)
    } else if !caller_whitelisted {
        Err(LaunchpadError::NotWhitelisted)
    } else if price == 0 {
        Err(LaunchpadError::ZeroPrice)
    } else if min_buy_amount > max_buy_amount {
        Err(LaunchpadError::WrongMinMaxAmounts)
    } else if !(now < start_time) {
        Err(LaunchpadError::WrongStartTime)
    } else if !(start_time < end_time) {
        Err(LaunchpadError::WrongEndTime)
    } else if token_taken {
        Err(LaunchpadError::TokenAlreadyLaunched)
    } else if last_launchpad_id == u64::MAX {
        Err(LaunchpadError::IdsExhausted)
    } else {
        Ok(())
    }
}

/// Checks the parameters of a new launchpad.
pub fn check_new_launchpad(
    state: State,
    caller_whitelisted: bool,
    price: u128,
    min_buy_amount: u128,
    max_buy_amount: u128,
    now: u64,
    start_time: u64,
    end_time: u64,
    token_taken: bool,
    last_launchpad_id: u64,
) -> (r: Result<(), LaunchpadError>)
    ensures
        r == new_launchpad_verdict(state, caller_whitelisted, price, min_buy_amount, max_buy_amount, now, start_time, end_time,
            token_taken, last_launchpad_id),
{
    if state != State::Active {
        Err(LaunchpadError::NotActive)
    } else if !caller_whitelisted {
        Err(LaunchpadError::NotWhitelisted)
    } else if price == 0 {
        Err(LaunchpadError::ZeroPrice)
    } else if min_buy_amount > max_buy_amount {
        Err(LaunchpadError::WrongMinMaxAmounts)
    } else if !(now < start_time) {
        Err(LaunchpadError::WrongStartTime)
    } else if !(start_time < end_time) {
        Err(LaunchpadError::WrongEndTime)
    } else if token_taken {
        Err(LaunchpadError::TokenAlreadyLaunched)
    } else if last_launchpad_id == u64::MAX {
        Err(LaunchpadError::IdsExhausted)
    } else {
        Ok(())
    }
}

/// The first rule a call on a launchpad breaks, if any: the contract must be
/// active and the launchpad must exist.
pub open spec fn gate_verdict(state: State, launchpad_exists: bool) -> Result<(), LaunchpadError> {
    if state != State::Active {
        Err(LaunchpadError::NotActive)
    } else if !launchpad_exists {
        Err(LaunchpadError::LaunchpadNotFound)
    } else {
        Ok(())
    }
}

/// Checks that the contract is active and the launchpad exists.
pub fn check_gate(state: State, launchpad_exists: bool) -> (r: Result<(), LaunchpadError>)
    ensures
        r == gate_verdict(state, launchpad_exists),
{
    if state != State::Active {
        Err(LaunchpadError::NotActive)
    } else if !launchpad_exists {
        Err(LaunchpadError::LaunchpadNotFound)
    } else {
        Ok(())
    }
}

/// The launchpad stored by `new_launchpad`.
pub open spec fn created_launchpad(
    id: u64,
    owner: Address,
    description: Seq<u8>,
    token: Seq<char>,
    payment_token: Seq<char>,
    price: u128,
    min_buy_amount: u128,
    max_buy_amount: u128,
    start_time: u64,
    end_time: u64,
) -> LaunchpadView {
    LaunchpadView {
        id,
        owner,
        description,
        token,
        amount: 0,
        payment_token,
        price,
        min_buy_amount,
        max_buy_amount,
        start_time,
        end_time,
        total_raised: 0,
        total_sold: 0,
        launched: false,
        status: Status::Pending,
        user_bought: 0,
    }
}

/// The record of a new launchpad: nothing offered, sold or raised yet.
pub fn new_launchpad_record(
    id: u64,
    owner: Address,
    description: Vec<u8>,
    token: String,
    payment_token: String,
    price: u128,
    min_buy_amount: u128,
    max_buy_amount: u128,
    start_time: u64,
    end_time: u64,
) -> (r: Launchpad)
    ensures
        r@ == created_launchpad(id, owner, description@, token@, payment_token@, price, min_buy_amount, max_buy_amount,
            start_time, end_time),
{
    Launchpad {
        id,
        owner,
        description,
        token,
        amount: 0,
        payment_token,
        price,
        min_buy_amount,
        max_buy_amount,
        start_time,
        end_time,
        total_raised: 0,
        total_sold: 0,
        launched: false,
        status: Status::Pending,
        user_bought: 0,
    }
}

impl ConfigView {
    /// The first rule a call that reaches launchpad `id` breaks, if any: the
    /// contract must be active and the launchpad must exist.
    pub open spec fn launchpad_gate(self, id: u64) -> Result<(), LaunchpadError> {
        gate_verdict(self.state, self.launchpad(id) is Some)
    }

    /// The answer to `cancel_launchpad(id)` by `caller`: the first rule
    /// broken, if any.
    pub open spec fn cancel_verdict(self, caller: Address, id: u64) -> Result<(), LaunchpadError> {
        match self.launchpad_gate(id) {
            Err(e) => Err(e),
            Ok(()) => self.launchpad(id)->0.cancel_check(caller),
        }
    }

    /// The answer to `launch(id)` at `now`: the first rule broken, if any.
    pub open spec fn launch_verdict(self, now: u64, id: u64) -> Result<(), LaunchpadError> {
        match self.launchpad_gate(id) {
            Err(e) => Err(e),
            Ok(()) => self.launchpad(id)->0.launch_check(now),
        }
    }

    /// The answer to `add_tokens(id)` with `payment` at `now`: the new amount
    /// on offer, or the first rule broken.
    pub open spec fn deposit_verdict(self, now: u64, id: u64, payment: Option<PaymentView>) -> Result<u128, LaunchpadError> {
        match self.launchpad_gate(id) {
            Err(e) => Err(e),
            Ok(()) => self.launchpad(id)->0.deposit_quote(now, payment),
        }
    }

    /// The answer to `buy(id)` by `caller` with `payment` at `now`: the units
    /// bought, or the first rule broken.
    pub open spec fn buy_verdict(self, caller: Address, now: u64, id: u64, payment: Option<PaymentView>) -> Result<u128, LaunchpadError> {
        match self.launchpad_gate(id) {
            Err(e) => Err(e),
            Ok(()) => self.launchpad(id)->0.purchase_quote(now, payment, self.participation(caller, id)),
        }
    }
}

/// The launchpad contract: the storage of its configuration module and the
/// endpoints that create, fund, cancel, sell and launch launchpads.
pub struct TFNTestLaunchpadContract {
    pub config: ConfigModule,
}

impl View for TFNTestLaunchpadContract {
    type V = ConfigView;

    open spec fn view(&self) -> ConfigView {
        self.config@
    }
}

impl TFNTestLaunchpadContract {
    /// Deploys the contract. When the deployer is a contract (the platform),
    /// it becomes the platform address and the contract starts active.
    pub fn init(caller: Address, caller_is_smart_contract: bool) -> (r: TFNTestLaunchpadContract)
        ensures
            r@.wf(),
            r@.launchpads.len() == 0,
            r@.participations.len() == 0,
            r@.governance_token is None,
            caller_is_smart_contract ==> r@.state == State::Active && r@.platform_sc == Some(caller),
            !caller_is_smart_contract ==> r@.state == State::Inactive && r@.platform_sc is None,
    {
        let mut config = ConfigModule::new();
        if caller_is_smart_contract {
            let _ = config.store_platform(caller);
            let _ = config.activate();
        }
        TFNTestLaunchpadContract { config }
    }

    /// Upgrades the contract; the storage stays as it is.
    pub fn upgrade(&mut self)
        ensures
            final(self)@ == old(self)@,
            step(old(self)@, final(self)@),
    {
    }

    /// Creates a launchpad for `token` owned by the caller, who must be
    /// whitelisted on the platform (`caller_whitelisted` is the platform's
    /// answer). Returns the id of the new launchpad.
    pub fn new_launchpad(
        &mut self,
        env: &Env,
        caller_whitelisted: bool,
        description: Vec<u8>,
        token: String,
        payment_token: String,
        price: u128,
        min_buy_amount: u128,
        max_buy_amount: u128,
        start_time: u64,
        end_time: u64,
    ) -> (r: Result<u64, LaunchpadError>)
        ensures
            final(self)@.wf(),
            step(old(self)@, final(self)@),
            r is Err <==> new_launchpad_verdict(old(self)@.state, caller_whitelisted, price, min_buy_amount, max_buy_amount,
                env.block_timestamp, start_time, end_time, old(self)@.token_taken(token@),
                old(self)@.last_launchpad_id() as u64) is Err,
            r matches Err(e) ==> Err::<(), LaunchpadError>(e) == new_launchpad_verdict(old(self)@.state, caller_whitelisted, price, min_buy_amount,
                max_buy_amount, env.block_timestamp, start_time, end_time, old(self)@.token_taken(token@),
                old(self)@.last_launchpad_id() as u64)
                && final(self)@ == old(self)@,
            r matches Ok(id) ==> id == old(self)@.last_launchpad_id() && final(self)@ == (ConfigView {
                launchpads: old(self)@.launchpads.push(Some(created_launchpad(id, env.caller, description@, token@,
                    payment_token@, price, min_buy_amount, max_buy_amount, start_time, end_time))),
                ..old(self)@
            }),
    {
        let taken = self.config.find_token(&token).is_some();
        let last_id = self.config.get_last_launchpad_id();
        let verdict = check_new_launchpad(
            self.config.get_state(),
            caller_whitelisted,
            price,
            min_buy_amount,
            max_buy_amount,
            env.block_timestamp,
            start_time,
            end_time,
            taken,
            last_id,
        );
        match verdict {
            Err(e) => Err(e),
            Ok(()) => {
                let launchpad = new_launchpad_record(last_id, env.caller, description, token, payment_token, price,
                    min_buy_amount, max_buy_amount, start_time, end_time);
                self.config.insert_launchpad(launchpad);
                Ok(last_id)
            },
        }
    }

    /// Deposits the attached tokens for sale in launchpad `id`, which must
    /// not have ended.
    pub fn add_tokens(&mut self, env: &Env, id: u64, payment: Option<EsdtTokenPayment>) -> (r: Result<(), LaunchpadError>)
        ensures
            final(self)@.wf(),
            step(old(self)@, final(self)@),
            r is Err <==> old(self)@.deposit_verdict(env.block_timestamp, id, attached_view(payment)) is Err,
            r matches Err(e) ==> old(self)@.deposit_verdict(env.block_timestamp, id, attached_view(payment)) == Err::<u128, LaunchpadError>(e)
                && final(self)@ == old(self)@,
            r is Ok ==> final(self)@ == (ConfigView {
                launchpads: old(self)@.launchpads.update(id as int, Some(LaunchpadView {
                    amount: old(self)@.deposit_verdict(env.block_timestamp, id, attached_view(payment))->Ok_0,
                    ..old(self)@.launchpad(id)->0
                })),
                ..old(self)@
            }),
    {
        let stored = self.config.get_launchpad(id);
        if let Err(e) = check_gate(self.config.get_state(), stored.is_some()) {
            return Err(e);
        }
        let launchpad = stored.unwrap();
        match launchpad.deposit(env.block_timestamp, &payment) {
            Err(e) => Err(e),
            Ok(funded) => {
                self.config.set_amount(id, funded.amount);
                Ok(())
            },
        }
    }

    /// Cancels launchpad `id` before any token was sold. Only its owner may
    /// do so; the tokens deposited for sale go back to the owner.
    pub fn cancel_launchpad(&mut self, env: &Env, id: u64) -> (r: Result<Option<Transfer>, LaunchpadError>)
        ensures
            final(self)@.wf(),
            step(old(self)@, final(self)@),
            r is Err <==> old(self)@.cancel_verdict(env.caller, id) is Err,
            r matches Err(e) ==> old(self)@.cancel_verdict(env.caller, id) == Err::<(), LaunchpadError>(e) && final(self)@ == old(self)@,
            r matches Ok(refund) ==> {
                let lp = old(self)@.launchpad(id)->0;
                &&& final(self)@ == (ConfigView { launchpads: old(self)@.launchpads.update(id as int, None), ..old(self)@ })
                &&& lp.amount > 0 ==> (refund matches Some(t) && t@ == (TransferView::Esdt {
                    to: lp.owner,
                    payment: PaymentView { token: lp.token, nonce: 0, amount: lp.amount },
                }))
                &&& lp.amount == 0 ==> refund is None
            },
    {
        let stored = self.config.get_launchpad(id);
        if let Err(e) = check_gate(self.config.get_state(), stored.is_some()) {
            return Err(e);
        }
        let launchpad = stored.unwrap();
        if let Err(e) = launchpad.check_cancel(&env.caller) {
            return Err(e);
        }
        let launchpad = self.config.remove_launchpad(id);
        match launchpad.refund() {
            Some(payment) => Ok(Some(Transfer::Esdt { to: launchpad.owner, payment })),
            None => Ok(None),
        }
    }

    /// Buys tokens of launchpad `id` with the attached payment, at
    /// `payment * ONE / price` units; the bought tokens go to the caller.
    pub fn buy(&mut self, env: &Env, id: u64, payment: Option<EsdtTokenPayment>) -> (r: Result<Transfer, LaunchpadError>)
        ensures
            final(self)@.wf(),
            step(old(self)@, final(self)@),
            r is Err <==> old(self)@.buy_verdict(env.caller, env.block_timestamp, id, attached_view(payment)) is Err,
            r matches Err(e) ==> old(self)@.buy_verdict(env.caller, env.block_timestamp, id, attached_view(payment)) == Err::<u128, LaunchpadError>(e)
                && final(self)@ == old(self)@,
            r matches Ok(t) ==> {
                let lp = old(self)@.launchpad(id)->0;
                let bought = old(self)@.buy_verdict(env.caller, env.block_timestamp, id, attached_view(payment))->Ok_0;
                let paid = payment->0.amount;
                &&& t@ == (TransferView::Esdt { to: env.caller, payment: PaymentView { token: lp.token, nonce: 0, amount: bought } })
                &&& final(self)@ == (ConfigView {
                    launchpads: old(self)@.launchpads.update(id as int, Some(LaunchpadView {
                        total_raised: (lp.total_raised + paid) as u128,
                        total_sold: (lp.total_sold + bought) as u128,
                        ..lp
                    })),
                    participations: with_purchase(old(self)@.participations, env.caller, id, bought),
                    ..old(self)@
                })
            },
    {
        let stored = self.config.get_launchpad(id);
        if let Err(e) = check_gate(self.config.get_state(), stored.is_some()) {
            return Err(e);
        }
        let launchpad = stored.unwrap();
        let already_bought = self.config.get_user_participation(env.caller, id);
        match launchpad.sell(env.block_timestamp, &payment, already_bought) {
            Err(e) => Err(e),
            Ok(sale) => {
                let paid = match &payment {
                    Some(p) => p.amount,
                    None => 0,
                };
                self.config.record_purchase(id, env.caller, paid, sale.bought);
                Ok(Transfer::Esdt { to: env.caller, payment: EsdtTokenPayment::fungible(&launchpad.token, sale.bought) })
            },
        }
    }

    /// Launches launchpad `id` after it ended: its owner receives the raised
    /// payment tokens and the unsold tokens, in one multi-transfer.
    pub fn launch(&mut self, env: &Env, id: u64) -> (r: Result<Option<Transfer>, LaunchpadError>)
        ensures
            final(self)@.wf(),
            step(old(self)@, final(self)@),
            r is Err <==> old(self)@.launch_verdict(env.block_timestamp, id) is Err,
            r matches Err(e) ==> old(self)@.launch_verdict(env.block_timestamp, id) == Err::<(), LaunchpadError>(e) && final(self)@ == old(self)@,
            r matches Ok(payout) ==> {
                let lp = old(self)@.launchpad(id)->0;
                &&& final(self)@ == (ConfigView {
                    launchpads: old(self)@.launchpads.update(id as int, Some(LaunchpadView { launched: true, ..lp })),
                    ..old(self)@
                })
                &&& lp.launch_payouts().len() > 0 ==> (payout matches Some(t) && t@ == (TransferView::MultiEsdt {
                    to: lp.owner,
                    payments: lp.launch_payouts(),
                }))
                &&& lp.launch_payouts().len() == 0 ==> payout is None
            },
    {
        let stored = self.config.get_launchpad(id);
        if let Err(e) = check_gate(self.config.get_state(), stored.is_some()) {
            return Err(e);
        }
        let launchpad = stored.unwrap();
        match launchpad.launch(env.block_timestamp) {
            Err(e) => Err(e),
            Ok((_, payments)) => {
                self.config.set_launched(id);
                if payments.len() > 0 {
                    Ok(Some(Transfer::MultiEsdt { to: launchpad.owner, payments }))
                } else {
                    Ok(None)
                }
            },
        }
    }
}

} // verus!
