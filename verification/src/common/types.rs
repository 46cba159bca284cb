//! Plain-value types that the contract logic reads: account addresses,
//! token payments, outgoing transfers and the errors an endpoint can raise.
use vstd::prelude::*;

verus! {

broadcast use vstd::array::group_array_axioms;

/// A 32-byte account or contract address.
#[derive(Clone, Copy, Debug, PartialEq, Eq)]
pub struct Address(pub [u8; 32]);

impl Address {
    /// Compares two addresses byte by byte.
    pub fn same(&self, other: &Address) -> (r: bool)
        ensures
            r == (*self == *other),
    {
        let mut i: usize = 0;
        while i < 32
            invariant
                i <= 32,
                forall|j: int| 0 <= j < i ==> self.0[j] == other.0[j],
            decreases 32 - i,
        {
            if self.0[i] != other.0[i] {
                return false;
            }
            i += 1;
        }
        assert(self.0 =~= other.0);
        true
    }
}


/// A transfer of `amount` units of the ESDT token `token_identifier`
/// (`token_nonce` is 0 for fungible tokens).
#[derive(Debug, PartialEq, Eq)]
pub struct EsdtTokenPayment {
    pub token_identifier: String,
    pub token_nonce: u64,
    pub amount: u128,
}

/// What a payment carries, as plain values.
pub struct PaymentView {
    pub token: Seq<char>,
    pub nonce: u64,
    pub amount: u128,
}

impl View for EsdtTokenPayment {
    type V = PaymentView;

    open spec fn view(&self) -> PaymentView {
        PaymentView { token: self.token_identifier@, nonce: self.token_nonce, amount: self.amount }
    }
}

/// The payment attached to a call, if it is exactly one ESDT transfer.
pub open spec fn attached_view(payment: Option<EsdtTokenPayment>) -> Option<PaymentView> {
    match payment {
        Some(p) => Some(p@),
        None => None,
    }
}

/// The payments of a list, as plain values.
pub open spec fn payments_view(payments: Seq<EsdtTokenPayment>) -> Seq<PaymentView> {
    payments.map_values(|p: EsdtTokenPayment| p@)
}

impl EsdtTokenPayment {
    /// A fungible payment of `amount` units of `token`.
    pub fn fungible(token: &String, amount: u128) -> (r: EsdtTokenPayment)
        ensures
            r@ == (PaymentView { token: token@, nonce: 0, amount }),
    {
        EsdtTokenPayment { token_identifier: token.clone(), token_nonce: 0, amount }
    }
}

/// Tokens the contract sends out.
#[derive(Debug, PartialEq, Eq)]
pub enum Transfer {
    /// One ESDT transfer to `to`.
    Esdt { to: Address, payment: EsdtTokenPayment },
    /// Several ESDT transfers to `to` in one multi-transfer.
    MultiEsdt { to: Address, payments: Vec<EsdtTokenPayment> },
}

/// What a transfer carries, as plain values.
pub enum TransferView {
    Esdt { to: Address, payment: PaymentView },
    MultiEsdt { to: Address, payments: Seq<PaymentView> },
}

impl View for Transfer {
    type V = TransferView;

    open spec fn view(&self) -> TransferView {
        match self {
            Transfer::Esdt { to, payment } => TransferView::Esdt { to: *to, payment: payment@ },
            Transfer::MultiEsdt { to, payments } => TransferView::MultiEsdt {
                to: *to,
                payments: payments_view(payments@),
            },
        }
    }
}

/// Why an endpoint refuses a call. A refused call changes nothing.
#[derive(Clone, Copy, Debug, PartialEq, Eq, Structural)]
pub enum LaunchpadError {
    /// The contract is not in the `Active` state.
    NotActive,
    /// The caller is not the owner of the contract.
    OnlyOwner,
    /// The platform address is not set yet.
    PlatformNotSet,
    /// The platform address is already set.
    PlatformAlreadySet,
    /// The platform does not whitelist the caller.
    NotWhitelisted,
    /// The price is zero.
    ZeroPrice,
    /// The minimum buy amount exceeds the maximum buy amount.
    WrongMinMaxAmounts,
    /// The start time is not in the future.
    WrongStartTime,
    /// The end time is not after the start time.
    WrongEndTime,
    /// The token already has a launchpad.
    TokenAlreadyLaunched,
    /// No launchpad has this id.
    LaunchpadNotFound,
    /// The launchpad is not open for this operation.
    LaunchpadInactive,
    /// The call does not carry exactly one ESDT transfer.
    IncorrectPayment,
    /// The transferred token is not the one the launchpad expects.
    WrongToken,
    /// Only the owner of the launchpad may do this.
    OnlyLaunchpadOwner,
    /// A launchpad that has sold tokens cannot be cancelled.
    DeletingLaunchpad,
    /// The buyer's total would stay below the minimum buy amount.
    LowAmount,
    /// The buyer's total would exceed the maximum buy amount.
    HighAmount,
    /// The launchpad does not hold enough unsold tokens.
    InsufficientFunds,
    /// The launchpad has not ended yet.
    LaunchpadNotEnded,
    /// The launchpad was already launched.
    AlreadyLaunched,
    /// A token amount would exceed the 128 bits that hold it.
    AmountOutOfRange,
    /// Every launchpad id has been handed out.
    IdsExhausted,
}

} // verus!
