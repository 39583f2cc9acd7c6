use vstd::prelude::*;

verus! {

/// Every way in which an operation on a stream can be rejected.
#[derive(Clone, Copy, Debug, PartialEq, Eq, Structural)]
pub enum ContractError {
    /// The stream would start in the past, or before its bootstrapping phase.
    InvalidStartTime,
    /// The stream would not end after it starts.
    InvalidEndTime,
    /// The input and the output denomination coincide.
    SameDenomOnEachSide,
    /// Nothing is offered for sale.
    ZeroOutSupply,
    /// The name or the url is too long, empty, or holds unprintable characters.
    InvalidNameOrUrl,
    /// The caller lacks the owner, operator, treasury or admin role required.
    Unauthorized,
    /// The operation needs a stream that is bootstrapping or active.
    StreamNotStarted,
    /// The operation needs a stream whose window has passed.
    StreamNotEnded,
    /// The operation needs a stream whose window has not passed yet.
    StreamEnded,
    /// The stream has been settled already.
    StreamAlreadyFinalized,
    /// The stream has been cancelled already.
    StreamIsCancelled,
    /// The operation needs a cancelled stream.
    StreamNotCancelled,
    /// The stream was cancelled and no longer trades.
    StreamKillswitchActive,
    /// The stream sold less than its threshold.
    ThresholdNotReached,
    /// The stream sold at least its threshold.
    ThresholdReached,
    /// A withdrawal of nothing was asked for.
    InvalidWithdrawAmount,
    /// More was asked for than the position holds; carries the amount asked.
    WithdrawAmountExceedsBalance(u128),
    /// No payment, or a payment of zero, came with a subscription.
    NoFundsSent,
    /// The payment is in another denomination or in several.
    InvalidFunds,
    /// A quantity left the range of its type.
    ArithmeticOverflow,
    /// A ratio with a zero denominator was asked for.
    DivisionByZero,
    /// The salt for the vesting address is missing or has a bad length.
    InvalidSalt,
    /// No position is stored for the address.
    NotFound,
}

} // verus!
