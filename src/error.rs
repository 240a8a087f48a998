use vstd::prelude::*;

verus! {

/// Every way in which an operation of the quiz-room contract can be refused.
#[derive(Clone, Copy, Debug, PartialEq, Eq, Structural)]
pub enum QuizError {
    InvalidHostFee,
    MissingHostWallet,
    InvalidPrizeSplit,
    CharityBelowMinimum,
    InvalidPrizePoolBps,
    MissingPrizePoolConfig,
    MissingPrizeAssets,
    InvalidPrizeAssets,
    InvalidTotalAllocation,
    InvalidFeeToken,
    RoomAlreadyExists,
    RoomNotFound,
    RoomAlreadyEnded,
    PlayerAlreadyJoined,
    InsufficientPayment,
    Unauthorized,
    InvalidWinners,
    AssetTransferFailed,
    InsufficientPlayers,
    InsufficientAssets,
    DepositFailed,
    ScreenNameTaken,
    InvalidScreenName,
    ArithmeticOverflow,
    ArithmeticUnderflow,
    DivisionByZero,
    InsufficientBalance,
    TransferVerificationFailed,
    ReentrancyDetected,
    InvalidAddress,
    InvalidToken,
    AmountTooLarge,
    PercentageTooHigh,
    StateInconsistency,
    NotInitialized,
    AlreadyInitialized,
    NoPendingAdmin,
    EmergencyPause,
    InvalidEntryFee,
    InsufficientAmount,
    TokenNotApproved,
    TokenAlreadyExists,
    TokenNotFound,
    MaxTokensReached,
}

} // verus!
