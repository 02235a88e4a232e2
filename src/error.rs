use vstd::prelude::*;

verus! {

/// Every way an operation of this library can reject a request.
#[derive(Clone, Copy, Debug, PartialEq, Eq, Structural)]
pub enum LendingError {
    /// Malformed bytes: a short buffer, an unknown tag, a boolean byte other than 0 or 1.
    DecodeError,
    /// The record was written by a newer version than this one supports.
    VersionMismatch,
    /// A checked computation left the representable range.
    MathOverflow,
    /// A cumulative borrow rate went backwards.
    NegativeInterestRate,
    /// A configuration value is out of range or inconsistent.
    InvalidConfig,
    /// A reserve has to be refreshed in the current slot first.
    ReserveStale,
    /// An obligation has to be refreshed in the current slot first.
    ObligationStale,
    /// Liquidation was attempted on an obligation that is not unhealthy.
    ObligationHealthy,
    /// The obligation's collateral does not cover the requested borrow.
    InsufficientCollateral,
    /// The reserve does not hold enough liquidity for the request.
    InsufficientLiquidity,
    /// More collateral was asked for than may be withdrawn.
    WithdrawTooLarge,
    /// A reserve would appear twice in one list of an obligation.
    DuplicateReserveEntry,
    /// An obligation already holds the largest number of entries.
    CapacityExceeded,
    /// The reserve is already locked by an operation in progress.
    ReentrancyDetected,
}

} // verus!
