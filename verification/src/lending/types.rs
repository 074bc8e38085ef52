//! Data model of the lending pool.

use vstd::prelude::*;
use crate::address::Address;

verus! {

/// Per-asset risk parameters stored by the admin.
#[derive(Clone, Copy, Debug, PartialEq, Eq)]
pub struct AssetConfig {
    /// Max loan-to-value in basis points (e.g. 7000 = 70%).
    pub ltv_bps: u32,
    /// Liquidation triggers when debt / collateral value exceeds this, in basis points.
    pub liquidation_threshold: u32,
    /// Extra collateral paid to the liquidator, in basis points.
    pub liquidation_bonus: u32,
    /// Whether this asset is accepted as collateral.
    pub is_active: bool,
}

/// Parameters of a pending flash-loan liquidation.
#[derive(Clone, Debug, PartialEq, Eq)]
pub struct FlashLiquidateParams {
    /// The initiator address.
    pub initiator: Address,
    /// Address of the flash-loan provider.
    pub flash_loan: Address,
    /// Address of the lending pool to liquidate from.
    pub lending_pool: Address,
    /// Borrower whose position must be liquidated.
    pub borrower: Address,
    /// Collateral asset to seize.
    pub collateral_asset: Address,
    /// Amount of SMT debt to repay on the borrower's behalf.
    pub repay_amount: i128,
    /// AMM pool used to swap seized collateral for SMT.
    pub amm_pool: Address,
    /// Minimum SMT received from the AMM swap.
    pub min_swap_output: i128,
    /// Maximum staleness accepted for oracle prices, in ledger seconds.
    pub max_price_age_secs: u64,
}

/// Why a lending-pool operation was refused.
#[derive(Clone, Copy, Debug, PartialEq, Eq, Structural)]
pub enum PoolError {
    AlreadyInitialized,
    NotInitialized,
    AmountNotPositive,
    AssetNotSupported,
    AssetNotActive,
    Overflow,
    InsufficientCollateralBalance,
    WouldUndercollateralize,
    InsufficientCollateralForBorrow,
    NoDebtToRepay,
    ReentrancyDetected,
    RepayAmountNotPositive,
    BorrowerHealthy,
    OracleNotSet,
    SmtTokenNotSet,
    RepayExceedsDebt,
    InvalidPrice,
    NoCollateralToSeize,
    StalePrice,
    FlashLiquidationPending,
    NoPendingFlashLiquidation,
    FlashAmountMismatch,
    InsufficientRepayment,
}

/// The message of each refusal.
pub open spec fn message_of(e: PoolError) -> Seq<char> {
    match e {
        PoolError::AlreadyInitialized => "already initialized"@,
        PoolError::NotInitialized => "not initialized"@,
        PoolError::AmountNotPositive => "amount must be positive"@,
        PoolError::AssetNotSupported => "asset not supported"@,
        PoolError::AssetNotActive => "asset not active"@,
        PoolError::Overflow => "overflow"@,
        PoolError::InsufficientCollateralBalance => "insufficient collateral balance"@,
        PoolError::WouldUndercollateralize => "withdrawal would undercollateralize position"@,
        PoolError::InsufficientCollateralForBorrow => "insufficient collateral for borrow"@,
        PoolError::NoDebtToRepay => "no debt to repay"@,
        PoolError::ReentrancyDetected => "reentrancy detected"@,
        PoolError::RepayAmountNotPositive => "repay amount must be positive"@,
        PoolError::BorrowerHealthy => "borrower is healthy"@,
        PoolError::OracleNotSet => "oracle not set"@,
        PoolError::SmtTokenNotSet => "smt token not set"@,
        PoolError::RepayExceedsDebt => "repay amount exceeds debt"@,
        PoolError::InvalidPrice => "invalid price"@,
        PoolError::NoCollateralToSeize => "no collateral available to seize"@,
        PoolError::StalePrice => "oracle price is stale"@,
        PoolError::FlashLiquidationPending => "flash liquidation already pending"@,
        PoolError::NoPendingFlashLiquidation => "no pending flash liquidation"@,
        PoolError::FlashAmountMismatch => "flash loan amount mismatch"@,
        PoolError::InsufficientRepayment => "insufficient SMT to repay flash loan after swap"@,
    }
}

impl PoolError {
    /// The message the contract aborts with for this refusal.
    pub fn message(&self) -> (r: &'static str)
        ensures
            r@ == message_of(*self),
    {
        match self {
            PoolError::AlreadyInitialized => "already initialized",
            PoolError::NotInitialized => "not initialized",
            PoolError::AmountNotPositive => "amount must be positive",
            PoolError::AssetNotSupported => "asset not supported",
            PoolError::AssetNotActive => "asset not active",
            PoolError::Overflow => "overflow",
            PoolError::InsufficientCollateralBalance => "insufficient collateral balance",
            PoolError::WouldUndercollateralize => "withdrawal would undercollateralize position",
            PoolError::InsufficientCollateralForBorrow => "insufficient collateral for borrow",
            PoolError::NoDebtToRepay => "no debt to repay",
            PoolError::ReentrancyDetected => "reentrancy detected",
            PoolError::RepayAmountNotPositive => "repay amount must be positive",
            PoolError::BorrowerHealthy => "borrower is healthy",
            PoolError::OracleNotSet => "oracle not set",
            PoolError::SmtTokenNotSet => "smt token not set",
            PoolError::RepayExceedsDebt => "repay amount exceeds debt",
            PoolError::InvalidPrice => "invalid price",
            PoolError::NoCollateralToSeize => "no collateral available to seize",
            PoolError::StalePrice => "oracle price is stale",
            PoolError::FlashLiquidationPending => "flash liquidation already pending",
            PoolError::NoPendingFlashLiquidation => "no pending flash liquidation",
            PoolError::FlashAmountMismatch => "flash loan amount mismatch",
            PoolError::InsufficientRepayment => "insufficient SMT to repay flash loan after swap",
        }
    }
}

/// The outcome of a seizure: how much collateral leaves the borrower, and
/// whether the repayment still has to be pulled from the liquidator.
#[derive(Clone, Copy, Debug, PartialEq, Eq)]
pub struct Seizure {
    pub collateral_seized: i128,
    pub pull_repayment: bool,
}

} // verus!
