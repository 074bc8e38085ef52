use soroban_sdk::testutils::Address as _;
use soroban_sdk::xdr::ToXdr;
use soroban_sdk::Env;

use soromint::address::Address;
use soromint::lending::liquidation::compute_collateral_to_seize;
use soromint::lending::ops::ReentrancyGuard;
use soromint::lending::pool::LendingPool;
use soromint::lending::types::{AssetConfig, FlashLiquidateParams, PoolError};
use soromint::table::Table;

fn new_address(env: &Env) -> Address {
    let a = soroban_sdk::Address::generate(env);
    let bytes = a.to_xdr(env);
    let mut out = Vec::new();
    for b in bytes.iter() {
        out.push(b);
    }
    Address::from_xdr(out)
}

#[test]
fn test_compute_collateral_to_seize_one_to_one_price() {
    let result = compute_collateral_to_seize(100_0000000, 10_000_000, 1_000);
    assert_eq!(result, 110_0000000);
}

#[test]
fn test_compute_collateral_to_seize_double_price() {
    let result = compute_collateral_to_seize(100_0000000, 20_000_000, 500);
    assert_eq!(result, 52_5000000);
}

#[test]
fn seizure_rounds_toward_zero() {
    assert_eq!(compute_collateral_to_seize(1, 30_000_000, 0), 0);
    assert_eq!(compute_collateral_to_seize(7, 3_000_000, 0), 23);
}

struct Pool {
    pool: LendingPool,
    admin: Address,
    asset: Address,
    user: Address,
    liquidator: Address,
    me: Address,
    prices: Table<i128>,
}

fn config() -> AssetConfig {
    AssetConfig { ltv_bps: 7000, liquidation_threshold: 8000, liquidation_bonus: 500, is_active: true }
}

fn setup() -> Pool {
    let env = Env::default();
    let admin = new_address(&env);
    let smt = new_address(&env);
    let oracle = new_address(&env);
    let asset = new_address(&env);
    let user = new_address(&env);
    let liquidator = new_address(&env);
    let me = new_address(&env);
    let mut pool = LendingPool::new();
    pool.try_initialize(admin.duplicate(), smt, oracle).unwrap();
    pool.try_set_asset_config(asset.duplicate(), config()).unwrap();
    let mut prices = Table::new();
    prices.insert(asset.xdr.clone(), 10_000_000i128);
    Pool { pool, admin, asset, user, liquidator, me, prices }
}

#[test]
fn double_initialize_fails() {
    let mut p = setup();
    let a = p.admin.duplicate();
    assert_eq!(p.pool.try_initialize(a.duplicate(), a.duplicate(), a), Err(PoolError::AlreadyInitialized));
    assert_eq!(PoolError::AlreadyInitialized.message(), "already initialized");
    assert_eq!(LendingPool::version(), "2.0.0");
    assert_eq!(LendingPool::status(), "alive");
}

#[test]
fn deposit_borrow_repay_withdraw() {
    let mut p = setup();
    assert_eq!(p.pool.try_deposit(&p.user, &p.asset, 0), Err(PoolError::AmountNotPositive));
    let unknown = p.me.duplicate();
    assert_eq!(p.pool.try_deposit(&p.user, &unknown, 5), Err(PoolError::AssetNotSupported));
    p.pool.try_deposit(&p.user, &p.asset, 1_000).unwrap();
    assert_eq!(p.pool.get_collateral(&p.user, &p.asset), 1_000);
    assert_eq!(p.pool.get_borrow_power(&p.user, &p.prices), 700);
    assert_eq!(p.pool.get_account_collateral_value(&p.user, &p.prices), 800);
    assert_eq!(p.pool.get_health_factor(&p.user, &p.prices), i128::MAX);
    assert_eq!(p.pool.try_borrow(&p.user, 701, &p.prices), Err(PoolError::InsufficientCollateralForBorrow));
    p.pool.try_borrow(&p.user, 700, &p.prices).unwrap();
    assert_eq!(p.pool.get_debt(&p.user), 700);
    assert_eq!(p.pool.get_health_factor(&p.user, &p.prices), 800 * 10_000_000 / 700);
    assert!(p.pool.is_healthy(&p.user, &p.prices));
    assert_eq!(p.pool.try_withdraw(&p.user, &p.asset, 200, &p.prices), Err(PoolError::WouldUndercollateralize));
    assert_eq!(p.pool.try_withdraw(&p.user, &p.asset, 5_000, &p.prices), Err(PoolError::InsufficientCollateralBalance));
    p.pool.try_withdraw(&p.user, &p.asset, 100, &p.prices).unwrap();
    assert_eq!(p.pool.get_collateral(&p.user, &p.asset), 900);
    assert_eq!(p.pool.try_repay(&p.user, 1_000), Ok(700));
    assert_eq!(p.pool.get_debt(&p.user), 0);
    assert_eq!(p.pool.try_repay(&p.user, 1), Err(PoolError::NoDebtToRepay));
    p.pool.try_withdraw(&p.user, &p.asset, 900, &p.prices).unwrap();
    assert_eq!(p.pool.get_collateral(&p.user, &p.asset), 0);
}

#[test]
fn liquidation_of_an_unhealthy_position() {
    let mut p = setup();
    p.pool.try_deposit(&p.user, &p.asset, 1_000).unwrap();
    p.pool.try_borrow(&p.user, 700, &p.prices).unwrap();
    let me = p.me.duplicate();
    assert_eq!(
        p.pool.try_liquidate(&p.liquidator, &me, &p.user, &p.asset, 100, &p.prices, false),
        Err(PoolError::BorrowerHealthy)
    );
    p.prices.insert(p.asset.xdr.clone(), 8_000_000i128);
    assert!(p.pool.is_liquidatable(&p.user, &p.prices));
    assert_eq!(
        p.pool.try_liquidate(&p.liquidator, &me, &p.user, &p.asset, 100, &p.prices, true),
        Err(PoolError::StalePrice)
    );
    assert_eq!(
        p.pool.try_liquidate(&p.liquidator, &me, &p.user, &p.asset, 0, &p.prices, false),
        Err(PoolError::RepayAmountNotPositive)
    );
    assert_eq!(
        p.pool.try_liquidate(&p.liquidator, &me, &p.user, &p.asset, 701, &p.prices, false),
        Err(PoolError::RepayExceedsDebt)
    );
    let s = p.pool.try_liquidate(&p.liquidator, &me, &p.user, &p.asset, 100, &p.prices, false).unwrap();
    assert_eq!(s.collateral_seized, 131);
    assert!(s.pull_repayment);
    assert_eq!(p.pool.get_debt(&p.user), 600);
    assert_eq!(p.pool.get_collateral(&p.user, &p.asset), 869);
}

#[test]
fn reentrancy_lock_refuses_a_held_caller() {
    let mut locks: Table<bool> = Table::new();
    let env = Env::default();
    let caller = new_address(&env);
    let guard = ReentrancyGuard::try_lock(&mut locks, &caller).ok().unwrap();
    assert!(ReentrancyGuard::try_lock(&mut locks, &caller).is_err());
    guard.release(&mut locks);
    assert!(!locks.contains(&caller.xdr));
    assert!(ReentrancyGuard::try_lock(&mut locks, &caller).is_ok());
}

#[test]
fn flash_liquidation_runs_in_two_halves() {
    let mut p = setup();
    p.pool.try_deposit(&p.user, &p.asset, 1_000).unwrap();
    p.pool.try_borrow(&p.user, 700, &p.prices).unwrap();
    let env = Env::default();
    let params = FlashLiquidateParams {
        initiator: new_address(&env),
        flash_loan: new_address(&env),
        lending_pool: p.me.duplicate(),
        borrower: p.user.duplicate(),
        collateral_asset: p.asset.duplicate(),
        repay_amount: 100,
        amm_pool: new_address(&env),
        min_swap_output: 1,
        max_price_age_secs: 60,
    };
    assert_eq!(p.pool.try_setup_flash_liquidation(params.clone(), &p.prices), Err(PoolError::BorrowerHealthy));
    p.prices.insert(p.asset.xdr.clone(), 8_000_000i128);
    p.pool.try_setup_flash_liquidation(params.clone(), &p.prices).unwrap();
    assert_eq!(p.pool.try_setup_flash_liquidation(params, &p.prices), Err(PoolError::FlashLiquidationPending));
    let me = p.me.duplicate();
    assert_eq!(p.pool.try_receive_loan(&me, 99, &p.prices, false), Err(PoolError::FlashAmountMismatch));
    assert_eq!(p.pool.try_receive_loan(&me, 100, &p.prices, false), Ok(131));
    assert_eq!(p.pool.get_debt(&p.user), 600);
    assert_eq!(p.pool.try_settle_flash_loan(100, 1, 100), Err(PoolError::InsufficientRepayment));
    assert_eq!(p.pool.try_settle_flash_loan(100, 1, 101), Ok(101));
    assert_eq!(p.pool.try_settle_flash_loan(100, 1, 101), Err(PoolError::NoPendingFlashLiquidation));
}

// --- the pool's own scenarios, with the oracle price and token movements
// --- standing outside the library -----------------------------------------

struct T {
    pool: LendingPool,
    coll: Address,
    alice: Address,
    liquidator: Address,
    pool_addr: Address,
    prices: Table<i128>,
}

impl T {
    fn setup(coll_price: i128) -> T {
        let env = Env::default();
        let admin = new_address(&env);
        let smt = new_address(&env);
        let oracle = new_address(&env);
        let coll = new_address(&env);
        let mut pool = LendingPool::new();
        pool.initialize(admin, smt, oracle);
        pool.set_asset_config(
            coll.duplicate(),
            AssetConfig { ltv_bps: 8_000, liquidation_threshold: 9_000, liquidation_bonus: 1_000, is_active: true },
        );
        let mut prices = Table::new();
        prices.insert(coll.xdr.clone(), coll_price);
        T {
            pool,
            coll,
            alice: new_address(&env),
            liquidator: new_address(&env),
            pool_addr: new_address(&env),
            prices,
        }
    }

    fn alice_deposit(&mut self, amount: i128) {
        self.pool.try_deposit(&self.alice, &self.coll, amount).unwrap_or_else(|e| panic!("{}", e.message()));
    }

    fn borrow(&mut self, amount: i128) {
        self.pool.try_borrow(&self.alice, amount, &self.prices).unwrap_or_else(|e| panic!("{}", e.message()));
    }

    fn repay(&mut self, amount: i128) -> i128 {
        self.pool.try_repay(&self.alice, amount).unwrap_or_else(|e| panic!("{}", e.message()))
    }

    fn set_config(&mut self, ltv_bps: u32, liquidation_threshold: u32) {
        self.pool.set_asset_config(
            self.coll.duplicate(),
            AssetConfig { ltv_bps, liquidation_threshold, liquidation_bonus: 1_000, is_active: true },
        );
    }

    fn make_unhealthy(&mut self) {
        self.set_config(5_000, 5_000);
    }

    fn liquidate(&mut self, repay: i128) -> i128 {
        let (liq, me) = (self.liquidator.duplicate(), self.pool_addr.duplicate());
        let s = self
            .pool
            .try_liquidate(&liq, &me, &self.alice, &self.coll, repay, &self.prices, false)
            .unwrap_or_else(|e| panic!("{}", e.message()));
        assert!(s.pull_repayment);
        s.collateral_seized
    }

    fn flash_liquidate(&mut self, repay_amount: i128) -> i128 {
        let env = Env::default();
        let params = FlashLiquidateParams {
            initiator: self.liquidator.duplicate(),
            flash_loan: new_address(&env),
            lending_pool: self.pool_addr.duplicate(),
            borrower: self.alice.duplicate(),
            collateral_asset: self.coll.duplicate(),
            repay_amount,
            amm_pool: new_address(&env),
            min_swap_output: 1,
            max_price_age_secs: 86_400,
        };
        self.pool.try_setup_flash_liquidation(params, &self.prices).unwrap_or_else(|e| panic!("{}", e.message()));
        let me = self.pool_addr.duplicate();
        self.pool.try_receive_loan(&me, repay_amount, &self.prices, false).unwrap_or_else(|e| panic!("{}", e.message()))
    }
}

#[test]
fn test_deposit_updates_collateral_balance() {
    let mut t = T::setup(10_000_000);
    t.alice_deposit(500_0000000);
    assert_eq!(t.pool.get_collateral(&t.alice, &t.coll), 500_0000000);
}

#[test]
fn test_borrow_transfers_smt() {
    let mut t = T::setup(10_000_000);
    t.alice_deposit(1_000_0000000);
    t.borrow(700_0000000);
    assert_eq!(t.pool.get_debt(&t.alice), 700_0000000);
}

#[test]
#[should_panic(expected = "insufficient collateral for borrow")]
fn test_borrow_exceeds_ltv_panics() {
    let mut t = T::setup(10_000_000);
    t.alice_deposit(1_000_0000000);
    t.borrow(900_0000000);
}

#[test]
fn test_repay_reduces_debt() {
    let mut t = T::setup(10_000_000);
    t.alice_deposit(1_000_0000000);
    t.borrow(500_0000000);
    assert_eq!(t.pool.repay(&t.alice, 200_0000000), 200_0000000);
    assert_eq!(t.pool.get_debt(&t.alice), 300_0000000);
}

#[test]
fn test_repay_caps_at_debt() {
    let mut t = T::setup(10_000_000);
    t.alice_deposit(1_000_0000000);
    t.borrow(200_0000000);
    assert_eq!(t.repay(500_0000000), 200_0000000);
    assert_eq!(t.pool.get_debt(&t.alice), 0);
}

#[test]
fn test_withdraw_after_full_repay() {
    let mut t = T::setup(10_000_000);
    t.alice_deposit(1_000_0000000);
    t.borrow(500_0000000);
    t.repay(500_0000000);
    let (alice, coll) = (t.alice.duplicate(), t.coll.duplicate());
    t.pool.try_withdraw(&alice, &coll, 1_000_0000000, &t.prices).unwrap_or_else(|e| panic!("{}", e.message()));
    assert_eq!(t.pool.get_collateral(&t.alice, &t.coll), 0);
}

#[test]
#[should_panic(expected = "withdrawal would undercollateralize position")]
fn test_withdraw_blocked_with_outstanding_debt() {
    let mut t = T::setup(10_000_000);
    t.alice_deposit(1_000_0000000);
    t.set_config(9_000, 9_000);
    t.borrow(900_0000000);
    let (alice, coll) = (t.alice.duplicate(), t.coll.duplicate());
    t.pool.try_withdraw(&alice, &coll, 1_0000000, &t.prices).unwrap_or_else(|e| panic!("{}", e.message()));
}

#[test]
fn test_health_factor_above_one_at_70_pct_ltv() {
    let mut t = T::setup(10_000_000);
    t.alice_deposit(1_000_0000000);
    t.borrow(700_0000000);
    assert!(t.pool.get_health_factor(&t.alice, &t.prices) > 10_000_000);
}

#[test]
fn test_is_healthy_true_below_threshold() {
    let mut t = T::setup(10_000_000);
    t.alice_deposit(1_000_0000000);
    t.borrow(700_0000000);
    assert!(t.pool.is_healthy(&t.alice, &t.prices));
}

#[test]
fn test_is_healthy_false_after_threshold_tightened() {
    let mut t = T::setup(10_000_000);
    t.alice_deposit(1_000_0000000);
    t.borrow(800_0000000);
    t.set_config(8_000, 7_000);
    assert!(!t.pool.is_healthy(&t.alice, &t.prices));
}

#[test]
fn test_standard_liquidation_seizes_collateral_with_bonus() {
    let mut t = T::setup(10_000_000);
    t.alice_deposit(1_000_0000000);
    t.borrow(800_0000000);
    t.make_unhealthy();
    assert_eq!(t.liquidate(400_0000000), 440_0000000);
    assert_eq!(t.pool.get_debt(&t.alice), 400_0000000);
}

#[test]
#[should_panic(expected = "borrower is healthy")]
fn test_standard_liquidation_fails_on_healthy_position() {
    let mut t = T::setup(10_000_000);
    t.alice_deposit(1_000_0000000);
    t.borrow(500_0000000);
    t.liquidate(200_0000000);
}

#[test]
#[should_panic(expected = "repay amount exceeds debt")]
fn test_standard_liquidation_fails_repay_exceeds_debt() {
    let mut t = T::setup(10_000_000);
    t.alice_deposit(1_000_0000000);
    t.borrow(800_0000000);
    t.make_unhealthy();
    t.liquidate(900_0000000);
}

#[test]
fn test_partial_liquidation_leaves_remaining_debt() {
    let mut t = T::setup(10_000_000);
    t.alice_deposit(1_000_0000000);
    t.borrow(800_0000000);
    t.make_unhealthy();
    t.liquidate(200_0000000);
    assert_eq!(t.pool.get_debt(&t.alice), 600_0000000);
}

#[test]
fn test_flash_liquidation_full_lifecycle() {
    let mut t = T::setup(10_000_000);
    t.alice_deposit(1_000_0000000);
    t.borrow(800_0000000);
    t.make_unhealthy();
    let debt_before = t.pool.get_debt(&t.alice);
    let coll_before = t.pool.get_collateral(&t.alice, &t.coll);
    let seized = t.flash_liquidate(400_0000000);
    assert_eq!(seized, 440_0000000);
    assert_eq!(t.pool.get_debt(&t.alice), debt_before - 400_0000000);
    assert!(t.pool.get_collateral(&t.alice, &t.coll) < coll_before);
    // the swap brought back enough to repay the loan and its fee
    assert_eq!(t.pool.try_settle_flash_loan(400_0000000, 3600000, 440_0000000), Ok(400_3600000));
}

#[test]
#[should_panic(expected = "borrower is healthy")]
fn test_flash_liquidation_fails_on_healthy_position() {
    let mut t = T::setup(10_000_000);
    t.alice_deposit(1_000_0000000);
    t.borrow(400_0000000);
    t.flash_liquidate(200_0000000);
}

#[test]
#[should_panic(expected = "reentrancy detected")]
fn test_reentrancy_guard_prevents_double_entry() {
    let t = T::setup(10_000_000);
    let mut locks: Table<bool> = Table::new();
    let _g1 = ReentrancyGuard::lock(&mut locks, &t.liquidator);
    let _g2 = ReentrancyGuard::try_lock(&mut locks, &t.liquidator).unwrap_or_else(|e| panic!("{}", e.message()));
}

#[test]
#[should_panic(expected = "invalid price")]
fn test_compute_collateral_to_seize_zero_price_panics() {
    soromint::lending::liquidation::checked_collateral_to_seize(100, 0, 500).unwrap_or_else(|e| panic!("{}", e.message()));
}

#[test]
#[should_panic(expected = "oracle price is stale")]
fn test_liquidation_rejects_stale_oracle_price() {
    let mut t = T::setup(10_000_000);
    t.alice_deposit(1_000_0000000);
    t.borrow(800_0000000);
    t.make_unhealthy();
    // the oracle's last update lies 7_200 s back, beyond a 1 s allowance
    let stale = 7_200u64 > 1u64;
    soromint::lending::liquidation::try_require_fresh_price(stale).unwrap_or_else(|e| panic!("{}", e.message()));
}

#[test]
fn test_multiple_deposits_aggregate_borrow_power() {
    let mut t = T::setup(10_000_000);
    t.alice_deposit(500_0000000);
    t.alice_deposit(500_0000000);
    t.borrow(800_0000000);
    assert_eq!(t.pool.get_debt(&t.alice), 800_0000000);
}

#[test]
fn test_full_repay_and_re_borrow() {
    let mut t = T::setup(10_000_000);
    t.alice_deposit(1_000_0000000);
    t.borrow(500_0000000);
    t.repay(500_0000000);
    t.borrow(400_0000000);
    assert_eq!(t.pool.get_debt(&t.alice), 400_0000000);
}

#[test]
fn test_no_debt_user_is_always_healthy() {
    let mut t = T::setup(10_000_000);
    t.alice_deposit(1_000_0000000);
    assert_eq!(t.pool.get_health_factor(&t.alice, &t.prices), i128::MAX);
    assert!(t.pool.is_healthy(&t.alice, &t.prices));
}

#[test]
fn seizure_grows_with_repayment_and_bonus() {
    let price = 13_000_000;
    assert!(compute_collateral_to_seize(100_0000000, price, 500) <= compute_collateral_to_seize(150_0000000, price, 500));
    assert!(compute_collateral_to_seize(100_0000000, price, 500) <= compute_collateral_to_seize(100_0000000, price, 900));
    assert_eq!(compute_collateral_to_seize(0, price, 500), 0);
}
