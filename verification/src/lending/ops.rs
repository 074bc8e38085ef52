//! The lending pool's operations: administration, the account operations,
//! liquidation and the two halves of a flash-loan liquidation.
//!
//! Every operation that refuses leaves the pool exactly as it found it.

use vstd::prelude::*;
use crate::address::{views_of, Address};
use crate::table::Table;
use crate::lending::liquidation::{
    checked_collateral_to_seize, fits_i128, seize_checked, try_require_fresh_price, PRICE_SCALE,
};
use crate::lending::pool::{collateral_key, collateral_key_of, overridden, value_or_zero, LendingPool};
use crate::lending::types::{AssetConfig, FlashLiquidateParams, PoolError, Seizure};

verus! {

/// Whether an address occurs in a list.
fn list_contains(list: &Vec<Address>, a: &Address) -> (r: bool)
    ensures
        r == views_of(list@).contains(a@),
{
    let n = list.len();
    let mut i: usize = 0;
    while i < n
        invariant
            n == list@.len(),
            i <= n,
            forall|j: int| 0 <= j < i ==> list@[j]@ != a@,
        decreases n - i,
    {
        if list[i].same(a) {
            assert(views_of(list@)[i as int] == a@);
            return true;
        }
        i += 1;
    }
    assert forall|j: int| 0 <= j < list@.len() implies #[trigger] views_of(list@)[j] != a@ by {
        assert(list@[j]@ != a@);
    }
    false
}

/// A lock held on behalf of one caller for the length of a guarded section.
pub struct ReentrancyGuard {
    key: Vec<u8>,
}

impl ReentrancyGuard {
    /// The caller this guard locks.
    pub closed spec fn holder(&self) -> Seq<u8> {
        self.key@
    }

    /// Take the lock of `caller`; refused while the caller already holds it.
    pub fn try_lock(locks: &mut Table<bool>, caller: &Address) -> (r: Result<ReentrancyGuard, PoolError>)
        requires
            old(locks).wf(),
        ensures
            final(locks).wf(),
            old(locks)@.contains_key(caller@) ==> r == Err::<ReentrancyGuard, PoolError>(
                PoolError::ReentrancyDetected,
            ) && *final(locks) == *old(locks),
            !old(locks)@.contains_key(caller@) ==> (r matches Ok(g) && g.holder() == caller@)
                && final(locks)@ == old(locks)@.insert(caller@, true),
    {
        if locks.contains(caller.xdr.as_slice()) {
            return Err(PoolError::ReentrancyDetected);
        }
        let key = caller.duplicate().xdr;
        locks.insert(caller.duplicate().xdr, true);
        Ok(ReentrancyGuard { key })
    }

    /// Take the lock of `caller`, which it does not hold.
    pub fn lock(locks: &mut Table<bool>, caller: &Address) -> (g: ReentrancyGuard)
        requires
            old(locks).wf(),
            !old(locks)@.contains_key(caller@),
        ensures
            final(locks).wf(),
            g.holder() == caller@,
            final(locks)@ == old(locks)@.insert(caller@, true),
    {
        match ReentrancyGuard::try_lock(locks, caller) {
            Ok(g) => g,
            Err(_) => ReentrancyGuard { key: Vec::new() },
        }
    }

    /// Give the lock back.
    pub fn release(self, locks: &mut Table<bool>)
        requires
            old(locks).wf(),
        ensures
            final(locks).wf(),
            final(locks)@ == old(locks)@.remove(self.holder()),
    {
        locks.remove(self.key.as_slice());
    }
}

impl LendingPool {
    /// `other` agrees with `self` on everything but holdings and debts.
    pub open spec fn same_but_balances(&self, other: &LendingPool) -> bool {
        &&& other.admin == self.admin
        &&& other.smt_token == self.smt_token
        &&& other.oracle == self.oracle
        &&& other.assets == self.assets
        &&& other.asset_configs == self.asset_configs
        &&& other.locks == self.locks
        &&& other.pending_flash == self.pending_flash
    }

    /// How a deposit of `amount` of `asset` by `user` is answered.
    pub open spec fn deposit_check(&self, user: Seq<u8>, asset: Seq<u8>, amount: i128) -> Result<(), PoolError> {
        if amount <= 0 {
            Err(PoolError::AmountNotPositive)
        } else if !self.asset_configs@.contains_key(asset) {
            Err(PoolError::AssetNotSupported)
        } else if !self.asset_configs@[asset].is_active {
            Err(PoolError::AssetNotActive)
        } else if !fits_i128(self.collateral_of(user, asset) + amount) {
            Err(PoolError::Overflow)
        } else {
            Ok(())
        }
    }

    /// How a withdrawal of `amount` of `asset` by `user` is answered.
    pub open spec fn withdraw_check(
        &self,
        user: Seq<u8>,
        asset: Seq<u8>,
        amount: i128,
        prices: Map<Seq<u8>, i128>,
    ) -> Result<(), PoolError> {
        let cur = self.collateral_of(user, asset);
        let after = overridden(self.collateral@, collateral_key(user, asset), Some((cur - amount) as i128));
        if amount <= 0 {
            Err(PoolError::AmountNotPositive)
        } else if amount > cur {
            Err(PoolError::InsufficientCollateralBalance)
        } else if self.debt_of(user) > 0 {
            match self.health(after, user, prices) {
                Err(e) => Err(e),
                Ok(h) => if h < PRICE_SCALE {
                    Err(PoolError::WouldUndercollateralize)
                } else {
                    Ok(())
                },
            }
        } else {
            Ok(())
        }
    }

    /// How a borrow of `amount` by `user` is answered.
    pub open spec fn borrow_check(&self, user: Seq<u8>, amount: i128, prices: Map<Seq<u8>, i128>) -> Result<(), PoolError> {
        if amount <= 0 {
            Err(PoolError::AmountNotPositive)
        } else {
            match self.valuation(self.collateral@, user, prices, true) {
                Err(e) => Err(e),
                Ok(power) => if !fits_i128(self.debt_of(user) + amount) {
                    Err(PoolError::Overflow)
                } else if self.debt_of(user) + amount > power {
                    Err(PoolError::InsufficientCollateralForBorrow)
                } else if self.smt_token is None {
                    Err(PoolError::NotInitialized)
                } else {
                    Ok(())
                },
            }
        }
    }

    /// How a repayment of up to `amount` by `user` is answered: the amount
    /// actually taken, which is capped by the debt.
    pub open spec fn repay_check(&self, user: Seq<u8>, amount: i128) -> Result<i128, PoolError> {
        let taken = if amount < self.debt_of(user) { amount } else { self.debt_of(user) };
        if amount <= 0 {
            Err(PoolError::AmountNotPositive)
        } else if self.smt_token is None {
            Err(PoolError::NotInitialized)
        } else if taken == 0 {
            Err(PoolError::NoDebtToRepay)
        } else {
            Ok(taken)
        }
    }

    /// Collateral a seizure of `asset` from `borrower` for repaying `repay`
    /// takes, or why it is refused.
    pub open spec fn seizure_check(
        &self,
        borrower: Seq<u8>,
        asset: Seq<u8>,
        repay: i128,
        prices: Map<Seq<u8>, i128>,
    ) -> Result<i128, PoolError> {
        let debt = self.debt_of(borrower);
        let held = self.collateral_of(borrower, asset);
        if self.smt_token is None {
            Err(PoolError::SmtTokenNotSet)
        } else if repay > debt {
            Err(PoolError::RepayExceedsDebt)
        } else if !self.asset_configs@.contains_key(asset) {
            Err(PoolError::AssetNotSupported)
        } else if self.oracle is None {
            Err(PoolError::OracleNotSet)
        } else {
            match seize_checked(repay as int, prices[asset] as int, self.asset_configs@[asset].liquidation_bonus as int) {
                Err(e) => Err(e),
                Ok(owed) => {
                    let give = if owed < held { owed } else { held };
                    if give <= 0 {
                        Err(PoolError::NoCollateralToSeize)
                    } else if !fits_i128(debt - repay) {
                        Err(PoolError::Overflow)
                    } else {
                        Ok(give)
                    }
                },
            }
        }
    }

    /// How a liquidation of `borrower` for `repay` is answered, given whether
    /// the oracle reports the collateral price stale.
    pub open spec fn liquidation_check(
        &self,
        borrower: Seq<u8>,
        asset: Seq<u8>,
        repay: i128,
        prices: Map<Seq<u8>, i128>,
        price_stale: bool,
    ) -> Result<i128, PoolError> {
        if repay <= 0 {
            Err(PoolError::RepayAmountNotPositive)
        } else {
            match self.liquidatable(borrower, prices) {
                Err(e) => Err(e),
                Ok(false) => Err(PoolError::BorrowerHealthy),
                Ok(true) => if self.oracle is None {
                    Err(PoolError::OracleNotSet)
                } else if price_stale {
                    Err(PoolError::StalePrice)
                } else {
                    self.seizure_check(borrower, asset, repay, prices)
                },
            }
        }
    }


    /// How arming a flash liquidation of `borrower` is answered.
    pub open spec fn flash_setup_check(&self, borrower: Seq<u8>, prices: Map<Seq<u8>, i128>) -> Result<(), PoolError> {
        if self.pending_flash is Some {
            Err(PoolError::FlashLiquidationPending)
        } else {
            match self.liquidatable(borrower, prices) {
                Err(e) => Err(e),
                Ok(false) => Err(PoolError::BorrowerHealthy),
                Ok(true) => Ok(()),
            }
        }
    }

    /// How the arrival of a flash loan of `amount` is answered: the
    /// collateral seized for the pending liquidation.
    pub open spec fn receive_check(&self, amount: i128, prices: Map<Seq<u8>, i128>, price_stale: bool) -> Result<i128, PoolError> {
        match self.pending_flash {
            None => Err(PoolError::NoPendingFlashLiquidation),
            Some(p) => if amount != p.repay_amount {
                Err(PoolError::FlashAmountMismatch)
            } else if self.oracle is None {
                Err(PoolError::OracleNotSet)
            } else if price_stale {
                Err(PoolError::StalePrice)
            } else {
                match self.liquidatable(p.borrower@, prices) {
                    Err(e) => Err(e),
                    Ok(false) => Err(PoolError::BorrowerHealthy),
                    Ok(true) => self.seizure_check(p.borrower@, p.collateral_asset@, p.repay_amount, prices),
                }
            },
        }
    }

    /// How settling a flash loan of `amount` plus `fee` with `balance` in
    /// hand is answered: what is owed to the provider.
    pub open spec fn settle_check(&self, amount: i128, fee: i128, balance: i128) -> Result<i128, PoolError> {
        if self.pending_flash is None {
            Err(PoolError::NoPendingFlashLiquidation)
        } else if !fits_i128(amount + fee) {
            Err(PoolError::Overflow)
        } else if balance < amount + fee {
            Err(PoolError::InsufficientRepayment)
        } else {
            Ok((amount + fee) as i128)
        }
    }
    /// The pool after `give` of `asset` left `borrower` against `repay` of debt.
    pub open spec fn seized(&self, after: &LendingPool, borrower: Seq<u8>, asset: Seq<u8>, repay: i128, give: i128) -> bool {
        &&& self.same_but_balances(after)
        &&& after.debts@ == self.debts@.insert(borrower, (self.debt_of(borrower) - repay) as i128)
        &&& after.collateral@ == self.collateral@.insert(
            collateral_key(borrower, asset),
            (self.collateral_of(borrower, asset) - give) as i128,
        )
    }

    /// Record the admin, the debt token and the price oracle; refused once done.
    pub fn try_initialize(&mut self, admin: Address, smt_token: Address, oracle: Address) -> (r: Result<(), PoolError>)
        requires
            old(self).wf(),
        ensures
            final(self).wf(),
            old(self).admin is Some ==> r == Err::<(), PoolError>(PoolError::AlreadyInitialized)
                && *final(self) == *old(self),
            old(self).admin is None ==> r is Ok
                && final(self).admin == Some(admin)
                && final(self).smt_token == Some(smt_token)
                && final(self).oracle == Some(oracle)
                && final(self).assets@.len() == 0
                && final(self).asset_configs == old(self).asset_configs
                && final(self).collateral == old(self).collateral
                && final(self).debts == old(self).debts
                && final(self).locks == old(self).locks
                && final(self).pending_flash == old(self).pending_flash,
    {
        if self.admin.is_some() {
            return Err(PoolError::AlreadyInitialized);
        }
        self.admin = Some(admin);
        self.smt_token = Some(smt_token);
        self.oracle = Some(oracle);
        self.assets = Vec::new();
        Ok(())
    }

    /// Set the risk parameters of `asset`, listing it on first configuration.
    pub fn try_set_asset_config(&mut self, asset: Address, config: AssetConfig) -> (r: Result<(), PoolError>)
        requires
            old(self).wf(),
        ensures
            final(self).wf(),
            old(self).admin is None ==> r == Err::<(), PoolError>(PoolError::NotInitialized)
                && *final(self) == *old(self),
            old(self).admin is Some ==> r is Ok
                && final(self).asset_configs@ == old(self).asset_configs@.insert(asset@, config)
                && final(self).asset_keys() == (if old(self).asset_keys().contains(asset@) {
                    old(self).asset_keys()
                } else {
                    old(self).asset_keys().push(asset@)
                })
                && final(self).admin == old(self).admin
                && final(self).smt_token == old(self).smt_token
                && final(self).oracle == old(self).oracle
                && final(self).collateral == old(self).collateral
                && final(self).debts == old(self).debts
                && final(self).locks == old(self).locks
                && final(self).pending_flash == old(self).pending_flash,
    {
        if self.admin.is_none() {
            return Err(PoolError::NotInitialized);
        }
        if !list_contains(&self.assets, &asset) {
            let ghost before = self.asset_keys();
            self.assets.push(asset.duplicate());
            assert(self.asset_keys() =~= before.push(asset@));
        }
        self.asset_configs.insert(asset.xdr, config);
        Ok(())
    }

    /// Credit a deposit of `amount` of `asset` to `user`.
    pub fn try_deposit(&mut self, user: &Address, asset: &Address, amount: i128) -> (r: Result<(), PoolError>)
        requires
            old(self).wf(),
        ensures
            final(self).wf(),
            r == old(self).deposit_check(user@, asset@, amount),
            r is Err ==> *final(self) == *old(self),
            r is Ok ==> old(self).same_but_balances(&*final(self))
                && final(self).debts == old(self).debts
                && final(self).collateral@ == old(self).collateral@.insert(
                    collateral_key(user@, asset@),
                    (old(self).collateral_of(user@, asset@) + amount) as i128,
                ),
    {
        if amount <= 0 {
            return Err(PoolError::AmountNotPositive);
        }
        let config = match self.asset_configs.get(asset.xdr.as_slice()) {
            Some(c) => *c,
            None => return Err(PoolError::AssetNotSupported),
        };
        if !config.is_active {
            return Err(PoolError::AssetNotActive);
        }
        let key = collateral_key_of(user, asset);
        let current: i128 = match self.collateral.get(key.as_slice()) {
            Some(x) => *x,
            None => 0,
        };
        let updated = match current.checked_add(amount) {
            Some(x) => x,
            None => return Err(PoolError::Overflow),
        };
        self.collateral.insert(key, updated);
        Ok(())
    }

    /// Release `amount` of `asset` to `user`, refused when the holding is too
    /// small or when a debtor would fall below a health factor of one.
    pub fn try_withdraw(&mut self, user: &Address, asset: &Address, amount: i128, prices: &Table<i128>) -> (r: Result<(), PoolError>)
        requires
            old(self).wf(),
            prices.wf(),
            old(self).prices_cover(old(self).collateral@, user@, prices@),
        ensures
            final(self).wf(),
            r == old(self).withdraw_check(user@, asset@, amount, prices@),
            r is Err ==> *final(self) == *old(self),
            r is Ok ==> old(self).same_but_balances(&*final(self))
                && final(self).debts == old(self).debts
                && final(self).collateral@ == old(self).collateral@.insert(
                    collateral_key(user@, asset@),
                    (old(self).collateral_of(user@, asset@) - amount) as i128,
                ),
    {
        if amount <= 0 {
            return Err(PoolError::AmountNotPositive);
        }
        let key = collateral_key_of(user, asset);
        let current: i128 = match self.collateral.get(key.as_slice()) {
            Some(x) => *x,
            None => 0,
        };
        if amount > current {
            return Err(PoolError::InsufficientCollateralBalance);
        }
        let updated = current - amount;
        let debt: i128 = match self.debts.get(user.xdr.as_slice()) {
            Some(d) => *d,
            None => 0,
        };
        if debt > 0 {
            proof {
                let after = overridden(self.collateral@, key@, Some(updated));
                assert forall|i: int| 0 <= i < self.assets@.len()
                    && #[trigger] value_or_zero(after, collateral_key(user@, self.assets@[i]@)) != 0
                    && self.asset_configs@.contains_key(self.assets@[i]@)
                    implies prices@.contains_key(self.assets@[i]@) by {
                    if collateral_key(user@, self.assets@[i]@) == key@ {
                        assert(value_or_zero(self.collateral@, collateral_key(user@, self.assets@[i]@)) == current);
                    } else {
                        assert(value_or_zero(after, collateral_key(user@, self.assets@[i]@))
                            == value_or_zero(self.collateral@, collateral_key(user@, self.assets@[i]@)));
                    }
                }
            }
            let h = self.health_with(user, prices, key.as_slice(), Some(updated))?;
            if h < PRICE_SCALE {
                return Err(PoolError::WouldUndercollateralize);
            }
        }
        self.collateral.insert(key, updated);
        Ok(())
    }

    /// Lend `amount` of the debt token to `user` within its borrow power.
    pub fn try_borrow(&mut self, user: &Address, amount: i128, prices: &Table<i128>) -> (r: Result<(), PoolError>)
        requires
            old(self).wf(),
            prices.wf(),
            old(self).prices_cover(old(self).collateral@, user@, prices@),
        ensures
            final(self).wf(),
            r == old(self).borrow_check(user@, amount, prices@),
            r is Err ==> *final(self) == *old(self),
            r is Ok ==> old(self).same_but_balances(&*final(self))
                && final(self).collateral == old(self).collateral
                && final(self).debts@ == old(self).debts@.insert(user@, (old(self).debt_of(user@) + amount) as i128),
    {
        if amount <= 0 {
            return Err(PoolError::AmountNotPositive);
        }
        proof {
            assert(overridden(self.collateral@, Seq::<u8>::empty(), None) == self.collateral@);
        }
        let power = self.valuation_with(user, prices, true, &[], None)?;
        let current: i128 = match self.debts.get(user.xdr.as_slice()) {
            Some(d) => *d,
            None => 0,
        };
        let new_debt = match current.checked_add(amount) {
            Some(x) => x,
            None => return Err(PoolError::Overflow),
        };
        if new_debt > power {
            return Err(PoolError::InsufficientCollateralForBorrow);
        }
        if self.smt_token.is_none() {
            return Err(PoolError::NotInitialized);
        }
        self.debts.insert(user.duplicate().xdr, new_debt);
        Ok(())
    }

    /// Take back up to `amount` of `user`'s debt; answers the amount taken.
    pub fn try_repay(&mut self, user: &Address, amount: i128) -> (r: Result<i128, PoolError>)
        requires
            old(self).wf(),
        ensures
            final(self).wf(),
            r == old(self).repay_check(user@, amount),
            r is Err ==> *final(self) == *old(self),
            r matches Ok(taken) ==> old(self).same_but_balances(&*final(self))
                && final(self).collateral == old(self).collateral
                && final(self).debts@ == old(self).debts@.insert(user@, (old(self).debt_of(user@) - taken) as i128),
    {
        if amount <= 0 {
            return Err(PoolError::AmountNotPositive);
        }
        if self.smt_token.is_none() {
            return Err(PoolError::NotInitialized);
        }
        let current: i128 = match self.debts.get(user.xdr.as_slice()) {
            Some(d) => *d,
            None => 0,
        };
        let taken = if amount < current { amount } else { current };
        if taken == 0 {
            return Err(PoolError::NoDebtToRepay);
        }
        self.debts.insert(user.duplicate().xdr, current - taken);
        Ok(taken)
    }
}

impl LendingPool {
    /// Move collateral from `borrower` to `liquidator` against `repay` of the
    /// borrower's debt. The repayment has to be pulled from the liquidator
    /// unless the liquidator is the pool itself (`pool_address`).
    pub fn try_execute_seizure(
        &mut self,
        liquidator: &Address,
        pool_address: &Address,
        borrower: &Address,
        collateral_asset: &Address,
        repay: i128,
        prices: &Table<i128>,
    ) -> (r: Result<Seizure, PoolError>)
        requires
            old(self).wf(),
            prices.wf(),
            old(self).asset_configs@.contains_key(collateral_asset@) ==> prices@.contains_key(collateral_asset@),
        ensures
            final(self).wf(),
            r matches Err(e) ==> old(self).seizure_check(borrower@, collateral_asset@, repay, prices@) == Err::<i128, PoolError>(e)
                && *final(self) == *old(self),
            r matches Ok(s) ==> old(self).seizure_check(borrower@, collateral_asset@, repay, prices@) == Ok::<i128, PoolError>(s.collateral_seized)
                && s.pull_repayment == (liquidator@ != pool_address@)
                && old(self).seized(&*final(self), borrower@, collateral_asset@, repay, s.collateral_seized),
    {
        if self.smt_token.is_none() {
            return Err(PoolError::SmtTokenNotSet);
        }
        let debt: i128 = match self.debts.get(borrower.xdr.as_slice()) {
            Some(d) => *d,
            None => 0,
        };
        if repay > debt {
            return Err(PoolError::RepayExceedsDebt);
        }
        let config = match self.asset_configs.get(collateral_asset.xdr.as_slice()) {
            Some(c) => *c,
            None => return Err(PoolError::AssetNotSupported),
        };
        if self.oracle.is_none() {
            return Err(PoolError::OracleNotSet);
        }
        let price = *prices.get(collateral_asset.xdr.as_slice()).unwrap();
        let owed = checked_collateral_to_seize(repay, price, config.liquidation_bonus)?;
        let key = collateral_key_of(borrower, collateral_asset);
        let held: i128 = match self.collateral.get(key.as_slice()) {
            Some(x) => *x,
            None => 0,
        };
        let give = if owed < held { owed } else { held };
        if give <= 0 {
            return Err(PoolError::NoCollateralToSeize);
        }
        let new_debt = match debt.checked_sub(repay) {
            Some(x) => x,
            None => return Err(PoolError::Overflow),
        };
        self.debts.insert(borrower.duplicate().xdr, new_debt);
        self.collateral.insert(key, held - give);
        Ok(Seizure { collateral_seized: give, pull_repayment: !liquidator.same(pool_address) })
    }

    /// A liquidation of `borrower`: refused for a non-positive repayment, a
    /// healthy position or a stale collateral price, else the seizure.
    pub fn try_execute_liquidation(
        &mut self,
        liquidator: &Address,
        pool_address: &Address,
        borrower: &Address,
        collateral_asset: &Address,
        repay: i128,
        prices: &Table<i128>,
        price_stale: bool,
    ) -> (r: Result<Seizure, PoolError>)
        requires
            old(self).wf(),
            prices.wf(),
            old(self).prices_cover(old(self).collateral@, borrower@, prices@),
            old(self).asset_configs@.contains_key(collateral_asset@) ==> prices@.contains_key(collateral_asset@),
        ensures
            final(self).wf(),
            r matches Err(e) ==> old(self).liquidation_check(borrower@, collateral_asset@, repay, prices@, price_stale)
                == Err::<i128, PoolError>(e) && *final(self) == *old(self),
            r matches Ok(s) ==> old(self).liquidation_check(borrower@, collateral_asset@, repay, prices@, price_stale)
                == Ok::<i128, PoolError>(s.collateral_seized)
                && s.pull_repayment == (liquidator@ != pool_address@)
                && old(self).seized(&*final(self), borrower@, collateral_asset@, repay, s.collateral_seized),
    {
        if repay <= 0 {
            return Err(PoolError::RepayAmountNotPositive);
        }
        if !self.try_is_liquidatable(borrower, prices)? {
            return Err(PoolError::BorrowerHealthy);
        }
        if self.oracle.is_none() {
            return Err(PoolError::OracleNotSet);
        }
        try_require_fresh_price(price_stale)?;
        self.try_execute_seizure(liquidator, pool_address, borrower, collateral_asset, repay, prices)
    }

    /// The liquidation entry point: the liquidator's reentrancy lock is held
    /// for the length of the liquidation and given back afterwards.
    pub fn try_liquidate(
        &mut self,
        liquidator: &Address,
        pool_address: &Address,
        borrower: &Address,
        collateral_asset: &Address,
        repay: i128,
        prices: &Table<i128>,
        price_stale: bool,
    ) -> (r: Result<Seizure, PoolError>)
        requires
            old(self).wf(),
            prices.wf(),
            old(self).prices_cover(old(self).collateral@, borrower@, prices@),
            old(self).asset_configs@.contains_key(collateral_asset@) ==> prices@.contains_key(collateral_asset@),
        ensures
            final(self).wf(),
            old(self).locks@.contains_key(liquidator@) ==> r == Err::<Seizure, PoolError>(PoolError::ReentrancyDetected)
                && *final(self) == *old(self),
            !old(self).locks@.contains_key(liquidator@) ==> final(self).locks@ == old(self).locks@,
            !old(self).locks@.contains_key(liquidator@) ==> (r matches Err(e) ==> old(self).liquidation_check(
                borrower@, collateral_asset@, repay, prices@, price_stale) == Err::<i128, PoolError>(e)
                && final(self).collateral == old(self).collateral && final(self).debts == old(self).debts),
            r matches Ok(s) ==> old(self).liquidation_check(borrower@, collateral_asset@, repay, prices@, price_stale)
                == Ok::<i128, PoolError>(s.collateral_seized)
                && s.pull_repayment == (liquidator@ != pool_address@)
                && final(self).debts@ == old(self).debts@.insert(borrower@, (old(self).debt_of(borrower@) - repay) as i128)
                && final(self).collateral@ == old(self).collateral@.insert(
                    collateral_key(borrower@, collateral_asset@),
                    (old(self).collateral_of(borrower@, collateral_asset@) - s.collateral_seized) as i128,
                ),
            final(self).admin == old(self).admin,
            final(self).smt_token == old(self).smt_token,
            final(self).oracle == old(self).oracle,
            final(self).assets == old(self).assets,
            final(self).asset_configs == old(self).asset_configs,
            final(self).pending_flash == old(self).pending_flash,
    {
        let guard = ReentrancyGuard::try_lock(&mut self.locks, liquidator)?;
        let r = self.try_execute_liquidation(liquidator, pool_address, borrower, collateral_asset, repay, prices, price_stale);
        guard.release(&mut self.locks);
        assert(self.locks@ =~= old(self).locks@);
        r
    }

    /// Record a flash-loan liquidation to be carried out when the loan arrives;
    /// refused while one is pending or when the borrower is healthy.
    pub fn try_setup_flash_liquidation(&mut self, params: FlashLiquidateParams, prices: &Table<i128>) -> (r: Result<(), PoolError>)
        requires
            old(self).wf(),
            prices.wf(),
            old(self).prices_cover(old(self).collateral@, params.borrower@, prices@),
        ensures
            final(self).wf(),
            r == old(self).flash_setup_check(params.borrower@, prices@),
            r is Err ==> *final(self) == *old(self),
            r is Ok ==> final(self).pending_flash == Some(params)
                && final(self).admin == old(self).admin
                && final(self).smt_token == old(self).smt_token
                && final(self).oracle == old(self).oracle
                && final(self).assets == old(self).assets
                && final(self).asset_configs == old(self).asset_configs
                && final(self).collateral == old(self).collateral
                && final(self).debts == old(self).debts
                && final(self).locks == old(self).locks,
    {
        if self.pending_flash.is_some() {
            return Err(PoolError::FlashLiquidationPending);
        }
        if !self.try_is_liquidatable(&params.borrower, prices)? {
            return Err(PoolError::BorrowerHealthy);
        }
        self.pending_flash = Some(params);
        Ok(())
    }

    /// First half of the flash-loan callback: with `amount` of the debt token
    /// received, seize the pending borrower's collateral into the pool itself.
    /// Answers the collateral to be swapped.
    pub fn try_receive_loan(
        &mut self,
        pool_address: &Address,
        amount: i128,
        prices: &Table<i128>,
        price_stale: bool,
    ) -> (r: Result<i128, PoolError>)
        requires
            old(self).wf(),
            prices.wf(),
            old(self).pending_flash matches Some(p) ==> old(self).prices_cover(old(self).collateral@, p.borrower@, prices@)
                && (old(self).asset_configs@.contains_key(p.collateral_asset@) ==> prices@.contains_key(p.collateral_asset@)),
        ensures
            final(self).wf(),
            r == old(self).receive_check(amount, prices@, price_stale),
            r is Err ==> *final(self) == *old(self),
            r matches Ok(give) ==> old(self).pending_flash matches Some(p)
                && old(self).seized(&*final(self), p.borrower@, p.collateral_asset@, p.repay_amount, give),
    {
        let p = match self.pending_flash.take() {
            Some(p) => p,
            None => return Err(PoolError::NoPendingFlashLiquidation),
        };
        if amount != p.repay_amount {
            self.pending_flash = Some(p);
            return Err(PoolError::FlashAmountMismatch);
        }
        if self.oracle.is_none() {
            self.pending_flash = Some(p);
            return Err(PoolError::OracleNotSet);
        }
        if let Err(e) = try_require_fresh_price(price_stale) {
            self.pending_flash = Some(p);
            return Err(e);
        }
        let liquidatable = match self.try_is_liquidatable(&p.borrower, prices) {
            Ok(b) => b,
            Err(e) => {
                self.pending_flash = Some(p);
                return Err(e);
            },
        };
        if !liquidatable {
            self.pending_flash = Some(p);
            return Err(PoolError::BorrowerHealthy);
        }
        let s = match self.try_execute_seizure(pool_address, pool_address, &p.borrower, &p.collateral_asset, p.repay_amount, prices) {
            Ok(s) => s,
            Err(e) => {
                self.pending_flash = Some(p);
                return Err(e);
            },
        };
        self.pending_flash = Some(p);
        Ok(s.collateral_seized)
    }

    /// Second half of the flash-loan callback, after the seized collateral was
    /// swapped: with `balance` of the debt token in hand, answer what is owed
    /// to the provider (`amount + fee`) and clear the pending liquidation.
    pub fn try_settle_flash_loan(&mut self, amount: i128, fee: i128, balance: i128) -> (r: Result<i128, PoolError>)
        requires
            old(self).wf(),
        ensures
            final(self).wf(),
            r == old(self).settle_check(amount, fee, balance),
            r is Err ==> *final(self) == *old(self),
            r is Ok ==> final(self).pending_flash is None
                && final(self).admin == old(self).admin
                && final(self).smt_token == old(self).smt_token
                && final(self).oracle == old(self).oracle
                && final(self).assets == old(self).assets
                && final(self).asset_configs == old(self).asset_configs
                && final(self).collateral == old(self).collateral
                && final(self).debts == old(self).debts
                && final(self).locks == old(self).locks,
    {
        if self.pending_flash.is_none() {
            return Err(PoolError::NoPendingFlashLiquidation);
        }
        let due = match amount.checked_add(fee) {
            Some(x) => x,
            None => return Err(PoolError::Overflow),
        };
        if balance < due {
            return Err(PoolError::InsufficientRepayment);
        }
        self.pending_flash = None;
        Ok(due)
    }
}

impl LendingPool {
    /// Record the admin, the debt token and the price oracle, once.
    pub fn initialize(&mut self, admin: Address, smt_token: Address, oracle: Address)
        requires
            old(self).wf(),
            old(self).admin is None,
        ensures
            final(self).wf(),
            final(self).admin == Some(admin),
            final(self).smt_token == Some(smt_token),
            final(self).oracle == Some(oracle),
            final(self).assets@.len() == 0,
            final(self).asset_configs == old(self).asset_configs,
            final(self).collateral == old(self).collateral,
            final(self).debts == old(self).debts,
            final(self).locks == old(self).locks,
            final(self).pending_flash == old(self).pending_flash,
    {
        let _ = self.try_initialize(admin, smt_token, oracle);
    }

    /// Set the risk parameters of `asset` on an initialized pool, listing it
    /// on first configuration.
    pub fn set_asset_config(&mut self, asset: Address, config: AssetConfig)
        requires
            old(self).wf(),
            old(self).admin is Some,
        ensures
            final(self).wf(),
            final(self).asset_configs@ == old(self).asset_configs@.insert(asset@, config),
            final(self).asset_keys() == (if old(self).asset_keys().contains(asset@) {
                old(self).asset_keys()
            } else {
                old(self).asset_keys().push(asset@)
            }),
            final(self).admin == old(self).admin,
            final(self).smt_token == old(self).smt_token,
            final(self).oracle == old(self).oracle,
            final(self).collateral == old(self).collateral,
            final(self).debts == old(self).debts,
            final(self).locks == old(self).locks,
            final(self).pending_flash == old(self).pending_flash,
    {
        let _ = self.try_set_asset_config(asset, config);
    }

    /// Credit a deposit of `amount` of `asset` to `user`.
    pub fn deposit(&mut self, user: &Address, asset: &Address, amount: i128)
        requires
            old(self).wf(),
            old(self).deposit_check(user@, asset@, amount) is Ok,
        ensures
            final(self).wf(),
            old(self).same_but_balances(&*final(self)),
            final(self).debts == old(self).debts,
            final(self).collateral@ == old(self).collateral@.insert(
                collateral_key(user@, asset@),
                (old(self).collateral_of(user@, asset@) + amount) as i128,
            ),
    {
        let _ = self.try_deposit(user, asset, amount);
    }

    /// Release `amount` of `asset` to `user`.
    pub fn withdraw(&mut self, user: &Address, asset: &Address, amount: i128, prices: &Table<i128>)
        requires
            old(self).wf(),
            prices.wf(),
            old(self).prices_cover(old(self).collateral@, user@, prices@),
            old(self).withdraw_check(user@, asset@, amount, prices@) is Ok,
        ensures
            final(self).wf(),
            old(self).same_but_balances(&*final(self)),
            final(self).debts == old(self).debts,
            final(self).collateral@ == old(self).collateral@.insert(
                collateral_key(user@, asset@),
                (old(self).collateral_of(user@, asset@) - amount) as i128,
            ),
    {
        let _ = self.try_withdraw(user, asset, amount, prices);
    }

    /// Lend `amount` of the debt token to `user`.
    pub fn borrow(&mut self, user: &Address, amount: i128, prices: &Table<i128>)
        requires
            old(self).wf(),
            prices.wf(),
            old(self).prices_cover(old(self).collateral@, user@, prices@),
            old(self).borrow_check(user@, amount, prices@) is Ok,
        ensures
            final(self).wf(),
            old(self).same_but_balances(&*final(self)),
            final(self).collateral == old(self).collateral,
            final(self).debts@ == old(self).debts@.insert(user@, (old(self).debt_of(user@) + amount) as i128),
    {
        let _ = self.try_borrow(user, amount, prices);
    }

    /// Take back up to `amount` of `user`'s debt; answers the amount taken.
    pub fn repay(&mut self, user: &Address, amount: i128) -> (taken: i128)
        requires
            old(self).wf(),
            old(self).repay_check(user@, amount) is Ok,
        ensures
            final(self).wf(),
            old(self).repay_check(user@, amount) == Ok::<i128, PoolError>(taken),
            old(self).same_but_balances(&*final(self)),
            final(self).collateral == old(self).collateral,
            final(self).debts@ == old(self).debts@.insert(user@, (old(self).debt_of(user@) - taken) as i128),
    {
        match self.try_repay(user, amount) {
            Ok(t) => t,
            Err(_) => 0,
        }
    }

    /// Move collateral from `borrower` to `liquidator` against `repay` of the
    /// borrower's debt.
    pub fn execute_seizure(
        &mut self,
        liquidator: &Address,
        pool_address: &Address,
        borrower: &Address,
        collateral_asset: &Address,
        repay: i128,
        prices: &Table<i128>,
    ) -> (s: Seizure)
        requires
            old(self).wf(),
            prices.wf(),
            old(self).asset_configs@.contains_key(collateral_asset@) ==> prices@.contains_key(collateral_asset@),
            old(self).seizure_check(borrower@, collateral_asset@, repay, prices@) is Ok,
        ensures
            final(self).wf(),
            old(self).seizure_check(borrower@, collateral_asset@, repay, prices@) == Ok::<i128, PoolError>(s.collateral_seized),
            s.pull_repayment == (liquidator@ != pool_address@),
            old(self).seized(&*final(self), borrower@, collateral_asset@, repay, s.collateral_seized),
    {
        match self.try_execute_seizure(liquidator, pool_address, borrower, collateral_asset, repay, prices) {
            Ok(s) => s,
            Err(_) => Seizure { collateral_seized: 0, pull_repayment: false },
        }
    }

    /// A liquidation of an unhealthy `borrower` at a fresh price.
    pub fn execute_liquidation(
        &mut self,
        liquidator: &Address,
        pool_address: &Address,
        borrower: &Address,
        collateral_asset: &Address,
        repay: i128,
        prices: &Table<i128>,
        price_stale: bool,
    ) -> (s: Seizure)
        requires
            old(self).wf(),
            prices.wf(),
            old(self).prices_cover(old(self).collateral@, borrower@, prices@),
            old(self).asset_configs@.contains_key(collateral_asset@) ==> prices@.contains_key(collateral_asset@),
            old(self).liquidation_check(borrower@, collateral_asset@, repay, prices@, price_stale) is Ok,
        ensures
            final(self).wf(),
            old(self).liquidation_check(borrower@, collateral_asset@, repay, prices@, price_stale)
                == Ok::<i128, PoolError>(s.collateral_seized),
            s.pull_repayment == (liquidator@ != pool_address@),
            old(self).seized(&*final(self), borrower@, collateral_asset@, repay, s.collateral_seized),
    {
        match self.try_execute_liquidation(liquidator, pool_address, borrower, collateral_asset, repay, prices, price_stale) {
            Ok(s) => s,
            Err(_) => Seizure { collateral_seized: 0, pull_repayment: false },
        }
    }

    /// The liquidation entry point, under the liquidator's reentrancy lock,
    /// which is given back afterwards.
    pub fn liquidate(
        &mut self,
        liquidator: &Address,
        pool_address: &Address,
        borrower: &Address,
        collateral_asset: &Address,
        repay: i128,
        prices: &Table<i128>,
        price_stale: bool,
    ) -> (s: Seizure)
        requires
            old(self).wf(),
            prices.wf(),
            old(self).prices_cover(old(self).collateral@, borrower@, prices@),
            old(self).asset_configs@.contains_key(collateral_asset@) ==> prices@.contains_key(collateral_asset@),
            !old(self).locks@.contains_key(liquidator@),
            old(self).liquidation_check(borrower@, collateral_asset@, repay, prices@, price_stale) is Ok,
        ensures
            final(self).wf(),
            old(self).liquidation_check(borrower@, collateral_asset@, repay, prices@, price_stale)
                == Ok::<i128, PoolError>(s.collateral_seized),
            s.pull_repayment == (liquidator@ != pool_address@),
            final(self).debts@ == old(self).debts@.insert(borrower@, (old(self).debt_of(borrower@) - repay) as i128),
            final(self).collateral@ == old(self).collateral@.insert(
                collateral_key(borrower@, collateral_asset@),
                (old(self).collateral_of(borrower@, collateral_asset@) - s.collateral_seized) as i128,
            ),
            final(self).locks@ == old(self).locks@,
            final(self).admin == old(self).admin,
            final(self).smt_token == old(self).smt_token,
            final(self).oracle == old(self).oracle,
            final(self).assets == old(self).assets,
            final(self).asset_configs == old(self).asset_configs,
            final(self).pending_flash == old(self).pending_flash,
    {
        match self.try_liquidate(liquidator, pool_address, borrower, collateral_asset, repay, prices, price_stale) {
            Ok(s) => s,
            Err(_) => Seizure { collateral_seized: 0, pull_repayment: false },
        }
    }

    /// Record a flash-loan liquidation of an unhealthy borrower, to be carried
    /// out when the loan arrives.
    pub fn setup_flash_liquidation(&mut self, params: FlashLiquidateParams, prices: &Table<i128>)
        requires
            old(self).wf(),
            prices.wf(),
            old(self).prices_cover(old(self).collateral@, params.borrower@, prices@),
            old(self).flash_setup_check(params.borrower@, prices@) is Ok,
        ensures
            final(self).wf(),
            final(self).pending_flash == Some(params),
            final(self).admin == old(self).admin,
            final(self).smt_token == old(self).smt_token,
            final(self).oracle == old(self).oracle,
            final(self).assets == old(self).assets,
            final(self).asset_configs == old(self).asset_configs,
            final(self).collateral == old(self).collateral,
            final(self).debts == old(self).debts,
            final(self).locks == old(self).locks,
    {
        let _ = self.try_setup_flash_liquidation(params, prices);
    }

    /// First half of the flash-loan callback: seize the pending borrower's
    /// collateral into the pool itself; answers the collateral to be swapped.
    pub fn receive_loan(&mut self, pool_address: &Address, amount: i128, prices: &Table<i128>, price_stale: bool) -> (give: i128)
        requires
            old(self).wf(),
            prices.wf(),
            old(self).pending_flash matches Some(p) ==> old(self).prices_cover(old(self).collateral@, p.borrower@, prices@)
                && (old(self).asset_configs@.contains_key(p.collateral_asset@) ==> prices@.contains_key(p.collateral_asset@)),
            old(self).receive_check(amount, prices@, price_stale) is Ok,
        ensures
            final(self).wf(),
            old(self).receive_check(amount, prices@, price_stale) == Ok::<i128, PoolError>(give),
            old(self).pending_flash matches Some(p)
                && old(self).seized(&*final(self), p.borrower@, p.collateral_asset@, p.repay_amount, give),
    {
        match self.try_receive_loan(pool_address, amount, prices, price_stale) {
            Ok(g) => g,
            Err(_) => 0,
        }
    }

    /// Second half of the flash-loan callback: answers what is owed to the
    /// provider and clears the pending liquidation.
    pub fn settle_flash_loan(&mut self, amount: i128, fee: i128, balance: i128) -> (due: i128)
        requires
            old(self).wf(),
            old(self).settle_check(amount, fee, balance) is Ok,
        ensures
            final(self).wf(),
            old(self).settle_check(amount, fee, balance) == Ok::<i128, PoolError>(due),
            final(self).pending_flash is None,
            final(self).admin == old(self).admin,
            final(self).smt_token == old(self).smt_token,
            final(self).oracle == old(self).oracle,
            final(self).assets == old(self).assets,
            final(self).asset_configs == old(self).asset_configs,
            final(self).collateral == old(self).collateral,
            final(self).debts == old(self).debts,
            final(self).locks == old(self).locks,
    {
        match self.try_settle_flash_loan(amount, fee, balance) {
            Ok(d) => d,
            Err(_) => 0,
        }
    }
}

} // verus!
