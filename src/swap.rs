//! The swap instruction over a plain-value model of the pool's accounts:
//! validation, pricing against the vaults' balances, and the two token legs,
//! applied together or not at all.
use vstd::prelude::*;

use crate::curve::{amount_out_of, compute, fee_of, lemma_trade_keeps_invariant, SwapQuote, BPS_DENOMINATOR};
use crate::error::{SwapError, TransferError};

verus! {

/// A token account: which asset it holds, who may move it, and how much.
#[derive(Clone, Copy, Debug, PartialEq, Eq)]
pub struct TokenAccount {
    pub mint: u64,
    pub owner: u64,
    pub amount: u64,
}

/// The pool's configuration record.
#[derive(Clone, Copy, Debug, PartialEq, Eq)]
pub struct Config {
    /// Opaque identifier of the pool.
    pub seed: u64,
    pub mint_x: u64,
    pub mint_y: u64,
    /// Fee in basis points, below `BPS_DENOMINATOR`.
    pub fee: u16,
    /// While set, no swap is accepted.
    pub locked: bool,
}

/// The accounts a swap works on: the trader, the pool (owner of both
/// vaults), the pool's configuration, and the vault and user account of
/// each side.
#[derive(Clone, Copy, Debug, PartialEq, Eq)]
pub struct Swap {
    pub user: u64,
    pub pool: u64,
    pub config: Config,
    pub vault_x: TokenAccount,
    pub vault_y: TokenAccount,
    pub user_x: TokenAccount,
    pub user_y: TokenAccount,
}

/// What a transfer of `amount` from `from` to `to`, signed by `authority`,
/// gives.
pub open spec fn transfer_outcome(from: TokenAccount, to: TokenAccount, authority: u64, amount: u64) -> Result<
    (),
    TransferError,
> {
    if from.owner != authority {
        Err(TransferError::Unauthorized)
    } else if from.amount < amount {
        Err(TransferError::InsufficientFunds)
    } else if to.amount + amount > u64::MAX {
        Err(TransferError::Overflow)
    } else {
        Ok(())
    }
}

/// `acc` with `amount` taken out.
pub open spec fn debited(acc: TokenAccount, amount: u64) -> TokenAccount {
    TokenAccount { amount: (acc.amount - amount) as u64, ..acc }
}

/// `acc` with `amount` put in.
pub open spec fn credited(acc: TokenAccount, amount: u64) -> TokenAccount {
    TokenAccount { amount: (acc.amount + amount) as u64, ..acc }
}

/// Tells whether a transfer would go through, without moving anything.
pub fn check_transfer(from: &TokenAccount, to: &TokenAccount, authority: u64, amount: u64) -> (r: Result<
    (),
    TransferError,
>)
    ensures
        r == transfer_outcome(*from, *to, authority, amount),
{
    if from.owner != authority {
        Err(TransferError::Unauthorized)
    } else if from.amount < amount {
        Err(TransferError::InsufficientFunds)
    } else if to.amount > u64::MAX - amount {
        Err(TransferError::Overflow)
    } else {
        Ok(())
    }
}

/// Moves `amount` from `from` to `to`, signed by `authority`; on failure
/// neither account changes.
pub fn transfer(from: &mut TokenAccount, to: &mut TokenAccount, authority: u64, amount: u64) -> (r: Result<
    (),
    TransferError,
>)
    ensures
        r == transfer_outcome(*old(from), *old(to), authority, amount),
        r is Ok ==> *final(from) == debited(*old(from), amount) && *final(to) == credited(
            *old(to),
            amount,
        ),
        r is Err ==> *final(from) == *old(from) && *final(to) == *old(to),
{
    let r = check_transfer(from, to, authority, amount);
    if r.is_ok() {
        from.amount = from.amount - amount;
        to.amount = to.amount + amount;
    }
    r
}

impl Swap {
    /// Each vault holds its side's mint and belongs to the pool; each user
    /// account holds its side's mint and belongs to the user.
    pub open spec fn accounts_consistent(self) -> bool {
        &&& self.vault_x.mint == self.config.mint_x
        &&& self.vault_x.owner == self.pool
        &&& self.vault_y.mint == self.config.mint_y
        &&& self.vault_y.owner == self.pool
        &&& self.user_x.mint == self.config.mint_x
        &&& self.user_x.owner == self.user
        &&& self.user_y.mint == self.config.mint_y
        &&& self.user_y.owner == self.user
    }

    /// The pool's balance of the asset it receives (`is_x`: X) or pays out.
    pub open spec fn reserves(self, is_x: bool) -> (u64, u64) {
        if is_x {
            (self.vault_x.amount, self.vault_y.amount)
        } else {
            (self.vault_y.amount, self.vault_x.amount)
        }
    }

    /// The state after the user pays `amount` of X (`is_x`) or Y into the
    /// pool.
    pub open spec fn after_deposit(self, is_x: bool, amount: u64) -> Swap {
        if is_x {
            Swap { user_x: debited(self.user_x, amount), vault_x: credited(self.vault_x, amount), ..self }
        } else {
            Swap { user_y: debited(self.user_y, amount), vault_y: credited(self.vault_y, amount), ..self }
        }
    }

    /// The state after the pool pays `amount` of X (`is_x`) or Y to the
    /// user.
    pub open spec fn after_withdraw(self, is_x: bool, amount: u64) -> Swap {
        if is_x {
            Swap { vault_x: debited(self.vault_x, amount), user_x: credited(self.user_x, amount), ..self }
        } else {
            Swap { vault_y: debited(self.vault_y, amount), user_y: credited(self.user_y, amount), ..self }
        }
    }

    /// How the deposit leg ends.
    pub open spec fn deposit_outcome(self, is_x: bool, amount: u64) -> Result<(), TransferError> {
        if is_x {
            transfer_outcome(self.user_x, self.vault_x, self.user, amount)
        } else {
            transfer_outcome(self.user_y, self.vault_y, self.user, amount)
        }
    }

    /// How the withdrawal leg ends.
    pub open spec fn withdraw_outcome(self, is_x: bool, amount: u64) -> Result<(), TransferError> {
        if is_x {
            transfer_outcome(self.vault_x, self.user_x, self.pool, amount)
        } else {
            transfer_outcome(self.vault_y, self.user_y, self.pool, amount)
        }
    }

    /// What a swap of `amount` (of X when `is_x`, else of Y) with floor
    /// `min` returns, checks taken in order.
    pub open spec fn swap_outcome(self, is_x: bool, amount: u64, min: u64) -> Result<SwapQuote, SwapError> {
        let (reserve_in, reserve_out) = self.reserves(is_x);
        let out = amount_out_of(reserve_in as int, reserve_out as int, self.config.fee as int, amount as int);
        if amount == 0 {
            Err(SwapError::InvalidAmount)
        } else if self.config.locked {
            Err(SwapError::PoolLocked)
        } else if !self.accounts_consistent() {
            Err(SwapError::RelationshipMismatch)
        } else if reserve_in == 0 || reserve_out == 0 {
            Err(SwapError::InsufficientLiquidity)
        } else if out < min {
            Err(SwapError::SlippageExceeded)
        } else if self.deposit_outcome(is_x, amount) is Err {
            Err(SwapError::TransferFailure(self.deposit_outcome(is_x, amount)->Err_0))
        } else if self.withdraw_outcome(!is_x, out as u64) is Err {
            Err(SwapError::TransferFailure(self.withdraw_outcome(!is_x, out as u64)->Err_0))
        } else {
            Ok(
                SwapQuote {
                    amount_out: out as u64,
                    fee_charged: fee_of(amount as int, self.config.fee as int) as u64,
                },
            )
        }
    }

    /// Checks that the accounts belong together (see `accounts_consistent`).
    pub fn validate_accounts(&self) -> (r: Result<(), SwapError>)
        ensures
            r is Ok <==> self.accounts_consistent(),
            r is Err ==> r->Err_0 == SwapError::RelationshipMismatch,
    {
        if self.vault_x.mint == self.config.mint_x && self.vault_x.owner == self.pool
            && self.vault_y.mint == self.config.mint_y && self.vault_y.owner == self.pool
            && self.user_x.mint == self.config.mint_x && self.user_x.owner == self.user
            && self.user_y.mint == self.config.mint_y && self.user_y.owner == self.user {
            Ok(())
        } else {
            Err(SwapError::RelationshipMismatch)
        }
    }

    /// Moves `amount` of X (`is_x`) or Y from the user's account into the
    /// pool's vault, signed by the user.
    pub fn deposit_tokens(&mut self, is_x: bool, amount: u64) -> (r: Result<(), SwapError>)
        ensures
            old(self).deposit_outcome(is_x, amount) is Ok ==> r is Ok && *final(self) == old(
                self,
            ).after_deposit(is_x, amount),
            old(self).deposit_outcome(is_x, amount) is Err ==> r == Err::<(), SwapError>(
                SwapError::TransferFailure(old(self).deposit_outcome(is_x, amount)->Err_0),
            ) && *final(self) == *old(self),
    {
        let user = self.user;
        let res = if is_x {
            transfer(&mut self.user_x, &mut self.vault_x, user, amount)
        } else {
            transfer(&mut self.user_y, &mut self.vault_y, user, amount)
        };
        match res {
            Ok(()) => Ok(()),
            Err(e) => Err(SwapError::TransferFailure(e)),
        }
    }

    /// Moves `amount` of X (`is_x`) or Y from the pool's vault to the
    /// user's account, signed by the pool.
    pub fn withdraw_tokens(&mut self, is_x: bool, amount: u64) -> (r: Result<(), SwapError>)
        ensures
            old(self).withdraw_outcome(is_x, amount) is Ok ==> r is Ok && *final(self) == old(
                self,
            ).after_withdraw(is_x, amount),
            old(self).withdraw_outcome(is_x, amount) is Err ==> r == Err::<(), SwapError>(
                SwapError::TransferFailure(old(self).withdraw_outcome(is_x, amount)->Err_0),
            ) && *final(self) == *old(self),
    {
        let pool = self.pool;
        let res = if is_x {
            transfer(&mut self.vault_x, &mut self.user_x, pool, amount)
        } else {
            transfer(&mut self.vault_y, &mut self.user_y, pool, amount)
        };
        match res {
            Ok(()) => Ok(()),
            Err(e) => Err(SwapError::TransferFailure(e)),
        }
    }
    /// The product of the two vault balances.
    pub open spec fn reserve_product(self) -> int {
        self.vault_x.amount as int * self.vault_y.amount as int
    }

    /// Swaps `amount` of X for Y (`is_x`) or of Y for X, paying out at least
    /// `min`. The trade is priced on the vault balances before the deposit;
    /// both legs are checked before either is made, so a swap either moves
    /// both legs or leaves every account as it was.
    pub fn swap(&mut self, is_x: bool, amount: u64, min: u64) -> (r: Result<SwapQuote, SwapError>)
        requires
            old(self).config.fee < BPS_DENOMINATOR,
        ensures
            r == old(self).swap_outcome(is_x, amount, min),
            r is Ok ==> *final(self) == old(self).after_deposit(is_x, amount).after_withdraw(
                !is_x,
                r->Ok_0.amount_out,
            ),
            r is Err ==> *final(self) == *old(self),
            amount == 0 ==> r == Err::<SwapQuote, SwapError>(SwapError::InvalidAmount),
            amount > 0 && old(self).config.locked ==> r == Err::<SwapQuote, SwapError>(
                SwapError::PoolLocked,
            ),
            r is Ok ==> old(self).reserve_product() <= final(self).reserve_product(),
    {
        if amount == 0 {
            return Err(SwapError::InvalidAmount);
        }
        if self.config.locked {
            return Err(SwapError::PoolLocked);
        }
        match self.validate_accounts() {
            Ok(()) => {},
            Err(e) => return Err(e),
        }
        let (reserve_in, reserve_out) = if is_x {
            (self.vault_x.amount, self.vault_y.amount)
        } else {
            (self.vault_y.amount, self.vault_x.amount)
        };
        if reserve_in == 0 || reserve_out == 0 {
            return Err(SwapError::InsufficientLiquidity);
        }
        let quote = match compute(reserve_in, reserve_out, self.config.fee, amount) {
            Ok(q) => q,
            Err(e) => return Err(e),
        };
        if quote.amount_out < min {
            return Err(SwapError::SlippageExceeded);
        }
        let (user_in, vault_in, vault_out, user_out) = if is_x {
            (self.user_x, self.vault_x, self.vault_y, self.user_y)
        } else {
            (self.user_y, self.vault_y, self.vault_x, self.user_x)
        };
        match check_transfer(&user_in, &vault_in, self.user, amount) {
            Ok(()) => {},
            Err(e) => return Err(SwapError::TransferFailure(e)),
        }
        match check_transfer(&vault_out, &user_out, self.pool, quote.amount_out) {
            Ok(()) => {},
            Err(e) => return Err(SwapError::TransferFailure(e)),
        }
        let ghost before = *self;
        let _ = self.deposit_tokens(is_x, amount);
        let _ = self.withdraw_tokens(!is_x, quote.amount_out);
        proof {
            lemma_trade_keeps_invariant(
                reserve_in as int,
                reserve_out as int,
                before.config.fee as int,
                amount as int,
            );
            let rin = reserve_in as int;
            let rout = reserve_out as int;
            let a = amount as int;
            let o = quote.amount_out as int;
            assert(rout * rin <= (rout - o) * (rin + a)) by (nonlinear_arith)
                requires
                    rin * rout <= (rin + a) * (rout - o),
            ;
        }
        Ok(quote)
    }
}

} // verus!
