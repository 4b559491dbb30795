use amm_swap::curve::{compute, SwapQuote};
use amm_swap::error::{SwapError, TransferError};
use amm_swap::swap::{check_transfer, transfer, Config, Swap, TokenAccount};

const MINT_X: u64 = 11;
const MINT_Y: u64 = 22;
const USER: u64 = 7;
const POOL: u64 = 9;

fn pool(vault_x: u64, vault_y: u64, user_x: u64, user_y: u64, fee: u16) -> Swap {
    Swap {
        user: USER,
        pool: POOL,
        config: Config { seed: 1, mint_x: MINT_X, mint_y: MINT_Y, fee, locked: false },
        vault_x: TokenAccount { mint: MINT_X, owner: POOL, amount: vault_x },
        vault_y: TokenAccount { mint: MINT_Y, owner: POOL, amount: vault_y },
        user_x: TokenAccount { mint: MINT_X, owner: USER, amount: user_x },
        user_y: TokenAccount { mint: MINT_Y, owner: USER, amount: user_y },
    }
}

fn out(rx: u64, ry: u64, fee: u16, a: u64) -> u64 {
    compute(rx, ry, fee, a).unwrap().amount_out
}

#[test]
fn compute_worked_example() {
    assert_eq!(compute(1000, 1000, 100, 100), Ok(SwapQuote { amount_out: 90, fee_charged: 1 }));
}

#[test]
fn compute_fee_rounds_down_to_zero() {
    // 100 * 30 / 10000 rounds to no fee; 1000 * 100 / 1100 = 90.9 rounds to 90.
    assert_eq!(compute(1000, 1000, 30, 100), Ok(SwapQuote { amount_out: 90, fee_charged: 0 }));
}

#[test]
fn compute_exact_division_without_fee() {
    assert_eq!(compute(100, 200, 0, 100), Ok(SwapQuote { amount_out: 100, fee_charged: 0 }));
}

#[test]
fn compute_zero_input_is_invalid() {
    assert_eq!(compute(1000, 1000, 100, 0), Err(SwapError::InvalidAmount));
}

#[test]
fn compute_largest_values_do_not_overflow() {
    let q = compute(u64::MAX, u64::MAX, 9999, u64::MAX).unwrap();
    assert!(q.amount_out <= u64::MAX);
    assert_eq!(q.fee_charged, ((u64::MAX as u128) * 9999 / 10000) as u64);
    let q = compute(1, u64::MAX, 0, u64::MAX).unwrap();
    assert_eq!(q.amount_out, u64::MAX - 1);
}

#[test]
fn compute_empty_input_reserve_pays_whole_output_reserve() {
    assert_eq!(compute(0, 500, 0, 10).unwrap().amount_out, 500);
}

#[test]
fn compute_keeps_product_and_stays_within_reserve() {
    for &(rx, ry, f, a) in &[(1000u64, 1000u64, 100u16, 100u64), (1, 1, 0, 1), (7, 3, 9999, 5), (5000, 17, 25, 123456)] {
        let o = out(rx, ry, f, a);
        assert!(o <= ry);
        assert!((rx as u128) * (ry as u128) <= (rx as u128 + a as u128) * (ry as u128 - o as u128));
    }
}

#[test]
fn compute_output_grows_with_input() {
    let mut last = 0;
    for a in 1..400u64 {
        let o = out(1000, 800, 30, a);
        assert!(o >= last);
        last = o;
    }
}

#[test]
fn compute_output_shrinks_with_fee() {
    let mut last = u64::MAX;
    for f in (0..10000u16).step_by(37) {
        let o = out(1000, 1000, f, 500);
        assert!(o <= last);
        last = o;
    }
    assert!(out(1000, 1000, 0, 500) > out(1000, 1000, 9999, 500));
}

#[test]
fn swap_x_for_y_moves_both_legs() {
    let mut s = pool(1000, 1000, 500, 0, 100);
    assert_eq!(s.swap(true, 100, 90), Ok(SwapQuote { amount_out: 90, fee_charged: 1 }));
    assert_eq!(s.user_x.amount, 400);
    assert_eq!(s.vault_x.amount, 1100);
    assert_eq!(s.vault_y.amount, 910);
    assert_eq!(s.user_y.amount, 90);
}

#[test]
fn swap_y_for_x_moves_both_legs() {
    let mut s = pool(2000, 1000, 0, 300, 0);
    // 2000 * 200 / 1200 = 333.3
    assert_eq!(s.swap(false, 200, 0), Ok(SwapQuote { amount_out: 333, fee_charged: 0 }));
    assert_eq!(s.user_y.amount, 100);
    assert_eq!(s.vault_y.amount, 1200);
    assert_eq!(s.vault_x.amount, 1667);
    assert_eq!(s.user_x.amount, 333);
}

#[test]
fn swap_slippage_exceeded_leaves_balances() {
    let mut s = pool(1000, 1000, 500, 0, 100);
    let before = s;
    assert_eq!(s.swap(true, 100, 91), Err(SwapError::SlippageExceeded));
    assert_eq!(s, before);
}

#[test]
fn swap_zero_amount_is_invalid() {
    let mut s = pool(1000, 1000, 500, 0, 100);
    let before = s;
    assert_eq!(s.swap(true, 0, 0), Err(SwapError::InvalidAmount));
    assert_eq!(s, before);
}

#[test]
fn swap_on_locked_pool_is_refused() {
    let mut s = pool(1000, 1000, 500, 500, 100);
    s.config.locked = true;
    let before = s;
    for &(is_x, amount) in &[(true, 1u64), (false, 100), (true, u64::MAX)] {
        assert_eq!(s.swap(is_x, amount, 0), Err(SwapError::PoolLocked));
        assert_eq!(s, before);
    }
}

#[test]
fn swap_with_foreign_vault_is_refused() {
    let mut s = pool(1000, 1000, 500, 0, 100);
    s.vault_y.owner = USER;
    let before = s;
    assert_eq!(s.swap(true, 100, 0), Err(SwapError::RelationshipMismatch));
    assert_eq!(s, before);
    let mut s = pool(1000, 1000, 500, 0, 100);
    s.user_x.mint = MINT_Y;
    assert_eq!(s.swap(true, 100, 0), Err(SwapError::RelationshipMismatch));
}

#[test]
fn swap_against_empty_reserve_is_refused() {
    let mut s = pool(1000, 0, 500, 0, 100);
    let before = s;
    assert_eq!(s.swap(true, 100, 0), Err(SwapError::InsufficientLiquidity));
    assert_eq!(s, before);
}

#[test]
fn swap_without_funds_moves_nothing() {
    let mut s = pool(1000, 1000, 50, 0, 100);
    let before = s;
    assert_eq!(s.swap(true, 100, 0), Err(SwapError::TransferFailure(TransferError::InsufficientFunds)));
    assert_eq!(s, before);
}

#[test]
fn swap_whose_payout_cannot_land_moves_nothing() {
    let mut s = pool(1000, 1000, 500, u64::MAX - 10, 100);
    let before = s;
    assert_eq!(s.swap(true, 100, 0), Err(SwapError::TransferFailure(TransferError::Overflow)));
    assert_eq!(s, before);
}

#[test]
fn swap_round_trip_loses_to_fee() {
    let mut s = pool(1000, 1000, 100, 0, 100);
    let y = s.swap(true, 100, 0).unwrap().amount_out;
    assert_eq!(y, 90);
    let x = s.swap(false, y, 0).unwrap().amount_out;
    assert_eq!(x, 99);
    assert!(x < 100);
    assert_eq!(s.user_x.amount, 99);
}

#[test]
fn deposit_and_withdraw_legs() {
    let mut s = pool(1000, 1000, 500, 0, 100);
    assert_eq!(s.deposit_tokens(true, 200), Ok(()));
    assert_eq!((s.user_x.amount, s.vault_x.amount), (300, 1200));
    assert_eq!(s.withdraw_tokens(false, 50), Ok(()));
    assert_eq!((s.vault_y.amount, s.user_y.amount), (950, 50));
    let before = s;
    assert_eq!(s.withdraw_tokens(false, 951), Err(SwapError::TransferFailure(TransferError::InsufficientFunds)));
    assert_eq!(s, before);
}

#[test]
fn transfer_needs_owner_signature() {
    let mut from = TokenAccount { mint: MINT_X, owner: USER, amount: 10 };
    let mut to = TokenAccount { mint: MINT_X, owner: POOL, amount: 0 };
    assert_eq!(check_transfer(&from, &to, POOL, 5), Err(TransferError::Unauthorized));
    assert_eq!(transfer(&mut from, &mut to, POOL, 5), Err(TransferError::Unauthorized));
    assert_eq!((from.amount, to.amount), (10, 0));
    assert_eq!(transfer(&mut from, &mut to, USER, 5), Ok(()));
    assert_eq!((from.amount, to.amount), (5, 5));
}
