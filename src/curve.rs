//! The constant-product curve: what a trade of `amount_in` against two
//! reserves pays out, net of a fee in basis points.
use vstd::prelude::*;

use crate::error::SwapError;

verus! {

/// Basis points in a whole: a fee of `BPS_DENOMINATOR` would be 100%.
pub const BPS_DENOMINATOR: u64 = 10000;

/// Result of pricing a trade.
#[derive(Clone, Copy, Debug, PartialEq, Eq)]
pub struct SwapQuote {
    /// What the pool pays out of the output reserve.
    pub amount_out: u64,
    /// The part of the input kept by the pool as fee.
    pub fee_charged: u64,
}

/// The fee kept from `amount_in`, rounded down.
pub open spec fn fee_of(amount_in: int, fee_bps: int) -> int {
    amount_in * fee_bps / BPS_DENOMINATOR as int
}

/// The part of `amount_in` that trades against the curve.
pub open spec fn net_in(amount_in: int, fee_bps: int) -> int {
    amount_in - fee_of(amount_in, fee_bps)
}

/// Output for a net input `net`: the largest amount that keeps
/// `reserve_in * reserve_out` from falling, i.e.
/// `floor(reserve_out * net / (reserve_in + net))`.
pub open spec fn out_for_net(reserve_in: int, reserve_out: int, net: int) -> int {
    if reserve_in + net <= 0 {
        0
    } else {
        reserve_out * net / (reserve_in + net)
    }
}

/// Output of trading `amount_in` at `fee_bps` against the two reserves.
pub open spec fn amount_out_of(reserve_in: int, reserve_out: int, fee_bps: int, amount_in: int) -> int {
    out_for_net(reserve_in, reserve_out, net_in(amount_in, fee_bps))
}

/// Floor division brackets its numerator.
proof fn lemma_floor(x: int, d: int)
    requires
        x >= 0,
        d > 0,
    ensures
        0 <= x / d,
        d * (x / d) <= x,
        x < d * (x / d) + d,
{
    vstd::arithmetic::div_mod::lemma_fundamental_div_mod(x, d);
    vstd::arithmetic::div_mod::lemma_mod_pos_bound(x, d);
    vstd::arithmetic::div_mod::lemma_div_pos_is_pos(x, d);
}

/// Any `q` with `q * d <= x` is at most `x / d`.
proof fn lemma_floor_is_largest(q: int, x: int, d: int)
    requires
        x >= 0,
        d > 0,
        q * d <= x,
    ensures
        q <= x / d,
{
    lemma_floor(x, d);
    let f = x / d;
    assert(q <= f) by (nonlinear_arith)
        requires
            q * d <= x,
            x < d * f + d,
            d > 0,
    ;
}

/// The fee never takes the whole input: `0 <= fee < amount_in`.
pub proof fn lemma_fee_bounds(amount_in: int, fee_bps: int)
    requires
        amount_in > 0,
        0 <= fee_bps < BPS_DENOMINATOR,
    ensures
        0 <= fee_of(amount_in, fee_bps) < amount_in,
        0 < net_in(amount_in, fee_bps) <= amount_in,
{
    let x = amount_in * fee_bps;
    assert(0 <= x < amount_in * 10000) by (nonlinear_arith)
        requires
            x == amount_in * fee_bps,
            amount_in > 0,
            0 <= fee_bps < 10000,
    ;
    lemma_floor(x, 10000);
    let f = x / 10000;
    assert(f < amount_in) by (nonlinear_arith)
        requires
            10000 * f <= x,
            x < amount_in * 10000,
    ;
}

/// The output never exceeds the output reserve, and never falls below zero.
pub proof fn lemma_out_bounds(reserve_in: int, reserve_out: int, net: int)
    requires
        reserve_in >= 0,
        reserve_out >= 0,
        net >= 0,
    ensures
        0 <= out_for_net(reserve_in, reserve_out, net) <= reserve_out,
        out_for_net(reserve_in, reserve_out, net) * (reserve_in + net) <= reserve_out * net,
{
    if reserve_in + net > 0 {
        let d = reserve_in + net;
        let x = reserve_out * net;
        assert(0 <= x <= reserve_out * d) by (nonlinear_arith)
            requires
                reserve_out >= 0,
                net >= 0,
                reserve_in >= 0,
                d == reserve_in + net,
                x == reserve_out * net,
        ;
        lemma_floor(x, d);
        let q = x / d;
        assert(q <= reserve_out && q * d <= x) by (nonlinear_arith)
            requires
                d * q <= x,
                x <= reserve_out * d,
                d > 0,
        ;
    }
}

/// The net input grows (weakly) with the gross input.
proof fn lemma_net_monotone(a1: int, a2: int, fee_bps: int)
    requires
        0 <= a1 <= a2,
        0 <= fee_bps < BPS_DENOMINATOR,
    ensures
        0 <= net_in(a1, fee_bps) <= net_in(a2, fee_bps),
{
    let x1 = a1 * fee_bps;
    let x2 = a2 * fee_bps;
    assert(0 <= x1 && x2 - x1 <= (a2 - a1) * 10000 && x1 <= a1 * 10000) by (nonlinear_arith)
        requires
            x1 == a1 * fee_bps,
            x2 == a2 * fee_bps,
            0 <= a1 <= a2,
            0 <= fee_bps < 10000,
    ;
    lemma_floor(x1, 10000);
    lemma_floor(x2, 10000);
    let f1 = x1 / 10000;
    let f2 = x2 / 10000;
    assert(f2 - f1 <= a2 - a1 && f1 <= a1) by (nonlinear_arith)
        requires
            10000 * f2 <= x2,
            x1 < 10000 * f1 + 10000,
            10000 * f1 <= x1,
            x1 <= a1 * 10000,
            x2 - x1 <= (a2 - a1) * 10000,
    ;
}

/// A larger fee keeps (weakly) more of the input.
proof fn lemma_net_antitone_in_fee(amount_in: int, f1: int, f2: int)
    requires
        amount_in >= 0,
        0 <= f1 <= f2 < BPS_DENOMINATOR,
    ensures
        0 <= net_in(amount_in, f2) <= net_in(amount_in, f1),
{
    let x1 = amount_in * f1;
    let x2 = amount_in * f2;
    assert(0 <= x1 <= x2 && x2 <= amount_in * 10000) by (nonlinear_arith)
        requires
            x1 == amount_in * f1,
            x2 == amount_in * f2,
            amount_in >= 0,
            0 <= f1 <= f2 < 10000,
    ;
    vstd::arithmetic::div_mod::lemma_div_is_ordered(x1, x2, 10000);
    lemma_floor(x2, 10000);
    let g = x2 / 10000;
    assert(g <= amount_in) by (nonlinear_arith)
        requires
            10000 * g <= x2,
            x2 <= amount_in * 10000,
    ;
}

/// The curve pays (weakly) more for a larger net input.
proof fn lemma_out_monotone_in_net(reserve_in: int, reserve_out: int, n1: int, n2: int)
    requires
        reserve_in >= 0,
        reserve_out >= 0,
        0 <= n1 <= n2,
    ensures
        out_for_net(reserve_in, reserve_out, n1) <= out_for_net(reserve_in, reserve_out, n2),
{
    lemma_out_bounds(reserve_in, reserve_out, n1);
    lemma_out_bounds(reserve_in, reserve_out, n2);
    if reserve_in + n1 > 0 {
        let q = out_for_net(reserve_in, reserve_out, n1);
        assert(q * (reserve_in + n2) <= reserve_out * n2) by (nonlinear_arith)
            requires
                q * (reserve_in + n1) <= reserve_out * n1,
                0 <= q <= reserve_out,
                n1 <= n2,
        ;
        assert(reserve_out * n2 >= 0) by (nonlinear_arith)
            requires
                reserve_out >= 0,
                n2 >= 0,
        ;
        lemma_floor_is_largest(q, reserve_out * n2, reserve_in + n2);
    }
}

/// A trade never pays out more than the output reserve, and the product of
/// the reserves after it, the whole input (fee included) having gone in, is
/// at least the product before it.
pub proof fn lemma_trade_keeps_invariant(reserve_in: int, reserve_out: int, fee_bps: int, amount_in: int)
    requires
        reserve_in > 0,
        reserve_out > 0,
        0 <= fee_bps < BPS_DENOMINATOR,
        amount_in > 0,
    ensures
        0 <= amount_out_of(reserve_in, reserve_out, fee_bps, amount_in) <= reserve_out,
        reserve_in * reserve_out <= (reserve_in + amount_in) * (reserve_out - amount_out_of(
            reserve_in,
            reserve_out,
            fee_bps,
            amount_in,
        )),
{
    lemma_fee_bounds(amount_in, fee_bps);
    let n = net_in(amount_in, fee_bps);
    lemma_out_bounds(reserve_in, reserve_out, n);
    let o = out_for_net(reserve_in, reserve_out, n);
    assert(reserve_in * reserve_out <= (reserve_in + amount_in) * (reserve_out - o)) by (nonlinear_arith)
        requires
            o * (reserve_in + n) <= reserve_out * n,
            0 <= o <= reserve_out,
            0 < n <= amount_in,
            reserve_in > 0,
    ;
}

/// For fixed reserves and fee, the output does not decrease as the input
/// grows.
pub proof fn lemma_out_monotone_in_amount(
    reserve_in: int,
    reserve_out: int,
    fee_bps: int,
    a1: int,
    a2: int,
)
    requires
        reserve_in >= 0,
        reserve_out >= 0,
        0 <= fee_bps < BPS_DENOMINATOR,
        0 <= a1 <= a2,
    ensures
        amount_out_of(reserve_in, reserve_out, fee_bps, a1) <= amount_out_of(
            reserve_in,
            reserve_out,
            fee_bps,
            a2,
        ),
{
    lemma_net_monotone(a1, a2, fee_bps);
    lemma_out_monotone_in_net(reserve_in, reserve_out, net_in(a1, fee_bps), net_in(a2, fee_bps));
}

/// For fixed reserves and input, the output does not increase as the fee
/// grows.
pub proof fn lemma_out_antitone_in_fee(
    reserve_in: int,
    reserve_out: int,
    amount_in: int,
    f1: int,
    f2: int,
)
    requires
        reserve_in >= 0,
        reserve_out >= 0,
        amount_in >= 0,
        0 <= f1 <= f2 < BPS_DENOMINATOR,
    ensures
        amount_out_of(reserve_in, reserve_out, f2, amount_in) <= amount_out_of(
            reserve_in,
            reserve_out,
            f1,
            amount_in,
        ),
{
    lemma_net_antitone_in_fee(amount_in, f1, f2);
    lemma_out_monotone_in_net(reserve_in, reserve_out, net_in(amount_in, f2), net_in(amount_in, f1));
}

/// Swapping `amount_in` of one asset for the other, then swapping all of
/// what came out straight back against the updated reserves, returns
/// strictly less than `amount_in` whenever the first trade was charged a
/// fee.
pub proof fn lemma_round_trip_loses(reserve_in: int, reserve_out: int, fee_bps: int, amount_in: int)
    requires
        reserve_in > 0,
        reserve_out > 0,
        0 <= fee_bps < BPS_DENOMINATOR,
        amount_in > 0,
        fee_of(amount_in, fee_bps) > 0,
    ensures
        amount_out_of(
            reserve_out - amount_out_of(reserve_in, reserve_out, fee_bps, amount_in),
            reserve_in + amount_in,
            fee_bps,
            amount_out_of(reserve_in, reserve_out, fee_bps, amount_in),
        ) < amount_in,
{
    let rx = reserve_in;
    let ry = reserve_out;
    let a = amount_in;
    lemma_fee_bounds(a, fee_bps);
    let n1 = net_in(a, fee_bps);
    lemma_out_bounds(rx, ry, n1);
    let y = out_for_net(rx, ry, n1);
    if y == 0 {
        assert(fee_of(0, fee_bps) == 0);
        assert(out_for_net(ry, rx + a, 0) == 0);
    } else {
        lemma_fee_bounds(y, fee_bps);
        let n2 = net_in(y, fee_bps);
        lemma_out_bounds(ry - y, rx + a, n2);
        let o = out_for_net(ry - y, rx + a, n2);
        if o >= a {
            assert(a * ry <= (rx + a) * y) by (nonlinear_arith)
                requires
                    o * (ry - y + n2) <= (rx + a) * n2,
                    o >= a,
                    a > 0,
                    0 < n2 <= y,
                    y <= ry,
                    rx > 0,
            ;
            assert(a <= n1) by (nonlinear_arith)
                requires
                    a * ry <= (rx + a) * y,
                    y * (rx + n1) <= ry * n1,
                    ry > 0,
                    rx > 0,
                    a > 0,
                    n1 > 0,
            ;
        }
    }
}

/// Prices a trade of `amount_in` against `reserve_in` / `reserve_out` at a
/// fee of `fee_bps` basis points. Intermediates are 128 bits wide, so no
/// `u64` input overflows.
pub fn compute(reserve_in: u64, reserve_out: u64, fee_bps: u16, amount_in: u64) -> (r: Result<SwapQuote, SwapError>)
    requires
        fee_bps < BPS_DENOMINATOR,
    ensures
        r is Err <==> amount_in == 0,
        r is Err ==> r->Err_0 == SwapError::InvalidAmount,
        r is Ok ==> r->Ok_0.amount_out == amount_out_of(
            reserve_in as int,
            reserve_out as int,
            fee_bps as int,
            amount_in as int,
        ),
        r is Ok ==> r->Ok_0.fee_charged == fee_of(amount_in as int, fee_bps as int),
        r is Ok ==> r->Ok_0.amount_out <= reserve_out,
{
    if amount_in == 0 {
        return Err(SwapError::InvalidAmount);
    }
    proof {
        lemma_fee_bounds(amount_in as int, fee_bps as int);
        assert((amount_in as int) * (fee_bps as int) <= 0xffff_ffff_ffff_ffff * 10000) by (nonlinear_arith)
            requires
                amount_in <= 0xffff_ffff_ffff_ffffu64,
                fee_bps < 10000,
        ;
    }
    let fee: u64 = ((amount_in as u128) * (fee_bps as u128) / (BPS_DENOMINATOR as u128)) as u64;
    let net: u64 = amount_in - fee;
    proof {
        assert((reserve_out as int) * (net as int) <= 0xffff_ffff_ffff_ffff * 0xffff_ffff_ffff_ffff)
            by (nonlinear_arith)
            requires
                reserve_out <= 0xffff_ffff_ffff_ffffu64,
                net <= 0xffff_ffff_ffff_ffffu64,
        ;
        lemma_out_bounds(reserve_in as int, reserve_out as int, net as int);
    }
    let num: u128 = (reserve_out as u128) * (net as u128);
    let den: u128 = (reserve_in as u128) + (net as u128);
    let out: u64 = (num / den) as u64;
    Ok(SwapQuote { amount_out: out, fee_charged: fee })
}

} // verus!
