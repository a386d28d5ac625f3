use vstd::prelude::*;

verus! {

/// The creator's share of a resale at `price`: `price * bps / 10000`,
/// rounded down.
pub open spec fn fee_of(price: int, bps: int) -> int {
    price * bps / 10000
}

/// Splits a resale price into the creator's fee and the seller's amount.
/// The fee is computed without forming `price * bps`, so no price overflows.
pub fn split_sale(price: i128, bps: u32) -> (r: (i128, i128))
    requires
        price >= 0,
        bps <= 10000,
    ensures
        r.0 == fee_of(price as int, bps as int),
        r.1 == price - r.0,
        0 <= r.0 <= price,
{
    let q: i128 = price / 10000;
    let rem: i128 = price % 10000;
    let b: i128 = bps as i128;
    proof {
        assert(price == 10000 * q + rem);
        assert(0 <= q * b <= q * 10000) by (nonlinear_arith)
            requires 0 <= q, 0 <= b <= 10000;
        assert(0 <= rem * b <= 10000 * 10000) by (nonlinear_arith)
            requires 0 <= rem < 10000, 0 <= b <= 10000;
        assert(price * b == (q * b) * 10000 + rem * b) by (nonlinear_arith)
            requires price == 10000 * q + rem;
        assert(((q * b) * 10000 + rem * b) / 10000 == q * b + (rem * b) / 10000) by (nonlinear_arith)
            requires 0 <= q * b, 0 <= rem * b;
        assert((rem * b) / 10000 <= rem) by (nonlinear_arith)
            requires 0 <= rem, 0 <= b <= 10000;
    }
    let fee: i128 = q * b + (rem * b) / 10000;
    (fee, price - fee)
}

} // verus!
