//! The arithmetic of an exchange: converting an amount at a rate between two
//! currencies with their decimals, less a fee in basis points.
use vstd::prelude::*;
use vstd::arithmetic::div_mod::lemma_div_multiples_vanish_quotient;

verus! {

/// Basis points in the whole.
pub const BPS_DENOMINATOR: u64 = 10000;

/// An oracle's price of one base unit in quote units: `numerator / denominator`.
#[derive(Clone, Copy, Debug)]
pub struct Rate {
    pub numerator: u64,
    pub denominator: u64,
}

/// Ten to the power `n`.
pub open spec fn pow10(n: nat) -> nat
    decreases n,
{
    if n == 0 {
        1
    } else {
        10 * pow10((n - 1) as nat)
    }
}

/// The output of converting `amount` at the rate `rn / rd` from a currency with
/// `din` decimals to one with `dout`, less `fee` basis points, rounded down:
/// `floor(amount * rn/rd * 10^(dout - din) * (10000 - fee) / 10000)`.
pub open spec fn converted(amount: u64, rn: u64, rd: u64, din: u8, dout: u8, fee: u64) -> int {
    (amount * rn * pow10(dout as nat) * (10000 - fee)) / (rd * pow10(din as nat) * 10000)
}

/// Whether the conversion can be computed in 128-bit steps and its result fits a `u64`.
pub open spec fn conversion_fits(amount: u64, rn: u64, rd: u64, din: u8, dout: u8, fee: u64) -> bool {
    &&& pow10(dout as nat) <= u128::MAX
    &&& pow10(din as nat) <= u128::MAX
    &&& amount * rn <= u128::MAX
    &&& amount * rn * pow10(dout as nat) <= u128::MAX
    &&& amount * rn * pow10(dout as nat) * (10000 - fee) <= u128::MAX
    &&& rd * pow10(din as nat) <= u128::MAX
    &&& rd * pow10(din as nat) * 10000 <= u128::MAX
    &&& converted(amount, rn, rd, din, dout, fee) <= u64::MAX
}

proof fn lemma_pow10_grows(i: nat, n: nat)
    requires
        i <= n,
    ensures
        1 <= pow10(i) <= pow10(n),
    decreases n,
{
    if i < n {
        lemma_pow10_grows(i, (n - 1) as nat);
    } else if i > 0 {
        lemma_pow10_grows((i - 1) as nat, (i - 1) as nat);
    }
}

fn pow10_checked(n: u8) -> (r: Option<u128>)
    ensures
        r is Some <==> pow10(n as nat) <= u128::MAX,
        r matches Some(v) ==> v == pow10(n as nat),
{
    let mut acc: u128 = 1;
    let mut i: u8 = 0;
    while i < n
        invariant
            i <= n,
            acc == pow10(i as nat),
        decreases n - i,
    {
        match acc.checked_mul(10) {
            Some(v) => {
                acc = v;
            },
            None => {
                proof {
                    lemma_pow10_grows((i + 1) as nat, n as nat);
                }
                return None;
            },
        }
        i = i + 1;
    }
    Some(acc)
}

/// Converts `amount` at the rate `rn / rd` from a currency with `din` decimals to
/// one with `dout`, less `fee` basis points, rounded down; `None` where a step
/// overflows 128 bits or the result exceeds `u64`.
pub fn convert(amount: u64, rn: u64, rd: u64, din: u8, dout: u8, fee: u64) -> (r: Option<u64>)
    requires
        rd > 0,
        fee <= 10000,
    ensures
        r is Some <==> conversion_fits(amount, rn, rd, din, dout, fee),
        r matches Some(v) ==> v == converted(amount, rn, rd, din, dout, fee),
{
    let p_out = match pow10_checked(dout) {
        Some(v) => v,
        None => return None,
    };
    let p_in = match pow10_checked(din) {
        Some(v) => v,
        None => return None,
    };
    let t1 = match (amount as u128).checked_mul(rn as u128) {
        Some(v) => v,
        None => return None,
    };
    let t2 = match t1.checked_mul(p_out) {
        Some(v) => v,
        None => return None,
    };
    let t3 = match t2.checked_mul((BPS_DENOMINATOR - fee) as u128) {
        Some(v) => v,
        None => return None,
    };
    let d1 = match (rd as u128).checked_mul(p_in) {
        Some(v) => v,
        None => return None,
    };
    let d2 = match d1.checked_mul(BPS_DENOMINATOR as u128) {
        Some(v) => v,
        None => return None,
    };
    proof {
        lemma_pow10_grows(0, din as nat);
        assert(d1 > 0) by (nonlinear_arith)
            requires
                d1 == rd * p_in,
                rd > 0,
                p_in >= 1,
        ;
    }
    let q = t3 / d2;
    if q > u64::MAX as u128 {
        None
    } else {
        Some(q as u64)
    }
}

/// With no fee the output is the amount at the rate, scaled by the decimals and
/// rounded down: `floor(amount * rn/rd * 10^dout / 10^din)`.
pub proof fn lemma_no_fee_output(amount: u64, rn: u64, rd: u64, din: u8, dout: u8)
    requires
        rd > 0,
    ensures
        converted(amount, rn, rd, din, dout, 0) == (amount * rn * pow10(dout as nat)) / (rd * pow10(
            din as nat,
        )),
{
    lemma_pow10_grows(0, din as nat);
    let a = amount * rn * pow10(dout as nat);
    let d = rd * pow10(din as nat);
    assert(a >= 0) by (nonlinear_arith)
        requires
            a == amount * rn * pow10(dout as nat),
    ;
    assert(d > 0) by (nonlinear_arith)
        requires
            d == rd * pow10(din as nat),
            rd > 0,
            pow10(din as nat) >= 1,
    ;
    lemma_div_multiples_vanish_quotient(10000, a, d);
    assert(a * 10000 == 10000 * a && d * 10000 == 10000 * d) by (nonlinear_arith);
}

} // verus!
