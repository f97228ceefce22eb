//! 256-bit amounts, held as their 32 big-endian bytes; the arithmetic on them
//! is done by `spl_math`'s `U256`.
use vstd::prelude::*;

use crate::bytes::{be_value, pow10, u256_limit};

verus! {

/// Relies on `U256::from(u64)`: the 256-bit number equal to `x`.
#[verifier::external_body]
pub(crate) fn wide_from_u64(x: u64) -> (r: [u8; 32])
    ensures
        be_value(r@) == x as nat,
{
    let mut out = [0u8; 32];
    spl_math::uint::U256::from(x).to_big_endian(&mut out);
    out
}

/// Relies on `U256::exp10`: `10^n`, which panics unless it fits in 256 bits.
#[verifier::external_body]
pub(crate) fn wide_exp10(n: usize) -> (r: [u8; 32])
    requires
        pow10(n as nat) < u256_limit(),
    ensures
        be_value(r@) == pow10(n as nat),
{
    let mut out = [0u8; 32];
    spl_math::uint::U256::exp10(n).to_big_endian(&mut out);
    out
}

/// Relies on `U256`'s `Mul`: the product, which panics unless it fits in 256 bits.
#[verifier::external_body]
pub(crate) fn wide_mul(a: &[u8; 32], b: &[u8; 32]) -> (r: [u8; 32])
    requires
        be_value(a@) * be_value(b@) < u256_limit(),
    ensures
        be_value(r@) == be_value(a@) * be_value(b@),
{
    let x = spl_math::uint::U256::from_big_endian(a);
    let y = spl_math::uint::U256::from_big_endian(b);
    let mut out = [0u8; 32];
    (x * y).to_big_endian(&mut out);
    out
}

/// Relies on `U256`'s `Div`: the truncated quotient, which panics on a zero divisor.
#[verifier::external_body]
pub(crate) fn wide_div(a: &[u8; 32], b: &[u8; 32]) -> (r: [u8; 32])
    requires
        be_value(b@) > 0,
    ensures
        be_value(r@) == be_value(a@) / be_value(b@),
{
    let x = spl_math::uint::U256::from_big_endian(a);
    let y = spl_math::uint::U256::from_big_endian(b);
    let mut out = [0u8; 32];
    (x / y).to_big_endian(&mut out);
    out
}

/// Relies on `u64::try_from(U256)`: the value when it fits in 64 bits, else nothing.
#[verifier::external_body]
pub(crate) fn wide_try_to_u64(a: &[u8; 32]) -> (r: Option<u64>)
    ensures
        r is Some <==> be_value(a@) <= u64::MAX,
        r matches Some(v) ==> v as nat == be_value(a@),
{
    let x = spl_math::uint::U256::from_big_endian(a);
    match u64::try_from(x) {
        Ok(v) => Some(v),
        Err(_) => None,
    }
}

/// Relies on `U256::as_u64`: the value, which panics unless it fits in 64 bits.
#[verifier::external_body]
pub(crate) fn wide_as_u64(a: &[u8; 32]) -> (r: u64)
    requires
        be_value(a@) <= u64::MAX,
    ensures
        r as nat == be_value(a@),
{
    spl_math::uint::U256::from_big_endian(a).as_u64()
}

} // verus!
