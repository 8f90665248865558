//! Random sampling, with the randomness itself drawn from the `rand` crate.
//!
//! The library never relies on which value came back, only on its range, so
//! each trusted wrapper states exactly that. The verified samplers on top
//! give the closed conventions the state machine uses: half-open ranges that
//! collapse to the lower bound when empty, and inclusive ranges.

use vstd::prelude::*;

verus! {

/// Relies on rand::random_range over an `i64` half-open range: the result is
/// uniform in `[lo, hi)`; the call panics on an empty range, which `lo < hi`
/// rules out.
#[verifier::external_body]
fn rand_i64_below(lo: i64, hi: i64) -> (r: i64)
    requires
        lo < hi,
    ensures
        lo <= r < hi,
{
    rand::random_range(lo..hi)
}

/// Relies on rand::random_range over a `u64` half-open range: the result is
/// uniform in `[lo, hi)`; the call panics on an empty range, which `lo < hi`
/// rules out.
#[verifier::external_body]
fn rand_u64_below(lo: u64, hi: u64) -> (r: u64)
    requires
        lo < hi,
    ensures
        lo <= r < hi,
{
    rand::random_range(lo..hi)
}

/// Relies on rand::random_range over a `u32` inclusive range: the result is
/// uniform in `[lo, hi]`; the call panics on an empty range, which `lo <= hi`
/// rules out.
#[verifier::external_body]
fn rand_u32_inclusive(lo: u32, hi: u32) -> (r: u32)
    requires
        lo <= hi,
    ensures
        lo <= r <= hi,
{
    rand::random_range(lo..=hi)
}

/// A draw from `[lo, hi)`, except that an empty range yields `lo`.
pub fn sample_i64_half_open(lo: i64, hi: i64) -> (r: i64)
    requires
        lo <= hi,
    ensures
        lo <= r,
        lo < hi ==> r < hi,
        lo == hi ==> r == lo,
{
    if lo < hi {
        rand_i64_below(lo, hi)
    } else {
        lo
    }
}

/// A draw from `[lo, hi)`, except that an empty range yields `lo`.
pub fn sample_u64_half_open(lo: u64, hi: u64) -> (r: u64)
    requires
        lo <= hi,
    ensures
        lo <= r,
        lo < hi ==> r < hi,
        lo == hi ==> r == lo,
{
    if lo < hi {
        rand_u64_below(lo, hi)
    } else {
        lo
    }
}

/// A draw from the inclusive range `[lo, hi]`.
pub fn sample_u32_inclusive(lo: u32, hi: u32) -> (r: u32)
    requires
        lo <= hi,
    ensures
        lo <= r <= hi,
{
    rand_u32_inclusive(lo, hi)
}

} // verus!
