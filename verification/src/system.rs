//! Arithmetic of the system monitor: byte counts rounded up to megabytes,
//! disk and memory usage, and how many samples one chart bar averages.

use vstd::prelude::*;

verus! {

/// `x / d`, rounded up.
pub open spec fn ceil_div(x: nat, d: nat) -> nat {
    ((x + d - 1) / d as int) as nat
}

/// `x / d` rounded up, for a positive `d`.
pub fn div_ceil(x: u64, d: u64) -> (r: u64)
    requires
        d > 0,
    ensures
        r as nat == ceil_div(x as nat, d as nat),
{
    let q = x / d;
    let r = x % d;
    proof {
        assert(x as int == d * q + r) by (nonlinear_arith)
            requires
                q == x / d,
                r == x % d,
                d > 0,
        ;
        assert(q + (if r != 0 { 1int } else { 0int }) == (x + d - 1) / d as int) by (nonlinear_arith)
            requires
                x as int == d * q + r,
                0 <= r < d,
                d > 0,
        ;
    }
    if r != 0 {
        assert(q < u64::MAX) by (nonlinear_arith)
            requires
                x as int == d * q + r,
                0 < r < d,
                x <= u64::MAX,
        ;
        q + 1
    } else {
        q
    }
}

/// Disk size and usage in megabytes (rounded up, and kept in 32 bits as the
/// monitor stores them).
pub fn disk_usage(total_space: u64, available_space: u64) -> (r: (u32, u32))
    requires
        (ceil_div(available_space as nat, 1_000_000) as u32) <= (ceil_div(total_space as nat, 1_000_000) as u32),
    ensures
        r.0 == ceil_div(total_space as nat, 1_000_000) as u32,
        r.1 == r.0 - (ceil_div(available_space as nat, 1_000_000) as u32),
{
    let total = div_ceil(total_space, 1_000_000) as u32;
    let available = div_ceil(available_space, 1_000_000) as u32;
    (total, total - available)
}

/// Memory used by the app and by everything else, in mebibytes (rounded up,
/// kept in 32 bits).
pub fn memory_usage(app_bytes: u64, used_bytes: u64) -> (r: (u32, u32))
    requires
        (ceil_div(app_bytes as nat, 1_048_576) as u32) <= (ceil_div(used_bytes as nat, 1_048_576) as u32),
    ensures
        r.0 == ceil_div(app_bytes as nat, 1_048_576) as u32,
        r.1 == (ceil_div(used_bytes as nat, 1_048_576) as u32) - r.0,
{
    let app = div_ceil(app_bytes, 1_048_576) as u32;
    let used = div_ceil(used_bytes, 1_048_576) as u32;
    (app, used - app)
}

/// How many samples one bar of a chart averages so that at most `max_bars`
/// bars are drawn: none when the samples already fit.
pub fn samples_per_bar(count: usize, max_bars: usize) -> (r: Option<usize>)
    requires
        max_bars > 0,
    ensures
        r == (if count > max_bars {
            Some(ceil_div(count as nat, max_bars as nat) as usize)
        } else {
            None::<usize>
        }),
{
    if count > max_bars {
        Some(div_ceil(count as u64, max_bars as u64) as usize)
    } else {
        None
    }
}

} // verus!
