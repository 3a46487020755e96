//! Sync metrics: the sync percentage, the blocks-behind count, and the
//! three-tier severity bands for both blocks-behind and health.

use crate::numbers::dec_str;
use crate::status::Health;
use vstd::arithmetic::div_mod::{lemma_div_is_ordered, lemma_fundamental_div_mod, lemma_mod_bound};
use vstd::prelude::*;
use vstd::string::StringExecFns;

verus! {

/// Division rounding toward negative infinity, for any nonzero divisor.
pub open spec fn floor_div(a: int, b: int) -> int
    recommends
        b != 0,
{
    if b > 0 {
        a / b
    } else {
        (-a) / (-b)
    }
}

/// The sync percentage as a number: the share of the blocks from the start
/// block to the chain head that have been processed, rounded down and
/// clamped to at most 100. Upstream data races can transiently put the
/// latest block past the head, so values above 100 are clamped rather than
/// reported.
pub open spec fn sync_percent(start: int, latest: int, head: int) -> int
    recommends
        head != start,
{
    let raw = floor_div((latest - start) * 100, head - start);
    if raw > 100 {
        100
    } else {
        raw
    }
}

/// The three characters of the "not available" marker.
pub open spec fn na_str() -> Seq<char> {
    seq!['N', '/', 'A']
}

/// What the sync-percentage text reads: the "not available" marker when the
/// latest block carries the absent-sentinel zero, else the clamped
/// percentage followed by a percent sign.
pub open spec fn sync_percentage_str(start: int, latest: int, head: int) -> Seq<char> {
    if latest == 0 {
        na_str()
    } else {
        dec_str(sync_percent(start, latest, head)).push('%')
    }
}

/// Euclidean division on wide integers, for a positive divisor (where it
/// agrees with rounding toward negative infinity).
fn div_floor_pos_i128(a: i128, b: i128) -> (q: i128)
    requires
        0 < b,
        -0x10_0000_0000_0000_0000_0000i128 <= a <= 0x10_0000_0000_0000_0000_0000i128,
    ensures
        q == a as int / b as int,
        -0x20_0000_0000_0000_0000_0000 <= q <= 0x20_0000_0000_0000_0000_0000,
{
    proof {
        let qq = a as int / b as int;
        let rr = a as int % b as int;
        lemma_fundamental_div_mod(a as int, b as int);
        lemma_mod_bound(a as int, b as int);
        assert(-0x20_0000_0000_0000_0000_0000 <= qq <= 0x20_0000_0000_0000_0000_0000)
            by (nonlinear_arith)
            requires
                a as int == b as int * qq + rr,
                0 <= rr < b as int,
                1 <= b as int,
                -0x10_0000_0000_0000_0000_0000 <= a as int <= 0x10_0000_0000_0000_0000_0000,
        ;
    }
    match a.checked_div_euclid(b) {
        Some(q) => q,
        None => {
            // unreachable: the quotient was just shown to fit
            proof {
                assert(false);
            }
            0
        },
    }
}

/// Division rounding toward negative infinity on wide integers.
fn floor_div_i128(a: i128, b: i128) -> (q: i128)
    requires
        b != 0,
        -0x10_0000_0000_0000_0000_0000i128 <= a <= 0x10_0000_0000_0000_0000_0000i128,
        -0x10_0000_0000_0000_0000_0000i128 <= b <= 0x10_0000_0000_0000_0000_0000i128,
    ensures
        q == floor_div(a as int, b as int),
        -0x20_0000_0000_0000_0000_0000 <= q <= 0x20_0000_0000_0000_0000_0000,
{
    if b > 0 {
        div_floor_pos_i128(a, b)
    } else {
        div_floor_pos_i128(-a, -b)
    }
}

/// The sync percentage as display text. With the latest block at the
/// absent-sentinel zero the result is the "not available" marker, whatever
/// the other arguments hold; otherwise the percentage of processed blocks,
/// rounded down, clamped to at most 100, with a percent sign appended.
/// A zero denominator (start equal to head) is excluded by contract; the
/// caller reports it as an input error instead.
pub fn get_sync_percentage(start_block: i64, latest_block: i64, chain_head_block: i64) -> (r:
    String)
    requires
        latest_block != 0 ==> chain_head_block != start_block,
    ensures
        r@ == sync_percentage_str(start_block as int, latest_block as int, chain_head_block as int),
{
    if latest_block == 0 {
        let r = String::from_str("N/A");
        proof {
            reveal_strlit("N/A");
            assert(r@ =~= na_str());
        }
        return r;
    }
    let num: i128 = (latest_block as i128 - start_block as i128) * 100;
    let den: i128 = chain_head_block as i128 - start_block as i128;
    let raw = floor_div_i128(num, den);
    let clamped: i128 = if raw > 100 {
        100
    } else {
        raw
    };
    let mut s = crate::numbers::i128_to_string(clamped);
    s.append("%");
    proof {
        reveal_strlit("%");
        assert(s@ =~= sync_percentage_str(
            start_block as int,
            latest_block as int,
            chain_head_block as int,
        ));
    }
    s
}

/// How many blocks the indexer trails the chain head. The raw signed value
/// is passed through: it is negative when the latest block transiently
/// exceeds the head, and no clamping is applied.
pub fn blocks_behind(latest_block: i64, chain_head_block: i64) -> (r: i64)
    requires
        0 <= latest_block,
        0 <= chain_head_block,
    ensures
        r == chain_head_block - latest_block,
{
    chain_head_block - latest_block
}

/// The three-tier severity used for presentation.
#[derive(Clone, Copy, Debug, PartialEq, Eq, Structural)]
pub enum Severity {
    Nominal,
    Degraded,
    Critical,
}

/// The severity band of a blocks-behind count: below 30 nominal, from 30
/// below 1000 degraded, from 1000 critical.
pub open spec fn blocks_behind_band(behind: int) -> Severity {
    if behind < 30 {
        Severity::Nominal
    } else if behind < 1000 {
        Severity::Degraded
    } else {
        Severity::Critical
    }
}

/// Bands a blocks-behind count by the 30/1000 thresholds.
pub fn blocks_behind_severity(behind: i64) -> (s: Severity)
    ensures
        s == blocks_behind_band(behind as int),
{
    if behind < 30 {
        Severity::Nominal
    } else if behind < 1000 {
        Severity::Degraded
    } else {
        Severity::Critical
    }
}

/// The severity tier of an upstream health value. This signal is reported
/// beside the blocks-behind band, never merged with it.
pub open spec fn health_band(h: Health) -> Severity {
    match h {
        Health::healthy => Severity::Nominal,
        Health::unhealthy => Severity::Degraded,
        Health::failed => Severity::Critical,
    }
}

/// Maps upstream health onto the same three-tier severity.
pub fn health_severity(health: &Health) -> (s: Severity)
    ensures
        s == health_band(*health),
{
    match health {
        Health::healthy => Severity::Nominal,
        Health::unhealthy => Severity::Degraded,
        Health::failed => Severity::Critical,
    }
}

/// The sync percentage is monotonically non-decreasing in the latest block
/// for a fixed start block strictly below the chain head, and is clamped
/// at 100.
pub proof fn lemma_sync_percent_monotonic(start: int, latest1: int, latest2: int, head: int)
    requires
        start < head,
        latest1 <= latest2,
    ensures
        sync_percent(start, latest1, head) <= sync_percent(start, latest2, head),
        sync_percent(start, latest2, head) <= 100,
{
    lemma_div_is_ordered((latest1 - start) * 100, (latest2 - start) * 100, head - start);
}

} // verus!
