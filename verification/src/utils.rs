//! Fixed-point share math: percentage-of-total with floor rounding, and
//! checked summation of basis points.

use vstd::prelude::*;

use vstd::arithmetic::div_mod::{
    lemma_div_is_ordered, lemma_div_multiples_vanish, lemma_fundamental_div_mod,
    lemma_remainder_lower,
};
use vstd::arithmetic::mul::{
    lemma_mul_inequality, lemma_mul_is_commutative, lemma_mul_is_distributive_add_other_way,
    lemma_mul_nonnegative,
};

use crate::constants::BPS_DENOMINATOR;
use crate::state::{Recipient, RecipientInput};

verus! {

/// The share of `total` that `bps` basis points select, rounded down.
pub open spec fn share_of(total: int, bps: int) -> int {
    total * bps / (BPS_DENOMINATOR as int)
}

/// Sum of the first `n` recipients' basis points.
pub open spec fn sum_bps_to(s: Seq<Recipient>, n: int) -> int
    decreases n,
{
    if n <= 0 {
        0
    } else {
        sum_bps_to(s, n - 1) + s[n - 1].percentage_bps as int
    }
}

/// Sum of all recipients' basis points.
pub open spec fn sum_bps(s: Seq<Recipient>) -> int {
    sum_bps_to(s, s.len() as int)
}

/// Sum of the first `n` input entries' basis points.
pub open spec fn sum_input_bps_to(s: Seq<RecipientInput>, n: int) -> int
    decreases n,
{
    if n <= 0 {
        0
    } else {
        sum_input_bps_to(s, n - 1) + s[n - 1].percentage_bps as int
    }
}

/// Sum of all input entries' basis points.
pub open spec fn sum_input_bps(s: Seq<RecipientInput>) -> int {
    sum_input_bps_to(s, s.len() as int)
}

/// Basis-point sums only grow as more entries are taken.
pub proof fn lemma_sum_bps_to_monotone(s: Seq<Recipient>, i: int, j: int)
    requires
        0 <= i <= j,
    ensures
        sum_bps_to(s, i) <= sum_bps_to(s, j),
    decreases j - i,
{
    if i < j {
        lemma_sum_bps_to_monotone(s, i, j - 1);
    }
}

/// Basis-point sums of input entries only grow as more entries are taken.
pub proof fn lemma_sum_input_bps_to_monotone(s: Seq<RecipientInput>, i: int, j: int)
    requires
        0 <= i <= j,
    ensures
        sum_input_bps_to(s, i) <= sum_input_bps_to(s, j),
    decreases j - i,
{
    if i < j {
        lemma_sum_input_bps_to_monotone(s, i, j - 1);
    }
}

/// Two tables with pointwise-equal shares have equal partial sums.
pub proof fn lemma_sum_bps_matches_inputs(rs: Seq<Recipient>, inputs: Seq<RecipientInput>, n: int)
    requires
        0 <= n <= rs.len(),
        n <= inputs.len(),
        forall|i: int| 0 <= i < n ==> (#[trigger] rs[i]).percentage_bps == inputs[i].percentage_bps,
    ensures
        sum_bps_to(rs, n) == sum_input_bps_to(inputs, n),
    decreases n,
{
    if n > 0 {
        lemma_sum_bps_matches_inputs(rs, inputs, n - 1);
    }
}

/// A share is never negative and never exceeds the total (for shares within
/// the basis-point scale).
pub proof fn lemma_share_of_le_total(total: int, bps: int)
    requires
        total >= 0,
        0 <= bps <= BPS_DENOMINATOR,
    ensures
        0 <= share_of(total, bps) <= total,
{
    let d = BPS_DENOMINATOR as int;
    lemma_mul_nonnegative(total, bps);
    vstd::arithmetic::div_mod::lemma_div_pos_is_pos(total * bps, d);
    lemma_mul_inequality(bps, d, total);
    lemma_mul_is_commutative(total, bps);
    lemma_mul_is_commutative(total, d);
    lemma_div_is_ordered(total * bps, total * d, d);
    lemma_div_multiples_vanish(total, d);
}

/// A share of a nonnegative total is never negative.
pub proof fn lemma_share_of_nonneg(total: int, bps: int)
    requires
        total >= 0,
        bps >= 0,
    ensures
        share_of(total, bps) >= 0,
{
    lemma_mul_nonnegative(total, bps);
    vstd::arithmetic::div_mod::lemma_div_pos_is_pos(total * bps, BPS_DENOMINATOR as int);
}

/// A larger basis-point budget never selects a smaller share.
pub proof fn lemma_share_of_monotone_bps(total: int, b1: int, b2: int)
    requires
        total >= 0,
        0 <= b1 <= b2,
    ensures
        share_of(total, b1) <= share_of(total, b2),
{
    let d = BPS_DENOMINATOR as int;
    lemma_mul_inequality(b1, b2, total);
    lemma_mul_is_commutative(total, b1);
    lemma_mul_is_commutative(total, b2);
    lemma_div_is_ordered(total * b1, total * b2, d);
}

/// Floor rounding loses value, never creates it: splitting a basis-point
/// budget in two never pays out more than the undivided budget would.
pub proof fn lemma_share_of_superadd(total: int, b1: int, b2: int)
    requires
        total >= 0,
        b1 >= 0,
        b2 >= 0,
    ensures
        share_of(total, b1) + share_of(total, b2) <= share_of(total, b1 + b2),
{
    let d = BPS_DENOMINATOR as int;
    let q1 = total * b1 / d;
    let q2 = total * b2 / d;
    lemma_fundamental_div_mod(total * b1, d);
    lemma_fundamental_div_mod(total * b2, d);
    lemma_remainder_lower(total * b1, d);
    lemma_remainder_lower(total * b2, d);
    lemma_mul_nonnegative(total, b1);
    lemma_mul_nonnegative(total, b2);
    assert(d * q1 + d * q2 <= total * b1 + total * b2);
    lemma_mul_is_distributive_add_other_way(total, b1, b2);
    assert(d * (q1 + q2) == d * q1 + d * q2) by {
        vstd::arithmetic::mul::lemma_mul_is_distributive_add(d, q1, q2);
    }
    assert(d * (q1 + q2) <= total * (b1 + b2));
    lemma_mul_is_commutative(d, q1 + q2);
    lemma_div_is_ordered((q1 + q2) * d, total * (b1 + b2), d);
    vstd::arithmetic::div_mod::lemma_div_by_multiple(q1 + q2, d);
}

/// The recipient's share of `total`: `floor(total * percentage_bps / 10000)`,
/// or `None` where the result cannot be represented.
pub fn calculate_recipient_amount(total: u64, percentage_bps: u16) -> (r: Option<u64>)
    ensures
        share_of(total as int, percentage_bps as int) <= u64::MAX
            ==> r == Some(share_of(total as int, percentage_bps as int) as u64),
        share_of(total as int, percentage_bps as int) > u64::MAX ==> r is None,
{
    proof {
        lemma_mul_nonnegative(total as int, percentage_bps as int);
        vstd::arithmetic::mul::lemma_mul_upper_bound(
            total as int,
            u64::MAX as int,
            percentage_bps as int,
            u16::MAX as int,
        );
    }
    let wide: u128 = (total as u128) * (percentage_bps as u128);
    let q: u128 = wide / (BPS_DENOMINATOR as u128);
    if q <= u64::MAX as u128 {
        Some(q as u64)
    } else {
        None
    }
}

/// Sum of all entries' basis points, or `None` on `u32` overflow (which
/// cannot happen for admissible tables of at most 20 entries, but the check
/// must exist).
pub fn sum_recipient_bps(recipients: &[Recipient]) -> (r: Option<u32>)
    ensures
        sum_bps(recipients@) <= u32::MAX ==> r == Some(sum_bps(recipients@) as u32),
        sum_bps(recipients@) > u32::MAX ==> r is None,
{
    let n = recipients.len();
    let mut acc: u32 = 0;
    let mut i: usize = 0;
    while i < n
        invariant
            0 <= i <= n,
            n == recipients@.len(),
            acc == sum_bps_to(recipients@, i as int),
        decreases n - i,
    {
        let bps = recipients[i].percentage_bps;
        if acc > u32::MAX - (bps as u32) {
            proof {
                lemma_sum_bps_to_monotone(recipients@, i as int + 1, n as int);
            }
            return None;
        }
        acc = acc + (bps as u32);
        i = i + 1;
    }
    Some(acc)
}

} // verus!
