//! The vesting curve and the schedules of periods built from it.
use vstd::arithmetic::div_mod::{
    lemma_div_is_ordered, lemma_div_multiples_vanish, lemma_fundamental_div_mod,
    lemma_fundamental_div_mod_converse,
};
use vstd::arithmetic::mul::lemma_mul_is_commutative;
use vstd::prelude::*;

verus! {

/// Amount vested after `time` seconds: nothing before the cliff, everything from the
/// horizon on, and in between the linear share `total * time / duration`, rounded down.
pub open spec fn vested(total: int, duration: int, cliff: int, time: int) -> int {
    if time < cliff {
        0
    } else if time >= duration {
        total
    } else {
        (total * time) / duration
    }
}

/// Amount vested after `time` seconds, computed exactly in integers.
pub fn vested_amount_at(
    total_amount: u128,
    duration: u64,
    cliff_duration: u64,
    time: u64,
) -> (r: u128)
    ensures
        r == vested(total_amount as int, duration as int, cliff_duration as int, time as int),
{
    if time < cliff_duration {
        0
    } else if time >= duration {
        total_amount
    } else {
        let d = duration as u128;
        let whole = total_amount / d;
        let rest = total_amount % d;
        proof {
            lemma_linear_split(total_amount as int, d as int, time as int);
        }
        whole * (time as u128) + rest * (time as u128) / d
    }
}

/// The linear share `total * t / d` is the sum of the share of the whole multiples of `d`
/// in `total` and that of the remainder, and neither product leaves the range of `u128`.
proof fn lemma_linear_split(total: int, d: int, t: int)
    requires
        0 <= total,
        0 <= t < d,
        d <= u64::MAX,
    ensures
        (total / d) * t + ((total % d) * t) / d == (total * t) / d,
        (total % d) * t <= u128::MAX,
        (total / d) * t <= total,
        (total * t) / d <= total,
{
    let q = total / d;
    let r = total % d;
    lemma_fundamental_div_mod(total, d);
    assert(total * t == (q * t) * d + r * t) by (nonlinear_arith)
        requires
            total == d * q + r,
    ;
    assert(0 <= r * t <= u128::MAX) by (nonlinear_arith)
        requires
            0 <= r < d,
            0 <= t < d,
            d <= u64::MAX,
    ;
    assert(0 <= q) by (nonlinear_arith)
        requires
            q == total / d,
            0 <= total,
            0 < d,
    ;
    lemma_div_plus_mul(q * t, r * t, d);
    assert(q * t <= total) by (nonlinear_arith)
        requires
            total == d * q + r,
            0 <= r,
            0 <= q,
            0 <= t < d,
    ;
    assert(total * t <= total * d) by (nonlinear_arith)
        requires
            0 <= total,
            0 <= t < d,
    ;
    lemma_div_is_ordered(total * t, total * d, d);
    lemma_div_multiples_vanish(total, d);
    lemma_mul_is_commutative(total, d);
}

/// `(a * d + b) / d == a + b / d` for a positive divisor.
proof fn lemma_div_plus_mul(a: int, b: int, d: int)
    requires
        0 < d,
        0 <= a,
        0 <= b,
    ensures
        (a * d + b) / d == a + b / d,
{
    lemma_fundamental_div_mod(b, d);
    let bq = b / d;
    let br = b % d;
    assert(a * d + b == (a + bq) * d + br) by (nonlinear_arith)
        requires
            b == d * bq + br,
    ;
    lemma_fundamental_div_mod_converse(a * d + b, d, a + bq, br);
}

/// An amount of tokens in one denomination.
#[derive(Clone, Debug)]
pub struct Token {
    /// Denomination of the amount.
    pub denom: String,
    /// Number of units.
    pub amount: u128,
}

/// One disbursement: the time since the start of vesting at which it falls, and the
/// amount released since the previous one.
#[derive(Clone, Debug)]
pub struct Period {
    /// Elapsed seconds since the start of vesting.
    pub length: u64,
    /// Amount released in this period.
    pub amount: Token,
}

/// The (elapsed seconds, amount) pairs of a list of periods.
pub open spec fn released_pairs(periods: Seq<Period>) -> Seq<(int, int)> {
    periods.map_values(|p: Period| (p.length as int, p.amount.amount as int))
}

/// Every period of the list is in the denomination `denom`.
pub open spec fn all_in_denom(periods: Seq<Period>, denom: Seq<char>) -> bool {
    forall|k: int| 0 <= k < periods.len() ==> (#[trigger] periods[k]).amount.denom@ == denom
}

/// Why a schedule cannot be built.
#[derive(Clone, Copy, Debug, PartialEq, Eq, Structural)]
pub enum ScheduleError {
    /// The interval between periods is zero.
    ZeroInterval,
}

/// Amount vested at the end of period `n`, that is after `n` whole intervals.
pub open spec fn vested_after(total: int, interval: int, duration: int, cliff: int, n: int) -> int {
    vested(total, duration, cliff, interval * n)
}

/// Periods `1..=n` of the schedule that starts at the first interval and leaves out every
/// period that releases nothing, as pairs (elapsed seconds, amount released in the period).
pub open spec fn plain_schedule(total: int, interval: int, duration: int, cliff: int, n: nat) -> Seq<
    (int, int),
>
    decreases n,
{
    if n == 0 {
        seq![]
    } else {
        let before = plain_schedule(total, interval, duration, cliff, (n - 1) as nat);
        let last = if n == 1 {
            0
        } else {
            vested_after(total, interval, duration, cliff, n - 1)
        };
        let token = vested_after(total, interval, duration, cliff, n as int) - last;
        if token == 0 {
            before
        } else {
            before.push((interval * n, token))
        }
    }
}

/// Index of the first period of the schedule that skips the periods before the cliff.
pub open spec fn first_after_cliff(interval: int, cliff: int) -> int {
    cliff / interval + 1
}

/// Periods from the first after the cliff through period `n`, every one of them kept, as
/// pairs (elapsed seconds, amount released in the period). The first releases all that
/// has vested by its end.
pub open spec fn cliff_schedule(total: int, interval: int, duration: int, cliff: int, n: nat) -> Seq<
    (int, int),
>
    decreases n,
{
    if n == 0 || n < first_after_cliff(interval, cliff) {
        seq![]
    } else {
        let before = cliff_schedule(total, interval, duration, cliff, (n - 1) as nat);
        let last = if n == first_after_cliff(interval, cliff) {
            0
        } else {
            vested_after(total, interval, duration, cliff, n - 1)
        };
        before.push((interval * n, vested_after(total, interval, duration, cliff, n as int) - last))
    }
}

/// Sum of the amounts of a schedule.
pub open spec fn total_released(s: Seq<(int, int)>) -> int
    decreases s.len(),
{
    if s.len() == 0 {
        0
    } else {
        total_released(s.drop_last()) + s.last().1
    }
}

/// The vesting curve never decreases: a later time has at least as much vested.
pub proof fn lemma_vested_monotone(
    total_amount: u128,
    duration: u64,
    cliff_duration: u64,
    t1: u64,
    t2: u64,
)
    requires
        t1 <= t2,
    ensures
        vested(total_amount as int, duration as int, cliff_duration as int, t1 as int) <= vested(
            total_amount as int,
            duration as int,
            cliff_duration as int,
            t2 as int,
        ),
{
    lemma_vested_monotone_int(total_amount as int, duration as int, cliff_duration as int, t1 as int, t2 as int);
}

proof fn lemma_vested_bounds(total: int, duration: int, cliff: int, t: int)
    requires
        0 <= total,
        0 <= t,
    ensures
        0 <= vested(total, duration, cliff, t) <= total,
{
    if t >= cliff && t < duration {
        assert(0 <= total * t <= total * duration) by (nonlinear_arith)
            requires
                0 <= total,
                0 <= t < duration,
        ;
        lemma_div_is_ordered(0, total * t, duration);
        lemma_div_is_ordered(total * t, total * duration, duration);
        lemma_mul_is_commutative(total, duration);
        lemma_div_multiples_vanish(total, duration);
    }
}

proof fn lemma_vested_monotone_int(total: int, duration: int, cliff: int, t1: int, t2: int)
    requires
        0 <= total,
        0 <= t1 <= t2,
    ensures
        vested(total, duration, cliff, t1) <= vested(total, duration, cliff, t2),
{
    lemma_vested_bounds(total, duration, cliff, t1);
    lemma_vested_bounds(total, duration, cliff, t2);
    if t1 >= cliff && t2 < duration {
        assert(total * t1 <= total * t2) by (nonlinear_arith)
            requires
                0 <= total,
                t1 <= t2,
        ;
        lemma_div_is_ordered(total * t1, total * t2, duration);
    }
}

/// Before the cliff nothing has vested.
pub proof fn lemma_vested_before_cliff(total_amount: u128, duration: u64, cliff_duration: u64, time: u64)
    requires
        time < cliff_duration,
    ensures
        vested(total_amount as int, duration as int, cliff_duration as int, time as int) == 0,
{
}

/// From the horizon on the whole amount has vested, for a cliff that ends by the horizon.
pub proof fn lemma_vested_at_horizon(total_amount: u128, duration: u64, cliff_duration: u64, time: u64)
    requires
        cliff_duration <= duration,
        time >= duration,
    ensures
        vested(total_amount as int, duration as int, cliff_duration as int, time as int)
            == total_amount,
{
}

proof fn lemma_push_released(s: Seq<(int, int)>, x: (int, int))
    ensures
        total_released(s.push(x)) == total_released(s) + x.1,
{
    assert(s.push(x).drop_last() =~= s);
}

/// The plain schedule through period `n` releases what has vested by the end of period `n`.
proof fn lemma_plain_released(total: int, interval: int, duration: int, cliff: int, n: nat)
    ensures
        total_released(plain_schedule(total, interval, duration, cliff, n)) == if n == 0 {
            0
        } else {
            vested_after(total, interval, duration, cliff, n as int)
        },
    decreases n,
{
    if n > 0 {
        lemma_plain_released(total, interval, duration, cliff, (n - 1) as nat);
        let before = plain_schedule(total, interval, duration, cliff, (n - 1) as nat);
        let last = if n == 1 {
            0
        } else {
            vested_after(total, interval, duration, cliff, n - 1)
        };
        let token = vested_after(total, interval, duration, cliff, n as int) - last;
        if token != 0 {
            lemma_push_released(before, (interval * n, token));
        }
    }
}

/// The cliff schedule through period `n` releases what has vested by the end of period `n`,
/// once `n` reaches the first period after the cliff.
proof fn lemma_cliff_released(total: int, interval: int, duration: int, cliff: int, n: nat)
    requires
        first_after_cliff(interval, cliff) >= 1,
    ensures
        total_released(cliff_schedule(total, interval, duration, cliff, n)) == if n == 0 || n
            < first_after_cliff(interval, cliff) {
            0
        } else {
            vested_after(total, interval, duration, cliff, n as int)
        },
    decreases n,
{
    if !(n == 0 || n < first_after_cliff(interval, cliff)) {
        lemma_cliff_released(total, interval, duration, cliff, (n - 1) as nat);
        let before = cliff_schedule(total, interval, duration, cliff, (n - 1) as nat);
        let last = if n == first_after_cliff(interval, cliff) {
            0
        } else {
            vested_after(total, interval, duration, cliff, n - 1)
        };
        lemma_push_released(
            before,
            (interval * n, vested_after(total, interval, duration, cliff, n as int) - last),
        );
    }
}

proof fn lemma_whole_periods(interval: int, duration: int)
    requires
        0 < interval,
        0 < duration,
        duration % interval == 0,
    ensures
        interval * (duration / interval) == duration,
        duration / interval >= 1,
{
    lemma_fundamental_div_mod(duration, interval);
    assert(duration / interval >= 1) by (nonlinear_arith)
        requires
            duration == interval * (duration / interval),
            0 < duration,
            0 < interval,
    ;
}

/// Over a horizon made of whole intervals, the schedule that leaves out empty periods
/// releases exactly the total amount.
pub proof fn lemma_plain_schedule_conserves(
    total_amount: u128,
    interval: u64,
    duration: u64,
    cliff_duration: u64,
)
    requires
        interval > 0,
        duration > 0,
        duration % interval == 0,
        cliff_duration <= duration,
    ensures
        total_released(
            plain_schedule(
                total_amount as int,
                interval as int,
                duration as int,
                cliff_duration as int,
                (duration / interval) as nat,
            ),
        ) == total_amount,
{
    lemma_whole_periods(interval as int, duration as int);
    lemma_plain_released(
        total_amount as int,
        interval as int,
        duration as int,
        cliff_duration as int,
        (duration / interval) as nat,
    );
}

/// Over a horizon made of whole intervals, with a cliff that ends before the horizon, the
/// schedule that starts after the cliff releases exactly the total amount.
pub proof fn lemma_cliff_schedule_conserves(
    total_amount: u128,
    interval: u64,
    duration: u64,
    cliff_duration: u64,
)
    requires
        interval > 0,
        duration % interval == 0,
        cliff_duration < duration,
    ensures
        total_released(
            cliff_schedule(
                total_amount as int,
                interval as int,
                duration as int,
                cliff_duration as int,
                (duration / interval) as nat,
            ),
        ) == total_amount,
{
    let i = interval as int;
    let d = duration as int;
    let m = d / i;
    lemma_whole_periods(i, d);
    assert(d - 1 == (m - 1) * i + (i - 1)) by (nonlinear_arith)
        requires
            i * m == d,
    ;
    lemma_fundamental_div_mod_converse(d - 1, i, m - 1, i - 1);
    lemma_div_is_ordered(cliff_duration as int, d - 1, i);
    lemma_div_is_ordered(0, cliff_duration as int, i);
    lemma_cliff_released(total_amount as int, i, d, cliff_duration as int, m as nat);
}

} // verus!
