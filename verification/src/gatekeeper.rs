//! The streaming gatekeeper: decides, for one candidate observation and the
//! series so far, whether appending the candidate is acceptable.
//!
//! The gatekeeper looks only at the candidate and the few observations before
//! it, and its five tests are deliberately not those of the audit catalog: it
//! already refuses at two standard deviations, measures the jump between
//! neighbours instead of opposite extremes, judges a five-point run against one
//! percent of the target, and has no trend test. A series that the gatekeeper
//! has let through may therefore still fail the audit, and the reverse.

use vstd::prelude::*;
use crate::rules::{
    above, below, beyond, run_above, run_below, same_side_run, window_above, window_below, RuleError,
};

verus! {

/// `x` lies above `target` by more than one percent of `target`.
pub open spec fn far_above(x: i64, target: int) -> bool {
    x as int > target && 100 * (x as int - target) > target
}

/// `x` lies below `target` by more than one percent of `target`.
pub open spec fn far_below(x: i64, target: int) -> bool {
    (x as int) < target && 100 * (target - x as int) > target
}

/// The `len` observations from `start` on all lie on one side of `target`, each
/// more than one percent of `target` away from it.
pub open spec fn far_run(s: Seq<i64>, start: int, len: int, target: int) -> bool {
    (forall|j: int| start <= j < start + len ==> far_above(#[trigger] s[j], target)) || (forall|
        j: int,
    |
        start <= j < start + len ==> far_below(#[trigger] s[j], target))
}

/// The candidate differs from the observation before it by more than `margin`.
pub open spec fn jump_beyond(previous: i64, candidate: i64, margin: int) -> bool {
    candidate as int - previous as int > margin || previous as int - candidate as int > margin
}

/// The gatekeeper refuses `candidate` as the next observation after `s`.
///
/// With `n` observations so far, it refuses when
/// - the candidate lies more than two standard deviations from the target;
/// - `n >= 1`, and the last observation and the candidate both lie more than
///   two standard deviations from the target on the same side;
/// - `n >= 1`, and the candidate differs from the last observation by more than
///   four standard deviations;
/// - `n >= 4`, and the last four observations and the candidate all lie on one
///   side of the target, each more than one percent of the target away;
/// - `n >= 9`, and the last nine observations and the candidate, ten in all,
///   lie strictly on one side of the target.
pub open spec fn gate_rejects(s: Seq<i64>, candidate: i64, target: int, std_dev: int) -> bool {
    let n = s.len() as int;
    let extended = s.push(candidate);
    ||| beyond(candidate, target, 2 * std_dev)
    ||| (n >= 1 && same_side_run(extended, n - 1, 2, target, 2 * std_dev))
    ||| (n >= 1 && jump_beyond(s[n - 1], candidate, 4 * std_dev))
    ||| (n >= 4 && far_run(extended, n - 4, 5, target))
    ||| (n >= 9 && same_side_run(extended, n - 9, 10, target, 0))
}

/// A run that ends with an appended observation is a run of the observations
/// before it together with the appended one.
proof fn lemma_run_ends_with_candidate(s: Seq<i64>, c: i64, k: int, target: int, margin: int)
    requires
        0 <= k <= s.len(),
    ensures
        run_above(s.push(c), s.len() - k, k + 1, target, margin) == (run_above(
            s,
            s.len() - k,
            k,
            target,
            margin,
        ) && above(c, target, margin)),
        run_below(s.push(c), s.len() - k, k + 1, target, margin) == (run_below(
            s,
            s.len() - k,
            k,
            target,
            margin,
        ) && below(c, target, margin)),
        (forall|j: int| s.len() - k <= j < s.len() + 1 ==> far_above(#[trigger] s.push(c)[j], target))
            == ((forall|j: int| s.len() - k <= j < s.len() ==> far_above(#[trigger] s[j], target))
            && far_above(c, target)),
        (forall|j: int| s.len() - k <= j < s.len() + 1 ==> far_below(#[trigger] s.push(c)[j], target))
            == ((forall|j: int| s.len() - k <= j < s.len() ==> far_below(#[trigger] s[j], target))
            && far_below(c, target)),
{
    let e = s.push(c);
    let n = s.len() as int;
    assert(e[n] == c);
    assert forall|j: int| n - k <= j < n implies #[trigger] e[j] == s[j] by {}
    if run_above(s, n - k, k, target, margin) && above(c, target, margin) {
        assert forall|j: int| n - k <= j < n - k + (k + 1) implies above(#[trigger] e[j], target, margin) by {
            if j < n {
                assert(e[j] == s[j]);
            }
        }
    }
    if run_above(e, n - k, k + 1, target, margin) {
        assert forall|j: int| n - k <= j < n - k + k implies above(#[trigger] s[j], target, margin) by {
            assert(e[j] == s[j]);
        }
    }
    if run_below(s, n - k, k, target, margin) && below(c, target, margin) {
        assert forall|j: int| n - k <= j < n - k + (k + 1) implies below(#[trigger] e[j], target, margin) by {
            if j < n {
                assert(e[j] == s[j]);
            }
        }
    }
    if run_below(e, n - k, k + 1, target, margin) {
        assert forall|j: int| n - k <= j < n - k + k implies below(#[trigger] s[j], target, margin) by {
            assert(e[j] == s[j]);
        }
    }
    if (forall|j: int| n - k <= j < n ==> far_above(#[trigger] s[j], target)) && far_above(c, target) {
        assert forall|j: int| n - k <= j < n + 1 implies far_above(#[trigger] e[j], target) by {
            if j < n {
                assert(e[j] == s[j]);
            }
        }
    }
    if forall|j: int| n - k <= j < n + 1 ==> far_above(#[trigger] e[j], target) {
        assert forall|j: int| n - k <= j < n implies far_above(#[trigger] s[j], target) by {
            assert(e[j] == s[j]);
        }
    }
    if (forall|j: int| n - k <= j < n ==> far_below(#[trigger] s[j], target)) && far_below(c, target) {
        assert forall|j: int| n - k <= j < n + 1 implies far_below(#[trigger] e[j], target) by {
            if j < n {
                assert(e[j] == s[j]);
            }
        }
    }
    if forall|j: int| n - k <= j < n + 1 ==> far_below(#[trigger] e[j], target) {
        assert forall|j: int| n - k <= j < n implies far_below(#[trigger] s[j], target) by {
            assert(e[j] == s[j]);
        }
    }
}

/// Decides whether the `len` observations from `start` on all lie far above the
/// target (`high`), or all far below it (`!high`).
fn window_far(data: &[i64], start: usize, len: usize, target: i64, high: bool) -> (found: bool)
    requires
        start + len <= data@.len(),
    ensures
        high ==> found == (forall|j: int|
            start <= j < start + len ==> far_above(#[trigger] data@[j], target as int)),
        !high ==> found == (forall|j: int|
            start <= j < start + len ==> far_below(#[trigger] data@[j], target as int)),
{
    let n = data.len();
    let end: usize = start + len;
    let mut j: usize = start;
    while j < end
        invariant
            start <= j <= end == start + len,
            end <= n == data@.len(),
            high ==> forall|k: int| start <= k < j ==> far_above(#[trigger] data@[k], target as int),
            !high ==> forall|k: int| start <= k < j ==> far_below(#[trigger] data@[k], target as int),
        decreases end - j,
    {
        let d: i128 = data[j] as i128 - target as i128;
        if high {
            if !(d > 0 && 100 * d > target as i128) {
                return false;
            }
        } else {
            if !(d < 0 && 100 * (-d) > target as i128) {
                return false;
            }
        }
        j += 1;
    }
    true
}

/// Decides whether `value` may be appended to `data`.
///
/// A standard deviation of zero or less is refused. Otherwise the answer is
/// `true` (accept) exactly when none of the gatekeeper's five tests refuses the
/// candidate. Neither `data` nor anything else is changed.
pub fn westgard_check(data: &[i64], value: i64, target: i64, std_dev: i64) -> (out: Result<bool, RuleError>)
    ensures
        out is Err <==> std_dev <= 0,
        out matches Err(e) ==> e == RuleError::NonPositiveStdDev,
        out matches Ok(accepted) ==> accepted == !gate_rejects(
            data@,
            value,
            target as int,
            std_dev as int,
        ),
{
    if std_dev <= 0 {
        return Err(RuleError::NonPositiveStdDev);
    }
    let n = data.len();
    let ghost extended = data@.push(value);
    let two_sd: i128 = 2 * (std_dev as i128);
    let d: i128 = value as i128 - target as i128;
    let value_high = d > two_sd;
    let value_low = -d > two_sd;
    if value_high || value_low {
        return Ok(false);
    }
    if n >= 1 {
        let prev = data[n - 1];
        assert(!same_side_run(extended, n - 1, 2, target as int, 2 * std_dev)) by {
            assert(extended[n as int] == value);
        }
        let jump: i128 = value as i128 - prev as i128;
        if jump > 4 * (std_dev as i128) || -jump > 4 * (std_dev as i128) {
            return Ok(false);
        }
    }
    if n >= 4 {
        let high = d > 0;
        let candidate_far = if high {
            100 * d > target as i128
        } else {
            d < 0 && 100 * (-d) > target as i128
        };
        let run = candidate_far && window_far(data, n - 4, 4, target, high);
        proof {
            lemma_run_ends_with_candidate(data@, value, 4, target as int, 0);
        }
        if run {
            return Ok(false);
        }
    }
    if n >= 9 {
        let run = if d > 0 {
            window_above(data, n - 9, 9, target, 0)
        } else if d < 0 {
            window_below(data, n - 9, 9, target, 0)
        } else {
            false
        };
        proof {
            lemma_run_ends_with_candidate(data@, value, 9, target as int, 0);
        }
        if run {
            return Ok(false);
        }
    }
    Ok(true)
}

} // verus!
