//! The verdict of a baseline comparison, one metric at a time.
//!
//! Whether a value rose, fell, started from zero or moved past the allowed
//! percentage is measured by the caller on the metric's numbers; the
//! library decides what that movement means.

use vstd::prelude::*;

verus! {

/// How a metric compares with its baseline.
#[derive(Clone, Copy, Debug, PartialEq, Eq, Structural)]
pub enum DiffStatus {
    /// Within the allowed change.
    Acceptable,
    Improved,
    Regression,
    /// The baseline was zero and the value is now above it.
    New,
}

/// How a metric moved from its baseline to its current value.
#[derive(Clone, Copy, Debug, PartialEq, Eq, Structural)]
pub struct Movement {
    /// The current value is above the baseline.
    pub rose: bool,
    /// The current value is below the baseline.
    pub fell: bool,
    /// The baseline is zero.
    pub from_zero: bool,
    /// The change in percent is above the allowed percentage.
    pub over_threshold: bool,
    /// The change in percent is below the negated allowed percentage.
    pub under_threshold: bool,
}

/// The verdict for a metric. Where any increase counts (`strict`), a rise
/// is a regression, or `New` from a zero baseline, and a fall is an
/// improvement; otherwise only a change past the allowed percentage counts.
pub open spec fn status_of(strict: bool, m: Movement) -> DiffStatus {
    if strict {
        if m.rose {
            if m.from_zero {
                DiffStatus::New
            } else {
                DiffStatus::Regression
            }
        } else if m.fell {
            DiffStatus::Improved
        } else {
            DiffStatus::Acceptable
        }
    } else if m.over_threshold {
        DiffStatus::Regression
    } else if m.under_threshold {
        DiffStatus::Improved
    } else {
        DiffStatus::Acceptable
    }
}

/// Whether a verdict fails the comparison.
pub open spec fn fails(s: DiffStatus) -> bool {
    s == DiffStatus::Regression || s == DiffStatus::New
}

/// How many of the verdicts fail.
pub open spec fn failures(s: Seq<DiffStatus>) -> nat
    decreases s.len(),
{
    if s.len() == 0 {
        0
    } else {
        failures(s.drop_last()) + if fails(s.last()) {
            1nat
        } else {
            0nat
        }
    }
}

/// The verdict for one metric.
pub fn diff_status(strict: bool, m: Movement) -> (r: DiffStatus)
    ensures
        r == status_of(strict, m),
{
    if strict {
        if m.rose {
            if m.from_zero {
                DiffStatus::New
            } else {
                DiffStatus::Regression
            }
        } else if m.fell {
            DiffStatus::Improved
        } else {
            DiffStatus::Acceptable
        }
    } else if m.over_threshold {
        DiffStatus::Regression
    } else if m.under_threshold {
        DiffStatus::Improved
    } else {
        DiffStatus::Acceptable
    }
}

/// Whether a verdict counts as a regression.
pub fn is_failure(s: DiffStatus) -> (r: bool)
    ensures
        r == fails(s),
{
    match s {
        DiffStatus::Regression | DiffStatus::New => true,
        _ => false,
    }
}

/// The number of verdicts that count as regressions.
pub fn count_regressions(statuses: &[DiffStatus]) -> (r: usize)
    ensures
        r == failures(statuses@),
{
    let mut n: usize = 0;
    let mut i: usize = 0;
    while i < statuses.len()
        invariant
            i <= statuses.len(),
            n == failures(statuses@.take(i as int)),
            n <= i,
        decreases statuses.len() - i,
    {
        proof {
            assert(statuses@.take(i + 1).drop_last() =~= statuses@.take(i as int));
        }
        if is_failure(statuses[i]) {
            n = n + 1;
        }
        i = i + 1;
    }
    proof {
        assert(statuses@.take(statuses@.len() as int) =~= statuses@);
    }
    n
}

/// A comparison fails on exactly those metrics that count as regressions:
/// a strict metric fails when it rose, and any other metric when it moved
/// past its allowed percentage.
pub proof fn law_failure_means_rise(strict: bool, m: Movement)
    ensures
        fails(status_of(strict, m)) <==> (if strict {
            m.rose
        } else {
            m.over_threshold
        }),
{
}

} // verus!
