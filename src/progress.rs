//! Synthetic progress for one item whose conversion gives no progress of its own.
use vstd::prelude::*;

verus! {

/// The progress span of an item: its size, or one unit when the size is 0.
pub open spec fn span_of(size: nat) -> nat {
    if size == 0 {
        1
    } else {
        size
    }
}

/// Offset within an item's span reached at `percent` percent.
pub open spec fn tick_offset(span: nat, percent: nat) -> nat {
    span * percent / 100
}

/// Percent after which the estimator stops on its own, short of completion.
pub const LAST_PERCENT: usize = 99;

/// A time-driven progress estimate over one item's span `[base, base + span)`.
/// Each tick advances one percent, from 1 up to 99; it never reaches the end
/// of the span, which only the orchestrator reports.
pub struct ProgressEstimator {
    pub base: usize,
    pub span: usize,
    /// The percent that the next tick reports.
    pub percent: usize,
    /// Set once the estimator was told to stop or ran out of percents.
    pub stopped: bool,
}

impl ProgressEstimator {
    pub open spec fn wf(&self) -> bool {
        &&& self.span >= 1
        &&& self.base + self.span <= usize::MAX
        &&& 1 <= self.percent <= LAST_PERCENT + 1
    }

    /// An estimator over `[base, base + span)` that starts at 1 percent.
    pub fn new(base: usize, span: usize) -> (r: ProgressEstimator)
        requires
            span >= 1,
            base + span <= usize::MAX,
        ensures
            r.wf(),
            r.base == base,
            r.span == span,
            r.percent == 1,
            !r.stopped,
    {
        ProgressEstimator { base, span, percent: 1, stopped: false }
    }

    /// The value that the orchestrator reports when the item is done.
    pub open spec fn terminal_value(&self) -> nat {
        (self.base + self.span) as nat
    }

    /// One tick. `running` is the cancellation flag read at this tick: once it
    /// is false, or once 99 percent were reported, no value comes out any more.
    pub fn tick(&mut self, running: bool) -> (r: Option<usize>)
        requires
            old(self).wf(),
        ensures
            final(self).wf(),
            final(self).base == old(self).base,
            final(self).span == old(self).span,
            old(self).stopped ==> r is None && *final(self) == *old(self),
            !old(self).stopped && running && old(self).percent <= LAST_PERCENT ==> r == Some(
                (old(self).base + tick_offset(old(self).span as nat, old(self).percent as nat)) as usize,
            ) && final(self).percent == old(self).percent + 1 && !final(self).stopped,
            !old(self).stopped && !(running && old(self).percent <= LAST_PERCENT) ==> r is None
                && final(self).stopped && final(self).percent == old(self).percent,
    {
        if self.stopped {
            return None;
        }
        if !running || self.percent > LAST_PERCENT {
            self.stopped = true;
            return None;
        }
        let p = self.percent;
        let s = self.span;
        proof {
            lemma_split_offset(s as nat, p as nat);
            assert((s % 100) * p <= 99 * 99) by (nonlinear_arith)
                requires
                    s % 100 <= 99,
                    p <= 99,
            ;
        }
        let offset = (s / 100) * p + (s % 100) * p / 100;
        self.percent = p + 1;
        Some(self.base + offset)
    }
}

proof fn lemma_split_offset(s: nat, p: nat)
    requires
        p < 100,
    ensures
        (s / 100) * p + (s % 100) * p / 100 == tick_offset(s, p),
        tick_offset(s, p) <= s,
        p > 0 ==> (s / 100) * p <= s,
{
    assert(s == 100 * (s / 100) + s % 100) by (nonlinear_arith);
    assert(s * p == 100 * ((s / 100) * p) + (s % 100) * p) by (nonlinear_arith)
        requires
            s == 100 * (s / 100) + s % 100,
    ;
    assert((100 * ((s / 100) * p) + (s % 100) * p) / 100 == (s / 100) * p + (s % 100) * p / 100)
        by (nonlinear_arith);
    assert(s * p / 100 <= s) by (nonlinear_arith)
        requires
            p < 100,
    ;
    assert((s / 100) * p <= s) by (nonlinear_arith)
        requires
            p < 100,
            s == 100 * (s / 100) + s % 100,
    ;
}

/// Every value the estimator can report lies inside the item's span and below
/// the orchestrator's terminal value for the item, so the terminal value
/// exceeds every synthetic one.
pub proof fn lemma_tick_below_terminal(base: nat, span: nat, percent: nat)
    requires
        span >= 1,
        1 <= percent <= LAST_PERCENT,
    ensures
        tick_offset(span, percent) < span,
        base <= base + tick_offset(span, percent) < base + span,
{
    assert(span * percent < span * 100) by (nonlinear_arith)
        requires
            span >= 1,
            percent < 100,
    ;
    assert(span * percent / 100 < span) by (nonlinear_arith)
        requires
            span * percent < span * 100,
    ;
}

/// Ticks never go back: a later percent reports at least as much.
pub proof fn lemma_ticks_monotone(span: nat, p: nat, q: nat)
    requires
        p <= q,
    ensures
        tick_offset(span, p) <= tick_offset(span, q),
{
    assert(span * p <= span * q) by (nonlinear_arith)
        requires
            p <= q,
    ;
    assert(span * p / 100 <= span * q / 100) by (nonlinear_arith)
        requires
            span * p <= span * q,
    ;
}

} // verus!
