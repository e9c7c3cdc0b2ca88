//! Timed transitions in whole steps.

use vstd::arithmetic::div_mod::lemma_div_is_ordered;
use vstd::prelude::*;

verus! {

/// The longest transition, 65535 tenths of a second, in milliseconds.
pub const MAX_DURATION_MS: u32 = 6_553_500;

/// Specification functions of transitions.
pub struct Transition;

impl Transition {
    /// Steps made of `span` after `elapsed` of `duration` milliseconds.
    pub open spec fn progress(span: int, elapsed: int, duration: int) -> int {
        span * elapsed / duration
    }

    /// Elapsed milliseconds at which the number of steps has next grown. One
    /// millisecond past the whole part, so that it is never early.
    pub open spec fn wake(span: int, elapsed: int, duration: int) -> int {
        (Self::progress(span, elapsed, duration) + 1) * duration / span + 1
    }

    /// Elapsed milliseconds at which to look again: the next step, or the end
    /// where there is none to make.
    pub open spec fn next(span: int, elapsed: int, duration: int) -> u32 {
        if span == 0 {
            duration as u32
        } else {
            Self::wake(span, elapsed, duration) as u32
        }
    }

    pub open spec fn distance(a: u8, b: u8) -> int {
        if a <= b {
            b - a
        } else {
            a - b
        }
    }

    /// A value on its way from `start` to `target`, at most 254.
    pub open spec fn linear(start: u8, target: u8, elapsed: int, duration: int) -> u8 {
        let step = Self::progress(Self::distance(start, target), elapsed, duration);
        let at = if start <= target {
            start + step
        } else {
            start - step
        };
        (if at > 254 {
            254
        } else {
            at
        }) as u8
    }

    /// Tenths of a second from `now_ms` to the end of a transition.
    pub open spec fn remaining(start_ms: u32, duration_ms: u32, now_ms: u32) -> int {
        let elapsed = now_ms.wrapping_sub(start_ms);
        if elapsed >= duration_ms {
            0
        } else {
            (duration_ms - elapsed) / 100
        }
    }
}

/// While a transition runs, fewer steps are made than there are.
pub proof fn law_progress_below_span(span: int, elapsed: int, duration: int)
    requires
        0 < span,
        0 <= elapsed < duration,
    ensures
        0 <= Transition::progress(span, elapsed, duration) < span,
{
    assert(0 <= span * elapsed < span * duration) by (nonlinear_arith)
        requires
            0 < span,
            0 <= elapsed < duration,
    ;
    assert(0 <= span * elapsed / duration < span) by (nonlinear_arith)
        requires
            0 <= span * elapsed < span * duration,
            0 < duration,
    ;
}

/// Steps only ever grow with time.
pub proof fn law_progress_monotonic(span: int, a: int, b: int, duration: int)
    requires
        0 <= span,
        0 <= a <= b,
        0 < duration,
    ensures
        Transition::progress(span, a, duration) <= Transition::progress(span, b, duration),
{
    assert(span * a <= span * b) by (nonlinear_arith)
        requires
            0 <= span,
            a <= b,
    ;
    lemma_div_is_ordered(span * a, span * b, duration);
}

/// Waking is in the future, and at most one millisecond after the transition's end.
pub proof fn law_wake_is_ahead(span: int, elapsed: int, duration: int)
    requires
        0 < span,
        0 <= elapsed < duration,
    ensures
        elapsed < Transition::wake(span, elapsed, duration) <= duration + 1,
        0 <= (Transition::progress(span, elapsed, duration) + 1) * duration <= span * duration,
{
    law_progress_below_span(span, elapsed, duration);
    let step = Transition::progress(span, elapsed, duration);
    assert(span * elapsed < (step + 1) * duration) by (nonlinear_arith)
        requires
            step == span * elapsed / duration,
            0 < duration,
    ;
    assert((step + 1) * duration <= span * duration) by (nonlinear_arith)
        requires
            step + 1 <= span,
            0 < duration,
    ;
    assert(elapsed <= (step + 1) * duration / span <= duration) by (nonlinear_arith)
        requires
            0 < span,
            span * elapsed < (step + 1) * duration,
            (step + 1) * duration <= span * duration,
    ;
    assert((step + 1) * duration >= 0) by (nonlinear_arith)
        requires
            step >= 0,
            0 < duration,
    ;
}

/// On waking another step has been made.
pub proof fn law_wake_finds_a_step(span: int, elapsed: int, duration: int)
    requires
        0 < span,
        0 <= elapsed < duration,
    ensures
        Transition::progress(span, Transition::wake(span, elapsed, duration), duration)
            > Transition::progress(span, elapsed, duration),
{
    let step = Transition::progress(span, elapsed, duration);
    let wake = Transition::wake(span, elapsed, duration);
    assert(span * wake >= (step + 1) * duration) by (nonlinear_arith)
        requires
            wake == (step + 1) * duration / span + 1,
            0 < span,
    ;
    assert(span * wake / duration >= step + 1) by (nonlinear_arith)
        requires
            span * wake >= (step + 1) * duration,
            0 < duration,
    ;
}

/// Nothing changes before the last millisecond ahead of waking.
pub proof fn law_nothing_changes_before_wake(span: int, elapsed: int, duration: int, t: int)
    requires
        0 < span,
        0 <= elapsed < duration,
        elapsed <= t < Transition::wake(span, elapsed, duration) - 1,
    ensures
        Transition::progress(span, t, duration) == Transition::progress(span, elapsed, duration),
{
    let step = Transition::progress(span, elapsed, duration);
    law_progress_monotonic(span, elapsed, t, duration);
    assert(span * t < (step + 1) * duration) by (nonlinear_arith)
        requires
            0 < span,
            t < (step + 1) * duration / span,
    ;
    assert(span * t / duration < step + 1) by (nonlinear_arith)
        requires
            span * t < (step + 1) * duration,
            0 < duration,
    ;
}

/// Steps made of `span` after `elapsed` of `duration` milliseconds.
pub fn progress(span: u32, elapsed: u32, duration: u32) -> (step: u32)
    requires
        span <= 255,
        elapsed < duration <= MAX_DURATION_MS,
    ensures
        step == Transition::progress(span as int, elapsed as int, duration as int),
        step <= span,
        span > 0 ==> step < span,
{
    assert(span * elapsed <= 255 * 6_553_500) by (nonlinear_arith)
        requires
            0 <= span <= 255,
            0 <= elapsed <= 6_553_500,
    ;
    proof {
        if span > 0 {
            law_progress_below_span(span as int, elapsed as int, duration as int);
        }
    }
    span * elapsed / duration
}

/// Elapsed milliseconds at which the number of steps has next grown.
pub fn wake_elapsed(span: u32, elapsed: u32, duration: u32) -> (wake: u32)
    requires
        0 < span <= 255,
        elapsed < duration <= MAX_DURATION_MS,
    ensures
        wake == Transition::wake(span as int, elapsed as int, duration as int),
        elapsed < wake <= duration + 1,
{
    let step: u32 = progress(span, elapsed, duration);
    proof {
        law_wake_is_ahead(span as int, elapsed as int, duration as int);
        assert(span * duration <= 255 * 6_553_500) by (nonlinear_arith)
            requires
                0 <= span <= 255,
                0 <= duration <= 6_553_500,
        ;
    }
    (step + 1) * duration / span + 1
}

/// Elapsed milliseconds at which to look again.
pub fn next_elapsed(span: u32, elapsed: u32, duration: u32) -> (next: u32)
    requires
        span <= 255,
        elapsed < duration <= MAX_DURATION_MS,
    ensures
        next == Transition::next(span as int, elapsed as int, duration as int),
        elapsed < next <= duration + 1,
{
    if span == 0 {
        duration
    } else {
        wake_elapsed(span, elapsed, duration)
    }
}

pub fn distance(a: u8, b: u8) -> (d: u32)
    ensures
        d == Transition::distance(a, b),
{
    if a <= b {
        (b - a) as u32
    } else {
        (a - b) as u32
    }
}

/// Interpolate linearly, clamped to 0-254.
pub fn interpolate_linear(start: u8, target: u8, elapsed: u32, duration: u32) -> (at: u8)
    requires
        elapsed < duration <= MAX_DURATION_MS,
    ensures
        at == Transition::linear(start, target, elapsed as int, duration as int),
{
    let step: u32 = progress(distance(start, target), elapsed, duration);
    let at: u32 = if start <= target {
        start as u32 + step
    } else {
        start as u32 - step
    };
    if at > 254 {
        254
    } else {
        at as u8
    }
}

/// Tenths of a second from `now_ms` to the end of a transition.
pub fn remaining_tenths(start_ms: u32, duration_ms: u32, now_ms: u32) -> (tenths: u32)
    ensures
        tenths == Transition::remaining(start_ms, duration_ms, now_ms),
{
    let elapsed: u32 = now_ms.wrapping_sub(start_ms);
    if elapsed >= duration_ms {
        0
    } else {
        (duration_ms - elapsed) / 100
    }
}

/// A value on its way stays between its start and its target.
pub proof fn law_linear_stays_between(start: u8, target: u8, elapsed: int, duration: int)
    requires
        start <= 254,
        target <= 254,
        0 <= elapsed < duration,
    ensures
        start <= target ==> start <= Transition::linear(start, target, elapsed, duration) <= target,
        start >= target ==> target <= Transition::linear(start, target, elapsed, duration) <= start,
{
    let span = Transition::distance(start, target);
    if span > 0 {
        law_progress_below_span(span, elapsed, duration);
    } else {
        assert(span * elapsed / duration == 0) by (nonlinear_arith)
            requires
                span == 0,
                duration > 0,
        ;
    }
}

/// A value on its way never turns back.
pub proof fn law_linear_never_turns_back(start: u8, target: u8, a: int, b: int, duration: int)
    requires
        start <= 254,
        target <= 254,
        0 <= a <= b < duration,
    ensures
        start <= target ==> Transition::linear(start, target, a, duration) <= Transition::linear(
            start,
            target,
            b,
            duration,
        ),
        start >= target ==> Transition::linear(start, target, a, duration) >= Transition::linear(
            start,
            target,
            b,
            duration,
        ),
{
    let span = Transition::distance(start, target);
    law_linear_stays_between(start, target, a, duration);
    law_linear_stays_between(start, target, b, duration);
    law_progress_monotonic(span, a, b, duration);
    if span > 0 {
        law_progress_below_span(span, a, duration);
        law_progress_below_span(span, b, duration);
    }
}

} // verus!
