//! The decisions of the timer loop: when to stop, and how often to print when
//! the output is not a terminal.

use vstd::prelude::*;
use crate::duration::{Duration, NANOS_PER_SEC};

verus! {

/// `secs` seconds, in nanoseconds.
pub open spec fn secs_nanos(secs: nat) -> nat {
    secs * (NANOS_PER_SEC as nat)
}

/// The base pause between lines of plain output, in nanoseconds, for a
/// remaining time of `remaining` nanoseconds: a minute above an hour, half a
/// minute above ten minutes, ten seconds above a minute, five seconds above ten
/// seconds, and one second below.
pub open spec fn base_interval(remaining: nat) -> nat {
    if remaining > secs_nanos(3600) {
        secs_nanos(60)
    } else if remaining > secs_nanos(600) {
        secs_nanos(30)
    } else if remaining > secs_nanos(60) {
        secs_nanos(10)
    } else if remaining > secs_nanos(10) {
        secs_nanos(5)
    } else {
        secs_nanos(1)
    }
}

/// `x` restricted to the interval from `lo` to `hi`.
pub open spec fn clamp_nat(x: nat, lo: nat, hi: nat) -> nat {
    if x < lo {
        lo
    } else if hi < x {
        hi
    } else {
        x
    }
}

/// The pause between lines of plain output, for `remaining` time left: the base
/// pause, kept between `min` and `max`.
pub fn non_tty_interval(remaining: Duration, min: Duration, max: Duration) -> (d: Duration)
    requires
        min@ <= max@,
    ensures
        d@ == clamp_nat(base_interval(remaining@), min@, max@),
        min@ <= d@ <= max@,
{
    let base = if Duration::from_secs(3600).is_shorter_than(&remaining) {
        Duration::from_secs(60)
    } else if Duration::from_secs(600).is_shorter_than(&remaining) {
        Duration::from_secs(30)
    } else if Duration::from_secs(60).is_shorter_than(&remaining) {
        Duration::from_secs(10)
    } else if Duration::from_secs(10).is_shorter_than(&remaining) {
        Duration::from_secs(5)
    } else {
        Duration::from_secs(1)
    };
    base.clamp(min, max)
}

/// The more time is left, the longer the pause between lines of plain output.
pub proof fn lemma_interval_grows_with_remaining(r1: nat, r2: nat, lo: nat, hi: nat)
    requires
        r1 <= r2,
        lo <= hi,
    ensures
        clamp_nat(base_interval(r1), lo, hi) <= clamp_nat(base_interval(r2), lo, hi),
{
}

/// What the timer loop does next.
#[derive(Clone, Copy, Debug, PartialEq, Eq)]
pub enum Step {
    /// The user interrupted the timer: show the last progress line and stop.
    Interrupted,
    /// The time is up: show the final line.
    Finished,
    /// Redraw the progress line in place on the terminal.
    Redraw,
    /// Print a new progress line to the plain output.
    PrintLine,
    /// Nothing to show yet.
    Wait,
}

/// The step for an interruption flag, the time elapsed, the timer's length, the
/// kind of output, the time since the last printed line, and the bounds of the
/// pause between lines of plain output.
pub open spec fn step_of(
    interrupted: bool,
    elapsed: nat,
    total: nat,
    is_tty: bool,
    since_last_print: nat,
    min: nat,
    max: nat,
) -> Step {
    if interrupted {
        Step::Interrupted
    } else if elapsed >= total {
        Step::Finished
    } else if is_tty {
        Step::Redraw
    } else if since_last_print >= clamp_nat(base_interval((total - elapsed) as nat), min, max) {
        Step::PrintLine
    } else {
        Step::Wait
    }
}

/// What the timer loop does next. An interruption comes first; then the timer
/// finishes once the elapsed time reaches the total; otherwise a terminal is
/// redrawn on every tick, and plain output gets a new line once the pause for
/// the remaining time has passed since the last one.
pub fn next_step(
    interrupted: bool,
    elapsed: Duration,
    total: Duration,
    is_tty: bool,
    since_last_print: Duration,
    min_interval: Duration,
    max_interval: Duration,
) -> (s: Step)
    requires
        min_interval@ <= max_interval@,
    ensures
        interrupted ==> s == Step::Interrupted,
        !interrupted && elapsed@ >= total@ ==> s == Step::Finished,
        !interrupted && elapsed@ < total@ && is_tty ==> s == Step::Redraw,
        !interrupted && elapsed@ < total@ && !is_tty ==> (s == Step::PrintLine || s
            == Step::Wait),
        s == Step::PrintLine ==> since_last_print@ >= min_interval@,
        s == Step::Wait ==> since_last_print@ < max_interval@,
        s == step_of(
            interrupted,
            elapsed@,
            total@,
            is_tty,
            since_last_print@,
            min_interval@,
            max_interval@,
        ),
{
    if interrupted {
        return Step::Interrupted;
    }
    if !elapsed.is_shorter_than(&total) {
        return Step::Finished;
    }
    if is_tty {
        Step::Redraw
    } else {
        let remaining = total.saturating_sub(&elapsed);
        let interval = non_tty_interval(remaining, min_interval, max_interval);
        if !since_last_print.is_shorter_than(&interval) {
            Step::PrintLine
        } else {
            Step::Wait
        }
    }
}

/// An interruption always stops the timer first, whatever the output, the
/// elapsed time and the time since the last line.
pub proof fn lemma_interruption_comes_first(
    elapsed: nat,
    total: nat,
    is_tty: bool,
    since_last_print: nat,
    min: nat,
    max: nat,
)
    ensures
        step_of(true, elapsed, total, is_tty, since_last_print, min, max) == Step::Interrupted,
        step_of(false, elapsed, total, is_tty, since_last_print, min, max) != Step::Interrupted,
{
}

/// Without an interruption, a terminal is redrawn on every tick until the time
/// is up, and plain output only ever prints or waits before then.
pub proof fn lemma_running_steps(
    elapsed: nat,
    total: nat,
    is_tty: bool,
    since_last_print: nat,
    min: nat,
    max: nat,
)
    requires
        elapsed < total,
        min <= max,
    ensures
        is_tty ==> step_of(false, elapsed, total, is_tty, since_last_print, min, max)
            == Step::Redraw,
        !is_tty ==> (step_of(false, elapsed, total, is_tty, since_last_print, min, max)
            == Step::PrintLine || step_of(
            false,
            elapsed,
            total,
            is_tty,
            since_last_print,
            min,
            max,
        ) == Step::Wait),
        !is_tty && since_last_print >= max ==> step_of(
            false,
            elapsed,
            total,
            is_tty,
            since_last_print,
            min,
            max,
        ) == Step::PrintLine,
{
}

/// The timer finishes exactly when it is not interrupted and the elapsed time
/// has reached the total; plain output never gets a new line sooner than the
/// shortest pause after the last one.
pub proof fn lemma_step_laws(
    interrupted: bool,
    elapsed: nat,
    total: nat,
    is_tty: bool,
    since_last_print: nat,
    min: nat,
    max: nat,
)
    requires
        min <= max,
    ensures
        (step_of(interrupted, elapsed, total, is_tty, since_last_print, min, max)
            == Step::Finished) <==> (!interrupted && elapsed >= total),
        step_of(interrupted, elapsed, total, is_tty, since_last_print, min, max)
            == Step::PrintLine ==> !is_tty && elapsed < total && since_last_print >= min,
        step_of(interrupted, elapsed, total, is_tty, since_last_print, min, max) == Step::Wait
            ==> since_last_print < max,
{
}

/// The width that the next redraw must clear: the byte length of the line
/// without a bar, or the whole terminal width with one.
pub fn width_to_clear(no_bar: bool, output_len: usize, term_width: usize) -> (w: usize)
    ensures
        w == if no_bar { output_len } else { term_width },
{
    if no_bar {
        output_len
    } else {
        term_width
    }
}

} // verus!
