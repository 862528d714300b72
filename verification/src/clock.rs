//! Times and spans of time.
use std::time::Duration;
use vstd::prelude::*;

verus! {

/// The number of nanoseconds that a span of time covers.
pub uninterp spec fn duration_nanos(span: Duration) -> nat;

/// `Duration::as_nanos` gives the whole length of a span in nanoseconds. It
/// depends on the span alone and is what `duration_nanos` names.
pub assume_specification[ Duration::as_nanos ](span: &Duration) -> (nanos: u128)
    ensures
        nanos == duration_nanos(*span),
;

/// `Duration::from_secs` makes a span of exactly that many seconds.
pub assume_specification[ Duration::from_secs ](secs: u64) -> (span: Duration)
    ensures
        duration_nanos(span) == secs * 1_000_000_000,
;

/// `SystemTime::elapsed` on the Unix epoch: how long ago the epoch was,
/// nothing where the clock is set before it. The result depends on the clock,
/// so nothing is said of it.
#[verifier::external_body]
fn since_epoch() -> (elapsed: Option<Duration>)
{
    std::time::UNIX_EPOCH.elapsed().ok()
}

/// Whether reading the clock comes to this much time after the epoch.
pub closed spec fn is_read(elapsed: Option<Duration>) -> bool {
    call_ensures(since_epoch, (), elapsed)
}

fn reading<C: Fn() -> Option<Duration>>(clock: C) -> (elapsed: Option<Duration>)
    requires
        call_requires(clock, ()),
    ensures
        call_ensures(clock, (), elapsed),
{
    clock()
}

/// Whether a span is shorter than a limit.
pub fn is_within(elapsed: &Duration, limit: &Duration) -> (within: bool)
    ensures
        within == (duration_nanos(*elapsed) < duration_nanos(*limit)),
{
    elapsed.as_nanos() < limit.as_nanos()
}

/// Whether a span covers no time at all.
pub fn is_empty_span(span: &Duration) -> (empty: bool)
    ensures
        empty == (duration_nanos(*span) == 0),
{
    span.as_nanos() == 0
}

/// The event time of a moment so long after the epoch: the milliseconds, as
/// many of their low bits as fit, zero where the moment is unknown.
pub open spec fn stamp_of(elapsed: Option<Duration>) -> nat {
    match elapsed {
        Some(span) => (duration_nanos(span) / 1_000_000) % 0x1_0000_0000,
        None => 0,
    }
}

/// The event time of a moment so long after the epoch.
pub fn stamp_ms(elapsed: Option<Duration>) -> (stamp: u32)
    ensures
        stamp == stamp_of(elapsed),
{
    match elapsed {
        Some(span) => {
            let millis: u128 = span.as_nanos() / 1_000_000;
            assert(millis as u32 == millis % 0x1_0000_0000) by (bit_vector);
            millis as u32
        },
        None => 0,
    }
}

/// The event time now: that of the moment which the clock shows.
pub fn now_ms() -> (stamp: u32)
    ensures
        exists|elapsed: Option<Duration>| #[trigger]
            is_read(elapsed) && stamp == stamp_of(elapsed),
{
    let elapsed: Option<Duration> = reading(since_epoch);
    assert(is_read(elapsed));
    stamp_ms(elapsed)
}

} // verus!
