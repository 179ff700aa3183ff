//! Timeouts for waiting on completions, as the kernel takes them.
use vstd::prelude::*;

verus! {

#[verifier::external_type_specification]
#[verifier::external_body]
pub struct ExTimeDelta(chrono::TimeDelta);

/// The whole seconds of a duration, rounded toward zero, as chrono's
/// `TimeDelta::num_seconds` gives them.
pub uninterp spec fn secs_of(d: chrono::TimeDelta) -> i64;

/// The nanoseconds that, added to `secs_of(d)` seconds, make up `d`, as
/// chrono's `TimeDelta::subsec_nanos` gives them.
pub uninterp spec fn subsec_nanos_of(d: chrono::TimeDelta) -> i32;

/// Relies on chrono's `TimeDelta::num_seconds`: the whole seconds of the
/// duration, a function of the duration alone.
pub assume_specification[ chrono::TimeDelta::num_seconds ](d: &chrono::TimeDelta) -> (r: i64)
    ensures
        r == secs_of(*d),
;

/// Relies on chrono's `TimeDelta::subsec_nanos`: the nanoseconds that,
/// added to `num_seconds` seconds, make up the duration, which are fewer
/// than a second in either direction.
pub assume_specification[ chrono::TimeDelta::subsec_nanos ](d: &chrono::TimeDelta) -> (r: i32)
    ensures
        r == subsec_nanos_of(*d),
        -1_000_000_000 < r < 1_000_000_000,
;

/// A wait of `tv_sec` seconds and `tv_nsec` nanoseconds.
#[derive(Clone, Copy, Debug, PartialEq, Eq, Structural)]
pub struct Timespec {
    pub tv_sec: i64,
    pub tv_nsec: i64,
}

pub const NANOS_PER_SEC: i64 = 1_000_000_000;

/// The length of a timespec, in nanoseconds.
pub open spec fn timespec_nanos(t: Timespec) -> int {
    t.tv_sec * 1_000_000_000 + t.tv_nsec
}

/// A timespec in normal form: nothing negative, and fewer nanoseconds than
/// a second.
pub open spec fn timespec_normal(t: Timespec) -> bool {
    t.tv_sec >= 0 && 0 <= t.tv_nsec < 1_000_000_000
}

/// The wait for a duration of `secs` seconds plus `nanos` nanoseconds: a
/// negative duration waits for nothing.
pub fn timespec_from_parts(secs: i64, nanos: i32) -> (r: Timespec)
    requires
        -1_000_000_000 < nanos < 1_000_000_000,
    ensures
        timespec_normal(r),
        timespec_nanos(r) == (if secs * 1_000_000_000 + nanos <= 0 {
            0
        } else {
            secs * 1_000_000_000 + nanos
        }),
{
    if secs < 0 || (secs == 0 && nanos <= 0) {
        proof {
            if secs < 0 {
                assert(secs * 1_000_000_000 <= -1_000_000_000) by (nonlinear_arith)
                    requires
                        secs < 0,
                ;
            }
        }
        Timespec { tv_sec: 0, tv_nsec: 0 }
    } else if nanos >= 0 {
        Timespec { tv_sec: secs, tv_nsec: nanos as i64 }
    } else {
        Timespec { tv_sec: secs - 1, tv_nsec: nanos as i64 + NANOS_PER_SEC }
    }
}

/// The wait for duration `dur`, clamped below at zero.
pub fn timespec_from_duration(dur: &chrono::TimeDelta) -> (r: Timespec)
    ensures
        timespec_normal(r),
        timespec_nanos(r) == (if secs_of(*dur) * 1_000_000_000 + subsec_nanos_of(*dur) <= 0 {
            0
        } else {
            secs_of(*dur) * 1_000_000_000 + subsec_nanos_of(*dur)
        }),
{
    timespec_from_parts(dur.num_seconds(), dur.subsec_nanos())
}

} // verus!
