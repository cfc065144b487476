use vstd::prelude::*;

verus! {

/// Nanoseconds in one second.
pub const NANOS_PER_SECOND: u32 = 1_000_000_000;

/// An absolute instant, as whole seconds since 1970-01-01T00:00:00Z plus a
/// sub-second part in nanoseconds.
#[derive(Clone, Copy, Debug, PartialEq, Eq, Structural)]
pub struct Epoch {
    pub seconds: i64,
    pub nanos: u32,
}

impl Epoch {
    /// The sub-second part is below one second.
    pub open spec fn wf(self) -> bool {
        self.nanos < NANOS_PER_SECOND
    }

    /// The instant as nanoseconds since 1970-01-01T00:00:00Z.
    pub open spec fn total_nanos(self) -> int {
        self.seconds as int * NANOS_PER_SECOND as int + self.nanos as int
    }

    /// Builds an instant; `None` when `nanos` is one second or more.
    pub fn new(seconds: i64, nanos: u32) -> (r: Option<Epoch>)
        ensures
            r is Some <==> nanos < NANOS_PER_SECOND,
            r matches Some(t) ==> t.wf() && t.seconds == seconds && t.nanos == nanos,
    {
        if nanos < NANOS_PER_SECOND {
            Some(Epoch { seconds, nanos })
        } else {
            None
        }
    }
}

/// Signed time from `from` to `to`, in nanoseconds.
pub open spec fn span_nanos(from: Epoch, to: Epoch) -> int {
    to.total_nanos() - from.total_nanos()
}

/// Signed time from `from` to `to`, in nanoseconds: positive when `to` comes
/// later. Always fits, as both instants hold at most 64 bits of seconds.
pub fn elapsed_nanos(from: &Epoch, to: &Epoch) -> (r: i128)
    requires
        from.wf(),
        to.wf(),
    ensures
        r as int == span_nanos(*from, *to),
{
    proof {
        lemma_seconds_in_nanos_fit(from.seconds);
        lemma_seconds_in_nanos_fit(to.seconds);
    }
    let a: i128 = from.seconds as i128 * NANOS_PER_SECOND as i128 + from.nanos as i128;
    let b: i128 = to.seconds as i128 * NANOS_PER_SECOND as i128 + to.nanos as i128;
    b - a
}

proof fn lemma_seconds_in_nanos_fit(s: i64)
    ensures
        -0x10_0000_0000_0000_0000_0000_0000 < (s as int) * (NANOS_PER_SECOND as int),
        (s as int) * (NANOS_PER_SECOND as int) < 0x10_0000_0000_0000_0000_0000_0000,
{
    assert(-0x8000_0000_0000_0000 * 1_000_000_000 <= s as int * 1_000_000_000
        <= 0x7fff_ffff_ffff_ffff * 1_000_000_000) by (nonlinear_arith)
        requires
            -0x8000_0000_0000_0000 <= s as int <= 0x7fff_ffff_ffff_ffff,
    {
    }
}

/// Advancing from `t0` to `t1` and then from `t1` to `t2` covers exactly the
/// time from `t0` to `t2`, so propagating in two hops applies the same elapsed
/// time as one direct hop.
pub proof fn lemma_span_additive(t0: Epoch, t1: Epoch, t2: Epoch)
    ensures
        span_nanos(t0, t1) + span_nanos(t1, t2) == span_nanos(t0, t2),
{
}

/// The time from an instant to itself is zero.
pub proof fn lemma_span_zero(t: Epoch)
    ensures
        span_nanos(t, t) == 0,
{
}

} // verus!
