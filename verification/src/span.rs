//! Lengths of time.

use vstd::prelude::*;

verus! {

/// Nanoseconds in a second.
pub const NANOS_PER_SEC: u32 = 1_000_000_000;

/// A length of time: whole seconds and nanoseconds.
#[derive(Clone, Copy, Debug, PartialEq, Eq, Structural)]
pub struct Span {
    /// Whole seconds.
    pub secs: u64,
    /// Nanoseconds beyond the whole seconds, below one second.
    pub nanos: u32,
}

impl View for Span {
    type V = nat;

    /// The length in nanoseconds.
    open spec fn view(&self) -> nat {
        self.secs as nat * NANOS_PER_SEC as nat + self.nanos as nat
    }
}

impl Span {
    /// A length of whole seconds.
    pub fn from_secs(secs: u64) -> (r: Span)
        ensures
            r == (Span { secs, nanos: 0 }),
    {
        Span { secs, nanos: 0 }
    }

    /// A length in milliseconds.
    pub fn from_millis(millis: u64) -> (r: Span)
        ensures
            r.nanos < NANOS_PER_SEC,
            r@ == millis * 1_000_000,
    {
        Span { secs: millis / 1000, nanos: ((millis % 1000) as u32) * 1_000_000 }
    }

    /// Whether the length is zero.
    pub fn is_zero(&self) -> (r: bool)
        ensures
            r == (self@ == 0),
    {
        self.secs == 0 && self.nanos == 0
    }
}

/// A thousand milliseconds make a second, and lengths of whole seconds have no more.
pub proof fn law_lengths(secs: u64, millis: u64, span: Span, r: Span, zero: bool)
    ensures
        call_ensures(Span::from_secs, (secs,), r) ==> r.secs == secs && r.nanos == 0,
        call_ensures(Span::from_millis, (millis,), r) ==> {
            &&& r.secs == millis / 1000
            &&& r.nanos == (millis % 1000) * 1_000_000
        },
        call_ensures(Span::is_zero, (&span,), zero) ==> zero == (span.secs == 0 && span.nanos
            == 0),
{
}

} // verus!
