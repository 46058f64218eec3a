//! Elapsed wall-clock time, and how it is printed.

use vstd::prelude::*;

verus! {

/// Nanoseconds in one second.
pub const NANOS_PER_SEC: u32 = 1_000_000_000;

/// Nanoseconds in one millisecond.
pub const NANOS_PER_MILLI: u32 = 1_000_000;

/// A span of time: whole seconds and the nanoseconds of the second begun.
pub struct Elapsed {
    secs: u64,
    nanos: u32,
}

impl View for Elapsed {
    type V = nat;

    /// The span in nanoseconds.
    closed spec fn view(&self) -> nat {
        self.secs as nat * 1_000_000_000 + self.nanos as nat
    }
}

/// `total` nanoseconds without the part of a millisecond at their end.
pub open spec fn whole_millis(total: nat) -> nat {
    (total - total % 1_000_000) as nat
}

/// The text that `humantime` prints for a span of `secs` seconds and `nanos`
/// nanoseconds: its units from years down to nanoseconds, those that are zero
/// left out, and `0s` for an empty span.
pub uninterp spec fn humantime_text(secs: u64, nanos: u32) -> Seq<char>;

/// The text shown for a span of `total` nanoseconds: the span is cut to whole
/// milliseconds and then printed by `humantime`.
pub open spec fn duration_text(total: nat) -> Seq<char> {
    let shown: nat = whole_millis(total);
    humantime_text((shown / 1_000_000_000) as u64, (shown % 1_000_000_000) as u32)
}

/// Calls `humantime::format_duration` on the span of `secs` seconds and `nanos`
/// nanoseconds and prints what it returns. The text is taken on trust to depend on
/// the two numbers alone; nothing is claimed of what it holds.
#[verifier::external_body]
fn format_duration(secs: u64, nanos: u32) -> (text: String)
    requires
        nanos < NANOS_PER_SEC,
    ensures
        text@ == humantime_text(secs, nanos),
{
    humantime::format_duration(std::time::Duration::new(secs, nanos)).to_string()
}

impl Elapsed {
    #[verifier::type_invariant]
    spec fn valid(self) -> bool {
        self.nanos < NANOS_PER_SEC
    }

    /// The span of `secs` seconds and `nanos` nanoseconds, where `nanos` is under one
    /// second.
    pub fn new(secs: u64, nanos: u32) -> (span: Option<Elapsed>)
        ensures
            span is Some <==> nanos < NANOS_PER_SEC,
            span matches Some(e) ==> e@ == secs as nat * 1_000_000_000 + nanos as nat,
    {
        if nanos < NANOS_PER_SEC {
            Some(Elapsed { secs, nanos })
        } else {
            None
        }
    }

    /// The whole seconds of the span.
    pub fn secs(&self) -> (secs: u64)
        ensures
            secs == self@ / 1_000_000_000,
    {
        proof {
            use_type_invariant(self);
        }
        self.secs
    }

    /// The nanoseconds beyond the whole seconds.
    pub fn subsec_nanos(&self) -> (nanos: u32)
        ensures
            nanos == self@ % 1_000_000_000,
    {
        proof {
            use_type_invariant(self);
        }
        self.nanos
    }
}

/// Cutting a span of `secs` seconds and `nanos` nanoseconds to whole milliseconds
/// leaves its seconds and cuts its nanoseconds.
proof fn lemma_whole_millis(secs: nat, nanos: nat)
    requires
        nanos < 1_000_000_000,
    ensures
        whole_millis(secs * 1_000_000_000 + nanos) == secs * 1_000_000_000 + (nanos / 1_000_000)
            * 1_000_000,
        (nanos / 1_000_000) * 1_000_000 < 1_000_000_000,
        (secs * 1_000_000_000 + (nanos / 1_000_000) * 1_000_000) / 1_000_000_000 == secs,
        (secs * 1_000_000_000 + (nanos / 1_000_000) * 1_000_000) % 1_000_000_000 == (nanos
            / 1_000_000) * 1_000_000,
{
    let total: int = (secs * 1_000_000_000 + nanos) as int;
    let cut: int = ((nanos / 1_000_000) * 1_000_000) as int;
    assert(total == 1_000_000 * (secs * 1000) + nanos);
    vstd::arithmetic::div_mod::lemma_mod_multiples_vanish(
        (secs * 1000) as int,
        nanos as int,
        1_000_000,
    );
    vstd::arithmetic::div_mod::lemma_fundamental_div_mod_converse(
        secs * 1_000_000_000 + cut,
        1_000_000_000,
        secs as int,
        cut,
    );
}

/// Prints a span for the operator, to the millisecond.
pub fn to_dur(elapsed: &Elapsed) -> (text: String)
    ensures
        text@ == duration_text(elapsed@),
{
    proof {
        use_type_invariant(elapsed);
        lemma_whole_millis(elapsed.secs as nat, elapsed.nanos as nat);
    }
    let millis: u32 = elapsed.nanos / NANOS_PER_MILLI;
    let shown: u32 = millis * NANOS_PER_MILLI;
    format_duration(elapsed.secs, shown)
}

} // verus!
