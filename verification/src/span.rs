//! Lengths of time and points of the wall clock, as plain numbers.
use vstd::prelude::*;

verus! {

/// How many nanoseconds a second has.
pub const NANOS_PER_SEC: u128 = 1_000_000_000;

/// A length of time: whole seconds, and nanoseconds below a second.
#[derive(Clone, Copy, Debug, PartialEq, Eq, Structural)]
pub struct Span {
    secs: u64,
    nanos: u32,
}

/// A point of the wall clock: seconds since the Unix epoch, and nanoseconds
/// below a second.
#[derive(Clone, Copy, Debug, PartialEq, Eq, Structural)]
pub struct WallClock {
    pub secs: i64,
    pub nanos: u32,
}

/// A point in time: what the wall clock shows, and the nanoseconds that a clock
/// which never goes back has counted.
#[derive(Clone, Copy, Debug, PartialEq, Eq, Structural)]
pub struct Now {
    pub wall: WallClock,
    pub ticks: u128,
}

/// What a `std::time::Duration` of so many seconds and nanoseconds looks like by
/// its `Debug`.
pub uninterp spec fn duration_text(secs: u64, nanos: u32) -> Seq<char>;

/// Formats a `std::time::Duration` by its `Debug`. The text depends on the length
/// alone; which text it is, is left unsaid. `Duration::new` panics only where the
/// nanoseconds carry over into seconds that do not fit.
#[verifier::external_body]
fn debug_duration(secs: u64, nanos: u32) -> (res: String)
    requires
        nanos < 1_000_000_000,
    ensures
        res@ == duration_text(secs, nanos),
{
    format!("{:?}", std::time::Duration::new(secs, nanos))
}

impl Span {
    #[verifier::type_invariant]
    spec fn valid(self) -> bool {
        self.nanos < 1_000_000_000
    }

    /// The length in nanoseconds.
    pub closed spec fn total(self) -> nat {
        self.secs as nat * 1_000_000_000 + self.nanos as nat
    }

    /// The length in words.
    pub open spec fn words(self) -> Seq<char> {
        duration_text(
            (self.total() / 1_000_000_000) as u64,
            (self.total() % 1_000_000_000) as u32,
        )
    }

    /// A number of seconds.
    pub fn from_secs(secs: u64) -> (res: Span)
        ensures
            res.total() == secs as nat * 1_000_000_000,
    {
        Span { secs, nanos: 0 }
    }

    /// A number of milliseconds.
    pub fn from_millis(millis: u64) -> (res: Span)
        ensures
            res.total() == millis as nat * 1_000_000,
    {
        Span { secs: millis / 1000, nanos: ((millis % 1000) as u32) * 1_000_000 }
    }

    /// The whole seconds of the length.
    pub fn as_secs(&self) -> (res: u64)
        ensures
            res == self.total() / 1_000_000_000,
    {
        proof {
            use_type_invariant(self);
        }
        self.secs
    }

    /// The nanoseconds beyond the whole seconds.
    pub fn subsec_nanos(&self) -> (res: u32)
        ensures
            res == self.total() % 1_000_000_000,
    {
        proof {
            use_type_invariant(self);
        }
        self.nanos
    }

    /// Whether the length is zero.
    pub fn is_zero(&self) -> (res: bool)
        ensures
            res == (self.total() == 0),
    {
        self.secs == 0 && self.nanos == 0
    }

    /// The length in nanoseconds.
    pub fn as_nanos(&self) -> (res: u128)
        ensures
            res == self.total(),
    {
        self.secs as u128 * NANOS_PER_SEC + self.nanos as u128
    }

    /// The length in words.
    pub fn text(&self) -> (res: String)
        ensures
            res@ == self.words(),
    {
        proof {
            use_type_invariant(self);
        }
        debug_duration(self.secs, self.nanos)
    }
}

/// The nanoseconds from `earlier` to `later`, zero where the order is reversed.
pub open spec fn elapsed(earlier: u128, later: u128) -> nat {
    if earlier <= later {
        (later - earlier) as nat
    } else {
        0
    }
}

/// The nanoseconds from `earlier` to `later`, zero where the order is reversed.
pub fn ticks_since(earlier: u128, later: u128) -> (res: u128)
    ensures
        res == elapsed(earlier, later),
{
    if earlier <= later {
        later - earlier
    } else {
        0
    }
}

/// The whole seconds from `earlier` to `later`, at most the largest 64-bit number.
pub open spec fn whole_seconds(earlier: u128, later: u128) -> int {
    let seconds = elapsed(earlier, later) as int / 1_000_000_000;
    if seconds <= u64::MAX {
        seconds
    } else {
        u64::MAX as int
    }
}

/// The whole seconds from `earlier` to `later`, at most the largest 64-bit number.
pub fn seconds_since(earlier: u128, later: u128) -> (res: u64)
    ensures
        res == whole_seconds(earlier, later),
{
    let seconds: u128 = ticks_since(earlier, later) / NANOS_PER_SEC;
    if seconds <= u64::MAX as u128 {
        seconds as u64
    } else {
        u64::MAX
    }
}

/// The time between two moments is their difference, and none where they are reversed; of
/// its seconds the whole ones count.
pub proof fn law_time_is_the_difference(earlier: u128, later: u128)
    ensures
        earlier <= later ==> elapsed(earlier, later) == later - earlier,
        later <= earlier ==> elapsed(earlier, later) == 0,
        earlier <= later && later - earlier < 1_000_000_000 * 0x1_0000_0000_0000_0000 ==> {
            let seconds = whole_seconds(earlier, later);
            seconds * 1_000_000_000 <= later - earlier < (seconds + 1) * 1_000_000_000
        },
        whole_seconds(earlier, later) <= u64::MAX,
{
}

/// A length is told by its whole seconds and the nanoseconds beyond them.
pub proof fn law_lengths_are_told(span: Span)
    ensures
        span.words() == duration_text(
            (span.total() / 1_000_000_000) as u64,
            (span.total() - (span.total() / 1_000_000_000) * 1_000_000_000) as u32,
        ),
{
}

}
