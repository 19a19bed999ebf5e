//! How many requests an address or a token may make: buckets that requests draw on
//! and that fill up again with time.
use vstd::prelude::*;
use crate::config::RateLimitConfig;
use crate::span;
use crate::text;

verus! {

/// What one request draws from a bucket. A second adds as much for every request
/// per second that the rate allows.
pub const REQUEST_COST: u128 = 1_000_000_000;

/// How many requests are allowed: at a steady rate, and at once.
#[derive(Clone, Copy, Debug, PartialEq, Eq, Structural)]
pub struct Limits {
    pub requests_per_second: u32,
    pub burst: u32,
}

/// What a bucket holds, and when that was last reckoned, in nanoseconds of a clock
/// that never goes back.
#[derive(Clone, Copy, Debug, PartialEq, Eq, Structural)]
pub struct Bucket {
    pub credit: u128,
    pub reckoned: u128,
}

/// What a full bucket holds.
pub open spec fn capacity(limits: Limits) -> nat {
    limits.burst as nat * 1_000_000_000
}

/// What a bucket holds at a later time.
pub open spec fn refilled(limits: Limits, bucket: Bucket, now: u128) -> nat {
    let grown = bucket.credit as nat + span::elapsed(bucket.reckoned, now)
        * limits.requests_per_second as nat;
    if grown < capacity(limits) {
        grown
    } else {
        capacity(limits)
    }
}

/// Whether a bucket can meet a request.
pub open spec fn suffices(limits: Limits, bucket: Bucket, now: u128) -> bool {
    refilled(limits, bucket, now) >= 1_000_000_000
}

/// The later of two times.
pub open spec fn later(earlier: u128, now: u128) -> u128 {
    if earlier <= now {
        now
    } else {
        earlier
    }
}

/// A bucket after a request: one that can meet it is drawn on.
pub open spec fn drawn(limits: Limits, bucket: Bucket, now: u128) -> Bucket {
    let held = refilled(limits, bucket, now);
    Bucket {
        credit: if suffices(limits, bucket, now) {
            (held - 1_000_000_000) as u128
        } else {
            held as u128
        },
        reckoned: later(bucket.reckoned, now),
    }
}

/// A bucket that nobody has drawn on.
pub open spec fn full(limits: Limits, now: u128) -> Bucket {
    Bucket { credit: capacity(limits) as u128, reckoned: now }
}

impl Bucket {
    /// What the bucket holds at a later time.
    fn refill(&self, limits: Limits, now: u128) -> (res: u128)
        ensures
            res == refilled(limits, *self, now),
    {
        let capacity: u128 = limits.burst as u128 * REQUEST_COST;
        let elapsed: u128 = span::ticks_since(self.reckoned, now);
        let rate: u128 = limits.requests_per_second as u128;
        if self.credit >= capacity {
            assert(elapsed * rate >= 0) by (nonlinear_arith);
            return capacity;
        }
        if rate == 0 {
            assert(elapsed * rate == 0) by (nonlinear_arith)
                requires
                    rate == 0,
            ;
            return self.credit;
        }
        if elapsed >= capacity {
            assert(elapsed * rate >= elapsed) by (nonlinear_arith)
                requires
                    rate >= 1,
            ;
            return capacity;
        }
        assert(elapsed * rate <= capacity * rate) by (nonlinear_arith)
            requires
                elapsed < capacity,
        ;
        assert(capacity * rate <= 0x1_0000_0000 * 1_000_000_000 * 0x1_0000_0000)
            by (nonlinear_arith)
            requires
                capacity <= 0x1_0000_0000 * 1_000_000_000,
                rate <= 0x1_0000_0000,
        ;
        let grown: u128 = self.credit + elapsed * rate;
        if grown < capacity {
            grown
        } else {
            capacity
        }
    }

    /// Draws a request on the bucket, where the bucket can meet it.
    pub fn draw(&mut self, limits: Limits, now: u128) -> (res: bool)
        ensures
            res == suffices(limits, *old(self), now),
            *final(self) == drawn(limits, *old(self), now),
    {
        let held: u128 = self.refill(limits, now);
        if self.reckoned <= now {
            self.reckoned = now;
        }
        if held >= REQUEST_COST {
            self.credit = held - REQUEST_COST;
            true
        } else {
            self.credit = held;
            false
        }
    }
}

/// The buckets of some names, each once.
#[derive(Debug)]
pub struct Buckets {
    entries: Vec<(String, Bucket)>,
}

/// The buckets of some entries by their names.
spec fn by_name(entries: Seq<(String, Bucket)>) -> Map<Seq<char>, Bucket>
    decreases entries.len(),
{
    if entries.len() == 0 {
        Map::empty()
    } else {
        by_name(entries.drop_last()).insert(entries.last().0@, entries.last().1)
    }
}

/// Whether no two entries have one name.
spec fn names_differ(entries: Seq<(String, Bucket)>) -> bool {
    forall|i: int, j: int|
        0 <= i < j < entries.len() ==> (#[trigger] entries[i]).0@ != (#[trigger] entries[j]).0@
}

proof fn lemma_by_name(entries: Seq<(String, Bucket)>, name: Seq<char>)
    ensures
        by_name(entries).contains_key(name) ==> exists|i: int|
            0 <= i < entries.len() && (#[trigger] entries[i]).0@ == name,
        names_differ(entries) ==> forall|i: int|
            0 <= i < entries.len() ==> by_name(entries).contains_key((#[trigger] entries[i]).0@)
                && by_name(entries)[entries[i].0@] == entries[i].1,
    decreases entries.len(),
{
    if entries.len() > 0 {
        let before = entries.drop_last();
        lemma_by_name(before, name);
        if by_name(entries).contains_key(name) {
            if entries.last().0@ == name {
                assert(entries[entries.len() - 1].0@ == name);
            } else {
                let i = choose|i: int| 0 <= i < before.len() && (#[trigger] before[i]).0@ == name;
                assert(entries[i].0@ == name);
            }
        }
        if names_differ(entries) {
            assert(names_differ(before)) by {
                assert forall|i: int, j: int| 0 <= i < j < before.len() implies (
                #[trigger] before[i]).0@ != (#[trigger] before[j]).0@ by {
                    assert(entries[i] == before[i] && entries[j] == before[j]);
                }
            }
            assert forall|i: int| 0 <= i < entries.len() implies by_name(entries).contains_key(
                (#[trigger] entries[i]).0@,
            ) && by_name(entries)[entries[i].0@] == entries[i].1 by {
                if i < before.len() {
                    assert(before[i] == entries[i]);
                    assert(entries[i].0@ != entries[entries.len() - 1].0@);
                }
            }
        }
    }
}

impl View for Buckets {
    type V = Map<Seq<char>, Bucket>;

    closed spec fn view(&self) -> Map<Seq<char>, Bucket> {
        by_name(self.entries@)
    }
}

/// The bucket of a name; full where nobody has drawn on it.
pub open spec fn bucket_of(
    buckets: Map<Seq<char>, Bucket>,
    limits: Limits,
    name: Seq<char>,
    now: u128,
) -> Bucket {
    match buckets.get(name) {
        Some(bucket) => bucket,
        None => full(limits, now),
    }
}

impl Buckets {
    #[verifier::type_invariant]
    spec fn wf(self) -> bool {
        names_differ(self.entries@)
    }

    /// No buckets.
    pub fn new() -> (res: Buckets)
        ensures
            res@ == Map::<Seq<char>, Bucket>::empty(),
    {
        Buckets { entries: Vec::new() }
    }

    /// Draws a request on the bucket of a name, where the bucket can meet it.
    pub fn draw(self, limits: Limits, name: &str, now: u128) -> (res: (Buckets, bool))
        ensures
            ({
                let bucket = bucket_of(self@, limits, name@, now);
                &&& res.1 == suffices(limits, bucket, now)
                &&& res.0@ == self@.insert(name@, drawn(limits, bucket, now))
            }),
    {
        proof {
            use_type_invariant(&self);
            lemma_by_name(self.entries@, name@);
        }
        let ghost before = self.entries@;
        let mut entries = self.entries;
        let mut i: usize = 0;
        while i < entries.len() && !text::str_eq(entries[i].0.as_str(), name)
            invariant
                i <= entries.len(),
                entries@ == before,
                forall|j: int| 0 <= j < i ==> (#[trigger] before[j]).0@ != name@,
            decreases entries.len() - i,
        {
            i += 1;
        }
        if i < entries.len() {
            let mut bucket = entries[i].1;
            assert(before[i as int].0@ == name@);
            let ghost held = bucket;
            let met = bucket.draw(limits, now);
            let kept = entries[i].0.clone();
            entries.set(i, (kept, bucket));
            proof {
                assert(names_differ(entries@)) by {
                    assert forall|a: int, b: int| 0 <= a < b < entries@.len() implies (
                    #[trigger] entries@[a]).0@ != (#[trigger] entries@[b]).0@ by {
                        assert(entries@[a].0@ == before[a].0@ && entries@[b].0@ == before[b].0@);
                    }
                }
                lemma_update(before, i as int, bucket, entries@);
            }
            (Buckets { entries }, met)
        } else {
            let mut bucket = Bucket { credit: limits.burst as u128 * REQUEST_COST, reckoned: now };
            assert(bucket == full(limits, now));
            let met = bucket.draw(limits, now);
            assert(!by_name(before).contains_key(name@));
            entries.push((name.to_owned(), bucket));
            proof {
                assert(entries@.drop_last() =~= before);
                assert(names_differ(entries@)) by {
                    assert forall|a: int, b: int| 0 <= a < b < entries@.len() implies (
                    #[trigger] entries@[a]).0@ != (#[trigger] entries@[b]).0@ by {
                        assert(entries@[a] == before[a]);
                        if b < before.len() {
                            assert(entries@[b] == before[b]);
                        }
                    }
                }
            }
            (Buckets { entries }, met)
        }
    }
}

/// What is kept of the bucket of a name: nothing where it has become full again.
pub open spec fn worth_keeping(limits: Limits, bucket: Option<Bucket>, now: u128) -> Option<Bucket> {
    match bucket {
        Some(held) => if refilled(limits, held, now) < capacity(limits) {
            Some(held)
        } else {
            None
        },
        None => None,
    }
}

impl Buckets {
    /// Forgets the buckets that have become full again.
    pub fn prune(self, limits: Limits, now: u128) -> (res: Buckets)
        ensures
            forall|name: Seq<char>| #[trigger]
                res@.get(name) == worth_keeping(limits, self@.get(name), now),
    {
        proof {
            use_type_invariant(&self);
        }
        let ghost before = self.entries@;
        let mut kept: Vec<(String, Bucket)> = Vec::new();
        let full_credit: u128 = limits.burst as u128 * REQUEST_COST;
        let entries = self.entries;
        for entry in it: entries
            invariant
                it.seq() == before,
                names_differ(before),
                names_differ(kept@),
                full_credit == capacity(limits),
                forall|name: Seq<char>| #[trigger]
                    by_name(kept@).get(name) == worth_keeping(
                        limits,
                        by_name(before.take(it.index() as int)).get(name),
                        now,
                    ),
        {
            let ghost at = it.index() as int;
            let ghost part = before.take(at);
            let ghost grown = before.take(at + 1);
            assert(grown.drop_last() =~= part);
            assert(grown.last() == entry);
            proof {
                lemma_by_name(part, entry.0@);
                if by_name(part).contains_key(entry.0@) {
                    let i = choose|i: int| 0 <= i < part.len() && (#[trigger] part[i]).0@ == entry.0@;
                    assert(before[i].0@ == before[at].0@);
                    assert(false);
                }
                assert(by_name(part).get(entry.0@) is None);
                assert(by_name(kept@).get(entry.0@) is None);
                lemma_by_name(kept@, entry.0@);
            }
            let ghost old_kept = kept@;
            assert(by_name(grown) == by_name(part).insert(entry.0@, entry.1));
            if entry.1.refill(limits, now) < full_credit {
                kept.push(entry);
                proof {
                    assert(kept@.drop_last() =~= old_kept);
                    assert forall|a: int, b: int| 0 <= a < b < kept@.len() implies (
                    #[trigger] kept@[a]).0@ != (#[trigger] kept@[b]).0@ by {
                        assert(kept@[a] == old_kept[a]);
                        if b < old_kept.len() {
                            assert(kept@[b] == old_kept[b]);
                        } else if old_kept[a].0@ == entry.0@ {
                            assert(by_name(old_kept).contains_key(old_kept[a].0@));
                        }
                    }
                    assert(by_name(kept@) == by_name(old_kept).insert(entry.0@, entry.1));
                }
            }
            assert forall|name: Seq<char>| #[trigger] by_name(kept@).get(name) == worth_keeping(
                limits,
                by_name(grown).get(name),
                now,
            ) by {
                assert(by_name(old_kept).get(name) == worth_keeping(
                    limits,
                    by_name(part).get(name),
                    now,
                ));
            }
        }
        assert(before.take(before.len() as int) =~= before);
        Buckets { entries: kept }
    }
}

proof fn lemma_update(
    before: Seq<(String, Bucket)>,
    at: int,
    bucket: Bucket,
    after: Seq<(String, Bucket)>,
)
    requires
        0 <= at < before.len(),
        after.len() == before.len(),
        after[at].0@ == before[at].0@,
        after[at].1 == bucket,
        forall|i: int| 0 <= i < before.len() && i != at ==> #[trigger] after[i] == before[i],
        names_differ(before),
    ensures
        by_name(after) == by_name(before).insert(before[at].0@, bucket),
    decreases before.len(),
{
    let b = before.drop_last();
    let a = after.drop_last();
    if at == before.len() - 1 {
        assert(a =~= b);
        assert(by_name(after) =~= by_name(before).insert(before[at].0@, bucket));
    } else {
        assert(names_differ(b)) by {
            assert forall|i: int, j: int| 0 <= i < j < b.len() implies (#[trigger] b[i]).0@ != (
            #[trigger] b[j]).0@ by {
                assert(before[i] == b[i] && before[j] == b[j]);
            }
        }
        lemma_update(b, at, bucket, a);
        assert(after[after.len() - 1] == before[before.len() - 1]);
        assert(before[at].0@ != before[before.len() - 1].0@);
        assert(by_name(after) =~= by_name(before).insert(before[at].0@, bucket));
    }
}

/// How many requests an address or a token may make.
#[derive(Debug)]
pub struct RateLimiter {
    limits: Limits,
    addresses: Buckets,
    tokens: Buckets,
}

/// What a limiter knows.
#[verifier::ext_equal]
pub struct LimiterView {
    pub limits: Limits,
    pub addresses: Map<Seq<char>, Bucket>,
    pub tokens: Map<Seq<char>, Bucket>,
}

impl View for RateLimiter {
    type V = LimiterView;

    closed spec fn view(&self) -> LimiterView {
        LimiterView { limits: self.limits, addresses: self.addresses@, tokens: self.tokens@ }
    }
}

/// Whether a request is let through: the bucket of its address can meet it, and so
/// can that of its token, where it has one.
pub open spec fn lets_through(
    limiter: LimiterView,
    address: Seq<char>,
    token: Option<Seq<char>>,
    now: u128,
) -> bool {
    let limits = limiter.limits;
    &&& suffices(limits, bucket_of(limiter.addresses, limits, address, now), now)
    &&& match token {
        Some(name) => suffices(limits, bucket_of(limiter.tokens, limits, name, now), now),
        None => true,
    }
}

/// A limiter after a request: the bucket of the address is drawn on, and that of the
/// token where the address could meet the request.
pub open spec fn after_request(
    limiter: LimiterView,
    address: Seq<char>,
    token: Option<Seq<char>>,
    now: u128,
) -> LimiterView {
    let limits = limiter.limits;
    let by_address = bucket_of(limiter.addresses, limits, address, now);
    LimiterView {
        addresses: limiter.addresses.insert(address, drawn(limits, by_address, now)),
        tokens: match token {
            Some(name) => if suffices(limits, by_address, now) {
                let by_token = bucket_of(limiter.tokens, limits, name, now);
                limiter.tokens.insert(name, drawn(limits, by_token, now))
            } else {
                limiter.tokens
            },
            None => limiter.tokens,
        },
        ..limiter
    }
}

impl RateLimiter {
    /// A limiter that has seen no request.
    pub fn new(config: &RateLimitConfig) -> (res: RateLimiter)
        ensures
            res@ == (LimiterView {
                limits: Limits {
                    requests_per_second: config.requests_per_second,
                    burst: config.burst,
                },
                addresses: Map::empty(),
                tokens: Map::empty(),
            }),
    {
        RateLimiter {
            limits: Limits {
                requests_per_second: config.requests_per_second,
                burst: config.burst,
            },
            addresses: Buckets::new(),
            tokens: Buckets::new(),
        }
    }

    /// Whether a request is let through.
    pub fn allow(&mut self, address: &str, token: Option<&str>, now: u128) -> (res: bool)
        ensures
            res == lets_through(old(self)@, address@, text::opt_str(token), now),
            final(self)@ == after_request(old(self)@, address@, text::opt_str(token), now),
    {
        let mut addresses = Buckets::new();
        std::mem::swap(&mut addresses, &mut self.addresses);
        let (addresses, met) = addresses.draw(self.limits, address, now);
        self.addresses = addresses;
        if !met {
            return false;
        }
        match token {
            Some(name) => {
                let mut tokens = Buckets::new();
                std::mem::swap(&mut tokens, &mut self.tokens);
                let (tokens, met) = tokens.draw(self.limits, name, now);
                self.tokens = tokens;
                met
            },
            None => true,
        }
    }

    /// Forgets the addresses and tokens whose buckets have become full again.
    pub fn prune(&mut self, now: u128)
        ensures
            final(self)@.limits == old(self)@.limits,
            forall|name: Seq<char>| #[trigger]
                final(self)@.addresses.get(name) == worth_keeping(
                    old(self)@.limits,
                    old(self)@.addresses.get(name),
                    now,
                ),
            forall|name: Seq<char>| #[trigger]
                final(self)@.tokens.get(name) == worth_keeping(
                    old(self)@.limits,
                    old(self)@.tokens.get(name),
                    now,
                ),
    {
        let mut addresses = Buckets::new();
        std::mem::swap(&mut addresses, &mut self.addresses);
        self.addresses = addresses.prune(self.limits, now);
        let mut tokens = Buckets::new();
        std::mem::swap(&mut tokens, &mut self.tokens);
        self.tokens = tokens.prune(self.limits, now);
    }
}

/// Whether some times are in order and none lies before a given one.
pub open spec fn in_order(start: u128, times: Seq<u128>) -> bool {
    &&& times.len() > 0 ==> start <= times[0]
    &&& forall|i: int, j: int| 0 <= i <= j < times.len() ==> times[i] <= times[j]
}

/// A bucket after requests at some times.
pub open spec fn after_draws(limits: Limits, bucket: Bucket, times: Seq<u128>) -> Bucket
    decreases times.len(),
{
    if times.len() == 0 {
        bucket
    } else {
        drawn(limits, after_draws(limits, bucket, times.drop_last()), times.last())
    }
}

/// How many of the requests at some times a bucket meets.
pub open spec fn met_count(limits: Limits, bucket: Bucket, times: Seq<u128>) -> nat
    decreases times.len(),
{
    if times.len() == 0 {
        0
    } else {
        let before = times.drop_last();
        met_count(limits, bucket, before) + if suffices(
            limits,
            after_draws(limits, bucket, before),
            times.last(),
        ) {
            1nat
        } else {
            0
        }
    }
}

proof fn lemma_credit_spent(limits: Limits, bucket: Bucket, times: Seq<u128>)
    requires
        in_order(bucket.reckoned, times),
        bucket.credit <= capacity(limits),
    ensures
        ({
            let after = after_draws(limits, bucket, times);
            let end = if times.len() == 0 {
                bucket.reckoned
            } else {
                times.last()
            };
            &&& after.reckoned == end
            &&& after.credit <= capacity(limits)
            &&& met_count(limits, bucket, times) * 1_000_000_000 + after.credit <= bucket.credit + (
            end - bucket.reckoned) * limits.requests_per_second
        }),
    decreases times.len(),
{
    if times.len() > 0 {
        let before = times.drop_last();
        assert(in_order(bucket.reckoned, before)) by {
            if before.len() > 0 {
                assert(before[0] == times[0]);
            }
        }
        lemma_credit_spent(limits, bucket, before);
        let held = after_draws(limits, bucket, before);
        let now = times.last();
        let start = bucket.reckoned as int;
        let middle = held.reckoned as int;
        let rate = limits.requests_per_second as int;
        if before.len() > 0 {
            assert(before.last() == times[times.len() - 2]);
        }
        assert(middle <= now);
        assert((now - start) * rate == (middle - start) * rate + (now - middle) * rate)
            by (nonlinear_arith);
        assert(span::elapsed(held.reckoned, now) == now - middle);
        assert(span::elapsed(held.reckoned, now) * limits.requests_per_second as nat == (now - middle)
            * rate);
        assert((now - middle) * rate >= 0) by (nonlinear_arith)
            requires
                middle <= now,
                rate >= 0,
        ;
    } else {
        assert((bucket.reckoned - bucket.reckoned) * limits.requests_per_second == 0)
            by (nonlinear_arith);
    }
}

/// However many requests come, from the first to the last no more are met than the
/// burst and what the rate allows in that time.
pub proof fn law_rate_is_kept(limits: Limits, bucket: Bucket, times: Seq<u128>)
    requires
        times.len() > 0,
        in_order(bucket.reckoned, times),
        bucket.credit <= capacity(limits),
    ensures
        met_count(limits, bucket, times) * 1_000_000_000 <= capacity(limits) + (times.last()
            - bucket.reckoned) * limits.requests_per_second,
{
    lemma_credit_spent(limits, bucket, times);
}

/// Whoever has made no request yet may make as many at once as the burst allows.
pub proof fn law_burst_is_granted(limits: Limits, now: u128, count: nat)
    requires
        count <= limits.burst,
    ensures
        met_count(limits, full(limits, now), Seq::new(count, |i: int| now)) == count,
        after_draws(limits, full(limits, now), Seq::new(count, |i: int| now)) == (Bucket {
            credit: ((limits.burst - count) * 1_000_000_000) as u128,
            reckoned: now,
        }),
    decreases count,
{
    if count > 0 {
        let times = Seq::new(count, |i: int| now);
        let fewer = (count - 1) as nat;
        law_burst_is_granted(limits, now, fewer);
        assert(times.drop_last() =~= Seq::new(fewer, |i: int| now));
        let held = after_draws(limits, full(limits, now), times.drop_last());
        assert(span::elapsed(held.reckoned, now) == 0);
        assert(0 * limits.requests_per_second as nat == 0) by (nonlinear_arith);
    }
}

/// To forget a bucket that has become full again changes nothing for a later request.
pub proof fn law_forgetting_changes_nothing(limits: Limits, bucket: Bucket, now: u128, at: u128)
    requires
        worth_keeping(limits, Some(bucket), now) is None,
        bucket.reckoned <= now <= at,
    ensures
        suffices(limits, bucket, at) == suffices(limits, full(limits, at), at),
        drawn(limits, bucket, at) == drawn(limits, full(limits, at), at),
{
    let rate = limits.requests_per_second as nat;
    let short = span::elapsed(bucket.reckoned, now);
    let long = span::elapsed(bucket.reckoned, at);
    assert(short * rate <= long * rate) by (nonlinear_arith)
        requires
            short <= long,
    ;
    assert(span::elapsed(at, at) * rate == 0) by (nonlinear_arith)
        requires
            span::elapsed(at, at) == 0,
    ;
}

/// A bucket fills with time at the rate of its limits, and never beyond its burst.
pub proof fn law_buckets_fill(limits: Limits, bucket: Bucket, now: u128)
    requires
        bucket.reckoned <= now,
    ensures
        ({
            let grown = bucket.credit + (now - bucket.reckoned) * limits.requests_per_second;
            let most = limits.burst * 1_000_000_000;
            &&& grown < most ==> refilled(limits, bucket, now) == grown
            &&& grown >= most ==> refilled(limits, bucket, now) == most
        }),
        refilled(limits, bucket, bucket.reckoned) <= refilled(limits, bucket, now),
{
    assert((now - bucket.reckoned) * limits.requests_per_second >= 0) by (nonlinear_arith)
        requires
            bucket.reckoned <= now,
    ;
    assert(0 * limits.requests_per_second == 0) by (nonlinear_arith);
    assert(span::elapsed(bucket.reckoned, bucket.reckoned) * limits.requests_per_second as nat == 0)
        by (nonlinear_arith)
        requires
            span::elapsed(bucket.reckoned, bucket.reckoned) == 0,
    ;
}

/// A request takes a whole share out of a bucket that holds one, and nothing out of one
/// that does not; either way the time is reckoned up to now.
pub proof fn law_requests_cost_a_share(limits: Limits, bucket: Bucket, now: u128)
    requires
        bucket.reckoned <= now,
    ensures
        ({
            let held = refilled(limits, bucket, now);
            let left = drawn(limits, bucket, now);
            &&& suffices(limits, bucket, now) <==> held >= 1_000_000_000
            &&& held >= 1_000_000_000 ==> left.credit == held - 1_000_000_000
            &&& held < 1_000_000_000 ==> left.credit == held
            &&& left.reckoned == now
        }),
{
    assert(capacity(limits) <= u128::MAX) by {
        assert(limits.burst as nat * 1_000_000_000 <= 0xffff_ffff * 1_000_000_000);
    }
}

/// A request is let through where the bucket of its address, and that of its token where it
/// has one, hold a share; addresses and tokens that are new begin with a full bucket.
pub proof fn law_both_buckets_must_hold(
    limiter: LimiterView,
    address: Seq<char>,
    token: Seq<char>,
    now: u128,
)
    ensures
        ({
            let most = Bucket {
                credit: (limiter.limits.burst * 1_000_000_000) as u128,
                reckoned: now,
            };
            let by_address = if limiter.addresses.contains_key(address) {
                limiter.addresses[address]
            } else {
                most
            };
            let by_token = if limiter.tokens.contains_key(token) {
                limiter.tokens[token]
            } else {
                most
            };
            let address_holds = suffices(limiter.limits, by_address, now);
            let token_holds = suffices(limiter.limits, by_token, now);
            &&& lets_through(limiter, address, None, now) <==> address_holds
            &&& lets_through(limiter, address, Some(token), now) <==> address_holds && token_holds
        }),
{
}

/// A request draws on the bucket of its address; on that of its token only where the
/// address let it through; and on no other.
pub proof fn law_others_are_not_drawn_on(
    limiter: LimiterView,
    address: Seq<char>,
    token: Seq<char>,
    now: u128,
    other: Seq<char>,
)
    ensures
        ({
            let plain = after_request(limiter, address, None, now);
            let next = after_request(limiter, address, Some(token), now);
            let by_address = bucket_of(limiter.addresses, limiter.limits, address, now);
            let by_token = bucket_of(limiter.tokens, limiter.limits, token, now);
            &&& next.limits == limiter.limits && plain.limits == limiter.limits
            &&& plain.tokens == limiter.tokens
            &&& plain.addresses == next.addresses
            &&& next.addresses.contains_key(address)
            &&& next.addresses[address] == drawn(limiter.limits, by_address, now)
            &&& other != address ==> next.addresses.get(other) == limiter.addresses.get(other)
            &&& other != token ==> next.tokens.get(other) == limiter.tokens.get(other)
            &&& lets_through(limiter, address, None, now) ==> next.tokens.contains_key(token)
                && next.tokens[token] == drawn(limiter.limits, by_token, now)
            &&& !lets_through(limiter, address, None, now) ==> next.tokens == limiter.tokens
        }),
{
}

/// A bucket is forgotten just where it is full again.
pub proof fn law_only_full_buckets_are_forgotten(limits: Limits, bucket: Bucket, now: u128)
    ensures
        refilled(limits, bucket, now) < limits.burst * 1_000_000_000 ==> worth_keeping(
            limits,
            Some(bucket),
            now,
        ) == Some(bucket),
        refilled(limits, bucket, now) >= limits.burst * 1_000_000_000 ==> worth_keeping(
            limits,
            Some(bucket),
            now,
        ) is None,
        worth_keeping(limits, None, now) is None,
{
}

}
