//! Per-user token-bucket rate limiting.
//!
//! Each user has a bucket holding up to `rpm` tokens that refills at `rpm`
//! tokens per minute; a request takes one token. Tokens are counted exactly
//! in units of 1/60,000,000,000 of a token, so that one nanosecond of refill
//! adds exactly `rpm` units and no rounding occurs. Time is a monotonic clock
//! reading in nanoseconds supplied by the caller.
use vstd::prelude::*;

verus! {

/// Units in one token: the nanoseconds in a minute.
pub const UNITS_PER_TOKEN: u128 = 60_000_000_000;

/// Nanoseconds in a second.
pub const NANOS_PER_SECOND: u128 = 1_000_000_000;

/// A user's bucket.
#[derive(Debug, Clone, Copy, PartialEq, Eq)]
pub struct Bucket {
    /// Tokens held, in units.
    pub tokens: u128,
    /// Clock reading of the last refill, in nanoseconds.
    pub last_refill_ns: u64,
}

/// The bucket of one user.
#[derive(Debug)]
pub struct UserBucket {
    pub user_id: String,
    pub bucket: Bucket,
}

/// A token-bucket limiter with one bucket per user.
#[derive(Debug)]
pub struct RateLimiter {
    rpm: u32,
    buckets: Vec<UserBucket>,
}

/// The capacity of a bucket, in units.
pub open spec fn capacity(rpm: int) -> int {
    rpm * UNITS_PER_TOKEN
}

/// The bucket a user starts with: full, refilled now.
pub open spec fn fresh_bucket(rpm: int, now: int) -> Bucket {
    Bucket { tokens: capacity(rpm) as u128, last_refill_ns: now as u64 }
}

/// The tokens of `b` after refilling it up to time `now` (time never runs
/// backwards: an earlier reading refills nothing).
pub open spec fn refilled_tokens(b: Bucket, rpm: int, now: int) -> int {
    let elapsed = if now > b.last_refill_ns { now - b.last_refill_ns } else { 0 };
    let t = b.tokens + elapsed * rpm;
    if t < capacity(rpm) {
        t
    } else {
        capacity(rpm)
    }
}

/// Whether a request at time `now` is let through by bucket `b`.
pub open spec fn allows(b: Bucket, rpm: int, now: int) -> bool {
    refilled_tokens(b, rpm, now) >= UNITS_PER_TOKEN
}

/// The bucket after a request at time `now`.
pub open spec fn after_request(b: Bucket, rpm: int, now: int) -> Bucket {
    Bucket {
        tokens: (if allows(b, rpm, now) {
            refilled_tokens(b, rpm, now) - UNITS_PER_TOKEN
        } else {
            refilled_tokens(b, rpm, now)
        }) as u128,
        last_refill_ns: now as u64,
    }
}

/// The whole seconds, counted from clock reading `now`, until `b` holds a
/// token: 0 when its refilled content already does; the largest `u64` when
/// it never refills.
pub open spec fn wait_seconds(b: Bucket, rpm: int, now: int) -> int {
    let deficit = UNITS_PER_TOKEN - refilled_tokens(b, rpm, now);
    if deficit <= 0 {
        0
    } else if rpm == 0 {
        u64::MAX as int
    } else {
        let rate = rpm * NANOS_PER_SECOND;
        (deficit + rate - 1) / rate
    }
}

/// The buckets by user.
pub open spec fn bucket_map(v: Seq<UserBucket>) -> Map<Seq<char>, Bucket>
    decreases v.len(),
{
    if v.len() == 0 {
        Map::empty()
    } else {
        bucket_map(v.drop_last()).insert(v.last().user_id@, v.last().bucket)
    }
}

proof fn lemma_bucket_map_index(v: Seq<UserBucket>, j: int)
    requires
        0 <= j < v.len(),
        forall|a: int, b: int|
            0 <= a < b < v.len() ==> (#[trigger] v[a]).user_id@ != (#[trigger] v[b]).user_id@,
    ensures
        bucket_map(v).contains_key(v[j].user_id@),
        bucket_map(v)[v[j].user_id@] == v[j].bucket,
    decreases v.len(),
{
    if j < v.len() - 1 {
        lemma_bucket_map_index(v.drop_last(), j);
        assert(v.drop_last()[j] == v[j]);
    }
}

proof fn lemma_bucket_map_absent(v: Seq<UserBucket>, k: Seq<char>)
    requires
        forall|j: int| 0 <= j < v.len() ==> (#[trigger] v[j]).user_id@ != k,
    ensures
        !bucket_map(v).contains_key(k),
    decreases v.len(),
{
    if v.len() > 0 {
        lemma_bucket_map_absent(v.drop_last(), k);
    }
}

proof fn lemma_bucket_map_update(v: Seq<UserBucket>, j: int, nb: UserBucket)
    requires
        0 <= j < v.len(),
        nb.user_id@ == v[j].user_id@,
        forall|a: int, b: int|
            0 <= a < b < v.len() ==> (#[trigger] v[a]).user_id@ != (#[trigger] v[b]).user_id@,
    ensures
        bucket_map(v.update(j, nb)) == bucket_map(v).insert(nb.user_id@, nb.bucket),
    decreases v.len(),
{
    let w = v.update(j, nb);
    if j == v.len() - 1 {
        assert(w.drop_last() =~= v.drop_last());
        assert(bucket_map(v).insert(nb.user_id@, nb.bucket) =~= bucket_map(v.drop_last()).insert(
            nb.user_id@,
            nb.bucket,
        ));
    } else {
        assert(w.drop_last() =~= v.drop_last().update(j, nb));
        lemma_bucket_map_update(v.drop_last(), j, nb);
        assert(bucket_map(w) =~= bucket_map(v).insert(nb.user_id@, nb.bucket));
    }
}

impl RateLimiter {
    /// Requests per minute, also the burst size.
    pub closed spec fn limit(&self) -> int {
        self.rpm as int
    }

    /// Requests per minute, also the burst size.
    pub fn rpm(&self) -> (r: u32)
        ensures
            r == self.limit(),
    {
        self.rpm
    }

    /// The buckets, by user.
    pub closed spec fn buckets(&self) -> Map<Seq<char>, Bucket> {
        bucket_map(self.buckets@)
    }

    /// Every user has one bucket, and no bucket holds more than the capacity.
    pub closed spec fn wf(&self) -> bool {
        &&& forall|a: int, b: int|
            0 <= a < b < self.buckets@.len() ==> (#[trigger] self.buckets@[a]).user_id@
                != (#[trigger] self.buckets@[b]).user_id@
        &&& forall|a: int|
            0 <= a < self.buckets@.len() ==> (#[trigger] self.buckets@[a]).bucket.tokens <= capacity(
                self.rpm as int,
            )
    }

    /// A limiter allowing `rpm` requests per minute per user, with a burst of
    /// `rpm`.
    pub fn new(rpm: u32) -> (r: Self)
        ensures
            r.wf(),
            r.limit() == rpm,
            r.buckets() == Map::<Seq<char>, Bucket>::empty(),
    {
        RateLimiter { rpm, buckets: Vec::new() }
    }

    fn find_user(&self, user_id: &String) -> (r: Option<usize>)
        ensures
            match r {
                Some(j) => j < self.buckets@.len() && self.buckets@[j as int].user_id@ == user_id@,
                None => forall|j: int|
                    0 <= j < self.buckets@.len() ==> (#[trigger] self.buckets@[j]).user_id@
                        != user_id@,
            },
    {
        let mut j: usize = 0;
        while j < self.buckets.len()
            invariant
                j <= self.buckets@.len(),
                forall|k: int| 0 <= k < j ==> (#[trigger] self.buckets@[k]).user_id@ != user_id@,
            decreases self.buckets@.len() - j,
        {
            if self.buckets[j].user_id == *user_id {
                return Some(j);
            }
            j = j + 1;
        }
        None
    }

    /// Lets a request of `user_id` at clock reading `now_ns` through if the
    /// user's bucket, refilled up to now, holds a token, and takes that token.
    /// A user's first request starts from a full bucket.
    pub fn check(&mut self, user_id: &str, now_ns: u64) -> (allowed: bool)
        requires
            old(self).wf(),
        ensures
            final(self).wf(),
            final(self).limit() == old(self).limit(),
            ({
                let b0 = if old(self).buckets().contains_key(user_id@) {
                    old(self).buckets()[user_id@]
                } else {
                    fresh_bucket(old(self).limit(), now_ns as int)
                };
                &&& allowed == allows(b0, old(self).limit(), now_ns as int)
                &&& final(self).buckets() == old(self).buckets().insert(
                    user_id@,
                    after_request(b0, old(self).limit(), now_ns as int),
                )
            }),
    {
        let key = String::from_str(user_id);
        let cap: u128 = (self.rpm as u128) * UNITS_PER_TOKEN;
        let idx = match self.find_user(&key) {
            Some(j) => {
                proof {
                    lemma_bucket_map_index(self.buckets@, j as int);
                }
                j
            },
            None => {
                proof {
                    lemma_bucket_map_absent(self.buckets@, key@);
                }
                let ghost before = self.buckets@;
                self.buckets.push(
                    UserBucket {
                        user_id: key.clone(),
                        bucket: Bucket { tokens: cap, last_refill_ns: now_ns },
                    },
                );
                proof {
                    assert(self.buckets@.drop_last() =~= before);
                    assert forall|a: int, b: int|
                        0 <= a < b < self.buckets@.len() implies (#[trigger] self.buckets@[a]).user_id@
                        != (#[trigger] self.buckets@[b]).user_id@ by {
                        if b == before.len() {
                            assert(self.buckets@[a] == before[a]);
                        }
                    }
                    lemma_bucket_map_index(self.buckets@, before.len() as int);
                    assert(bucket_map(self.buckets@) =~= bucket_map(before).insert(
                        key@,
                        fresh_bucket(self.rpm as int, now_ns as int),
                    ));
                }
                self.buckets.len() - 1
            },
        };
        let ghost mid = self.buckets@;
        let b = self.buckets[idx].bucket;
        let elapsed: u128 = if now_ns > b.last_refill_ns {
            (now_ns - b.last_refill_ns) as u128
        } else {
            0
        };
        assert(elapsed * self.rpm <= u64::MAX as int * u32::MAX as int) by (nonlinear_arith)
            requires
                elapsed <= u64::MAX,
                self.rpm <= u32::MAX,
        ;
        let gained: u128 = elapsed * (self.rpm as u128);
        let refilled: u128 = if b.tokens + gained < cap {
            b.tokens + gained
        } else {
            cap
        };
        let allowed = refilled >= UNITS_PER_TOKEN;
        let tokens = if allowed {
            refilled - UNITS_PER_TOKEN
        } else {
            refilled
        };
        let nb = UserBucket {
            user_id: key,
            bucket: Bucket { tokens, last_refill_ns: now_ns },
        };
        proof {
            lemma_bucket_map_update(mid, idx as int, nb);
        }
        self.buckets.set(idx, nb);
        proof {
            assert forall|a: int, c: int|
                0 <= a < c < self.buckets@.len() implies (#[trigger] self.buckets@[a]).user_id@
                != (#[trigger] self.buckets@[c]).user_id@ by {
                assert(self.buckets@[a].user_id@ == mid[a].user_id@);
                assert(self.buckets@[c].user_id@ == mid[c].user_id@);
            }
            assert forall|a: int|
                0 <= a < self.buckets@.len() implies (#[trigger] self.buckets@[a]).bucket.tokens
                <= capacity(self.rpm as int) by {
                if a != idx {
                    assert(self.buckets@[a] == mid[a]);
                }
            }
        }
        allowed
    }

    /// Whole seconds, counted from clock reading `now_ns`, until `user_id`'s
    /// bucket will hold a token: 0 when one is already available (after
    /// refilling up to `now_ns`) or when the user has no bucket yet. The
    /// limiter is not changed.
    pub fn seconds_until_ready(&self, user_id: &str, now_ns: u64) -> (r: u64)
        requires
            self.wf(),
        ensures
            r == if self.buckets().contains_key(user_id@) {
                wait_seconds(self.buckets()[user_id@], self.limit(), now_ns as int)
            } else {
                0
            },
    {
        let key = String::from_str(user_id);
        match self.find_user(&key) {
            Some(j) => {
                proof {
                    lemma_bucket_map_index(self.buckets@, j as int);
                }
                let b = self.buckets[j].bucket;
                let cap: u128 = (self.rpm as u128) * UNITS_PER_TOKEN;
                let elapsed: u128 = if now_ns > b.last_refill_ns {
                    (now_ns - b.last_refill_ns) as u128
                } else {
                    0
                };
                assert(elapsed * self.rpm <= u64::MAX as int * u32::MAX as int) by (nonlinear_arith)
                    requires
                        elapsed <= u64::MAX,
                        self.rpm <= u32::MAX,
                ;
                let gained: u128 = elapsed * (self.rpm as u128);
                let refilled: u128 = if b.tokens + gained < cap {
                    b.tokens + gained
                } else {
                    cap
                };
                if refilled >= UNITS_PER_TOKEN {
                    0
                } else if self.rpm == 0 {
                    u64::MAX
                } else {
                    let deficit: u128 = UNITS_PER_TOKEN - refilled;
                    let rate: u128 = (self.rpm as u128) * NANOS_PER_SECOND;
                    let secs = (deficit + rate - 1) / rate;
                    assert(secs <= deficit) by (nonlinear_arith)
                        requires
                            rate >= NANOS_PER_SECOND,
                            deficit >= 1,
                            secs == (deficit + rate - 1) as int / rate as int,
                    ;
                    secs as u64
                }
            },
            None => {
                proof {
                    lemma_bucket_map_absent(self.buckets@, key@);
                }
                0
            },
        }
    }
}

/// A request is let through exactly when the refilled bucket holds a token,
/// and a bucket never holds more than its capacity.
pub proof fn law_bucket_bounded(b: Bucket, rpm: int, now: int)
    requires
        0 <= rpm <= u32::MAX,
        b.tokens <= capacity(rpm),
    ensures
        0 <= refilled_tokens(b, rpm, now) <= capacity(rpm),
        after_request(b, rpm, now).tokens <= capacity(rpm),
        allows(b, rpm, now) ==> after_request(b, rpm, now).tokens == refilled_tokens(b, rpm, now)
            - UNITS_PER_TOKEN,
{
    let elapsed = if now > b.last_refill_ns { now - b.last_refill_ns } else { 0 };
    assert(elapsed * rpm >= 0) by (nonlinear_arith)
        requires
            elapsed >= 0,
            rpm >= 0,
    ;
    assert(capacity(rpm) <= u32::MAX * UNITS_PER_TOKEN) by (nonlinear_arith)
        requires
            0 <= rpm <= u32::MAX,
    ;
}

/// The state of a bucket after `k` requests made at the same instant.
pub open spec fn after_requests_at(b: Bucket, rpm: int, now: int, k: nat) -> Bucket
    decreases k,
{
    if k == 0 {
        b
    } else {
        after_request(after_requests_at(b, rpm, now, (k - 1) as nat), rpm, now)
    }
}

/// A new user may make `rpm` requests at once (the burst); each is let
/// through, and the one after them is refused until time passes.
pub proof fn law_burst_of_rpm(rpm: int, now: int)
    requires
        0 <= rpm <= u32::MAX,
        0 <= now <= u64::MAX,
    ensures
        forall|k: nat| k < rpm ==> #[trigger] allows(after_requests_at(fresh_bucket(rpm, now), rpm, now, k), rpm, now),
        !allows(after_requests_at(fresh_bucket(rpm, now), rpm, now, rpm as nat), rpm, now),
{
    assert forall|k: nat| k <= rpm implies #[trigger] after_requests_at(fresh_bucket(rpm, now), rpm, now, k)
        == (Bucket { tokens: ((rpm - k) * UNITS_PER_TOKEN) as u128, last_refill_ns: now as u64 }) by {
        lemma_burst_step(rpm, now, k);
    }
    assert forall|k: nat| k < rpm implies #[trigger] allows(after_requests_at(fresh_bucket(rpm, now), rpm, now, k), rpm, now) by {
        assert(after_requests_at(fresh_bucket(rpm, now), rpm, now, k) == (Bucket {
            tokens: ((rpm - k) * UNITS_PER_TOKEN) as u128,
            last_refill_ns: now as u64,
        }));
        assert((rpm - k) * UNITS_PER_TOKEN >= UNITS_PER_TOKEN) by (nonlinear_arith)
            requires
                rpm - k >= 1,
        ;
    }
    assert(after_requests_at(fresh_bucket(rpm, now), rpm, now, rpm as nat) == (Bucket {
        tokens: 0,
        last_refill_ns: now as u64,
    }));
}

proof fn lemma_burst_step(rpm: int, now: int, k: nat)
    requires
        0 <= rpm <= u32::MAX,
        0 <= now <= u64::MAX,
        k <= rpm,
    ensures
        after_requests_at(fresh_bucket(rpm, now), rpm, now, k) == (Bucket {
            tokens: ((rpm - k) * UNITS_PER_TOKEN) as u128,
            last_refill_ns: now as u64,
        }),
    decreases k,
{
    assert(0 <= rpm * UNITS_PER_TOKEN <= u32::MAX * UNITS_PER_TOKEN) by (nonlinear_arith)
        requires
            0 <= rpm <= u32::MAX,
    ;
    if k > 0 {
        lemma_burst_step(rpm, now, (k - 1) as nat);
        assert((rpm - (k - 1)) * UNITS_PER_TOKEN - UNITS_PER_TOKEN == (rpm - k) * UNITS_PER_TOKEN)
            by (nonlinear_arith);
        assert(0 <= (rpm - k) * UNITS_PER_TOKEN <= (rpm - (k - 1)) * UNITS_PER_TOKEN) by (nonlinear_arith)
            requires
                k <= rpm,
        ;
        assert((rpm - (k - 1)) * UNITS_PER_TOKEN >= UNITS_PER_TOKEN) by (nonlinear_arith)
            requires
                rpm - (k - 1) >= 1,
        ;
    }
}

/// The wait that `seconds_until_ready` reports at clock reading `now` is
/// exact: a request made that many seconds after `now` is let through, and
/// (when the wait is not zero) a request one second earlier is not. The clock
/// does not run backwards: `now` is not before the bucket's last refill.
pub proof fn law_wait_is_exact(b: Bucket, rpm: int, now: int)
    requires
        1 <= rpm <= u32::MAX,
        b.tokens <= capacity(rpm),
        b.last_refill_ns <= now,
    ensures
        allows(b, rpm, now + wait_seconds(b, rpm, now) * NANOS_PER_SECOND),
        wait_seconds(b, rpm, now) > 0 ==> !allows(
            b,
            rpm,
            now + (wait_seconds(b, rpm, now) - 1) * NANOS_PER_SECOND,
        ),
{
    let t = refilled_tokens(b, rpm, now);
    let deficit = UNITS_PER_TOKEN - t;
    let rate = rpm * NANOS_PER_SECOND;
    let s = wait_seconds(b, rpm, now);
    let e = now - b.last_refill_ns;
    assert(capacity(rpm) >= UNITS_PER_TOKEN) by (nonlinear_arith)
        requires
            rpm >= 1,
    ;
    assert(e * rpm >= 0) by (nonlinear_arith)
        requires
            e >= 0,
            rpm >= 1,
    ;
    if deficit > 0 {
        // Not capped: the capacity holds a whole token.
        assert(t == b.tokens + e * rpm);
        assert(s * rate >= deficit && (s - 1) * rate < deficit && s >= 1) by (nonlinear_arith)
            requires
                rate >= 1,
                deficit >= 1,
                s == (deficit + rate - 1) / rate,
        ;
        assert((e + s * NANOS_PER_SECOND) * rpm == e * rpm + s * rate) by (nonlinear_arith)
            requires
                rate == rpm * NANOS_PER_SECOND,
        ;
        assert((e + (s - 1) * NANOS_PER_SECOND) * rpm == e * rpm + (s - 1) * rate) by (nonlinear_arith)
            requires
                rate == rpm * NANOS_PER_SECOND,
        ;
        assert(s * NANOS_PER_SECOND >= NANOS_PER_SECOND) by (nonlinear_arith)
            requires
                s >= 1,
        ;
        assert((s - 1) * NANOS_PER_SECOND >= 0) by (nonlinear_arith)
            requires
                s >= 1,
        ;
        assert(now + s * NANOS_PER_SECOND - b.last_refill_ns == e + s * NANOS_PER_SECOND);
        assert(now + (s - 1) * NANOS_PER_SECOND - b.last_refill_ns == e + (s - 1) * NANOS_PER_SECOND);
    } else {
        assert(s == 0);
    }
}

} // verus!
