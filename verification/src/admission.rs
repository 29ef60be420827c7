//! Admission control around the unseal endpoint: a body-size cap and a
//! per-source token-bucket rate limit, applied in that order so that cheap
//! checks reject before any cryptographic work runs. The request timeout is
//! wall-clock work of the caller; only its error and status mapping live
//! here.
//!
//! The bucket arithmetic is in thousandths of a token, so a refill rate in
//! whole tokens per second divides evenly over milliseconds.

use vstd::prelude::*;
use vstd::math::min;

verus! {

/// Errors of the admission layer; each rejects a request before the gateway
/// is touched.
#[derive(Clone, Copy, Debug, PartialEq, Eq, Structural)]
pub enum AdmissionError {
    /// The request body passes the fixed size ceiling.
    BodyTooLarge,
    /// The source's token bucket is empty.
    RateLimited,
    /// Handling the request passed the fixed wall-clock bound.
    Timeout,
}

/// The deterministic HTTP status of each admission error.
pub open spec fn admission_status_of(e: AdmissionError) -> u16 {
    match e {
        AdmissionError::BodyTooLarge => 413,
        AdmissionError::RateLimited => 429,
        AdmissionError::Timeout => 504,
    }
}

impl AdmissionError {
    /// The HTTP status this error maps to.
    pub fn http_status(&self) -> (r: u16)
        ensures
            r == admission_status_of(*self),
    {
        match self {
            AdmissionError::BodyTooLarge => 413,
            AdmissionError::RateLimited => 429,
            AdmissionError::Timeout => 504,
        }
    }
}

/// The rate limiter's policy: refill rate in tokens per second and the
/// burst size, both configurable rather than hardcoded.
#[derive(Clone, Copy, Debug, PartialEq, Eq, Structural)]
pub struct RateLimiterConfig {
    /// Tokens gained per second of quiet.
    pub refill_per_sec: u64,
    /// The bucket's capacity: how many requests a burst may spend at once.
    pub burst: u64,
}

impl RateLimiterConfig {
    /// Positive rates within bounds that keep the arithmetic exact.
    pub open spec fn wf(&self) -> bool {
        1 <= self.refill_per_sec <= 1000000 && 1 <= self.burst <= 1000000
    }
}

/// One source's bucket: its remaining thousandths of a token and the last
/// time it was brought up to date.
struct Bucket {
    source: u64,
    milli_tokens: u64,
    last_ms: u64,
}

/// The bucket capacity in thousandths of a token.
pub open spec fn capacity_milli(c: RateLimiterConfig) -> int {
    c.burst * 1000
}

/// The thousandths of a token a source has at `now_ms`, given its stored
/// entry: a full bucket for a source never seen, otherwise the stored amount
/// refilled for the elapsed time and capped at the capacity. A clock that
/// stands still or runs backwards refills nothing.
pub open spec fn available_milli(
    c: RateLimiterConfig,
    entry: Option<(u64, u64)>,
    now_ms: u64,
) -> int {
    match entry {
        Option::None => capacity_milli(c),
        Option::Some((tokens, last)) => if now_ms <= last {
            tokens as int
        } else {
            min(capacity_milli(c), tokens + (now_ms - last) * c.refill_per_sec)
        },
    }
}

/// Whether a request from a source with this entry is admitted at `now_ms`:
/// exactly when a whole token is available.
pub open spec fn admits(c: RateLimiterConfig, entry: Option<(u64, u64)>, now_ms: u64) -> bool {
    available_milli(c, entry, now_ms) >= 1000
}

/// The thousandths of a token left after the decision: one token is spent
/// exactly when the request is admitted.
pub open spec fn tokens_after(c: RateLimiterConfig, entry: Option<(u64, u64)>, now_ms: u64) -> int {
    if admits(c, entry, now_ms) {
        available_milli(c, entry, now_ms) - 1000
    } else {
        available_milli(c, entry, now_ms)
    }
}

/// The stored buckets as a map from source to (thousandths, last update).
spec fn map_of(s: Seq<Bucket>) -> Map<u64, (u64, u64)>
    decreases s.len(),
{
    if s.len() == 0 {
        Map::empty()
    } else {
        map_of(s.drop_last()).insert(
            s.last().source,
            (s.last().milli_tokens, s.last().last_ms),
        )
    }
}

/// Each source appears at most once among the stored buckets.
spec fn sources_unique(s: Seq<Bucket>) -> bool {
    forall|i: int, j: int| 0 <= i < j < s.len() ==> s[i].source != s[j].source
}

proof fn lemma_map_of_contains(s: Seq<Bucket>, k: u64)
    ensures
        map_of(s).contains_key(k) <==> exists|i: int| 0 <= i < s.len() && s[i].source == k,
    decreases s.len(),
{
    if s.len() > 0 {
        lemma_map_of_contains(s.drop_last(), k);
        if s.last().source != k {
            if map_of(s).contains_key(k) {
                let i = choose|i: int| 0 <= i < s.drop_last().len() && s.drop_last()[i].source == k;
                assert(s[i].source == k);
            }
            if exists|i: int| 0 <= i < s.len() && s[i].source == k {
                let i = choose|i: int| 0 <= i < s.len() && s[i].source == k;
                assert(s.drop_last()[i].source == k);
            }
        }
    }
}

proof fn lemma_map_of_index(s: Seq<Bucket>, i: int)
    requires
        sources_unique(s),
        0 <= i < s.len(),
    ensures
        map_of(s).contains_key(s[i].source),
        map_of(s)[s[i].source] == (s[i].milli_tokens, s[i].last_ms),
    decreases s.len(),
{
    if i < s.len() - 1 {
        lemma_map_of_index(s.drop_last(), i);
        assert(s.drop_last()[i] == s[i]);
    }
}

proof fn lemma_map_of_update(s: Seq<Bucket>, i: int, b: Bucket)
    requires
        sources_unique(s),
        0 <= i < s.len(),
        b.source == s[i].source,
    ensures
        map_of(s.update(i, b)) == map_of(s).insert(b.source, (b.milli_tokens, b.last_ms)),
    decreases s.len(),
{
    let t = s.update(i, b);
    if i == s.len() - 1 {
        assert(t.drop_last() =~= s.drop_last());
        assert(t.last() == b);
        assert(map_of(t) =~= map_of(s).insert(b.source, (b.milli_tokens, b.last_ms)));
    } else {
        lemma_map_of_update(s.drop_last(), i, b);
        assert(t.drop_last() =~= s.drop_last().update(i, b));
        assert(t.last() == s.last());
        assert(s[i].source != s.last().source);
        assert(map_of(t) =~= map_of(s).insert(b.source, (b.milli_tokens, b.last_ms)));
    }
}

/// The per-source rate limiter: the policy plus one bucket per source seen.
pub struct RateLimiter {
    config: RateLimiterConfig,
    buckets: Vec<Bucket>,
}

impl View for RateLimiter {
    type V = Map<u64, (u64, u64)>;

    closed spec fn view(&self) -> Map<u64, (u64, u64)> {
        map_of(self.buckets@)
    }
}

impl RateLimiter {
    /// The configured policy.
    pub closed spec fn config_spec(&self) -> RateLimiterConfig {
        self.config
    }

    /// The stored entry of a source, if it has one.
    pub open spec fn entry(&self, source: u64) -> Option<(u64, u64)> {
        if self@.contains_key(source) {
            Option::Some(self@[source])
        } else {
            Option::None
        }
    }

    /// Sound policy, one bucket per source, and no bucket past capacity.
    pub closed spec fn wf(&self) -> bool {
        &&& self.config.wf()
        &&& sources_unique(self.buckets@)
        &&& forall|i: int|
            0 <= i < self.buckets@.len() ==> self.buckets@[i].milli_tokens <= capacity_milli(
                self.config,
            )
    }

    /// A fresh limiter with the given policy and no source seen yet.
    pub fn new(config: RateLimiterConfig) -> (r: RateLimiter)
        requires
            config.wf(),
        ensures
            r.wf(),
            r.config_spec() == config,
            r@ == Map::<u64, (u64, u64)>::empty(),
    {
        RateLimiter { config, buckets: Vec::new() }
    }

    fn find_bucket(&self, source: u64) -> (r: Option<usize>)
        ensures
            match r {
                Some(i) => i < self.buckets@.len() && self.buckets@[i as int].source == source,
                None => forall|i: int|
                    0 <= i < self.buckets@.len() ==> self.buckets@[i].source != source,
            },
    {
        let mut i: usize = 0;
        while i < self.buckets.len()
            invariant
                i <= self.buckets@.len(),
                forall|j: int| 0 <= j < i ==> self.buckets@[j].source != source,
            decreases self.buckets@.len() - i,
        {
            if self.buckets[i].source == source {
                return Some(i);
            }
            i = i + 1;
        }
        None
    }

    /// One rate-limit decision for one request from `source` at `now_ms`.
    /// Admits exactly where a whole token is available, spends it, and
    /// stores the refilled bucket either way.
    pub fn take_token(&mut self, source: u64, now_ms: u64) -> (r: bool)
        requires
            old(self).wf(),
        ensures
            final(self).wf(),
            final(self).config_spec() == old(self).config_spec(),
            r == admits(old(self).config_spec(), old(self).entry(source), now_ms),
            final(self)@ == old(self)@.insert(
                source,
                (
                    tokens_after(old(self).config_spec(), old(self).entry(source), now_ms) as u64,
                    now_ms,
                ),
            ),
    {
        let cap128: u128 = (self.config.burst as u128) * 1000;
        let found = self.find_bucket(source);
        let available: u64 = match found {
            Some(i) => {
                proof {
                    lemma_map_of_index(self.buckets@, i as int);
                }
                let tokens = self.buckets[i].milli_tokens;
                let last = self.buckets[i].last_ms;
                if now_ms <= last {
                    tokens
                } else {
                    let elapsed: u64 = now_ms - last;
                    let refill: u64 = self.config.refill_per_sec;
                    proof {
                        assert((elapsed as int) * (refill as int) <= 18446744073709551615
                            * 1000000) by (nonlinear_arith)
                            requires
                                elapsed <= 18446744073709551615u64,
                                refill <= 1000000u64,
                        ;
                    }
                    let gained: u128 = (elapsed as u128) * (refill as u128);
                    let sum: u128 = (tokens as u128) + gained;
                    let capped: u128 = if sum < cap128 {
                        sum
                    } else {
                        cap128
                    };
                    capped as u64
                }
            },
            None => {
                proof {
                    lemma_map_of_contains(self.buckets@, source);
                }
                (self.config.burst * 1000) as u64
            },
        };
        let admitted = available >= 1000;
        let left = if admitted {
            available - 1000
        } else {
            available
        };
        match found {
            Some(i) => {
                let ghost before = self.buckets@;
                self.buckets[i] = Bucket { source, milli_tokens: left, last_ms: now_ms };
                proof {
                    lemma_map_of_update(
                        before,
                        i as int,
                        Bucket { source, milli_tokens: left, last_ms: now_ms },
                    );
                }
            },
            None => {
                self.buckets.push(Bucket { source, milli_tokens: left, last_ms: now_ms });
                proof {
                    assert(self.buckets@.drop_last() =~= old(self).buckets@);
                }
            },
        }
        admitted
    }

    /// The whole admission decision for one request, in the required order:
    /// the body-size cap rejects first, then the rate limit; only then may
    /// the caller hand the payload to the gateway.
    pub fn admit_request(
        &mut self,
        source: u64,
        now_ms: u64,
        body_len: usize,
        body_cap: usize,
    ) -> (r: Result<(), AdmissionError>)
        requires
            old(self).wf(),
        ensures
            final(self).wf(),
            final(self).config_spec() == old(self).config_spec(),
            body_len > body_cap ==> r == Result::<(), AdmissionError>::Err(
                AdmissionError::BodyTooLarge,
            ) && *final(self) == *old(self),
            body_len <= body_cap ==> {
                &&& r == if admits(old(self).config_spec(), old(self).entry(source), now_ms) {
                    Result::<(), AdmissionError>::Ok(())
                } else {
                    Result::<(), AdmissionError>::Err(AdmissionError::RateLimited)
                }
                &&& final(self)@ == old(self)@.insert(
                    source,
                    (
                        tokens_after(
                            old(self).config_spec(),
                            old(self).entry(source),
                            now_ms,
                        ) as u64,
                        now_ms,
                    ),
                )
            },
    {
        if body_len > body_cap {
            return Err(AdmissionError::BodyTooLarge);
        }
        if self.take_token(source, now_ms) {
            Ok(())
        } else {
            Err(AdmissionError::RateLimited)
        }
    }
}

} // verus!
