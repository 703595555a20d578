use crate::config::RateLimitConfig;
use crate::text::{
    find_char, first_index, parse_u32, parse_u64, parsed_u32, parsed_u64, split_char, split_on,
};
use crate::token_bucket::{
    acquire_step, fresh, refilled, state_ok, BucketState, TokenBucket, ONE_SECOND_MS,
    TWO_MINUTES_MS,
};
use dashmap::DashMap;
use vstd::prelude::*;
use vstd::string::*;

verus! {

#[verifier::external_type_specification]
#[verifier::external_body]
#[verifier::reject_recursive_types(K)]
#[verifier::reject_recursive_types(V)]
#[verifier::reject_recursive_types(S)]
pub struct ExDashMap<K, V, S>(DashMap<K, V, S>);

/// Token buckets keyed by `path:region` or `service:region`.
pub type BucketMap = DashMap<String, TokenBucket>;

/// The buckets that a keyed bucket map holds.
pub uninterp spec fn bucket_map(m: BucketMap) -> Map<Seq<char>, TokenBucket>;

/// Relies on `DashMap::new`: a map with no entries.
#[verifier::external_body]
fn new_bucket_map() -> (r: BucketMap)
    ensures
        bucket_map(r).dom() == Set::<Seq<char>>::empty(),
{
    DashMap::new()
}

/// Relies on `DashMap::get`: the value stored under `key`, if any.
#[verifier::external_body]
fn lookup_bucket(m: &BucketMap, key: &String) -> (r: Option<TokenBucket>)
    ensures
        bucket_map(*m).contains_key(key@) ==> r == Some(bucket_map(*m)[key@]),
        !bucket_map(*m).contains_key(key@) ==> r is None,
{
    m.get(key).map(|entry| *entry)
}

/// Relies on `DashMap::insert`: stores `b` under `key`, replacing what was there.
#[verifier::external_body]
fn store_bucket(m: &mut BucketMap, key: String, b: TokenBucket)
    ensures
        bucket_map(*final(m)) == bucket_map(*old(m)).insert(key@, b),
{
    m.insert(key, b);
}

/// Relies on `DashMap::len`: the number of entries.
#[verifier::external_body]
fn bucket_count(m: &BucketMap) -> (n: usize)
    ensures
        n == bucket_map(*m).len(),
{
    m.len()
}

/// The bucket states of a keyed bucket map.
pub open spec fn states(m: Map<Seq<char>, TokenBucket>) -> Map<Seq<char>, BucketState> {
    m.map_values(|b: TokenBucket| b@)
}

/// The mathematical state of a rate limiter.
pub ghost struct LimiterView {
    pub app_second: BucketState,
    pub app_two_minutes: BucketState,
    pub methods: Map<Seq<char>, BucketState>,
    pub services: Map<Seq<char>, BucketState>,
}

/// Key of the per-method bucket of an endpoint path in a region.
pub open spec fn method_key(endpoint: Seq<char>, region: Seq<char>) -> Seq<char> {
    endpoint + ":"@ + region
}

/// The service of an endpoint path: its third `/`-separated segment
/// (`/lol/match/v5/...` gives `match`), or `unknown` when there is none.
pub open spec fn service_of(endpoint: Seq<char>) -> Seq<char> {
    let parts = split_on(endpoint, '/');
    if parts.len() >= 3 {
        parts[2]
    } else {
        "unknown"@
    }
}

/// Key of the per-service bucket of an endpoint path in a region.
pub open spec fn service_key(endpoint: Seq<char>, region: Seq<char>) -> Seq<char> {
    service_of(endpoint) + ":"@ + region
}

/// The default per-method bucket: 20 per second.
pub open spec fn default_method_bucket(now: nat) -> BucketState {
    fresh(20, 20, ONE_SECOND_MS as nat, now)
}

/// The default per-service bucket: 100 per second.
pub open spec fn default_service_bucket(now: nat) -> BucketState {
    fresh(100, 100, ONE_SECOND_MS as nat, now)
}

/// The bucket under `key`, or `default` where there is none yet.
pub open spec fn keyed_or(m: Map<Seq<char>, BucketState>, key: Seq<char>, default: BucketState) -> BucketState {
    if m.contains_key(key) {
        m[key]
    } else {
        default
    }
}

/// A `count:window` pair of a limit header, split at its first `:`.
pub open spec fn limit_pair(p: Seq<char>) -> Option<(u32, u64)> {
    let j = first_index(p, ':');
    if j < p.len() {
        match (parsed_u32(p.subrange(0, j as int)), parsed_u64(p.subrange(j as int + 1, p.len() as int))) {
            (Some(c), Some(w)) => Some((c, w)),
            _ => None,
        }
    } else {
        None
    }
}

/// The two application buckets after one pair of an application limit header:
/// a one-second window replaces the per-second bucket, a 120-second window the
/// two-minute bucket, each with a fresh, full one; anything else changes nothing.
pub open spec fn app_apply(b: (BucketState, BucketState), p: Seq<char>, now: nat) -> (BucketState, BucketState) {
    match limit_pair(p) {
        Some((c, w)) => if w == 1 {
            (fresh(c as nat, c as nat, ONE_SECOND_MS as nat, now), b.1)
        } else if w == 120 {
            (b.0, fresh(c as nat, c as nat, TWO_MINUTES_MS as nat, now))
        } else {
            b
        },
        None => b,
    }
}

/// The two application buckets after every pair, in order.
pub open spec fn app_after(b: (BucketState, BucketState), ps: Seq<Seq<char>>, now: nat) -> (BucketState, BucketState)
    decreases ps.len(),
{
    if ps.len() == 0 {
        b
    } else {
        app_apply(app_after(b, ps.drop_last(), now), ps.last(), now)
    }
}

/// The count of the first pair with a one-second window.
pub open spec fn first_second_limit(ps: Seq<Seq<char>>) -> Option<u32>
    decreases ps.len(),
{
    if ps.len() == 0 {
        None
    } else {
        match limit_pair(ps[0]) {
            Some((c, w)) if w == 1 => Some(c),
            _ => first_second_limit(ps.drop_first()),
        }
    }
}

/// The keyed buckets after a method or service limit header: the bucket under
/// `key` is replaced by a fresh, full one if the header has a one-second pair;
/// otherwise nothing changes.
pub open spec fn keyed_after(
    m: Map<Seq<char>, BucketState>,
    key: Seq<char>,
    header: Seq<char>,
    now: nat,
) -> Map<Seq<char>, BucketState> {
    match first_second_limit(split_on(header, ',')) {
        Some(c) => m.insert(key, fresh(c as nat, c as nat, ONE_SECOND_MS as nat, now)),
        None => m,
    }
}

/// How long to sleep after a 429: the `Retry-After` seconds if given, else the
/// configured retry delay, in milliseconds.
pub open spec fn cooldown_ms(retry_after: Option<u64>, retry_delay_ms: u64) -> nat {
    match retry_after {
        Some(s) => s as nat * 1000,
        None => retry_delay_ms as nat,
    }
}

/// `base * 2^exp`, saturated at `u64::MAX`.
pub open spec fn backoff_ms(base: u64, exp: nat) -> u64 {
    let v = base as nat * vstd::arithmetic::power2::pow2(exp);
    if v <= u64::MAX {
        v as u64
    } else {
        u64::MAX
    }
}

/// The exponential backoff delay `base * 2^exp`, saturated at `u64::MAX`.
pub fn backoff_delay(base: u64, exp: u32) -> (ms: u64)
    ensures
        ms == backoff_ms(base, exp as nat),
{
    let mut v: u64 = base;
    let mut i: u32 = 0;
    let mut saturated = false;
    proof {
        vstd::arithmetic::power2::lemma2_to64();
    }
    while i < exp
        invariant
            i <= exp,
            !saturated ==> v as nat == base as nat * vstd::arithmetic::power2::pow2(i as nat),
            saturated ==> v == u64::MAX && base as nat * vstd::arithmetic::power2::pow2(i as nat) > u64::MAX,
        decreases exp - i,
    {
        proof {
            vstd::arithmetic::power2::lemma_pow2_unfold((i + 1) as nat);
            assert(base as nat * vstd::arithmetic::power2::pow2((i + 1) as nat) == 2 * (base as nat
                * vstd::arithmetic::power2::pow2(i as nat))) by (nonlinear_arith)
                requires
                    vstd::arithmetic::power2::pow2((i + 1) as nat) == 2 * vstd::arithmetic::power2::pow2(
                        i as nat,
                    ),
            ;
        }
        if !saturated {
            if v > u64::MAX / 2 {
                v = u64::MAX;
                saturated = true;
            } else {
                v = v * 2;
            }
        }
        i = i + 1;
    }
    v
}

/// What an acquire attempt decided.
#[derive(Clone, Copy, Debug, PartialEq, Eq, Structural)]
pub enum PermitStep {
    /// Every bucket gave a token.
    Granted,
    /// Some bucket was short: sleep this many milliseconds and try again.
    Wait(u64),
    /// No attempts are left.
    Exhausted,
}

/// Token counts and bucket counts for health reports.
#[derive(Clone, Copy, Debug, PartialEq, Eq, Structural)]
pub struct RateLimitStatus {
    pub application_tokens_per_second: u32,
    pub application_tokens_per_two_minutes: u32,
    pub method_limiters_count: usize,
    pub service_limiters_count: usize,
}

/// Buckets of four limit classes, all of which a request must pass.
pub struct RateLimiter {
    application_limiter_per_second: TokenBucket,
    application_limiter_per_two_minutes: TokenBucket,
    method_limiters: BucketMap,
    service_limiters: BucketMap,
    config: RateLimitConfig,
}

impl View for RateLimiter {
    type V = LimiterView;

    closed spec fn view(&self) -> LimiterView {
        LimiterView {
            app_second: self.application_limiter_per_second@,
            app_two_minutes: self.application_limiter_per_two_minutes@,
            methods: states(bucket_map(self.method_limiters)),
            services: states(bucket_map(self.service_limiters)),
        }
    }
}

/// The outcome of taking one token from each bucket in turn, stopping
/// at the first that is short: the new limiter view and whether all passed.
pub open spec fn acquire_all_step(v: LimiterView, endpoint: Seq<char>, region: Seq<char>, now: nat) -> (LimiterView, bool) {
    let (s1, ok1) = acquire_step(v.app_second, now, 1);
    let (s2, ok2) = acquire_step(v.app_two_minutes, now, 1);
    let mk = method_key(endpoint, region);
    let (s3, ok3) = acquire_step(keyed_or(v.methods, mk, default_method_bucket(now)), now, 1);
    let sk = service_key(endpoint, region);
    let (s4, ok4) = acquire_step(keyed_or(v.services, sk, default_service_bucket(now)), now, 1);
    if !ok1 {
        (LimiterView { app_second: s1, ..v }, false)
    } else if !ok2 {
        (LimiterView { app_second: s1, app_two_minutes: s2, ..v }, false)
    } else if !ok3 {
        (LimiterView { app_second: s1, app_two_minutes: s2, methods: v.methods.insert(mk, s3), ..v }, false)
    } else {
        (
            LimiterView {
                app_second: s1,
                app_two_minutes: s2,
                methods: v.methods.insert(mk, s3),
                services: v.services.insert(sk, s4),
            },
            ok4,
        )
    }
}

pub open spec fn all_ok(m: Map<Seq<char>, BucketState>) -> bool {
    forall|k: Seq<char>| #[trigger] m.contains_key(k) ==> state_ok(m[k])
}

proof fn lemma_states_insert(m: Map<Seq<char>, TokenBucket>, k: Seq<char>, b: TokenBucket)
    ensures
        states(m.insert(k, b)) == states(m).insert(k, b@),
{
    assert(states(m.insert(k, b)) =~= states(m).insert(k, b@));
}

proof fn lemma_states_get(m: Map<Seq<char>, TokenBucket>, k: Seq<char>)
    ensures
        m.contains_key(k) ==> states(m).contains_key(k) && states(m)[k] == m[k]@,
        !m.contains_key(k) ==> !states(m).contains_key(k),
{
}

/// Extracts the service segment of an endpoint path.
pub fn extract_service_from_endpoint(endpoint: &str) -> (r: String)
    ensures
        r@ == service_of(endpoint@),
{
    let parts = split_char(endpoint, '/');
    if parts.len() >= 3 {
        proof {
            assert(parts@.map_values(|p: String| p@)[2] == parts@[2]@);
        }
        parts[2].clone()
    } else {
        String::from_str("unknown")
    }
}

fn keyed(a: &str, region: &str) -> (r: String)
    ensures
        r@ == a@ + ":"@ + region@,
{
    let mut k = String::from_str(a);
    k.append(":");
    k.append(region);
    k
}

fn parse_limit_pair(p: &str) -> (r: Option<(u32, u64)>)
    ensures
        r == limit_pair(p@),
{
    let n = p.unicode_len();
    let j = find_char(p, ':');
    if j < n {
        let c = parse_u32(p.substring_char(0, j));
        let w = parse_u64(p.substring_char(j + 1, n));
        match (c, w) {
            (Some(c), Some(w)) => Some((c, w)),
            _ => None,
        }
    } else {
        None
    }
}

fn first_second_count(header: &str) -> (r: Option<u32>)
    ensures
        r == first_second_limit(split_on(header@, ',')),
{
    let pieces = split_char(header, ',');
    let ghost ps = split_on(header@, ',');
    let mut i: usize = 0;
    assert(ps.subrange(0, ps.len() as int) =~= ps);
    while i < pieces.len()
        invariant
            i <= pieces@.len(),
            pieces@.map_values(|p: String| p@) == ps,
            ps == split_on(header@, ','),
            first_second_limit(ps) == first_second_limit(ps.subrange(i as int, ps.len() as int)),
        decreases pieces@.len() - i,
    {
        proof {
            assert(ps[i as int] == pieces@[i as int]@);
            assert(ps.subrange(i as int, ps.len() as int).drop_first() =~= ps.subrange(i + 1, ps.len() as int));
            assert(ps.subrange(i as int, ps.len() as int)[0] == ps[i as int]);
        }
        match parse_limit_pair(pieces[i].as_str()) {
            Some((c, w)) => {
                if w == 1 {
                    proof {
                        let sub = ps.subrange(i as int, ps.len() as int);
                        assert(limit_pair(sub[0]) == Some((c, w)));
                        assert(first_second_limit(sub) == Some(c));
                    }
                    return Some(c);
                }
            },
            None => {},
        }
        i = i + 1;
    }
    proof {
        assert(ps.subrange(i as int, ps.len() as int).len() == 0);
    }
    None
}

impl RateLimiter {
    /// Every bucket keeps its tokens within its capacity and has a positive interval.
    pub closed spec fn wf(&self) -> bool {
        &&& self.application_limiter_per_second.wf()
        &&& self.application_limiter_per_two_minutes.wf()
        &&& all_ok(self@.methods)
        &&& all_ok(self@.services)
    }

    pub closed spec fn settings(&self) -> RateLimitConfig {
        self.config
    }

    /// Full application buckets from `config` and no keyed buckets yet.
    pub fn new(config: RateLimitConfig, now_ms: u64) -> (r: Self)
        ensures
            r.wf(),
            r.settings() == config,
            r@ == (LimiterView {
                app_second: fresh(
                    config.application_limit_per_second as nat,
                    config.application_limit_per_second as nat,
                    ONE_SECOND_MS as nat,
                    now_ms as nat,
                ),
                app_two_minutes: fresh(
                    config.application_limit_per_two_minutes as nat,
                    config.application_limit_per_two_minutes as nat,
                    TWO_MINUTES_MS as nat,
                    now_ms as nat,
                ),
                methods: Map::empty(),
                services: Map::empty(),
            }),
    {
        let r = RateLimiter {
            application_limiter_per_second: TokenBucket::per_second(
                config.application_limit_per_second,
                config.application_limit_per_second,
                now_ms,
            ),
            application_limiter_per_two_minutes: TokenBucket::per_two_minutes(
                config.application_limit_per_two_minutes,
                config.application_limit_per_two_minutes,
                now_ms,
            ),
            method_limiters: new_bucket_map(),
            service_limiters: new_bucket_map(),
            config,
        };
        assert(r@.methods =~= Map::empty());
        assert(r@.services =~= Map::empty());
        r
    }

    /// Takes one token from the per-second, two-minute, method and service
    /// buckets in that order, stopping at the first that is short; tokens
    /// already taken are not given back.
    pub fn try_acquire_all(&mut self, endpoint: &str, region: &str, now_ms: u64) -> (ok: bool)
        requires
            old(self).wf(),
        ensures
            final(self).wf(),
            final(self).settings() == old(self).settings(),
            (final(self)@, ok) == acquire_all_step(old(self)@, endpoint@, region@, now_ms as nat),
    {
        let ghost v = self@;
        if !self.application_limiter_per_second.try_acquire(1, now_ms) {
            return false;
        }
        if !self.application_limiter_per_two_minutes.try_acquire(1, now_ms) {
            return false;
        }
        let mk = keyed(endpoint, region);
        proof {
            lemma_states_get(bucket_map(self.method_limiters), mk@);
        }
        let mut mb = match lookup_bucket(&self.method_limiters, &mk) {
            Some(b) => b,
            None => TokenBucket::per_second(20, 20, now_ms),
        };
        let ok3 = mb.try_acquire(1, now_ms);
        proof {
            lemma_states_insert(bucket_map(self.method_limiters), mk@, mb);
        }
        store_bucket(&mut self.method_limiters, mk, mb);
        assert(all_ok(self@.methods));
        if !ok3 {
            return false;
        }
        let service = extract_service_from_endpoint(endpoint);
        let sk = keyed(service.as_str(), region);
        proof {
            lemma_states_get(bucket_map(self.service_limiters), sk@);
        }
        let mut sb = match lookup_bucket(&self.service_limiters, &sk) {
            Some(b) => b,
            None => TokenBucket::per_second(100, 100, now_ms),
        };
        let ok4 = sb.try_acquire(1, now_ms);
        proof {
            lemma_states_insert(bucket_map(self.service_limiters), sk@, sb);
        }
        store_bucket(&mut self.service_limiters, sk, sb);
        assert(all_ok(self@.services));
        ok4
    }

    /// One attempt of a permit acquisition, numbered from 0: grants it when
    /// every bucket passes, else asks for a backoff of `retry_delay_ms * 2^attempt`
    /// while attempts remain.
    pub fn acquire_permit(&mut self, endpoint: &str, region: &str, attempt: u32, now_ms: u64) -> (r: PermitStep)
        requires
            old(self).wf(),
        ensures
            final(self).wf(),
            final(self).settings() == old(self).settings(),
            attempt >= old(self).settings().max_retries ==> r == PermitStep::Exhausted && final(self)@ == old(self)@,
            attempt < old(self).settings().max_retries ==> {
                let (v, ok) = acquire_all_step(old(self)@, endpoint@, region@, now_ms as nat);
                &&& final(self)@ == v
                &&& r == (if ok {
                    PermitStep::Granted
                } else if attempt + 1 < old(self).settings().max_retries {
                    PermitStep::Wait(backoff_ms(old(self).settings().retry_delay_ms, attempt as nat))
                } else {
                    PermitStep::Exhausted
                })
            },
    {
        if attempt >= self.config.max_retries {
            return PermitStep::Exhausted;
        }
        if self.try_acquire_all(endpoint, region, now_ms) {
            PermitStep::Granted
        } else if attempt + 1 < self.config.max_retries {
            PermitStep::Wait(backoff_delay(self.config.retry_delay_ms, attempt))
        } else {
            PermitStep::Exhausted
        }
    }

    /// Replaces buckets with fresh ones of the limits that the response
    /// headers announce: the application header may set both application
    /// buckets, the method and service headers the keyed bucket of this
    /// endpoint and region.
    pub fn update_limits_from_headers(
        &mut self,
        endpoint: &str,
        region: &str,
        app_limit: Option<&str>,
        method_limit: Option<&str>,
        service_limit: Option<&str>,
        now_ms: u64,
    )
        requires
            old(self).wf(),
        ensures
            final(self).wf(),
            final(self).settings() == old(self).settings(),
            (final(self)@.app_second, final(self)@.app_two_minutes) == (match app_limit {
                Some(h) => app_after(
                    (old(self)@.app_second, old(self)@.app_two_minutes),
                    split_on(h@, ','),
                    now_ms as nat,
                ),
                None => (old(self)@.app_second, old(self)@.app_two_minutes),
            }),
            final(self)@.methods == (match method_limit {
                Some(h) => keyed_after(
                    old(self)@.methods,
                    method_key(endpoint@, region@),
                    h@,
                    now_ms as nat,
                ),
                None => old(self)@.methods,
            }),
            final(self)@.services == (match service_limit {
                Some(h) => keyed_after(
                    old(self)@.services,
                    service_key(endpoint@, region@),
                    h@,
                    now_ms as nat,
                ),
                None => old(self)@.services,
            }),
    {
        match app_limit {
            Some(h) => self.apply_app_limits(h, now_ms),
            None => {},
        }
        match method_limit {
            Some(h) => {
                let mk = keyed(endpoint, region);
                match first_second_count(h) {
                    Some(c) => {
                        let nb = TokenBucket::per_second(c, c, now_ms);
                        proof {
                            lemma_states_insert(bucket_map(self.method_limiters), mk@, nb);
                        }
                        store_bucket(&mut self.method_limiters, mk, nb);
                        assert(all_ok(self@.methods));
                    },
                    None => {},
                }
            },
            None => {},
        }
        match service_limit {
            Some(h) => {
                let service = extract_service_from_endpoint(endpoint);
                let sk = keyed(service.as_str(), region);
                match first_second_count(h) {
                    Some(c) => {
                        let nb = TokenBucket::per_second(c, c, now_ms);
                        proof {
                            lemma_states_insert(bucket_map(self.service_limiters), sk@, nb);
                        }
                        store_bucket(&mut self.service_limiters, sk, nb);
                        assert(all_ok(self@.services));
                    },
                    None => {},
                }
            },
            None => {},
        }
    }

    fn apply_app_limits(&mut self, header: &str, now_ms: u64)
        requires
            old(self).wf(),
        ensures
            final(self).wf(),
            final(self).settings() == old(self).settings(),
            final(self)@.methods == old(self)@.methods,
            final(self)@.services == old(self)@.services,
            (final(self)@.app_second, final(self)@.app_two_minutes) == app_after(
                (old(self)@.app_second, old(self)@.app_two_minutes),
                split_on(header@, ','),
                now_ms as nat,
            ),
    {
        let pieces = split_char(header, ',');
        let ghost ps = split_on(header@, ',');
        let ghost start = (self@.app_second, self@.app_two_minutes);
        let mut i: usize = 0;
        while i < pieces.len()
            invariant
                i <= pieces@.len(),
                pieces@.map_values(|p: String| p@) == ps,
                ps == split_on(header@, ','),
                self.wf(),
                self.settings() == old(self).settings(),
                self@.methods == old(self)@.methods,
                self@.services == old(self)@.services,
                start == (old(self)@.app_second, old(self)@.app_two_minutes),
                (self@.app_second, self@.app_two_minutes) == app_after(start, ps.subrange(0, i as int), now_ms as nat),
            decreases pieces@.len() - i,
        {
            proof {
                assert(ps[i as int] == pieces@[i as int]@);
                assert(ps.subrange(0, i + 1).drop_last() =~= ps.subrange(0, i as int));
            }
            match parse_limit_pair(pieces[i].as_str()) {
                Some((c, w)) => {
                    if w == 1 {
                        self.application_limiter_per_second = TokenBucket::per_second(c, c, now_ms);
                    } else if w == 120 {
                        self.application_limiter_per_two_minutes = TokenBucket::per_two_minutes(c, c, now_ms);
                    }
                },
                None => {},
            }
            i = i + 1;
        }
        proof {
            assert(ps.subrange(0, i as int) =~= ps);
        }
    }

    /// The milliseconds to sleep after a 429 response.
    pub fn handle_429_response(&self, retry_after: Option<u64>) -> (ms: u128)
        ensures
            ms == cooldown_ms(retry_after, self.settings().retry_delay_ms),
    {
        match retry_after {
            Some(s) => s as u128 * 1000,
            None => self.config.retry_delay_ms as u128,
        }
    }

    /// Refills the application buckets and reports their tokens and how many
    /// keyed buckets exist.
    pub fn get_rate_limit_status(&mut self, now_ms: u64) -> (r: RateLimitStatus)
        requires
            old(self).wf(),
        ensures
            final(self).wf(),
            final(self).settings() == old(self).settings(),
            final(self)@ == (LimiterView {
                app_second: refilled(old(self)@.app_second, now_ms as nat),
                app_two_minutes: refilled(old(self)@.app_two_minutes, now_ms as nat),
                ..old(self)@
            }),
            r.application_tokens_per_second == final(self)@.app_second.tokens,
            r.application_tokens_per_two_minutes == final(self)@.app_two_minutes.tokens,
            r.method_limiters_count == old(self)@.methods.len(),
            r.service_limiters_count == old(self)@.services.len(),
    {
        let a = self.application_limiter_per_second.available_tokens(now_ms);
        let b = self.application_limiter_per_two_minutes.available_tokens(now_ms);
        let m = bucket_count(&self.method_limiters);
        let s = bucket_count(&self.service_limiters);
        assert(states(bucket_map(self.method_limiters)).dom() =~= bucket_map(self.method_limiters).dom());
        assert(states(bucket_map(self.service_limiters)).dom() =~= bucket_map(self.service_limiters).dom());
        RateLimitStatus {
            application_tokens_per_second: a,
            application_tokens_per_two_minutes: b,
            method_limiters_count: m,
            service_limiters_count: s,
        }
    }

    /// The settings the limiter was made with.
    pub fn config(&self) -> (c: RateLimitConfig)
        ensures
            c == self.settings(),
    {
        self.config
    }
}

} // verus!
