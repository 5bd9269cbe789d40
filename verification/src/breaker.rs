//! Per-provider circuit breakers.
//!
//! Each provider has a failure counter.  Once the counter reaches the
//! configured threshold the breaker is tripped: a check rejects the
//! provider, and a check that finds no cooldown starts one (a "trip").
//! When a cooldown has run out, the next check lets one recovery probe
//! through and clears the cooldown; the probe's success closes the breaker,
//! while without a success the next check trips it again.  A reset forgets
//! the provider.
use vstd::prelude::*;
use crate::assoc::{entries_map, find_key, keys_distinct, lemma_entry, lemma_push, lemma_remove, lemma_update};
use crate::clock::MonotonicClock;

verus! {

/// Nanoseconds in one second.
pub const NANOS_PER_SEC: u128 = 1_000_000_000;

/// Thresholds of the breakers.
#[derive(Clone, Copy, Debug, PartialEq, Eq, Structural)]
pub struct BreakerConfig {
    /// Number of consecutive failures at which a breaker opens.
    pub failure_threshold: u64,
    /// Length of the cooldown started by a trip, in seconds.
    pub cooldown_secs: u64,
}

impl Default for BreakerConfig {
    fn default() -> (c: Self)
        ensures
            c.failure_threshold == 0,
            c.cooldown_secs == 0,
    {
        BreakerConfig { failure_threshold: 0, cooldown_secs: 0 }
    }
}

/// The state of one provider's breaker.  Points in time are nanoseconds
/// since the registry's clock started.
#[derive(Clone, Copy, Debug, PartialEq, Eq, Structural)]
pub struct BreakerState {
    /// Failures since the last success.
    pub failures: u64,
    /// When the first failure was recorded.
    pub first_failure: Option<u64>,
    /// When the latest failure was recorded.
    pub last_failure: Option<u64>,
    /// End of the running cooldown, if a trip started one.
    pub cooldown_until: Option<u128>,
    /// Number of trips.
    pub total_trips: u64,
    /// Number of checks that found the breaker open.
    pub total_rejections: u64,
}

impl BreakerState {
    /// The state of a provider with no history.
    pub open spec fn fresh() -> BreakerState {
        BreakerState {
            failures: 0,
            first_failure: None,
            last_failure: None,
            cooldown_until: None,
            total_trips: 0,
            total_rejections: 0,
        }
    }
}

impl Default for BreakerState {
    fn default() -> (s: Self)
        ensures
            s == BreakerState::fresh(),
    {
        BreakerState {
            failures: 0,
            first_failure: None,
            last_failure: None,
            cooldown_until: None,
            total_trips: 0,
            total_rejections: 0,
        }
    }
}

/// A provider's state after a failure recorded at `now`; `prior` is its
/// state before, if it had one.
pub open spec fn after_failure(prior: Option<BreakerState>, now: u64) -> BreakerState {
    let s = match prior {
        Some(s) => s,
        None => BreakerState::fresh(),
    };
    BreakerState {
        failures: (s.failures + 1) as u64,
        first_failure: if s.first_failure is None { Some(now) } else { s.first_failure },
        last_failure: Some(now),
        cooldown_until: s.cooldown_until,
        total_trips: s.total_trips,
        total_rejections: s.total_rejections,
    }
}

/// Whether a cooldown is running at `now`.
pub open spec fn in_cooldown(s: BreakerState, now: u64) -> bool {
    match s.cooldown_until {
        Some(until) => (now as u128) < until,
        None => false,
    }
}

/// End of a cooldown started at `now`.
pub open spec fn cooldown_deadline(cfg: BreakerConfig, now: u64) -> u128 {
    (now + cfg.cooldown_secs * NANOS_PER_SEC) as u128
}

/// Whether a breaker in state `s` is tripped under `cfg`: its failure
/// count has reached the threshold.
pub open spec fn is_tripped(s: BreakerState, cfg: BreakerConfig) -> bool {
    s.failures >= cfg.failure_threshold
}

/// Whether the cooldown of `s` has run out at `now`, so that a recovery
/// probe is due.
pub open spec fn probe_due(s: BreakerState, now: u64) -> bool {
    match s.cooldown_until {
        Some(until) => until <= (now as u128),
        None => false,
    }
}

/// A provider's state after a check at `now` let a recovery probe through:
/// the cooldown is cleared, nothing is counted.
pub open spec fn after_probe(s: BreakerState) -> BreakerState {
    BreakerState { cooldown_until: None, ..s }
}

/// A provider's state after a check at `now` rejected it: the check is
/// counted as a rejection, and, when no cooldown runs, a new cooldown starts
/// and a trip is counted.
pub open spec fn after_rejection(s: BreakerState, cfg: BreakerConfig, now: u64) -> BreakerState {
    if in_cooldown(s, now) {
        BreakerState { total_rejections: (s.total_rejections + 1) as u64, ..s }
    } else {
        BreakerState {
            cooldown_until: Some(cooldown_deadline(cfg, now)),
            total_trips: (s.total_trips + 1) as u64,
            total_rejections: (s.total_rejections + 1) as u64,
            ..s
        }
    }
}

/// A provider's state after a success.
pub open spec fn after_success(s: BreakerState) -> BreakerState {
    BreakerState { failures: 0, cooldown_until: None, ..s }
}

/// The states after a failure of `p` recorded at `now`.
pub open spec fn failure_step(
    m: Map<Seq<char>, BreakerState>,
    p: Seq<char>,
    now: u64,
) -> Map<Seq<char>, BreakerState> {
    m.insert(p, after_failure(if m.contains_key(p) { Some(m[p]) } else { None }, now))
}

/// Whether the breaker of `p` is tripped.
pub open spec fn tripped(m: Map<Seq<char>, BreakerState>, cfg: BreakerConfig, p: Seq<char>) -> bool {
    m.contains_key(p) && is_tripped(m[p], cfg)
}

/// Whether a check of `p` at `now` rejects it: its breaker is tripped and
/// no recovery probe is due.
pub open spec fn rejects_at(
    m: Map<Seq<char>, BreakerState>,
    cfg: BreakerConfig,
    p: Seq<char>,
    now: u64,
) -> bool {
    tripped(m, cfg, p) && !probe_due(m[p], now)
}

/// The states after a check of `p` at `now`.
pub open spec fn check_step(
    m: Map<Seq<char>, BreakerState>,
    cfg: BreakerConfig,
    p: Seq<char>,
    now: u64,
) -> Map<Seq<char>, BreakerState> {
    if tripped(m, cfg, p) {
        if probe_due(m[p], now) {
            m.insert(p, after_probe(m[p]))
        } else {
            m.insert(p, after_rejection(m[p], cfg, now))
        }
    } else {
        m
    }
}

/// The states after a success of `p`.
pub open spec fn success_step(m: Map<Seq<char>, BreakerState>, p: Seq<char>) -> Map<
    Seq<char>,
    BreakerState,
> {
    if m.contains_key(p) {
        m.insert(p, after_success(m[p]))
    } else {
        m
    }
}

/// A failure of `p` can be counted without overflow.
pub open spec fn failure_fits(m: Map<Seq<char>, BreakerState>, p: Seq<char>) -> bool {
    m.contains_key(p) ==> m[p].failures < u64::MAX
}

/// A check of `p` at `now` can be counted without overflow: when it
/// rejects, the rejection counter has room, and so does the trip counter
/// when the rejection starts a cooldown.  A probe counts nothing.
pub open spec fn check_fits_at(
    m: Map<Seq<char>, BreakerState>,
    cfg: BreakerConfig,
    p: Seq<char>,
    now: u64,
) -> bool {
    rejects_at(m, cfg, p, now) ==> m[p].total_rejections < u64::MAX && (m[p].cooldown_until
        is None ==> m[p].total_trips < u64::MAX)
}

/// A check of `p` can be counted without overflow whatever the clock reads.
pub open spec fn check_fits(m: Map<Seq<char>, BreakerState>, cfg: BreakerConfig, p: Seq<char>) -> bool {
    forall|now: u64| #[trigger] check_fits_at(m, cfg, p, now)
}

/// The breakers of all providers, with their common configuration.
#[derive(Debug)]
pub struct BreakerRegistry {
    entries: Vec<(String, BreakerState)>,
    config: BreakerConfig,
    clock: MonotonicClock,
}

impl BreakerRegistry {
    #[verifier::type_invariant]
    spec fn inv(self) -> bool {
        keys_distinct(self.entries@)
    }

    /// The state of each provider that has one.
    pub closed spec fn states(self) -> Map<Seq<char>, BreakerState> {
        entries_map(self.entries@)
    }

    /// The configuration in force.
    pub closed spec fn config(self) -> BreakerConfig {
        self.config
    }

    /// A registry with no provider state and the given thresholds.
    pub fn new(failure_threshold: u64, cooldown_secs: u64) -> (r: Self)
        ensures
            r.states() == Map::<Seq<char>, BreakerState>::empty(),
            r.config() == (BreakerConfig { failure_threshold, cooldown_secs }),
    {
        Self::with_config(BreakerConfig { failure_threshold, cooldown_secs })
    }

    /// A registry with no provider state and the given configuration.
    pub fn with_config(config: BreakerConfig) -> (r: Self)
        ensures
            r.states() == Map::<Seq<char>, BreakerState>::empty(),
            r.config() == config,
    {
        let r = BreakerRegistry { entries: Vec::new(), config, clock: MonotonicClock::start() };
        assert(r.states() =~= Map::<Seq<char>, BreakerState>::empty());
        r
    }

    /// Records a failure of `provider` observed at `now`.
    pub fn increment_failure_at(&mut self, provider: &str, now: u64)
        requires
            failure_fits(old(self).states(), provider@),
        ensures
            final(self).states() == failure_step(old(self).states(), provider@, now),
            final(self).config() == old(self).config(),
    {
        proof {
            use_type_invariant(&*self);
        }
        let key = provider.to_owned();
        match find_key(&self.entries, &key) {
            Some(i) => {
                let st = self.entries[i].1;
                proof {
                    lemma_entry(self.entries@, i as int);
                }
                let next = BreakerState {
                    failures: st.failures + 1,
                    first_failure: if st.first_failure.is_none() {
                        Some(now)
                    } else {
                        st.first_failure
                    },
                    last_failure: Some(now),
                    ..st
                };
                let k = self.entries[i].0.clone();
                proof {
                    lemma_update(self.entries@, i as int, next);
                }
                let mut entries = Vec::new();
                std::mem::swap(&mut entries, &mut self.entries);
                entries.set(i, (k, next));
                self.entries = entries;
            },
            None => {
                let next = BreakerState {
                    failures: 1,
                    first_failure: Some(now),
                    last_failure: Some(now),
                    cooldown_until: None,
                    total_trips: 0,
                    total_rejections: 0,
                };
                proof {
                    lemma_push(self.entries@, key, next);
                }
                let mut entries = Vec::new();
                std::mem::swap(&mut entries, &mut self.entries);
                entries.push((key, next));
                self.entries = entries;
            },
        }
        assert(self.states() =~= failure_step(old(self).states(), provider@, now));
    }

    /// Records a failure of `provider` at the current time.
    pub fn increment_failure(&mut self, provider: &str)
        requires
            failure_fits(old(self).states(), provider@),
        ensures
            exists|now: u64|
                final(self).states() == failure_step(old(self).states(), provider@, now),
            final(self).config() == old(self).config(),
    {
        let now = self.clock.now_nanos();
        self.increment_failure_at(provider, now);
    }

    /// Whether a check of `provider` can be counted without overflow at any
    /// reading of the clock: the test to make before `is_open`.
    pub fn check_has_room(&self, provider: &str) -> (r: bool)
        ensures
            r == check_fits(self.states(), self.config(), provider@),
    {
        proof {
            use_type_invariant(self);
        }
        let key = provider.to_owned();
        let i = match find_key(&self.entries, &key) {
            Some(i) => i,
            None => {
                assert(check_fits(self.states(), self.config(), provider@));
                return true;
            },
        };
        proof {
            lemma_entry(self.entries@, i as int);
        }
        let st = self.entries[i].1;
        if st.failures < self.config.failure_threshold {
            assert(check_fits(self.states(), self.config(), provider@));
            return true;
        }
        let r = match st.cooldown_until {
            None => st.total_rejections < u64::MAX && st.total_trips < u64::MAX,
            Some(until) => until == 0 || st.total_rejections < u64::MAX,
        };
        proof {
            if !r {
                assert(!check_fits_at(self.states(), self.config(), provider@, 0));
            }
        }
        r
    }

    /// Checks `provider` at `now`: reports whether it is rejected.  A
    /// tripped breaker rejects, counting the rejection and, when no cooldown
    /// runs, starting one; once its cooldown has run out it lets one
    /// recovery probe through instead, clearing the cooldown.
    pub fn is_open_at(&mut self, provider: &str, now: u64) -> (open: bool)
        requires
            check_fits_at(old(self).states(), old(self).config(), provider@, now),
        ensures
            open == rejects_at(old(self).states(), old(self).config(), provider@, now),
            final(self).states() == check_step(
                old(self).states(),
                old(self).config(),
                provider@,
                now,
            ),
            final(self).config() == old(self).config(),
    {
        proof {
            use_type_invariant(&*self);
        }
        let key = provider.to_owned();
        let i = match find_key(&self.entries, &key) {
            Some(i) => i,
            None => {
                return false;
            },
        };
        proof {
            lemma_entry(self.entries@, i as int);
        }
        let st = self.entries[i].1;
        if st.failures < self.config.failure_threshold {
            return false;
        }
        let (probe, cooling) = match st.cooldown_until {
            Some(until) => (until <= now as u128, (now as u128) < until),
            None => (false, false),
        };
        let next = if probe {
            BreakerState { cooldown_until: None, ..st }
        } else if cooling {
            BreakerState { total_rejections: st.total_rejections + 1, ..st }
        } else {
            let until = now as u128 + (self.config.cooldown_secs as u128) * NANOS_PER_SEC;
            BreakerState {
                cooldown_until: Some(until),
                total_trips: st.total_trips + 1,
                total_rejections: st.total_rejections + 1,
                ..st
            }
        };
        let k = self.entries[i].0.clone();
        proof {
            lemma_update(self.entries@, i as int, next);
        }
        let mut entries = Vec::new();
        std::mem::swap(&mut entries, &mut self.entries);
        entries.set(i, (k, next));
        self.entries = entries;
        assert(self.states() =~= check_step(old(self).states(), old(self).config(), provider@, now));
        !probe
    }

    /// Checks `provider` at the current time, as `is_open_at` does.  A
    /// breaker that is not tripped is never open and the check changes
    /// nothing; a tripped one is open unless its cooldown has run out.
    pub fn is_open(&mut self, provider: &str) -> (open: bool)
        requires
            check_fits(old(self).states(), old(self).config(), provider@),
        ensures
            exists|now: u64|
                open == rejects_at(old(self).states(), old(self).config(), provider@, now)
                    && final(self).states() == check_step(
                    old(self).states(),
                    old(self).config(),
                    provider@,
                    now,
                ),
            !tripped(old(self).states(), old(self).config(), provider@) ==> !open
                && final(self).states() == old(self).states(),
            final(self).config() == old(self).config(),
    {
        let now = self.clock.now_nanos();
        self.is_open_at(provider, now)
    }

    /// Whether a request to `provider` may go ahead: the negation of
    /// `is_open`, with the same effect on the states.
    pub fn try_acquire(&mut self, provider: &str) -> (allowed: bool)
        requires
            check_fits(old(self).states(), old(self).config(), provider@),
        ensures
            exists|now: u64|
                allowed == !rejects_at(old(self).states(), old(self).config(), provider@, now)
                    && final(self).states() == check_step(
                    old(self).states(),
                    old(self).config(),
                    provider@,
                    now,
                ),
            !tripped(old(self).states(), old(self).config(), provider@) ==> allowed
                && final(self).states() == old(self).states(),
            final(self).config() == old(self).config(),
    {
        if self.is_open(provider) {
            return false;
        }
        true
    }

    /// Records a success of `provider`: its failure count drops to zero and
    /// its cooldown ends.  A provider without state stays without.
    pub fn record_success(&mut self, provider: &str)
        ensures
            final(self).states() == success_step(old(self).states(), provider@),
            final(self).config() == old(self).config(),
    {
        proof {
            use_type_invariant(&*self);
        }
        let key = provider.to_owned();
        if let Some(i) = find_key(&self.entries, &key) {
            proof {
                lemma_entry(self.entries@, i as int);
            }
            let st = self.entries[i].1;
            let next = BreakerState { failures: 0, cooldown_until: None, ..st };
            let k = self.entries[i].0.clone();
            proof {
                lemma_update(self.entries@, i as int, next);
            }
            let mut entries = Vec::new();
            std::mem::swap(&mut entries, &mut self.entries);
            entries.set(i, (k, next));
            self.entries = entries;
        }
        assert(self.states() =~= success_step(old(self).states(), provider@));
    }

    /// Records a failure of `provider` at the current time, as
    /// `increment_failure` does.
    pub fn record_failure(&mut self, provider: &str)
        requires
            failure_fits(old(self).states(), provider@),
        ensures
            exists|now: u64|
                final(self).states() == failure_step(old(self).states(), provider@, now),
            final(self).config() == old(self).config(),
    {
        self.increment_failure(provider);
    }

    /// Forgets `provider`.
    pub fn reset(&mut self, provider: &str)
        ensures
            final(self).states() == old(self).states().remove(provider@),
            final(self).config() == old(self).config(),
    {
        proof {
            use_type_invariant(&*self);
        }
        let key = provider.to_owned();
        if let Some(i) = find_key(&self.entries, &key) {
            proof {
                lemma_remove(self.entries@, i as int);
            }
            let mut entries = Vec::new();
            std::mem::swap(&mut entries, &mut self.entries);
            entries.remove(i);
            self.entries = entries;
        }
        assert(self.states() =~= old(self).states().remove(provider@));
    }

    /// Forgets every provider.
    pub fn reset_all(&mut self)
        ensures
            final(self).states() == Map::<Seq<char>, BreakerState>::empty(),
            final(self).config() == old(self).config(),
    {
        self.entries = Vec::new();
        assert(self.states() =~= Map::<Seq<char>, BreakerState>::empty());
    }

    /// The state of `provider`, if it has one.
    pub fn get_state(&self, provider: &str) -> (r: Option<BreakerState>)
        ensures
            r == (if self.states().contains_key(provider@) {
                Some(self.states()[provider@])
            } else {
                None
            }),
    {
        proof {
            use_type_invariant(self);
        }
        let key = provider.to_owned();
        match find_key(&self.entries, &key) {
            Some(i) => {
                proof {
                    lemma_entry(self.entries@, i as int);
                }
                Some(self.entries[i].1)
            },
            None => None,
        }
    }

    /// The state of every provider, each provider once.
    pub fn get_all_states(&self) -> (r: Vec<(String, BreakerState)>)
        ensures
            keys_distinct(r@),
            entries_map(r@) == self.states(),
    {
        proof {
            use_type_invariant(self);
        }
        let mut out: Vec<(String, BreakerState)> = Vec::new();
        let mut i: usize = 0;
        while i < self.entries.len()
            invariant
                keys_distinct(self.entries@),
                i <= self.entries@.len(),
                out@.len() == i,
                forall|j: int| 0 <= j < i ==> #[trigger] out@[j] == self.entries@[j],
            decreases self.entries@.len() - i,
        {
            let k = self.entries[i].0.clone();
            out.push((k, self.entries[i].1));
            i += 1;
        }
        assert(out@ =~= self.entries@);
        out
    }

    /// The configuration in force.
    pub fn get_config(&self) -> (c: BreakerConfig)
        ensures
            c == self.config(),
    {
        self.config
    }

    /// Sets the failure threshold.
    pub fn set_threshold(&mut self, threshold: u64)
        ensures
            final(self).config() == (BreakerConfig {
                failure_threshold: threshold,
                cooldown_secs: old(self).config().cooldown_secs,
            }),
            final(self).states() == old(self).states(),
    {
        proof {
            use_type_invariant(&*self);
        }
        self.config.failure_threshold = threshold;
    }

    /// Sets the cooldown length in seconds.
    pub fn set_cooldown(&mut self, secs: u64)
        ensures
            final(self).config() == (BreakerConfig {
                failure_threshold: old(self).config().failure_threshold,
                cooldown_secs: secs,
            }),
            final(self).states() == old(self).states(),
    {
        proof {
            use_type_invariant(&*self);
        }
        self.config.cooldown_secs = secs;
    }
}

impl Default for BreakerRegistry {
    /// A registry with no provider state and the default configuration.
    fn default() -> (r: Self)
        ensures
            r.states() == Map::<Seq<char>, BreakerState>::empty(),
            r.config() == (BreakerConfig { failure_threshold: 0, cooldown_secs: 0 }),
    {
        Self::with_config(BreakerConfig { failure_threshold: 0, cooldown_secs: 0 })
    }
}

/// The states after failures of `p` recorded at each of `times`, in order.
pub open spec fn failures_at(
    m: Map<Seq<char>, BreakerState>,
    p: Seq<char>,
    times: Seq<u64>,
) -> Map<Seq<char>, BreakerState>
    decreases times.len(),
{
    if times.len() == 0 {
        m
    } else {
        failure_step(failures_at(m, p, times.drop_last()), p, times.last())
    }
}

/// A provider with a clean record (no state, or no failure since its last
/// success) that then fails `times.len()` times has exactly that many
/// failures counted, and its breaker is tripped exactly when that number
/// reaches the threshold.
pub proof fn law_repeated_failures_open(
    m: Map<Seq<char>, BreakerState>,
    cfg: BreakerConfig,
    p: Seq<char>,
    times: Seq<u64>,
)
    requires
        !m.contains_key(p) || m[p].failures == 0,
        times.len() < u64::MAX,
    ensures
        failures_at(m, p, times).contains_key(p) || times.len() == 0,
        times.len() > 0 ==> failures_at(m, p, times)[p].failures == times.len(),
        times.len() > 0 ==> (tripped(failures_at(m, p, times), cfg, p) <==> times.len()
            >= cfg.failure_threshold),
    decreases times.len(),
{
    if times.len() > 0 {
        law_repeated_failures_open(m, cfg, p, times.drop_last());
    }
}

/// A failure of `p` adds one to its count, keeps the time of its first
/// failure once set, sets its latest failure time, and leaves every other
/// provider alone.
pub proof fn law_failure_counts(m: Map<Seq<char>, BreakerState>, p: Seq<char>, now: u64)
    requires
        failure_fits(m, p),
    ensures
        failure_step(m, p, now)[p].failures == (if m.contains_key(p) {
            m[p].failures + 1
        } else {
            1
        }),
        m.contains_key(p) && m[p].first_failure is Some ==> failure_step(m, p, now)[p].first_failure
            == m[p].first_failure,
        failure_step(m, p, now)[p].last_failure == Some(now),
        forall|q: Seq<char>|
            q != p ==> (#[trigger] failure_step(m, p, now).contains_key(q) <==> m.contains_key(q)),
        forall|q: Seq<char>|
            q != p && m.contains_key(q) ==> #[trigger] failure_step(m, p, now)[q] == m[q],
{
}

/// A failure never moves a cooldown nor touches the trip and rejection
/// counters, and never closes a tripped breaker: a provider that a check at
/// `t` would reject inside its cooldown is still rejected at `t` after any
/// number of further failures.
pub proof fn law_failure_keeps_cooldown(
    m: Map<Seq<char>, BreakerState>,
    cfg: BreakerConfig,
    p: Seq<char>,
    tf: u64,
    t: u64,
)
    requires
        failure_fits(m, p),
    ensures
        m.contains_key(p) ==> failure_step(m, p, tf)[p].cooldown_until == m[p].cooldown_until
            && failure_step(m, p, tf)[p].total_trips == m[p].total_trips && failure_step(
            m,
            p,
            tf,
        )[p].total_rejections == m[p].total_rejections,
        !m.contains_key(p) ==> failure_step(m, p, tf)[p].cooldown_until is None
            && failure_step(m, p, tf)[p].total_trips == 0 && failure_step(m, p, tf)[p].total_rejections
            == 0,
        tripped(m, cfg, p) ==> tripped(failure_step(m, p, tf), cfg, p),
        tripped(m, cfg, p) && m[p].cooldown_until is Some && (t as u128) < m[p].cooldown_until->0
            ==> rejects_at(m, cfg, p, t) && rejects_at(failure_step(m, p, tf), cfg, p, t),
{
}

/// A success closes the breaker of `p` whenever the threshold is positive.
pub proof fn law_success_closes(m: Map<Seq<char>, BreakerState>, cfg: BreakerConfig, p: Seq<char>)
    requires
        cfg.failure_threshold > 0,
    ensures
        !tripped(success_step(m, p), cfg, p),
        forall|now: u64| !#[trigger] rejects_at(success_step(m, p), cfg, p, now),
        success_step(m, p).contains_key(p) ==> success_step(m, p)[p].failures == 0
            && success_step(m, p)[p].cooldown_until is None,
{
}

/// After a reset, `p` has no state and its breaker is closed.
pub proof fn law_reset_forgets(m: Map<Seq<char>, BreakerState>, cfg: BreakerConfig, p: Seq<char>)
    ensures
        !m.remove(p).contains_key(p),
        !tripped(m.remove(p), cfg, p),
{
}

/// A check never changes the failure count, never lowers the trip and
/// rejection counters, counts exactly one rejection when it rejects, and
/// leaves every other provider alone; a check of a breaker that is not
/// tripped changes nothing.
pub proof fn law_check_counts(
    m: Map<Seq<char>, BreakerState>,
    cfg: BreakerConfig,
    p: Seq<char>,
    now: u64,
)
    requires
        check_fits_at(m, cfg, p, now),
    ensures
        m.contains_key(p) ==> check_step(m, cfg, p, now).contains_key(p) && check_step(
            m,
            cfg,
            p,
            now,
        )[p].failures == m[p].failures && check_step(m, cfg, p, now)[p].total_trips
            >= m[p].total_trips && check_step(m, cfg, p, now)[p].total_rejections
            == m[p].total_rejections + (if rejects_at(m, cfg, p, now) {
            1int
        } else {
            0
        }),
        !tripped(m, cfg, p) ==> check_step(m, cfg, p, now) == m,
        forall|q: Seq<char>|
            q != p ==> (#[trigger] check_step(m, cfg, p, now).contains_key(q) <==> m.contains_key(
                q,
            )),
        forall|q: Seq<char>|
            q != p && m.contains_key(q) ==> #[trigger] check_step(m, cfg, p, now)[q] == m[q],
{
}

/// A check that trips the breaker of `p` at `t1` starts a cooldown of
/// `cooldown_secs` seconds; a second check at any `t2` inside that window
/// rejects `p` again without counting a new trip, and keeps the deadline.
pub proof fn law_cooldown_window(
    m: Map<Seq<char>, BreakerState>,
    cfg: BreakerConfig,
    p: Seq<char>,
    t1: u64,
    t2: u64,
)
    requires
        tripped(m, cfg, p),
        m[p].cooldown_until is None,
        m[p].total_trips + 1 < u64::MAX,
        m[p].total_rejections + 1 < u64::MAX,
        t1 <= t2,
        (t2 as int) < t1 + cfg.cooldown_secs * NANOS_PER_SEC,
    ensures
        rejects_at(m, cfg, p, t1),
        check_step(m, cfg, p, t1)[p].total_trips == m[p].total_trips + 1,
        check_step(m, cfg, p, t1)[p].cooldown_until == Some(cooldown_deadline(cfg, t1)),
        rejects_at(check_step(m, cfg, p, t1), cfg, p, t2),
        check_step(check_step(m, cfg, p, t1), cfg, p, t2)[p].total_trips == m[p].total_trips
            + 1,
        check_step(check_step(m, cfg, p, t1), cfg, p, t2)[p].cooldown_until == Some(
            cooldown_deadline(cfg, t1),
        ),
{
}

/// Recovery: once the cooldown started by a trip at `t1` has run out, a
/// check at any later `t2` lets one probe through, counting nothing and
/// clearing the cooldown.  A success of the probe then closes the breaker
/// (for a positive threshold); without it, a check at any `t3` trips the
/// breaker again and starts a new cooldown.
pub proof fn law_recovery_probe(
    m: Map<Seq<char>, BreakerState>,
    cfg: BreakerConfig,
    p: Seq<char>,
    t1: u64,
    t2: u64,
    t3: u64,
)
    requires
        tripped(m, cfg, p),
        m[p].cooldown_until is None,
        m[p].total_trips + 2 < u64::MAX,
        m[p].total_rejections + 2 < u64::MAX,
        t2 as int >= t1 + cfg.cooldown_secs * NANOS_PER_SEC,
    ensures
        rejects_at(m, cfg, p, t1),
        !rejects_at(check_step(m, cfg, p, t1), cfg, p, t2),
        check_step(check_step(m, cfg, p, t1), cfg, p, t2)[p] == after_probe(
            check_step(m, cfg, p, t1)[p],
        ),
        check_step(check_step(m, cfg, p, t1), cfg, p, t2)[p].cooldown_until is None,
        cfg.failure_threshold > 0 ==> !tripped(
            success_step(check_step(check_step(m, cfg, p, t1), cfg, p, t2), p),
            cfg,
            p,
        ),
        rejects_at(check_step(check_step(m, cfg, p, t1), cfg, p, t2), cfg, p, t3),
        check_step(check_step(check_step(m, cfg, p, t1), cfg, p, t2), cfg, p, t3)[p].total_trips
            == m[p].total_trips + 2,
        check_step(check_step(check_step(m, cfg, p, t1), cfg, p, t2), cfg, p, t3)[p].cooldown_until
            == Some(cooldown_deadline(cfg, t3)),
{
}

/// A failure of the probe keeps the breaker tripped: after the probe at
/// `t2` and a failure at `tf`, a check at any `t3` rejects the provider and
/// counts a new trip.
pub proof fn law_failed_probe_retrips(
    m: Map<Seq<char>, BreakerState>,
    cfg: BreakerConfig,
    p: Seq<char>,
    t2: u64,
    tf: u64,
    t3: u64,
)
    requires
        tripped(m, cfg, p),
        probe_due(m[p], t2),
        m[p].failures + 1 < u64::MAX,
        m[p].total_trips + 1 < u64::MAX,
        m[p].total_rejections + 1 < u64::MAX,
    ensures
        !rejects_at(m, cfg, p, t2),
        tripped(failure_step(check_step(m, cfg, p, t2), p, tf), cfg, p),
        rejects_at(failure_step(check_step(m, cfg, p, t2), p, tf), cfg, p, t3),
        check_step(failure_step(check_step(m, cfg, p, t2), p, tf), cfg, p, t3)[p].total_trips
            == m[p].total_trips + 1,
{
}

} // verus!
