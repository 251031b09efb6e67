//! Metrics bookkeeping: request, error and latency counters, token usage
//! by model, and per-provider and per-model statistics.
//!
//! Everything here is integer-valued; the ratios that are reported as
//! floating point (success rate, average latency) are handed out as their
//! integer parts.
use vstd::prelude::*;
use vstd::string::*;
use crate::string_map::StringMap;

verus! {

/// Configuration for telemetry
#[derive(Debug, Clone)]
pub struct TelemetryConfig {
    /// Whether to enable metrics collection
    pub enabled: bool,
    /// Whether to log metrics to file
    pub log_to_file: bool,
    /// Path to metrics log file
    pub log_file_path: String,
    /// Interval for logging metrics (in seconds)
    pub log_interval: u64,
    /// Whether to enable detailed logging
    pub detailed_logging: bool,
}

/// Provider statistics
#[derive(Debug, Clone, Copy, PartialEq, Eq, Structural)]
pub struct ProviderStats {
    pub request_count: u64,
    pub error_count: u64,
    pub total_tokens: u64,
    pub avg_response_time_ms: u64,
    pub min_response_time_ms: u64,
    pub max_response_time_ms: u64,
}

/// Model statistics
#[derive(Debug, Clone, Copy, PartialEq, Eq, Structural)]
pub struct ModelStats {
    pub request_count: u64,
    pub error_count: u64,
    pub total_tokens: u64,
    pub avg_response_time_ms: u64,
}

/// The statistics a provider starts from.
pub open spec fn fresh_provider_stats() -> ProviderStats {
    ProviderStats {
        request_count: 0,
        error_count: 0,
        total_tokens: 0,
        avg_response_time_ms: 0,
        min_response_time_ms: u64::MAX,
        max_response_time_ms: 0,
    }
}

/// The statistics a model starts from.
pub open spec fn fresh_model_stats() -> ModelStats {
    ModelStats { request_count: 0, error_count: 0, total_tokens: 0, avg_response_time_ms: 0 }
}

/// The running average after one more sample: the old average weighted
/// by the old count, plus the sample, over the new count (rounded down).
pub open spec fn next_average(avg: u64, count: u64, sample: u64) -> int {
    (avg * count + sample) / (count + 1)
}

/// Whether a provider's statistics can take one more request without a
/// counter or the average's intermediate product overflowing.
pub open spec fn provider_request_fits(s: ProviderStats, latency_ms: u64, tokens: u64) -> bool {
    &&& s.request_count < u64::MAX
    &&& s.total_tokens + tokens <= u64::MAX
    &&& s.avg_response_time_ms * s.request_count + latency_ms <= u64::MAX
}

/// A provider's statistics after a successful request.
pub open spec fn provider_after_request(s: ProviderStats, latency_ms: u64, tokens: u64) -> ProviderStats {
    ProviderStats {
        request_count: (s.request_count + 1) as u64,
        total_tokens: (s.total_tokens + tokens) as u64,
        avg_response_time_ms: next_average(s.avg_response_time_ms, s.request_count, latency_ms) as u64,
        min_response_time_ms: if latency_ms < s.min_response_time_ms {
            latency_ms
        } else {
            s.min_response_time_ms
        },
        max_response_time_ms: if latency_ms > s.max_response_time_ms {
            latency_ms
        } else {
            s.max_response_time_ms
        },
        ..s
    }
}

/// A provider's statistics after an error.
pub open spec fn provider_after_error(s: ProviderStats) -> ProviderStats {
    ProviderStats { error_count: (s.error_count + 1) as u64, ..s }
}

/// Whether a model's statistics can take one more request.
pub open spec fn model_request_fits(s: ModelStats, latency_ms: u64, tokens: u64) -> bool {
    &&& s.request_count < u64::MAX
    &&& s.total_tokens + tokens <= u64::MAX
    &&& s.avg_response_time_ms * s.request_count + latency_ms <= u64::MAX
}

/// A model's statistics after a successful request.
pub open spec fn model_after_request(s: ModelStats, latency_ms: u64, tokens: u64) -> ModelStats {
    ModelStats {
        request_count: (s.request_count + 1) as u64,
        total_tokens: (s.total_tokens + tokens) as u64,
        avg_response_time_ms: next_average(s.avg_response_time_ms, s.request_count, latency_ms) as u64,
        ..s
    }
}

/// A model's statistics after an error.
pub open spec fn model_after_error(s: ModelStats) -> ModelStats {
    ModelStats { error_count: (s.error_count + 1) as u64, ..s }
}

/// The statistics stored under `k`, or fresh ones.
pub open spec fn provider_or_fresh(m: Map<Seq<char>, ProviderStats>, k: Seq<char>) -> ProviderStats {
    if m.contains_key(k) {
        m[k]
    } else {
        fresh_provider_stats()
    }
}

/// The statistics stored under `k`, or fresh ones.
pub open spec fn model_or_fresh(m: Map<Seq<char>, ModelStats>, k: Seq<char>) -> ModelStats {
    if m.contains_key(k) {
        m[k]
    } else {
        fresh_model_stats()
    }
}

/// The inputs of the success rate.
#[derive(Debug, Clone, Copy, PartialEq, Eq, Structural)]
pub enum SuccessRate {
    /// Collection is disabled: the rate reads as zero.
    Disabled,
    /// Nothing was recorded yet: the rate reads as one.
    NoRequests,
    /// `successes` out of `total` requests succeeded.
    Ratio { successes: u64, total: u64 },
}

/// Metrics collection structure
pub struct Metrics {
    request_count: u64,
    error_count: u64,
    total_latency: u64,
    token_usage: StringMap<u64>,
    provider_stats: StringMap<ProviderStats>,
    model_stats: StringMap<ModelStats>,
    enabled: bool,
    config: TelemetryConfig,
}

impl Metrics {
    /// Requests recorded: successes and errors.
    pub closed spec fn requests(&self) -> u64 {
        self.request_count
    }

    /// Errors recorded.
    pub closed spec fn errors(&self) -> u64 {
        self.error_count
    }

    /// Latency of the successful requests, summed (wrapping).
    pub closed spec fn latency_total(&self) -> u64 {
        self.total_latency
    }

    /// Tokens used, by model (wrapping).
    pub closed spec fn tokens_by_model(&self) -> Map<Seq<char>, u64> {
        self.token_usage.spec_map()
    }

    /// Statistics by provider.
    pub closed spec fn providers(&self) -> Map<Seq<char>, ProviderStats> {
        self.provider_stats.spec_map()
    }

    /// Statistics by model.
    pub closed spec fn models(&self) -> Map<Seq<char>, ModelStats> {
        self.model_stats.spec_map()
    }

    /// Whether collection is on.
    pub closed spec fn is_on(&self) -> bool {
        self.enabled
    }

    /// The configuration the collector was made with.
    pub closed spec fn telemetry(&self) -> TelemetryConfig {
        self.config
    }

    /// The tables keep distinct names, errors never outnumber the requests
    /// they are counted among, and every provider's latency figures hold
    /// together.
    pub closed spec fn wf(&self) -> bool {
        &&& self.token_usage.wf()
        &&& self.provider_stats.wf()
        &&& self.model_stats.wf()
        &&& self.error_count <= self.request_count
        &&& forall|k: Seq<char>| #[trigger]
            self.providers().contains_key(k) ==> provider_stats_consistent(self.providers()[k])
    }

    /// Whether a successful request can be recorded without a counter
    /// overflowing (always, while collection is off).
    pub open spec fn can_record_request(
        &self,
        latency_ms: u64,
        tokens: u64,
        provider: Seq<char>,
        model: Seq<char>,
    ) -> bool {
        self.is_on() ==> {
            &&& self.requests() < u64::MAX
            &&& provider_request_fits(provider_or_fresh(self.providers(), provider), latency_ms, tokens)
            &&& model_request_fits(model_or_fresh(self.models(), model), latency_ms, tokens)
        }
    }

    /// Whether an error can be recorded without a counter overflowing
    /// (always, while collection is off).
    pub open spec fn can_record_error(&self, provider: Seq<char>, model: Seq<char>) -> bool {
        self.is_on() ==> {
            &&& self.requests() < u64::MAX
            &&& provider_or_fresh(self.providers(), provider).error_count < u64::MAX
            &&& model_or_fresh(self.models(), model).error_count < u64::MAX
        }
    }

    /// Create a new metrics collector with default configuration
    pub fn new() -> (r: Self)
        ensures
            r.wf(),
            r.is_on(),
            r.requests() == 0 && r.errors() == 0 && r.latency_total() == 0,
            r.tokens_by_model() == Map::<Seq<char>, u64>::empty(),
            r.providers() == Map::<Seq<char>, ProviderStats>::empty(),
            r.models() == Map::<Seq<char>, ModelStats>::empty(),
    {
        let config = Self::default_config();
        Self::with_config(config)
    }

    /// Create a new metrics collector with custom configuration
    pub fn with_config(config: TelemetryConfig) -> (r: Self)
        ensures
            r.wf(),
            r.is_on() == config.enabled,
            r.telemetry() == config,
            r.requests() == 0 && r.errors() == 0 && r.latency_total() == 0,
            r.tokens_by_model() == Map::<Seq<char>, u64>::empty(),
            r.providers() == Map::<Seq<char>, ProviderStats>::empty(),
            r.models() == Map::<Seq<char>, ModelStats>::empty(),
    {
        let enabled = config.enabled;
        Self {
            request_count: 0,
            error_count: 0,
            total_latency: 0,
            token_usage: StringMap::new(),
            provider_stats: StringMap::new(),
            model_stats: StringMap::new(),
            enabled,
            config,
        }
    }

    /// Create default telemetry configuration
    pub fn default_config() -> (r: TelemetryConfig)
        ensures
            r.enabled,
            !r.log_to_file,
            r.log_file_path@ == "metrics.log"@,
            r.log_interval == 60,
            !r.detailed_logging,
    {
        TelemetryConfig {
            enabled: true,
            log_to_file: false,
            log_file_path: String::from_str("metrics.log"),
            log_interval: 60,
            detailed_logging: false,
        }
    }

    /// The configuration the collector was made with.
    pub fn telemetry_config(&self) -> (r: &TelemetryConfig)
        ensures
            *r == self.telemetry(),
    {
        &self.config
    }

    /// Whether `record_request` can take these values without a counter
    /// overflowing.
    pub fn fits_request(&self, latency_ms: u64, tokens: u64, provider: &str, model: &str) -> (r: bool)
        ensures
            r == self.can_record_request(latency_ms, tokens, provider@, model@),
    {
        if !self.enabled {
            return true;
        }
        if self.request_count == u64::MAX {
            return false;
        }
        let p = self.provider_now(provider);
        let m = self.model_now(model);
        running_fits(p.request_count, p.total_tokens, p.avg_response_time_ms, latency_ms, tokens)
            && running_fits(m.request_count, m.total_tokens, m.avg_response_time_ms, latency_ms, tokens)
    }

    /// Whether `record_error` can take these names without a counter
    /// overflowing.
    pub fn fits_error(&self, provider: &str, model: &str) -> (r: bool)
        ensures
            r == self.can_record_error(provider@, model@),
    {
        if !self.enabled {
            return true;
        }
        let p = self.provider_now(provider);
        let m = self.model_now(model);
        self.request_count < u64::MAX && p.error_count < u64::MAX && m.error_count < u64::MAX
    }

    fn provider_now(&self, provider: &str) -> (r: ProviderStats)
        ensures
            r == provider_or_fresh(self.providers(), provider@),
    {
        match self.provider_stats.get(provider) {
            Some(s) => *s,
            None => ProviderStats {
                request_count: 0,
                error_count: 0,
                total_tokens: 0,
                avg_response_time_ms: 0,
                min_response_time_ms: u64::MAX,
                max_response_time_ms: 0,
            },
        }
    }

    fn model_now(&self, model: &str) -> (r: ModelStats)
        ensures
            r == model_or_fresh(self.models(), model@),
    {
        match self.model_stats.get(model) {
            Some(s) => *s,
            None => ModelStats {
                request_count: 0,
                error_count: 0,
                total_tokens: 0,
                avg_response_time_ms: 0,
            },
        }
    }

    /// Record a successful request: the counters, the latency total, and
    /// the provider's and the model's statistics take it in.
    pub fn record_request(&mut self, latency_ms: u64, tokens: u64, provider: &str, model: &str)
        requires
            old(self).wf(),
            old(self).can_record_request(latency_ms, tokens, provider@, model@),
        ensures
            final(self).wf(),
            final(self).is_on() == old(self).is_on(),
            final(self).telemetry() == old(self).telemetry(),
            final(self).tokens_by_model() == old(self).tokens_by_model(),
            !old(self).is_on() ==> {
                &&& final(self).requests() == old(self).requests()
                &&& final(self).errors() == old(self).errors()
                &&& final(self).latency_total() == old(self).latency_total()
                &&& final(self).providers() == old(self).providers()
                &&& final(self).models() == old(self).models()
            },
            old(self).is_on() ==> {
                &&& final(self).requests() == old(self).requests() + 1
                &&& final(self).errors() == old(self).errors()
                &&& final(self).latency_total() == vstd::wrapping::u64_specs::wrapping_add(
                    old(self).latency_total(),
                    latency_ms,
                )
                &&& final(self).providers() == old(self).providers().insert(
                    provider@,
                    provider_after_request(
                        provider_or_fresh(old(self).providers(), provider@),
                        latency_ms,
                        tokens,
                    ),
                )
                &&& final(self).models() == old(self).models().insert(
                    model@,
                    model_after_request(
                        model_or_fresh(old(self).models(), model@),
                        latency_ms,
                        tokens,
                    ),
                )
            },
    {
        if !self.enabled {
            return;
        }
        self.request_count = self.request_count + 1;
        self.total_latency = self.total_latency.wrapping_add(latency_ms);

        let s = self.provider_now(provider);
        proof {
            lemma_request_keeps_provider_stats_consistent(s, latency_ms, tokens);
        }
        let count = s.request_count + 1;
        let min = if latency_ms < s.min_response_time_ms {
            latency_ms
        } else {
            s.min_response_time_ms
        };
        let max = if latency_ms > s.max_response_time_ms {
            latency_ms
        } else {
            s.max_response_time_ms
        };
        let updated = ProviderStats {
            request_count: count,
            total_tokens: s.total_tokens + tokens,
            avg_response_time_ms: (s.avg_response_time_ms * s.request_count + latency_ms) / count,
            min_response_time_ms: min,
            max_response_time_ms: max,
            ..s
        };
        self.provider_stats.insert(String::from_str(provider), updated);

        let m = self.model_now(model);
        let mcount = m.request_count + 1;
        let mupdated = ModelStats {
            request_count: mcount,
            total_tokens: m.total_tokens + tokens,
            avg_response_time_ms: (m.avg_response_time_ms * m.request_count + latency_ms) / mcount,
            ..m
        };
        self.model_stats.insert(String::from_str(model), mupdated);
    }

    /// Record an error: it counts among the requests and the errors, and
    /// in the provider's and the model's error counts.
    pub fn record_error(&mut self, provider: &str, model: &str)
        requires
            old(self).wf(),
            old(self).can_record_error(provider@, model@),
        ensures
            final(self).wf(),
            final(self).is_on() == old(self).is_on(),
            final(self).telemetry() == old(self).telemetry(),
            final(self).tokens_by_model() == old(self).tokens_by_model(),
            final(self).latency_total() == old(self).latency_total(),
            !old(self).is_on() ==> {
                &&& final(self).requests() == old(self).requests()
                &&& final(self).errors() == old(self).errors()
                &&& final(self).providers() == old(self).providers()
                &&& final(self).models() == old(self).models()
            },
            old(self).is_on() ==> {
                &&& final(self).requests() == old(self).requests() + 1
                &&& final(self).errors() == old(self).errors() + 1
                &&& final(self).providers() == old(self).providers().insert(
                    provider@,
                    provider_after_error(provider_or_fresh(old(self).providers(), provider@)),
                )
                &&& final(self).models() == old(self).models().insert(
                    model@,
                    model_after_error(model_or_fresh(old(self).models(), model@)),
                )
            },
    {
        if !self.enabled {
            return;
        }
        self.error_count = self.error_count + 1;
        self.request_count = self.request_count + 1;

        let s = self.provider_now(provider);
        proof {
            lemma_error_keeps_provider_stats_consistent(s);
        }
        let updated = ProviderStats { error_count: s.error_count + 1, ..s };
        self.provider_stats.insert(String::from_str(provider), updated);

        let m = self.model_now(model);
        let mupdated = ModelStats { error_count: m.error_count + 1, ..m };
        self.model_stats.insert(String::from_str(model), mupdated);
    }

    /// Record token usage for a model (wrapping).
    pub fn record_token_usage(&mut self, model: &str, tokens: u64)
        requires
            old(self).wf(),
        ensures
            final(self).wf(),
            final(self).is_on() == old(self).is_on(),
            final(self).telemetry() == old(self).telemetry(),
            final(self).requests() == old(self).requests(),
            final(self).errors() == old(self).errors(),
            final(self).latency_total() == old(self).latency_total(),
            final(self).providers() == old(self).providers(),
            final(self).models() == old(self).models(),
            final(self).tokens_by_model() == if old(self).is_on() {
                old(self).tokens_by_model().insert(
                    model@,
                    vstd::wrapping::u64_specs::wrapping_add(
                        if old(self).tokens_by_model().contains_key(model@) {
                            old(self).tokens_by_model()[model@]
                        } else {
                            0
                        },
                        tokens,
                    ),
                )
            } else {
                old(self).tokens_by_model()
            },
    {
        if !self.enabled {
            return;
        }
        let current: u64 = match self.token_usage.get(model) {
            Some(t) => *t,
            None => 0,
        };
        self.token_usage.insert(String::from_str(model), current.wrapping_add(tokens));
        assert(self.providers() == old(self).providers());
    }

    /// Get total request count (zero while collection is off)
    pub fn get_request_count(&self) -> (r: u64)
        ensures
            r == if self.is_on() {
                self.requests()
            } else {
                0
            },
    {
        if !self.enabled {
            return 0;
        }
        self.request_count
    }

    /// Get total error count (zero while collection is off)
    pub fn get_error_count(&self) -> (r: u64)
        ensures
            r == if self.is_on() {
                self.errors()
            } else {
                0
            },
    {
        if !self.enabled {
            return 0;
        }
        self.error_count
    }

    /// The average latency as (latency total, request count); none, which
    /// reads as zero, while collection is off or nothing was recorded.
    pub fn avg_latency_parts(&self) -> (r: Option<(u64, u64)>)
        ensures
            r == if self.is_on() && self.requests() > 0 {
                Some((self.latency_total(), self.requests()))
            } else {
                None
            },
    {
        if !self.enabled || self.request_count == 0 {
            return None;
        }
        Some((self.total_latency, self.request_count))
    }

    /// The inputs of the success rate.
    pub fn success_rate_parts(&self) -> (r: SuccessRate)
        requires
            self.wf(),
        ensures
            r == if !self.is_on() {
                SuccessRate::Disabled
            } else if self.requests() == 0 {
                SuccessRate::NoRequests
            } else {
                SuccessRate::Ratio {
                    successes: (self.requests() - self.errors()) as u64,
                    total: self.requests(),
                }
            },
    {
        if !self.enabled {
            return SuccessRate::Disabled;
        }
        if self.request_count == 0 {
            return SuccessRate::NoRequests;
        }
        SuccessRate::Ratio {
            successes: self.request_count - self.error_count,
            total: self.request_count,
        }
    }

    /// Get provider statistics (none while collection is off)
    pub fn get_provider_stats(&self) -> (r: StringMap<ProviderStats>)
        requires
            self.wf(),
        ensures
            r.wf(),
            forall|k: Seq<char>| #[trigger]
                r.spec_map().contains_key(k) ==> provider_stats_consistent(r.spec_map()[k]),
            r.spec_map() == if self.is_on() {
                self.providers()
            } else {
                Map::empty()
            },
    {
        if !self.enabled {
            return StringMap::new();
        }
        let r = self.provider_stats.copied();
        assert(r.spec_map() == self.providers());
        r
    }

    /// Get model statistics (none while collection is off)
    pub fn get_model_stats(&self) -> (r: StringMap<ModelStats>)
        requires
            self.wf(),
        ensures
            r.wf(),
            r.spec_map() == if self.is_on() {
                self.models()
            } else {
                Map::empty()
            },
    {
        if !self.enabled {
            return StringMap::new();
        }
        self.model_stats.copied()
    }

    /// Get token usage by model (none while collection is off)
    pub fn get_token_usage(&self) -> (r: StringMap<u64>)
        requires
            self.wf(),
        ensures
            r.wf(),
            r.spec_map() == if self.is_on() {
                self.tokens_by_model()
            } else {
                Map::empty()
            },
    {
        if !self.enabled {
            return StringMap::new();
        }
        self.token_usage.copied()
    }

    /// Reset metrics: the request, error and latency counters go back to
    /// zero (while collection is on); the tables stay.
    pub fn reset_metrics(&mut self)
        requires
            old(self).wf(),
        ensures
            final(self).wf(),
            final(self).is_on() == old(self).is_on(),
            final(self).telemetry() == old(self).telemetry(),
            final(self).tokens_by_model() == old(self).tokens_by_model(),
            final(self).providers() == old(self).providers(),
            final(self).models() == old(self).models(),
            old(self).is_on() ==> final(self).requests() == 0 && final(self).errors() == 0
                && final(self).latency_total() == 0,
            !old(self).is_on() ==> final(self).requests() == old(self).requests()
                && final(self).errors() == old(self).errors() && final(self).latency_total()
                == old(self).latency_total(),
    {
        if !self.enabled {
            return;
        }
        self.request_count = 0;
        self.error_count = 0;
        self.total_latency = 0;
        assert(self.providers() == old(self).providers());
    }

    /// Enable or disable metrics collection
    pub fn set_enabled(&mut self, enabled: bool)
        ensures
            final(self).is_on() == enabled,
            final(self).wf() == old(self).wf(),
            final(self).telemetry() == old(self).telemetry(),
            final(self).requests() == old(self).requests(),
            final(self).errors() == old(self).errors(),
            final(self).latency_total() == old(self).latency_total(),
            final(self).tokens_by_model() == old(self).tokens_by_model(),
            final(self).providers() == old(self).providers(),
            final(self).models() == old(self).models(),
    {
        self.enabled = enabled;
        assert(self.providers() == old(self).providers());
    }

    /// Get whether metrics collection is enabled
    pub fn is_enabled(&self) -> (r: bool)
        ensures
            r == self.is_on(),
    {
        self.enabled
    }
}

/// Whether running statistics with this count, token total and average
/// can take one more sample.
fn running_fits(count: u64, total_tokens: u64, avg: u64, latency_ms: u64, tokens: u64) -> (r: bool)
    ensures
        r == (count < u64::MAX && total_tokens + tokens <= u64::MAX && avg * count + latency_ms
            <= u64::MAX),
{
    if count == u64::MAX {
        return false;
    }
    if total_tokens.checked_add(tokens).is_none() {
        return false;
    }
    match avg.checked_mul(count) {
        Some(p) => p.checked_add(latency_ms).is_some(),
        None => {
            assert(avg * count > u64::MAX);
            false
        },
    }
}

/// A provider's latency figures hold together: before any request they
/// are at their starting values; after one, the average lies between the
/// fastest and the slowest response.
pub open spec fn provider_stats_consistent(s: ProviderStats) -> bool {
    if s.request_count == 0 {
        s.avg_response_time_ms == 0 && s.min_response_time_ms == u64::MAX
            && s.max_response_time_ms == 0
    } else {
        s.min_response_time_ms <= s.avg_response_time_ms <= s.max_response_time_ms
    }
}

/// The running average after one more sample stays between the smallest
/// and the largest of the old bounds and the sample.
proof fn lemma_next_average_bounds(avg: u64, count: u64, sample: u64, lo: u64, hi: u64)
    requires
        lo <= sample <= hi,
        count > 0 ==> lo <= avg <= hi,
        count == 0 ==> avg == 0,
        avg * count + sample <= u64::MAX,
    ensures
        lo <= next_average(avg, count, sample) <= hi,
{
    let n = count as int;
    let a = avg as int;
    let x = sample as int;
    if count == 0 {
        assert(a * n == 0) by (nonlinear_arith)
            requires
                n == 0,
        ;
    } else {
        assert(lo * (n + 1) <= a * n + x) by (nonlinear_arith)
            requires
                lo <= a,
                lo <= x,
                n > 0,
        ;
        assert(a * n + x <= hi * (n + 1)) by (nonlinear_arith)
            requires
                a <= hi,
                x <= hi,
                n > 0,
        ;
    }
    let q = (a * n + x) / (n + 1);
    assert(lo <= q) by (nonlinear_arith)
        requires
            lo * (n + 1) <= a * n + x,
            n + 1 > 0,
            q == (a * n + x) / (n + 1),
    ;
    assert(q <= hi) by (nonlinear_arith)
        requires
            a * n + x <= hi * (n + 1),
            n + 1 > 0,
            q == (a * n + x) / (n + 1),
            lo >= 0,
    ;
}

/// Recording a request keeps a provider's latency figures together.
pub proof fn lemma_request_keeps_provider_stats_consistent(
    s: ProviderStats,
    latency_ms: u64,
    tokens: u64,
)
    requires
        provider_stats_consistent(s),
        provider_request_fits(s, latency_ms, tokens),
    ensures
        provider_stats_consistent(provider_after_request(s, latency_ms, tokens)),
{
    let t = provider_after_request(s, latency_ms, tokens);
    lemma_next_average_bounds(
        s.avg_response_time_ms,
        s.request_count,
        latency_ms,
        t.min_response_time_ms,
        t.max_response_time_ms,
    );
}

/// Recording an error leaves a provider's latency figures as they are.
pub proof fn lemma_error_keeps_provider_stats_consistent(s: ProviderStats)
    requires
        provider_stats_consistent(s),
        s.error_count < u64::MAX,
    ensures
        provider_stats_consistent(provider_after_error(s)),
{
}

/// A provider seen for the first time starts consistent.
pub proof fn lemma_fresh_provider_stats_consistent()
    ensures
        provider_stats_consistent(fresh_provider_stats()),
{
}

/// Errors never outnumber requests: every error is counted among the
/// requests, and resetting clears both.
pub proof fn lemma_errors_within_requests(m: &Metrics)
    requires
        m.wf(),
    ensures
        m.errors() <= m.requests(),
{
}

/// Every provider statistics entry of a collector holds together.
pub proof fn lemma_provider_stats_consistent(m: &Metrics, provider: Seq<char>)
    requires
        m.wf(),
        m.providers().contains_key(provider),
    ensures
        provider_stats_consistent(m.providers()[provider]),
{
}

} // verus!
