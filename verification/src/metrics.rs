//! Counters and latencies of the message pipeline.
use vstd::prelude::*;

use crate::outside;

verus! {

/// What has been counted and timed since the start. The counters wrap around.
#[derive(Clone, Copy, Debug, PartialEq, Eq, Structural)]
pub struct PipelineMetrics {
    pub messages_processed: u64,
    pub messages_skipped: u64,
    pub total_latency_us: u64,
    pub compose_latency_us: u64,
    pub should_respond_latency_us: u64,
    pub generate_latency_us: u64,
    pub store_latency_us: u64,
    pub provider_latency_us: u64,
    pub api_errors: u64,
    pub api_retries: u64,
}

/// `a` plus `b`, modulo two to the power 64.
pub open spec fn wrapped_sum(a: u64, b: u64) -> int {
    (a + b) % 0x1_0000_0000_0000_0000
}

/// The sum `a` plus `b`, modulo two to the power 64.
fn wrapping_sum(a: u64, b: u64) -> (r: u64)
    ensures
        r == wrapped_sum(a, b),
{
    a.wrapping_add(b)
}

/// The average in milliseconds of latencies that sum up to `sum_us`
/// microseconds over `n` messages, and zero without messages.
pub open spec fn average_ms(sum_us: u64, n: u64) -> int {
    if n > 0 {
        sum_us as int / n as int / 1000
    } else {
        0
    }
}

fn avg_ms(sum_us: u64, n: u64) -> (r: u64)
    ensures
        r == average_ms(sum_us, n),
{
    if n > 0 {
        sum_us / n / 1000
    } else {
        0
    }
}

impl Default for PipelineMetrics {
    fn default() -> (r: Self)
        ensures
            r == PipelineMetrics::zero(),
    {
        PipelineMetrics {
            messages_processed: 0,
            messages_skipped: 0,
            total_latency_us: 0,
            compose_latency_us: 0,
            should_respond_latency_us: 0,
            generate_latency_us: 0,
            store_latency_us: 0,
            provider_latency_us: 0,
            api_errors: 0,
            api_retries: 0,
        }
    }
}

impl PipelineMetrics {
    /// Nothing counted and nothing timed.
    pub open spec fn zero() -> Self {
        PipelineMetrics {
            messages_processed: 0,
            messages_skipped: 0,
            total_latency_us: 0,
            compose_latency_us: 0,
            should_respond_latency_us: 0,
            generate_latency_us: 0,
            store_latency_us: 0,
            provider_latency_us: 0,
            api_errors: 0,
            api_retries: 0,
        }
    }

    pub fn new() -> (r: Self)
        ensures
            r == PipelineMetrics::zero(),
    {
        PipelineMetrics::default()
    }

    /// The metrics with one more message answered.
    pub open spec fn with_message(self) -> Self {
        PipelineMetrics {
            messages_processed: wrapped_sum(self.messages_processed, 1) as u64,
            ..self
        }
    }

    /// The metrics with one more message not answered.
    pub open spec fn with_skip(self) -> Self {
        PipelineMetrics {
            messages_skipped: wrapped_sum(self.messages_skipped, 1) as u64,
            ..self
        }
    }

    /// The metrics with the time that composing the state took added.
    pub open spec fn with_compose(self, us: u64) -> Self {
        PipelineMetrics {
            compose_latency_us: wrapped_sum(self.compose_latency_us, us) as u64,
            ..self
        }
    }

    /// The metrics with the time that the decision to respond took added.
    pub open spec fn with_should_respond(self, us: u64) -> Self {
        PipelineMetrics {
            should_respond_latency_us: wrapped_sum(
                self.should_respond_latency_us,
                us,
            ) as u64,
            ..self
        }
    }

    /// The metrics with the time that generating the response took added.
    pub open spec fn with_generate(self, us: u64) -> Self {
        PipelineMetrics {
            generate_latency_us: wrapped_sum(self.generate_latency_us, us) as u64,
            ..self
        }
    }

    /// The metrics with the time that a message took in all added.
    pub open spec fn with_total(self, us: u64) -> Self {
        PipelineMetrics {
            total_latency_us: wrapped_sum(self.total_latency_us, us) as u64,
            ..self
        }
    }

    /// The metrics with one more error of a model's API.
    pub open spec fn with_api_error(self) -> Self {
        PipelineMetrics {
            api_errors: wrapped_sum(self.api_errors, 1) as u64,
            ..self
        }
    }

    /// The metrics with one more call of a model's API that was made again.
    pub open spec fn with_retry(self) -> Self {
        PipelineMetrics {
            api_retries: wrapped_sum(self.api_retries, 1) as u64,
            ..self
        }
    }

    /// Counts a message that was answered.
    pub fn record_message(&mut self)
        ensures
            *final(self) == old(self).with_message(),
    {
        self.messages_processed = wrapping_sum(self.messages_processed, 1);
    }

    /// Counts a message that was not answered.
    pub fn record_skip(&mut self)
        ensures
            *final(self) == old(self).with_skip(),
    {
        self.messages_skipped = wrapping_sum(self.messages_skipped, 1);
    }

    /// Adds the time that composing the state took.
    pub fn record_compose(&mut self, duration_us: u64)
        ensures
            *final(self) == old(self).with_compose(duration_us),
    {
        self.compose_latency_us = wrapping_sum(self.compose_latency_us, duration_us);
    }

    /// Adds the time that the decision to respond took.
    pub fn record_should_respond(&mut self, duration_us: u64)
        ensures
            *final(self) == old(self).with_should_respond(duration_us),
    {
        self.should_respond_latency_us = wrapping_sum(
            self.should_respond_latency_us,
            duration_us,
        );
    }

    /// Adds the time that generating the response took.
    pub fn record_generate(&mut self, duration_us: u64)
        ensures
            *final(self) == old(self).with_generate(duration_us),
    {
        self.generate_latency_us = wrapping_sum(self.generate_latency_us, duration_us);
    }

    /// Adds the time that a message took in all.
    pub fn record_total(&mut self, duration_us: u64)
        ensures
            *final(self) == old(self).with_total(duration_us),
    {
        self.total_latency_us = wrapping_sum(self.total_latency_us, duration_us);
    }

    /// Counts an error of a model's API.
    pub fn record_api_error(&mut self)
        ensures
            *final(self) == old(self).with_api_error(),
    {
        self.api_errors = wrapping_sum(self.api_errors, 1);
    }

    /// Counts a call of a model's API that was made again.
    pub fn record_retry(&mut self)
        ensures
            *final(self) == old(self).with_retry(),
    {
        self.api_retries = wrapping_sum(self.api_retries, 1);
    }

    /// The counters, and the average latencies over the messages processed.
    pub open spec fn summary(self) -> MetricsSnapshot {
        let n = self.messages_processed;
        MetricsSnapshot {
            messages_processed: n,
            messages_skipped: self.messages_skipped,
            avg_total_ms: average_ms(self.total_latency_us, n) as u64,
            avg_compose_ms: average_ms(self.compose_latency_us, n) as u64,
            avg_should_respond_ms: average_ms(self.should_respond_latency_us, n) as u64,
            avg_generate_ms: average_ms(self.generate_latency_us, n) as u64,
            api_errors: self.api_errors,
            api_retries: self.api_retries,
        }
    }

    /// The counters, and the average latencies over the messages processed.
    pub fn snapshot(&self) -> (r: MetricsSnapshot)
        ensures
            r == self.summary(),
    {
        let processed: u64 = self.messages_processed;
        MetricsSnapshot {
            messages_processed: processed,
            messages_skipped: self.messages_skipped,
            avg_total_ms: avg_ms(self.total_latency_us, processed),
            avg_compose_ms: avg_ms(self.compose_latency_us, processed),
            avg_should_respond_ms: avg_ms(self.should_respond_latency_us, processed),
            avg_generate_ms: avg_ms(self.generate_latency_us, processed),
            api_errors: self.api_errors,
            api_retries: self.api_retries,
        }
    }
}

#[derive(Clone, Copy, Debug, PartialEq, Eq, Structural)]
pub struct MetricsSnapshot {
    pub messages_processed: u64,
    pub messages_skipped: u64,
    pub avg_total_ms: u64,
    pub avg_compose_ms: u64,
    pub avg_should_respond_ms: u64,
    pub avg_generate_ms: u64,
    pub api_errors: u64,
    pub api_retries: u64,
}

/// What fresh metrics show is all zero.
pub proof fn fresh_metrics_show_zero()
    ensures
        PipelineMetrics::zero().summary() == (MetricsSnapshot {
            messages_processed: 0,
            messages_skipped: 0,
            avg_total_ms: 0,
            avg_compose_ms: 0,
            avg_should_respond_ms: 0,
            avg_generate_ms: 0,
            api_errors: 0,
            api_retries: 0,
        }),
{
}

/// What is counted shows in its own count, and what is timed in its own average, and nowhere
/// else: of one message that was answered the averages are the times that it took.
pub proof fn counts_and_times_are_shown(us: u64)
    ensures
        ({
            let none = PipelineMetrics::zero();
            let one = none.with_message();
            let fresh = none.summary();
            let seen = one.summary();
            &&& seen == (MetricsSnapshot { messages_processed: 1, ..fresh })
            &&& none.with_skip().summary() == (MetricsSnapshot { messages_skipped: 1, ..fresh })
            &&& none.with_api_error().summary() == (MetricsSnapshot { api_errors: 1, ..fresh })
            &&& none.with_retry().summary() == (MetricsSnapshot { api_retries: 1, ..fresh })
            &&& one.with_total(us).summary() == (MetricsSnapshot {
                avg_total_ms: us / 1000,
                ..seen
            })
            &&& one.with_compose(us).summary() == (MetricsSnapshot {
                avg_compose_ms: us / 1000,
                ..seen
            })
            &&& one.with_should_respond(us).summary() == (MetricsSnapshot {
                avg_should_respond_ms: us / 1000,
                ..seen
            })
            &&& one.with_generate(us).summary() == (MetricsSnapshot {
                avg_generate_ms: us / 1000,
                ..seen
            })
        }),
{
}

/// Counting and timing go on from what there is: a count grows by one, a time by what is
/// added to it, as long as neither overflows, and everything else stays.
pub proof fn counts_and_times_grow(m: PipelineMetrics, us: u64)
    requires
        m.messages_processed < u64::MAX,
        m.messages_skipped < u64::MAX,
        m.api_errors < u64::MAX,
        m.api_retries < u64::MAX,
        m.compose_latency_us + us <= u64::MAX,
        m.should_respond_latency_us + us <= u64::MAX,
        m.generate_latency_us + us <= u64::MAX,
        m.total_latency_us + us <= u64::MAX,
    ensures
        m.with_message().messages_processed == m.messages_processed + 1,
        m.with_skip().messages_skipped == m.messages_skipped + 1,
        m.with_api_error().api_errors == m.api_errors + 1,
        m.with_retry().api_retries == m.api_retries + 1,
        m.with_compose(us).compose_latency_us == m.compose_latency_us + us,
        m.with_should_respond(us).should_respond_latency_us == m.should_respond_latency_us + us,
        m.with_generate(us).generate_latency_us == m.generate_latency_us + us,
        m.with_total(us).total_latency_us == m.total_latency_us + us,
        m.with_message() == (PipelineMetrics {
            messages_processed: m.with_message().messages_processed,
            ..m
        }),
        m.with_skip() == (PipelineMetrics { messages_skipped: m.with_skip().messages_skipped, ..m }),
        m.with_compose(us) == (PipelineMetrics {
            compose_latency_us: m.with_compose(us).compose_latency_us,
            ..m
        }),
        m.with_should_respond(us) == (PipelineMetrics {
            should_respond_latency_us: m.with_should_respond(us).should_respond_latency_us,
            ..m
        }),
        m.with_generate(us) == (PipelineMetrics {
            generate_latency_us: m.with_generate(us).generate_latency_us,
            ..m
        }),
        m.with_total(us) == (PipelineMetrics {
            total_latency_us: m.with_total(us).total_latency_us,
            ..m
        }),
        m.with_api_error() == (PipelineMetrics { api_errors: m.with_api_error().api_errors, ..m }),
        m.with_retry() == (PipelineMetrics { api_retries: m.with_retry().api_retries, ..m }),
{
}

/// A clock that was started.
pub struct Timer {
    start: std::time::Instant,
}

/// A number of microseconds in 64 bits, the higher bits cut off.
pub fn micros_in_64_bits(micros: u128) -> (r: u64)
    ensures
        r == micros % 0x1_0000_0000_0000_0000,
{
    (micros % 0x1_0000_0000_0000_0000) as u64
}

impl Timer {
    /// A clock that starts now.
    pub fn start() -> Self {
        Timer { start: outside::instant_now() }
    }

    /// The microseconds since the clock was started.
    pub fn elapsed_us(&self) -> u64 {
        micros_in_64_bits(outside::elapsed_micros(&self.start))
    }
}

} // verus!
