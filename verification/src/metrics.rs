use vstd::prelude::*;

verus! {

/// Saturating increment: counters stick at `u64::MAX` instead of wrapping.
pub open spec fn sat_inc(x: u64) -> u64 {
    if x == u64::MAX {
        x
    } else {
        (x + 1) as u64
    }
}

/// Saturating decrement: counters stick at zero.
pub open spec fn sat_dec(x: u64) -> u64 {
    if x == 0 {
        x
    } else {
        (x - 1) as u64
    }
}

/// Saturating addition on `u64`.
pub open spec fn sat_add(x: u64, y: u64) -> u64 {
    if x + y > u64::MAX {
        u64::MAX
    } else {
        (x + y) as u64
    }
}

/// Live counters of one crawl. Every increment is individually
/// consistent; a snapshot is a point-in-time read plus derived rates.
#[derive(Debug, Clone, PartialEq, Eq, Structural)]
pub struct MetricsCollector {
    pub urls_queued: u64,
    pub urls_processed: u64,
    pub urls_pending: u64,
    pub items_extracted: u64,
    pub items_processed: u64,
    pub items_failed: u64,
    pub requests_total: u64,
    pub requests_success: u64,
    pub requests_failed: u64,
    pub active_workers: u64,
    pub total_response_time_ms: u64,
}

/// Immutable point-in-time view of the counters with derived rates.
///
/// Rates are kept in exact integer form: `success_rate_hundredths` is
/// hundredths of a percent (10000 means 100%). Elapsed time is supplied
/// by the caller, since the library does not read the clock.
#[derive(Debug, Clone, PartialEq, Eq, Structural)]
pub struct MetricsSnapshot {
    pub urls_queued: u64,
    pub urls_processed: u64,
    pub urls_pending: u64,
    pub items_extracted: u64,
    pub items_processed: u64,
    pub items_failed: u64,
    pub requests_total: u64,
    pub requests_success: u64,
    pub requests_failed: u64,
    pub active_workers: u64,
    pub success_rate_hundredths: u64,
    pub avg_response_time_ms: u64,
    pub elapsed_ms: u64,
}

/// Derived success rate in hundredths of a percent, zero when no
/// request has completed.
pub open spec fn spec_success_rate_hundredths(success: u64, total: u64) -> int {
    if total == 0 {
        0
    } else {
        10000 * success / (total as int)
    }
}

/// Derived average latency in milliseconds, zero when no request has
/// completed.
pub open spec fn spec_avg_response_time_ms(total_time: u64, total: u64) -> int {
    if total == 0 {
        0
    } else {
        total_time as int / total as int
    }
}

impl MetricsCollector {
    pub open spec fn spec_new() -> MetricsCollector {
        MetricsCollector {
            urls_queued: 0,
            urls_processed: 0,
            urls_pending: 0,
            items_extracted: 0,
            items_processed: 0,
            items_failed: 0,
            requests_total: 0,
            requests_success: 0,
            requests_failed: 0,
            active_workers: 0,
            total_response_time_ms: 0,
        }
    }

    pub fn new() -> (r: MetricsCollector)
        ensures
            r == MetricsCollector::spec_new(),
    {
        MetricsCollector {
            urls_queued: 0,
            urls_processed: 0,
            urls_pending: 0,
            items_extracted: 0,
            items_processed: 0,
            items_failed: 0,
            requests_total: 0,
            requests_success: 0,
            requests_failed: 0,
            active_workers: 0,
            total_response_time_ms: 0,
        }
    }

    pub fn increment_urls_queued(&mut self)
        ensures
            *final(self) == (MetricsCollector { urls_queued: sat_inc(old(self).urls_queued), ..*old(self) }),
    {
        self.urls_queued = self.urls_queued.saturating_add(1);
    }

    pub fn increment_urls_processed(&mut self)
        ensures
            *final(self) == (MetricsCollector { urls_processed: sat_inc(old(self).urls_processed), ..*old(self) }),
    {
        self.urls_processed = self.urls_processed.saturating_add(1);
    }

    pub fn increment_items_extracted(&mut self)
        ensures
            *final(self) == (MetricsCollector { items_extracted: sat_inc(old(self).items_extracted), ..*old(self) }),
    {
        self.items_extracted = self.items_extracted.saturating_add(1);
    }

    pub fn increment_items_processed(&mut self)
        ensures
            *final(self) == (MetricsCollector { items_processed: sat_inc(old(self).items_processed), ..*old(self) }),
    {
        self.items_processed = self.items_processed.saturating_add(1);
    }

    pub fn increment_items_failed(&mut self)
        ensures
            *final(self) == (MetricsCollector { items_failed: sat_inc(old(self).items_failed), ..*old(self) }),
    {
        self.items_failed = self.items_failed.saturating_add(1);
    }

    pub fn increment_active_workers(&mut self)
        ensures
            *final(self) == (MetricsCollector { active_workers: sat_inc(old(self).active_workers), ..*old(self) }),
    {
        self.active_workers = self.active_workers.saturating_add(1);
    }

    pub fn decrement_active_workers(&mut self)
        ensures
            *final(self) == (MetricsCollector { active_workers: sat_dec(old(self).active_workers), ..*old(self) }),
    {
        self.active_workers = self.active_workers.saturating_sub(1);
    }

    /// One completed request that succeeded, with its elapsed time.
    pub fn record_success(&mut self, duration_ms: u64)
        ensures
            *final(self) == (MetricsCollector {
                requests_total: sat_inc(old(self).requests_total),
                requests_success: sat_inc(old(self).requests_success),
                total_response_time_ms: sat_add(old(self).total_response_time_ms, duration_ms),
                ..*old(self)
            }),
    {
        self.requests_total = self.requests_total.saturating_add(1);
        self.requests_success = self.requests_success.saturating_add(1);
        self.total_response_time_ms = self.total_response_time_ms.saturating_add(duration_ms);
    }

    /// One completed request that failed, with its elapsed time.
    pub fn record_failure(&mut self, duration_ms: u64)
        ensures
            *final(self) == (MetricsCollector {
                requests_total: sat_inc(old(self).requests_total),
                requests_failed: sat_inc(old(self).requests_failed),
                total_response_time_ms: sat_add(old(self).total_response_time_ms, duration_ms),
                ..*old(self)
            }),
    {
        self.requests_total = self.requests_total.saturating_add(1);
        self.requests_failed = self.requests_failed.saturating_add(1);
        self.total_response_time_ms = self.total_response_time_ms.saturating_add(duration_ms);
    }

    /// Point-in-time snapshot. Reads every counter and derives the
    /// rates; the caller supplies the elapsed wall-clock time.
    pub fn snapshot(&self, elapsed_ms: u64) -> (s: MetricsSnapshot)
        ensures
            s.urls_queued == self.urls_queued,
            s.urls_processed == self.urls_processed,
            s.urls_pending == self.urls_pending,
            s.items_extracted == self.items_extracted,
            s.items_processed == self.items_processed,
            s.items_failed == self.items_failed,
            s.requests_total == self.requests_total,
            s.requests_success == self.requests_success,
            s.requests_failed == self.requests_failed,
            s.active_workers == self.active_workers,
            s.elapsed_ms == elapsed_ms,
            self.requests_success <= self.requests_total ==> s.success_rate_hundredths
                == spec_success_rate_hundredths(self.requests_success, self.requests_total),
            self.requests_success <= self.requests_total ==> s.success_rate_hundredths <= 10000,
            s.avg_response_time_ms == spec_avg_response_time_ms(
                self.total_response_time_ms,
                self.requests_total,
            ),
    {
        let success_rate_hundredths: u64 = if self.requests_total > 0 {
            let wide: u128 = (self.requests_success as u128) * 10000 / (self.requests_total as u128);
            proof {
                if self.requests_success <= self.requests_total {
                    assert((self.requests_success as int) * 10000 / (self.requests_total as int)
                        <= 10000) by (nonlinear_arith)
                        requires
                            self.requests_success <= self.requests_total,
                            self.requests_total > 0,
                    ;
                }
            }
            wide as u64
        } else {
            0
        };
        let avg_response_time_ms: u64 = if self.requests_total > 0 {
            self.total_response_time_ms / self.requests_total
        } else {
            0
        };
        MetricsSnapshot {
            urls_queued: self.urls_queued,
            urls_processed: self.urls_processed,
            urls_pending: self.urls_pending,
            items_extracted: self.items_extracted,
            items_processed: self.items_processed,
            items_failed: self.items_failed,
            requests_total: self.requests_total,
            requests_success: self.requests_success,
            requests_failed: self.requests_failed,
            active_workers: self.active_workers,
            success_rate_hundredths,
            avg_response_time_ms,
            elapsed_ms,
        }
    }
}

impl Default for MetricsCollector {
    fn default() -> (r: MetricsCollector)
        ensures
            r == MetricsCollector::spec_new(),
    {
        MetricsCollector::new()
    }
}

/// One fetch-stage outcome, as the pipeline reports it to the metrics.
pub enum ScrapeEvent {
    Success { items: u64, duration_ms: u64 },
    Failure { duration_ms: u64 },
}

/// Counter updates of one scrape outcome: a success records the
/// request, the processed URL and its extracted items; a failure
/// records only the failed request. Both accumulate latency.
pub open spec fn apply_scrape_event(m: MetricsCollector, e: ScrapeEvent) -> MetricsCollector {
    match e {
        ScrapeEvent::Success { items, duration_ms } => MetricsCollector {
            requests_total: sat_inc(m.requests_total),
            requests_success: sat_inc(m.requests_success),
            total_response_time_ms: sat_add(m.total_response_time_ms, duration_ms),
            urls_processed: sat_inc(m.urls_processed),
            items_extracted: sat_add(m.items_extracted, items),
            ..m
        },
        ScrapeEvent::Failure { duration_ms } => MetricsCollector {
            requests_total: sat_inc(m.requests_total),
            requests_failed: sat_inc(m.requests_failed),
            total_response_time_ms: sat_add(m.total_response_time_ms, duration_ms),
            ..m
        },
    }
}

pub open spec fn apply_scrape_events(m: MetricsCollector, es: Seq<ScrapeEvent>) -> MetricsCollector
    decreases es.len(),
{
    if es.len() == 0 {
        m
    } else {
        apply_scrape_events(apply_scrape_event(m, es[0]), es.drop_first())
    }
}

pub open spec fn count_successes(es: Seq<ScrapeEvent>) -> nat
    decreases es.len(),
{
    if es.len() == 0 {
        0
    } else {
        (if es[0] is Success {
            1nat
        } else {
            0nat
        }) + count_successes(es.drop_first())
    }
}

pub open spec fn sum_items(es: Seq<ScrapeEvent>) -> nat
    decreases es.len(),
{
    if es.len() == 0 {
        0
    } else {
        (match es[0] {
            ScrapeEvent::Success { items, .. } => items as nat,
            ScrapeEvent::Failure { .. } => 0nat,
        }) + sum_items(es.drop_first())
    }
}

pub open spec fn sum_durations(es: Seq<ScrapeEvent>) -> nat
    decreases es.len(),
{
    if es.len() == 0 {
        0
    } else {
        (match es[0] {
            ScrapeEvent::Success { duration_ms, .. } => duration_ms as nat,
            ScrapeEvent::Failure { duration_ms } => duration_ms as nat,
        }) + sum_durations(es.drop_first())
    }
}

pub proof fn lemma_count_successes_le(es: Seq<ScrapeEvent>)
    ensures
        count_successes(es) <= es.len(),
    decreases es.len(),
{
    if es.len() > 0 {
        lemma_count_successes_le(es.drop_first());
    }
}

/// Counter totals after any sequence of scrape outcomes, as long as no
/// counter saturates: each success adds one processed URL, one
/// successful request and its items; each failure adds one failed
/// request; every outcome adds one request and its latency. Nothing
/// else moves.
pub proof fn lemma_metrics_after_events(m: MetricsCollector, es: Seq<ScrapeEvent>)
    requires
        m.requests_total + es.len() <= u64::MAX,
        m.requests_success + count_successes(es) <= u64::MAX,
        m.requests_failed + es.len() <= u64::MAX,
        m.urls_processed + count_successes(es) <= u64::MAX,
        m.items_extracted + sum_items(es) <= u64::MAX,
        m.total_response_time_ms + sum_durations(es) <= u64::MAX,
    ensures
        apply_scrape_events(m, es).requests_total == m.requests_total + es.len(),
        apply_scrape_events(m, es).requests_success == m.requests_success + count_successes(es),
        apply_scrape_events(m, es).requests_failed == m.requests_failed + (es.len()
            - count_successes(es)),
        apply_scrape_events(m, es).urls_processed == m.urls_processed + count_successes(es),
        apply_scrape_events(m, es).items_extracted == m.items_extracted + sum_items(es),
        apply_scrape_events(m, es).total_response_time_ms == m.total_response_time_ms
            + sum_durations(es),
        apply_scrape_events(m, es).urls_queued == m.urls_queued,
        apply_scrape_events(m, es).urls_pending == m.urls_pending,
        apply_scrape_events(m, es).items_processed == m.items_processed,
        apply_scrape_events(m, es).items_failed == m.items_failed,
        apply_scrape_events(m, es).active_workers == m.active_workers,
    decreases es.len(),
{
    lemma_count_successes_le(es);
    if es.len() > 0 {
        lemma_count_successes_le(es.drop_first());
        lemma_metrics_after_events(apply_scrape_event(m, es[0]), es.drop_first());
    }
}

/// After N successful scrapes each yielding k items and no failures,
/// starting from fresh metrics: items_extracted is N*k,
/// requests_success is N, nothing failed, and the derived success rate
/// is a full 100 percent.
pub proof fn lemma_uniform_success_metrics(es: Seq<ScrapeEvent>, k: u64)
    requires
        forall|i: int|
            0 <= i < es.len() ==> ((#[trigger] es[i]) matches ScrapeEvent::Success {
                items,
                duration_ms,
            } && items == k),
        es.len() * k <= u64::MAX,
        es.len() <= u64::MAX,
        sum_durations(es) <= u64::MAX,
    ensures
        apply_scrape_events(MetricsCollector::spec_new(), es).items_extracted == es.len() * k,
        apply_scrape_events(MetricsCollector::spec_new(), es).requests_success == es.len(),
        apply_scrape_events(MetricsCollector::spec_new(), es).requests_failed == 0,
        apply_scrape_events(MetricsCollector::spec_new(), es).requests_total == es.len(),
        es.len() > 0 ==> spec_success_rate_hundredths(
            apply_scrape_events(MetricsCollector::spec_new(), es).requests_success,
            apply_scrape_events(MetricsCollector::spec_new(), es).requests_total,
        ) == 10000,
{
    lemma_all_success_counts(es, k);
    lemma_metrics_after_events(MetricsCollector::spec_new(), es);
    let n = es.len();
    if n > 0 {
        assert(10000 * (n as int) / (n as int) == 10000) by (nonlinear_arith)
            requires
                n > 0,
        ;
    }
}

proof fn lemma_all_success_counts(es: Seq<ScrapeEvent>, k: u64)
    requires
        forall|i: int|
            0 <= i < es.len() ==> ((#[trigger] es[i]) matches ScrapeEvent::Success {
                items,
                duration_ms,
            } && items == k),
    ensures
        count_successes(es) == es.len(),
        sum_items(es) == es.len() * k,
    decreases es.len(),
{
    if es.len() > 0 {
        assert forall|i: int|
            0 <= i < es.drop_first().len() implies ((#[trigger] es.drop_first()[i])
            matches ScrapeEvent::Success { items, duration_ms } && items == k) by {
            assert(es.drop_first()[i] == es[i + 1]);
        }
        lemma_all_success_counts(es.drop_first(), k);
        assert(es.len() * k == (es.len() - 1) * k + k) by (nonlinear_arith);
    }
}

/// After S successes and F failures in any order, starting from fresh
/// metrics, the derived success rate is 100*S/(S+F) percent (held here
/// in hundredths of a percent), and the average latency is zero when
/// no request completed at all.
pub proof fn lemma_success_rate_after_events(es: Seq<ScrapeEvent>)
    requires
        es.len() <= u64::MAX,
        sum_items(es) <= u64::MAX,
        sum_durations(es) <= u64::MAX,
    ensures
        apply_scrape_events(MetricsCollector::spec_new(), es).requests_total == es.len(),
        spec_success_rate_hundredths(
            apply_scrape_events(MetricsCollector::spec_new(), es).requests_success,
            apply_scrape_events(MetricsCollector::spec_new(), es).requests_total,
        ) == (if es.len() == 0 {
            0int
        } else {
            10000 * (count_successes(es) as int) / (es.len() as int)
        }),
        es.len() == 0 ==> spec_avg_response_time_ms(
            apply_scrape_events(MetricsCollector::spec_new(), es).total_response_time_ms,
            apply_scrape_events(MetricsCollector::spec_new(), es).requests_total,
        ) == 0,
{
    lemma_count_successes_le(es);
    lemma_metrics_after_events(MetricsCollector::spec_new(), es);
}

} // verus!
