use vstd::prelude::*;

use crate::metrics::{
    apply_scrape_event, sat_add, sat_dec, sat_inc, spec_avg_response_time_ms,
    spec_success_rate_hundredths, MetricsCollector, MetricsSnapshot, ScrapeEvent,
};

verus! {

/// Lifecycle of one crawl. `Paused` is modeled but never entered; it
/// is a reserved extension point.
#[derive(Debug, Clone, Copy, PartialEq, Eq, Structural)]
pub enum CrawlerState {
    Idle,
    Running,
    Paused,
    Stopped,
}

/// Decision core of the crawl pipeline: the crawl parameters, the
/// state cell, and the live metrics. The surrounding runtime owns the
/// queues, the worker pool and the rendezvous, and reports every
/// event here; this type decides what each event does to the counters
/// and the state.
pub struct CrawlerEngine {
    pub delay_ms: u64,
    pub concurrency: usize,
    pub metrics: MetricsCollector,
    pub state: CrawlerState,
}

impl CrawlerEngine {
    /// A new engine is idle; a caller may share pre-existing metrics.
    pub fn new(delay_ms: u64, concurrency: usize, metrics: Option<MetricsCollector>) -> (e:
        CrawlerEngine)
        ensures
            e.delay_ms == delay_ms,
            e.concurrency == concurrency,
            e.state == CrawlerState::Idle,
            e.metrics == (match metrics {
                Some(m) => m,
                None => MetricsCollector::spec_new(),
            }),
    {
        let m = match metrics {
            Some(m) => m,
            None => MetricsCollector::new(),
        };
        CrawlerEngine { delay_ms, concurrency, metrics: m, state: CrawlerState::Idle }
    }

    /// Writes the mutually exclusive state cell; the runtime broadcasts
    /// the new value to observers (last value wins).
    pub fn set_state(&mut self, state: CrawlerState)
        ensures
            *final(self) == (CrawlerEngine { state, ..*old(self) }),
    {
        self.state = state;
    }

    pub fn state(&self) -> (s: CrawlerState)
        ensures
            s == self.state,
    {
        self.state
    }

    /// Seeding stage: one start URL entered the URL queue.
    pub fn on_url_queued(&mut self)
        ensures
            *final(self) == (CrawlerEngine {
                metrics: (MetricsCollector {
                    urls_queued: sat_inc(old(self).metrics.urls_queued),
                    ..old(self).metrics
                }),
                ..*old(self)
            }),
    {
        self.metrics.increment_urls_queued();
    }

    /// Fetch stage: a worker took a URL in hand.
    pub fn on_worker_started(&mut self)
        ensures
            *final(self) == (CrawlerEngine {
                metrics: (MetricsCollector {
                    active_workers: sat_inc(old(self).metrics.active_workers),
                    ..old(self).metrics
                }),
                ..*old(self)
            }),
    {
        self.metrics.increment_active_workers();
    }

    /// Fetch stage: a worker finished, after the uniform rate-limit
    /// delay.
    pub fn on_worker_finished(&mut self)
        ensures
            *final(self) == (CrawlerEngine {
                metrics: (MetricsCollector {
                    active_workers: sat_dec(old(self).metrics.active_workers),
                    ..old(self).metrics
                }),
                ..*old(self)
            }),
    {
        self.metrics.decrement_active_workers();
    }

    /// Fetch stage: one scrape succeeded, yielding `item_count` items
    /// that the runtime is about to queue for processing.
    pub fn on_scrape_succeeded(&mut self, item_count: usize, duration_ms: u64)
        ensures
            *final(self) == (CrawlerEngine {
                metrics: apply_scrape_event(
                    old(self).metrics,
                    (ScrapeEvent::Success { items: item_count as u64, duration_ms }),
                ),
                ..*old(self)
            }),
    {
        self.metrics.record_success(duration_ms);
        self.metrics.increment_urls_processed();
        let ghost base = self.metrics;
        let mut i: usize = 0;
        while i < item_count
            invariant
                i <= item_count,
                self.delay_ms == old(self).delay_ms,
                self.concurrency == old(self).concurrency,
                self.state == old(self).state,
                base == (MetricsCollector {
                    requests_total: sat_inc(old(self).metrics.requests_total),
                    requests_success: sat_inc(old(self).metrics.requests_success),
                    total_response_time_ms: sat_add(
                        old(self).metrics.total_response_time_ms,
                        duration_ms,
                    ),
                    urls_processed: sat_inc(old(self).metrics.urls_processed),
                    ..old(self).metrics
                }),
                self.metrics == (MetricsCollector {
                    items_extracted: sat_add(base.items_extracted, i as u64),
                    ..base
                }),
            decreases item_count - i,
        {
            self.metrics.increment_items_extracted();
            proof {
                assert(sat_inc(sat_add(base.items_extracted, i as u64)) == sat_add(
                    base.items_extracted,
                    (i + 1) as u64,
                ));
            }
            i = i + 1;
        }
        proof {
            assert(sat_add(base.items_extracted, item_count as u64) == sat_add(
                old(self).metrics.items_extracted,
                item_count as u64,
            ));
        }
    }

    /// Fetch stage: one scrape failed; the crawl continues.
    pub fn on_scrape_failed(&mut self, duration_ms: u64)
        ensures
            *final(self) == (CrawlerEngine {
                metrics: apply_scrape_event(
                    old(self).metrics,
                    (ScrapeEvent::Failure { duration_ms }),
                ),
                ..*old(self)
            }),
    {
        self.metrics.record_failure(duration_ms);
    }

    /// Processing stage: one item went to the sink; a write error
    /// counts the item as failed but never aborts the crawl.
    pub fn on_item_processed(&mut self, ok: bool)
        ensures
            *final(self) == (CrawlerEngine {
                metrics: (MetricsCollector {
                    items_processed: sat_inc(old(self).metrics.items_processed),
                    items_failed: if ok {
                        old(self).metrics.items_failed
                    } else {
                        sat_inc(old(self).metrics.items_failed)
                    },
                    ..old(self).metrics
                }),
                ..*old(self)
            }),
    {
        self.metrics.increment_items_processed();
        if !ok {
            self.metrics.increment_items_failed();
        }
    }

    /// Point-in-time snapshot of the metrics; the caller supplies the
    /// elapsed wall-clock time.
    pub fn get_metrics(&self, elapsed_ms: u64) -> (s: MetricsSnapshot)
        ensures
            s.urls_queued == self.metrics.urls_queued,
            s.urls_processed == self.metrics.urls_processed,
            s.urls_pending == self.metrics.urls_pending,
            s.items_extracted == self.metrics.items_extracted,
            s.items_processed == self.metrics.items_processed,
            s.items_failed == self.metrics.items_failed,
            s.requests_total == self.metrics.requests_total,
            s.requests_success == self.metrics.requests_success,
            s.requests_failed == self.metrics.requests_failed,
            s.active_workers == self.metrics.active_workers,
            s.elapsed_ms == elapsed_ms,
            self.metrics.requests_success <= self.metrics.requests_total
                ==> s.success_rate_hundredths == spec_success_rate_hundredths(
                self.metrics.requests_success,
                self.metrics.requests_total,
            ),
            s.avg_response_time_ms == spec_avg_response_time_ms(
                self.metrics.total_response_time_ms,
                self.metrics.requests_total,
            ),
    {
        self.metrics.snapshot(elapsed_ms)
    }
}

} // verus!
