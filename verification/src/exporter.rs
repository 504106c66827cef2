//! Interfaces for exporting metrics

use crate::data::{InstrumentationScope, Metric, Resource, ScopeMetrics, Temporality};
use std::time::Duration;
use vstd::prelude::*;

verus! {

/// The error an export, a flush or a shutdown fails with.
#[derive(Debug)]
pub enum OTelSdkError {
    /// The exporter was already shut down.
    AlreadyShutdown,
    /// The operation did not finish within the given time.
    Timeout(Duration),
    /// The operation failed for the reason given.
    InternalFailure(String),
}

/// The result of an export, a flush or a shutdown.
pub type OTelSdkResult = Result<(), OTelSdkError>;

/// The metrics of one scope, each paired with the scope.
pub open spec fn batch_items(b: ScopeMetrics) -> Seq<(Metric, InstrumentationScope)> {
    b.metrics@.map_values(|m: Metric| (m, b.scope))
}

/// The metrics of all scopes, each paired with its scope, scope after scope.
pub open spec fn all_items(batches: Seq<ScopeMetrics>) -> Seq<(Metric, InstrumentationScope)>
    decreases batches.len(),
{
    if batches.len() == 0 {
        Seq::empty()
    } else {
        batch_items(batches[0]) + all_items(batches.drop_first())
    }
}

/// A iterator over batch of aggregated metric to be exported by a [`PushMetricExporter`].
pub struct MetricBatch<'a> {
    batches: &'a [ScopeMetrics],
    batch: usize,
    metric: usize,
}

impl<'a> MetricBatch<'a> {
    /// The position of the batch is within its scopes and their metrics.
    pub closed spec fn wf(&self) -> bool {
        &&& self.batch <= self.batches@.len()
        &&& self.batch < self.batches@.len() ==> self.metric <= self.batches@[self.batch as int].metrics@.len()
    }

    /// The pairs of metric and scope that the batch has yet to hand out, in order.
    pub closed spec fn remaining(&self) -> Seq<(Metric, InstrumentationScope)> {
        if self.batch < self.batches@.len() {
            batch_items(self.batches@[self.batch as int]).skip(self.metric as int) + all_items(
                self.batches@.skip(self.batch + 1),
            )
        } else {
            Seq::empty()
        }
    }

    /// A batch of all metrics of the given scopes, each paired with its scope.
    pub fn new(batches: &'a [ScopeMetrics]) -> (r: Self)
        ensures
            r.wf(),
            r.remaining() == all_items(batches@),
    {
        let r = MetricBatch { batches, batch: 0, metric: 0 };
        proof {
            if batches@.len() > 0 {
                assert(batch_items(batches@[0]).skip(0) =~= batch_items(batches@[0]));
                assert(batches@.skip(1) =~= batches@.drop_first());
            }
        }
        r
    }

    /// The next metric with its scope, if any is left.
    pub fn next(&mut self) -> (r: Option<(&'a Metric, &'a InstrumentationScope)>)
        requires
            old(self).wf(),
        ensures
            final(self).wf(),
            match r {
                Some((m, s)) => {
                    &&& old(self).remaining().len() > 0
                    &&& (*m, *s) == old(self).remaining()[0]
                    &&& final(self).remaining() == old(self).remaining().drop_first()
                },
                None => old(self).remaining().len() == 0 && final(self).remaining().len() == 0,
            },
    {
        let ghost start = self.remaining();
        while self.batch < self.batches.len()
            invariant
                self.wf(),
                self.remaining() == start,
                start == old(self).remaining(),
            decreases self.batches@.len() - self.batch,
        {
            let b = &self.batches[self.batch];
            if self.metric < b.metrics.len() {
                let m = &b.metrics[self.metric];
                let ghost before = self.batch;
                self.metric = self.metric + 1;
                proof {
                    let items = batch_items(self.batches@[before as int]);
                    let rest = all_items(self.batches@.skip(before + 1));
                    assert(items.skip(self.metric - 1)[0] == items[self.metric - 1]);
                    assert(items.skip(self.metric as int) =~= items.skip(self.metric - 1).drop_first());
                    assert((items.skip(self.metric - 1) + rest).drop_first() =~= items.skip(self.metric as int) + rest);
                }
                return Some((m, &b.scope));
            }
            let ghost old_batch = self.batch;
            self.batch = self.batch + 1;
            self.metric = 0;
            proof {
                let items = batch_items(self.batches@[old_batch as int]);
                assert(items.skip(items.len() as int) =~= Seq::<(Metric, InstrumentationScope)>::empty());
                let tail = self.batches@.skip(old_batch + 1);
                if self.batch < self.batches@.len() {
                    assert(tail[0] == self.batches@[self.batch as int]);
                    assert(tail.drop_first() =~= self.batches@.skip(self.batch + 1));
                    assert(batch_items(tail[0]).skip(0) =~= batch_items(tail[0]));
                    assert(self.remaining() =~= all_items(tail));
                } else {
                    assert(tail =~= Seq::<ScopeMetrics>::empty());
                }
            }
        }
        None
    }
}

/// The `Duration` of the given number of whole seconds.
pub uninterp spec fn duration_of_secs(secs: u64) -> Duration;

/// `std::time::Duration::from_secs`: the duration of `secs` whole seconds.
/// The result is named, not described: `Duration` is opaque here.
#[verifier::external_body]
fn duration_from_secs(secs: u64) -> (r: Duration)
    ensures
        r == duration_of_secs(secs),
{
    Duration::from_secs(secs)
}

/// Exporter handles the delivery of metric data to external receivers.
///
/// This is the final component in the metric push pipeline.
pub trait PushMetricExporter: Sized + Send + Sync + std::fmt::Debug + 'static {
    /// Export serializes and transmits metric data to a receiver.
    ///
    /// All retry logic must be contained in this function. The SDK does not
    /// implement any retry logic. All errors returned by this function are
    /// considered unrecoverable and will be logged.
    fn export(&self, batch: MetricBatch<'_>) -> OTelSdkResult;

    /// Flushes any metric data held by an exporter.
    fn force_flush(&self) -> OTelSdkResult;

    /// The results a shutdown of this exporter within `timeout` may report,
    /// as the exporter defines them; an exporter that does not define them
    /// promises nothing of its shutdown results.
    open spec fn shutdown_outcome(&self, timeout: Duration, result: OTelSdkResult) -> bool {
        true
    }

    /// Releases any held computational resources.
    ///
    /// After Shutdown is called, calls to Export will perform no operation and
    /// instead will return an error indicating the shutdown state.
    fn shutdown_with_timeout(&self, timeout: Duration) -> (r: OTelSdkResult)
        ensures
            self.shutdown_outcome(timeout, r),
    ;

    /// Shutdown with the default timeout of 5 seconds: reports what a
    /// shutdown within 5 seconds reports.
    fn shutdown(&self) -> (r: OTelSdkResult)
        ensures
            self.shutdown_outcome(duration_of_secs(5), r),
    {
        self.shutdown_with_timeout(duration_from_secs(5))
    }

    /// Access the [Temporality] of the MetricExporter.
    fn temporality(&self) -> Temporality;

    /// Set the resource for the exporter. By default the exporter ignores
    /// the resource and is left as it was.
    fn set_resource(&mut self, _resource: &Resource)
        default_ensures
            *final(self) == *old(self),
    {
    }
}

} // verus!
