//! Periodic samples of the live statistics, kept for later inspection.

use crate::statistics::{Ratio, Statistics};
use vstd::prelude::*;

verus! {

/// What a series holds, as a mathematical value.
pub struct TimeSeriesView<T> {
    /// The samples taken, each with its instant, in the order in which they were taken.
    pub samples: Seq<(u64, T)>,
    pub sample_interval: u64,
    /// The instant from which on the next sample is due.
    pub next_sample_time: u64,
}

impl<T> TimeSeriesView<T> {
    pub open spec fn initial(sample_interval: u64) -> Self {
        TimeSeriesView { samples: Seq::empty(), sample_interval, next_sample_time: 0 }
    }

    /// Whether a sample is due at `current_time`.
    pub open spec fn is_due(self, current_time: u64) -> bool {
        current_time >= self.next_sample_time
    }

    /// Whether the instant from which the sample after this one is due still fits the clock.
    pub open spec fn may_sample(self, current_time: u64) -> bool {
        self.is_due(current_time) ==> current_time + self.sample_interval <= u64::MAX
    }

    /// The series after `value` was offered at `current_time`: taken if a sample is due,
    /// and the next one then due one interval after this one was taken; else unchanged.
    pub open spec fn sample(self, current_time: u64, value: T) -> Self {
        if self.is_due(current_time) {
            TimeSeriesView {
                samples: self.samples.push((current_time, value)),
                next_sample_time: (current_time + self.sample_interval) as u64,
                ..self
            }
        } else {
            self
        }
    }

    /// Whether the samples keep their distance: any two of them lie at least one interval
    /// apart, in the order in which they were taken, and the next one is due no sooner
    /// than one interval after the last.
    pub open spec fn is_spaced(self) -> bool {
        &&& forall|i: int, j: int|
            0 <= i < j < self.samples.len() ==> self.samples[i].0 + self.sample_interval
                <= self.samples[j].0
        &&& self.samples.len() > 0 ==> self.samples.last().0 + self.sample_interval
            <= self.next_sample_time
    }
}

/// Offering a value keeps the samples at their distance.
pub proof fn lemma_sample_keeps_spacing<T>(series: TimeSeriesView<T>, current_time: u64, value: T)
    requires
        series.is_spaced(),
        series.may_sample(current_time),
    ensures
        series.sample(current_time, value).is_spaced(),
{
    if series.is_due(current_time) {
        let after = series.sample(current_time, value);
        let count = series.samples.len() as int;
        assert forall|i: int, j: int| 0 <= i < j < after.samples.len() implies after.samples[i].0
            + after.sample_interval <= after.samples[j].0 by {
            assert(after.samples[i] == series.samples[i]);
            if j < count {
                assert(after.samples[j] == series.samples[j]);
            } else if i < count - 1 {
                assert(series.samples[i].0 + series.sample_interval <= series.samples[count
                    - 1].0);
            }
        }
    }
}

/// A series of values, sampled no more often than once per interval of simulated time:
/// after a sample the next one is due one interval later, however late the sample came.
#[derive(Debug, Clone)]
pub struct TimeSeries<T> {
    data: Vec<(u64, T)>,
    sample_interval: u64,
    next_sample_time: u64,
}

impl<T> View for TimeSeries<T> {
    type V = TimeSeriesView<T>;

    closed spec fn view(&self) -> TimeSeriesView<T> {
        TimeSeriesView {
            samples: self.data@,
            sample_interval: self.sample_interval,
            next_sample_time: self.next_sample_time,
        }
    }
}

impl<T: Clone> TimeSeries<T> {
    /// An empty series with room for `max_samples` samples, the first of them due at once.
    pub fn new(sample_interval: u64, max_samples: usize) -> (series: Self)
        ensures
            series@ == TimeSeriesView::<T>::initial(sample_interval),
            series@.is_spaced(),
    {
        Self { data: Vec::with_capacity(max_samples), sample_interval, next_sample_time: 0 }
    }

    #[inline]
    pub fn should_sample(&self, current_time: u64) -> (due: bool)
        ensures
            due == self@.is_due(current_time),
    {
        current_time >= self.next_sample_time
    }

    /// Whether `sample` may be called at `current_time`: tests its precondition.
    pub fn can_sample(&self, current_time: u64) -> (ok: bool)
        ensures
            ok == self@.may_sample(current_time),
    {
        current_time < self.next_sample_time || self.sample_interval <= u64::MAX - current_time
    }

    /// Takes `value` as the sample of `current_time` if one is due, and says whether it did.
    #[inline]
    pub fn sample(&mut self, current_time: u64, value: T) -> (taken: bool)
        requires
            old(self)@.may_sample(current_time),
        ensures
            taken == old(self)@.is_due(current_time),
            final(self)@ == old(self)@.sample(current_time, value),
            taken ==> final(self)@.samples == old(self)@.samples.push((current_time, value)),
            taken ==> final(self)@.next_sample_time == current_time + old(self)@.sample_interval,
            !taken ==> final(self)@ == old(self)@,
            old(self)@.is_spaced() ==> final(self)@.is_spaced(),
    {
        proof {
            if self@.is_spaced() {
                lemma_sample_keeps_spacing(self@, current_time, value);
            }
        }
        if self.should_sample(current_time) {
            self.data.push((current_time, value));
            self.next_sample_time = current_time + self.sample_interval;
            true
        } else {
            false
        }
    }

    pub fn data(&self) -> (samples: &[(u64, T)])
        ensures
            samples@ == self@.samples,
    {
        self.data.as_slice()
    }

    pub fn len(&self) -> (count: usize)
        ensures
            count == self@.samples.len(),
    {
        self.data.len()
    }
}

/// The six series that a run records.
#[derive(Clone)]
pub struct SimulationTimeSeries {
    pub queue_length: TimeSeries<usize>,
    pub mean_wait_time: TimeSeries<Ratio>,
    pub utilization: TimeSeries<Ratio>,
    pub customers_served: TimeSeries<u64>,
    pub customers_in_system: TimeSeries<usize>,
    pub throughput: TimeSeries<Ratio>,
}

impl SimulationTimeSeries {
    pub fn new(sample_interval: u64, max_samples: usize) -> (series: Self)
        ensures
            series.queue_length@ == TimeSeriesView::<usize>::initial(sample_interval),
            series.mean_wait_time@ == TimeSeriesView::<Ratio>::initial(sample_interval),
            series.utilization@ == TimeSeriesView::<Ratio>::initial(sample_interval),
            series.customers_served@ == TimeSeriesView::<u64>::initial(sample_interval),
            series.customers_in_system@ == TimeSeriesView::<usize>::initial(sample_interval),
            series.throughput@ == TimeSeriesView::<Ratio>::initial(sample_interval),
            series.are_spaced(),
    {
        Self {
            queue_length: TimeSeries::new(sample_interval, max_samples),
            mean_wait_time: TimeSeries::new(sample_interval, max_samples),
            utilization: TimeSeries::new(sample_interval, max_samples),
            customers_served: TimeSeries::new(sample_interval, max_samples),
            customers_in_system: TimeSeries::new(sample_interval, max_samples),
            throughput: TimeSeries::new(sample_interval, max_samples),
        }
    }

    /// Whether a sample is due. The six series are sampled together, so the first one
    /// speaks for all.
    #[inline]
    pub fn should_sample(&self, current_time: u64) -> (due: bool)
        ensures
            due == self.queue_length@.is_due(current_time),
    {
        self.queue_length.should_sample(current_time)
    }

    /// Whether each of the six series keeps its samples at their distance.
    pub open spec fn are_spaced(&self) -> bool {
        &&& self.queue_length@.is_spaced()
        &&& self.mean_wait_time@.is_spaced()
        &&& self.utilization@.is_spaced()
        &&& self.customers_served@.is_spaced()
        &&& self.customers_in_system@.is_spaced()
        &&& self.throughput@.is_spaced()
    }

    /// Whether each of the six series may be offered a sample at `current_time`.
    pub open spec fn may_record(&self, current_time: u64) -> bool {
        &&& self.queue_length@.may_sample(current_time)
        &&& self.mean_wait_time@.may_sample(current_time)
        &&& self.utilization@.may_sample(current_time)
        &&& self.customers_served@.may_sample(current_time)
        &&& self.customers_in_system@.may_sample(current_time)
        &&& self.throughput@.may_sample(current_time)
    }

    /// Whether `record` may be called at `current_time`: tests its precondition.
    pub fn can_record(&self, current_time: u64) -> (ok: bool)
        ensures
            ok == self.may_record(current_time),
    {
        self.queue_length.can_sample(current_time) && self.mean_wait_time.can_sample(current_time)
            && self.utilization.can_sample(current_time) && self.customers_served.can_sample(
            current_time,
        ) && self.customers_in_system.can_sample(current_time) && self.throughput.can_sample(
            current_time,
        )
    }

    /// Offers each series its value of the present moment: the live queue length, the mean
    /// wait so far, the utilization and the throughput up to `current_time`, the customers
    /// served and the customers in the system.
    pub fn record(&mut self, current_time: u64, stats: &Statistics)
        requires
            old(self).may_record(current_time),
        ensures
            final(self).queue_length@ == old(self).queue_length@.sample(
                current_time,
                stats@.queue_length as usize,
            ),
            final(self).mean_wait_time@ == old(self).mean_wait_time@.sample(
                current_time,
                Ratio::of(stats@.total_wait_time, stats@.served_customers),
            ),
            final(self).utilization@ == old(self).utilization@.sample(
                current_time,
                Ratio::of(stats@.total_busy_time, current_time as nat),
            ),
            final(self).customers_served@ == old(self).customers_served@.sample(
                current_time,
                stats@.served_customers as u64,
            ),
            final(self).customers_in_system@ == old(self).customers_in_system@.sample(
                current_time,
                stats@.customers_in_system() as usize,
            ),
            final(self).throughput@ == old(self).throughput@.sample(
                current_time,
                Ratio::of(stats@.served_customers, current_time as nat),
            ),
            old(self).are_spaced() ==> final(self).are_spaced(),
    {
        self.queue_length.sample(current_time, stats.current_queue_length());
        self.mean_wait_time.sample(current_time, stats.average_wait_time());
        self.utilization.sample(current_time, stats.instantaneous_utilization(current_time));
        self.customers_served.sample(current_time, stats.served_customers());
        self.customers_in_system.sample(current_time, stats.current_customers_in_system());
        self.throughput.sample(current_time, stats.throughput(current_time));
    }
}

} // verus!
