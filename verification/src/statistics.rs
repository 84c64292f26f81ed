//! The statistics accumulator: time-weighted areas under the queue-length and occupancy
//! curves, and per-customer totals.

use vstd::prelude::*;

verus! {

/// A quotient of two counts, kept exact. The denominator is never 0 in a value that this
/// library hands out; "nothing to average yet" is 0 over 1.
#[derive(Debug, Clone, Copy, PartialEq, Eq, Structural)]
pub struct Ratio {
    pub numerator: u128,
    pub denominator: u64,
}

impl Ratio {
    /// `numerator / denominator`, and 0 where the denominator is 0.
    pub open spec fn of(numerator: nat, denominator: nat) -> Ratio {
        if denominator == 0 {
            Ratio { numerator: 0, denominator: 1 }
        } else {
            Ratio { numerator: numerator as u128, denominator: denominator as u64 }
        }
    }
}

/// What the accumulator has recorded, as a mathematical value.
pub struct StatisticsView {
    /// The instant of the last report.
    pub last_event_time: nat,
    /// The queue length since that instant.
    pub queue_length: nat,
    /// Whether the server has been busy since that instant.
    pub server_busy: bool,
    /// The area under the queue-length curve up to that instant.
    pub area_under_queue_length: nat,
    /// The area under the curve of customers in the system up to that instant.
    pub area_under_customers_in_system: nat,
    pub total_wait_time: nat,
    pub total_busy_time: nat,
    pub served_customers: nat,
}

impl StatisticsView {
    pub open spec fn initial() -> Self {
        StatisticsView {
            last_event_time: 0,
            queue_length: 0,
            server_busy: false,
            area_under_queue_length: 0,
            area_under_customers_in_system: 0,
            total_wait_time: 0,
            total_busy_time: 0,
            served_customers: 0,
        }
    }

    /// Those waiting and the one in service, if any.
    pub open spec fn customers_in_system(self) -> nat {
        if self.server_busy {
            self.queue_length + 1
        } else {
            self.queue_length
        }
    }

    /// The state after the flat stretch from the last report up to `now` was added to both
    /// areas. The values that held over the stretch are those of before.
    pub open spec fn integrate(self, now: nat) -> Self
        recommends
            self.last_event_time <= now,
    {
        let elapsed = (now - self.last_event_time) as nat;
        StatisticsView {
            last_event_time: now,
            area_under_queue_length: self.area_under_queue_length + self.queue_length * elapsed,
            area_under_customers_in_system: self.area_under_customers_in_system
                + self.customers_in_system() * elapsed,
            ..self
        }
    }

    pub open spec fn record_queue_change(self, now: nat, queue_length: nat) -> Self
        recommends
            self.last_event_time <= now,
    {
        StatisticsView { queue_length, ..self.integrate(now) }
    }

    pub open spec fn record_service_start(self, now: nat, wait_time: nat) -> Self
        recommends
            self.last_event_time <= now,
    {
        StatisticsView {
            total_wait_time: self.total_wait_time + wait_time,
            server_busy: true,
            ..self.integrate(now)
        }
    }

    pub open spec fn record_service_end(self, now: nat, service_duration: nat) -> Self
        recommends
            self.last_event_time <= now,
    {
        StatisticsView {
            served_customers: self.served_customers + 1,
            total_busy_time: self.total_busy_time + service_duration,
            server_busy: false,
            ..self.integrate(now)
        }
    }
}

/// Running sums of one simulation run.
///
/// Between two reports both curves are flat, so each report first adds the stretch since
/// the last one to the areas, at the values that held over it, and only then takes the new
/// value.
pub struct Statistics {
    /// Sum of all customer wait times.
    total_wait_time: u128,
    /// Number of customers who have been served.
    served_customers: u64,
    /// Total time the server has been busy.
    total_busy_time: u128,
    /// Instant of the last report.
    last_event_time: u64,
    /// Area under the queue-length curve.
    area_under_q: u128,
    /// Queue length since the last report.
    last_queue_length: usize,
    /// Whether the server is busy.
    server_busy: bool,
    /// Area under the customers-in-system curve.
    area_under_customers: u128,
    /// Customers in the system since the last report.
    last_customers_in_system: usize,
}

impl View for Statistics {
    type V = StatisticsView;

    closed spec fn view(&self) -> StatisticsView {
        StatisticsView {
            last_event_time: self.last_event_time as nat,
            queue_length: self.last_queue_length as nat,
            server_busy: self.server_busy,
            area_under_queue_length: self.area_under_q as nat,
            area_under_customers_in_system: self.area_under_customers as nat,
            total_wait_time: self.total_wait_time as nat,
            total_busy_time: self.total_busy_time as nat,
            served_customers: self.served_customers as nat,
        }
    }
}

proof fn lemma_area_fits(area: nat, value: nat, last: nat, now: nat)
    requires
        area <= last * usize::MAX,
        value <= usize::MAX,
        last <= now <= u64::MAX,
    ensures
        area + value * (now - last) <= now * usize::MAX,
        now * usize::MAX <= u128::MAX,
{
    let top = usize::MAX as int;
    assert(value * (now - last) <= top * (now - last)) by (nonlinear_arith)
        requires
            value <= top,
            0 <= now - last,
    ;
    assert(last * top + top * (now - last) == now * top) by (nonlinear_arith);
    assert(now * top <= 0xffff_ffff_ffff_ffff * 0xffff_ffff_ffff_ffff) by (nonlinear_arith)
        requires
            0 <= now <= 0xffff_ffff_ffff_ffff,
            0 <= top <= 0xffff_ffff_ffff_ffff,
    ;
}

proof fn lemma_sum_of_durations_fits(total: nat, count: nat, duration: nat)
    requires
        total <= count * u64::MAX,
        count < u64::MAX,
        duration <= u64::MAX,
    ensures
        total + duration <= (count + 1) * u64::MAX,
        (count + 1) * u64::MAX <= u128::MAX,
{
    let top = u64::MAX as int;
    assert((count + 1) * top == count * top + top) by (nonlinear_arith);
    assert((count + 1) * top <= top * top) by (nonlinear_arith)
        requires
            0 <= count + 1 <= top,
    ;
}

impl Statistics {
    #[verifier::type_invariant]
    spec fn inv(self) -> bool {
        &&& self.last_queue_length < usize::MAX
        &&& self.last_customers_in_system == self@.customers_in_system()
        &&& self.area_under_q <= self.last_event_time * usize::MAX
        &&& self.area_under_customers <= self.last_event_time * usize::MAX
        &&& self.area_under_q <= self.area_under_customers
        &&& self.total_busy_time <= self.served_customers * u64::MAX
    }

    pub fn new() -> (stats: Self)
        ensures
            stats@ == StatisticsView::initial(),
    {
        Self {
            total_wait_time: 0,
            served_customers: 0,
            total_busy_time: 0,
            last_event_time: 0,
            area_under_q: 0,
            last_queue_length: 0,
            server_busy: false,
            area_under_customers: 0,
            last_customers_in_system: 0,
        }
    }

    /// Both areas with the flat stretch from the last report up to `time` added, at the
    /// values that held over it.
    #[inline]
    fn areas_up_to(&self, time: u64) -> (areas: (u128, u128))
        requires
            self@.last_event_time <= time,
        ensures
            areas.0 == self@.integrate(time as nat).area_under_queue_length,
            areas.1 == self@.integrate(time as nat).area_under_customers_in_system,
            areas.0 <= time * usize::MAX,
            areas.1 <= time * usize::MAX,
            areas.0 <= areas.1,
    {
        proof {
            use_type_invariant(self);
            assert(self.last_queue_length * (time - self.last_event_time)
                <= self.last_customers_in_system * (time - self.last_event_time))
                by (nonlinear_arith)
                requires
                    self.last_queue_length <= self.last_customers_in_system,
                    0 <= time - self.last_event_time,
            ;
            lemma_area_fits(
                self.area_under_q as nat,
                self.last_queue_length as nat,
                self.last_event_time as nat,
                time as nat,
            );
            lemma_area_fits(
                self.area_under_customers as nat,
                self.last_customers_in_system as nat,
                self.last_event_time as nat,
                time as nat,
            );
        }
        let time_delta: u64 = time - self.last_event_time;
        let area_under_q: u128 = self.area_under_q + self.last_queue_length as u128
            * time_delta as u128;
        let area_under_customers: u128 = self.area_under_customers
            + self.last_customers_in_system as u128 * time_delta as u128;
        (area_under_q, area_under_customers)
    }

    /// Records that the queue holds `queue_length` customers from `time` on.
    #[inline]
    pub fn record_queue_change(&mut self, time: u64, queue_length: usize)
        requires
            old(self)@.last_event_time <= time,
            queue_length < usize::MAX,
        ensures
            final(self)@ == old(self)@.record_queue_change(time as nat, queue_length as nat),
            final(self)@.last_event_time == time,
            final(self)@.queue_length == queue_length,
            final(self)@.server_busy == old(self)@.server_busy,
            final(self)@.customers_in_system() == queue_length + if old(self)@.server_busy {
                1nat
            } else {
                0nat
            },
            final(self)@.area_under_queue_length == old(self)@.area_under_queue_length
                + old(self)@.queue_length * (time - old(self)@.last_event_time),
            final(self)@.area_under_customers_in_system
                == old(self)@.area_under_customers_in_system
                + old(self)@.customers_in_system() * (time - old(self)@.last_event_time),
            final(self)@.total_wait_time == old(self)@.total_wait_time,
            final(self)@.total_busy_time == old(self)@.total_busy_time,
            final(self)@.served_customers == old(self)@.served_customers,
    {
        proof {
            use_type_invariant(&*self);
        }
        let (area_under_q, area_under_customers) = self.areas_up_to(time);
        let in_service: usize = if self.server_busy {
            1
        } else {
            0
        };
        *self = Statistics {
            last_event_time: time,
            area_under_q,
            area_under_customers,
            last_queue_length: queue_length,
            last_customers_in_system: queue_length + in_service,
            total_wait_time: self.total_wait_time,
            served_customers: self.served_customers,
            total_busy_time: self.total_busy_time,
            server_busy: self.server_busy,
        };
    }

    /// Records that a customer who waited `wait_time` entered service at `time`.
    #[inline]
    pub fn record_service_start(&mut self, time: u64, wait_time: u64)
        requires
            old(self)@.last_event_time <= time,
            old(self)@.total_wait_time + wait_time <= u128::MAX,
        ensures
            final(self)@ == old(self)@.record_service_start(time as nat, wait_time as nat),
            final(self)@.last_event_time == time,
            final(self)@.server_busy,
            final(self)@.queue_length == old(self)@.queue_length,
            final(self)@.customers_in_system() == old(self)@.queue_length + 1,
            final(self)@.total_wait_time == old(self)@.total_wait_time + wait_time,
            final(self)@.area_under_queue_length == old(self)@.area_under_queue_length
                + old(self)@.queue_length * (time - old(self)@.last_event_time),
            final(self)@.area_under_customers_in_system
                == old(self)@.area_under_customers_in_system
                + old(self)@.customers_in_system() * (time - old(self)@.last_event_time),
            final(self)@.total_busy_time == old(self)@.total_busy_time,
            final(self)@.served_customers == old(self)@.served_customers,
    {
        proof {
            use_type_invariant(&*self);
        }
        let (area_under_q, area_under_customers) = self.areas_up_to(time);
        *self = Statistics {
            last_event_time: time,
            area_under_q,
            area_under_customers,
            total_wait_time: self.total_wait_time + wait_time as u128,
            server_busy: true,
            last_customers_in_system: self.last_queue_length + 1,
            last_queue_length: self.last_queue_length,
            served_customers: self.served_customers,
            total_busy_time: self.total_busy_time,
        };
    }

    /// Records that a service that took `service_duration` ended at `time`.
    #[inline]
    pub fn record_service_end(&mut self, time: u64, service_duration: u64)
        requires
            old(self)@.last_event_time <= time,
            old(self)@.served_customers < u64::MAX,
        ensures
            final(self)@ == old(self)@.record_service_end(time as nat, service_duration as nat),
            final(self)@.last_event_time == time,
            !final(self)@.server_busy,
            final(self)@.queue_length == old(self)@.queue_length,
            final(self)@.customers_in_system() == old(self)@.queue_length,
            final(self)@.served_customers == old(self)@.served_customers + 1,
            final(self)@.total_busy_time == old(self)@.total_busy_time + service_duration,
            final(self)@.area_under_queue_length == old(self)@.area_under_queue_length
                + old(self)@.queue_length * (time - old(self)@.last_event_time),
            final(self)@.area_under_customers_in_system
                == old(self)@.area_under_customers_in_system
                + old(self)@.customers_in_system() * (time - old(self)@.last_event_time),
            final(self)@.total_wait_time == old(self)@.total_wait_time,
    {
        proof {
            use_type_invariant(&*self);
            lemma_sum_of_durations_fits(
                self.total_busy_time as nat,
                self.served_customers as nat,
                service_duration as nat,
            );
        }
        let (area_under_q, area_under_customers) = self.areas_up_to(time);
        *self = Statistics {
            last_event_time: time,
            area_under_q,
            area_under_customers,
            served_customers: self.served_customers + 1,
            total_busy_time: self.total_busy_time + service_duration as u128,
            server_busy: false,
            last_customers_in_system: self.last_queue_length,
            last_queue_length: self.last_queue_length,
            total_wait_time: self.total_wait_time,
        };
    }

    /// The mean wait of the customers served so far, 0 while none was served.
    pub fn average_wait_time(&self) -> (mean: Ratio)
        ensures
            mean == Ratio::of(self@.total_wait_time, self@.served_customers),
            self@.served_customers == 0 ==> mean == (Ratio { numerator: 0, denominator: 1 }),
            self@.served_customers != 0 ==> mean.numerator == self@.total_wait_time,
            self@.served_customers != 0 ==> mean.denominator == self@.served_customers,
    {
        if self.served_customers == 0 {
            Ratio { numerator: 0, denominator: 1 }
        } else {
            Ratio { numerator: self.total_wait_time, denominator: self.served_customers }
        }
    }

    /// The time-weighted mean queue length over `total_time`, 0 where `total_time` is 0.
    pub fn average_queue_length(&self, total_time: u64) -> (mean: Ratio)
        ensures
            mean == Ratio::of(self@.area_under_queue_length, total_time as nat),
            total_time == 0 ==> mean == (Ratio { numerator: 0, denominator: 1 }),
            total_time != 0 ==> mean.numerator == self@.area_under_queue_length,
            total_time != 0 ==> mean.denominator == total_time,
            self@.area_under_queue_length <= self@.area_under_customers_in_system,
            self@.area_under_customers_in_system <= u128::MAX,
    {
        proof {
            use_type_invariant(self);
        }
        if total_time == 0 {
            Ratio { numerator: 0, denominator: 1 }
        } else {
            Ratio { numerator: self.area_under_q, denominator: total_time }
        }
    }

    /// The share of `total_time` that the server was busy, 0 where `total_time` is 0.
    pub fn utilization(&self, total_time: u64) -> (share: Ratio)
        ensures
            share == Ratio::of(self@.total_busy_time, total_time as nat),
            total_time == 0 ==> share == (Ratio { numerator: 0, denominator: 1 }),
            total_time != 0 ==> share.numerator == self@.total_busy_time,
            total_time != 0 ==> share.denominator == total_time,
    {
        proof {
            use_type_invariant(self);
        }
        if total_time == 0 {
            Ratio { numerator: 0, denominator: 1 }
        } else {
            Ratio { numerator: self.total_busy_time, denominator: total_time }
        }
    }

    pub fn served_customers(&self) -> (served: u64)
        ensures
            served == self@.served_customers,
    {
        self.served_customers
    }

    pub fn current_queue_length(&self) -> (length: usize)
        ensures
            length == self@.queue_length,
    {
        self.last_queue_length
    }

    /// The share of the time up to `current_time` that the server was busy, 0 at time 0.
    pub fn instantaneous_utilization(&self, current_time: u64) -> (share: Ratio)
        ensures
            share == Ratio::of(self@.total_busy_time, current_time as nat),
            current_time == 0 ==> share == (Ratio { numerator: 0, denominator: 1 }),
            current_time != 0 ==> share.numerator == self@.total_busy_time,
            current_time != 0 ==> share.denominator == current_time,
    {
        proof {
            use_type_invariant(self);
        }
        if current_time == 0 {
            Ratio { numerator: 0, denominator: 1 }
        } else {
            Ratio { numerator: self.total_busy_time, denominator: current_time }
        }
    }

    /// Those waiting and the one in service: the queue length, and one more while the server
    /// is busy.
    pub fn current_customers_in_system(&self) -> (customers: usize)
        ensures
            customers == self@.customers_in_system(),
            customers == self@.queue_length + if self@.server_busy {
                1nat
            } else {
                0nat
            },
    {
        proof {
            use_type_invariant(self);
        }
        self.last_customers_in_system
    }

    /// The time-weighted mean number of customers in the system over `total_time`, 0 where
    /// `total_time` is 0.
    pub fn average_customers_in_system(&self, total_time: u64) -> (mean: Ratio)
        ensures
            mean == Ratio::of(self@.area_under_customers_in_system, total_time as nat),
            total_time == 0 ==> mean == (Ratio { numerator: 0, denominator: 1 }),
            total_time != 0 ==> mean.numerator == self@.area_under_customers_in_system,
            total_time != 0 ==> mean.denominator == total_time,
            self@.area_under_queue_length <= self@.area_under_customers_in_system,
            self@.area_under_customers_in_system <= u128::MAX,
    {
        proof {
            use_type_invariant(self);
        }
        if total_time == 0 {
            Ratio { numerator: 0, denominator: 1 }
        } else {
            Ratio { numerator: self.area_under_customers, denominator: total_time }
        }
    }

    /// Customers served per tick over `total_time`, 0 where `total_time` is 0.
    pub fn throughput(&self, total_time: u64) -> (rate: Ratio)
        ensures
            rate == Ratio::of(self@.served_customers, total_time as nat),
            total_time == 0 ==> rate == (Ratio { numerator: 0, denominator: 1 }),
            total_time != 0 ==> rate.numerator == self@.served_customers,
            total_time != 0 ==> rate.denominator == total_time,
    {
        proof {
            use_type_invariant(self);
        }
        if total_time == 0 {
            Ratio { numerator: 0, denominator: 1 }
        } else {
            Ratio { numerator: self.served_customers as u128, denominator: total_time }
        }
    }

    /// The instant of the last report, 0 before the first.
    pub fn last_event_time(&self) -> (time: u64)
        ensures
            time == self@.last_event_time,
    {
        self.last_event_time
    }

    /// The sum of the waits of all customers who entered service.
    pub fn total_wait_time(&self) -> (total: u128)
        ensures
            total == self@.total_wait_time,
    {
        self.total_wait_time
    }

    /// The sum of the durations of all services that ended.
    pub fn total_busy_time(&self) -> (total: u128)
        ensures
            total == self@.total_busy_time,
    {
        self.total_busy_time
    }

    /// Whether the last report on the server said that it is busy.
    pub fn is_server_busy(&self) -> (busy: bool)
        ensures
            busy == self@.server_busy,
    {
        self.server_busy
    }
}

} // verus!
