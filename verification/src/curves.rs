//! The step curves behind the accumulator's areas, and the law that ties the two together.
//!
//! A script of reports fixes two curves over simulated time: the queue length and the
//! number of customers in the system. Both are defined here tick by tick, straight from
//! the script, and the areas that the accumulator keeps are proved to be the sums of these
//! curves over all ticks up to the last report.

use crate::statistics::StatisticsView;
use vstd::prelude::*;

verus! {

/// One report to the accumulator.
pub enum Report {
    QueueChange { time: nat, queue_length: nat },
    ServiceStart { time: nat, wait_time: nat },
    ServiceEnd { time: nat, service_duration: nat },
}

impl Report {
    /// The instant of the report.
    pub open spec fn time(self) -> nat {
        match self {
            Report::QueueChange { time, .. } => time,
            Report::ServiceStart { time, .. } => time,
            Report::ServiceEnd { time, .. } => time,
        }
    }

    /// What an accumulator in state `before` holds after the report.
    pub open spec fn apply(self, before: StatisticsView) -> StatisticsView {
        match self {
            Report::QueueChange { time, queue_length } => before.record_queue_change(
                time,
                queue_length,
            ),
            Report::ServiceStart { time, wait_time } => before.record_service_start(
                time,
                wait_time,
            ),
            Report::ServiceEnd { time, service_duration } => before.record_service_end(
                time,
                service_duration,
            ),
        }
    }
}

/// What a new accumulator holds after `script` was reported to it in order.
pub open spec fn replay(script: Seq<Report>) -> StatisticsView
    decreases script.len(),
{
    if script.len() == 0 {
        StatisticsView::initial()
    } else {
        script.last().apply(replay(script.drop_last()))
    }
}

/// Whether no report of `script` is earlier than one before it.
pub open spec fn in_time_order(script: Seq<Report>) -> bool {
    forall|i: int, j: int| 0 <= i <= j < script.len() ==> script[i].time() <= script[j].time()
}

/// The queue length over the tick that starts at `tick`: what the last queue change up to
/// that instant reported, and 0 before the first.
pub open spec fn queue_length_at(script: Seq<Report>, tick: nat) -> nat
    decreases script.len(),
{
    if script.len() == 0 {
        0
    } else {
        match script.last() {
            Report::QueueChange { time, queue_length } if time <= tick => queue_length,
            _ => queue_length_at(script.drop_last(), tick),
        }
    }
}

/// Whether the server is busy over the tick that starts at `tick`: whether the last report
/// on a service up to that instant was its start.
pub open spec fn busy_at(script: Seq<Report>, tick: nat) -> bool
    decreases script.len(),
{
    if script.len() == 0 {
        false
    } else {
        match script.last() {
            Report::ServiceStart { time, .. } if time <= tick => true,
            Report::ServiceEnd { time, .. } if time <= tick => false,
            _ => busy_at(script.drop_last(), tick),
        }
    }
}

/// The number of customers in the system over the tick that starts at `tick`.
pub open spec fn customers_at(script: Seq<Report>, tick: nat) -> nat {
    queue_length_at(script, tick) + if busy_at(script, tick) {
        1nat
    } else {
        0nat
    }
}

/// The area under the queue-length curve from time 0 to `until`: the sum of the curve over
/// the ticks before `until`.
pub open spec fn area_under_queue_length(script: Seq<Report>, until: nat) -> nat
    decreases until,
{
    if until == 0 {
        0
    } else {
        area_under_queue_length(script, (until - 1) as nat) + queue_length_at(
            script,
            (until - 1) as nat,
        )
    }
}

/// The area under the curve of customers in the system from time 0 to `until`.
pub open spec fn area_under_customers(script: Seq<Report>, until: nat) -> nat
    decreases until,
{
    if until == 0 {
        0
    } else {
        area_under_customers(script, (until - 1) as nat) + customers_at(
            script,
            (until - 1) as nat,
        )
    }
}

/// The instant of the last report of `script`, 0 for the empty script.
pub open spec fn end_of(script: Seq<Report>) -> nat {
    if script.len() == 0 {
        0
    } else {
        script.last().time()
    }
}

proof fn lemma_order_of_prefix(script: Seq<Report>)
    requires
        in_time_order(script),
        script.len() > 0,
    ensures
        in_time_order(script.drop_last()),
        end_of(script.drop_last()) <= end_of(script),
{
    let prefix = script.drop_last();
    assert forall|i: int, j: int| 0 <= i <= j < prefix.len() implies prefix[i].time()
        <= prefix[j].time() by {
        assert(prefix[i] == script[i] && prefix[j] == script[j]);
    }
    if prefix.len() > 0 {
        assert(prefix.last() == script[prefix.len() - 1]);
    }
}

/// From the last report on, the curves stay at what the accumulator holds.
pub proof fn lemma_curves_end_at_recorded_values(script: Seq<Report>, tick: nat)
    requires
        in_time_order(script),
        end_of(script) <= tick,
    ensures
        replay(script).last_event_time == end_of(script),
        queue_length_at(script, tick) == replay(script).queue_length,
        busy_at(script, tick) == replay(script).server_busy,
        customers_at(script, tick) == replay(script).customers_in_system(),
    decreases script.len(),
{
    if script.len() > 0 {
        lemma_order_of_prefix(script);
        lemma_curves_end_at_recorded_values(script.drop_last(), tick);
    }
}

proof fn lemma_later_report_leaves_past_alone(script: Seq<Report>, until: nat)
    requires
        script.len() > 0,
        until <= script.last().time(),
    ensures
        area_under_queue_length(script, until) == area_under_queue_length(
            script.drop_last(),
            until,
        ),
        area_under_customers(script, until) == area_under_customers(script.drop_last(), until),
    decreases until,
{
    if until > 0 {
        lemma_later_report_leaves_past_alone(script, (until - 1) as nat);
    }
}

proof fn lemma_flat_stretch(script: Seq<Report>, from: nat, until: nat)
    requires
        in_time_order(script),
        end_of(script) <= from <= until,
    ensures
        area_under_queue_length(script, until) == area_under_queue_length(script, from) + replay(
            script,
        ).queue_length * (until - from),
        area_under_customers(script, until) == area_under_customers(script, from) + replay(
            script,
        ).customers_in_system() * (until - from),
    decreases until,
{
    let length = replay(script).queue_length as int;
    let customers = replay(script).customers_in_system() as int;
    if from < until {
        let before = (until - 1) as nat;
        lemma_flat_stretch(script, from, before);
        lemma_curves_end_at_recorded_values(script, before);
        assert(length * (until - from) == length * (before - from) + length)
            by (nonlinear_arith)
            requires
                until == before + 1,
        ;
        assert(customers * (until - from) == customers * (before - from) + customers)
            by (nonlinear_arith)
            requires
                until == before + 1,
        ;
    } else {
        assert(length * (until - from) == 0) by (nonlinear_arith)
            requires
                until == from,
        ;
        assert(customers * (until - from) == 0) by (nonlinear_arith)
            requires
                until == from,
        ;
    }
}

/// Whoever waits is in the system: after any script the area under the curve of customers
/// in the system is at least the area under the queue-length curve.
pub proof fn lemma_customers_area_covers_queue_area(script: Seq<Report>)
    ensures
        replay(script).area_under_queue_length <= replay(script).area_under_customers_in_system,
    decreases script.len(),
{
    if script.len() > 0 {
        let before = replay(script.drop_last());
        lemma_customers_area_covers_queue_area(script.drop_last());
        let elapsed = (script.last().time() - before.last_event_time) as nat;
        assert(before.queue_length * elapsed <= before.customers_in_system() * elapsed)
            by (nonlinear_arith)
            requires
                before.queue_length <= before.customers_in_system(),
        ;
    }
}

/// The areas are the integrals: after any script of reports in order of time, each area
/// that the accumulator holds is the sum of its curve over the ticks from 0 to the last
/// report, and the values it holds are where the curves stand from then on.
pub proof fn lemma_areas_are_integrals(script: Seq<Report>)
    requires
        in_time_order(script),
    ensures
        replay(script).last_event_time == end_of(script),
        replay(script).area_under_queue_length == area_under_queue_length(script, end_of(script)),
        replay(script).area_under_customers_in_system == area_under_customers(
            script,
            end_of(script),
        ),
        replay(script).customers_in_system() == customers_at(script, end_of(script)),
        replay(script).queue_length == queue_length_at(script, end_of(script)),
    decreases script.len(),
{
    lemma_curves_end_at_recorded_values(script, end_of(script));
    if script.len() > 0 {
        let prefix = script.drop_last();
        lemma_order_of_prefix(script);
        lemma_areas_are_integrals(prefix);
        lemma_later_report_leaves_past_alone(script, end_of(script));
        lemma_flat_stretch(prefix, end_of(prefix), end_of(script));
    }
}

} // verus!
