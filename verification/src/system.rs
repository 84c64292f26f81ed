//! The whole system as one mathematical value: the scheduler, the server and the
//! accumulator, with the steps that the entities take and the invariants of a run.

use crate::engine::EngineState;
use crate::event::{Event, EventType};
use crate::statistics::StatisticsView;
use vstd::prelude::*;

verus! {

/// What a server holds, as a mathematical value.
pub struct ServerView {
    /// The mean duration of a service, in ticks.
    pub mean_service_time: u64,
    /// The arrival instants of those who wait, the one who came first in front.
    pub queue: Seq<u64>,
    pub busy: bool,
    /// When the service under way began; when the last one began, while idle.
    pub service_start_time: u64,
}

impl ServerView {
    pub open spec fn initial(mean_service_time: u64) -> Self {
        ServerView { mean_service_time, queue: Seq::empty(), busy: false, service_start_time: 0 }
    }

    /// Whether handling an event of `kind` makes the server start a service: an arrival
    /// does at an idle server, a departure does when somebody waits.
    pub open spec fn starts_service_on(self, kind: EventType) -> bool {
        match kind {
            EventType::Arrival => !self.busy,
            EventType::Departure => self.queue.len() > 0,
        }
    }
}

/// The scheduler, the server and the accumulator of one run.
pub struct SystemView {
    pub engine: EngineState,
    pub server: ServerView,
    pub stats: StatisticsView,
}

impl SystemView {
    /// A system in which nothing has happened yet.
    pub open spec fn initial(mean_service_time: u64) -> Self {
        SystemView {
            engine: EngineState::initial(),
            server: ServerView::initial(mean_service_time),
            stats: StatisticsView::initial(),
        }
    }

    /// Whether the server can take the customer in front into service at the present
    /// instant with every number staying in range: that customer did not arrive in the
    /// future, the accumulator is not ahead of the clock, and neither the departure's
    /// instant nor the sum of waits overflows.
    pub open spec fn may_start_service(self, service_time: u64) -> bool {
        self.server.queue.len() > 0 ==> {
            &&& self.server.queue[0] <= self.engine.now
            &&& self.stats.last_event_time <= self.engine.now
            &&& self.engine.now + service_time <= u64::MAX
            &&& self.stats.total_wait_time + (self.engine.now - self.server.queue[0])
                <= u128::MAX
        }
    }

    /// The server takes the customer in front into service: the customer leaves the queue,
    /// the wait is recorded, and the departure is scheduled `service_time` from now. With
    /// nobody waiting nothing changes.
    pub open spec fn start_service(self, service_time: u64) -> Self {
        if self.server.queue.len() == 0 {
            self
        } else {
            let now = self.engine.now;
            let arrival = self.server.queue[0];
            let waiting = self.server.queue.drop_first();
            SystemView {
                engine: self.engine.schedule(
                    Event { time: (now + service_time) as u64, event_type: EventType::Departure },
                ),
                server: ServerView {
                    queue: waiting,
                    busy: true,
                    service_start_time: now,
                    ..self.server
                },
                stats: self.stats.record_queue_change(
                    now as nat,
                    waiting.len(),
                ).record_service_start(now as nat, (now - arrival) as nat),
            }
        }
    }

    /// The system after a customer who arrives now has joined the queue, before the server
    /// looks at it.
    pub open spec fn enqueue(self) -> Self {
        let now = self.engine.now;
        let queue = self.server.queue.push(now);
        SystemView {
            server: ServerView { queue, ..self.server },
            stats: self.stats.record_queue_change(now as nat, queue.len()),
            ..self
        }
    }

    /// Whether a customer can be received now with every number staying in range.
    pub open spec fn may_receive_customer(self, service_time: u64) -> bool {
        &&& self.server.queue.len() + 1 < usize::MAX
        &&& self.stats.last_event_time <= self.engine.now
        &&& !self.server.busy ==> self.enqueue().may_start_service(service_time)
    }

    /// A customer arrives now and joins the queue, and an idle server takes the customer
    /// in front into service at once.
    pub open spec fn receive_customer(self, service_time: u64) -> Self {
        if self.server.busy {
            self.enqueue()
        } else {
            self.enqueue().start_service(service_time)
        }
    }

    /// The system after the service under way has ended now, before the server looks at
    /// the queue.
    pub open spec fn release(self) -> Self {
        let now = self.engine.now;
        SystemView {
            server: ServerView { busy: false, ..self.server },
            stats: self.stats.record_service_end(
                now as nat,
                (now - self.server.service_start_time) as nat,
            ),
            ..self
        }
    }

    /// Whether a departure can be handled now with every number staying in range.
    pub open spec fn may_handle_departure(self, service_time: u64) -> bool {
        &&& self.server.service_start_time <= self.engine.now
        &&& self.stats.last_event_time <= self.engine.now
        &&& self.stats.served_customers < u64::MAX
        &&& self.release().may_start_service(service_time)
    }

    /// The customer in service leaves now, and the server goes on with the next one in the
    /// same instant if anyone waits.
    pub open spec fn handle_departure(self, service_time: u64) -> Self {
        self.release().start_service(service_time)
    }

    /// Whether an arrival can be handled now with every number staying in range.
    pub open spec fn may_handle_generate(self, service_time: u64, inter_arrival_time: u64) -> bool {
        &&& self.may_receive_customer(service_time)
        &&& self.engine.now + inter_arrival_time <= u64::MAX
    }

    /// A customer arrives now, and the next arrival is scheduled `inter_arrival_time`
    /// from now.
    pub open spec fn handle_generate(self, service_time: u64, inter_arrival_time: u64) -> Self {
        let received = self.receive_customer(service_time);
        SystemView {
            engine: received.engine.schedule(
                Event {
                    time: (self.engine.now + inter_arrival_time) as u64,
                    event_type: EventType::Arrival,
                },
            ),
            ..received
        }
    }

    /// The system after the scheduler has dispatched its next event, before the entity
    /// that the event concerns has handled it.
    pub open spec fn dispatch(self) -> Self {
        SystemView { engine: self.engine.advance(), ..self }
    }

    /// Whether the entity that `event` concerns can handle it now with every number staying
    /// in range.
    pub open spec fn may_handle(
        self,
        event: Event,
        service_time: u64,
        inter_arrival_time: u64,
    ) -> bool {
        match event.event_type {
            EventType::Arrival => self.may_handle_generate(service_time, inter_arrival_time),
            EventType::Departure => self.may_handle_departure(service_time),
        }
    }

    /// The system after the entity that `event` concerns has handled it: the client an
    /// arrival, the server a departure.
    pub open spec fn handle(
        self,
        event: Event,
        service_time: u64,
        inter_arrival_time: u64,
    ) -> Self {
        match event.event_type {
            EventType::Arrival => self.handle_generate(service_time, inter_arrival_time),
            EventType::Departure => self.handle_departure(service_time),
        }
    }

    /// Whether the next turn can be taken with every number staying in range.
    pub open spec fn may_take_turn(self, service_time: u64, inter_arrival_time: u64) -> bool {
        match self.engine.next_event() {
            Some(event) => self.dispatch().may_handle(event, service_time, inter_arrival_time),
            None => true,
        }
    }

    /// One turn of the driver: the next event is dispatched and the entity it concerns
    /// handles it. With nothing pending nothing changes.
    pub open spec fn take_turn(self, service_time: u64, inter_arrival_time: u64) -> Self {
        match self.engine.next_event() {
            Some(event) => self.dispatch().handle(event, service_time, inter_arrival_time),
            None => self,
        }
    }

    /// The system after the first `n` turns, the `k`-th of them taken with the service time
    /// and the inter-arrival time of `draws[k]`.
    pub open spec fn after_turns(self, draws: Seq<(u64, u64)>, n: nat) -> Self
        decreases n,
    {
        if n == 0 {
            self
        } else {
            self.after_turns(draws, (n - 1) as nat).take_turn(draws[n - 1].0, draws[n - 1].1)
        }
    }

    /// Whether the three parts describe one and the same run.
    ///
    /// The accumulator's queue length and busy flag are the server's; those who wait stand
    /// in the order in which they arrived, none of them from the future; neither the server
    /// nor the accumulator is ahead of the clock; nothing is scheduled in the past; every
    /// customer who entered service has contributed one wait to the total; and the services
    /// that ended took no more time than had passed when the last of them ended.
    pub open spec fn in_step(self) -> bool {
        &&& self.stats.queue_length == self.server.queue.len()
        &&& self.stats.server_busy == self.server.busy
        &&& forall|i: int, j: int|
            0 <= i <= j < self.server.queue.len() ==> self.server.queue[i] <= self.server.queue[j]
        &&& forall|i: int|
            0 <= i < self.server.queue.len() ==> self.server.queue[i] <= self.engine.now
        &&& self.server.service_start_time <= self.engine.now
        &&& self.stats.last_event_time <= self.engine.now
        &&& self.engine.is_causal()
        &&& self.stats.served_customers <= u64::MAX
        &&& self.stats.total_wait_time <= (self.stats.served_customers + if self.server.busy {
            1nat
        } else {
            0nat
        }) * u64::MAX
        &&& self.stats.total_busy_time <= if self.server.busy {
            self.server.service_start_time as nat
        } else {
            self.stats.last_event_time
        }
    }

    /// Whether the system is at rest between two turns: in step, nobody waits at an idle
    /// server, and the server is busy exactly when a departure is scheduled.
    pub open spec fn is_settled(self) -> bool {
        &&& self.in_step()
        &&& !self.server.busy ==> self.server.queue.len() == 0
        &&& self.server.busy <==> self.engine.departure is Some
    }

    /// The limits of the machine for one turn: the count of served customers and the queue
    /// length can still grow by one, and the instants that the turn schedules fit the clock.
    pub open spec fn within_limits(self, service_time: u64, inter_arrival_time: u64) -> bool {
        &&& self.stats.served_customers < u64::MAX
        &&& self.server.queue.len() + 1 < usize::MAX
        &&& self.engine.has_pending() ==> {
            &&& self.engine.next_time() + service_time <= u64::MAX
            &&& self.engine.next_time() + inter_arrival_time <= u64::MAX
        }
    }

    /// Whether each of the turns taken with `draws` can be taken with every number staying
    /// in range.
    pub open spec fn may_take_turns(self, draws: Seq<(u64, u64)>) -> bool {
        forall|k: nat|
            k < draws.len() ==> (#[trigger] self.after_turns(draws, k)).may_take_turn(
                draws[k as int].0,
                draws[k as int].1,
            )
    }
}

proof fn lemma_one_more_wait_fits(total: nat, count: nat, wait: nat)
    requires
        total <= count * u64::MAX,
        count <= u64::MAX + 1,
        wait <= u64::MAX,
    ensures
        total + wait <= (count + 1) * u64::MAX,
        (count + 1) * u64::MAX <= u128::MAX,
{
    let top = u64::MAX as int;
    assert((count + 1) * top == count * top + top) by (nonlinear_arith);
    assert((count + 1) * top <= (top + 2) * top) by (nonlinear_arith)
        requires
            0 <= count + 1 <= top + 2,
            top >= 0,
    ;
    assert((top + 2) * top <= u128::MAX) by (nonlinear_arith)
        requires
            top == 0xffff_ffff_ffff_ffff,
    ;
}

proof fn lemma_rest_of_queue_in_order(queue: Seq<u64>, now: u64)
    requires
        queue.len() > 0,
        forall|i: int, j: int| 0 <= i <= j < queue.len() ==> queue[i] <= queue[j],
        forall|i: int| 0 <= i < queue.len() ==> queue[i] <= now,
    ensures
        forall|i: int, j: int|
            0 <= i <= j < queue.drop_first().len() ==> queue.drop_first()[i]
                <= queue.drop_first()[j],
        forall|i: int| 0 <= i < queue.drop_first().len() ==> queue.drop_first()[i] <= now,
{
    let rest = queue.drop_first();
    assert forall|i: int, j: int| 0 <= i <= j < rest.len() implies rest[i] <= rest[j] by {
        assert(rest[i] == queue[i + 1]);
        assert(rest[j] == queue[j + 1]);
    }
    assert forall|i: int| 0 <= i < rest.len() implies rest[i] <= now by {
        assert(rest[i] == queue[i + 1]);
    }
}

proof fn lemma_longer_queue_in_order(queue: Seq<u64>, now: u64)
    requires
        forall|i: int, j: int| 0 <= i <= j < queue.len() ==> queue[i] <= queue[j],
        forall|i: int| 0 <= i < queue.len() ==> queue[i] <= now,
    ensures
        forall|i: int, j: int|
            0 <= i <= j < queue.push(now).len() ==> queue.push(now)[i] <= queue.push(now)[j],
        forall|i: int| 0 <= i < queue.push(now).len() ==> queue.push(now)[i] <= now,
{
    let longer = queue.push(now);
    assert forall|i: int| 0 <= i < longer.len() implies longer[i] <= now by {
        if i < queue.len() {
            assert(longer[i] == queue[i]);
        }
    }
    assert forall|i: int, j: int| 0 <= i <= j < longer.len() implies longer[i] <= longer[j] by {
        if j < queue.len() {
            assert(longer[i] == queue[i]);
            assert(longer[j] == queue[j]);
        }
    }
}

/// A new system is settled.
pub proof fn lemma_initial_is_settled(mean_service_time: u64)
    ensures
        SystemView::initial(mean_service_time).is_settled(),
{
    assert(0 * u64::MAX == 0) by (nonlinear_arith);
}

/// Scheduling an arrival that is not in the past, as a driver does to prime the run, keeps
/// the system settled.
pub proof fn lemma_priming_keeps_settled(system: SystemView, time: u64)
    requires
        system.is_settled(),
        system.engine.now <= time,
    ensures
        (SystemView {
            engine: system.engine.schedule(Event { time, event_type: EventType::Arrival }),
            ..system
        }).is_settled(),
{
}

/// Starting a service with nobody waiting changes nothing and schedules nothing, and can
/// be asked for in any state.
pub proof fn lemma_start_service_needs_a_customer(system: SystemView, service_time: u64)
    requires
        system.server.queue.len() == 0,
    ensures
        system.may_start_service(service_time),
        system.start_service(service_time) == system,
{
}

/// Occupancy is conserved: in a system in step, the accumulator counts as customers in the
/// system exactly those who wait at the server and the one it serves.
pub proof fn lemma_occupancy_is_conserved(system: SystemView)
    requires
        system.in_step(),
    ensures
        system.stats.customers_in_system() == system.server.queue.len() + if system.server.busy {
            1nat
        } else {
            0nat
        },
{
}

/// The server is never busy for longer than time has passed: in a system in step the total
/// of the services that ended is at most the time on the clock.
pub proof fn lemma_busy_time_is_bounded(system: SystemView)
    requires
        system.in_step(),
    ensures
        system.stats.total_busy_time <= system.engine.now,
{
}

/// In a system in step a service can start whenever the departure's instant fits the clock.
pub proof fn lemma_may_start_service(system: SystemView, service_time: u64)
    requires
        system.in_step(),
        system.engine.now + service_time <= u64::MAX,
    ensures
        system.may_start_service(service_time),
{
    if system.server.queue.len() > 0 {
        lemma_one_more_wait_fits(
            system.stats.total_wait_time,
            system.stats.served_customers + if system.server.busy {
                1nat
            } else {
                0nat
            },
            (system.engine.now - system.server.queue[0]) as nat,
        );
    }
}

/// When an idle server takes the customer in front into service, the system stays in step,
/// with the server busy and its departure scheduled.
pub proof fn lemma_start_service_keeps_in_step(system: SystemView, service_time: u64)
    requires
        system.in_step(),
        !system.server.busy,
        system.may_start_service(service_time),
    ensures
        system.start_service(service_time).in_step(),
        system.server.queue.len() > 0 ==> system.start_service(service_time).server.busy
            && system.start_service(service_time).engine.departure is Some,
        system.start_service(service_time).engine.arrival == system.engine.arrival,
        system.start_service(service_time).engine.now == system.engine.now,
        system.start_service(service_time).stats.served_customers
            == system.stats.served_customers,
{
    if system.server.queue.len() > 0 {
        lemma_one_more_wait_fits(
            system.stats.total_wait_time,
            system.stats.served_customers,
            (system.engine.now - system.server.queue[0]) as nat,
        );
        lemma_rest_of_queue_in_order(system.server.queue, system.engine.now);
    }
}

/// A system in step can receive a customer whenever the queue can grow and the departure's
/// instant fits the clock.
pub proof fn lemma_may_receive_customer(system: SystemView, service_time: u64)
    requires
        system.in_step(),
        system.server.queue.len() + 1 < usize::MAX,
        system.engine.now + service_time <= u64::MAX,
    ensures
        system.may_receive_customer(service_time),
{
    lemma_longer_queue_in_order(system.server.queue, system.engine.now);
    lemma_may_start_service(system.enqueue(), service_time);
}

/// Receiving a customer keeps the system in step, and leaves the server busy; a settled
/// system stays settled.
pub proof fn lemma_receive_customer_keeps_in_step(system: SystemView, service_time: u64)
    requires
        system.in_step(),
        system.may_receive_customer(service_time),
    ensures
        system.receive_customer(service_time).in_step(),
        system.receive_customer(service_time).server.busy,
        system.is_settled() ==> system.receive_customer(service_time).is_settled(),
        system.receive_customer(service_time).engine.arrival == system.engine.arrival,
        system.receive_customer(service_time).engine.now == system.engine.now,
        system.receive_customer(service_time).stats.served_customers
            == system.stats.served_customers,
        system.receive_customer(service_time).stats.customers_in_system()
            == system.stats.customers_in_system() + 1,
        system.server.busy ==> system.receive_customer(service_time).engine == system.engine,
{
    lemma_longer_queue_in_order(system.server.queue, system.engine.now);
    if !system.server.busy {
        lemma_start_service_keeps_in_step(system.enqueue(), service_time);
    }
}

/// A system in step whose server is busy can handle a departure whenever the count of
/// served customers can grow and the next departure's instant fits the clock.
pub proof fn lemma_may_handle_departure(system: SystemView, service_time: u64)
    requires
        system.in_step(),
        system.server.busy,
        system.stats.served_customers < u64::MAX,
        system.engine.now + service_time <= u64::MAX,
    ensures
        system.may_handle_departure(service_time),
{
    let top = u64::MAX as int;
    let served = system.stats.served_customers as int;
    assert((served + 1) * top == served * top + top) by (nonlinear_arith);
    lemma_may_start_service(system.release(), service_time);
}

/// Handling the departure of a busy server, once the scheduler has dispatched it, settles
/// a system in step, with one more customer served.
pub proof fn lemma_handle_departure_settles(system: SystemView, service_time: u64)
    requires
        system.in_step(),
        system.server.busy,
        system.engine.departure is None,
        system.may_handle_departure(service_time),
    ensures
        system.handle_departure(service_time).is_settled(),
        system.handle_departure(service_time).stats.served_customers
            == system.stats.served_customers + 1,
        system.handle_departure(service_time).engine.arrival == system.engine.arrival,
        system.handle_departure(service_time).engine.now == system.engine.now,
        system.handle_departure(service_time).server.busy <==> system.server.queue.len() > 0,
        system.handle_departure(service_time).stats.customers_in_system() + 1
            == system.stats.customers_in_system(),
{
    let top = u64::MAX as int;
    let served = system.stats.served_customers as int;
    assert((served + 1) * top == served * top + top) by (nonlinear_arith);
    lemma_start_service_keeps_in_step(system.release(), service_time);
}

/// Handling an arrival keeps a settled system settled, with the next arrival scheduled.
pub proof fn lemma_handle_generate_keeps_settled(
    system: SystemView,
    service_time: u64,
    inter_arrival_time: u64,
)
    requires
        system.is_settled(),
        system.may_handle_generate(service_time, inter_arrival_time),
    ensures
        system.handle_generate(service_time, inter_arrival_time).is_settled(),
        system.handle_generate(service_time, inter_arrival_time).engine.arrival == Some(
            (system.engine.now + inter_arrival_time) as u64,
        ),
        system.handle_generate(service_time, inter_arrival_time).engine.now == system.engine.now,
        system.handle_generate(service_time, inter_arrival_time).stats.served_customers
            == system.stats.served_customers,
        system.handle_generate(service_time, inter_arrival_time).stats.customers_in_system()
            == system.stats.customers_in_system() + 1,
        system.handle_generate(service_time, inter_arrival_time).engine.departure == if (
        system.server.busy) {
            system.engine.departure
        } else {
            Some((system.engine.now + service_time) as u64)
        },
{
    lemma_receive_customer_keeps_in_step(system, service_time);
}

/// A duration that the handling of an event does not use has no effect: the service time
/// counts only where a service starts, the inter-arrival time only for an arrival.
pub proof fn lemma_unused_durations_are_ignored(
    system: SystemView,
    event: Event,
    service_time: u64,
    inter_arrival_time: u64,
    other_service_time: u64,
    other_inter_arrival_time: u64,
)
    requires
        system.server.starts_service_on(event.event_type) ==> service_time == other_service_time,
        event.event_type == EventType::Arrival ==> inter_arrival_time
            == other_inter_arrival_time,
    ensures
        system.handle(event, service_time, inter_arrival_time) == system.handle(
            event,
            other_service_time,
            other_inter_arrival_time,
        ),
        system.may_handle(event, service_time, inter_arrival_time) == system.may_handle(
            event,
            other_service_time,
            other_inter_arrival_time,
        ),
{
}

/// Within the machine's limits a settled system can take its next turn.
pub proof fn lemma_may_take_turn(system: SystemView, service_time: u64, inter_arrival_time: u64)
    requires
        system.is_settled(),
        system.within_limits(service_time, inter_arrival_time),
    ensures
        system.may_take_turn(service_time, inter_arrival_time),
{
    match system.engine.next_event() {
        Some(event) => {
            let dispatched = system.dispatch();
            assert(dispatched.in_step());
            match event.event_type {
                EventType::Arrival => {
                    lemma_may_receive_customer(dispatched, service_time);
                },
                EventType::Departure => {
                    lemma_may_handle_departure(dispatched, service_time);
                },
            }
        },
        None => {},
    }
}

/// One turn keeps a settled system settled. The clock does not run backwards; a run that
/// has an arrival pending has one pending afterwards; and the count of served customers
/// grows by one exactly when the turn dispatches a departure.
pub proof fn lemma_turn_keeps_settled(
    system: SystemView,
    service_time: u64,
    inter_arrival_time: u64,
)
    requires
        system.is_settled(),
        system.may_take_turn(service_time, inter_arrival_time),
    ensures
        system.take_turn(service_time, inter_arrival_time).is_settled(),
        system.engine.now <= system.take_turn(service_time, inter_arrival_time).engine.now,
        system.engine.arrival is Some ==> system.take_turn(
            service_time,
            inter_arrival_time,
        ).engine.arrival is Some,
        system.take_turn(service_time, inter_arrival_time).stats.served_customers
            == system.stats.served_customers + if system.engine.next_event() matches Some(event)
            && event.event_type == EventType::Departure {
            1nat
        } else {
            0nat
        },
{
    match system.engine.next_event() {
        Some(event) => {
            let dispatched = system.dispatch();
            assert(dispatched.in_step());
            match event.event_type {
                EventType::Arrival => {
                    assert(dispatched.is_settled());
                    lemma_handle_generate_keeps_settled(
                        dispatched,
                        service_time,
                        inter_arrival_time,
                    );
                },
                EventType::Departure => {
                    lemma_handle_departure_settles(dispatched, service_time);
                },
            }
        },
        None => {},
    }
}

/// The invariants hold through a whole run: after any number of turns from a settled
/// system the system is settled, the clock has not run backwards, no customer served has
/// been forgotten, and a run that was primed with an arrival still has one pending.
pub proof fn lemma_run_keeps_settled(system: SystemView, draws: Seq<(u64, u64)>, n: nat)
    requires
        system.is_settled(),
        system.may_take_turns(draws),
        n <= draws.len(),
    ensures
        system.after_turns(draws, n).is_settled(),
        system.engine.now <= system.after_turns(draws, n).engine.now,
        system.engine.arrival is Some ==> system.after_turns(draws, n).engine.arrival is Some,
        system.stats.served_customers <= system.after_turns(draws, n).stats.served_customers,
    decreases n,
{
    if n > 0 {
        let before = (n - 1) as nat;
        lemma_run_keeps_settled(system, draws, before);
        assert(system.after_turns(draws, before).may_take_turn(
            draws[before as int].0,
            draws[before as int].1,
        ));
        lemma_turn_keeps_settled(
            system.after_turns(draws, before),
            draws[before as int].0,
            draws[before as int].1,
        );
    }
}

/// Time is monotone over a run: of two moments of a run as above, the later one shows no
/// earlier time, and no fewer customers served.
pub proof fn lemma_run_is_monotone(system: SystemView, draws: Seq<(u64, u64)>, i: nat, j: nat)
    requires
        system.is_settled(),
        system.may_take_turns(draws),
        i <= j <= draws.len(),
    ensures
        system.after_turns(draws, i).engine.now <= system.after_turns(draws, j).engine.now,
        system.after_turns(draws, i).stats.served_customers <= system.after_turns(
            draws,
            j,
        ).stats.served_customers,
    decreases j,
{
    if i < j {
        let before = (j - 1) as nat;
        lemma_run_is_monotone(system, draws, i, before);
        lemma_run_keeps_settled(system, draws, before);
        assert(system.after_turns(draws, before).may_take_turn(
            draws[before as int].0,
            draws[before as int].1,
        ));
        lemma_turn_keeps_settled(
            system.after_turns(draws, before),
            draws[before as int].0,
            draws[before as int].1,
        );
    }
}

} // verus!
