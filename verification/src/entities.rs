//! The two entities: the server with its queue, and the client that generates arrivals.
//!
//! Neither entity draws random numbers. Each handler takes the durations it may need, in
//! ticks, from its caller, who owns the source of randomness.

use crate::engine::SimulationEngine;
use crate::event::{Event, EventType};
use crate::statistics::Statistics;
use crate::system::{
    lemma_handle_departure_settles, lemma_handle_generate_keeps_settled,
    lemma_receive_customer_keeps_in_step, lemma_start_service_keeps_in_step, ServerView,
    SystemView,
};
use std::collections::VecDeque;
use vstd::prelude::*;

verus! {

/// The server and the queue in front of it.
pub struct Server {
    mean_service_time: u64,
    /// Arrival instants of the customers who wait.
    queue: VecDeque<u64>,
    busy: bool,
    service_start_time: u64,
}

impl View for Server {
    type V = ServerView;

    closed spec fn view(&self) -> ServerView {
        ServerView {
            mean_service_time: self.mean_service_time,
            queue: self.queue@,
            busy: self.busy,
            service_start_time: self.service_start_time,
        }
    }
}

/// The three parts of a run, seen as one system.
pub open spec fn system(engine: SimulationEngine, server: Server, stats: Statistics) -> SystemView {
    SystemView { engine: engine@, server: server@, stats: stats@ }
}

impl Server {
    /// An idle server with an empty queue, whose services take `mean_service_time` ticks
    /// on average.
    pub fn new(mean_service_time: u64) -> (server: Self)
        ensures
            server@ == ServerView::initial(mean_service_time),
    {
        Self { mean_service_time, queue: VecDeque::new(), busy: false, service_start_time: 0 }
    }

    pub fn mean_service_time(&self) -> (mean: u64)
        ensures
            mean == self@.mean_service_time,
    {
        self.mean_service_time
    }

    pub fn is_busy(&self) -> (busy: bool)
        ensures
            busy == self@.busy,
    {
        self.busy
    }

    /// The number of customers who wait.
    pub fn queue_length(&self) -> (length: usize)
        ensures
            length == self@.queue.len(),
    {
        self.queue.len()
    }

    /// Whether `start_service` may be called: tests its precondition.
    pub fn can_start_service(
        &self,
        engine: &SimulationEngine,
        stats: &Statistics,
        service_time: u64,
    ) -> (ok: bool)
        ensures
            ok == system(*engine, *self, *stats).may_start_service(service_time),
    {
        if self.queue.len() == 0 {
            return true;
        }
        let now = engine.now();
        let arrival_time = self.queue[0];
        arrival_time <= now && stats.last_event_time() <= now && service_time <= u64::MAX - now
            && stats.total_wait_time() <= u128::MAX - (now - arrival_time) as u128
    }

    /// Whether `receive_customer` may be called: tests its precondition.
    pub fn can_receive_customer(
        &self,
        engine: &SimulationEngine,
        stats: &Statistics,
        service_time: u64,
    ) -> (ok: bool)
        ensures
            ok == system(*engine, *self, *stats).may_receive_customer(service_time),
    {
        let now = engine.now();
        let ghost queued = system(*engine, *self, *stats).enqueue();
        if self.queue.len() >= usize::MAX - 1 || stats.last_event_time() > now {
            return false;
        }
        if self.busy {
            return true;
        }
        let in_front = if self.queue.len() == 0 {
            now
        } else {
            self.queue[0]
        };
        assert(queued.server.queue[0] == in_front);
        in_front <= now && service_time <= u64::MAX - now && stats.total_wait_time() <= u128::MAX
            - (now - in_front) as u128
    }

    /// Whether `handle_departure` may be called: tests its precondition.
    pub fn can_handle_departure(
        &self,
        engine: &SimulationEngine,
        stats: &Statistics,
        service_time: u64,
    ) -> (ok: bool)
        ensures
            ok == system(*engine, *self, *stats).may_handle_departure(service_time),
    {
        let now = engine.now();
        if self.service_start_time > now || stats.last_event_time() > now
            || stats.served_customers() == u64::MAX {
            return false;
        }
        if self.queue.len() == 0 {
            return true;
        }
        let in_front = self.queue[0];
        in_front <= now && service_time <= u64::MAX - now && stats.total_wait_time() <= u128::MAX
            - (now - in_front) as u128
    }

    /// Takes the customer in front into service; does nothing if nobody waits.
    /// `service_time` is the duration of the service that begins.
    #[inline]
    pub fn start_service(
        &mut self,
        engine: &mut SimulationEngine,
        stats: &mut Statistics,
        service_time: u64,
    )
        requires
            system(*old(engine), *old(self), *old(stats)).may_start_service(service_time),
        ensures
            system(*final(engine), *final(self), *final(stats)) == system(
                *old(engine),
                *old(self),
                *old(stats),
            ).start_service(service_time),
            old(self)@.queue.len() == 0 ==> final(self)@ == old(self)@,
            old(self)@.queue.len() == 0 ==> final(engine)@ == old(engine)@,
            old(self)@.queue.len() == 0 ==> final(stats)@ == old(stats)@,
            system(*old(engine), *old(self), *old(stats)).in_step() && !old(self)@.busy ==> system(
                *final(engine),
                *final(self),
                *final(stats),
            ).in_step(),
    {
        proof {
            if system(*engine, *self, *stats).in_step() && !self@.busy {
                lemma_start_service_keeps_in_step(system(*engine, *self, *stats), service_time);
            }
        }
        if self.queue.len() == 0 {
            return;
        }
        let now = engine.now();
        let arrival_time = match self.queue.pop_front() {
            Some(time) => time,
            None => now,
        };
        let wait_time = now - arrival_time;

        stats.record_queue_change(now, self.queue.len());
        stats.record_service_start(now, wait_time);

        self.busy = true;
        self.service_start_time = now;

        engine.schedule(Event::new(now + service_time, EventType::Departure));
    }

    /// A customer arrives at the present instant of `engine`. `service_time` is the
    /// duration of the service that begins if the server is idle.
    #[inline]
    pub fn receive_customer(
        &mut self,
        engine: &mut SimulationEngine,
        stats: &mut Statistics,
        service_time: u64,
    )
        requires
            system(*old(engine), *old(self), *old(stats)).may_receive_customer(service_time),
        ensures
            system(*final(engine), *final(self), *final(stats)) == system(
                *old(engine),
                *old(self),
                *old(stats),
            ).receive_customer(service_time),
            system(*old(engine), *old(self), *old(stats)).in_step() ==> system(
                *final(engine),
                *final(self),
                *final(stats),
            ).in_step(),
            system(*old(engine), *old(self), *old(stats)).is_settled() ==> system(
                *final(engine),
                *final(self),
                *final(stats),
            ).is_settled(),
            final(engine)@.now == old(engine)@.now,
            final(engine)@.arrival == old(engine)@.arrival,
            old(self)@.busy ==> final(engine)@ == old(engine)@,
            old(self)@.busy ==> final(self)@.queue == old(self)@.queue.push(old(engine)@.now),
            system(*old(engine), *old(self), *old(stats)).in_step() ==> final(self)@.busy,
            system(*old(engine), *old(self), *old(stats)).in_step()
                ==> final(stats)@.queue_length == final(self)@.queue.len(),
            system(*old(engine), *old(self), *old(stats)).in_step()
                ==> final(stats)@.customers_in_system()
                == old(stats)@.customers_in_system() + 1,
            system(*old(engine), *old(self), *old(stats)).is_settled()
                ==> final(engine)@.departure.is_some(),
    {
        proof {
            if system(*engine, *self, *stats).in_step() {
                lemma_receive_customer_keeps_in_step(system(*engine, *self, *stats), service_time);
            }
        }
        let now = engine.now();

        self.queue.push_back(now);

        stats.record_queue_change(now, self.queue.len());

        if !self.busy {
            self.start_service(engine, stats, service_time);
        }
    }

    /// The customer in service leaves at the present instant of `engine`. `service_time`
    /// is the duration of the service that begins if anyone waits.
    #[inline]
    pub fn handle_departure(
        &mut self,
        engine: &mut SimulationEngine,
        stats: &mut Statistics,
        service_time: u64,
    )
        requires
            system(*old(engine), *old(self), *old(stats)).may_handle_departure(service_time),
        ensures
            system(*final(engine), *final(self), *final(stats)) == system(
                *old(engine),
                *old(self),
                *old(stats),
            ).handle_departure(service_time),
            (system(*old(engine), *old(self), *old(stats)).in_step() && old(self)@.busy
                && old(engine)@.departure.is_none()) ==> system(
                *final(engine),
                *final(self),
                *final(stats),
            ).is_settled(),
            (system(*old(engine), *old(self), *old(stats)).in_step() && old(self)@.busy
                && old(engine)@.departure.is_none())
                ==> final(stats)@.customers_in_system() + 1
                == old(stats)@.customers_in_system(),
            (system(*old(engine), *old(self), *old(stats)).in_step() && old(self)@.busy
                && old(engine)@.departure.is_none())
                ==> final(stats)@.queue_length == final(self)@.queue.len(),
            final(self)@.busy == (old(self)@.queue.len() > 0),
            old(self)@.queue.len() > 0 ==> final(engine)@.departure == Some(
                (old(engine)@.now + service_time) as u64,
            ),
            old(self)@.queue.len() == 0 ==> final(engine)@ == old(engine)@,
            final(engine)@.now == old(engine)@.now,
            final(engine)@.arrival == old(engine)@.arrival,
            final(stats)@.served_customers == old(stats)@.served_customers + 1,
    {
        proof {
            if system(*engine, *self, *stats).in_step() && self@.busy && engine@.departure
                is None {
                lemma_handle_departure_settles(system(*engine, *self, *stats), service_time);
            }
        }
        let now = engine.now();
        let service_duration = now - self.service_start_time;

        self.busy = false;
        stats.record_service_end(now, service_duration);

        if self.queue.len() != 0 {
            self.start_service(engine, stats, service_time);
        }
    }
}

/// The arrival stream.
pub struct Client {
    mean_interarrival_time: u64,
}

impl Client {
    /// A stream whose arrivals lie `mean_interarrival_time` ticks apart on average.
    pub fn new(mean_interarrival_time: u64) -> (client: Self)
        ensures
            client.spec_mean_interarrival_time() == mean_interarrival_time,
    {
        Self { mean_interarrival_time }
    }

    pub closed spec fn spec_mean_interarrival_time(&self) -> u64 {
        self.mean_interarrival_time
    }

    #[verifier::when_used_as_spec(spec_mean_interarrival_time)]
    pub fn mean_interarrival_time(&self) -> (mean: u64)
        ensures
            mean == self.spec_mean_interarrival_time(),
    {
        self.mean_interarrival_time
    }

    /// Whether `handle_generate` may be called: tests its precondition.
    pub fn can_handle_generate(
        &self,
        engine: &SimulationEngine,
        server: &Server,
        stats: &Statistics,
        service_time: u64,
        inter_arrival_time: u64,
    ) -> (ok: bool)
        ensures
            ok == system(*engine, *server, *stats).may_handle_generate(
                service_time,
                inter_arrival_time,
            ),
    {
        server.can_receive_customer(engine, stats, service_time) && inter_arrival_time <= u64::MAX
            - engine.now()
    }

    /// A customer arrives at the present instant of `engine` and is handed to `server`;
    /// the next arrival is scheduled `inter_arrival_time` later. `service_time` is
    /// the duration of the service that begins if the server is idle.
    #[inline]
    pub fn handle_generate(
        &self,
        engine: &mut SimulationEngine,
        server: &mut Server,
        stats: &mut Statistics,
        service_time: u64,
        inter_arrival_time: u64,
    )
        requires
            system(*old(engine), *old(server), *old(stats)).may_handle_generate(
                service_time,
                inter_arrival_time,
            ),
        ensures
            system(*final(engine), *final(server), *final(stats)) == system(
                *old(engine),
                *old(server),
                *old(stats),
            ).handle_generate(service_time, inter_arrival_time),
            system(*old(engine), *old(server), *old(stats)).is_settled() ==> system(
                *final(engine),
                *final(server),
                *final(stats),
            ).is_settled(),
            final(engine)@.arrival == Some((old(engine)@.now + inter_arrival_time) as u64),
            final(engine)@.now == old(engine)@.now,
            old(server)@.busy ==> final(engine)@.departure == old(engine)@.departure,
            system(*old(engine), *old(server), *old(stats)).in_step()
                ==> final(stats)@.customers_in_system()
                == old(stats)@.customers_in_system() + 1,
    {
        proof {
            if system(*engine, *server, *stats).is_settled() {
                lemma_handle_generate_keeps_settled(
                    system(*engine, *server, *stats),
                    service_time,
                    inter_arrival_time,
                );
            }
        }
        server.receive_customer(engine, stats, service_time);

        let next_time = engine.now() + inter_arrival_time;
        engine.schedule(Event::new(next_time, EventType::Arrival));
    }
}

} // verus!
