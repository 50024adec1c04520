//! The decisions of one workload worker. The caller owns the clock and the
//! outside work: it hands in events (a clock reading, a stop request, the
//! outcome of a submission) and carries out the action that comes back.
//! Times are microseconds since the worker was created.
//!
//! This is a model of the submission loop: the program's workers are run by
//! transact's workload runner, which does not drive this type.
use vstd::prelude::*;

verus! {

#[derive(PartialEq, Eq, Structural, Clone, Copy, Debug)]
pub enum WorkerState {
    /// Bound to its generator, signer and counter; nothing done yet.
    Starting,
    Running,
    /// Asked to stop while a submission is outstanding.
    Stopping,
    Stopped,
}

#[derive(PartialEq, Eq, Structural, Clone, Copy, Debug)]
pub enum WorkerEvent {
    /// The clock reads this many microseconds.
    Tick(u64),
    /// Stop requested, by the operator or by the coordinator.
    StopSignal,
    /// The outstanding submission ended: `true` when it was accepted.
    Submitted(bool),
}

#[derive(PartialEq, Eq, Structural, Clone, Copy, Debug)]
pub enum WorkerAction {
    /// Nothing to do until the next event.
    Idle,
    /// Wait until the clock reads this value, or a stop request comes.
    WaitUntil(u64),
    /// Take the next batch, sign it and submit it.
    Submit,
    /// Release the generator and signer and report completion.
    Finish,
}

#[derive(PartialEq, Eq, Structural, Clone, Copy, Debug)]
pub struct Worker {
    pub state: WorkerState,
    /// Pause between two submissions; at least one.
    pub interval_micros: u64,
    /// The end of the run, when it has one.
    pub deadline_micros: Option<u64>,
    /// When the next submission is due.
    pub next_due: u64,
    pub in_flight: bool,
    pub attempted: u64,
    pub succeeded: u64,
    pub failed: u64,
}

pub open spec fn is_stopping_or_stopped(s: WorkerState) -> bool {
    s == WorkerState::Stopping || s == WorkerState::Stopped
}

impl Worker {
    pub open spec fn wf(self) -> bool {
        &&& self.interval_micros > 0
        &&& self.attempted == self.succeeded + self.failed + (if self.in_flight {
            1int
        } else {
            0int
        })
        &&& (self.state == WorkerState::Stopping ==> self.in_flight)
        &&& (self.in_flight ==> self.state == WorkerState::Running || self.state
            == WorkerState::Stopping)
        &&& (self.state == WorkerState::Starting ==> self.attempted == 0 && self.next_due
            == self.interval_micros)
        &&& (self.state == WorkerState::Running ==> self.next_due == (self.attempted + 1)
            * self.interval_micros)
    }

    /// A worker that submits once every `interval_micros` (at least one)
    /// and, with a duration, stops once the clock reaches it.
    pub fn new(interval_micros: u64, duration_micros: Option<u64>) -> (w: Worker)
        ensures
            w.wf(),
            w.state == WorkerState::Starting,
            w.interval_micros == if interval_micros == 0 {
                1
            } else {
                interval_micros
            },
            w.deadline_micros == duration_micros,
            w.attempted == 0,
            !w.in_flight,
    {
        let interval = if interval_micros == 0 {
            1
        } else {
            interval_micros
        };
        Worker {
            state: WorkerState::Starting,
            interval_micros: interval,
            deadline_micros: duration_micros,
            next_due: interval,
            in_flight: false,
            attempted: 0,
            succeeded: 0,
            failed: 0,
        }
    }

    pub open spec fn deadline_reached(self, now: u64) -> bool {
        match self.deadline_micros {
            Some(d) => now >= d,
            None => false,
        }
    }

    /// The wake-up time while waiting for the next submission: when it is
    /// due, or the end of the run if that comes first.
    pub open spec fn wake_time(self) -> u64 {
        match self.deadline_micros {
            Some(d) => if d < self.next_due {
                d
            } else {
                self.next_due
            },
            None => self.next_due,
        }
    }

    /// Takes one event and says what to do next.
    pub fn step(&mut self, ev: WorkerEvent) -> (a: WorkerAction)
        requires
            old(self).wf(),
        ensures
            final(self).wf(),
            final(self).interval_micros == old(self).interval_micros,
            final(self).deadline_micros == old(self).deadline_micros,
            // a stopped worker stays stopped and does nothing
            old(self).state == WorkerState::Stopped ==> *final(self) == *old(self) && a
                == WorkerAction::Idle,
            // once asked to stop, never running again, and never submitting
            is_stopping_or_stopped(old(self).state) ==> is_stopping_or_stopped(final(self).state),
            old(self).state != WorkerState::Starting && old(self).state != WorkerState::Running
                ==> a != WorkerAction::Submit,
            // a stop request ends the worker at once, or as soon as the
            // outstanding submission ends
            ev == WorkerEvent::StopSignal && !old(self).in_flight ==> final(self).state
                == WorkerState::Stopped,
            ev == WorkerEvent::StopSignal && old(self).state != WorkerState::Stopped
                && !old(self).in_flight ==> a == WorkerAction::Finish,
            ev == WorkerEvent::StopSignal && old(self).in_flight ==> final(self).state
                == WorkerState::Stopping && final(self).in_flight,
            old(self).state == WorkerState::Stopping && ev is Submitted ==> final(self).state
                == WorkerState::Stopped && a == WorkerAction::Finish,
            // the end of the run is honoured between submissions
            ev matches WorkerEvent::Tick(now) && old(self).deadline_reached(now)
                && !old(self).in_flight ==> final(self).state == WorkerState::Stopped,
            // submissions are sequential and never early
            a == WorkerAction::Submit ==> !old(self).in_flight && final(self).in_flight,
            a == WorkerAction::Submit ==> (ev matches WorkerEvent::Tick(now)
                && final(self).attempted * final(self).interval_micros <= now),
            a == WorkerAction::Submit ==> final(self).attempted == old(self).attempted + 1,
            a != WorkerAction::Submit ==> final(self).attempted == old(self).attempted,
            // a running worker with nothing outstanding that is not yet due waits
            ev matches WorkerEvent::Tick(now) && (old(self).state == WorkerState::Running
                || old(self).state == WorkerState::Starting) && !old(self).in_flight
                && !old(self).deadline_reached(now) && now < old(self).next_due ==> a
                == WorkerAction::WaitUntil(old(self).wake_time()),
            // one that is due submits
            ev matches WorkerEvent::Tick(now) && (old(self).state == WorkerState::Running
                || old(self).state == WorkerState::Starting) && !old(self).in_flight
                && !old(self).deadline_reached(now) && now >= old(self).next_due ==> a
                == WorkerAction::Submit,
            // after an outcome a running worker goes on and waits for its
            // next due time; it never retries at once
            old(self).state == WorkerState::Running && old(self).in_flight && ev is Submitted
                ==> final(self).state == WorkerState::Running && !final(self).in_flight
                && a == WorkerAction::WaitUntil(final(self).wake_time()),
            // after a submission it stays running, with the next due time one
            // pause later, unless that would pass the largest clock reading
            a == WorkerAction::Submit && old(self).next_due <= u64::MAX - old(self).interval_micros
                ==> final(self).state == WorkerState::Running && final(self).next_due == old(
                self).next_due + old(self).interval_micros,
            a == WorkerAction::Submit && old(self).next_due > u64::MAX - old(self).interval_micros
                ==> final(self).state == WorkerState::Stopping,
            // outcomes are counted
            ev == WorkerEvent::Submitted(true) && old(self).in_flight ==> final(self).succeeded
                == old(self).succeeded + 1 && final(self).failed == old(self).failed,
            ev == WorkerEvent::Submitted(false) && old(self).in_flight ==> final(self).failed
                == old(self).failed + 1 && final(self).succeeded == old(self).succeeded,
            !(ev is Submitted && old(self).in_flight) ==> final(self).succeeded == old(self).succeeded && final(self).failed == old(self).failed,
    {
        match self.state {
            WorkerState::Stopped => WorkerAction::Idle,
            WorkerState::Stopping => {
                match ev {
                    WorkerEvent::Submitted(ok) => {
                        self.record(ok);
                        self.state = WorkerState::Stopped;
                        WorkerAction::Finish
                    },
                    _ => WorkerAction::Idle,
                }
            },
            WorkerState::Starting | WorkerState::Running => {
                match ev {
                    WorkerEvent::StopSignal => {
                        if self.in_flight {
                            self.state = WorkerState::Stopping;
                            WorkerAction::Idle
                        } else {
                            self.state = WorkerState::Stopped;
                            WorkerAction::Finish
                        }
                    },
                    WorkerEvent::Submitted(ok) => {
                        if self.in_flight {
                            self.record(ok);
                            WorkerAction::WaitUntil(self.wake_at())
                        } else {
                            WorkerAction::Idle
                        }
                    },
                    WorkerEvent::Tick(now) => {
                        self.state = WorkerState::Running;
                        if self.in_flight {
                            WorkerAction::Idle
                        } else if self.deadline_hit(now) {
                            self.state = WorkerState::Stopped;
                            WorkerAction::Finish
                        } else if now < self.next_due {
                            WorkerAction::WaitUntil(self.wake_at())
                        } else {
                            self.submit(now);
                            WorkerAction::Submit
                        }
                    },
                }
            },
        }
    }

    fn deadline_hit(&self, now: u64) -> (r: bool)
        ensures
            r == self.deadline_reached(now),
    {
        match self.deadline_micros {
            Some(d) => now >= d,
            None => false,
        }
    }

    fn wake_at(&self) -> (r: u64)
        ensures
            r == self.wake_time(),
    {
        match self.deadline_micros {
            Some(d) => if d < self.next_due {
                d
            } else {
                self.next_due
            },
            None => self.next_due,
        }
    }

    /// Counts the end of the outstanding submission.
    fn record(&mut self, ok: bool)
        requires
            old(self).wf(),
            old(self).in_flight,
        ensures
            *final(self) == (Worker {
                in_flight: false,
                succeeded: if ok {
                    (old(self).succeeded + 1) as u64
                } else {
                    old(self).succeeded
                },
                failed: if ok {
                    old(self).failed
                } else {
                    (old(self).failed + 1) as u64
                },
                ..*old(self)
            }),
    {
        self.in_flight = false;
        if ok {
            self.succeeded = self.succeeded + 1;
        } else {
            self.failed = self.failed + 1;
        }
    }

    /// Starts the submission that is due at `now`. When the following due
    /// time would pass the largest clock reading, the worker stops after
    /// this submission.
    fn submit(&mut self, now: u64)
        requires
            old(self).wf(),
            old(self).state == WorkerState::Running,
            !old(self).in_flight,
            now >= old(self).next_due,
        ensures
            final(self).wf(),
            final(self).in_flight,
            final(self).state == WorkerState::Running || final(self).state
                == WorkerState::Stopping,
            final(self).attempted == old(self).attempted + 1,
            final(self).attempted * final(self).interval_micros <= now,
            old(self).next_due <= u64::MAX - old(self).interval_micros ==> final(self).state
                == WorkerState::Running && final(self).next_due == old(self).next_due + old(
                self).interval_micros,
            old(self).next_due > u64::MAX - old(self).interval_micros ==> final(self).state
                == WorkerState::Stopping,
            final(self).succeeded == old(self).succeeded,
            final(self).failed == old(self).failed,
            final(self).interval_micros == old(self).interval_micros,
            final(self).deadline_micros == old(self).deadline_micros,
    {
        let interval = self.interval_micros;
        let ghost due0 = self.next_due;
        let ghost att0 = self.attempted;
        proof {
            assert(self.attempted < self.next_due) by (nonlinear_arith)
                requires
                    self.next_due == (self.attempted + 1) * self.interval_micros,
                    self.interval_micros > 0,
            ;
        }
        self.attempted = self.attempted + 1;
        self.in_flight = true;
        if self.next_due > u64::MAX - interval {
            self.state = WorkerState::Stopping;
        } else {
            self.next_due = self.next_due + interval;
            assert(self.next_due == (self.attempted + 1) * self.interval_micros) by (nonlinear_arith)
                requires
                    self.next_due == due0 + interval,
                    due0 == (att0 + 1) * interval,
                    self.attempted == att0 + 1,
                    self.interval_micros == interval,
            ;
        }
    }
}

} // verus!
