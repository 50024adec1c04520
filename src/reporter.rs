//! The decisions of the throughput reporter, the latch that makes shutdown
//! requests idempotent, and the total over the attempts that the worker
//! model (`crate::worker::Worker`) counts.
//! Times are microseconds since the reporter was created.
use vstd::prelude::*;
use crate::worker::Worker;

verus! {

#[derive(PartialEq, Eq, Structural, Clone, Copy, Debug)]
pub enum ReporterEvent {
    /// The clock reads this many microseconds.
    Tick(u64),
    Shutdown,
}

#[derive(PartialEq, Eq, Structural, Clone, Copy, Debug)]
pub enum ReporterAction {
    Idle,
    /// Wait until the clock reads this value, or a shutdown comes.
    WaitUntil(u64),
    /// Read every counter and print one throughput line per target and
    /// their total.
    Report,
    /// The same, one last time, then end.
    FinalReport,
}

#[derive(PartialEq, Eq, Structural, Clone, Copy, Debug)]
pub struct Reporter {
    /// Time between two reports; at least one.
    pub update_micros: u64,
    pub deadline_micros: Option<u64>,
    pub next_report: u64,
    pub stopped: bool,
}

impl Reporter {
    pub open spec fn wf(self) -> bool {
        self.update_micros > 0
    }

    pub open spec fn deadline_reached(self, now: u64) -> bool {
        match self.deadline_micros {
            Some(d) => now >= d,
            None => false,
        }
    }

    pub open spec fn wake_time(self) -> u64 {
        match self.deadline_micros {
            Some(d) => if d < self.next_report {
                d
            } else {
                self.next_report
            },
            None => self.next_report,
        }
    }

    /// A reporter that reports every `update_micros` (at least one) and,
    /// with a duration, ends once the clock reaches it.
    pub fn new(update_micros: u64, duration_micros: Option<u64>) -> (r: Reporter)
        ensures
            r.wf(),
            !r.stopped,
            r.update_micros == if update_micros == 0 {
                1
            } else {
                update_micros
            },
            r.next_report == r.update_micros,
            r.deadline_micros == duration_micros,
    {
        let update = if update_micros == 0 {
            1
        } else {
            update_micros
        };
        Reporter {
            update_micros: update,
            deadline_micros: duration_micros,
            next_report: update,
            stopped: false,
        }
    }

    /// Takes one event and says what to do next.
    pub fn step(&mut self, ev: ReporterEvent) -> (a: ReporterAction)
        requires
            old(self).wf(),
        ensures
            final(self).wf(),
            final(self).update_micros == old(self).update_micros,
            final(self).deadline_micros == old(self).deadline_micros,
            old(self).stopped ==> *final(self) == *old(self) && a == ReporterAction::Idle,
            old(self).stopped ==> final(self).stopped,
            // the last report comes once, on shutdown or at the end of the run
            (a == ReporterAction::FinalReport) == (!old(self).stopped && final(self).stopped),
            !old(self).stopped && ev == ReporterEvent::Shutdown ==> a
                == ReporterAction::FinalReport,
            ev matches ReporterEvent::Tick(now) && !old(self).stopped
                && old(self).deadline_reached(now) ==> a == ReporterAction::FinalReport,
            // it never sleeps past the end of the run
            a matches ReporterAction::WaitUntil(t) ==> t == old(self).wake_time() && (old(self).deadline_micros matches Some(d) ==> t <= d),
            // periodic reports come when due, and the next one is later
            ev matches ReporterEvent::Tick(now) && !old(self).stopped
                && !old(self).deadline_reached(now) && now < old(self).next_report ==> a
                == ReporterAction::WaitUntil(old(self).wake_time()),
            ev matches ReporterEvent::Tick(now) && !old(self).stopped
                && !old(self).deadline_reached(now) && now >= old(self).next_report && now
                < u64::MAX ==> a == ReporterAction::Report,
            a == ReporterAction::Report ==> (ev matches ReporterEvent::Tick(now)
                && final(self).next_report > now),
            // the next report is one period after this one
            a == ReporterAction::Report && ev->Tick_0 <= u64::MAX - old(self).update_micros
                ==> final(self).next_report == ev->Tick_0 + old(self).update_micros,
            a == ReporterAction::Report && ev->Tick_0 > u64::MAX - old(self).update_micros
                ==> final(self).next_report == u64::MAX,
    {
        if self.stopped {
            return ReporterAction::Idle;
        }
        match ev {
            ReporterEvent::Shutdown => {
                self.stopped = true;
                ReporterAction::FinalReport
            },
            ReporterEvent::Tick(now) => {
                let hit = match self.deadline_micros {
                    Some(d) => now >= d,
                    None => false,
                };
                if hit {
                    self.stopped = true;
                    ReporterAction::FinalReport
                } else if now >= self.next_report {
                    // the next report is one period after this one, or at the
                    // last clock reading, where the run ends
                    if now > u64::MAX - self.update_micros {
                        self.next_report = u64::MAX;
                        if now == u64::MAX {
                            self.stopped = true;
                            return ReporterAction::FinalReport;
                        }
                    } else {
                        self.next_report = now + self.update_micros;
                    }
                    ReporterAction::Report
                } else {
                    let wake = match self.deadline_micros {
                        Some(d) => if d < self.next_report {
                            d
                        } else {
                            self.next_report
                        },
                        None => self.next_report,
                    };
                    ReporterAction::WaitUntil(wake)
                }
            },
        }
    }
}

/// Makes shutdown requests idempotent: only the first one is acted on.
#[derive(PartialEq, Eq, Structural, Clone, Copy, Debug)]
pub struct ShutdownLatch {
    pub requested: bool,
}

impl ShutdownLatch {
    pub fn new() -> (l: ShutdownLatch)
        ensures
            !l.requested,
    {
        ShutdownLatch { requested: false }
    }

    /// Records a request; `true` only for the first one.
    pub fn request(&mut self) -> (first: bool)
        ensures
            final(self).requested,
            first == !old(self).requested,
    {
        let first = !self.requested;
        self.requested = true;
        first
    }
}

pub open spec fn attempted_sum(ws: Seq<Worker>) -> int
    decreases ws.len(),
{
    if ws.len() == 0 {
        0
    } else {
        attempted_sum(ws.drop_last()) + ws.last().attempted
    }
}

/// The total of the attempts that every worker counted.
pub fn total_attempted(ws: &Vec<Worker>) -> (r: u128)
    ensures
        r == attempted_sum(ws@),
{
    let mut total: u128 = 0;
    let mut i: usize = 0;
    while i < ws.len()
        invariant
            i <= ws@.len(),
            total == attempted_sum(ws@.take(i as int)),
            total <= i * 0xffff_ffff_ffff_ffffu64,
        decreases ws@.len() - i,
    {
        proof {
            assert(ws@.take(i + 1).drop_last() =~= ws@.take(i as int));
            assert(ws@.take(i + 1).last() == ws@[i as int]);
            assert(total + ws@[i as int].attempted <= (i + 1) * 0xffff_ffff_ffff_ffffu64)
                by (nonlinear_arith)
                requires
                    total <= i * 0xffff_ffff_ffff_ffffu64,
                    ws@[i as int].attempted <= 0xffff_ffff_ffff_ffffu64,
            ;
            assert((i + 1) * 0xffff_ffff_ffff_ffffu64 < 0xffff_ffff_ffff_ffff_ffff_ffff_ffff_ffffu128)
                by (nonlinear_arith)
                requires
                    i < 0xffff_ffff_ffff_ffffu64,
            ;
        }
        total = total + ws[i].attempted as u128;
        i = i + 1;
    }
    proof {
        assert(ws@.take(ws@.len() as int) =~= ws@);
    }
    total
}

} // verus!
