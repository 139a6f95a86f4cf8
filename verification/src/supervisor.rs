//! Ending the child process when its session goes away.
//!
//! A release starts with [`Supervisor::release`], which orders the hang-up
//! signal. From then on the caller reports what it learns to
//! [`Supervisor::step`] and does as ordered: ask, without blocking, whether
//! the child has exited; rest and ask again; or stop. The supervisor orders
//! at most seven rests, so a child that ignores the signal holds the caller
//! up for a bounded time only.

use vstd::prelude::*;

verus! {

/// The most times the child's status is asked for.
pub const MAX_POLLS: u32 = 8;

/// Milliseconds of rest between two polls.
pub const REST_MS: u64 = 200;

/// How the wait for the child ended.
#[derive(Clone, Copy, Debug, PartialEq, Eq, Structural)]
pub enum Verdict {
    /// The child changed state and was collected.
    Exited,
    /// The child was still alive at the last poll.
    TimedOut,
    /// Asking for the child's status failed.
    WaitFailed,
}

/// What the caller learned.
#[derive(Clone, Copy, Debug, PartialEq, Eq, Structural)]
pub enum Report {
    /// The hang-up signal was sent; `false` if sending it failed.
    Signalled(bool),
    /// A poll returned: the process it names, or nothing while the child
    /// is still alive.
    Status(Option<i32>),
    /// A poll failed.
    WaitFailed,
}

/// What the caller does next.
#[derive(Clone, Copy, Debug, PartialEq, Eq, Structural)]
pub enum Order {
    /// Send the child the hang-up signal.
    Hangup,
    /// Poll the child's status now.
    Poll,
    /// Rest for this many milliseconds, then poll.
    RestThenPoll(u64),
    /// Stop waiting.
    Stop(Verdict),
}

/// The state of one release.
#[derive(Clone, Copy, Debug, PartialEq, Eq, Structural)]
pub struct Supervisor {
    /// How many rests were ordered so far.
    pub rests: u32,
    /// Set once the wait is over.
    pub verdict: Option<Verdict>,
}

/// How many reports of a run say that the child is still alive.
pub open spec fn still_alive_count(reports: Seq<Report>) -> nat
    decreases reports.len(),
{
    if reports.len() == 0 {
        0
    } else {
        still_alive_count(reports.drop_last()) + if reports.last() == Report::Status(None) {
            1nat
        } else {
            0nat
        }
    }
}

/// The milliseconds of rest that a run of orders adds up to.
pub open spec fn total_rest(orders: Seq<Order>) -> nat
    decreases orders.len(),
{
    if orders.len() == 0 {
        0
    } else {
        total_rest(orders.drop_last()) + match orders.last() {
            Order::RestThenPoll(ms) => ms as nat,
            _ => 0nat,
        }
    }
}

impl Supervisor {
    /// The state in which every release starts.
    pub open spec fn initial() -> Supervisor {
        Supervisor { rests: 0, verdict: None }
    }

    /// Fewer rests were ordered than polls are allowed.
    pub open spec fn wf(self) -> bool {
        self.rests < MAX_POLLS
    }

    /// The state after one report.
    pub open spec fn next(self, report: Report) -> Supervisor {
        if self.verdict is Some {
            self
        } else {
            match report {
                Report::Signalled(_) => self,
                Report::Status(Some(_)) => Supervisor { verdict: Some(Verdict::Exited), ..self },
                Report::Status(None) => if self.rests + 1 < MAX_POLLS {
                    Supervisor { rests: (self.rests + 1) as u32, ..self }
                } else {
                    Supervisor { verdict: Some(Verdict::TimedOut), ..self }
                },
                Report::WaitFailed => Supervisor { verdict: Some(Verdict::WaitFailed), ..self },
            }
        }
    }

    /// The order that answers one report.
    pub open spec fn order(self, report: Report) -> Order {
        match self.next(report).verdict {
            Some(verdict) => Order::Stop(verdict),
            None => match report {
                Report::Signalled(_) => Order::Poll,
                _ => Order::RestThenPoll(REST_MS),
            },
        }
    }

    /// The state after a run of reports, oldest first.
    pub open spec fn after(self, reports: Seq<Report>) -> Supervisor
        decreases reports.len(),
    {
        if reports.len() == 0 {
            self
        } else {
            self.after(reports.drop_last()).next(reports.last())
        }
    }

    /// The orders that answer a run of reports, one for each, in order.
    pub open spec fn orders(self, reports: Seq<Report>) -> Seq<Order>
        decreases reports.len(),
    {
        if reports.len() == 0 {
            Seq::empty()
        } else {
            self.orders(reports.drop_last()).push(
                self.after(reports.drop_last()).order(reports.last()),
            )
        }
    }

    /// Starts a release with its first order, the hang-up signal.
    pub fn release() -> (start: (Supervisor, Order))
        ensures
            start.0 == Supervisor::initial(),
            start.0.wf(),
            start.1 == Order::Hangup,
    {
        (Supervisor { rests: 0, verdict: None }, Order::Hangup)
    }

    /// Takes one report, moves to the next state and says what to do.
    pub fn step(&mut self, report: Report) -> (order: Order)
        ensures
            *final(self) == old(self).next(report),
            order == old(self).order(report),
            old(self).wf() ==> final(self).wf(),
    {
        if let Some(verdict) = self.verdict {
            return Order::Stop(verdict);
        }
        match report {
            Report::Signalled(_) => Order::Poll,
            Report::Status(Some(_)) => self.stop(Verdict::Exited),
            Report::Status(None) => {
                if self.rests < MAX_POLLS - 1 {
                    self.rests = self.rests + 1;
                    Order::RestThenPoll(REST_MS)
                } else {
                    self.stop(Verdict::TimedOut)
                }
            },
            Report::WaitFailed => self.stop(Verdict::WaitFailed),
        }
    }

    /// Ends the wait with a verdict.
    fn stop(&mut self, verdict: Verdict) -> (order: Order)
        ensures
            *final(self) == (Supervisor { verdict: Some(verdict), ..*old(self) }),
            order == Order::Stop(verdict),
    {
        self.verdict = Some(verdict);
        Order::Stop(verdict)
    }
}

/// A failed hang-up signal is not escalated: the poll follows either way.
pub proof fn lemma_signal_failure_is_ignored(s: Supervisor, sent: bool)
    ensures
        s.next(Report::Signalled(sent)) == s,
        s.order(Report::Signalled(sent)) == s.order(Report::Signalled(!sent)),
        s.verdict is None ==> s.order(Report::Signalled(sent)) == Order::Poll,
{
}

/// The hang-up signal is ordered when the release starts and never again.
pub proof fn lemma_one_hangup(s: Supervisor, report: Report)
    ensures
        !(s.order(report) is Hangup),
{
}

/// Once the wait is over, every further report gets the same verdict back
/// and changes nothing.
pub proof fn lemma_verdict_is_final(s: Supervisor, reports: Seq<Report>)
    requires
        s.verdict is Some,
    ensures
        s.after(reports) == s,
    decreases reports.len(),
{
    if reports.len() > 0 {
        lemma_verdict_is_final(s, reports.drop_last());
    }
}

/// Over any run of reports, each rest is ordered for a poll that found the
/// child alive, each lasts `REST_MS`, and there are fewer of them than
/// `MAX_POLLS`: the rests of a whole release add up to 1400 ms at most,
/// which is less than `MAX_POLLS` times `REST_MS`.
pub proof fn lemma_rest_is_bounded(reports: Seq<Report>)
    ensures
        Supervisor::initial().after(reports).wf(),
        Supervisor::initial().after(reports).rests <= still_alive_count(reports),
        total_rest(Supervisor::initial().orders(reports)) == REST_MS
            * Supervisor::initial().after(reports).rests,
        total_rest(Supervisor::initial().orders(reports)) <= 1400 < MAX_POLLS * REST_MS,
    decreases reports.len(),
{
    if reports.len() > 0 {
        lemma_rest_is_bounded(reports.drop_last());
        assert(Supervisor::initial().orders(reports).drop_last() =~= Supervisor::initial().orders(
            reports.drop_last(),
        ));
    }
}

/// The wait ends at the first poll that finds the child gone or fails, and
/// at the latest at the poll that finds it alive for the `MAX_POLLS`-th
/// time; that one ends it with a timeout.
pub proof fn lemma_wait_ends(reports: Seq<Report>)
    ensures
        Supervisor::initial().after(reports).verdict is None ==> Supervisor::initial().after(
            reports,
        ).rests == still_alive_count(reports),
        still_alive_count(reports) >= MAX_POLLS ==> Supervisor::initial().after(
            reports,
        ).verdict is Some,
        Supervisor::initial().after(reports).verdict is None ==> forall|i: int|
            0 <= i < reports.len() ==> #[trigger] reports[i] is Signalled || reports[i]
                == Report::Status(None),
    decreases reports.len(),
{
    if reports.len() > 0 {
        let shorter = reports.drop_last();
        lemma_wait_ends(shorter);
        lemma_rest_is_bounded(shorter);
        lemma_rest_is_bounded(reports);
        let before = Supervisor::initial().after(shorter);
        if Supervisor::initial().after(reports).verdict is None {
            assert(before.verdict is None);
            assert forall|i: int| 0 <= i < reports.len() implies #[trigger] reports[i] is Signalled
                || reports[i] == Report::Status(None) by {
                if i < shorter.len() {
                    assert(reports[i] == shorter[i]);
                }
            }
        }
    }
}

/// Eight polls that find the child alive, with nothing else in between but
/// the signal's report, end in a timeout.
pub proof fn lemma_stubborn_child_times_out(reports: Seq<Report>)
    requires
        still_alive_count(reports) == MAX_POLLS,
        forall|i: int|
            0 <= i < reports.len() ==> #[trigger] reports[i] is Signalled || reports[i]
                == Report::Status(None),
    ensures
        Supervisor::initial().after(reports).verdict == Some(Verdict::TimedOut),
    decreases reports.len(),
{
    lemma_only_timeout_without_news(reports);
    lemma_wait_ends(reports);
}

/// While every poll finds the child alive, the only verdict is a timeout.
pub proof fn lemma_only_timeout_without_news(reports: Seq<Report>)
    requires
        forall|i: int|
            0 <= i < reports.len() ==> #[trigger] reports[i] is Signalled || reports[i]
                == Report::Status(None),
    ensures
        Supervisor::initial().after(reports).verdict is None || Supervisor::initial().after(
            reports,
        ).verdict == Some(Verdict::TimedOut),
    decreases reports.len(),
{
    if reports.len() > 0 {
        let shorter = reports.drop_last();
        assert forall|i: int| 0 <= i < shorter.len() implies #[trigger] shorter[i] is Signalled
            || shorter[i] == Report::Status(None) by {
            assert(shorter[i] == reports[i]);
        }
        lemma_only_timeout_without_news(shorter);
        assert(reports.last() == reports[reports.len() - 1]);
    }
}

} // verus!
