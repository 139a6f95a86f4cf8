use webterm::supervisor::{Order, Report, Supervisor, Verdict, MAX_POLLS, REST_MS};

#[test]
fn supervisor_budget_is_eight_polls_of_200_ms() {
    assert_eq!(MAX_POLLS, 8);
    assert_eq!(REST_MS, 200);
}

#[test]
fn stubborn_child_times_out_at_the_eighth_poll() {
    let (mut s, first) = Supervisor::release();
    assert_eq!(first, Order::Hangup);
    assert_eq!(s.step(Report::Signalled(true)), Order::Poll);
    let mut rested: u64 = 0;
    for _ in 0..7 {
        match s.step(Report::Status(None)) {
            Order::RestThenPoll(ms) => rested += ms,
            other => panic!("unexpected order {:?}", other),
        }
    }
    assert_eq!(rested, 1400);
    assert_eq!(s.step(Report::Status(None)), Order::Stop(Verdict::TimedOut));
    assert_eq!(s.verdict, Some(Verdict::TimedOut));
    assert_eq!(s.step(Report::Status(None)), Order::Stop(Verdict::TimedOut));
    assert_eq!(s.step(Report::Status(Some(7))), Order::Stop(Verdict::TimedOut));
    assert!(rested <= 1600);
}

#[test]
fn child_that_exits_at_once_ends_the_wait() {
    let (mut s, first) = Supervisor::release();
    assert_eq!(first, Order::Hangup);
    assert_eq!(s.step(Report::Signalled(true)), Order::Poll);
    assert_eq!(s.step(Report::Status(Some(4242))), Order::Stop(Verdict::Exited));
    assert_eq!(s.rests, 0);
}

#[test]
fn child_that_exits_later_ends_the_wait() {
    let (mut s, first) = Supervisor::release();
    assert_eq!(first, Order::Hangup);
    s.step(Report::Signalled(true));
    assert_eq!(s.step(Report::Status(None)), Order::RestThenPoll(200));
    assert_eq!(s.step(Report::Status(None)), Order::RestThenPoll(200));
    assert_eq!(s.step(Report::Status(Some(9))), Order::Stop(Verdict::Exited));
    assert_eq!(s.rests, 2);
    assert_eq!(s.step(Report::Status(None)), Order::Stop(Verdict::Exited));
    assert_eq!(s.rests, 2);
}

#[test]
fn failed_signal_is_not_escalated() {
    let (mut s, first) = Supervisor::release();
    assert_eq!(first, Order::Hangup);
    assert_eq!(s.step(Report::Signalled(false)), Order::Poll);
    assert_eq!(s, Supervisor::release().0);
    assert_eq!(s.step(Report::Status(None)), Order::RestThenPoll(200));
}

#[test]
fn failed_poll_ends_the_wait() {
    let (mut s, first) = Supervisor::release();
    assert_eq!(first, Order::Hangup);
    s.step(Report::Signalled(true));
    s.step(Report::Status(None));
    assert_eq!(s.step(Report::WaitFailed), Order::Stop(Verdict::WaitFailed));
    assert_eq!(s.step(Report::Signalled(true)), Order::Stop(Verdict::WaitFailed));
}

#[test]
fn timeout_comes_at_the_seventh_rest_whatever_the_state_counts() {
    let mut s = Supervisor { rests: 7, verdict: None };
    assert_eq!(s.step(Report::Status(None)), Order::Stop(Verdict::TimedOut));
    let mut s = Supervisor { rests: 6, verdict: None };
    assert_eq!(s.step(Report::Status(None)), Order::RestThenPoll(200));
    assert_eq!(s.rests, 7);
    let mut s = Supervisor { rests: u32::MAX, verdict: None };
    assert_eq!(s.step(Report::Status(None)), Order::Stop(Verdict::TimedOut));
}

#[test]
fn hangup_is_ordered_first_and_only_once() {
    let (mut s, first) = Supervisor::release();
    assert_eq!(first, Order::Hangup);
    assert_eq!(s, Supervisor { rests: 0, verdict: None });
    let reports = [
        Report::Signalled(true),
        Report::Signalled(false),
        Report::Status(None),
        Report::Signalled(true),
        Report::Status(Some(1)),
        Report::WaitFailed,
    ];
    for report in reports {
        assert_ne!(s.step(report), Order::Hangup);
    }
}
