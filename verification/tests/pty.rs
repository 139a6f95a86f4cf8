use std::collections::BTreeSet;
use webterm::pty::{transfer, Call, Fork, Progress, Stage, Transfer};

/// Runs the plan on scripted return values and keeps a table of the
/// descriptors that are open. Returns the calls made, the end of the plan
/// and the table.
fn drive(script: &[(i32, i32)]) -> (Vec<Call>, Progress, BTreeSet<i32>) {
    let mut open: BTreeSet<i32> = BTreeSet::new();
    let mut calls = Vec::new();
    let mut stage = Stage::begin();
    let mut at = 0;
    loop {
        let call = stage.call();
        calls.push(call);
        let (ret, errno) = script[at];
        at += 1;
        match call {
            Call::OpenMaster | Call::OpenSlave(_) => {
                if ret >= 0 {
                    assert!(open.insert(ret));
                }
            }
            Call::Close(fd) => {
                assert!(open.remove(&fd));
            }
            Call::Duplicate { from, onto } => {
                assert!(open.contains(&from));
                if ret != -1 {
                    open.insert(onto);
                }
            }
            _ => {}
        }
        match stage.advance(ret, errno) {
            Progress::Next(next) => stage = next,
            done => {
                assert_eq!(at, script.len());
                return (calls, done, open);
            }
        }
    }
}

#[test]
fn parent_gets_the_pid_and_the_master() {
    let (calls, end, open) = drive(&[(5, 0), (0, 0), (0, 0), (0, 0), (4242, 0)]);
    assert_eq!(
        calls,
        vec![Call::OpenMaster, Call::Grant(5), Call::Unlock(5), Call::SetNonBlocking(5), Call::Fork]
    );
    assert_eq!(end, Progress::Forked(Fork::Parent(4242, 5)));
    assert_eq!(open, BTreeSet::from([5]));
}

#[test]
fn failed_open_fails_with_the_os_error() {
    let (calls, end, open) = drive(&[(-1, 24)]);
    assert_eq!(calls, vec![Call::OpenMaster]);
    assert_eq!(end, Progress::Failed(24));
    assert!(open.is_empty());
}

#[test]
fn failed_grant_closes_the_master_and_fails_with_the_os_error() {
    let (calls, end, open) = drive(&[(5, 0), (-1, 13), (0, 0)]);
    assert_eq!(calls, vec![Call::OpenMaster, Call::Grant(5), Call::Close(5)]);
    assert_eq!(end, Progress::Failed(13));
    assert!(open.is_empty());
}

#[test]
fn failed_unlock_closes_the_master_and_fails_with_the_os_error() {
    let (calls, end, open) = drive(&[(5, 0), (0, 0), (-1, 22), (0, 0)]);
    assert_eq!(calls, vec![Call::OpenMaster, Call::Grant(5), Call::Unlock(5), Call::Close(5)]);
    assert_eq!(end, Progress::Failed(22));
    assert!(open.is_empty());
}

#[test]
fn failed_non_blocking_closes_the_master() {
    let (calls, end, open) = drive(&[(5, 0), (0, 0), (0, 0), (-1, 9), (0, 0)]);
    assert_eq!(calls.last(), Some(&Call::Close(5)));
    assert_eq!(end, Progress::Failed(9));
    assert!(open.is_empty());
}

#[test]
fn failed_fork_closes_the_master() {
    let (calls, end, open) = drive(&[(5, 0), (0, 0), (0, 0), (0, 0), (-1, 11), (0, 0)]);
    assert_eq!(calls.last(), Some(&Call::Close(5)));
    assert_eq!(end, Progress::Failed(11));
    assert!(open.is_empty());
}

#[test]
fn error_number_of_the_failed_call_survives_the_close() {
    let (_, end, _) = drive(&[(5, 0), (-1, 13), (-1, 9)]);
    assert_eq!(end, Progress::Failed(13));
}

#[test]
fn child_moves_the_slave_onto_the_standard_streams() {
    let script =
        [(5, 0), (0, 0), (0, 0), (0, 0), (0, 0), (0, 0), (6, 0), (0, 0), (0, 0), (1, 0), (2, 0), (0, 0)];
    let (calls, end, open) = drive(&script);
    assert_eq!(
        calls,
        vec![
            Call::OpenMaster,
            Call::Grant(5),
            Call::Unlock(5),
            Call::SetNonBlocking(5),
            Call::Fork,
            Call::NewSession,
            Call::OpenSlave(5),
            Call::Close(5),
            Call::Duplicate { from: 6, onto: 0 },
            Call::Duplicate { from: 6, onto: 1 },
            Call::Duplicate { from: 6, onto: 2 },
            Call::Close(6),
        ]
    );
    assert_eq!(end, Progress::Forked(Fork::Child));
    assert_eq!(open, BTreeSet::from([0, 1, 2]));
}

#[test]
fn slave_that_is_a_standard_stream_is_not_closed() {
    for slave in 0..=2 {
        let script = [
            (5, 0),
            (0, 0),
            (0, 0),
            (0, 0),
            (0, 0),
            (0, 0),
            (slave, 0),
            (0, 0),
            (0, 0),
            (1, 0),
            (2, 0),
        ];
        let (calls, end, open) = drive(&script);
        assert_eq!(calls.len(), 11);
        assert_eq!(calls[8], Call::Duplicate { from: slave, onto: 0 });
        assert_eq!(calls[9], Call::Duplicate { from: slave, onto: 1 });
        assert_eq!(calls[10], Call::Duplicate { from: slave, onto: 2 });
        assert!(!calls.contains(&Call::Close(slave)));
        assert_eq!(end, Progress::Forked(Fork::Child));
        assert_eq!(open, BTreeSet::from([0, 1, 2]));
    }
}

#[test]
fn slave_just_above_the_standard_streams_is_closed() {
    let stage = Stage::Duplicating { slave: 3, onto: 2 };
    assert_eq!(stage.advance(2, 0), Progress::Next(Stage::ClosingSlave { slave: 3 }));
    assert_eq!(Stage::ClosingSlave { slave: 3 }.call(), Call::Close(3));
    assert_eq!(Stage::ClosingSlave { slave: 3 }.advance(0, 0), Progress::Forked(Fork::Child));
}

#[test]
fn failures_in_the_child_end_the_child() {
    let to_child = [(5, 0), (0, 0), (0, 0), (0, 0), (0, 0)];
    let mut script = to_child.to_vec();
    script.push((-1, 1));
    assert_eq!(drive(&script).1, Progress::ChildFailed(1));

    let mut script = to_child.to_vec();
    script.extend_from_slice(&[(0, 0), (-1, 2)]);
    assert_eq!(drive(&script).1, Progress::ChildFailed(2));

    for failing in 0..3 {
        let mut script = to_child.to_vec();
        script.extend_from_slice(&[(0, 0), (6, 0), (0, 0)]);
        for onto in 0..failing {
            script.push((onto, 0));
        }
        script.push((-1, 24));
        let (calls, end, _) = drive(&script);
        assert_eq!(calls.last(), Some(&Call::Duplicate { from: 6, onto: failing }));
        assert_eq!(end, Progress::ChildFailed(24));
    }
}

#[test]
fn plan_never_takes_more_than_twelve_calls() {
    let script =
        [(5, 0), (0, 0), (0, 0), (0, 0), (0, 0), (0, 0), (6, 0), (0, 0), (0, 0), (1, 0), (2, 0), (0, 0)];
    assert_eq!(drive(&script).0.len(), 12);
}

#[test]
fn transfer_counts_and_errors() {
    assert_eq!(transfer(0, 0, false), Transfer::Moved(0));
    assert_eq!(transfer(3, 11, true), Transfer::Moved(3));
    assert_eq!(transfer(1024, 0, false), Transfer::Moved(1024));
    assert_eq!(transfer(-1, 5, false), Transfer::Failed(5));
}

#[test]
fn transfer_that_would_block_is_tried_again() {
    assert_eq!(transfer(-1, 11, true), Transfer::Retry);
    assert_eq!(transfer(-1, 11, false), Transfer::Failed(11));
}
