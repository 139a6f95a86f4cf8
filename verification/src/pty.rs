//! Allocating a pseudo-terminal and forking a child onto its slave side.
//!
//! The allocation is a fixed plan of system calls. The caller makes the
//! call that the current [`Stage`] names, hands the call's return value and
//! the error number that came with it to [`Stage::advance`], and goes on
//! with what comes back until the plan is done. The laws at the end hold
//! the plan against a small model of the descriptor table.

use vstd::prelude::*;

verus! {

/// The standard streams that the slave is duplicated onto, the last of
/// them.
pub const LAST_STANDARD_STREAM: i32 = 2;

/// A system call of the plan.
#[derive(Clone, Copy, Debug, PartialEq, Eq, Structural)]
pub enum Call {
    /// Open a new master, read/write, without making it the controlling
    /// terminal.
    OpenMaster,
    /// Grant access to the slave of this master.
    Grant(i32),
    /// Unlock the slave of this master.
    Unlock(i32),
    /// Make this master non-blocking.
    SetNonBlocking(i32),
    /// Fork the process.
    Fork,
    /// Start a new session, leaving the inherited controlling terminal.
    NewSession,
    /// Open the slave of this master, read/write.
    OpenSlave(i32),
    /// Close this descriptor.
    Close(i32),
    /// Duplicate one descriptor onto another.
    Duplicate { from: i32, onto: i32 },
}

/// How a fork ended, seen from the process that goes on.
#[derive(Clone, Copy, Debug, PartialEq, Eq, Structural)]
pub enum Fork {
    /// In the parent: the child's process id and the master descriptor.
    Parent(i32, i32),
    /// In the child: the slave serves the three standard streams.
    Child,
}

/// Where the plan stands: the call that is to be made next.
#[derive(Clone, Copy, Debug, PartialEq, Eq, Structural)]
pub enum Stage {
    OpeningMaster,
    Granting { master: i32 },
    Unlocking { master: i32 },
    Unblocking { master: i32 },
    Forking { master: i32 },
    /// Closing the master after a failure, to report the error after it.
    Releasing { master: i32, errno: i32 },
    /// In the child from here on.
    Detaching { master: i32 },
    OpeningSlave { master: i32 },
    ClosingMaster { master: i32, slave: i32 },
    Duplicating { slave: i32, onto: i32 },
    ClosingSlave { slave: i32 },
}

/// What a returned call leads to.
#[derive(Clone, Copy, Debug, PartialEq, Eq, Structural)]
pub enum Progress {
    /// The plan goes on at this stage.
    Next(Stage),
    /// The plan is done.
    Forked(Fork),
    /// The plan failed in the parent with this error number; no
    /// descriptor of the pair is left open.
    Failed(i32),
    /// The plan failed in the child with this error number; the child
    /// must exit.
    ChildFailed(i32),
}

/// What one attempt to read from or write to the master came to.
#[derive(Clone, Copy, Debug, PartialEq, Eq, Structural)]
pub enum Transfer {
    /// This many bytes were moved; none at end-of-stream.
    Moved(usize),
    /// The master was not ready after all: wait for it again.
    Retry,
    /// The attempt failed with this error number.
    Failed(i32),
}

/// What an attempt came to, from the call's return value, the error
/// number and whether that error says that the call would have blocked.
pub open spec fn transfer_of(ret: isize, errno: i32, would_block: bool) -> Transfer {
    if ret >= 0 {
        Transfer::Moved(ret as usize)
    } else if would_block {
        Transfer::Retry
    } else {
        Transfer::Failed(errno)
    }
}

/// The end of the pair that a descriptor refers to.
pub enum End {
    Master,
    Slave,
}

/// The descriptors that refer to the slave once it serves the standard
/// streams up to, and not including, `onto`, and `slave` itself.
pub open spec fn slave_table(slave: int, onto: int) -> Map<int, End> {
    Map::new(|fd: int| fd == slave || 0 <= fd < onto, |fd: int| End::Slave)
}

/// The descriptors of a child that is ready: the standard streams, all on
/// the slave.
pub open spec fn child_table() -> Map<int, End> {
    Map::new(|fd: int| 0 <= fd <= LAST_STANDARD_STREAM, |fd: int| End::Slave)
}

/// What the operating system may return from a call, given the
/// descriptors of the pair that the process holds: a call that opens
/// something fails with -1 or results a descriptor that was not in use.
pub open spec fn plausible(held: Map<int, End>, call: Call, ret: int) -> bool {
    match call {
        Call::OpenMaster | Call::OpenSlave(_) => ret == -1 || (ret >= 0 && !held.dom().contains(
            ret,
        )),
        _ => true,
    }
}

/// The descriptors of the pair that the process holds after a call
/// returned.
pub open spec fn effect(held: Map<int, End>, call: Call, ret: int) -> Map<int, End> {
    match call {
        Call::OpenMaster => if ret >= 0 {
            held.insert(ret, End::Master)
        } else {
            held
        },
        Call::OpenSlave(_) => if ret >= 0 {
            held.insert(ret, End::Slave)
        } else {
            held
        },
        Call::Close(fd) => held.remove(fd as int),
        Call::Duplicate { from, onto } => if ret != -1 && held.dom().contains(from as int) {
            held.insert(onto as int, held[from as int])
        } else {
            held
        },
        _ => held,
    }
}

impl Stage {
    /// The call that is to be made at this stage.
    pub open spec fn pending(self) -> Call {
        match self {
            Stage::OpeningMaster => Call::OpenMaster,
            Stage::Granting { master } => Call::Grant(master),
            Stage::Unlocking { master } => Call::Unlock(master),
            Stage::Unblocking { master } => Call::SetNonBlocking(master),
            Stage::Forking { .. } => Call::Fork,
            Stage::Releasing { master, .. } => Call::Close(master),
            Stage::Detaching { .. } => Call::NewSession,
            Stage::OpeningSlave { master } => Call::OpenSlave(master),
            Stage::ClosingMaster { master, .. } => Call::Close(master),
            Stage::Duplicating { slave, onto } => Call::Duplicate { from: slave, onto },
            Stage::ClosingSlave { slave } => Call::Close(slave),
        }
    }

    /// What follows when this stage's call returned `ret`, with `errno`
    /// as the error number in case it failed.
    pub open spec fn on_return(self, ret: i32, errno: i32) -> Progress {
        match self {
            Stage::OpeningMaster => if ret >= 0 {
                Progress::Next(Stage::Granting { master: ret })
            } else {
                Progress::Failed(errno)
            },
            Stage::Granting { master } => if ret == 0 {
                Progress::Next(Stage::Unlocking { master })
            } else {
                Progress::Next(Stage::Releasing { master, errno })
            },
            Stage::Unlocking { master } => if ret == 0 {
                Progress::Next(Stage::Unblocking { master })
            } else {
                Progress::Next(Stage::Releasing { master, errno })
            },
            Stage::Unblocking { master } => if ret == 0 {
                Progress::Next(Stage::Forking { master })
            } else {
                Progress::Next(Stage::Releasing { master, errno })
            },
            Stage::Forking { master } => if ret == -1 {
                Progress::Next(Stage::Releasing { master, errno })
            } else if ret == 0 {
                Progress::Next(Stage::Detaching { master })
            } else {
                Progress::Forked(Fork::Parent(ret, master))
            },
            Stage::Releasing { errno: cause, .. } => Progress::Failed(cause),
            Stage::Detaching { master } => if ret == -1 {
                Progress::ChildFailed(errno)
            } else {
                Progress::Next(Stage::OpeningSlave { master })
            },
            Stage::OpeningSlave { master } => if ret == -1 {
                Progress::ChildFailed(errno)
            } else {
                Progress::Next(Stage::ClosingMaster { master, slave: ret })
            },
            Stage::ClosingMaster { slave, .. } => Progress::Next(
                Stage::Duplicating { slave, onto: 0 },
            ),
            Stage::Duplicating { slave, onto } => if ret == -1 {
                Progress::ChildFailed(errno)
            } else if onto < LAST_STANDARD_STREAM {
                Progress::Next(Stage::Duplicating { slave, onto: (onto + 1) as i32 })
            } else if 0 <= slave <= LAST_STANDARD_STREAM {
                Progress::Forked(Fork::Child)
            } else {
                Progress::Next(Stage::ClosingSlave { slave })
            },
            Stage::ClosingSlave { .. } => Progress::Forked(Fork::Child),
        }
    }

    /// The descriptors of the pair that the process holds when it is about
    /// to make this stage's call.
    pub open spec fn holds(self) -> Map<int, End> {
        match self {
            Stage::OpeningMaster => Map::empty(),
            Stage::Granting { master }
            | Stage::Unlocking { master }
            | Stage::Unblocking { master }
            | Stage::Forking { master }
            | Stage::Releasing { master, .. }
            | Stage::Detaching { master }
            | Stage::OpeningSlave { master } => Map::empty().insert(master as int, End::Master),
            Stage::ClosingMaster { master, slave } => Map::empty().insert(
                master as int,
                End::Master,
            ).insert(slave as int, End::Slave),
            Stage::Duplicating { slave, onto } => slave_table(slave as int, onto as int),
            Stage::ClosingSlave { slave } => slave_table(
                slave as int,
                LAST_STANDARD_STREAM + 1,
            ),
        }
    }

    /// The descriptors that the stage names are open and distinct, and a
    /// slave that is about to be closed serves no standard stream.
    pub open spec fn wf(self) -> bool {
        match self {
            Stage::OpeningMaster => true,
            Stage::Granting { master }
            | Stage::Unlocking { master }
            | Stage::Unblocking { master }
            | Stage::Forking { master }
            | Stage::Releasing { master, .. }
            | Stage::Detaching { master }
            | Stage::OpeningSlave { master } => master >= 0,
            Stage::ClosingMaster { master, slave } => master >= 0 && slave >= 0 && master != slave,
            Stage::Duplicating { slave, onto } => slave >= 0 && 0 <= onto <= LAST_STANDARD_STREAM,
            Stage::ClosingSlave { slave } => slave > LAST_STANDARD_STREAM,
        }
    }

    /// An upper bound on the calls that the plan still makes from this
    /// stage on, this stage's call included.
    pub open spec fn calls_left(self) -> int {
        match self {
            Stage::OpeningMaster => 12,
            Stage::Granting { .. } => 11,
            Stage::Unlocking { .. } => 10,
            Stage::Unblocking { .. } => 9,
            Stage::Forking { .. } => 8,
            Stage::Detaching { .. } => 7,
            Stage::OpeningSlave { .. } => 6,
            Stage::ClosingMaster { .. } => 5,
            Stage::Duplicating { onto, .. } => 4 - onto,
            Stage::ClosingSlave { .. } => 1,
            Stage::Releasing { .. } => 1,
        }
    }

    /// The stage at which every allocation starts.
    pub fn begin() -> (stage: Stage)
        ensures
            stage == Stage::OpeningMaster,
    {
        Stage::OpeningMaster
    }

    /// The call to make at this stage.
    pub fn call(&self) -> (call: Call)
        ensures
            call == self.pending(),
    {
        match *self {
            Stage::OpeningMaster => Call::OpenMaster,
            Stage::Granting { master } => Call::Grant(master),
            Stage::Unlocking { master } => Call::Unlock(master),
            Stage::Unblocking { master } => Call::SetNonBlocking(master),
            Stage::Forking { .. } => Call::Fork,
            Stage::Releasing { master, .. } => Call::Close(master),
            Stage::Detaching { .. } => Call::NewSession,
            Stage::OpeningSlave { master } => Call::OpenSlave(master),
            Stage::ClosingMaster { master, .. } => Call::Close(master),
            Stage::Duplicating { slave, onto } => Call::Duplicate { from: slave, onto },
            Stage::ClosingSlave { slave } => Call::Close(slave),
        }
    }

    /// Takes the return value of this stage's call, and the error number
    /// that the caller read right after it, and says how the plan goes on.
    pub fn advance(self, ret: i32, errno: i32) -> (progress: Progress)
        ensures
            progress == self.on_return(ret, errno),
    {
        match self {
            Stage::OpeningMaster => {
                if ret >= 0 {
                    Progress::Next(Stage::Granting { master: ret })
                } else {
                    Progress::Failed(errno)
                }
            },
            Stage::Granting { master } => {
                if ret == 0 {
                    Progress::Next(Stage::Unlocking { master })
                } else {
                    Progress::Next(Stage::Releasing { master, errno })
                }
            },
            Stage::Unlocking { master } => {
                if ret == 0 {
                    Progress::Next(Stage::Unblocking { master })
                } else {
                    Progress::Next(Stage::Releasing { master, errno })
                }
            },
            Stage::Unblocking { master } => {
                if ret == 0 {
                    Progress::Next(Stage::Forking { master })
                } else {
                    Progress::Next(Stage::Releasing { master, errno })
                }
            },
            Stage::Forking { master } => {
                if ret == -1 {
                    Progress::Next(Stage::Releasing { master, errno })
                } else if ret == 0 {
                    Progress::Next(Stage::Detaching { master })
                } else {
                    Progress::Forked(Fork::Parent(ret, master))
                }
            },
            Stage::Releasing { errno: cause, .. } => Progress::Failed(cause),
            Stage::Detaching { master } => {
                if ret == -1 {
                    Progress::ChildFailed(errno)
                } else {
                    Progress::Next(Stage::OpeningSlave { master })
                }
            },
            Stage::OpeningSlave { master } => {
                if ret == -1 {
                    Progress::ChildFailed(errno)
                } else {
                    Progress::Next(Stage::ClosingMaster { master, slave: ret })
                }
            },
            Stage::ClosingMaster { slave, .. } => Progress::Next(
                Stage::Duplicating { slave, onto: 0 },
            ),
            Stage::Duplicating { slave, onto } => {
                if ret == -1 {
                    Progress::ChildFailed(errno)
                } else if onto < LAST_STANDARD_STREAM {
                    Progress::Next(Stage::Duplicating { slave, onto: onto + 1 })
                } else if 0 <= slave && slave <= LAST_STANDARD_STREAM {
                    Progress::Forked(Fork::Child)
                } else {
                    Progress::Next(Stage::ClosingSlave { slave })
                }
            },
            Stage::ClosingSlave { .. } => Progress::Forked(Fork::Child),
        }
    }
}

/// Reads the outcome of one read or write on the master, made after the
/// master was reported ready. A count is passed on as it is, also when it
/// is short of what was asked for. A call that would have blocked is no
/// error: readiness can be stale, and the caller waits again. Any other
/// failure is passed on with its error number.
pub fn transfer(ret: isize, errno: i32, would_block: bool) -> (r: Transfer)
    ensures
        r == transfer_of(ret, errno, would_block),
{
    if ret >= 0 {
        Transfer::Moved(ret as usize)
    } else if would_block {
        Transfer::Retry
    } else {
        Transfer::Failed(errno)
    }
}

/// Whether a table of descriptors is the one that goes with a point of the
/// plan: at a stage, what the stage holds; in the parent after the fork,
/// the master alone; in a child that is ready, the standard streams on the
/// slave and nothing else; after a failure in the parent, nothing.
pub open spec fn accounted(progress: Progress, held: Map<int, End>) -> bool {
    match progress {
        Progress::Next(stage) => stage.wf() && held == stage.holds(),
        Progress::Forked(Fork::Parent(_, master)) => held == Map::<int, End>::empty().insert(
            master as int,
            End::Master,
        ),
        Progress::Forked(Fork::Child) => held == child_table(),
        Progress::Failed(_) => held == Map::<int, End>::empty(),
        Progress::ChildFailed(_) => true,
    }
}

/// Where the plan stands after these calls returned, each given as return
/// value and error number, oldest first. Results after the plan's end
/// change nothing.
pub open spec fn run(results: Seq<(i32, i32)>) -> Progress
    decreases results.len(),
{
    if results.len() == 0 {
        Progress::Next(Stage::OpeningMaster)
    } else {
        match run(results.drop_last()) {
            Progress::Next(stage) => stage.on_return(results.last().0, results.last().1),
            done => done,
        }
    }
}

/// The descriptors of the pair that the process holds after these calls
/// returned, if it held none before.
pub open spec fn table(results: Seq<(i32, i32)>) -> Map<int, End>
    decreases results.len(),
{
    if results.len() == 0 {
        Map::empty()
    } else {
        match run(results.drop_last()) {
            Progress::Next(stage) => effect(
                table(results.drop_last()),
                stage.pending(),
                results.last().0 as int,
            ),
            _ => table(results.drop_last()),
        }
    }
}

/// Whether each return value is one that the operating system may give at
/// its point of the plan.
pub open spec fn plausible_run(results: Seq<(i32, i32)>) -> bool
    decreases results.len(),
{
    results.len() == 0 || (plausible_run(results.drop_last()) && match run(results.drop_last()) {
        Progress::Next(stage) => plausible(
            table(results.drop_last()),
            stage.pending(),
            results.last().0 as int,
        ),
        _ => true,
    })
}

/// One call of the plan, made with the descriptors that its stage holds,
/// leaves the descriptors that go with what follows.
pub proof fn lemma_call_keeps_account(stage: Stage, ret: i32, errno: i32)
    requires
        stage.wf(),
        plausible(stage.holds(), stage.pending(), ret as int),
    ensures
        accounted(stage.on_return(ret, errno), effect(stage.holds(), stage.pending(), ret as int)),
{
    let after = effect(stage.holds(), stage.pending(), ret as int);
    match stage.on_return(ret, errno) {
        Progress::Next(next) => {
            assert(after =~= next.holds());
        },
        Progress::Forked(Fork::Parent(_, master)) => {
            assert(after =~= Map::<int, End>::empty().insert(master as int, End::Master));
        },
        Progress::Forked(Fork::Child) => {
            assert(after =~= child_table());
        },
        Progress::Failed(_) => {
            assert(after =~= Map::<int, End>::empty());
        },
        Progress::ChildFailed(_) => {},
    }
}

/// Whatever the calls return, as far as the operating system may return
/// it, the plan keeps account of every descriptor of the pair: see
/// [`accounted`].
pub proof fn lemma_plan_keeps_account(results: Seq<(i32, i32)>)
    requires
        plausible_run(results),
    ensures
        accounted(run(results), table(results)),
    decreases results.len(),
{
    if results.len() == 0 {
        assert(table(results) =~= Stage::OpeningMaster.holds());
    } else {
        let earlier = results.drop_last();
        lemma_plan_keeps_account(earlier);
        match run(earlier) {
            Progress::Next(stage) => {
                lemma_call_keeps_account(stage, results.last().0, results.last().1);
            },
            _ => {},
        }
    }
}

/// An allocation that fails in the parent leaves no descriptor of the
/// pair open, at whichever call it failed.
pub proof fn lemma_failure_leaks_nothing(results: Seq<(i32, i32)>)
    requires
        plausible_run(results),
        run(results) is Failed,
    ensures
        table(results) == Map::<int, End>::empty(),
{
    lemma_plan_keeps_account(results);
}

/// Each process ends up with its own end only: the parent holds the master
/// and no descriptor of the slave; a child that is ready holds no
/// descriptor of the master, and the slave on the three standard streams
/// and nowhere else.
pub proof fn lemma_ends_are_not_shared(results: Seq<(i32, i32)>, fd: int)
    requires
        plausible_run(results),
        run(results) is Forked,
        table(results).dom().contains(fd),
    ensures
        run(results) matches Progress::Forked(Fork::Parent(_, master)) ==> fd == master
            && table(results)[fd] is Master,
        run(results) == Progress::Forked(Fork::Child) ==> 0 <= fd <= LAST_STANDARD_STREAM
            && table(results)[fd] is Slave,
        run(results) == Progress::Forked(Fork::Child) ==> table(results).dom().contains(0)
            && table(results).dom().contains(1) && table(results).dom().contains(2),
{
    lemma_plan_keeps_account(results);
}

/// The slave's own descriptor is closed after the duplication unless it
/// is one of the standard streams itself, in which case closing it would
/// close the stream that it now serves.
pub proof fn lemma_aliased_slave_stays_open(slave: i32, ret: i32, errno: i32)
    requires
        ret != -1,
    ensures
        (Stage::Duplicating { slave, onto: LAST_STANDARD_STREAM }).on_return(ret, errno) == if 0
            <= slave <= LAST_STANDARD_STREAM {
            Progress::Forked(Fork::Child)
        } else {
            Progress::Next(Stage::ClosingSlave { slave })
        },
{
}

/// The plan ends within twelve calls, whatever they return.
pub proof fn lemma_plan_ends(results: Seq<(i32, i32)>)
    ensures
        run(results) matches Progress::Next(stage) ==> 1 <= stage.calls_left() <= 12
            - results.len(),
        results.len() >= 12 ==> !(run(results) is Next),
{
    lemma_plan_counts_down(results);
}

/// The calls left and the calls made never add up to more than twelve,
/// and the slave is only ever duplicated onto a standard stream.
proof fn lemma_plan_counts_down(results: Seq<(i32, i32)>)
    ensures
        run(results) matches Progress::Next(stage) ==> 1 <= stage.calls_left() <= 12
            - results.len() && (stage matches Stage::Duplicating { onto, .. } ==> 0 <= onto
            <= LAST_STANDARD_STREAM),
    decreases results.len(),
{
    if results.len() > 0 {
        lemma_plan_counts_down(results.drop_last());
    }
}

} // verus!
