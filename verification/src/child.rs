//! What the child does between the fork and the shell.
//!
//! The child's preparation is a list of steps fixed before the first of
//! them runs. The caller performs them in order and lets the child exit
//! as soon as one of them fails. Paths, arguments and environment entries
//! are bytes, as the operating system takes them.

use vstd::prelude::*;
use vstd::slice::slice_to_vec;
use vstd::string::StringSliceAdditionalSpecFns;

verus! {

/// A resolved system user.
#[derive(Debug, PartialEq, Eq)]
pub struct Identity {
    pub uid: u32,
    pub gid: u32,
    /// The path of the home directory.
    pub home: Vec<u8>,
    /// The path of the login shell.
    pub shell: Vec<u8>,
}

/// How the child becomes the shell.
#[derive(Debug, PartialEq, Eq)]
pub enum ChildInit {
    /// Run the program at this path as it is, as the user that the server
    /// runs as.
    DirectShellExec(Vec<u8>),
    /// Run the login shell of this user inside a login session.
    PamLoginSessionExec(Identity),
}

/// One step of the child's preparation.
#[derive(Debug, PartialEq, Eq)]
pub enum Prepare {
    /// Put this assignment into the session's environment.
    PutEnv(Vec<u8>),
    /// Take this group id.
    SetGroup(u32),
    /// Take this user id.
    SetUser(u32),
    /// Make the directory at this path the working directory.
    ChangeDir(Vec<u8>),
    /// Replace the process by this program with these arguments, the
    /// program's own name first, in the session's environment or else in
    /// the one that the process has.
    Exec { program: Vec<u8>, args: Vec<Vec<u8>>, session_env: bool },
}

/// The exit status of a child that could not become the shell.
pub const EXIT_FAILURE: i32 = 1;

/// How the child goes on after a step of its preparation.
#[derive(Clone, Copy, Debug, PartialEq, Eq, Structural)]
pub enum Onward {
    /// Take the next step.
    Continue,
    /// Exit with this status.
    Exit(i32),
}

/// An [`Identity`] as plain values.
pub struct IdentityView {
    pub uid: u32,
    pub gid: u32,
    pub home: Seq<u8>,
    pub shell: Seq<u8>,
}

/// A [`ChildInit`] as plain values.
pub enum ChildInitView {
    DirectShellExec(Seq<u8>),
    PamLoginSessionExec(IdentityView),
}

/// A [`Prepare`] as plain values.
pub enum PrepareView {
    PutEnv(Seq<u8>),
    SetGroup(u32),
    SetUser(u32),
    ChangeDir(Seq<u8>),
    Exec { program: Seq<u8>, args: Seq<Seq<u8>>, session_env: bool },
}

impl View for Identity {
    type V = IdentityView;

    open spec fn view(&self) -> IdentityView {
        IdentityView { uid: self.uid, gid: self.gid, home: self.home@, shell: self.shell@ }
    }
}

impl View for ChildInit {
    type V = ChildInitView;

    open spec fn view(&self) -> ChildInitView {
        match self {
            ChildInit::DirectShellExec(path) => ChildInitView::DirectShellExec(path@),
            ChildInit::PamLoginSessionExec(identity) => ChildInitView::PamLoginSessionExec(
                identity@,
            ),
        }
    }
}

impl View for Prepare {
    type V = PrepareView;

    open spec fn view(&self) -> PrepareView {
        match self {
            Prepare::PutEnv(entry) => PrepareView::PutEnv(entry@),
            Prepare::SetGroup(gid) => PrepareView::SetGroup(*gid),
            Prepare::SetUser(uid) => PrepareView::SetUser(*uid),
            Prepare::ChangeDir(dir) => PrepareView::ChangeDir(dir@),
            Prepare::Exec { program, args, session_env } => PrepareView::Exec {
                program: program@,
                args: texts(args@),
                session_env: *session_env,
            },
        }
    }
}

/// The byte strings of a list as plain values.
pub open spec fn texts(strings: Seq<Vec<u8>>) -> Seq<Seq<u8>> {
    strings.map_values(|s: Vec<u8>| s@)
}

/// The steps of a list as plain values.
pub open spec fn steps(list: Seq<Prepare>) -> Seq<PrepareView> {
    list.map_values(|p: Prepare| p@)
}

/// The bytes of an optional string.
pub open spec fn bytes_of(value: Option<&str>) -> Option<Seq<u8>> {
    match value {
        Some(v) => Some(v.spec_bytes()),
        None => None,
    }
}

/// The environment entry that forwards a variable of the server's own
/// environment, if the server has it: the name with its equals sign, then
/// the value.
pub open spec fn forwarded(name_is: Seq<u8>, value: Option<Seq<u8>>) -> Seq<PrepareView> {
    match value {
        Some(v) => seq![PrepareView::PutEnv(name_is + v)],
        None => Seq::empty(),
    }
}

/// The steps that turn the child into the shell, in order. A login sets
/// `HOME` first, whatever else it forwards, and takes the group before
/// the user: with the user's id taken first the process could no longer
/// change its group.
pub open spec fn plan_of(
    init: ChildInitView,
    colorterm: Option<Seq<u8>>,
    term: Option<Seq<u8>>,
) -> Seq<PrepareView> {
    match init {
        ChildInitView::DirectShellExec(path) => seq![
            PrepareView::Exec { program: path, args: seq![path], session_env: false },
        ],
        ChildInitView::PamLoginSessionExec(identity) => seq![
            PrepareView::PutEnv("HOME=".spec_bytes() + identity.home),
        ] + forwarded("COLORTERM=".spec_bytes(), colorterm) + forwarded(
            "TERM=".spec_bytes(),
            term,
        ) + seq![
            PrepareView::SetGroup(identity.gid),
            PrepareView::SetUser(identity.uid),
            PrepareView::ChangeDir(identity.home),
            PrepareView::Exec {
                program: identity.shell,
                args: seq![identity.shell, "--login".spec_bytes()],
                session_env: true,
            },
        ],
    }
}

/// How the child goes on after a step: to the next step if the step
/// succeeded and was not the one that replaces the process, out
/// otherwise.
pub open spec fn onward_of(step: PrepareView, succeeded: bool) -> Onward {
    if step is Exec || !succeeded {
        Onward::Exit(EXIT_FAILURE)
    } else {
        Onward::Continue
    }
}

/// Whether a child that meets these outcomes, one for each step in order,
/// gets as far as trying step `i`.
pub open spec fn reaches(list: Seq<PrepareView>, outcomes: Seq<bool>, i: int) -> bool {
    forall|j: int| 0 <= j < i ==> #[trigger] onward_of(list[j], outcomes[j]) is Continue
}

impl Prepare {
    /// Says how the child goes on after this step was tried. Any step
    /// that fails ends the child, an environment entry that could not be
    /// set too. The step that replaces the process comes back only when
    /// it failed, so whatever is reported of it, the child exits.
    pub fn onward(&self, succeeded: bool) -> (r: Onward)
        ensures
            r == onward_of(self@, succeeded),
    {
        match self {
            Prepare::Exec { .. } => Onward::Exit(EXIT_FAILURE),
            _ => {
                if succeeded {
                    Onward::Continue
                } else {
                    Onward::Exit(EXIT_FAILURE)
                }
            },
        }
    }
}

/// An environment entry: a name with its equals sign, then the value.
fn entry(name_is: &str, value: &[u8]) -> (r: Prepare)
    ensures
        r@ == PrepareView::PutEnv(name_is.spec_bytes() + value@),
{
    let mut text = slice_to_vec(name_is.as_bytes());
    let mut tail = slice_to_vec(value);
    text.append(&mut tail);
    Prepare::PutEnv(text)
}

/// Lists the steps that turn the child into the shell. `colorterm` and
/// `term` are the server's own `COLORTERM` and `TERM`, where it has them.
pub fn plan(init: &ChildInit, colorterm: Option<&str>, term: Option<&str>) -> (list: Vec<Prepare>)
    ensures
        steps(list@) == plan_of(init@, bytes_of(colorterm), bytes_of(term)),
{
    let mut list: Vec<Prepare> = Vec::new();
    match init {
        ChildInit::DirectShellExec(path) => {
            let mut args: Vec<Vec<u8>> = Vec::new();
            args.push(slice_to_vec(path.as_slice()));
            assert(texts(args@) =~= seq![path@]);
            list.push(
                Prepare::Exec { program: slice_to_vec(path.as_slice()), args, session_env: false },
            );
            assert(steps(list@) =~= plan_of(init@, bytes_of(colorterm), bytes_of(term)));
        },
        ChildInit::PamLoginSessionExec(identity) => {
            list.push(entry("HOME=", identity.home.as_slice()));
            if let Some(value) = colorterm {
                list.push(entry("COLORTERM=", value.as_bytes()));
            }
            if let Some(value) = term {
                list.push(entry("TERM=", value.as_bytes()));
            }
            list.push(Prepare::SetGroup(identity.gid));
            list.push(Prepare::SetUser(identity.uid));
            list.push(Prepare::ChangeDir(slice_to_vec(identity.home.as_slice())));
            let mut args: Vec<Vec<u8>> = Vec::new();
            args.push(slice_to_vec(identity.shell.as_slice()));
            args.push(slice_to_vec("--login".as_bytes()));
            assert(texts(args@) =~= seq![identity.shell@, "--login".spec_bytes()]);
            list.push(
                Prepare::Exec {
                    program: slice_to_vec(identity.shell.as_slice()),
                    args,
                    session_env: true,
                },
            );
            assert(steps(list@) =~= plan_of(init@, bytes_of(colorterm), bytes_of(term)));
        },
    }
    list
}

/// A login sets `HOME` from the user's home directory as its first step,
/// whether or not the server forwards anything.
pub proof fn lemma_home_is_always_set(
    identity: IdentityView,
    colorterm: Option<Seq<u8>>,
    term: Option<Seq<u8>>,
)
    ensures
        plan_of(ChildInitView::PamLoginSessionExec(identity), colorterm, term)[0]
            == PrepareView::PutEnv("HOME=".spec_bytes() + identity.home),
{
}

/// A login drops the group before the user, enters the home directory
/// after both, and ends with the shell: the last four steps of its plan
/// are always these, in this order, and all before them set environment
/// entries.
pub proof fn lemma_group_before_user(
    identity: IdentityView,
    colorterm: Option<Seq<u8>>,
    term: Option<Seq<u8>>,
)
    ensures
        ({
            let list = plan_of(ChildInitView::PamLoginSessionExec(identity), colorterm, term);
            let n = list.len();
            &&& n >= 5
            &&& list[n - 4] == PrepareView::SetGroup(identity.gid)
            &&& list[n - 3] == PrepareView::SetUser(identity.uid)
            &&& list[n - 2] == PrepareView::ChangeDir(identity.home)
            &&& list[n - 1] is Exec
            &&& forall|i: int| 0 <= i < n - 4 ==> #[trigger] list[i] is PutEnv
        }),
{
}

/// A child never runs past its plan: the last step ends it whatever
/// comes of it, and any failed step before it ends it too. The exit
/// status is never zero.
pub proof fn lemma_child_never_returns(step: PrepareView, succeeded: bool)
    ensures
        step is Exec ==> onward_of(step, succeeded) is Exit,
        !succeeded ==> onward_of(step, succeeded) is Exit,
        onward_of(step, succeeded) matches Onward::Exit(status) ==> status != 0,
{
}

/// A child tries a step only after every step before it succeeded. So
/// the shell of a login starts only with `HOME` and each forwarded
/// variable set, the group and the user taken and the home directory
/// entered.
pub proof fn lemma_shell_needs_every_step(list: Seq<PrepareView>, outcomes: Seq<bool>, i: int, j: int)
    requires
        reaches(list, outcomes, i),
        0 <= j < i,
    ensures
        outcomes[j],
        !(list[j] is Exec),
{
    assert(onward_of(list[j], outcomes[j]) is Continue);
}

/// Every plan ends with the step that replaces the process, and holds no
/// other such step.
pub proof fn lemma_plan_ends_in_exec(
    init: ChildInitView,
    colorterm: Option<Seq<u8>>,
    term: Option<Seq<u8>>,
)
    ensures
        ({
            let list = plan_of(init, colorterm, term);
            &&& list.len() >= 1
            &&& list.last() is Exec
            &&& forall|i: int| 0 <= i < list.len() - 1 ==> !(#[trigger] list[i] is Exec)
        }),
{
}

} // verus!
