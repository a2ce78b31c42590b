//! One process: its mailbox, its lifecycle status, its sandbox, and the texts
//! that its script sees.

use std::collections::VecDeque;
use vstd::prelude::*;

use crate::text::{decimal, decimal_text, opt_text};

verus! {

/// Identifies a process. Pids are handed out in increasing order.
pub type Pid = u64;

/// What a process may do to others. A sandbox is only ever narrowed.
#[derive(Clone, Copy, Debug, PartialEq, Eq, Structural)]
pub struct Sandbox {
    /// Whether the process may spawn processes and kill *other* processes.
    /// Killing itself is always allowed.
    pub can_spawn_and_kill: bool,
}

impl Sandbox {
    /// Every toggle on: the sandbox of a root process.
    pub fn privileged() -> (r: Sandbox)
        ensures
            r == Sandbox::spec_privileged(),
    {
        Sandbox { can_spawn_and_kill: true }
    }

    pub open spec fn spec_privileged() -> Sandbox {
        Sandbox { can_spawn_and_kill: true }
    }

    /// Every toggle off: a fully confined process.
    pub fn confined() -> (r: Sandbox)
        ensures
            r == Sandbox::spec_confined(),
    {
        Sandbox { can_spawn_and_kill: false }
    }

    pub open spec fn spec_confined() -> Sandbox {
        Sandbox { can_spawn_and_kill: false }
    }

    pub open spec fn spec_intersect(self, other: Sandbox) -> Sandbox {
        Sandbox { can_spawn_and_kill: self.can_spawn_and_kill && other.can_spawn_and_kill }
    }

    /// A toggle is on in the result exactly if it is on in both operands.
    pub fn intersect(self, other: Sandbox) -> (r: Sandbox)
        ensures
            r == self.spec_intersect(other),
    {
        Sandbox { can_spawn_and_kill: self.can_spawn_and_kill && other.can_spawn_and_kill }
    }

    pub open spec fn spec_narrow(self, request: Option<bool>) -> Sandbox {
        match request {
            Some(allow) => self.spec_intersect(Sandbox { can_spawn_and_kill: allow }),
            None => self,
        }
    }

    /// Applies a partial policy: a requested toggle is intersected with the
    /// one held, an absent one is left as it is.
    pub fn narrow(self, request: Option<bool>) -> (r: Sandbox)
        ensures
            r == self.spec_narrow(request),
    {
        match request {
            Some(allow) => self.intersect(Sandbox { can_spawn_and_kill: allow }),
            None => self,
        }
    }

    /// Whether every toggle that is on here is also on in `other`.
    pub open spec fn within(self, other: Sandbox) -> bool {
        self.can_spawn_and_kill ==> other.can_spawn_and_kill
    }
}

/// Where a process stands in its life.
#[derive(Clone, Copy, Debug, PartialEq, Eq, Structural)]
pub enum Status {
    /// Running or runnable.
    Running,
    /// Suspended on `recv()`.
    Waiting,
    /// Suspended on `yieldNow()`.
    Yielding,
    /// Suspended on `sleep()`.
    Sleeping,
    /// The entry script finished.
    Done,
    /// The entry script or a job raised an uncaught error.
    Failed,
    /// A kill was accepted; the process is reaped at its next scheduling
    /// boundary.
    Killed,
}

impl Status {
    pub open spec fn spec_as_str(self) -> Seq<char> {
        match self {
            Status::Running => "running"@,
            Status::Waiting => "waiting"@,
            Status::Yielding => "yielding"@,
            Status::Sleeping => "sleeping"@,
            Status::Done => "done"@,
            Status::Failed => "failed"@,
            Status::Killed => "killed"@,
        }
    }

    /// The name under which scripts and control clients see the status.
    pub fn as_str(self) -> (r: &'static str)
        ensures
            r@ == self.spec_as_str(),
    {
        match self {
            Status::Running => "running",
            Status::Waiting => "waiting",
            Status::Yielding => "yielding",
            Status::Sleeping => "sleeping",
            Status::Done => "done",
            Status::Failed => "failed",
            Status::Killed => "killed",
        }
    }

    /// Done, failed or killed: the process runs no further job.
    pub open spec fn spec_is_terminal(self) -> bool {
        self is Done || self is Failed || self is Killed
    }

    pub fn is_terminal(self) -> (r: bool)
        ensures
            r == self.spec_is_terminal(),
    {
        match self {
            Status::Done => true,
            Status::Failed => true,
            Status::Killed => true,
            _ => false,
        }
    }

    /// `next`, unless a kill was already accepted.
    pub open spec fn unless_killed(self, next: Status) -> Status {
        if self is Killed {
            self
        } else {
            next
        }
    }
}

/// Who holds a process.
#[derive(Clone, Copy, Debug, PartialEq, Eq, Structural)]
pub enum Place {
    /// Its entry script is being evaluated for the first time.
    Starting,
    /// A worker is running one of its slices.
    OnWorker,
    /// It is on the run queue.
    Queued,
    /// It waits for a message.
    Parked,
    /// It waits for a deadline and for nothing else.
    Sleeping,
}

/// What woke a suspended process.
#[derive(Clone, Copy, Debug, PartialEq, Eq, Structural)]
pub enum WakeKind {
    /// A message for a pending `recv()`.
    Message,
    /// The deadline of a pending `recv(timeoutMs)`.
    Timeout,
    /// The deadline of a pending `sleep()`.
    Sleep,
    /// The next slice after a `yieldNow()`.
    Yield,
}

/// The state of one process that the scheduler and its script share.
pub struct ProcShared {
    pub pid: Pid,
    pub name: String,
    /// The mailbox: JSON texts, oldest first.
    pub inbox_rx: VecDeque<String>,
    pub status: Status,
    /// The moment, in nanoseconds, at which the outstanding `sleep()` or
    /// `recv(timeoutMs)` ends.
    pub deadline: Option<u128>,
    pub sandbox: Sandbox,
    /// A `recv()` has not been answered yet.
    pub recv_pending: bool,
    /// A `sleep()` has not been answered yet.
    pub sleep_pending: bool,
    /// The deadline of the pending `recv()` passed while the mailbox was empty.
    pub timed_out: bool,
    /// The slice that it is in, or was in last, has had its job.
    pub ran_job: bool,
    /// The wake that its script has been promised and has not had yet.
    pub owed: Option<WakeKind>,
    pub place: Place,
}

/// The mathematical content of a [`ProcShared`].
#[verifier::ext_equal]
pub struct ProcView {
    pub name: Seq<char>,
    pub inbox: Seq<Seq<char>>,
    pub status: Status,
    pub deadline: Option<u128>,
    pub sandbox: Sandbox,
    pub recv_pending: bool,
    pub sleep_pending: bool,
    pub timed_out: bool,
    pub ran_job: bool,
    pub owed: Option<WakeKind>,
    pub place: Place,
}

impl View for ProcShared {
    type V = ProcView;

    open spec fn view(&self) -> ProcView {
        ProcView {
            name: self.name@,
            inbox: self.inbox_rx@.map_values(|m: String| m@),
            status: self.status,
            deadline: self.deadline,
            sandbox: self.sandbox,
            recv_pending: self.recv_pending,
            sleep_pending: self.sleep_pending,
            timed_out: self.timed_out,
            ran_job: self.ran_job,
            owed: self.owed,
            place: self.place,
        }
    }
}

impl ProcView {
    /// A process at birth: an empty mailbox and nothing pending.
    pub open spec fn fresh(name: Seq<char>, sandbox: Sandbox) -> ProcView {
        ProcView {
            name,
            inbox: Seq::empty(),
            status: Status::Running,
            deadline: None,
            sandbox,
            recv_pending: false,
            sleep_pending: false,
            timed_out: false,
            ran_job: false,
            owed: None,
            place: Place::Starting,
        }
    }

    pub open spec fn set_status_unless_killed(self, status: Status) -> ProcView {
        ProcView { status: self.status.unless_killed(status), ..self }
    }

    /// Its script is being executed right now.
    pub open spec fn executing(self) -> bool {
        self.place is Starting || self.place is OnWorker
    }

    /// It rests until a deadline that has passed.
    pub open spec fn due(self, now: u64) -> bool {
        &&& self.place is Parked || self.place is Sleeping
        &&& self.deadline matches Some(d) && d <= now
    }

    /// What holds of every record at all times:
    /// - a parked process waits for a message and has none,
    /// - a process at rest until a deadline has that deadline,
    /// - a suspension that is still open is noted as pending, and `recv()` and
    ///   `sleep()` are never pending at the same time,
    /// - an expired `recv` is on its way to be told so,
    /// - a wake is owed only while a worker holds the process,
    /// - a waiting process is queued only to be told so, or to be given a
    ///   message that is there.
    pub open spec fn ok(self) -> bool {
        &&& self.place is Parked ==> self.status is Waiting && self.inbox.len() == 0
        &&& self.place is Sleeping ==> self.status is Sleeping
        &&& self.status is Sleeping ==> self.deadline is Some && self.sleep_pending
        &&& self.status is Waiting ==> self.recv_pending
        &&& !(self.recv_pending && self.sleep_pending)
        &&& self.owed is Some ==> self.place is OnWorker
        &&& self.place is Queued && self.status is Waiting && !self.timed_out ==> self.inbox.len()
            > 0
        &&& self.timed_out ==> {
            &&& self.place is Queued
            &&& self.status is Waiting || self.status is Killed
        }
    }
}

impl ProcShared {
    /// A process at birth: runnable, with an empty mailbox.
    pub fn new(pid: Pid, name: &str, sandbox: Sandbox) -> (r: ProcShared)
        ensures
            r.pid == pid,
            r@ == ProcView::fresh(name@, sandbox),
    {
        let r = ProcShared {
            pid,
            name: name.to_owned(),
            inbox_rx: VecDeque::new(),
            status: Status::Running,
            deadline: None,
            sandbox,
            recv_pending: false,
            sleep_pending: false,
            timed_out: false,
            ran_job: false,
            owed: None,
            place: Place::Starting,
        };
        assert(r@ =~= ProcView::fresh(name@, sandbox));
        r
    }

    /// Sets the status, except that an accepted kill stays.
    pub fn set_status_unless_killed(&mut self, status: Status)
        ensures
            final(self).pid == old(self).pid,
            final(self)@ == old(self)@.set_status_unless_killed(status),
    {
        match self.status {
            Status::Killed => {},
            _ => {
                self.status = status;
            },
        }
        assert(self@ =~= old(self)@.set_status_unless_killed(status));
    }

    /// Appends a message to the mailbox.
    pub fn push_message(&mut self, json: String)
        ensures
            final(self).pid == old(self).pid,
            final(self)@ == (ProcView { inbox: old(self)@.inbox.push(json@), ..old(self)@ }),
    {
        self.inbox_rx.push_back(json);
        assert(self@.inbox =~= old(self)@.inbox.push(json@));
    }

    /// Takes the oldest message out of the mailbox.
    pub fn pop_message(&mut self) -> (r: Option<String>)
        ensures
            final(self).pid == old(self).pid,
            match r {
                Some(json) => {
                    &&& old(self)@.inbox.len() > 0
                    &&& json@ == old(self)@.inbox[0]
                    &&& final(self)@ == (ProcView {
                        inbox: old(self)@.inbox.drop_first(),
                        ..old(self)@
                    })
                },
                None => old(self)@.inbox.len() == 0 && final(self)@ == old(self)@,
            },
    {
        let r = self.inbox_rx.pop_front();
        proof {
            if r is Some {
                assert(self@.inbox =~= old(self)@.inbox.drop_first());
            } else {
                assert(self@.inbox =~= old(self)@.inbox);
            }
        }
        r
    }
}

/// The class of an error that a host function raises in a script.
#[derive(Clone, Copy, Debug, PartialEq, Eq, Structural)]
pub enum ErrorClass {
    /// A bad argument.
    TypeError,
    /// An operation that the sandbox denies.
    PermissionError,
}

impl ErrorClass {
    pub open spec fn spec_as_str(self) -> Seq<char> {
        match self {
            ErrorClass::TypeError => "TypeError"@,
            ErrorClass::PermissionError => "PermissionError"@,
        }
    }

    /// The global class that a script finds the error under.
    pub fn as_str(self) -> (r: &'static str)
        ensures
            r@ == self.spec_as_str(),
    {
        match self {
            ErrorClass::TypeError => "TypeError",
            ErrorClass::PermissionError => "PermissionError",
        }
    }
}

/// An error to raise in the calling script.
#[derive(Debug)]
pub struct JsError {
    pub class: ErrorClass,
    pub message: String,
}

impl JsError {
    /// An error of a given class.
    pub fn new(class: ErrorClass, msg: &str) -> (r: JsError)
        ensures
            r.is(class, msg@),
    {
        JsError { class, message: msg.to_owned() }
    }

    /// A `TypeError`.
    pub fn type_error(msg: &str) -> (r: JsError)
        ensures
            r.is(ErrorClass::TypeError, msg@),
    {
        JsError::new(ErrorClass::TypeError, msg)
    }

    /// A `PermissionError`.
    pub fn permission(msg: &str) -> (r: JsError)
        ensures
            r.is(ErrorClass::PermissionError, msg@),
    {
        JsError::new(ErrorClass::PermissionError, msg)
    }

    /// Whether this is the error of the given class and message.
    pub open spec fn is(self, class: ErrorClass, message: Seq<char>) -> bool {
        self.class == class && self.message@ == message
    }
}

pub open spec fn spec_error_source(class: Seq<char>, literal: Option<Seq<char>>) -> Seq<char> {
    "new "@ + class + "("@ + (match literal {
        Some(l) => l,
        None => "\"error\""@,
    }) + ")"@
}

/// The script expression that constructs an error: `new Class(literal)`. The
/// literal is the message as a JSON string, and `"error"` where the engine
/// could not render it.
pub fn error_source(class: &str, literal: Option<String>) -> (r: String)
    ensures
        r@ == spec_error_source(class@, opt_text(literal)),
{
    let mut r = "new ".to_owned();
    r.append(class);
    r.append("(");
    match literal {
        Some(l) => r.append(l.as_str()),
        None => r.append("\"error\""),
    }
    r.append(")");
    r
}

/// What is reported of a value that a script threw: its rendering, or
/// `unknown error` where it was null or undefined, or could not be rendered.
pub fn error_report(is_nullish: bool, rendered: Option<String>) -> (r: String)
    ensures
        r@ == (match rendered {
            Some(text) => if is_nullish {
                "unknown error"@
            } else {
                text@
            },
            None => "unknown error"@,
        }),
{
    match rendered {
        Some(text) => if is_nullish {
            "unknown error".to_owned()
        } else {
            text
        },
        None => "unknown error".to_owned(),
    }
}

/// A script value as far as logging tells values apart.
pub enum Printable {
    /// `undefined`.
    Undefined,
    /// A string, by its characters.
    Text(String),
    /// Any other value: its JSON text, if it has one.
    Json(Option<String>),
}

pub open spec fn spec_render(v: Printable) -> Seq<char> {
    match v {
        Printable::Text(s) => s@,
        Printable::Json(Some(json)) => json@,
        _ => "undefined"@,
    }
}

/// How `console.log` renders one argument: strings verbatim, everything else
/// as JSON, and `undefined` where there is none.
pub fn render(v: &Printable) -> (r: String)
    ensures
        r@ == spec_render(*v),
{
    match v {
        Printable::Undefined => "undefined".to_owned(),
        Printable::Text(s) => s.clone(),
        Printable::Json(Some(json)) => json.clone(),
        Printable::Json(None) => "undefined".to_owned(),
    }
}

/// `[pid N] ` followed by `text`.
pub open spec fn pid_line(pid: Pid, text: Seq<char>) -> Seq<char> {
    "[pid "@ + decimal(pid as nat) + "] "@ + text
}

/// A line of output of a process.
pub fn pid_prefixed(pid: Pid, label: &str, text: &str) -> (r: String)
    ensures
        r@ == pid_line(pid, label@ + text@),
{
    let mut r = "[pid ".to_owned();
    r.append(decimal_text(pid).as_str());
    r.append("] ");
    r.append(label);
    r.append(text);
    assert(r@ =~= pid_line(pid, label@ + text@));
    r
}

/// The rendered arguments, separated by single spaces.
pub open spec fn joined(parts: Seq<Seq<char>>) -> Seq<char>
    decreases parts.len(),
{
    if parts.len() == 0 {
        Seq::empty()
    } else if parts.len() == 1 {
        parts[0]
    } else {
        joined(parts.drop_last()) + " "@ + parts.last()
    }
}

/// The line that `console.log(...)` prints.
pub fn console_line(pid: Pid, args: &Vec<Printable>) -> (r: String)
    ensures
        r@ == pid_line(pid, joined(args@.map_values(|v: Printable| spec_render(v)))),
{
    let ghost all = args@.map_values(|v: Printable| spec_render(v));
    let mut line = String::new();
    let mut i: usize = 0;
    while i < args.len()
        invariant
            i <= args.len(),
            all == args@.map_values(|v: Printable| spec_render(v)),
            line@ == joined(all.take(i as int)),
        decreases args.len() - i,
    {
        if i > 0 {
            line.append(" ");
        }
        line.append(render(&args[i]).as_str());
        proof {
            assert(all.take(i + 1).drop_last() =~= all.take(i as int));
            assert(all.take(i + 1).last() == spec_render(args@[i as int]));
        }
        i = i + 1;
    }
    proof {
        assert(all.take(args.len() as int) =~= all);
        reveal_strlit("");
        assert(""@ + line@ =~= line@);
    }
    pid_prefixed(pid, "", line.as_str())
}

} // verus!
