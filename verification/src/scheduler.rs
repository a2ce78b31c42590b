//! The scheduler: which process runs next, and where it goes when it gives up
//! its worker.
//!
//! Executing a script is left to the caller. A slice goes like this:
//! [`worker_step`] hands out a process and says how it is to be woken,
//! [`complete_wake`] records how that went, [`take_job`] grants the one job that
//! a slice may execute, and [`end_slice`] puts the process where it belongs.

use vstd::prelude::*;

use crate::model::{
    lemma_begun_wf, lemma_created_wf, lemma_enqueued_wf, lemma_enqueued_with_wf, lemma_finished_wf,
    lemma_finished_with_wf, lemma_popped_wf, lemma_stopped_wf, lemma_with_wf, lemma_without_wf,
    SettledView, SliceStartView, WorkerStepView, WorldView,
};
use crate::process::{
    pid_line, pid_prefixed, ErrorClass, JsError, Pid, Place, ProcShared, ProcView, Sandbox, Status,
    WakeKind,
};
use crate::queue::RunItem;
use crate::world::World;

verus! {

/// Where a process that gave up its worker went.
pub enum Settled {
    /// It is finished; its engine can be dropped.
    Gone,
    /// It waits for a message.
    Parked,
    /// It rests until its deadline.
    Asleep,
    /// It is on the run queue.
    Queued,
    /// A message was there already: hand it to the pending `recv()`, then call
    /// [`complete_park`].
    Message(String),
}

impl View for Settled {
    type V = SettledView;

    open spec fn view(&self) -> SettledView {
        match *self {
            Settled::Gone => SettledView::Gone,
            Settled::Parked => SettledView::Parked,
            Settled::Asleep => SettledView::Asleep,
            Settled::Queued => SettledView::Queued,
            Settled::Message(json) => SettledView::Message(json@),
        }
    }
}

/// How a slice begins.
pub enum SliceStart {
    /// The process was killed and is finished.
    Gone,
    /// There was nothing to wake it for; it is parked again.
    Parked,
    /// Resolve the pending `recv()` with this JSON text.
    Message(String),
    /// Reject the pending `recv(timeoutMs)` with a `TimeoutError`.
    Timeout,
    /// Resolve the pending `sleep()`.
    Sleep,
    /// Resolve the pending `yieldNow()`.
    Yield,
    /// Nothing to wake: go on to the next job.
    Run,
}

impl View for SliceStart {
    type V = SliceStartView;

    open spec fn view(&self) -> SliceStartView {
        match *self {
            SliceStart::Gone => SliceStartView::Gone,
            SliceStart::Parked => SliceStartView::Parked,
            SliceStart::Message(json) => SliceStartView::Message(json@),
            SliceStart::Timeout => SliceStartView::Timeout,
            SliceStart::Sleep => SliceStartView::Sleep,
            SliceStart::Yield => SliceStartView::Yield,
            SliceStart::Run => SliceStartView::Run,
        }
    }
}

/// What a worker does next.
pub enum WorkerStep {
    /// Leave the worker loop.
    Stop,
    /// Nothing is runnable: service the timers, then wait a little.
    Idle,
    /// Run a slice of a process.
    Slice(Pid, SliceStart),
}

impl View for WorkerStep {
    type V = WorkerStepView;

    open spec fn view(&self) -> WorkerStepView {
        match *self {
            WorkerStep::Stop => WorkerStepView::Stop,
            WorkerStep::Idle => WorkerStepView::Idle,
            WorkerStep::Slice(pid, start) => WorkerStepView::Slice(pid, start@),
        }
    }
}

/// How the attempt to wake a process ended.
pub enum WakeEnd {
    /// It runs again.
    Resumed,
    /// It is finished. The line is to be reported, unless the process was
    /// killed: those die silently.
    Dead(Option<String>),
}

/// Registers a new process, whose entry script is then to be evaluated. The
/// process is visible to every other one from here on, and can be sent
/// messages.
pub fn create_process(world: &mut World, name: &str, sandbox: Sandbox) -> (pid: Pid)
    requires
        old(world).wf(),
        old(world)@.next_pid < u64::MAX,
    ensures
        final(world).wf(),
        pid == old(world)@.next_pid,
        final(world)@ == old(world)@.created(name@, sandbox),
{
    let pid: Pid = world.allocate();
    world.put(ProcShared::new(pid, name, sandbox));
    proof {
        lemma_created_wf(old(world)@, name@, sandbox);
        assert(world@ =~= old(world)@.created(name@, sandbox));
    }
    pid
}

/// Registers a process that no script spawned: one from the command line or
/// from a control client. It is privileged.
pub fn create_root(world: &mut World, name: &str) -> (pid: Pid)
    requires
        old(world).wf(),
        old(world)@.next_pid < u64::MAX,
    ensures
        final(world).wf(),
        pid == old(world)@.next_pid,
        final(world)@ == old(world)@.created(name@, Sandbox::spec_privileged()),
{
    create_process(world, name, Sandbox::privileged())
}

/// Settles a spawn once the entry script of `pid` has been evaluated, or could
/// not be. In the second case the process is unregistered and the error is
/// passed on.
pub fn spawn_process(world: &mut World, pid: Pid, created: Result<(), String>) -> (r: Result<
    Settled,
    String,
>)
    requires
        old(world).wf(),
        old(world)@.starting(pid),
    ensures
        final(world).wf(),
        final(world)@ == old(world)@.settled(pid, created is Ok),
        match created {
            Ok(_) => r matches Ok(s) && s@ == old(world)@.spawned(pid).1,
            Err(e) => r == Err::<Settled, String>(e),
        },
{
    match created {
        Err(e) => {
            let _ = world.take(pid);
            proof {
                lemma_without_wf(old(world)@, pid);
            }
            Err(e)
        },
        Ok(_) => {
            proof {
                lemma_begun_wf(old(world)@, pid);
            }
            let mut p = world.take(pid);
            let status = p.status;
            p.place = Place::OnWorker;
            world.put(p);
            world.count_started();
            assert(world@ =~= old(world)@.begun(pid));
            match status {
                Status::Waiting => Ok(park(world, pid)),
                Status::Sleeping => Ok(rest(world, pid)),
                _ => {
                    enqueue(world, pid);
                    Ok(Settled::Queued)
                },
            }
        },
    }
}

/// Parks a waiting process, unless a message is there for it already: then the
/// oldest one is taken out and returned.
pub fn park(world: &mut World, pid: Pid) -> (r: Settled)
    requires
        old(world).wf(),
        old(world)@.in_slice(pid),
        old(world)@.processes[pid].status is Waiting,
    ensures
        final(world).wf(),
        (final(world)@, r@) == old(world)@.parked(pid),
{
    let mut p = world.take(pid);
    let ghost p0 = p@;
    match p.pop_message() {
        Some(json) => {
            p.owed = Some(WakeKind::Message);
            world.put(p);
            proof {
                let p1 = ProcView {
                    inbox: p0.inbox.drop_first(),
                    owed: Some(WakeKind::Message),
                    ..p0
                };
                lemma_with_wf(old(world)@, pid, p1);
                assert(world@ =~= old(world)@.with(pid, p1));
            }
            Settled::Message(json)
        },
        None => {
            p.place = Place::Parked;
            world.put(p);
            proof {
                let p1 = ProcView { place: Place::Parked, ..p0 };
                lemma_with_wf(old(world)@, pid, p1);
                assert(world@ =~= old(world)@.with(pid, p1));
            }
            Settled::Parked
        },
    }
}

/// Puts a sleeping process to rest until its deadline.
fn rest(world: &mut World, pid: Pid) -> (r: Settled)
    requires
        old(world).wf(),
        old(world)@.in_slice(pid),
        old(world)@.processes[pid].status is Sleeping,
    ensures
        final(world).wf(),
        (final(world)@, r@) == old(world)@.asleep(pid),
{
    let mut p = world.take(pid);
    let ghost p0 = p@;
    p.place = Place::Sleeping;
    world.put(p);
    proof {
        let p1 = ProcView { place: Place::Sleeping, ..p0 };
        lemma_with_wf(old(world)@, pid, p1);
        assert(world@ =~= old(world)@.with(pid, p1));
    }
    Settled::Asleep
}

/// Puts a process at the back of the run queue.
fn enqueue(world: &mut World, pid: Pid)
    requires
        old(world).wf(),
        old(world)@.alive(pid),
        !(old(world)@.processes[pid].place is Queued),
        !(old(world)@.processes[pid].place is Starting),
        !(old(world)@.processes[pid].status is Waiting),
        old(world)@.processes[pid].owed is None,
    ensures
        final(world).wf(),
        final(world)@ == old(world)@.enqueued(pid),
{
    proof {
        lemma_enqueued_wf(old(world)@, pid);
    }
    let mut p = world.take(pid);
    p.place = Place::Queued;
    world.put(p);
    world.push(RunItem::Process(pid));
    assert(world@ =~= old(world)@.enqueued(pid));
}

/// Unregisters a finished process and counts it.
fn finish(world: &mut World, pid: Pid)
    requires
        old(world).wf(),
        old(world)@.alive(pid),
        !(old(world)@.processes[pid].place is Queued),
        !(old(world)@.processes[pid].place is Starting),
    ensures
        final(world).wf(),
        final(world)@ == old(world)@.finished(pid),
{
    proof {
        lemma_finished_wf(old(world)@, pid);
    }
    let p = world.take(pid);
    let failed = match p.status {
        Status::Failed => true,
        _ => false,
    };
    world.count_finished(failed);
    assert(world@ =~= old(world)@.finished(pid));
}

/// Ends a process that could not be woken. Returns the line to report, unless
/// the process was killed.
fn fail(world: &mut World, pid: Pid, msg: &str) -> (r: Option<String>)
    requires
        old(world).wf(),
        old(world)@.on_worker(pid),
    ensures
        final(world).wf(),
        final(world)@ == old(world)@.ended_by_failure(pid),
        r is None <==> old(world)@.processes[pid].status is Killed,
        r matches Some(line) ==> line@ == pid_line(pid, "error: "@ + msg@),
{
    let mut p = world.take(pid);
    let ghost p1 = p@.set_status_unless_killed(Status::Failed);
    let silent = match p.status {
        Status::Killed => true,
        _ => false,
    };
    p.set_status_unless_killed(Status::Failed);
    world.put(p);
    proof {
        lemma_with_wf(old(world)@, pid, p1);
        assert(world@ =~= old(world)@.with(pid, p1));
    }
    finish(world, pid);
    if silent {
        None
    } else {
        Some(pid_prefixed(pid, "error: ", msg))
    }
}

/// Takes the next entry off the run queue. A process there begins its slice: a
/// killed one is reaped, a suspended one is to be woken, one that was queued
/// for nothing is parked again.
pub fn worker_step(world: &mut World) -> (r: WorkerStep)
    requires
        old(world).wf(),
    ensures
        final(world).wf(),
        (final(world)@, r@) == old(world)@.worker_stepped(),
{
    proof {
        if old(world)@.queue.len() > 0 {
            lemma_popped_wf(old(world)@);
        }
    }
    match world.pop() {
        None => WorkerStep::Idle,
        Some(RunItem::Stop) => WorkerStep::Stop,
        Some(RunItem::Process(pid)) => {
            let mut p = world.take(pid);
            let expired = p.timed_out;
            p.timed_out = false;
            p.ran_job = false;
            p.place = Place::OnWorker;
            world.put(p);
            assert(world@ =~= old(world)@.popped());
            WorkerStep::Slice(pid, begin_slice(world, pid, expired))
        },
    }
}

/// Begins a slice of a process that a worker holds.
fn begin_slice(world: &mut World, pid: Pid, expired: bool) -> (r: SliceStart)
    requires
        old(world).wf(),
        old(world)@.in_slice(pid),
    ensures
        final(world).wf(),
        (final(world)@, r@) == old(world)@.slice_started(pid, expired),
{
    let status = match world.record(pid) {
        Some(p) => p.status,
        None => Status::Running,
    };
    match status {
        Status::Killed => {
            finish(world, pid);
            SliceStart::Gone
        },
        Status::Waiting => {
            if expired {
                owe(world, pid, WakeKind::Timeout);
                SliceStart::Timeout
            } else {
                match park(world, pid) {
                    Settled::Message(json) => SliceStart::Message(json),
                    _ => SliceStart::Parked,
                }
            }
        },
        Status::Sleeping => {
            owe(world, pid, WakeKind::Sleep);
            SliceStart::Sleep
        },
        Status::Yielding => {
            owe(world, pid, WakeKind::Yield);
            SliceStart::Yield
        },
        _ => SliceStart::Run,
    }
}

/// Notes that the script of a process is owed a wake.
fn owe(world: &mut World, pid: Pid, kind: WakeKind)
    requires
        old(world).wf(),
        old(world)@.on_worker(pid),
    ensures
        final(world).wf(),
        final(world)@ == old(world)@.owing(pid, kind),
{
    let mut p = world.take(pid);
    let ghost p1 = ProcView { owed: Some(kind), ..p@ };
    p.owed = Some(kind);
    assert(p@ =~= p1);
    world.put(p);
    proof {
        lemma_with_wf(old(world)@, pid, p1);
        assert(world@ =~= old(world)@.with(pid, p1));
    }
}

/// The wake that the script of `pid` is owed, if there is one.
pub fn owed_wake(world: &World, pid: Pid) -> (r: Option<WakeKind>)
    requires
        world.wf(),
    ensures
        match r {
            Some(kind) => world@.owes(pid, kind),
            None => forall|kind: WakeKind| !#[trigger] world@.owes(pid, kind),
        },
{
    match world.record(pid) {
        Some(p) => p.owed,
        None => None,
    }
}

pub open spec fn wake_failure(kind: WakeKind) -> Seq<char> {
    match kind {
        WakeKind::Message => "failed to deliver message"@,
        WakeKind::Timeout => "failed to deliver timeout"@,
        WakeKind::Sleep => "failed to resume after sleep"@,
        WakeKind::Yield => "failed to resume after yield"@,
    }
}

/// Whether `r` is the answer to a wake of `pid` that did or did not succeed.
pub open spec fn is_wake_end(r: WakeEnd, w: WorldView, pid: Pid, kind: WakeKind, ok: bool) -> bool {
    match r {
        WakeEnd::Resumed => ok,
        WakeEnd::Dead(None) => !ok && w.processes[pid].status is Killed,
        WakeEnd::Dead(Some(line)) => {
            &&& !ok
            &&& !(w.processes[pid].status is Killed)
            &&& line@ == pid_line(pid, "error: "@ + wake_failure(kind))
        },
    }
}

/// Records how the engine took a wake. A process that was woken runs, unless
/// it was killed meanwhile, and has no deadline any more; one that could not be
/// woken is ended.
pub fn complete_wake(world: &mut World, pid: Pid, kind: WakeKind, ok: bool) -> (r: WakeEnd)
    requires
        old(world).wf(),
        old(world)@.owes(pid, kind),
    ensures
        final(world).wf(),
        is_wake_end(r, old(world)@, pid, kind, ok),
        final(world)@ == old(world)@.woken(pid, kind, ok),
{
    if !ok {
        let msg = match kind {
            WakeKind::Message => "failed to deliver message",
            WakeKind::Timeout => "failed to deliver timeout",
            WakeKind::Sleep => "failed to resume after sleep",
            WakeKind::Yield => "failed to resume after yield",
        };
        return WakeEnd::Dead(fail(world, pid, msg));
    }
    let mut p = world.take(pid);
    let ghost p1 = p@.resumed(kind);
    match kind {
        WakeKind::Message | WakeKind::Timeout => {
            p.recv_pending = false;
            p.deadline = None;
        },
        WakeKind::Sleep => {
            p.sleep_pending = false;
            p.deadline = None;
        },
        WakeKind::Yield => {},
    }
    p.owed = None;
    p.set_status_unless_killed(Status::Running);
    assert(p@ =~= p1);
    world.put(p);
    proof {
        lemma_with_wf(old(world)@, pid, p1);
        assert(world@ =~= old(world)@.with(pid, p1));
    }
    WakeEnd::Resumed
}

/// Records how the engine took a message that was there when its process was
/// about to be parked. A process that was woken goes to the run queue.
pub fn complete_park(world: &mut World, pid: Pid, ok: bool) -> (r: WakeEnd)
    requires
        old(world).wf(),
        old(world)@.owes(pid, WakeKind::Message),
    ensures
        final(world).wf(),
        is_wake_end(r, old(world)@, pid, WakeKind::Message, ok),
        final(world)@ == old(world)@.unparked(pid, ok),
{
    let r = complete_wake(world, pid, WakeKind::Message, ok);
    if ok {
        enqueue(world, pid);
    }
    r
}

/// Asks for the job of the slice that `pid` is in, and says whether it may be
/// executed: only if a worker holds the process, its script is owed no wake, it
/// is neither done nor failed nor killed, and the slice has had no job yet.
pub fn take_job(world: &mut World, pid: Pid) -> (r: bool)
    requires
        old(world).wf(),
    ensures
        final(world).wf(),
        r == old(world)@.grants_job(pid),
        final(world)@ == old(world)@.job_asked(pid),
{
    let granted = match world.record(pid) {
        Some(p) => {
            let held = match p.place {
                Place::OnWorker => true,
                _ => false,
            };
            held && p.owed.is_none() && !p.status.is_terminal() && !p.ran_job
        },
        None => false,
    };
    if granted {
        let mut p = world.take(pid);
        let ghost p1 = ProcView { ran_job: true, ..p@ };
        p.ran_job = true;
        assert(p@ =~= p1);
        world.put(p);
        proof {
            lemma_with_wf(old(world)@, pid, p1);
            assert(world@ =~= old(world)@.with(pid, p1));
        }
    }
    granted
}

/// Marks the process failed whose script raised an error that nothing caught.
/// Returns the line to report, unless the process was killed: those die
/// silently.
fn mark_failed(world: &mut World, pid: Pid, label: &str, msg: &str) -> (r: Option<String>)
    requires
        old(world).wf(),
        old(world)@.executing(pid),
    ensures
        final(world).wf(),
        final(world)@ == old(world)@.marked(pid, Status::Failed),
        r is None <==> old(world)@.processes[pid].status is Killed,
        r matches Some(line) ==> line@ == pid_line(pid, label@ + msg@),
{
    let mut p = world.take(pid);
    let ghost p1 = p@.set_status_unless_killed(Status::Failed);
    let silent = match p.status {
        Status::Killed => true,
        _ => false,
    };
    p.set_status_unless_killed(Status::Failed);
    world.put(p);
    proof {
        lemma_with_wf(old(world)@, pid, p1);
        assert(world@ =~= old(world)@.with(pid, p1));
    }
    if silent {
        None
    } else {
        Some(pid_prefixed(pid, label, msg))
    }
}

/// A job of `pid` raised an exception.
pub fn job_failed(world: &mut World, pid: Pid, msg: &str) -> (r: Option<String>)
    requires
        old(world).wf(),
        old(world)@.executing(pid),
    ensures
        final(world).wf(),
        final(world)@ == old(world)@.marked(pid, Status::Failed),
        r is None <==> old(world)@.processes[pid].status is Killed,
        r matches Some(line) ==> line@ == pid_line(pid, "unhandled exception: "@ + msg@),
{
    mark_failed(world, pid, "unhandled exception: ", msg)
}

/// The entry script of `pid` was rejected with an error.
pub fn entry_failed(world: &mut World, pid: Pid, msg: &str) -> (r: Option<String>)
    requires
        old(world).wf(),
        old(world)@.executing(pid),
    ensures
        final(world).wf(),
        final(world)@ == old(world)@.marked(pid, Status::Failed),
        r is None <==> old(world)@.processes[pid].status is Killed,
        r matches Some(line) ==> line@ == pid_line(pid, "error: "@ + msg@),
{
    mark_failed(world, pid, "error: ", msg)
}

/// The entry script of `pid` ran to its end.
pub fn entry_done(world: &mut World, pid: Pid)
    requires
        old(world).wf(),
        old(world)@.executing(pid),
    ensures
        final(world).wf(),
        final(world)@ == old(world)@.marked(pid, Status::Done),
{
    let mut p = world.take(pid);
    let ghost p1 = p@.set_status_unless_killed(Status::Done);
    p.set_status_unless_killed(Status::Done);
    world.put(p);
    proof {
        lemma_with_wf(old(world)@, pid, p1);
        assert(world@ =~= old(world)@.with(pid, p1));
    }
}

/// Ends a slice: the process is finished, parked, put to sleep or queued again,
/// by its status. `job_pending` says whether its engine has a job left.
pub fn end_slice(world: &mut World, pid: Pid, job_pending: bool) -> (r: Settled)
    requires
        old(world).wf(),
        old(world)@.in_slice(pid),
    ensures
        final(world).wf(),
        (final(world)@, r@) == old(world)@.slice_ended(pid, job_pending),
{
    let status = match world.record(pid) {
        Some(p) => p.status,
        None => Status::Done,
    };
    match status {
        Status::Done | Status::Failed | Status::Killed => {
            finish(world, pid);
            Settled::Gone
        },
        Status::Waiting => park(world, pid),
        Status::Sleeping => rest(world, pid),
        Status::Yielding => {
            enqueue(world, pid);
            Settled::Queued
        },
        Status::Running => {
            if job_pending {
                enqueue(world, pid);
                Settled::Queued
            } else {
                finish(world, pid);
                Settled::Gone
            }
        },
    }
}

/// Tells `n` workers to stop.
pub fn stop_workers(world: &mut World, n: usize)
    requires
        old(world).wf(),
    ensures
        final(world).wf(),
        final(world)@ == old(world)@.stopped(n as nat),
{
    let mut i: usize = 0;
    assert(world@ =~= old(world)@.stopped(0));
    while i < n
        invariant
            i <= n,
            world.consistent(),
            world@ == old(world)@.stopped(i as nat),
        decreases n - i,
    {
        world.push(RunItem::Stop);
        i = i + 1;
        assert(world@ =~= old(world)@.stopped(i as nat));
    }
    proof {
        lemma_stopped_wf(old(world)@, n as nat);
    }
}

/// Delivers a JSON text to the mailbox of `pid`. There is no such process: the
/// message is dropped. It is parked: it goes to the run queue, where the
/// message awaits it.
pub fn deliver_json_string(world: &mut World, pid: Pid, json: String)
    requires
        old(world).wf(),
    ensures
        final(world).wf(),
        final(world)@ == old(world)@.delivered(pid, json@),
{
    let ghost text = json@;
    if !is_process_alive(world, pid) {
        return;
    }
    let mut p = world.take(pid);
    let ghost p0 = p@;
    let ghost p1 = ProcView { inbox: p0.inbox.push(text), ..p0 };
    p.push_message(json);
    match p.place {
        Place::Parked => {
            p.place = Place::Queued;
            world.put(p);
            world.push(RunItem::Process(pid));
            proof {
                lemma_enqueued_with_wf(old(world)@, pid, p1);
                assert(world@ =~= old(world)@.with(pid, p1).enqueued(pid));
            }
        },
        _ => {
            world.put(p);
            proof {
                lemma_with_wf(old(world)@, pid, p1);
                assert(world@ =~= old(world)@.with(pid, p1));
            }
        },
    }
}

/// A script value as far as message passing tells values apart.
pub enum Payload {
    /// `undefined`.
    Undefined,
    /// A function.
    Function,
    /// A symbol.
    Symbol,
    /// Any other value: its JSON text, if it has one.
    Json(Option<String>),
}

impl Payload {
    /// The text that travels, if the value can travel at all.
    pub open spec fn text(self) -> Option<Seq<char>> {
        match self {
            Payload::Json(Some(json)) => Some(json@),
            _ => None,
        }
    }
}

/// `send(pid, value)`: delivers the value, or refuses one that has no JSON
/// text.
pub fn send_message(world: &mut World, pid: Pid, value: Payload) -> (r: Result<(), JsError>)
    requires
        old(world).wf(),
    ensures
        final(world).wf(),
        match value.text() {
            Some(json) => r is Ok && final(world)@ == old(world)@.delivered(pid, json),
            None => {
                &&& final(world)@ == old(world)@
                &&& r matches Err(e) && e.is(
                    ErrorClass::TypeError,
                    "value is not message-serializable"@,
                )
            },
        },
{
    match value {
        Payload::Json(Some(json)) => {
            deliver_json_string(world, pid, json);
            Ok(())
        },
        _ => Err(JsError::type_error("value is not message-serializable")),
    }
}

/// Requests the termination of `pid` and says whether it was live. A process
/// at rest is reaped at once, any other one at its next scheduling boundary.
pub fn kill_process(world: &mut World, pid: Pid) -> (r: bool)
    requires
        old(world).wf(),
    ensures
        final(world).wf(),
        r == old(world)@.alive(pid),
        final(world)@ == old(world)@.killed(pid),
{
    if !is_process_alive(world, pid) {
        return false;
    }
    let mut p = world.take(pid);
    let ghost p0 = p@;
    let ghost p1 = ProcView { status: Status::Killed, ..p0 };
    p.status = Status::Killed;
    match p.place {
        Place::Parked | Place::Sleeping => {
            proof {
                lemma_finished_with_wf(old(world)@, pid, p1);
            }
            world.count_finished(false);
            assert(world@ =~= old(world)@.with(pid, p1).finished(pid));
        },
        _ => {
            world.put(p);
            proof {
                lemma_with_wf(old(world)@, pid, p1);
                assert(world@ =~= old(world)@.with(pid, p1));
            }
        },
    }
    true
}

/// Whether `pid` is a live process.
pub fn is_process_alive(world: &World, pid: Pid) -> (r: bool)
    requires
        world.consistent(),
    ensures
        r == world@.alive(pid),
{
    world.record(pid).is_some()
}

/// Who holds `pid`, if it is alive.
pub fn place_of(world: &World, pid: Pid) -> (r: Option<Place>)
    requires
        world.wf(),
    ensures
        r == if world@.alive(pid) {
            Some(world@.processes[pid].place)
        } else {
            None
        },
{
    match world.record(pid) {
        Some(p) => Some(p.place),
        None => None,
    }
}

/// The number of live processes.
pub fn process_count(world: &World) -> (r: usize)
    requires
        world.wf(),
    ensures
        r == world@.processes.dom().len(),
{
    world.process_count()
}

/// What is told about a live process: its pid, its name and its status.
pub open spec fn is_info(info: (Pid, String, &'static str), w: WorldView) -> bool {
    &&& w.alive(info.0)
    &&& info.1@ == w.processes[info.0].name
    &&& info.2@ == w.processes[info.0].status.spec_as_str()
}

/// Pid, name and status of a live process.
pub fn process_info(world: &World, pid: Pid) -> (r: Option<(Pid, String, &'static str)>)
    requires
        world.wf(),
    ensures
        match r {
            Some(info) => info.0 == pid && is_info(info, world@),
            None => !world@.alive(pid),
        },
{
    match world.record(pid) {
        Some(p) => Some((pid, p.name.clone(), p.status.as_str())),
        None => None,
    }
}

/// Whether `l` tells about every live process once, in increasing order of
/// pid, and about no other.
pub open spec fn is_listing(l: Seq<(Pid, String, &'static str)>, w: WorldView) -> bool {
    &&& l.len() == w.processes.dom().len()
    &&& forall|i: int| 0 <= i < l.len() ==> is_info(#[trigger] l[i], w)
    &&& forall|i: int, j: int| 0 <= i < j < l.len() ==> (#[trigger] l[i]).0 < (#[trigger] l[j]).0
    &&& forall|pid: Pid| #[trigger]
        w.alive(pid) ==> exists|i: int| 0 <= i < l.len() && (#[trigger] l[i]).0 == pid
}

/// Pid, name and status of every live process, in increasing order of pid.
pub fn list_processes(world: &World) -> (r: Vec<(Pid, String, &'static str)>)
    requires
        world.wf(),
    ensures
        is_listing(r@, world@),
{
    let pids = world.pids();
    let mut out: Vec<(Pid, String, &'static str)> = Vec::new();
    let mut i: usize = 0;
    while i < pids.len()
        invariant
            world.wf(),
            i <= pids.len(),
            out.len() == i,
            forall|j: int| 0 <= j < pids.len() ==> world@.alive(#[trigger] pids[j]),
            forall|j: int| 0 <= j < i ==> is_info(#[trigger] out[j], world@) && out[j].0 == pids[j],
        decreases pids.len() - i,
    {
        match process_info(world, pids[i]) {
            Some(info) => out.push(info),
            None => {},
        }
        i = i + 1;
    }
    proof {
        assert forall|pid: Pid| #[trigger] world@.alive(pid) implies exists|k: int|
            0 <= k < out.len() && (#[trigger] out[k]).0 == pid by {
            assert(pids@.contains(pid));
            let k = pids@.index_of(pid);
            assert(out[k].0 == pid);
        }
        assert forall|pid: Pid| world@.processes.dom().contains(pid) implies pids@.to_set().contains(
            pid,
        ) by {
            assert(world@.alive(pid));
        }
        assert(pids@.to_set() =~= world@.processes.dom());
        assert(pids@.no_duplicates());
        pids@.unique_seq_to_set();
    }
    out
}

/// Renames a process. Does nothing if there is no such process.
pub fn set_process_name(world: &mut World, pid: Pid, name: String)
    requires
        old(world).wf(),
    ensures
        final(world).wf(),
        final(world)@ == old(world)@.renamed(pid, name@),
{
    if !is_process_alive(world, pid) {
        return;
    }
    let mut p = world.take(pid);
    let ghost p1 = ProcView { name: name@, ..p@ };
    p.name = name;
    assert(p@ =~= p1);
    world.put(p);
    proof {
        lemma_with_wf(old(world)@, pid, p1);
        assert(world@ =~= old(world)@.with(pid, p1));
    }
}

/// The process whose deadline passed first, if there is one.
fn next_due(world: &World, now: u64) -> (r: Option<Pid>)
    requires
        world.wf(),
    ensures
        match r {
            Some(pid) => {
                &&& world@.due(pid, now)
                &&& forall|q: Pid| #[trigger]
                    world@.due(q, now) && q != pid ==> world@.sooner(pid, q)
            },
            None => forall|q: Pid| !#[trigger] world@.due(q, now),
        },
{
    let pids = world.pids();
    let mut best: Option<(Pid, u128)> = None;
    let mut i: usize = 0;
    while i < pids.len()
        invariant
            world.wf(),
            i <= pids.len(),
            forall|j: int, k: int| 0 <= j < k < pids.len() ==> pids[j] < pids[k],
            match best {
                Some((pid, d)) => {
                    &&& world@.due(pid, now)
                    &&& world@.processes[pid].deadline == Some(d)
                    &&& pids@.take(i as int).contains(pid)
                    &&& forall|j: int|
                        0 <= j < i && #[trigger] world@.due(pids[j], now) && pids[j] != pid
                            ==> world@.sooner(pid, pids[j])
                },
                None => forall|j: int| 0 <= j < i ==> !#[trigger] world@.due(pids[j], now),
            },
        decreases pids.len() - i,
    {
        let pid = pids[i];
        let ghost best0 = best;
        match world.record(pid) {
            Some(p) => {
                let resting = match p.place {
                    Place::Parked | Place::Sleeping => true,
                    _ => false,
                };
                match p.deadline {
                    Some(d) => {
                        if resting && d <= (now as u128) {
                            let earlier = match best {
                                Some((_, e)) => d < e,
                                None => true,
                            };
                            if earlier {
                                best = Some((pid, d));
                            }
                        }
                    },
                    None => {},
                }
            },
            None => {},
        }
        proof {
            assert(pids@.take(i + 1) =~= pids@.take(i as int).push(pid));
            assert(pids@.take(i + 1)[i as int] == pid);
            if let Some((b, e)) = best0 {
                let k = pids@.take(i as int).index_of(b);
                assert(pids@[k] == b);
                assert(pids@.take(i + 1)[k] == b);
                assert(b < pid);
            }
        }
        i = i + 1;
    }
    proof {
        assert forall|q: Pid| #[trigger] world@.due(q, now) implies exists|j: int|
            0 <= j < pids.len() && #[trigger] pids[j] == q by {
            assert(world@.alive(q));
            let j = pids@.index_of(q);
            assert(pids[j] == q);
        }
    }
    match best {
        Some((pid, _)) => Some(pid),
        None => None,
    }
}

/// Distinct live processes are no more than there are live processes.
proof fn lemma_fired_within(w: WorldView, pids: Seq<Pid>)
    requires
        w.processes.dom().finite(),
        forall|i: int| 0 <= i < pids.len() ==> w.alive(#[trigger] pids[i]),
        forall|i: int, j: int|
            0 <= i < j < pids.len() ==> w.sooner(#[trigger] pids[i], #[trigger] pids[j]),
    ensures
        pids.len() <= w.processes.dom().len(),
{
    assert(pids.no_duplicates());
    pids.unique_seq_to_set();
    assert(pids.to_set().subset_of(w.processes.dom()));
    vstd::set_lib::lemma_len_subset(pids.to_set(), w.processes.dom());
}

/// Sends every resting process whose deadline has passed to the run queue,
/// earliest deadline first, and returns them in that order.
pub fn fire_timers(world: &mut World, now: u64) -> (r: Vec<Pid>)
    requires
        old(world).wf(),
    ensures
        final(world).wf(),
        old(world)@.all_due(r@, now),
        final(world)@ == old(world)@.all_fired(r@),
{
    let mut fired: Vec<Pid> = Vec::new();
    let ghost w0 = world@;
    let mut more = true;
    while more
        invariant
            w0 == old(world)@,
            w0.wf(),
            world.wf(),
            world@ == w0.all_fired(fired@),
            forall|q: Pid| #[trigger] fired@.contains(q) ==> w0.due(q, now),
            forall|q: Pid| #[trigger]
                world@.due(q, now) <==> w0.due(q, now) && !fired@.contains(q),
            forall|q: Pid| #[trigger]
                world@.due(q, now) ==> world@.processes[q].deadline == w0.processes[q].deadline,
            forall|i: int, j: int|
                0 <= i < j < fired.len() ==> w0.sooner(#[trigger] fired[i], #[trigger] fired[j]),
            forall|i: int, q: Pid|
                0 <= i < fired.len() && #[trigger] world@.due(q, now) ==> w0.sooner(
                    #[trigger] fired[i],
                    q,
                ),
            !more ==> forall|q: Pid| !#[trigger] world@.due(q, now),
            fired.len() <= w0.processes.dom().len(),
        decreases w0.processes.dom().len() - fired.len() + (if more { 1int } else { 0int }),
    {
        match next_due(world, now) {
            None => {
                more = false;
            },
            Some(pid) => {
                let ghost w1 = world@;
                let ghost f1 = fired@;
                let mut p = world.take(pid);
                let ghost p0 = p@;
                let ghost p1 = ProcView { timed_out: p0.place is Parked, ..p0 };
                match p.place {
                    Place::Parked => {
                        p.timed_out = true;
                    },
                    _ => {
                        p.timed_out = false;
                    },
                }
                p.place = Place::Queued;
                world.put(p);
                world.push(RunItem::Process(pid));
                fired.push(pid);
                proof {
                    lemma_enqueued_with_wf(w1, pid, p1);
                    assert(world@ =~= w1.fired(pid));
                    assert(fired@.drop_last() =~= f1);
                    assert(w1.due(pid, now));
                    assert forall|q: Pid| #[trigger] fired@.contains(q) implies w0.due(q, now) by {
                        if q != pid {
                            let i = fired@.index_of(q);
                            assert(f1[i] == q);
                            assert(f1.contains(q));
                        }
                    }
                    assert forall|q: Pid| #[trigger]
                        world@.due(q, now) implies world@.processes[q].deadline
                        == w0.processes[q].deadline by {
                        assert(w1.due(q, now));
                    }
                    assert forall|q: Pid| #[trigger] world@.due(q, now) <==> w0.due(q, now)
                        && !fired@.contains(q) by {
                        assert(fired@[f1.len() as int] == pid);
                        if q != pid {
                            assert(world@.due(q, now) <==> w1.due(q, now));
                            if fired@.contains(q) {
                                let i = fired@.index_of(q);
                                assert(f1[i] == q);
                            }
                            if f1.contains(q) {
                                let i = f1.index_of(q);
                                assert(fired@[i] == q);
                            }
                        }
                    }
                    assert forall|i: int, j: int| 0 <= i < j < fired.len() implies w0.sooner(
                        #[trigger] fired[i],
                        #[trigger] fired[j],
                    ) by {
                        assert(fired[i] == f1[i]);
                        if j < f1.len() {
                            assert(fired[j] == f1[j]);
                        } else {
                            assert(w1.due(pid, now));
                        }
                    }
                    assert forall|i: int, q: Pid|
                        0 <= i < fired.len() && #[trigger] world@.due(q, now) implies w0.sooner(
                        #[trigger] fired[i],
                        q,
                    ) by {
                        assert(w1.due(q, now));
                        if i < f1.len() {
                            assert(fired[i] == f1[i]);
                        } else {
                            assert(w1.sooner(pid, q));
                        }
                    }
                    assert forall|i: int| 0 <= i < fired@.len() implies w0.alive(
                        #[trigger] fired@[i],
                    ) by {
                        assert(fired@.contains(fired@[i]));
                    }
                    lemma_fired_within(w0, fired@);
                }
            },
        }
    }
    proof {
        assert forall|q: Pid| w0.due(q, now) implies #[trigger] fired@.contains(q) by {
            assert(!world@.due(q, now));
        }
    }
    fired
}

} // verus!
