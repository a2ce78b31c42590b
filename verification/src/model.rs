//! The mathematical model of the runtime: its state, what always holds of it,
//! and the steps that it takes.

use vstd::prelude::*;

use crate::process::{Pid, Place, ProcView, Sandbox, Status, WakeKind};
use crate::queue::RunItem;

verus! {

/// The state of the runtime.
#[verifier::ext_equal]
pub struct WorldView {
    /// Every live process.
    pub processes: Map<Pid, ProcView>,
    /// The run queue, next entry first.
    pub queue: Seq<RunItem>,
    /// The next pid to hand out. All smaller ones have been handed out.
    pub next_pid: nat,
    /// How many processes have been started and have not finished.
    pub active: nat,
    /// How many processes have failed.
    pub failed: nat,
}

/// Where a process that gave up its worker went.
#[verifier::ext_equal]
pub enum SettledView {
    Gone,
    Parked,
    Asleep,
    Queued,
    Message(Seq<char>),
}

/// How a slice begins.
#[verifier::ext_equal]
pub enum SliceStartView {
    Gone,
    Parked,
    Message(Seq<char>),
    Timeout,
    Sleep,
    Yield,
    Run,
}

impl SliceStartView {
    /// The kind of wake that the start of a slice calls for.
    pub open spec fn wake_kind(self) -> Option<WakeKind> {
        match self {
            SliceStartView::Message(_) => Some(WakeKind::Message),
            SliceStartView::Timeout => Some(WakeKind::Timeout),
            SliceStartView::Sleep => Some(WakeKind::Sleep),
            SliceStartView::Yield => Some(WakeKind::Yield),
            _ => None,
        }
    }
}

/// What a worker does next.
#[verifier::ext_equal]
pub enum WorkerStepView {
    Stop,
    Idle,
    Slice(Pid, SliceStartView),
}

/// Nanoseconds in a millisecond.
pub const NANOS_PER_MILLI: u128 = 1_000_000;

/// The moment `ms` milliseconds after `now`.
pub open spec fn spec_deadline(now: u64, ms: u64) -> u128 {
    (now + ms * NANOS_PER_MILLI) as u128
}

impl ProcView {
    /// The record once a suspension of the given kind has been answered.
    pub open spec fn resumed(self, kind: WakeKind) -> ProcView {
        ProcView {
            recv_pending: self.recv_pending && !(kind is Message || kind is Timeout),
            sleep_pending: self.sleep_pending && !(kind is Sleep),
            deadline: if kind is Yield {
                self.deadline
            } else {
                None
            },
            status: self.status.unless_killed(Status::Running),
            owed: None,
            ..self
        }
    }
}

impl WorldView {
    /// A world in which nothing has happened yet.
    pub open spec fn empty() -> WorldView {
        WorldView {
            processes: Map::empty(),
            queue: Seq::empty(),
            next_pid: 0,
            active: 0,
            failed: 0,
        }
    }

    /// Whether `pid` is registered as a live process.
    pub open spec fn alive(self, pid: Pid) -> bool {
        self.processes.contains_key(pid)
    }

    /// Whether the script of `pid` is being executed right now.
    pub open spec fn executing(self, pid: Pid) -> bool {
        self.alive(pid) && self.processes[pid].executing()
    }

    /// Whether the entry script of `pid` is being evaluated.
    pub open spec fn starting(self, pid: Pid) -> bool {
        self.alive(pid) && self.processes[pid].place is Starting
    }

    /// Whether a worker holds `pid`.
    pub open spec fn on_worker(self, pid: Pid) -> bool {
        self.alive(pid) && self.processes[pid].place is OnWorker
    }

    /// The live processes whose entry script has been evaluated.
    pub open spec fn started(self) -> Set<Pid> {
        Set::new(|pid: Pid| self.alive(pid) && !(self.processes[pid].place is Starting))
    }

    /// Each process is on the run queue at most once, and exactly if its
    /// record says so.
    pub open spec fn queue_ok(self) -> bool {
        &&& forall|i: int|
            #![trigger self.queue[i]]
            0 <= i < self.queue.len() ==> (self.queue[i] matches RunItem::Process(pid)
                ==> self.alive(pid) && self.processes[pid].place is Queued)
        &&& forall|i: int, j: int|
            #![trigger self.queue[i], self.queue[j]]
            0 <= i < j < self.queue.len() && self.queue[i] is Process ==> self.queue[i]
                != self.queue[j]
        &&& forall|pid: Pid| #[trigger]
            self.alive(pid) && self.processes[pid].place is Queued ==> self.queue.contains(
                RunItem::Process(pid),
            )
    }

    /// What holds of every world that the library hands out.
    pub open spec fn wf(self) -> bool {
        &&& self.processes.dom().finite()
        &&& forall|pid: Pid| #[trigger] self.alive(pid) ==> pid < self.next_pid
        &&& forall|pid: Pid| #[trigger] self.alive(pid) ==> self.processes[pid].ok()
        &&& self.queue_ok()
        &&& self.active == self.started().len()
        &&& self.failed + self.processes.dom().len() <= self.next_pid
        &&& self.next_pid <= u64::MAX
    }

    /// The same world with the record of `pid` replaced.
    pub open spec fn with(self, pid: Pid, p: ProcView) -> WorldView {
        WorldView { processes: self.processes.insert(pid, p), ..self }
    }

    /// The same world without `pid`.
    pub open spec fn without(self, pid: Pid) -> WorldView {
        WorldView { processes: self.processes.remove(pid), ..self }
    }

    /// A process is registered under the next pid.
    pub open spec fn created(self, name: Seq<char>, sandbox: Sandbox) -> WorldView {
        WorldView {
            processes: self.processes.insert(self.next_pid as Pid, ProcView::fresh(name, sandbox)),
            next_pid: self.next_pid + 1,
            ..self
        }
    }

    /// The entry script of `pid` has been evaluated: the process counts.
    pub open spec fn begun(self, pid: Pid) -> WorldView {
        WorldView {
            processes: self.processes.insert(
                pid,
                ProcView { place: Place::OnWorker, ..self.processes[pid] },
            ),
            active: self.active + 1,
            ..self
        }
    }

    /// `pid` goes to the back of the run queue.
    pub open spec fn enqueued(self, pid: Pid) -> WorldView {
        WorldView {
            processes: self.processes.insert(
                pid,
                ProcView { place: Place::Queued, ..self.processes[pid] },
            ),
            queue: self.queue.push(RunItem::Process(pid)),
            ..self
        }
    }

    /// `pid` is unregistered. It counts as a failure exactly if its status
    /// says so.
    pub open spec fn finished(self, pid: Pid) -> WorldView {
        WorldView {
            processes: self.processes.remove(pid),
            active: (self.active - 1) as nat,
            failed: if self.processes[pid].status is Failed {
                self.failed + 1
            } else {
                self.failed
            },
            ..self
        }
    }

    /// `pid` is ended by the scheduler: a failure, unless it was killed.
    pub open spec fn ended_by_failure(self, pid: Pid) -> WorldView {
        self.with(pid, self.processes[pid].set_status_unless_killed(Status::Failed)).finished(pid)
    }

    /// `pid` wants to wait for a message: it takes one that is there already,
    /// which its script is owed then, and is parked otherwise.
    pub open spec fn parked(self, pid: Pid) -> (WorldView, SettledView) {
        let p = self.processes[pid];
        if p.inbox.len() > 0 {
            (
                self.with(
                    pid,
                    ProcView {
                        inbox: p.inbox.drop_first(),
                        owed: Some(WakeKind::Message),
                        ..p
                    },
                ),
                SettledView::Message(p.inbox[0]),
            )
        } else {
            (self.with(pid, ProcView { place: Place::Parked, ..p }), SettledView::Parked)
        }
    }

    /// `pid` rests until its deadline.
    pub open spec fn asleep(self, pid: Pid) -> (WorldView, SettledView) {
        (
            self.with(pid, ProcView { place: Place::Sleeping, ..self.processes[pid] }),
            SettledView::Asleep,
        )
    }

    /// The entry script of `pid` has returned: by its status the process is
    /// parked, put to sleep, or queued.
    pub open spec fn spawned(self, pid: Pid) -> (WorldView, SettledView) {
        let w = self.begun(pid);
        match self.processes[pid].status {
            Status::Waiting => w.parked(pid),
            Status::Sleeping => w.asleep(pid),
            _ => (w.enqueued(pid), SettledView::Queued),
        }
    }

    /// A slice of `pid` ends: by its status the process is finished, parked,
    /// put to sleep, or queued again. A process that neither waits nor has a
    /// job left is finished.
    pub open spec fn slice_ended(self, pid: Pid, job_pending: bool) -> (WorldView, SettledView) {
        match self.processes[pid].status {
            Status::Done | Status::Failed | Status::Killed => (
                self.finished(pid),
                SettledView::Gone,
            ),
            Status::Waiting => self.parked(pid),
            Status::Sleeping => self.asleep(pid),
            Status::Yielding => (self.enqueued(pid), SettledView::Queued),
            Status::Running => if job_pending {
                (self.enqueued(pid), SettledView::Queued)
            } else {
                (self.finished(pid), SettledView::Gone)
            },
        }
    }

    /// The script of `pid` is owed a wake.
    pub open spec fn owing(self, pid: Pid, kind: WakeKind) -> WorldView {
        self.with(pid, ProcView { owed: Some(kind), ..self.processes[pid] })
    }

    /// Whether the script of `pid` is owed a wake.
    pub open spec fn owes(self, pid: Pid, kind: WakeKind) -> bool {
        self.on_worker(pid) && self.processes[pid].owed == Some(kind)
    }

    /// Whether a worker holds `pid`, and its script is owed no wake.
    pub open spec fn in_slice(self, pid: Pid) -> bool {
        self.on_worker(pid) && self.processes[pid].owed is None
    }

    /// A slice of `pid` begins: a killed process is reaped, a suspended one is
    /// woken, one that was woken for nothing is parked again.
    pub open spec fn slice_started(self, pid: Pid, expired: bool) -> (WorldView, SliceStartView) {
        let p = self.processes[pid];
        match p.status {
            Status::Killed => (self.finished(pid), SliceStartView::Gone),
            Status::Waiting => if expired {
                (self.owing(pid, WakeKind::Timeout), SliceStartView::Timeout)
            } else {
                match self.parked(pid) {
                    (w, SettledView::Message(json)) => (w, SliceStartView::Message(json)),
                    (w, _) => (w, SliceStartView::Parked),
                }
            },
            Status::Sleeping => (self.owing(pid, WakeKind::Sleep), SliceStartView::Sleep),
            Status::Yielding => (self.owing(pid, WakeKind::Yield), SliceStartView::Yield),
            _ => (self, SliceStartView::Run),
        }
    }

    /// The front of the run queue is taken off, and a process there is handed
    /// to the worker.
    pub open spec fn popped(self) -> WorldView {
        match self.queue[0] {
            RunItem::Process(pid) => WorldView {
                processes: self.processes.insert(
                    pid,
                    ProcView {
                        place: Place::OnWorker,
                        timed_out: false,
                        ran_job: false,
                        ..self.processes[pid]
                    },
                ),
                queue: self.queue.drop_first(),
                ..self
            },
            RunItem::Stop => WorldView { queue: self.queue.drop_first(), ..self },
        }
    }

    /// A worker asks for work.
    pub open spec fn worker_stepped(self) -> (WorldView, WorkerStepView) {
        if self.queue.len() == 0 {
            (self, WorkerStepView::Idle)
        } else {
            match self.queue[0] {
                RunItem::Stop => (self.popped(), WorkerStepView::Stop),
                RunItem::Process(pid) => {
                    let (w, start) = self.popped().slice_started(
                        pid,
                        self.processes[pid].timed_out,
                    );
                    (w, WorkerStepView::Slice(pid, start))
                },
            }
        }
    }

    /// A message for `pid` arrives: dropped if there is no such process,
    /// buffered otherwise, and a parked process goes to the run queue.
    pub open spec fn delivered(self, pid: Pid, json: Seq<char>) -> WorldView {
        if !self.alive(pid) {
            self
        } else {
            let p = self.processes[pid];
            let w = self.with(pid, ProcView { inbox: p.inbox.push(json), ..p });
            if p.place is Parked {
                w.enqueued(pid)
            } else {
                w
            }
        }
    }

    /// A kill of `pid` is requested: a live process is marked, and reaped at
    /// once if it is at rest.
    pub open spec fn killed(self, pid: Pid) -> WorldView {
        if !self.alive(pid) {
            self
        } else {
            let p = self.processes[pid];
            let w = self.with(pid, ProcView { status: Status::Killed, ..p });
            if p.place is Parked || p.place is Sleeping {
                w.finished(pid)
            } else {
                w
            }
        }
    }

    /// The deadline of the resting process `pid` has passed: it goes to the
    /// run queue, a waiting one with the note that it waited in vain.
    pub open spec fn fired(self, pid: Pid) -> WorldView {
        let p = self.processes[pid];
        self.with(pid, ProcView { timed_out: p.place is Parked, ..p }).enqueued(pid)
    }

    /// `pids` are fired one after the other.
    pub open spec fn all_fired(self, pids: Seq<Pid>) -> WorldView
        decreases pids.len(),
    {
        if pids.len() == 0 {
            self
        } else {
            self.all_fired(pids.drop_last()).fired(pids.last())
        }
    }

    /// Whether `pid` rests until a deadline that has passed.
    pub open spec fn due(self, pid: Pid, now: u64) -> bool {
        self.alive(pid) && self.processes[pid].due(now)
    }

    /// The deadline of `a` is before that of `b`, or they are the same and the
    /// pid is smaller.
    pub open spec fn sooner(self, a: Pid, b: Pid) -> bool {
        let (da, db) = (self.processes[a].deadline->0, self.processes[b].deadline->0);
        da < db || (da == db && a < b)
    }

    /// Whether `pids` are the processes whose deadline has passed, earliest
    /// deadline first.
    pub open spec fn all_due(self, pids: Seq<Pid>, now: u64) -> bool {
        &&& forall|q: Pid| #[trigger] pids.contains(q) <==> self.due(q, now)
        &&& forall|i: int, j: int|
            0 <= i < j < pids.len() ==> self.sooner(#[trigger] pids[i], #[trigger] pids[j])
    }

    /// The status of `pid` changes, except that an accepted kill stays.
    pub open spec fn marked(self, pid: Pid, status: Status) -> WorldView {
        self.with(pid, self.processes[pid].set_status_unless_killed(status))
    }

    /// Whether the slice of `pid` may execute a job: if a worker holds the
    /// process, its script is owed no wake, it is neither done nor failed nor
    /// killed, and the slice has had no job yet.
    pub open spec fn grants_job(self, pid: Pid) -> bool {
        &&& self.in_slice(pid)
        &&& !self.processes[pid].status.spec_is_terminal()
        &&& !self.processes[pid].ran_job
    }

    /// The slice of `pid` asks for a job.
    pub open spec fn job_asked(self, pid: Pid) -> WorldView {
        if self.grants_job(pid) {
            self.with(pid, ProcView { ran_job: true, ..self.processes[pid] })
        } else {
            self
        }
    }

    /// The evaluation of the entry script of `pid` succeeded or not. If not,
    /// the process is unregistered.
    pub open spec fn settled(self, pid: Pid, ok: bool) -> WorldView {
        if ok {
            self.spawned(pid).0
        } else {
            self.without(pid)
        }
    }

    /// The engine took a wake of `pid`, or could not.
    pub open spec fn woken(self, pid: Pid, kind: WakeKind, ok: bool) -> WorldView {
        if ok {
            self.with(pid, self.processes[pid].resumed(kind))
        } else {
            self.ended_by_failure(pid)
        }
    }

    /// The engine took the message that kept `pid` from being parked, or could
    /// not.
    pub open spec fn unparked(self, pid: Pid, ok: bool) -> WorldView {
        if ok {
            self.woken(pid, WakeKind::Message, true).enqueued(pid)
        } else {
            self.woken(pid, WakeKind::Message, false)
        }
    }

    /// `pid` calls `recv`: refused while a `sleep` is pending, answered if a
    /// message is there, and a suspension otherwise.
    pub open spec fn recv_called(self, pid: Pid, timeout_ms: Option<u64>, now: u64) -> WorldView {
        let p = self.processes[pid];
        if p.sleep_pending {
            self
        } else if p.inbox.len() > 0 {
            self.with(pid, ProcView { inbox: p.inbox.drop_first(), ..p })
        } else {
            self.with(
                pid,
                ProcView {
                    recv_pending: true,
                    deadline: match timeout_ms {
                        Some(ms) => Some(spec_deadline(now, ms)),
                        None => None,
                    },
                    status: p.status.unless_killed(Status::Waiting),
                    ..p
                },
            )
        }
    }

    /// `pid` calls `sleep`: refused while a `recv` is pending, and a suspension
    /// otherwise.
    pub open spec fn sleep_called(self, pid: Pid, ms: u64, now: u64) -> WorldView {
        let p = self.processes[pid];
        if p.recv_pending {
            self
        } else {
            self.with(
                pid,
                ProcView {
                    sleep_pending: true,
                    deadline: Some(spec_deadline(now, ms)),
                    status: p.status.unless_killed(Status::Sleeping),
                    ..p
                },
            )
        }
    }

    /// The sandbox of `pid` is narrowed.
    pub open spec fn narrowed(self, pid: Pid, request: Option<bool>) -> WorldView {
        let p = self.processes[pid];
        self.with(pid, ProcView { sandbox: p.sandbox.spec_narrow(request), ..p })
    }

    /// `pid` is renamed, if it is alive.
    pub open spec fn renamed(self, pid: Pid, name: Seq<char>) -> WorldView {
        if self.alive(pid) {
            self.with(pid, ProcView { name, ..self.processes[pid] })
        } else {
            self
        }
    }

    /// `n` workers are told to stop.
    pub open spec fn stopped(self, n: nat) -> WorldView {
        WorldView { queue: self.queue + Seq::new(n, |i: int| RunItem::Stop), ..self }
    }
}

/// Replacing a record keeps the world well-formed if neither the run queue nor
/// the count of started processes is concerned.
pub proof fn lemma_with_wf(w: WorldView, pid: Pid, p: ProcView)
    requires
        w.wf(),
        w.alive(pid),
        p.ok(),
        p.place is Queued <==> w.processes[pid].place is Queued,
        p.place is Starting <==> w.processes[pid].place is Starting,
    ensures
        w.with(pid, p).wf(),
{
    let w2 = w.with(pid, p);
    assert(w2.processes.dom() =~= w.processes.dom());
    assert(w2.started() =~= w.started());
    assert forall|q: Pid| #[trigger] w2.alive(q) implies w2.processes[q].ok() && q < w2.next_pid by {
        assert(w.alive(q));
    }
    assert forall|q: Pid| #[trigger]
        w2.alive(q) && w2.processes[q].place is Queued implies w2.queue.contains(
        RunItem::Process(q),
    ) by {
        assert(w.alive(q));
    }
}

/// A world in which nothing has happened is well-formed.
pub proof fn lemma_empty_wf()
    ensures
        WorldView::empty().wf(),
{
    assert(WorldView::empty().started() =~= Set::empty());
}

/// Registering a process keeps the world well-formed.
pub proof fn lemma_created_wf(w: WorldView, name: Seq<char>, sandbox: Sandbox)
    requires
        w.wf(),
        w.next_pid < u64::MAX,
    ensures
        !w.alive(w.next_pid as Pid),
        w.created(name, sandbox).wf(),
{
    let pid = w.next_pid as Pid;
    let w2 = w.created(name, sandbox);
    if w.alive(pid) {
        assert(pid < w.next_pid);
    }
    assert(w2.processes.dom() =~= w.processes.dom().insert(pid));
    assert(w2.started() =~= w.started());
    assert forall|q: Pid| #[trigger] w2.alive(q) implies w2.processes[q].ok() && q < w2.next_pid by {
        if q != pid {
            assert(w.alive(q));
        }
    }
    assert forall|q: Pid| #[trigger]
        w2.alive(q) && w2.processes[q].place is Queued implies w2.queue.contains(
        RunItem::Process(q),
    ) by {
        assert(w.alive(q));
    }
}

proof fn lemma_started_finite(w: WorldView)
    requires
        w.processes.dom().finite(),
    ensures
        w.started().finite(),
        w.started().len() <= w.processes.dom().len(),
{
    assert(w.started().subset_of(w.processes.dom()));
    vstd::set_lib::lemma_len_subset(w.started(), w.processes.dom());
}

/// Counting a process as started keeps the world well-formed.
pub proof fn lemma_begun_wf(w: WorldView, pid: Pid)
    requires
        w.wf(),
        w.starting(pid),
    ensures
        w.begun(pid).wf(),
        w.begun(pid).on_worker(pid),
        w.active < u64::MAX,
{
    let w2 = w.begun(pid);
    lemma_started_finite(w);
    assert(w2.processes.dom() =~= w.processes.dom());
    assert(w2.started() =~= w.started().insert(pid));
    lemma_started_finite(w2);
    assert forall|q: Pid| #[trigger] w2.alive(q) implies w2.processes[q].ok() && q < w2.next_pid by {
        assert(w.alive(q));
    }
    assert forall|q: Pid| #[trigger]
        w2.alive(q) && w2.processes[q].place is Queued implies w2.queue.contains(
        RunItem::Process(q),
    ) by {
        assert(w.alive(q));
    }
}

/// Queuing a process that does not wait keeps the world well-formed.
pub proof fn lemma_enqueued_wf(w: WorldView, pid: Pid)
    requires
        w.wf(),
        w.alive(pid),
        !(w.processes[pid].place is Queued),
        !(w.processes[pid].place is Starting),
        !(w.processes[pid].status is Waiting),
        w.processes[pid].owed is None,
    ensures
        w.enqueued(pid).wf(),
{
    lemma_enqueued_with_wf(w, pid, w.processes[pid]);
    assert(w.with(pid, w.processes[pid]).enqueued(pid) =~= w.enqueued(pid));
}

/// Queuing a process keeps the world well-formed, also if its record changes
/// on the way.
pub proof fn lemma_enqueued_with_wf(w: WorldView, pid: Pid, p: ProcView)
    requires
        w.wf(),
        w.alive(pid),
        !(w.processes[pid].place is Queued),
        !(w.processes[pid].place is Starting),
        (ProcView { place: Place::Queued, ..p }).ok(),
    ensures
        w.with(pid, p).enqueued(pid).wf(),
{
    let w2 = w.with(pid, p).enqueued(pid);
    assert(w2.processes.dom() =~= w.processes.dom());
    assert(w2.started() =~= w.started());
    let item = RunItem::Process(pid);
    assert(w2.queue[w.queue.len() as int] == item);
    assert forall|q: Pid| #[trigger] w2.alive(q) implies w2.processes[q].ok() && q < w2.next_pid by {
        assert(w.alive(q));
    }
    assert forall|i: int|
        #![trigger w2.queue[i]]
        0 <= i < w2.queue.len() implies (w2.queue[i] matches RunItem::Process(q) ==> w2.alive(q)
        && w2.processes[q].place is Queued) by {
        if i < w.queue.len() {
            assert(w2.queue[i] == w.queue[i]);
        }
    }
    assert forall|i: int, j: int|
        #![trigger w2.queue[i], w2.queue[j]]
        0 <= i < j < w2.queue.len() && w2.queue[i] is Process implies w2.queue[i]
        != w2.queue[j] by {
        assert(w2.queue[i] == w.queue[i]);
        if j < w.queue.len() {
            assert(w2.queue[j] == w.queue[j]);
        }
    }
    assert forall|q: Pid| #[trigger]
        w2.alive(q) && w2.processes[q].place is Queued implies w2.queue.contains(
        RunItem::Process(q),
    ) by {
        assert(w.alive(q));
        if q != pid {
            let i = w.queue.index_of(RunItem::Process(q));
            assert(w2.queue[i] == RunItem::Process(q));
        }
    }
}

/// Finishing a process keeps the world well-formed.
pub proof fn lemma_finished_wf(w: WorldView, pid: Pid)
    requires
        w.wf(),
        w.alive(pid),
        !(w.processes[pid].place is Queued),
        !(w.processes[pid].place is Starting),
    ensures
        w.finished(pid).wf(),
        w.active >= 1,
        w.failed < u64::MAX,
{
    lemma_finished_with_wf(w, pid, w.processes[pid]);
    assert(w.with(pid, w.processes[pid]).finished(pid) =~= w.finished(pid));
}

/// Finishing a process keeps the world well-formed, also if its record changes
/// on the way.
pub proof fn lemma_finished_with_wf(w: WorldView, pid: Pid, p: ProcView)
    requires
        w.wf(),
        w.alive(pid),
        !(w.processes[pid].place is Queued),
        !(w.processes[pid].place is Starting),
    ensures
        w.with(pid, p).finished(pid).wf(),
        w.active >= 1,
        w.failed < u64::MAX,
{
    let w2 = w.with(pid, p).finished(pid);
    lemma_started_finite(w);
    assert(w2.processes.dom() =~= w.processes.dom().remove(pid));
    assert(w2.started() =~= w.started().remove(pid));
    assert(w.started().contains(pid));
    assert(w.processes.dom().contains(pid));
    assert forall|q: Pid| #[trigger] w2.alive(q) implies w2.processes[q].ok() && q < w2.next_pid by {
        assert(w.alive(q));
    }
    assert forall|q: Pid| #[trigger]
        w2.alive(q) && w2.processes[q].place is Queued implies w2.queue.contains(
        RunItem::Process(q),
    ) by {
        assert(w.alive(q));
    }
}

/// Unregistering a process whose entry script could not be evaluated keeps the
/// world well-formed.
pub proof fn lemma_without_wf(w: WorldView, pid: Pid)
    requires
        w.wf(),
        w.starting(pid),
    ensures
        w.without(pid).wf(),
{
    let w2 = w.without(pid);
    assert(w2.processes.dom() =~= w.processes.dom().remove(pid));
    assert(w2.started() =~= w.started());
    assert(w.processes.dom().contains(pid));
    assert forall|q: Pid| #[trigger] w2.alive(q) implies w2.processes[q].ok() && q < w2.next_pid by {
        assert(w.alive(q));
    }
    assert forall|q: Pid| #[trigger]
        w2.alive(q) && w2.processes[q].place is Queued implies w2.queue.contains(
        RunItem::Process(q),
    ) by {
        assert(w.alive(q));
    }
}

/// Taking the front off the run queue keeps the world well-formed.
pub proof fn lemma_popped_wf(w: WorldView)
    requires
        w.wf(),
        w.queue.len() > 0,
    ensures
        w.popped().wf(),
        w.queue[0] matches RunItem::Process(pid) ==> w.alive(pid) && w.popped().on_worker(pid),
{
    let w2 = w.popped();
    assert(w2.processes.dom() =~= w.processes.dom());
    assert(w2.started() =~= w.started());
    assert forall|q: Pid| #[trigger] w2.alive(q) implies w2.processes[q].ok() && q < w2.next_pid by {
        assert(w.alive(q));
    }
    assert forall|i: int|
        #![trigger w2.queue[i]]
        0 <= i < w2.queue.len() implies (w2.queue[i] matches RunItem::Process(q) ==> w2.alive(q)
        && w2.processes[q].place is Queued) by {
        assert(w2.queue[i] == w.queue[i + 1]);
        assert(w.queue[0] is Process ==> w.queue[0] != w.queue[i + 1]);
    }
    assert forall|i: int, j: int|
        #![trigger w2.queue[i], w2.queue[j]]
        0 <= i < j < w2.queue.len() && w2.queue[i] is Process implies w2.queue[i]
        != w2.queue[j] by {
        assert(w2.queue[i] == w.queue[i + 1]);
        assert(w2.queue[j] == w.queue[j + 1]);
    }
    assert forall|q: Pid| #[trigger]
        w2.alive(q) && w2.processes[q].place is Queued implies w2.queue.contains(
        RunItem::Process(q),
    ) by {
        assert(w.alive(q));
        let i = w.queue.index_of(RunItem::Process(q));
        assert(w.queue[i] == RunItem::Process(q));
        assert(i != 0);
        assert(w2.queue[i - 1] == RunItem::Process(q));
    }
}

/// Telling workers to stop keeps the world well-formed.
pub proof fn lemma_stopped_wf(w: WorldView, n: nat)
    requires
        w.wf(),
    ensures
        w.stopped(n).wf(),
{
    let w2 = w.stopped(n);
    assert(w2.started() =~= w.started());
    assert forall|q: Pid| #[trigger] w2.alive(q) implies w2.processes[q].ok() && q < w2.next_pid by {
        assert(w.alive(q));
    }
    assert forall|i: int|
        #![trigger w2.queue[i]]
        0 <= i < w2.queue.len() implies (w2.queue[i] matches RunItem::Process(q) ==> w2.alive(q)
        && w2.processes[q].place is Queued) by {
        if i < w.queue.len() {
            assert(w2.queue[i] == w.queue[i]);
        }
    }
    assert forall|i: int, j: int|
        #![trigger w2.queue[i], w2.queue[j]]
        0 <= i < j < w2.queue.len() && w2.queue[i] is Process implies w2.queue[i]
        != w2.queue[j] by {
        assert(i < w.queue.len());
        assert(w2.queue[i] == w.queue[i]);
        if j < w.queue.len() {
            assert(w2.queue[j] == w.queue[j]);
        }
    }
    assert forall|q: Pid| #[trigger]
        w2.alive(q) && w2.processes[q].place is Queued implies w2.queue.contains(
        RunItem::Process(q),
    ) by {
        assert(w.alive(q));
        let i = w.queue.index_of(RunItem::Process(q));
        assert(w2.queue[i] == RunItem::Process(q));
    }
}

} // verus!
