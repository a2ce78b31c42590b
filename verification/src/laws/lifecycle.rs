//! What each step in the life of a process changes, field by field, and what it
//! leaves alone.

use vstd::prelude::*;

use crate::laws::{run_queue_is_fair, steps};
use crate::model::{lemma_finished_wf, SettledView, SliceStartView, WorkerStepView, WorldView};
use crate::process::{Pid, Place, ProcShared, ProcView, Sandbox, Status, WakeKind};
use crate::queue::RunItem;
use crate::scheduler::{Settled, SliceStart, WorkerStep};
use crate::trace::{lemma_after_wf, lemma_all_fired, lemma_due_fired, Event};

verus! {

/// Whether every process but `q` is as it was.
pub open spec fn others_alike(w: WorldView, w2: WorldView, q: Pid) -> bool {
    forall|r: Pid|
        #![trigger w2.processes.contains_key(r)]
        #![trigger w2.processes[r]]
        r != q ==> {
            &&& w2.processes.contains_key(r) == w.processes.contains_key(r)
            &&& w.processes.contains_key(r) ==> w2.processes[r] == w.processes[r]
        }
}

/// Whether `q` now has the record `p`, and nothing else changed.
pub open spec fn becomes(w: WorldView, w2: WorldView, q: Pid, p: ProcView) -> bool {
    &&& w2.processes.contains_key(q)
    &&& w2.processes[q] == p
    &&& others_alike(w, w2, q)
    &&& w2.queue == w.queue
    &&& w2.next_pid == w.next_pid
    &&& w2.active == w.active
    &&& w2.failed == w.failed
}

/// Whether `q` now has the record `p` but stands at the back of the run queue,
/// and nothing else changed.
pub open spec fn joins_queue(w: WorldView, w2: WorldView, q: Pid, p: ProcView) -> bool {
    &&& w2.processes.contains_key(q)
    &&& w2.processes[q] == (ProcView { place: Place::Queued, ..p })
    &&& others_alike(w, w2, q)
    &&& w2.queue.len() == w.queue.len() + 1
    &&& w2.queue.last() == RunItem::Process(q)
    &&& w2.queue.drop_last() == w.queue
    &&& w2.next_pid == w.next_pid
    &&& w2.active == w.active
    &&& w2.failed == w.failed
}

/// Whether `q` is gone, with so many failures counted for it, and nothing else
/// changed.
pub open spec fn leaves(w: WorldView, w2: WorldView, q: Pid, failures: nat) -> bool {
    &&& !w2.processes.contains_key(q)
    &&& others_alike(w, w2, q)
    &&& w2.queue == w.queue
    &&& w2.next_pid == w.next_pid
    &&& w2.active + 1 == w.active
    &&& w2.failed == w.failed + failures
}

/// What the records of a world say of a process: whether it lives, whether its
/// script is executing, whether it is owed a wake, and whether it rests until a
/// moment that has passed.
pub proof fn readings(w: WorldView, q: Pid, kind: WakeKind, now: u64)
    ensures
        w.alive(q) <==> w.processes.contains_key(q),
        w.executing(q) <==> {
            &&& w.processes.contains_key(q)
            &&& w.processes[q].place == Place::Starting || w.processes[q].place == Place::OnWorker
        },
        w.starting(q) <==> w.processes.contains_key(q) && w.processes[q].place == Place::Starting,
        w.owes(q, kind) <==> {
            &&& w.processes.contains_key(q)
            &&& w.processes[q].place == Place::OnWorker
            &&& w.processes[q].owed == Some(kind)
        },
        w.in_slice(q) <==> {
            &&& w.processes.contains_key(q)
            &&& w.processes[q].place == Place::OnWorker
            &&& w.processes[q].owed is None
        },
        w.due(q, now) <==> {
            &&& w.processes.contains_key(q)
            &&& w.processes[q].place == Place::Parked || w.processes[q].place == Place::Sleeping
            &&& w.processes[q].deadline is Some
            &&& w.processes[q].deadline->0 <= now
        },
{
}

/// What the library returns says what it is called: a process that was put to
/// rest, queued or finished, how its slice begins, and what a worker does next.
pub proof fn outcomes(json: String, q: Pid, start: SliceStart)
    ensures
        Settled::Gone@ == SettledView::Gone,
        Settled::Parked@ == SettledView::Parked,
        Settled::Asleep@ == SettledView::Asleep,
        Settled::Queued@ == SettledView::Queued,
        Settled::Message(json)@ == SettledView::Message(json@),
        SliceStart::Gone@ == SliceStartView::Gone,
        SliceStart::Parked@ == SliceStartView::Parked,
        SliceStart::Message(json)@ == SliceStartView::Message(json@),
        SliceStart::Timeout@ == SliceStartView::Timeout,
        SliceStart::Sleep@ == SliceStartView::Sleep,
        SliceStart::Yield@ == SliceStartView::Yield,
        SliceStart::Run@ == SliceStartView::Run,
        WorkerStep::Stop@ == WorkerStepView::Stop,
        WorkerStep::Idle@ == WorkerStepView::Idle,
        WorkerStep::Slice(q, start)@ == WorkerStepView::Slice(q, start@),
{
}

/// The record of a process holds what its fields hold.
pub proof fn records(p: ProcShared, i: int)
    ensures
        p@.name == p.name@,
        p@.inbox.len() == p.inbox_rx@.len(),
        0 <= i < p.inbox_rx@.len() ==> p@.inbox[i] == p.inbox_rx@[i]@,
        p@.status == p.status,
        p@.deadline == p.deadline,
        p@.sandbox == p.sandbox,
        p@.recv_pending == p.recv_pending,
        p@.sleep_pending == p.sleep_pending,
        p@.timed_out == p.timed_out,
        p@.ran_job == p.ran_job,
        p@.owed == p.owed,
        p@.place == p.place,
{
}

/// A runtime that has just begun has no process, nothing to do, and no failure.
pub proof fn beginning()
    ensures
        WorldView::empty().processes.dom() == Set::<Pid>::empty(),
        WorldView::empty().queue.len() == 0,
        WorldView::empty().next_pid == 0,
        WorldView::empty().active == 0,
        WorldView::empty().failed == 0,
{
    assert(WorldView::empty().processes.dom() =~= Set::<Pid>::empty());
}

/// A new process has the next pid, the name and the sandbox that it was given,
/// an empty mailbox and nothing pending. It is not queued and does not count as
/// active yet.
pub proof fn registration(w: WorldView, name: Seq<char>, sandbox: Sandbox)
    requires
        w.wf(),
        w.next_pid < u64::MAX,
    ensures
        ({
            let q = w.next_pid as Pid;
            let w2 = w.created(name, sandbox);
            let p = w2.processes[q];
            &&& !w.processes.contains_key(q)
            &&& w2.processes.contains_key(q)
            &&& others_alike(w, w2, q)
            &&& w2.next_pid == w.next_pid + 1
            &&& w2.queue == w.queue
            &&& w2.active == w.active
            &&& w2.failed == w.failed
            &&& p.name == name
            &&& p.sandbox == sandbox
            &&& p.inbox.len() == 0
            &&& p.status == Status::Running
            &&& p.place == Place::Starting
            &&& p.deadline is None
            &&& p.owed is None
            &&& !p.recv_pending && !p.sleep_pending && !p.timed_out && !p.ran_job
        }),
{
    if w.alive(w.next_pid as Pid) {
        assert((w.next_pid as Pid) < w.next_pid);
    }
}

/// Whether `q`, which waits for a message, is parked if its mailbox is empty,
/// and is otherwise handed its oldest message, which its script is owed from
/// then on. Nothing else changes but the count of active processes.
pub open spec fn waits(
    w: WorldView,
    w2: WorldView,
    settled: SettledView,
    q: Pid,
    started: nat,
) -> bool {
    let p = w.processes[q];
    let p2 = w2.processes[q];
    &&& w2.processes.contains_key(q)
    &&& others_alike(w, w2, q)
    &&& w2.queue == w.queue
    &&& w2.next_pid == w.next_pid
    &&& w2.active == w.active + started
    &&& w2.failed == w.failed
    &&& if p.inbox.len() == 0 {
        settled == SettledView::Parked && p2 == (ProcView { place: Place::Parked, ..p })
    } else {
        &&& settled is Message
        &&& p.inbox == seq![settled->Message_0] + p2.inbox
        &&& p2 == (ProcView {
            place: Place::OnWorker,
            inbox: p2.inbox,
            owed: Some(WakeKind::Message),
            ..p
        })
    }
}

proof fn lemma_first_and_rest<A>(s: Seq<A>)
    requires
        s.len() > 0,
    ensures
        s == seq![s[0]] + s.drop_first(),
{
    assert(s =~= seq![s[0]] + s.drop_first());
}

/// Once the entry script of a process has been evaluated, the process counts as
/// active. One that waits for a message is parked or handed a message, one that
/// sleeps is put to rest, and any other joins the run queue. If the script could
/// not be evaluated, the process is unregistered, and nothing else changes.
pub proof fn settling(w: WorldView, q: Pid)
    requires
        w.wf(),
        w.processes.contains_key(q),
        w.processes[q].place == Place::Starting,
    ensures
        ({
            let p = w.processes[q];
            let (w2, settled) = w.spawned(q);
            &&& w.settled(q, true) == w2
            &&& w2.active == w.active + 1
            &&& p.status == Status::Waiting ==> waits(w, w2, settled, q, 1)
            &&& p.status == Status::Sleeping ==> {
                &&& settled == SettledView::Asleep
                &&& becomes(
                    w,
                    WorldView { active: w.active, ..w2 },
                    q,
                    ProcView { place: Place::Sleeping, ..p },
                )
            }
            &&& p.status != Status::Waiting && p.status != Status::Sleeping ==> {
                &&& settled == SettledView::Queued
                &&& joins_queue(w, WorldView { active: w.active, ..w2 }, q, p)
            }
        }),
        ({
            let w2 = w.settled(q, false);
            &&& !w2.processes.contains_key(q)
            &&& others_alike(w, w2, q)
            &&& w2.queue == w.queue
            &&& w2.next_pid == w.next_pid
            &&& w2.active == w.active
            &&& w2.failed == w.failed
        }),
{
    let p = w.processes[q];
    assert(w.alive(q));
    assert(p.ok());
    if p.inbox.len() > 0 {
        lemma_first_and_rest(p.inbox);
    }
    assert(w.queue.push(RunItem::Process(q)).drop_last() =~= w.queue);
}

/// When a slice ends, a process that waits for a message is parked or handed a
/// message, one that sleeps is put to rest, one that yields or has a job left
/// joins the run queue, and any other is gone. A failure is counted exactly for
/// a process that failed.
pub proof fn slice_end(w: WorldView, q: Pid, job_pending: bool)
    requires
        w.wf(),
        w.processes.contains_key(q),
        w.processes[q].place == Place::OnWorker,
        w.processes[q].owed is None,
    ensures
        ({
            let p = w.processes[q];
            let (w2, settled) = w.slice_ended(q, job_pending);
            match p.status {
                Status::Waiting => waits(w, w2, settled, q, 0),
                Status::Sleeping => {
                    &&& settled == SettledView::Asleep
                    &&& becomes(w, w2, q, ProcView { place: Place::Sleeping, ..p })
                },
                Status::Yielding => settled == SettledView::Queued && joins_queue(w, w2, q, p),
                Status::Running => if job_pending {
                    settled == SettledView::Queued && joins_queue(w, w2, q, p)
                } else {
                    settled == SettledView::Gone && leaves(w, w2, q, 0)
                },
                Status::Done | Status::Killed => settled == SettledView::Gone && leaves(
                    w,
                    w2,
                    q,
                    0,
                ),
                Status::Failed => settled == SettledView::Gone && leaves(w, w2, q, 1),
            }
        }),
{
    let p = w.processes[q];
    assert(w.alive(q));
    assert(p.ok());
    lemma_finished_wf(w, q);
    if p.inbox.len() > 0 {
        lemma_first_and_rest(p.inbox);
    }
    assert(w.queue.push(RunItem::Process(q)).drop_last() =~= w.queue);
}

/// Parking is what the end of a slice does with a process that waits.
pub proof fn parking(w: WorldView, q: Pid)
    requires
        w.wf(),
        w.processes.contains_key(q),
        w.processes[q].place == Place::OnWorker,
        w.processes[q].owed is None,
        w.processes[q].status == Status::Waiting,
    ensures
        waits(w, w.parked(q).0, w.parked(q).1, q, 0),
{
    slice_end(w, q, false);
}

/// A worker that asks for work gets the front of the run queue, and nothing if
/// the queue is empty. A process there is gone if it was killed. Otherwise the
/// worker holds it, and its script is owed what it was suspended for: the oldest
/// message or the news of a timeout if it waited, the end of its sleep, or its
/// next turn. A process that was not suspended just goes on.
pub proof fn asking_for_work(w: WorldView)
    requires
        w.wf(),
    ensures
        ({
            let (w2, step) = w.worker_stepped();
            if w.queue.len() == 0 {
                step == WorkerStepView::Idle && w2 == w
            } else {
                &&& w.queue == seq![w.queue[0]] + w2.queue
                &&& w2.next_pid == w.next_pid
                &&& match w.queue[0] {
                    RunItem::Stop => {
                        &&& step == WorkerStepView::Stop
                        &&& w2.processes == w.processes
                        &&& w2.active == w.active
                        &&& w2.failed == w.failed
                    },
                    RunItem::Process(q) => {
                        let p = w.processes[q];
                        let p2 = w2.processes[q];
                        let held = ProcView {
                            place: Place::OnWorker,
                            timed_out: false,
                            ran_job: false,
                            ..p
                        };
                        &&& w.processes.contains_key(q)
                        &&& step is Slice
                        &&& step->Slice_0 == q
                        &&& if p.status == Status::Killed {
                            &&& step->Slice_1 == SliceStartView::Gone
                            &&& leaves(w, WorldView { queue: w.queue, ..w2 }, q, 0)
                        } else {
                            &&& becomes(w, WorldView { queue: w.queue, ..w2 }, q, p2)
                            &&& p.status == Status::Waiting && p.timed_out ==> {
                                &&& step->Slice_1 == SliceStartView::Timeout
                                &&& p2 == (ProcView { owed: Some(WakeKind::Timeout), ..held })
                            }
                            &&& p.status == Status::Waiting && !p.timed_out ==> {
                                &&& step->Slice_1 is Message
                                &&& p.inbox == seq![step->Slice_1->Message_0] + p2.inbox
                                &&& p2 == (ProcView {
                                    inbox: p2.inbox,
                                    owed: Some(WakeKind::Message),
                                    ..held
                                })
                            }
                            &&& p.status == Status::Sleeping ==> {
                                &&& step->Slice_1 == SliceStartView::Sleep
                                &&& p2 == (ProcView { owed: Some(WakeKind::Sleep), ..held })
                            }
                            &&& p.status == Status::Yielding ==> {
                                &&& step->Slice_1 == SliceStartView::Yield
                                &&& p2 == (ProcView { owed: Some(WakeKind::Yield), ..held })
                            }
                            &&& p.status == Status::Running || p.status == Status::Done || p.status
                                == Status::Failed ==> {
                                &&& step->Slice_1 == SliceStartView::Run
                                &&& p2 == held
                                &&& p2.owed is None
                            }
                        }
                    },
                }
            }
        }),
{
    if w.queue.len() > 0 {
        lemma_first_and_rest(w.queue);
        if let RunItem::Process(q) = w.queue[0] {
            let p = w.processes[q];
            assert(w.alive(q));
            assert(p.ok());
            if p.inbox.len() > 0 {
                lemma_first_and_rest(p.inbox);
            }
            crate::model::lemma_popped_wf(w);
            lemma_finished_wf(w.popped(), q);
        }
    }
}

/// The start of a slice calls for the wake of the same name, and for none if
/// there is nothing to wake.
pub proof fn wake_kinds(json: Seq<char>)
    ensures
        SliceStartView::Message(json).wake_kind() == Some(WakeKind::Message),
        SliceStartView::Timeout.wake_kind() == Some(WakeKind::Timeout),
        SliceStartView::Sleep.wake_kind() == Some(WakeKind::Sleep),
        SliceStartView::Yield.wake_kind() == Some(WakeKind::Yield),
        SliceStartView::Run.wake_kind() is None,
        SliceStartView::Gone.wake_kind() is None,
        SliceStartView::Parked.wake_kind() is None,
{
}

/// A process that was woken is owed nothing any more, and runs unless it was
/// killed meanwhile. The call that it was suspended on is not pending any more
/// and has no deadline; any other is as it was, and so is all the rest. One that
/// could not be woken is gone: a failure, unless it was killed.
pub proof fn waking(w: WorldView, q: Pid, kind: WakeKind)
    requires
        w.wf(),
        w.processes.contains_key(q),
        w.processes[q].place == Place::OnWorker,
        w.processes[q].owed == Some(kind),
    ensures
        ({
            let p = w.processes[q];
            let w2 = w.woken(q, kind, true);
            let p2 = w2.processes[q];
            &&& becomes(w, w2, q, p2)
            &&& p2.owed is None
            &&& p.status != Status::Killed ==> p2.status == Status::Running
            &&& p.status == Status::Killed ==> p2.status == Status::Killed
            &&& p2.recv_pending == (p.recv_pending && kind != WakeKind::Message && kind
                != WakeKind::Timeout)
            &&& p2.sleep_pending == (p.sleep_pending && kind != WakeKind::Sleep)
            &&& kind == WakeKind::Yield ==> p2.deadline == p.deadline
            &&& kind != WakeKind::Yield ==> p2.deadline is None
            &&& p2.name == p.name && p2.inbox == p.inbox && p2.sandbox == p.sandbox
            &&& p2.place == p.place && p2.timed_out == p.timed_out && p2.ran_job == p.ran_job
        }),
        leaves(
            w,
            w.woken(q, kind, false),
            q,
            if w.processes[q].status == Status::Killed {
                0
            } else {
                1
            },
        ),
        kind == WakeKind::Message ==> {
            &&& w.unparked(q, false) == w.woken(q, kind, false)
            &&& joins_queue(w, w.unparked(q, true), q, w.woken(q, kind, true).processes[q])
        },
{
    let p = w.processes[q];
    assert(w.alive(q));
    assert(p.ok());
    lemma_finished_wf(w, q);
    assert(w.queue.push(RunItem::Process(q)).drop_last() =~= w.queue);
}

/// The slice of a process gets a job exactly if a worker holds it, its script is
/// owed no wake, the slice has had no job, and the process has neither ended nor
/// failed nor been killed. That it has had one is all that is noted.
pub proof fn granting_a_job(w: WorldView, q: Pid)
    ensures
        w.grants_job(q) <==> {
            let p = w.processes[q];
            &&& w.processes.contains_key(q)
            &&& p.place == Place::OnWorker
            &&& p.owed is None
            &&& !p.ran_job
            &&& p.status != Status::Done && p.status != Status::Failed && p.status
                != Status::Killed
        },
        w.grants_job(q) ==> becomes(
            w,
            w.job_asked(q),
            q,
            ProcView { ran_job: true, ..w.processes[q] },
        ),
        !w.grants_job(q) ==> w.job_asked(q) == w,
{
}

/// A script that yields, ends or fails changes the status of its process, unless
/// that was killed, and nothing else.
pub proof fn marking(w: WorldView, q: Pid, status: Status)
    requires
        w.processes.contains_key(q),
    ensures
        w.processes[q].status != Status::Killed ==> becomes(
            w,
            w.marked(q, status),
            q,
            ProcView { status, ..w.processes[q] },
        ),
        w.processes[q].status == Status::Killed ==> becomes(
            w,
            w.marked(q, status),
            q,
            w.processes[q],
        ),
{
}

/// Whether the event ends a process that failed, or that could not be woken and
/// was not killed.
pub open spec fn is_failure(w: WorldView, e: Event) -> bool {
    match e {
        Event::EndSlice { pid, .. } => w.processes[pid].status == Status::Failed,
        Event::Wake { pid, ok, .. } => !ok && w.processes[pid].status != Status::Killed,
        Event::Unpark { pid, ok } => !ok && w.processes[pid].status != Status::Killed,
        _ => false,
    }
}

/// Whether the event ends a process whose entry script was evaluated.
pub open spec fn is_end(w: WorldView, e: Event) -> bool {
    &&& !(e is Settle)
    &&& w.subject(e) is Some
    &&& w.processes.contains_key(w.subject(e)->0)
    &&& !w.after(e).processes.contains_key(w.subject(e)->0)
}

/// Whether the event changes the counts of failures and of active processes as
/// it should.
pub open spec fn counts(w: WorldView, e: Event) -> bool {
    &&& w.after(e).failed == w.failed + if is_failure(w, e) {
        1int
    } else {
        0
    }
    &&& w.after(e).active == w.active + if e is Settle && e->Settle_ok {
        1int
    } else if is_end(w, e) {
        -1
    } else {
        0
    }
}

proof fn lemma_counts_settle(w: WorldView, pid: Pid, ok: bool)
    requires
        w.wf(),
        w.starting(pid),
    ensures
        counts(w, Event::Settle { pid, ok }),
{
    settling(w, pid);
}

proof fn lemma_counts_step(w: WorldView)
    requires
        w.wf(),
    ensures
        counts(w, Event::Step),
{
    asking_for_work(w);
}

proof fn lemma_counts_slice_end(w: WorldView, pid: Pid, job_pending: bool)
    requires
        w.wf(),
        w.in_slice(pid),
    ensures
        counts(w, Event::EndSlice { pid, job_pending }),
{
    slice_end(w, pid, job_pending);
}

proof fn lemma_counts_wake(w: WorldView, pid: Pid, kind: WakeKind, ok: bool)
    requires
        w.wf(),
        w.owes(pid, kind),
    ensures
        counts(w, Event::Wake { pid, kind, ok }),
        kind == WakeKind::Message ==> counts(w, Event::Unpark { pid, ok }),
{
    waking(w, pid, kind);
}

proof fn lemma_counts_kill(w: WorldView, pid: Pid)
    requires
        w.wf(),
    ensures
        counts(w, Event::Kill { pid }),
{
    if w.alive(pid) {
        let p = w.processes[pid];
        if p.place == Place::Parked || p.place == Place::Sleeping {
            lemma_finished_wf(w, pid);
        }
    }
}

proof fn lemma_counts_fire(w: WorldView, pids: Seq<Pid>, now: u64)
    requires
        w.wf(),
        w.all_due(pids, now),
    ensures
        counts(w, Event::Fire { pids, now }),
{
    lemma_due_fired(w, pids, now);
    lemma_all_fired(w, pids);
}

proof fn lemma_counts_script(w: WorldView, pid: Pid, timeout_ms: Option<u64>, ms: u64, now: u64)
    requires
        w.executing(pid),
    ensures
        counts(w, Event::Recv { pid, timeout_ms, now }),
        counts(w, Event::Sleep { pid, ms, now }),
{
}

proof fn lemma_counts_mark(w: WorldView, pid: Pid, status: Status, request: Option<bool>)
    requires
        w.alive(pid),
    ensures
        counts(w, Event::Mark { pid, status }),
        counts(w, Event::Narrow { pid, request }),
{
}

proof fn lemma_counts_any(w: WorldView, pid: Pid, json: Seq<char>, name: Seq<char>, n: nat)
    ensures
        counts(w, Event::AskJob { pid }),
        counts(w, Event::Deliver { pid, json }),
        counts(w, Event::Rename { pid, name }),
        counts(w, Event::Stop { n }),
{
}

proof fn lemma_counts_create(w: WorldView, name: Seq<char>, sandbox: Sandbox)
    ensures
        counts(w, Event::Create { name, sandbox }),
{
}

/// A failure is counted exactly when a process ends that failed, or that could
/// not be woken and was not killed. A process counts as active from when its
/// entry script has been evaluated until it ends.
pub proof fn counting(w: WorldView, e: Event)
    requires
        w.wf(),
        w.admits(e),
    ensures
        counts(w, e),
{
    match e {
        Event::Settle { pid, ok } => lemma_counts_settle(w, pid, ok),
        Event::Step => lemma_counts_step(w),
        Event::EndSlice { pid, job_pending } => lemma_counts_slice_end(w, pid, job_pending),
        Event::Wake { pid, kind, ok } => lemma_counts_wake(w, pid, kind, ok),
        Event::Unpark { pid, ok } => lemma_counts_wake(w, pid, WakeKind::Message, ok),
        Event::Kill { pid } => lemma_counts_kill(w, pid),
        Event::Fire { pids, now } => lemma_counts_fire(w, pids, now),
        Event::Recv { pid, timeout_ms, now } => lemma_counts_script(w, pid, timeout_ms, 0, now),
        Event::Sleep { pid, ms, now } => lemma_counts_script(w, pid, None, ms, now),
        Event::Mark { pid, status } => lemma_counts_mark(w, pid, status, None),
        Event::Narrow { pid, request } => lemma_counts_mark(w, pid, Status::Done, request),
        Event::AskJob { pid } => lemma_counts_any(w, pid, Seq::empty(), Seq::empty(), 0),
        Event::Deliver { pid, json } => lemma_counts_any(w, pid, json, Seq::empty(), 0),
        Event::Rename { pid, name } => lemma_counts_any(w, pid, Seq::empty(), name, 0),
        Event::Stop { n } => lemma_counts_any(w, 0, Seq::empty(), Seq::empty(), n),
        Event::Create { name, sandbox } => lemma_counts_create(w, name, sandbox),
    }
}

/// Telling `n` workers to stop puts `n` entries behind all that are on the run
/// queue, and changes nothing else.
pub proof fn stopping(w: WorldView, n: nat)
    ensures
        ({
            let w2 = w.stopped(n);
            &&& w2.queue.len() == w.queue.len() + n
            &&& forall|i: int| 0 <= i < w.queue.len() ==> #[trigger] w2.queue[i] == w.queue[i]
            &&& forall|i: int|
                w.queue.len() <= i < w.queue.len() + n ==> #[trigger] w2.queue[i] == RunItem::Stop
            &&& w2.processes == w.processes
            &&& w2.next_pid == w.next_pid
            &&& w2.active == w.active
            &&& w2.failed == w.failed
        }),
{
}

/// Every entry of the run queue keeps its turn: it is at the front once those
/// before it have been taken, whatever else happens meanwhile.
pub proof fn entries_keep_their_turn(w: WorldView, t: Seq<Event>, i: int)
    requires
        w.wf(),
        w.admits_all(t),
        0 <= i < w.queue.len(),
        steps(t) <= i,
    ensures
        w.after_all(t).queue.len() > i - steps(t),
        w.after_all(t).queue[i - steps(t)] == w.queue[i],
    decreases t.len(),
{
    if t.len() > 0 {
        let e = t[0];
        run_queue_is_fair(w, e);
        lemma_after_wf(w, e);
        let j: int = if e is Step {
            i - 1
        } else {
            i
        };
        assert(w.after(e).queue.len() > j);
        assert(w.after(e).queue[j] == w.queue[i]) by {
            if !(e is Step) {
                assert(w.queue == w.after(e).queue.subrange(0, w.queue.len() as int));
            }
        }
        entries_keep_their_turn(w.after(e), t.drop_first(), j);
    }
}

/// When `n` workers are told to stop, `n` requests for work are answered by that
/// once all entries that were there before have been taken, whatever else
/// happens meanwhile.
pub proof fn every_worker_is_stopped(w: WorldView, n: nat, t: Seq<Event>)
    requires
        w.wf(),
        w.stopped(n).admits_all(t),
        w.queue.len() <= steps(t) < w.queue.len() + n,
    ensures
        w.stopped(n).after_all(t).worker_stepped().1 == WorkerStepView::Stop,
{
    stopping(w, n);
    lemma_after_wf(w, Event::Stop { n });
    entries_keep_their_turn(w.stopped(n), t, steps(t) as int);
}

/// The world after `k` requests for work.
pub open spec fn asked(w: WorldView, k: nat) -> WorldView
    decreases k,
{
    if k == 0 {
        w
    } else {
        asked(w, (k - 1) as nat).worker_stepped().0
    }
}

/// Once all processes have finished, exactly as many workers are stopped as were
/// told to: the first `n` requests for work are answered by that, and the next
/// one is not.
pub proof fn exactly_those_workers_are_stopped(w: WorldView, n: nat, k: nat)
    requires
        w.wf(),
        w.queue.len() == 0,
        k <= n,
    ensures
        asked(w.stopped(n), k).queue.len() == n - k,
        asked(w.stopped(n), k).worker_stepped().1 == if k < n {
            WorkerStepView::Stop
        } else {
            WorkerStepView::Idle
        },
    decreases k,
{
    lemma_asked(w, n, k);
    let w2 = asked(w.stopped(n), k);
    asking_for_work(w2);
}

proof fn lemma_asked(w: WorldView, n: nat, k: nat)
    requires
        w.wf(),
        w.queue.len() == 0,
        k <= n,
    ensures
        asked(w.stopped(n), k).wf(),
        asked(w.stopped(n), k).queue.len() == n - k,
        forall|i: int|
            0 <= i < n - k ==> #[trigger] asked(w.stopped(n), k).queue[i] == RunItem::Stop,
    decreases k,
{
    stopping(w, n);
    lemma_after_wf(w, Event::Stop { n });
    if k > 0 {
        lemma_asked(w, n, (k - 1) as nat);
        let w1 = asked(w.stopped(n), (k - 1) as nat);
        asking_for_work(w1);
        lemma_after_wf(w1, Event::Step);
        let w2 = w1.worker_stepped().0;
        assert(w1.queue == seq![w1.queue[0]] + w2.queue);
        assert forall|i: int| 0 <= i < n - k implies #[trigger] w2.queue[i] == RunItem::Stop by {
            assert(w2.queue[i] == w1.queue[i + 1]);
        }
    }
}

} // verus!
