//! What can happen to the runtime, one event after the other.
//!
//! Each event is one call into the library; what it does to the world is what
//! the contract of that call says.

use vstd::prelude::*;

use crate::model::{
    lemma_begun_wf, lemma_created_wf, lemma_enqueued_wf, lemma_enqueued_with_wf, lemma_finished_wf,
    lemma_finished_with_wf, lemma_popped_wf, lemma_stopped_wf, lemma_with_wf, lemma_without_wf,
    SettledView, SliceStartView, WorkerStepView, WorldView,
};
use crate::process::{Pid, Place, ProcView, Sandbox, Status, WakeKind};
use crate::queue::RunItem;

verus! {

/// Something that happens to the world.
pub enum Event {
    /// A process is registered.
    Create { name: Seq<char>, sandbox: Sandbox },
    /// The entry script of a process has been evaluated, or could not be.
    Settle { pid: Pid, ok: bool },
    /// A worker asks for work.
    Step,
    /// The engine took a wake, or could not.
    Wake { pid: Pid, kind: WakeKind, ok: bool },
    /// The engine took a message that kept its process from being parked, or
    /// could not.
    Unpark { pid: Pid, ok: bool },
    /// A slice asks for its job.
    AskJob { pid: Pid },
    /// The script yields, ends or fails.
    Mark { pid: Pid, status: Status },
    /// A slice ends.
    EndSlice { pid: Pid, job_pending: bool },
    /// The script calls `recv`.
    Recv { pid: Pid, timeout_ms: Option<u64>, now: u64 },
    /// The script calls `sleep`.
    Sleep { pid: Pid, ms: u64, now: u64 },
    /// A message is sent.
    Deliver { pid: Pid, json: Seq<char> },
    /// A kill is requested.
    Kill { pid: Pid },
    /// A sandbox is narrowed.
    Narrow { pid: Pid, request: Option<bool> },
    /// A process is renamed.
    Rename { pid: Pid, name: Seq<char> },
    /// The timers are serviced.
    Fire { pids: Seq<Pid>, now: u64 },
    /// Workers are told to stop.
    Stop { n: nat },
}

impl WorldView {
    /// Whether the event can happen now.
    pub open spec fn admits(self, e: Event) -> bool {
        match e {
            Event::Create { .. } => self.next_pid < u64::MAX,
            Event::Settle { pid, .. } => self.starting(pid),
            Event::Step => true,
            Event::Wake { pid, kind, .. } => self.owes(pid, kind),
            Event::Unpark { pid, .. } => self.owes(pid, WakeKind::Message),
            Event::AskJob { .. } => true,
            Event::Mark { pid, status } => {
                &&& self.executing(pid)
                &&& status is Yielding || status is Done || status is Failed
            },
            Event::EndSlice { pid, .. } => self.in_slice(pid),
            Event::Recv { pid, .. } => self.executing(pid),
            Event::Sleep { pid, .. } => self.executing(pid),
            Event::Deliver { .. } => true,
            Event::Kill { .. } => true,
            Event::Narrow { pid, .. } => self.alive(pid),
            Event::Rename { .. } => true,
            Event::Fire { pids, now } => self.all_due(pids, now),
            Event::Stop { .. } => true,
        }
    }

    /// The world after the event.
    pub open spec fn after(self, e: Event) -> WorldView {
        match e {
            Event::Create { name, sandbox } => self.created(name, sandbox),
            Event::Settle { pid, ok } => self.settled(pid, ok),
            Event::Step => self.worker_stepped().0,
            Event::Wake { pid, kind, ok } => self.woken(pid, kind, ok),
            Event::Unpark { pid, ok } => self.unparked(pid, ok),
            Event::AskJob { pid } => self.job_asked(pid),
            Event::Mark { pid, status } => self.marked(pid, status),
            Event::EndSlice { pid, job_pending } => self.slice_ended(pid, job_pending).0,
            Event::Recv { pid, timeout_ms, now } => self.recv_called(pid, timeout_ms, now),
            Event::Sleep { pid, ms, now } => self.sleep_called(pid, ms, now),
            Event::Deliver { pid, json } => self.delivered(pid, json),
            Event::Kill { pid } => self.killed(pid),
            Event::Narrow { pid, request } => self.narrowed(pid, request),
            Event::Rename { pid, name } => self.renamed(pid, name),
            Event::Fire { pids, .. } => self.all_fired(pids),
            Event::Stop { n } => self.stopped(n),
        }
    }

    /// Whether the events can happen one after the other, from here.
    pub open spec fn admits_all(self, t: Seq<Event>) -> bool
        decreases t.len(),
    {
        t.len() > 0 ==> self.admits(t[0]) && self.after(t[0]).admits_all(t.drop_first())
    }

    /// The world after all the events.
    pub open spec fn after_all(self, t: Seq<Event>) -> WorldView
        decreases t.len(),
    {
        if t.len() == 0 {
            self
        } else {
            self.after(t[0]).after_all(t.drop_first())
        }
    }

    /// The one process that the event is about, if there is one.
    pub open spec fn subject(self, e: Event) -> Option<Pid> {
        match e {
            Event::Create { .. } => Some(self.next_pid as Pid),
            Event::Settle { pid, .. } => Some(pid),
            Event::Step => if self.queue.len() > 0 && self.queue[0] is Process {
                Some(self.queue[0]->Process_0)
            } else {
                None
            },
            Event::Wake { pid, .. } => Some(pid),
            Event::Unpark { pid, .. } => Some(pid),
            Event::AskJob { pid } => Some(pid),
            Event::Mark { pid, .. } => Some(pid),
            Event::EndSlice { pid, .. } => Some(pid),
            Event::Recv { pid, .. } => Some(pid),
            Event::Sleep { pid, .. } => Some(pid),
            Event::Deliver { pid, .. } => Some(pid),
            Event::Kill { pid } => Some(pid),
            Event::Narrow { pid, .. } => Some(pid),
            Event::Rename { pid, .. } => Some(pid),
            Event::Fire { .. } => None,
            Event::Stop { .. } => None,
        }
    }

    /// The messages that the event puts into the mailbox of `q`.
    pub open spec fn sent(self, e: Event, q: Pid) -> Seq<Seq<char>> {
        match e {
            Event::Deliver { pid, json } => if pid == q && self.alive(q) {
                seq![json]
            } else {
                Seq::empty()
            },
            _ => Seq::empty(),
        }
    }

    /// The messages that the script of `q` is handed by the event.
    pub open spec fn taken(self, e: Event, q: Pid) -> Seq<Seq<char>> {
        match e {
            Event::Settle { pid, ok } => if pid == q && ok {
                settled_message(self.spawned(q).1)
            } else {
                Seq::empty()
            },
            Event::EndSlice { pid, job_pending } => if pid == q {
                settled_message(self.slice_ended(q, job_pending).1)
            } else {
                Seq::empty()
            },
            Event::Step => match self.worker_stepped().1 {
                WorkerStepView::Slice(pid, SliceStartView::Message(json)) => if pid == q {
                    seq![json]
                } else {
                    Seq::empty()
                },
                _ => Seq::empty(),
            },
            Event::Recv { pid, .. } => {
                let p = self.processes[q];
                if pid == q && !p.sleep_pending && p.inbox.len() > 0 {
                    seq![p.inbox[0]]
                } else {
                    Seq::empty()
                }
            },
            _ => Seq::empty(),
        }
    }

    /// The messages that the events put into the mailbox of `q`, in order.
    pub open spec fn all_sent(self, t: Seq<Event>, q: Pid) -> Seq<Seq<char>>
        decreases t.len(),
    {
        if t.len() == 0 {
            Seq::empty()
        } else {
            self.sent(t[0], q) + self.after(t[0]).all_sent(t.drop_first(), q)
        }
    }

    /// The messages that the script of `q` is handed by the events, in order.
    pub open spec fn all_taken(self, t: Seq<Event>, q: Pid) -> Seq<Seq<char>>
        decreases t.len(),
    {
        if t.len() == 0 {
            Seq::empty()
        } else {
            self.taken(t[0], q) + self.after(t[0]).all_taken(t.drop_first(), q)
        }
    }
}

/// The message that a process was given instead of being parked.
pub open spec fn settled_message(s: SettledView) -> Seq<Seq<char>> {
    match s {
        SettledView::Message(json) => seq![json],
        _ => Seq::empty(),
    }
}

/// Servicing the timers touches only the processes that are due: each goes to
/// the run queue, in order, and a parked one is noted as timed out.
pub proof fn lemma_all_fired(w: WorldView, pids: Seq<Pid>)
    requires
        w.wf(),
        forall|i: int|
            0 <= i < pids.len() ==> {
                let p = w.processes[#[trigger] pids[i]];
                &&& w.alive(pids[i])
                &&& p.place is Parked || p.place is Sleeping
            },
        forall|i: int, j: int|
            0 <= i < j < pids.len() ==> #[trigger] pids[i] != #[trigger] pids[j],
    ensures
        w.all_fired(pids).wf(),
        w.all_fired(pids).processes.dom() == w.processes.dom(),
        w.all_fired(pids).next_pid == w.next_pid,
        w.all_fired(pids).active == w.active,
        w.all_fired(pids).failed == w.failed,
        forall|q: Pid|
            !pids.contains(q) ==> #[trigger] w.all_fired(pids).processes[q] == w.processes[q],
        forall|q: Pid|
            pids.contains(q) ==> #[trigger] w.all_fired(pids).processes[q] == (ProcView {
                timed_out: w.processes[q].place is Parked,
                place: Place::Queued,
                ..w.processes[q]
            }),
        w.all_fired(pids).queue == w.queue + pids.map_values(|q: Pid| RunItem::Process(q)),
    decreases pids.len(),
{
    let items = pids.map_values(|q: Pid| RunItem::Process(q));
    if pids.len() == 0 {
        assert(w.queue + items =~= w.queue);
    } else {
        let rest = pids.drop_last();
        let last = pids.last();
        assert forall|i: int| 0 <= i < rest.len() implies {
            let p = w.processes[#[trigger] rest[i]];
            &&& w.alive(rest[i])
            &&& p.place is Parked || p.place is Sleeping
        } by {
            assert(rest[i] == pids[i]);
        }
        assert forall|i: int, j: int| 0 <= i < j < rest.len() implies #[trigger] rest[i]
            != #[trigger] rest[j] by {
            assert(rest[i] == pids[i] && rest[j] == pids[j]);
        }
        lemma_all_fired(w, rest);
        let w1 = w.all_fired(rest);
        let w2 = w.all_fired(pids);
        assert(!rest.contains(last)) by {
            if rest.contains(last) {
                let i = rest.index_of(last);
                assert(pids[i] == last && pids[pids.len() - 1] == last);
            }
        }
        assert(w.alive(pids[pids.len() - 1]));
        assert(w1.processes[last] == w.processes[last]);
        assert(w1.alive(last));
        let p = w.processes[last];
        let p1 = ProcView { timed_out: p.place is Parked, ..p };
        assert(p.ok());
        lemma_enqueued_with_wf(w1, last, p1);
        assert(w2 == w1.fired(last));
        assert(w2.processes.dom() =~= w.processes.dom());
        assert forall|q: Pid| !pids.contains(q) implies #[trigger] w2.processes[q]
            == w.processes[q] by {
            assert(pids[pids.len() - 1] == last);
            if rest.contains(q) {
                let i = rest.index_of(q);
                assert(pids[i] == q);
            }
            assert(w1.processes[q] == w.processes[q]);
        }
        assert forall|q: Pid| pids.contains(q) implies #[trigger] w2.processes[q] == (ProcView {
            timed_out: w.processes[q].place is Parked,
            place: Place::Queued,
            ..w.processes[q]
        }) by {
            if q != last {
                let i = pids.index_of(q);
                assert(rest[i] == q);
                assert(w1.processes[q] == w2.processes[q]);
            }
        }
        assert(w2.queue =~= w.queue + items) by {
            let rest_items = rest.map_values(|q: Pid| RunItem::Process(q));
            assert(items =~= rest_items.push(RunItem::Process(last)));
        }
    }
}

/// The processes that are due stand in the firing order once each.
pub proof fn lemma_due_fired(w: WorldView, pids: Seq<Pid>, now: u64)
    requires
        w.wf(),
        w.all_due(pids, now),
    ensures
        forall|i: int|
            0 <= i < pids.len() ==> {
                let p = w.processes[#[trigger] pids[i]];
                &&& w.alive(pids[i])
                &&& p.place is Parked || p.place is Sleeping
            },
        forall|i: int, j: int|
            0 <= i < j < pids.len() ==> #[trigger] pids[i] != #[trigger] pids[j],
{
    assert forall|i: int| 0 <= i < pids.len() implies {
        let p = w.processes[#[trigger] pids[i]];
        &&& w.alive(pids[i])
        &&& p.place is Parked || p.place is Sleeping
    } by {
        assert(pids.contains(pids[i]));
        assert(w.due(pids[i], now));
    }
    assert forall|i: int, j: int| 0 <= i < j < pids.len() implies #[trigger] pids[i]
        != #[trigger] pids[j] by {
        assert(w.sooner(pids[i], pids[j]));
    }
}

proof fn lemma_parked_wf(w: WorldView, pid: Pid)
    requires
        w.wf(),
        w.in_slice(pid),
        w.processes[pid].status is Waiting,
    ensures
        w.parked(pid).0.wf(),
{
    let p = w.processes[pid];
    assert(p.ok());
    if p.inbox.len() > 0 {
        lemma_with_wf(
            w,
            pid,
            ProcView { inbox: p.inbox.drop_first(), owed: Some(WakeKind::Message), ..p },
        );
    } else {
        lemma_with_wf(w, pid, ProcView { place: Place::Parked, ..p });
    }
}

proof fn lemma_asleep_wf(w: WorldView, pid: Pid)
    requires
        w.wf(),
        w.in_slice(pid),
        w.processes[pid].status is Sleeping,
    ensures
        w.asleep(pid).0.wf(),
{
    let p = w.processes[pid];
    assert(p.ok());
    lemma_with_wf(w, pid, ProcView { place: Place::Sleeping, ..p });
}

proof fn lemma_owing_wf(w: WorldView, pid: Pid, kind: WakeKind)
    requires
        w.wf(),
        w.on_worker(pid),
    ensures
        w.owing(pid, kind).wf(),
{
    let p = w.processes[pid];
    assert(p.ok());
    lemma_with_wf(w, pid, ProcView { owed: Some(kind), ..p });
}

proof fn lemma_worker_stepped_wf(w: WorldView)
    requires
        w.wf(),
    ensures
        w.worker_stepped().0.wf(),
{
    if w.queue.len() > 0 {
        lemma_popped_wf(w);
        if let RunItem::Process(pid) = w.queue[0] {
            let w1 = w.popped();
            assert(w.processes[pid].ok());
            lemma_owing_wf(w1, pid, WakeKind::Timeout);
            lemma_owing_wf(w1, pid, WakeKind::Sleep);
            lemma_owing_wf(w1, pid, WakeKind::Yield);
            match w1.processes[pid].status {
                Status::Killed => lemma_finished_wf(w1, pid),
                Status::Waiting => lemma_parked_wf(w1, pid),
                _ => {},
            }
        }
    }
}

proof fn lemma_woken_wf(w: WorldView, pid: Pid, kind: WakeKind, ok: bool)
    requires
        w.wf(),
        w.on_worker(pid),
    ensures
        w.woken(pid, kind, ok).wf(),
        w.unparked(pid, ok).wf(),
{
    let p = w.processes[pid];
    assert(p.ok());
    if ok {
        lemma_with_wf(w, pid, p.resumed(kind));
        let w1 = w.with(pid, p.resumed(WakeKind::Message));
        lemma_with_wf(w, pid, p.resumed(WakeKind::Message));
        lemma_enqueued_wf(w1, pid);
    } else {
        lemma_finished_with_wf(w, pid, p.set_status_unless_killed(Status::Failed));
    }
}

proof fn lemma_settled_wf(w: WorldView, pid: Pid, ok: bool)
    requires
        w.wf(),
        w.starting(pid),
    ensures
        w.settled(pid, ok).wf(),
{
    if ok {
        lemma_begun_wf(w, pid);
        let w1 = w.begun(pid);
        match w.processes[pid].status {
            Status::Waiting => lemma_parked_wf(w1, pid),
            Status::Sleeping => lemma_asleep_wf(w1, pid),
            _ => lemma_enqueued_wf(w1, pid),
        }
    } else {
        lemma_without_wf(w, pid);
    }
}

proof fn lemma_slice_ended_wf(w: WorldView, pid: Pid, job_pending: bool)
    requires
        w.wf(),
        w.in_slice(pid),
    ensures
        w.slice_ended(pid, job_pending).0.wf(),
{
    match w.processes[pid].status {
        Status::Done | Status::Failed | Status::Killed => lemma_finished_wf(w, pid),
        Status::Waiting => lemma_parked_wf(w, pid),
        Status::Sleeping => lemma_asleep_wf(w, pid),
        Status::Yielding => lemma_enqueued_wf(w, pid),
        Status::Running => {
            lemma_enqueued_wf(w, pid);
            lemma_finished_wf(w, pid);
        },
    }
}

proof fn lemma_script_wf(w: WorldView, pid: Pid, e: Event)
    requires
        w.wf(),
        w.executing(pid),
        w.admits(e),
        w.subject(e) == Some(pid),
        e is Mark || e is Recv || e is Sleep,
    ensures
        w.after(e).wf(),
{
    let p = w.processes[pid];
    assert(p.ok());
    let p1 = w.after(e).processes[pid];
    if w.after(e) != w {
        assert(w.after(e) == w.with(pid, p1));
        lemma_with_wf(w, pid, p1);
    }
}

proof fn lemma_job_asked_wf(w: WorldView, pid: Pid)
    requires
        w.wf(),
    ensures
        w.job_asked(pid).wf(),
{
    if w.grants_job(pid) {
        let p = w.processes[pid];
        assert(p.ok());
        lemma_with_wf(w, pid, ProcView { ran_job: true, ..p });
    }
}

proof fn lemma_delivered_wf(w: WorldView, pid: Pid, json: Seq<char>)
    requires
        w.wf(),
    ensures
        w.delivered(pid, json).wf(),
{
    if w.alive(pid) {
        let p = w.processes[pid];
        let p1 = ProcView { inbox: p.inbox.push(json), ..p };
        assert(p.ok());
        if p.place is Parked {
            lemma_enqueued_with_wf(w, pid, p1);
        } else {
            lemma_with_wf(w, pid, p1);
        }
    }
}

proof fn lemma_killed_wf(w: WorldView, pid: Pid)
    requires
        w.wf(),
    ensures
        w.killed(pid).wf(),
{
    if w.alive(pid) {
        let p = w.processes[pid];
        let p1 = ProcView { status: Status::Killed, ..p };
        assert(p.ok());
        if p.place is Parked || p.place is Sleeping {
            lemma_finished_with_wf(w, pid, p1);
        } else {
            lemma_with_wf(w, pid, p1);
        }
    }
}

proof fn lemma_relabelled_wf(w: WorldView, pid: Pid, request: Option<bool>, name: Seq<char>)
    requires
        w.wf(),
    ensures
        w.alive(pid) ==> w.narrowed(pid, request).wf(),
        w.renamed(pid, name).wf(),
{
    if w.alive(pid) {
        let p = w.processes[pid];
        assert(p.ok());
        lemma_with_wf(w, pid, ProcView { sandbox: p.sandbox.spec_narrow(request), ..p });
        lemma_with_wf(w, pid, ProcView { name, ..p });
    }
}

/// Whatever happens, the world stays well-formed.
pub proof fn lemma_after_wf(w: WorldView, e: Event)
    requires
        w.wf(),
        w.admits(e),
    ensures
        w.after(e).wf(),
{
    match e {
        Event::Create { name, sandbox } => lemma_created_wf(w, name, sandbox),
        Event::Settle { pid, ok } => lemma_settled_wf(w, pid, ok),
        Event::Step => lemma_worker_stepped_wf(w),
        Event::Wake { pid, kind, ok } => lemma_woken_wf(w, pid, kind, ok),
        Event::Unpark { pid, ok } => lemma_woken_wf(w, pid, WakeKind::Message, ok),
        Event::AskJob { pid } => lemma_job_asked_wf(w, pid),
        Event::Mark { pid, .. } => lemma_script_wf(w, pid, e),
        Event::EndSlice { pid, job_pending } => lemma_slice_ended_wf(w, pid, job_pending),
        Event::Recv { pid, .. } => lemma_script_wf(w, pid, e),
        Event::Sleep { pid, .. } => lemma_script_wf(w, pid, e),
        Event::Deliver { pid, json } => lemma_delivered_wf(w, pid, json),
        Event::Kill { pid } => lemma_killed_wf(w, pid),
        Event::Narrow { pid, request } => lemma_relabelled_wf(w, pid, request, Seq::empty()),
        Event::Rename { pid, name } => lemma_relabelled_wf(w, pid, None, name),
        Event::Fire { pids, now } => {
            lemma_due_fired(w, pids, now);
            lemma_all_fired(w, pids);
        },
        Event::Stop { n } => lemma_stopped_wf(w, n),
    }
}

} // verus!
