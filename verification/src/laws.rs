//! What holds of the runtime as a whole: of any one event, and of any course of
//! events.

use vstd::prelude::*;

use crate::host::{kill_answer, restrict_answer};
use crate::model::{lemma_finished_wf, SettledView, SliceStartView, WorkerStepView, WorldView};
use crate::process::{ErrorClass, Pid, ProcView, Sandbox, Status, WakeKind};
use crate::queue::RunItem;
use crate::rpc::{dispatched, is_dispatch, lemma_methods_distinct, Dispatch, ParamsView, Reply};
use crate::scheduler::{is_info, is_listing};
use crate::trace::{lemma_after_wf, lemma_all_fired, lemma_due_fired, Event};

pub mod calls;
pub mod control;
pub mod dealings;
pub mod lifecycle;
pub mod scripts;
pub mod suspension;
pub mod texts;

verus! {

/// Intersecting sandboxes is commutative, associative and idempotent. A
/// privileged operand changes nothing, and a confined one takes everything.
pub proof fn intersection(a: Sandbox, b: Sandbox, c: Sandbox)
    ensures
        a.spec_intersect(b) == b.spec_intersect(a),
        a.spec_intersect(b).spec_intersect(c) == a.spec_intersect(b.spec_intersect(c)),
        a.spec_intersect(a) == a,
        a.spec_intersect(Sandbox::spec_privileged()) == a,
        a.spec_intersect(Sandbox::spec_confined()) == Sandbox::spec_confined(),
{
}

/// An intersection allows no more than either operand, and whatever both
/// allow.
pub proof fn intersection_narrows(a: Sandbox, b: Sandbox, c: Sandbox)
    ensures
        a.spec_intersect(b).within(a),
        a.spec_intersect(b).within(b),
        c.within(a) && c.within(b) ==> c.within(a.spec_intersect(b)),
{
}

/// The sandbox after a number of requests to narrow it.
pub open spec fn narrowed_by(s: Sandbox, requests: Seq<Option<bool>>) -> Sandbox
    decreases requests.len(),
{
    if requests.len() == 0 {
        s
    } else {
        narrowed_by(s.spec_narrow(requests[0]), requests.drop_first())
    }
}

/// No sequence of requests widens a sandbox: confinement cannot be undone.
pub proof fn confinement_is_irrevocable(s: Sandbox, requests: Seq<Option<bool>>)
    ensures
        narrowed_by(s, requests).within(s),
        s == Sandbox::spec_confined() ==> narrowed_by(s, requests) == Sandbox::spec_confined(),
        requests.contains(Some(false)) ==> narrowed_by(s, requests) == Sandbox::spec_confined(),
    decreases requests.len(),
{
    if requests.len() > 0 {
        let rest = requests.drop_first();
        confinement_is_irrevocable(s.spec_narrow(requests[0]), rest);
        if requests.contains(Some(false)) && requests[0] != Some(false) {
            let i = requests.index_of(Some(false));
            assert(rest[i - 1] == Some(false));
        }
    }
}

/// An event leaves every process alone that it is not about. Servicing the
/// timers is about all processes that are due.
pub proof fn isolation(w: WorldView, e: Event, q: Pid)
    requires
        w.wf(),
        w.admits(e),
        w.subject(e) != Some(q),
        e matches Event::Fire { now, .. } ==> !w.due(q, now),
    ensures
        w.after(e).alive(q) == w.alive(q),
        w.alive(q) ==> w.after(e).processes[q] == w.processes[q],
{
    if let Event::Fire { pids, now } = e {
        lemma_due_fired(w, pids, now);
        lemma_all_fired(w, pids);
        assert(!pids.contains(q));
        assert(w.after(e).processes[q] == w.processes[q]);
    }
}

/// What one event does to the record of `q`.
spec fn evolves(w: WorldView, e: Event, q: Pid) -> bool {
    let w2 = w.after(e);
    let p = w.processes[q];
    let p2 = w2.processes[q];
    &&& w.next_pid <= w2.next_pid
    &&& !w.alive(q) ==> !w2.alive(q)
    &&& w.alive(q) && p.status is Killed ==> {
        if w2.alive(q) {
            p2.status is Killed
        } else {
            w2.failed == w.failed
        }
    }
    &&& w.alive(q) && w2.alive(q) ==> {
        &&& p2.sandbox.within(p.sandbox)
        &&& p.inbox + w.sent(e, q) =~= w.taken(e, q) + p2.inbox
    }
}

proof fn lemma_bystander(w: WorldView, e: Event, q: Pid)
    requires
        w.subject(e) != Some(q),
        !(e is Fire),
    ensures
        w.next_pid <= w.after(e).next_pid,
        w.sent(e, q) == Seq::<Seq<char>>::empty(),
        w.taken(e, q) == Seq::<Seq<char>>::empty(),
{
}

proof fn lemma_evolves_settle(w: WorldView, e: Event, q: Pid)
    requires
        w.admits(e),
        q < w.next_pid <= u64::MAX,
        w.alive(q) ==> w.processes[q].ok(),
        w.subject(e) == Some(q),
        e is Settle,
    ensures
        evolves(w, e, q),
{
}

proof fn lemma_evolves_step(w: WorldView, e: Event, q: Pid)
    requires
        w.admits(e),
        q < w.next_pid <= u64::MAX,
        w.alive(q) ==> w.processes[q].ok(),
        w.subject(e) == Some(q),
        e is Step,
        w.alive(q),
    ensures
        evolves(w, e, q),
{
}

proof fn lemma_evolves_end(w: WorldView, e: Event, q: Pid)
    requires
        w.admits(e),
        q < w.next_pid <= u64::MAX,
        w.alive(q) ==> w.processes[q].ok(),
        w.subject(e) == Some(q),
        e is EndSlice,
    ensures
        evolves(w, e, q),
{
}

proof fn lemma_evolves_wake(w: WorldView, e: Event, q: Pid)
    requires
        w.admits(e),
        q < w.next_pid <= u64::MAX,
        w.alive(q) ==> w.processes[q].ok(),
        w.subject(e) == Some(q),
        e is Wake || e is Unpark,
    ensures
        evolves(w, e, q),
{
}

proof fn lemma_evolves_script(w: WorldView, e: Event, q: Pid)
    requires
        w.admits(e),
        q < w.next_pid <= u64::MAX,
        w.alive(q) ==> w.processes[q].ok(),
        w.subject(e) == Some(q),
        e is Mark || e is Recv || e is Sleep,
    ensures
        evolves(w, e, q),
{
}

proof fn lemma_evolves_asked(w: WorldView, e: Event, q: Pid)
    requires
        w.admits(e),
        q < w.next_pid <= u64::MAX,
        w.alive(q) ==> w.processes[q].ok(),
        w.subject(e) == Some(q),
        e is Deliver || e is Kill || e is Narrow || e is Rename || e is AskJob,
    ensures
        evolves(w, e, q),
{
}

proof fn lemma_evolves(w: WorldView, e: Event, q: Pid)
    requires
        w.wf(),
        w.admits(e),
        q < w.next_pid,
    ensures
        evolves(w, e, q),
{
    if let Event::Fire { pids, now } = e {
        lemma_due_fired(w, pids, now);
        lemma_all_fired(w, pids);
        assert(w.after(e).alive(q) == w.alive(q));
        assert(pids.contains(q) || !pids.contains(q));
        assert(w.after(e).processes[q].inbox == w.processes[q].inbox);
    } else if w.subject(e) != Some(q) {
        isolation(w, e, q);
        lemma_bystander(w, e, q);
    } else {
        match e {
            Event::Settle { .. } => lemma_evolves_settle(w, e, q),
            Event::Step => lemma_evolves_step(w, e, q),
            Event::EndSlice { .. } => lemma_evolves_end(w, e, q),
            Event::Wake { .. } | Event::Unpark { .. } => lemma_evolves_wake(w, e, q),
            Event::Mark { .. } | Event::Recv { .. } | Event::Sleep { .. } => lemma_evolves_script(
                w,
                e,
                q,
            ),
            _ => lemma_evolves_asked(w, e, q),
        }
    }
}

/// Whatever happens to a well-formed world, it stays well-formed. In
/// particular, at all times:
/// - every process is held by one party only, and stands on the run queue once
///   exactly if its record says so;
/// - a parked process has an empty mailbox;
/// - `recv()` and `sleep()` are not pending at the same time in one process;
/// - the count of active processes is that of the processes whose entry script
///   has been evaluated.
pub proof fn soundness(w: WorldView, t: Seq<Event>)
    requires
        w.wf(),
        w.admits_all(t),
    ensures
        w.after_all(t).wf(),
    decreases t.len(),
{
    if t.len() > 0 {
        lemma_after_wf(w, t[0]);
        soundness(w.after(t[0]), t.drop_first());
    }
}

/// A new process gets a pid that no process has had.
pub proof fn pids_are_fresh(w: WorldView, name: Seq<char>, sandbox: Sandbox)
    requires
        w.wf(),
        w.next_pid < u64::MAX,
    ensures
        !w.alive(w.next_pid as Pid),
        w.created(name, sandbox).alive(w.next_pid as Pid),
        w.created(name, sandbox).next_pid > w.next_pid,
{
    if w.alive(w.next_pid as Pid) {
        assert((w.next_pid as Pid) < w.next_pid);
    }
}

/// Pids are never reused: one that has been handed out and is not alive stays
/// that way for ever.
pub proof fn pids_are_never_reused(w: WorldView, t: Seq<Event>, q: Pid)
    requires
        w.wf(),
        w.admits_all(t),
        q < w.next_pid,
        !w.alive(q),
    ensures
        !w.after_all(t).alive(q),
    decreases t.len(),
{
    if t.len() > 0 {
        lemma_after_wf(w, t[0]);
        lemma_evolves(w, t[0], q);
        pids_are_never_reused(w.after(t[0]), t.drop_first(), q);
    }
}

/// An accepted kill stays: the process is killed until it is gone. When it
/// goes, no failure is counted.
pub proof fn kill_stays(w: WorldView, e: Event, q: Pid)
    requires
        w.wf(),
        w.admits(e),
        w.alive(q),
        w.processes[q].status is Killed,
    ensures
        w.after(e).alive(q) ==> w.after(e).processes[q].status is Killed,
        !w.after(e).alive(q) ==> w.after(e).failed == w.failed,
{
    assert(q < w.next_pid);
    lemma_evolves(w, e, q);
}

/// A killed process is never seen in any other status again.
pub proof fn killed_for_good(w: WorldView, t: Seq<Event>, q: Pid)
    requires
        w.wf(),
        w.admits_all(t),
        w.alive(q),
        w.processes[q].status is Killed,
    ensures
        w.after_all(t).alive(q) ==> w.after_all(t).processes[q].status is Killed,
    decreases t.len(),
{
    if t.len() > 0 {
        lemma_after_wf(w, t[0]);
        kill_stays(w, t[0], q);
        if w.after(t[0]).alive(q) {
            killed_for_good(w.after(t[0]), t.drop_first(), q);
        } else {
            assert(q < w.next_pid);
            lemma_evolves(w, t[0], q);
            pids_are_never_reused(w.after(t[0]), t.drop_first(), q);
        }
    }
}

/// Whatever happens, a process never holds a permission again that it lacked.
pub proof fn sandboxes_only_narrow(w: WorldView, t: Seq<Event>, q: Pid)
    requires
        w.wf(),
        w.admits_all(t),
        w.alive(q),
        w.after_all(t).alive(q),
    ensures
        w.after_all(t).processes[q].sandbox.within(w.processes[q].sandbox),
    decreases t.len(),
{
    if t.len() > 0 {
        lemma_after_wf(w, t[0]);
        assert(q < w.next_pid);
        lemma_evolves(w, t[0], q);
        if !w.after(t[0]).alive(q) {
            pids_are_never_reused(w.after(t[0]), t.drop_first(), q);
        }
        sandboxes_only_narrow(w.after(t[0]), t.drop_first(), q);
    }
}

/// The mailbox is a queue from which nothing is lost: what a live process has
/// been handed, followed by what is still in its mailbox, is what was in its
/// mailbox before, followed by what has been sent to it since. That the script
/// is told of what its process was handed says [`owed_wakes_are_paid`].
pub proof fn messages_arrive_once_and_in_order(w: WorldView, t: Seq<Event>, q: Pid)
    requires
        w.wf(),
        w.admits_all(t),
        w.alive(q),
        w.after_all(t).alive(q),
    ensures
        w.processes[q].inbox + w.all_sent(t, q) == w.all_taken(t, q) + w.after_all(
            t,
        ).processes[q].inbox,
    decreases t.len(),
{
    if t.len() > 0 {
        let e = t[0];
        let rest = t.drop_first();
        let w1 = w.after(e);
        lemma_after_wf(w, e);
        assert(q < w.next_pid);
        lemma_evolves(w, e, q);
        if !w1.alive(q) {
            pids_are_never_reused(w1, rest, q);
        }
        messages_arrive_once_and_in_order(w1, rest, q);
        let inbox = w.processes[q].inbox;
        let end = w.after_all(t).processes[q].inbox;
        assert(inbox + (w.sent(e, q) + w1.all_sent(rest, q)) =~= (inbox + w.sent(e, q))
            + w1.all_sent(rest, q));
        assert((w.taken(e, q) + w1.processes[q].inbox) + w1.all_sent(rest, q) =~= w.taken(e, q) + (
        w1.processes[q].inbox + w1.all_sent(rest, q)));
        assert(w.taken(e, q) + (w1.all_taken(rest, q) + end) =~= (w.taken(e, q) + w1.all_taken(
            rest,
            q,
        )) + end);
    } else {
        assert(w.processes[q].inbox + w.all_sent(t, q) =~= w.all_taken(t, q) + w.processes[q].inbox);
    }
}

/// How often a worker asks for work in the course of the events.
pub open spec fn steps(t: Seq<Event>) -> nat
    decreases t.len(),
{
    if t.len() == 0 {
        0
    } else {
        (if t[0] is Step {
            1nat
        } else {
            0nat
        }) + steps(t.drop_first())
    }
}

/// The run queue is a queue: asking for work takes its front off, and nothing
/// else does more than add to its back.
pub proof fn run_queue_is_fair(w: WorldView, e: Event)
    requires
        w.wf(),
        w.admits(e),
    ensures
        e is Step && w.queue.len() > 0 ==> w.after(e).queue == w.queue.drop_first(),
        !(e is Step) ==> w.queue.is_prefix_of(w.after(e).queue),
{
    if let Event::Fire { pids, now } = e {
        lemma_due_fired(w, pids, now);
        lemma_all_fired(w, pids);
    }
}

/// What stays as it is while a process stands on the run queue: it may be sent
/// messages, and killed, but nothing else happens to it.
pub open spec fn queued_alike(p: ProcView, p2: ProcView) -> bool {
    &&& p2.status == p.status || p2.status is Killed
    &&& p2.timed_out == p.timed_out
    &&& p.inbox.is_prefix_of(p2.inbox)
}

proof fn lemma_queued_step(w: WorldView, e: Event, q: Pid, i: int)
    requires
        w.wf(),
        w.admits(e),
        0 <= i < w.queue.len(),
        w.queue[i] == RunItem::Process(q),
        e is Step ==> i > 0,
    ensures
        w.alive(q),
        w.after(e).alive(q),
        w.after(e).queue.len() > i - steps(seq![e]),
        w.after(e).queue[i - steps(seq![e])] == RunItem::Process(q),
        queued_alike(w.processes[q], w.after(e).processes[q]),
{
    assert(steps(seq![e].drop_first()) == 0);
    assert(w.processes[q].place is Queued);
    run_queue_is_fair(w, e);
    assert(q < w.next_pid);
    if e is Step {
        assert(w.queue[0] != w.queue[i]) by {
            if w.queue[0] is Process {
            }
        }
        isolation(w, e, q);
    } else if w.subject(e) != Some(q) {
        if let Event::Fire { now, .. } = e {
            assert(!w.due(q, now));
        }
        isolation(w, e, q);
    }
}

/// A process on the run queue keeps its turn: it is handed to a worker after
/// those that stand before it, whatever else happens meanwhile.
pub proof fn queued_processes_keep_their_turn(w: WorldView, t: Seq<Event>, q: Pid, i: int)
    requires
        w.wf(),
        w.admits_all(t),
        0 <= i < w.queue.len(),
        w.queue[i] == RunItem::Process(q),
        steps(t) <= i,
    ensures
        w.alive(q),
        w.after_all(t).alive(q),
        w.after_all(t).queue.len() > i - steps(t),
        w.after_all(t).queue[i - steps(t)] == RunItem::Process(q),
        queued_alike(w.processes[q], w.after_all(t).processes[q]),
    decreases t.len(),
{
    if t.len() > 0 {
        let e = t[0];
        assert(steps(seq![e].drop_first()) == 0);
        lemma_queued_step(w, e, q, i);
        lemma_after_wf(w, e);
        queued_processes_keep_their_turn(w.after(e), t.drop_first(), q, i - steps(seq![e]));
    } else {
        assert(w.alive(q));
    }
}

/// The yielding process rejoins the back of the run queue and stays yielding
/// until its turn comes, when its `yieldNow()` is resolved.
pub proof fn yielding_rejoins_at_the_back(w: WorldView, q: Pid, job_pending: bool, t: Seq<Event>)
    requires
        w.wf(),
        w.in_slice(q),
        !(w.processes[q].status is Killed),
        w.marked(q, Status::Yielding).slice_ended(q, job_pending).0.admits_all(t),
        steps(t) == w.queue.len(),
    ensures
        ({
            let w1 = w.marked(q, Status::Yielding).slice_ended(q, job_pending).0;
            let w2 = w1.after_all(t);
            &&& w1.queue == w.queue.push(RunItem::Process(q))
            &&& w2.queue.len() > 0 && w2.queue[0] == RunItem::Process(q)
            &&& w2.worker_stepped().1 == WorkerStepView::Slice(
                q,
                if w2.processes[q].status is Killed {
                    SliceStartView::Gone
                } else {
                    SliceStartView::Yield
                },
            )
        }),
{
    let mark = Event::Mark { pid: q, status: Status::Yielding };
    let end = Event::EndSlice { pid: q, job_pending };
    let w0 = w.after(mark);
    lemma_after_wf(w, mark);
    assert(w0.in_slice(q));
    lemma_after_wf(w0, end);
    let w1 = w0.after(end);
    assert(w1.queue[w.queue.len() as int] == RunItem::Process(q));
    queued_processes_keep_their_turn(w1, t, q, w.queue.len() as int);
}

/// No wake-up is lost: a message for a parked process puts it on the run
/// queue, and when its turn comes it is handed that very message, unless it is
/// killed before.
pub proof fn messages_wake_parked_processes(w: WorldView, q: Pid, json: Seq<char>, t: Seq<Event>)
    requires
        w.wf(),
        w.alive(q),
        w.processes[q].place is Parked,
        w.delivered(q, json).admits_all(t),
        steps(t) == w.queue.len(),
    ensures
        ({
            let w2 = w.delivered(q, json).after_all(t);
            &&& w2.queue.len() > 0 && w2.queue[0] == RunItem::Process(q)
            &&& w2.worker_stepped().1 == WorkerStepView::Slice(
                q,
                if w2.processes[q].status is Killed {
                    SliceStartView::Gone
                } else {
                    SliceStartView::Message(json)
                },
            )
        }),
{
    let e = Event::Deliver { pid: q, json };
    assert(w.processes[q].ok());
    lemma_after_wf(w, e);
    let w1 = w.after(e);
    assert(w1.queue[w.queue.len() as int] == RunItem::Process(q));
    assert(w1.processes[q].inbox =~= seq![json]);
    queued_processes_keep_their_turn(w1, t, q, w.queue.len() as int);
    let w2 = w1.after_all(t);
    assert(w2.processes[q].inbox.subrange(0, 1)[0] == json);
}

/// A process is never taken off the run queue for nothing: one that waits is
/// told of a message or of a timeout.
pub proof fn no_wake_for_nothing(w: WorldView, q: Pid)
    requires
        w.wf(),
    ensures
        w.worker_stepped().1 != WorkerStepView::Slice(q, SliceStartView::Parked),
{
    if w.queue.len() > 0 && w.queue[0] == RunItem::Process(q) {
        assert(w.alive(q));
        assert(w.processes[q].ok());
    }
}

/// Whether servicing the timers finds `q` waiting in vain: parked, its mailbox
/// empty, and its deadline passed.
pub open spec fn expires(w: WorldView, e: Event, q: Pid) -> bool {
    &&& e matches Event::Fire { now, .. } && w.due(q, now)
    &&& w.processes[q].place is Parked
    &&& w.processes[q].inbox.len() == 0
}

/// Whether that happens in the course of the events.
pub open spec fn expires_during(w: WorldView, t: Seq<Event>, q: Pid) -> bool
    decreases t.len(),
{
    t.len() > 0 && (expires(w, t[0], q) || expires_during(w.after(t[0]), t.drop_first(), q))
}

proof fn lemma_timed_out_step(w: WorldView, e: Event, q: Pid)
    requires
        w.wf(),
        w.admits(e),
        w.alive(q),
        w.after(e).alive(q),
        w.after(e).processes[q].timed_out,
    ensures
        w.processes[q].timed_out || expires(w, e, q),
{
    assert(w.processes[q].ok());
    assert(q < w.next_pid);
    if let Event::Fire { pids, now } = e {
        lemma_due_fired(w, pids, now);
        lemma_all_fired(w, pids);
        assert(pids.contains(q) || !pids.contains(q));
    } else if w.subject(e) != Some(q) {
        isolation(w, e, q);
    }
}

/// A `recv(timeoutMs)` fails only if its deadline passed while its process was
/// parked with an empty mailbox.
pub proof fn timeouts_are_deserved(w: WorldView, t: Seq<Event>, q: Pid)
    requires
        w.wf(),
        w.admits_all(t),
        w.alive(q),
        !w.processes[q].timed_out,
        w.after_all(t).worker_stepped().1 == WorkerStepView::Slice(q, SliceStartView::Timeout),
    ensures
        expires_during(w, t, q),
{
    soundness(w, t);
    let w2 = w.after_all(t);
    assert(w2.alive(q));
    lemma_timed_out_during(w, t, q);
}

proof fn lemma_timed_out_during(w: WorldView, t: Seq<Event>, q: Pid)
    requires
        w.wf(),
        w.admits_all(t),
        w.alive(q),
        !w.processes[q].timed_out,
        w.after_all(t).alive(q),
        w.after_all(t).processes[q].timed_out,
    ensures
        expires_during(w, t, q),
    decreases t.len(),
{
    if t.len() > 0 {
        let w1 = w.after(t[0]);
        lemma_after_wf(w, t[0]);
        assert(q < w.next_pid);
        lemma_evolves(w, t[0], q);
        if !w1.alive(q) {
            pids_are_never_reused(w1, t.drop_first(), q);
        }
        if w1.processes[q].timed_out {
            lemma_timed_out_step(w, t[0], q);
        } else {
            lemma_timed_out_during(w1, t.drop_first(), q);
        }
    }
}

/// A `recv()` without a timeout never expires: no deadline is left over from
/// an earlier suspension.
pub proof fn plain_recv_waits_for_ever(w: WorldView, q: Pid, now: u64, job_pending: bool)
    requires
        w.wf(),
        w.in_slice(q),
        !w.processes[q].sleep_pending,
        !(w.processes[q].status is Killed),
        w.processes[q].inbox.len() == 0,
    ensures
        ({
            let (w1, settled) = w.recv_called(q, None, now).slice_ended(q, job_pending);
            &&& settled == SettledView::Parked
            &&& w1.processes[q].place is Parked
            &&& forall|later: u64| !#[trigger] w1.due(q, later)
        }),
{
}

/// A message that races a timeout stays in the mailbox: the `recv` whose
/// deadline has passed is told so when its turn comes, and the next `recv`
/// gets the message.
pub proof fn racing_messages_are_kept(
    w: WorldView,
    q: Pid,
    now: u64,
    pids: Seq<Pid>,
    json: Seq<char>,
    t: Seq<Event>,
    timeout_ms: Option<u64>,
    later: u64,
)
    requires
        w.wf(),
        w.due(q, now),
        w.processes[q].place is Parked,
        w.all_due(pids, now),
        w.all_fired(pids).delivered(q, json).admits_all(t),
        steps(t) == w.all_fired(pids).queue.index_of(RunItem::Process(q)),
        !(w.all_fired(pids).delivered(q, json).after_all(t).processes[q].status is Killed),
    ensures
        ({
            let w2 = w.all_fired(pids).delivered(q, json).after_all(t);
            let (w3, step) = w2.worker_stepped();
            let w4 = w3.woken(q, WakeKind::Timeout, true);
            &&& step == WorkerStepView::Slice(q, SliceStartView::Timeout)
            &&& w4.executing(q)
            &&& w4.processes[q].inbox.len() > 0 && w4.processes[q].inbox[0] == json
            &&& w4.taken(Event::Recv { pid: q, timeout_ms, now: later }, q) == seq![json]
        }),
{
    let fire = Event::Fire { pids, now };
    let deliver = Event::Deliver { pid: q, json };
    lemma_due_fired(w, pids, now);
    lemma_all_fired(w, pids);
    assert(w.processes[q].ok());
    let w0 = w.after(fire);
    lemma_after_wf(w, fire);
    let w1 = w0.after(deliver);
    lemma_after_wf(w0, deliver);
    assert(pids.contains(q));
    let k = pids.index_of(q);
    let i = w.queue.len() + k;
    assert(w0.queue[i] == RunItem::Process(q)) by {
        assert(w0.queue[i] == pids.map_values(|r: Pid| RunItem::Process(r))[k]);
    }
    assert(w0.processes[q].timed_out);
    assert(w1.queue == w0.queue);
    let j = w0.queue.index_of(RunItem::Process(q));
    assert(w0.queue[j] == RunItem::Process(q));
    assert(w1.processes[q].inbox =~= seq![json]);
    queued_processes_keep_their_turn(w1, t, q, j);
    let w2 = w1.after_all(t);
    soundness(w1, t);
    assert(w2.processes[q].ok());
    assert(w2.processes[q].inbox.subrange(0, 1)[0] == json);
}

/// `sleep(ms)` puts its process to rest until `ms` milliseconds have passed,
/// whatever is in its mailbox.
pub proof fn sleep_rests(w: WorldView, q: Pid, ms: u64, now: u64, job_pending: bool)
    requires
        w.wf(),
        w.in_slice(q),
        !w.processes[q].recv_pending,
        !(w.processes[q].status is Killed),
    ensures
        ({
            let (w1, settled) = w.sleep_called(q, ms, now).slice_ended(q, job_pending);
            &&& settled == SettledView::Asleep
            &&& w1.processes[q].place is Sleeping
            &&& w1.processes[q].inbox == w.processes[q].inbox
            &&& forall|later: u64| #[trigger]
                w1.due(q, later) <==> later >= now + ms * 1_000_000
        }),
{
    assert(now + ms * 1_000_000 <= u128::MAX);
}

/// Whether servicing the timers finds that the `sleep()` of `q` is over.
pub open spec fn sleep_ends(w: WorldView, e: Event, q: Pid) -> bool {
    &&& e matches Event::Fire { now, .. } && w.due(q, now)
    &&& w.processes[q].place is Sleeping
}

/// Whether that happens in the course of the events.
pub open spec fn sleep_ends_during(w: WorldView, t: Seq<Event>, q: Pid) -> bool
    decreases t.len(),
{
    t.len() > 0 && (sleep_ends(w, t[0], q) || sleep_ends_during(
        w.after(t[0]),
        t.drop_first(),
        q,
    ))
}

proof fn lemma_sleeping_step(w: WorldView, e: Event, q: Pid)
    requires
        w.wf(),
        w.admits(e),
        w.alive(q),
        w.processes[q].place is Sleeping,
        w.after(e).alive(q),
    ensures
        sleep_ends(w, e, q) || w.after(e).processes[q].place is Sleeping,
        w.after(e).processes[q].deadline == w.processes[q].deadline,
{
    assert(w.processes[q].ok());
    assert(q < w.next_pid);
    if let Event::Fire { pids, now } = e {
        lemma_due_fired(w, pids, now);
        lemma_all_fired(w, pids);
        assert(pids.contains(q) || !pids.contains(q));
    } else if w.subject(e) != Some(q) {
        isolation(w, e, q);
    } else if e is Step {
        assert(w.processes[q].place is Queued);
    }
}

/// A sleep is never cut short: a sleeping process that is not killed stays at
/// rest, with its deadline, until the timers are serviced after that deadline.
/// In particular, messages do not wake it.
pub proof fn sleep_is_never_early(w: WorldView, t: Seq<Event>, q: Pid)
    requires
        w.wf(),
        w.admits_all(t),
        w.alive(q),
        w.processes[q].place is Sleeping,
        w.after_all(t).alive(q),
    ensures
        sleep_ends_during(w, t, q) || {
            &&& w.after_all(t).processes[q].place is Sleeping
            &&& w.after_all(t).processes[q].deadline == w.processes[q].deadline
        },
    decreases t.len(),
{
    if t.len() > 0 {
        let w1 = w.after(t[0]);
        lemma_after_wf(w, t[0]);
        assert(q < w.next_pid);
        lemma_evolves(w, t[0], q);
        if !w1.alive(q) {
            pids_are_never_reused(w1, t.drop_first(), q);
        }
        lemma_sleeping_step(w, t[0], q);
        if w1.processes[q].place is Sleeping {
            sleep_is_never_early(w1, t.drop_first(), q);
        }
    }
}

/// Servicing the timers leaves nothing behind that is due.
pub proof fn timers_are_serviced(w: WorldView, pids: Seq<Pid>, now: u64, q: Pid)
    requires
        w.wf(),
        w.all_due(pids, now),
    ensures
        !w.all_fired(pids).due(q, now),
        w.due(q, now) ==> w.all_fired(pids).queue.contains(RunItem::Process(q)),
{
    lemma_due_fired(w, pids, now);
    lemma_all_fired(w, pids);
    if w.due(q, now) {
        assert(pids.contains(q));
        let k = pids.index_of(q);
        assert(w.all_fired(pids).queue[w.queue.len() + k] == pids.map_values(
            |r: Pid| RunItem::Process(r),
        )[k]);
    }
}

/// A kill takes effect at once on a process at rest, and at its next scheduling
/// boundary on any other: when the slice that it is in ends, or before the
/// slice that it is queued for begins. It runs no further job, and no failure
/// is counted.
pub proof fn kill_takes_effect(w: WorldView, q: Pid, job_pending: bool)
    requires
        w.wf(),
        w.alive(q),
    ensures
        ({
            let w1 = w.killed(q);
            let place = w.processes[q].place;
            &&& w1.failed == w.failed
            &&& place is Parked || place is Sleeping ==> !w1.alive(q)
            &&& !(place is Parked || place is Sleeping) ==> {
                &&& w1.alive(q)
                &&& w1.processes[q].status is Killed
            }
            &&& w.in_slice(q) ==> {
                let (w2, settled) = w1.slice_ended(q, job_pending);
                settled == SettledView::Gone && !w2.alive(q) && w2.failed == w.failed
            }
            &&& place is Queued && w.queue[0] == RunItem::Process(q) ==> {
                let (w2, step) = w1.worker_stepped();
                &&& step == WorkerStepView::Slice(q, SliceStartView::Gone)
                &&& !w2.alive(q)
                &&& w2.failed == w.failed
            }
            &&& place is Starting ==> {
                let w2 = w1.settled(q, true);
                w2.processes[q].place is Queued && w2.processes[q].status is Killed
            }
        }),
{
    if w.processes[q].place is Queued {
        assert(w.queue.contains(RunItem::Process(q)));
    }
}

/// A failure ends the process that failed, and counts once. Every other
/// process is left alone.
pub proof fn failure_is_contained(w: WorldView, q: Pid, r: Pid, job_pending: bool)
    requires
        w.wf(),
        w.in_slice(q),
        !(w.processes[q].status is Killed),
        r != q,
    ensures
        ({
            let (w1, settled) = w.marked(q, Status::Failed).slice_ended(q, job_pending);
            &&& settled == SettledView::Gone
            &&& !w1.alive(q)
            &&& w1.failed == w.failed + 1
            &&& w1.active == w.active - 1
            &&& w1.alive(r) == w.alive(r)
            &&& w.alive(r) ==> w1.processes[r] == w.processes[r]
            &&& w1.queue == w.queue
        }),
{
    let mark = Event::Mark { pid: q, status: Status::Failed };
    lemma_after_wf(w, mark);
    lemma_finished_wf(w, q);
}

/// The count of failures grows only when a process ends that was not killed.
pub proof fn only_failures_count(w: WorldView, e: Event)
    requires
        w.wf(),
        w.admits(e),
    ensures
        w.after(e).failed == w.failed || {
            &&& w.after(e).failed == w.failed + 1
            &&& w.subject(e) matches Some(q) && w.alive(q) && !w.after(e).alive(q) && !(
            w.processes[q].status is Killed)
        },
{
    if let Event::Fire { pids, now } = e {
        lemma_due_fired(w, pids, now);
        lemma_all_fired(w, pids);
    } else if let Some(q) = w.subject(e) {
        if w.alive(q) {
            assert(w.processes[q].ok());
        }
    }
}

/// No process is active exactly if every process that was started has finished.
pub proof fn idle_means_all_finished(w: WorldView)
    requires
        w.wf(),
    ensures
        w.active == 0 <==> forall|q: Pid| #[trigger] w.alive(q) ==> w.starting(q),
{
    if w.active == 0 {
        assert forall|q: Pid| #[trigger] w.alive(q) implies w.starting(q) by {
            assert(w.started().subset_of(w.processes.dom()));
            vstd::set_lib::lemma_len_subset(w.started(), w.processes.dom());
            if !w.starting(q) {
                assert(w.started().contains(q));
                w.started().lemma_len0_is_empty();
            }
        }
    } else {
        if forall|q: Pid| #[trigger] w.alive(q) ==> w.starting(q) {
            assert(w.started() =~= Set::empty());
        }
    }
}

/// A process whose entry script cannot be evaluated leaves no trace but its
/// pid, which is not used again.
pub proof fn failed_spawn_leaves_no_trace(w: WorldView, name: Seq<char>, sandbox: Sandbox)
    requires
        w.wf(),
        w.next_pid < u64::MAX,
    ensures
        w.created(name, sandbox).settled(w.next_pid as Pid, false) == (WorldView {
            next_pid: w.next_pid + 1,
            ..w
        }),
{
    pids_are_fresh(w, name, sandbox);
    assert(w.created(name, sandbox).processes.remove(w.next_pid as Pid) =~= w.processes);
}

/// Messages and kills for a process that does not live change nothing.
pub proof fn the_dead_are_left_alone(w: WorldView, q: Pid, json: Seq<char>, name: Seq<char>)
    requires
        !w.alive(q),
    ensures
        w.delivered(q, json) == w,
        w.killed(q) == w,
        w.renamed(q, name) == w,
{
}

/// A confined process learns nothing about others: what it is answered when it
/// asks to kill or to narrow another process does not depend on that process.
pub proof fn confined_callers_learn_nothing(
    w1: WorldView,
    w2: WorldView,
    caller: Pid,
    pid: Pid,
    request: Option<bool>,
)
    requires
        w1.processes[caller].sandbox == Sandbox::spec_confined(),
        w2.processes[caller].sandbox == Sandbox::spec_confined(),
        pid != caller,
    ensures
        kill_answer(w1, caller, pid) == kill_answer(w2, caller, pid),
        kill_answer(w1, caller, pid) is Err,
        restrict_answer(w1, caller, request, pid) == restrict_answer(w2, caller, request, pid),
        restrict_answer(w1, caller, request, pid) is Err,
{
}

/// A process can always kill itself and narrow its own sandbox, however
/// confined it is.
pub proof fn self_service_is_always_allowed(w: WorldView, caller: Pid, request: Option<bool>)
    requires
        w.alive(caller),
    ensures
        kill_answer(w, caller, caller) == Ok::<bool, (ErrorClass, Seq<char>)>(true),
        restrict_answer(w, caller, request, caller) == Ok::<Sandbox, (ErrorClass, Seq<char>)>(
            w.narrowed(caller, request).processes[caller].sandbox,
        ),
{
}

/// A new name shows in what is told about the process from then on, and in
/// nothing else.
pub proof fn rename_shows(w: WorldView, q: Pid, name: Seq<char>, info: (Pid, String, &'static str))
    requires
        w.alive(q),
    ensures
        info.0 == q ==> (is_info(info, w.renamed(q, name)) <==> info.1@ == name && info.2@
            == w.processes[q].status.spec_as_str()),
        info.0 != q ==> (is_info(info, w.renamed(q, name)) <==> is_info(info, w)),
        w.renamed(q, name).processes.dom() == w.processes.dom(),
{
    assert(w.renamed(q, name).processes.dom() =~= w.processes.dom());
}

/// There is only one way to list the live processes.
pub proof fn listings_agree(
    w: WorldView,
    a: Seq<(Pid, String, &'static str)>,
    b: Seq<(Pid, String, &'static str)>,
    i: int,
)
    requires
        is_listing(a, w),
        is_listing(b, w),
        0 <= i < a.len(),
    ensures
        a.len() == b.len(),
        a[i].0 == b[i].0,
        a[i].1@ == b[i].1@,
        a[i].2@ == b[i].2@,
    decreases i,
{
    if i > 0 {
        listings_agree(w, a, b, i - 1);
    }
    if a[i].0 < b[i].0 {
        lemma_listing_gap(w, a, b, i);
    }
    if b[i].0 < a[i].0 {
        if i > 0 {
            listings_agree(w, b, a, i - 1);
        }
        lemma_listing_gap(w, b, a, i);
    }
}

/// A listing that agrees with another so far skips none of its entries.
proof fn lemma_listing_gap(
    w: WorldView,
    a: Seq<(Pid, String, &'static str)>,
    b: Seq<(Pid, String, &'static str)>,
    i: int,
)
    requires
        is_listing(a, w),
        is_listing(b, w),
        0 <= i < a.len(),
        i > 0 ==> a[i - 1].0 == b[i - 1].0,
    ensures
        a[i].0 >= b[i].0,
{
    if a[i].0 < b[i].0 {
        assert(is_info(a[i], w));
        assert(w.alive(a[i].0));
        let k = choose|k: int| 0 <= k < b.len() && (#[trigger] b[k]).0 == a[i].0;
        assert(k < i) by {
            if k > i {
                assert(b[i].0 < b[k].0);
            }
        }
        if k < i - 1 {
            assert(b[k].0 < b[i - 1].0);
        }
        assert(b[k].0 <= b[i - 1].0);
        assert(a[i - 1].0 < a[i].0);
    }
}

/// A request that names no process concerns none: it changes nothing, and a
/// kill or a rename answers `false`, an inquiry `null`.
pub proof fn requests_without_a_pid_touch_nothing(
    w: WorldView,
    method: Seq<char>,
    params: ParamsView,
    d: Dispatch,
)
    requires
        w.wf(),
        params.pid is None,
        is_dispatch(d, w, method, params),
    ensures
        !w.alive(params.target()),
        dispatched(w, method, params) == w,
        method == "kill"@ || method == "rename"@ ==> d == Dispatch::Answer(Ok(Reply::Flag(false))),
        method == "info"@ ==> d == Dispatch::Answer(Ok(Reply::Null)),
{
    if w.alive(params.target()) {
        assert(params.target() < w.next_pid);
    }
    lemma_methods_distinct();
}

/// A message that a control client sends is in the mailbox as it was sent.
pub proof fn clients_reach_mailboxes(w: WorldView, params: ParamsView, pid: Pid, json: Seq<char>)
    requires
        w.wf(),
        w.alive(pid),
        params.pid == Some(pid),
        params.value == Some(json),
    ensures
        dispatched(w, "send"@, params).alive(pid),
        dispatched(w, "send"@, params).processes[pid].inbox == w.processes[pid].inbox.push(json),
{
    lemma_methods_distinct();
}

/// At most one of `recv()` and `sleep()` is pending in a process, and while one
/// is, a call of the other changes nothing.
pub proof fn one_suspension_at_a_time(
    w: WorldView,
    q: Pid,
    timeout_ms: Option<u64>,
    ms: u64,
    now: u64,
)
    requires
        w.wf(),
        w.executing(q),
    ensures
        !(w.processes[q].recv_pending && w.processes[q].sleep_pending),
        w.processes[q].sleep_pending ==> w.recv_called(q, timeout_ms, now) == w,
        w.processes[q].recv_pending ==> w.sleep_called(q, ms, now) == w,
{
    assert(w.processes[q].ok());
}

/// A suspension that has been answered leaves nothing behind: neither is the
/// call pending any more, nor is there a deadline.
pub proof fn answered_suspensions_do_not_linger(w: WorldView, q: Pid)
    requires
        w.wf(),
        w.on_worker(q),
    ensures
        ({
            let p = w.woken(q, WakeKind::Message, true).processes[q];
            !p.recv_pending && p.deadline is None
        }),
        ({
            let p = w.woken(q, WakeKind::Timeout, true).processes[q];
            !p.recv_pending && p.deadline is None
        }),
        ({
            let p = w.woken(q, WakeKind::Sleep, true).processes[q];
            !p.sleep_pending && p.deadline is None
        }),
{
}

/// What is told about processes does not depend on their sandboxes.
pub proof fn sandboxes_do_not_show(
    w: WorldView,
    q: Pid,
    request: Option<bool>,
    info: (Pid, String, &'static str),
)
    requires
        w.alive(q),
    ensures
        is_info(info, w.narrowed(q, request)) <==> is_info(info, w),
{
}

/// A process that is spawned has its turn coming, or waits for something, before
/// anything else happens.
pub proof fn spawned_processes_are_scheduled(w: WorldView, q: Pid)
    requires
        w.wf(),
        w.starting(q),
    ensures
        ({
            let (w1, settled) = w.spawned(q);
            let place = w1.processes[q].place;
            &&& w1.alive(q)
            &&& w1.active == w.active + 1
            &&& match settled {
                SettledView::Queued => place is Queued && w1.queue == w.queue.push(
                    RunItem::Process(q),
                ),
                SettledView::Parked => place is Parked,
                SettledView::Asleep => place is Sleeping,
                SettledView::Message(json) => {
                    &&& place is OnWorker
                    &&& w.processes[q].inbox.len() > 0 && json == w.processes[q].inbox[0]
                },
                SettledView::Gone => false,
            }
        }),
{
}

/// How many jobs `q` is granted in the course of the events.
pub open spec fn jobs(w: WorldView, t: Seq<Event>, q: Pid) -> nat
    decreases t.len(),
{
    if t.len() == 0 {
        0
    } else {
        (if t[0] == (Event::AskJob { pid: q }) && w.grants_job(q) {
            1nat
        } else {
            0nat
        }) + jobs(w.after(t[0]), t.drop_first(), q)
    }
}

/// How many slices of `q` begin in the course of the events.
pub open spec fn slices(w: WorldView, t: Seq<Event>, q: Pid) -> nat
    decreases t.len(),
{
    if t.len() == 0 {
        0
    } else {
        (if t[0] is Step && w.subject(t[0]) == Some(q) {
            1nat
        } else {
            0nat
        }) + slices(w.after(t[0]), t.drop_first(), q)
    }
}

/// Whether `q` can still be granted a job before its next slice begins.
pub open spec fn owes_job(w: WorldView, q: Pid) -> nat {
    if w.alive(q) {
        if w.processes[q].ran_job {
            0
        } else {
            1
        }
    } else if q >= w.next_pid {
        1
    } else {
        0
    }
}

proof fn lemma_job_step(w: WorldView, e: Event, q: Pid)
    requires
        w.wf(),
        w.admits(e),
    ensures
        owes_job(w.after(e), q) + jobs(w, seq![e], q) <= owes_job(w, q) + slices(w, seq![e], q),
{
    let t = seq![e];
    assert(t.drop_first() =~= Seq::<Event>::empty());
    assert(jobs(w.after(e), t.drop_first(), q) == 0);
    assert(slices(w.after(e), t.drop_first(), q) == 0);
    if w.alive(q) {
        assert(q < w.next_pid);
        assert(w.processes[q].ok());
    }
    if let Event::Fire { pids, now } = e {
        lemma_due_fired(w, pids, now);
        lemma_all_fired(w, pids);
        assert(pids.contains(q) || !pids.contains(q));
        assert(w.after(e).alive(q) == w.alive(q));
        assert(w.after(e).processes[q].ran_job == w.processes[q].ran_job);
    } else if w.subject(e) != Some(q) {
        isolation(w, e, q);
        lemma_bystander(w, e, q);
    } else if q < w.next_pid {
        lemma_evolves(w, e, q);
    }
}

/// A slice executes at most one job: a process is never granted more jobs than
/// slices of it begin, beside the one that the slice it is in may still have.
/// In particular it is granted at most one between the beginnings of two slices.
pub proof fn one_job_per_slice(w: WorldView, t: Seq<Event>, q: Pid)
    requires
        w.wf(),
        w.admits_all(t),
    ensures
        jobs(w, t, q) <= slices(w, t, q) + owes_job(w, q),
        slices(w, t, q) == 0 ==> jobs(w, t, q) <= 1,
        slices(w, t, q) == 0 && w.alive(q) && w.processes[q].ran_job ==> jobs(w, t, q) == 0,
    decreases t.len(),
{
    if t.len() > 0 {
        let e = t[0];
        let one = seq![e];
        assert(one.drop_first() =~= Seq::<Event>::empty());
        assert(jobs(w.after(e), one.drop_first(), q) == 0);
        assert(slices(w.after(e), one.drop_first(), q) == 0);
        lemma_after_wf(w, e);
        lemma_job_step(w, e, q);
        one_job_per_slice(w.after(e), t.drop_first(), q);
    }
}

/// A slice that begins can have one job once its script has been woken as is
/// owed, unless the process is done, failed, killed or parked again; after that
/// job it can have none.
pub proof fn a_slice_has_one_job(w: WorldView, q: Pid, start: SliceStartView)
    requires
        w.wf(),
        w.worker_stepped().1 == WorkerStepView::Slice(q, start),
    ensures
        ({
            let w1 = w.worker_stepped().0;
            let w2 = match start.wake_kind() {
                Some(kind) => w1.woken(q, kind, true),
                None => w1,
            };
            &&& start.wake_kind() matches Some(kind) ==> w1.owes(q, kind) && !w1.grants_job(q)
            &&& start is Gone || start is Parked ==> !w2.grants_job(q)
            &&& !(start is Gone || start is Parked) ==> {
                w2.grants_job(q) <==> !w.processes[q].status.spec_is_terminal()
            }
            &&& !w2.job_asked(q).grants_job(q)
        }),
{
    assert(w.queue[0] == RunItem::Process(q));
    assert(w.alive(q));
    assert(w.processes[q].ok());
}

/// Whether the event tells the script of `q` of the wake that it is owed.
pub open spec fn pays(e: Event, q: Pid, kind: WakeKind) -> bool {
    ||| e == (Event::Wake { pid: q, kind, ok: true })
    ||| e == (Event::Unpark { pid: q, ok: true }) && kind is Message
}

/// Whether that happens in the course of the events.
pub open spec fn pays_during(t: Seq<Event>, q: Pid, kind: WakeKind) -> bool
    decreases t.len(),
{
    t.len() > 0 && (pays(t[0], q, kind) || pays_during(t.drop_first(), q, kind))
}

proof fn lemma_owed_step(w: WorldView, e: Event, q: Pid, kind: WakeKind)
    requires
        w.wf(),
        w.admits(e),
        w.owes(q, kind),
        w.after(e).alive(q),
    ensures
        pays(e, q, kind) || w.after(e).owes(q, kind),
{
    assert(q < w.next_pid);
    assert(w.processes[q].ok());
    if let Event::Fire { now, .. } = e {
        assert(!w.due(q, now));
        isolation(w, e, q);
    } else if w.subject(e) != Some(q) {
        isolation(w, e, q);
    } else if e is Step {
        assert(w.processes[q].place is Queued);
    }
}

/// What a script is owed it is told: a process that has been handed a message,
/// or whose suspension is over, is granted no job, and its slice does not end,
/// before its script has been woken with that, unless the process ends.
pub proof fn owed_wakes_are_paid(w: WorldView, t: Seq<Event>, q: Pid, kind: WakeKind)
    requires
        w.wf(),
        w.admits_all(t),
        w.owes(q, kind),
        w.after_all(t).alive(q),
    ensures
        pays_during(t, q, kind) || {
            &&& w.after_all(t).owes(q, kind)
            &&& !w.after_all(t).grants_job(q)
            &&& forall|job_pending: bool| !#[trigger]
                w.after_all(t).admits(Event::EndSlice { pid: q, job_pending })
        },
    decreases t.len(),
{
    if t.len() > 0 {
        let w1 = w.after(t[0]);
        lemma_after_wf(w, t[0]);
        assert(q < w.next_pid);
        lemma_evolves(w, t[0], q);
        if !w1.alive(q) {
            pids_are_never_reused(w1, t.drop_first(), q);
        }
        lemma_owed_step(w, t[0], q, kind);
        if w1.owes(q, kind) {
            owed_wakes_are_paid(w1, t.drop_first(), q, kind);
        }
    }
}

/// How many processes are registered in the course of the events.
pub open spec fn creations(t: Seq<Event>) -> nat
    decreases t.len(),
{
    if t.len() == 0 {
        0
    } else {
        (if t[0] is Create {
            1nat
        } else {
            0nat
        }) + creations(t.drop_first())
    }
}

/// Pids are handed out without a gap: whatever else happens, and whether or not
/// the entry scripts can be evaluated, each process that is registered gets the
/// number after the one before it.
pub proof fn pids_count_up(w: WorldView, t: Seq<Event>)
    requires
        w.wf(),
        w.admits_all(t),
    ensures
        w.after_all(t).next_pid == w.next_pid + creations(t),
    decreases t.len(),
{
    if t.len() > 0 {
        let e = t[0];
        lemma_after_wf(w, e);
        if let Event::Fire { pids, now } = e {
            lemma_due_fired(w, pids, now);
            lemma_all_fired(w, pids);
        }
        pids_count_up(w.after(e), t.drop_first());
    }
}

proof fn lemma_prefix_admitted(w: WorldView, t: Seq<Event>, n: int)
    requires
        w.admits_all(t),
        0 <= n <= t.len(),
    ensures
        w.admits_all(t.take(n)),
    decreases n,
{
    if n > 0 {
        lemma_prefix_admitted(w.after(t[0]), t.drop_first(), n - 1);
        assert(t.take(n).drop_first() =~= t.drop_first().take(n - 1));
        assert(t.take(n)[0] == t[0]);
    }
}

proof fn lemma_creations_grow(t: Seq<Event>, i: int, j: int)
    requires
        0 <= i < j <= t.len(),
        t[i] is Create,
    ensures
        creations(t.take(i)) < creations(t.take(j)),
    decreases i,
{
    let rest = t.drop_first();
    assert(t.take(j).drop_first() =~= rest.take(j - 1));
    assert(t.take(j)[0] == t[0]);
    if i > 0 {
        assert(rest[i - 1] == t[i]);
        lemma_creations_grow(rest, i - 1, j - 1);
        assert(t.take(i).drop_first() =~= rest.take(i - 1));
        assert(t.take(i)[0] == t[0]);
    }
}

/// Of two processes, the one that is registered later has the larger pid: no
/// two processes ever have the same.
pub proof fn later_processes_have_larger_pids(w: WorldView, t: Seq<Event>, i: int, j: int)
    requires
        w.wf(),
        w.admits_all(t),
        0 <= i < j < t.len(),
        t[i] is Create,
        t[j] is Create,
    ensures
        w.after_all(t.take(i)).next_pid == w.next_pid + creations(t.take(i)),
        w.after_all(t.take(i)).next_pid < w.after_all(t.take(j)).next_pid,
{
    lemma_prefix_admitted(w, t, i);
    lemma_prefix_admitted(w, t, j);
    pids_count_up(w, t.take(i));
    pids_count_up(w, t.take(j));
    lemma_creations_grow(t, i, j);
}

/// Parking a waiting process parks it with an empty mailbox, or hands it its
/// oldest message, and only that one, and puts it on the run queue once.
/// Whatever happens afterwards, it is never parked with a message in its
/// mailbox.
pub proof fn parking_loses_no_wake_up(w: WorldView, q: Pid, t: Seq<Event>)
    requires
        w.wf(),
        w.in_slice(q),
        w.processes[q].status is Waiting,
        w.parked(q).0.admits_all(t),
    ensures
        ({
            let (w1, settled) = w.parked(q);
            let inbox = w.processes[q].inbox;
            if inbox.len() == 0 {
                &&& settled == SettledView::Parked
                &&& w1.processes[q].place is Parked
                &&& w1.processes[q].inbox == inbox
                &&& w1.queue == w.queue
            } else {
                let w2 = w1.unparked(q, true);
                &&& settled == SettledView::Message(inbox[0])
                &&& w1.processes[q].inbox == inbox.drop_first()
                &&& w2.wf()
                &&& w2.processes[q].place is Queued
                &&& w2.processes[q].inbox == inbox.drop_first()
                &&& w2.queue == w.queue.push(RunItem::Process(q))
            }
        }),
        ({
            let w3 = w.parked(q).0.after_all(t);
            w3.alive(q) && w3.processes[q].place is Parked ==> w3.processes[q].inbox.len() == 0
        }),
{
    let end = Event::EndSlice { pid: q, job_pending: false };
    assert(w.after(end) == w.parked(q).0);
    lemma_after_wf(w, end);
    let w1 = w.parked(q).0;
    if w.processes[q].inbox.len() > 0 {
        let unpark = Event::Unpark { pid: q, ok: true };
        assert(w1.owes(q, WakeKind::Message));
        lemma_after_wf(w1, unpark);
        assert(w1.after(unpark) == w1.unparked(q, true));
    }
    soundness(w1, t);
    let w3 = w1.after_all(t);
    if w3.alive(q) {
        assert(w3.processes[q].ok());
    }
}

/// A message that a process is handed when it is put on a worker, or instead of
/// being parked, is owed to its script. One that a `recv()` finds is answered at
/// once.
pub proof fn handed_messages_are_owed(w: WorldView, e: Event, q: Pid)
    requires
        w.wf(),
        w.admits(e),
        !(e is Recv),
        w.taken(e, q).len() > 0,
    ensures
        w.after(e).owes(q, WakeKind::Message),
{
    if e is Step {
        assert(w.alive(q));
    }
}

} // verus!
