//! What `recv`, `sleep` and the timers do: who is suspended, for how long, and
//! what ends it.

use vstd::prelude::*;

use crate::host::{is_recv_answer, Recv};
use crate::laws::lifecycle::{
    asking_for_work, becomes, others_alike, settling, slice_end, waking,
};
use crate::laws::{queued_processes_keep_their_turn, soundness, steps};
use crate::model::{SettledView, SliceStartView, WorkerStepView, WorldView};
use crate::process::{ErrorClass, JsError, Pid, Place, ProcView, Status, WakeKind};
use crate::queue::RunItem;
use crate::trace::{lemma_after_wf, lemma_all_fired, lemma_due_fired, Event};

verus! {

/// A `recv` that finds a message takes the oldest one and nothing else changes,
/// whatever its timeout. One while a `sleep` is pending is refused and changes
/// nothing. Any other is pending from then on, with a deadline exactly if it has
/// a timeout: so many milliseconds after the call. Its process waits, unless it
/// was killed.
pub proof fn receiving(
    w: WorldView,
    q: Pid,
    timeout_ms: Option<u64>,
    now: u64,
    r: Result<Recv, JsError>,
)
    requires
        w.processes.contains_key(q),
        is_recv_answer(r, w.processes[q]),
    ensures
        ({
            let p = w.processes[q];
            let w2 = w.recv_called(q, timeout_ms, now);
            let p2 = w2.processes[q];
            &&& becomes(w, w2, q, p2)
            &&& match r {
                Err(e) => {
                    &&& p.sleep_pending
                    &&& p2 == p
                    &&& e.class == ErrorClass::TypeError
                    &&& e.message@ == "cannot call recv() while a sleep() is pending"@
                },
                Ok(Recv::Message(json)) => {
                    &&& !p.sleep_pending
                    &&& p.inbox == seq![json@] + p2.inbox
                    &&& p2 == (ProcView { inbox: p2.inbox, ..p })
                },
                Ok(Recv::Wait) => {
                    &&& !p.sleep_pending
                    &&& p.inbox.len() == 0
                    &&& p2 == (ProcView {
                        recv_pending: true,
                        deadline: p2.deadline,
                        status: p2.status,
                        ..p
                    })
                    &&& timeout_ms is None <==> p2.deadline is None
                    &&& timeout_ms is Some ==> p2.deadline->0 == now + timeout_ms->0 * 1_000_000
                    &&& p.status != Status::Killed ==> p2.status == Status::Waiting
                    &&& p.status == Status::Killed ==> p2.status == Status::Killed
                },
            }
        }),
{
    let p = w.processes[q];
    if p.inbox.len() > 0 {
        assert(p.inbox =~= seq![p.inbox[0]] + p.inbox.drop_first());
    }
    if let Some(ms) = timeout_ms {
        assert(now + ms * 1_000_000 <= u128::MAX);
    }
}

/// Every `recv` is answered in one way only: with an error while a `sleep` is
/// pending, otherwise with a message exactly if there is one.
pub proof fn recv_has_one_answer(
    p: ProcView,
    a: Result<Recv, JsError>,
    b: Result<Recv, JsError>,
)
    requires
        is_recv_answer(a, p),
        is_recv_answer(b, p),
    ensures
        a is Err <==> p.sleep_pending,
        a is Ok && a->Ok_0 is Message <==> !p.sleep_pending && p.inbox.len() > 0,
        a is Err <==> b is Err,
        a is Ok && a->Ok_0 is Message ==> {
            &&& b is Ok && b->Ok_0 is Message
            &&& b->Ok_0->Message_0@ == a->Ok_0->Message_0@
        },
{
}

/// A `sleep` while a `recv` is pending changes nothing. Any other is pending
/// from then on, with a deadline so many milliseconds after the call, and its
/// process sleeps, unless it was killed. The mailbox is not touched.
pub proof fn sleeping(w: WorldView, q: Pid, ms: u64, now: u64)
    requires
        w.processes.contains_key(q),
    ensures
        ({
            let p = w.processes[q];
            let w2 = w.sleep_called(q, ms, now);
            let p2 = w2.processes[q];
            &&& becomes(w, w2, q, p2)
            &&& p.recv_pending ==> p2 == p
            &&& !p.recv_pending ==> {
                &&& p2 == (ProcView {
                    sleep_pending: true,
                    deadline: p2.deadline,
                    status: p2.status,
                    ..p
                })
                &&& p2.deadline is Some
                &&& p2.deadline->0 == now + ms * 1_000_000
                &&& p.status != Status::Killed ==> p2.status == Status::Sleeping
                &&& p.status == Status::Killed ==> p2.status == Status::Killed
            }
        }),
{
    assert(now + ms * 1_000_000 <= u128::MAX);
}

/// What becomes of a process that gives up its worker: its slice ends, or the
/// evaluation of its entry script does.
pub open spec fn gives_up(w: WorldView, q: Pid, job_pending: bool) -> (WorldView, SettledView) {
    if w.processes[q].place == Place::Starting {
        (w.settled(q, true), w.spawned(q).1)
    } else {
        w.slice_ended(q, job_pending)
    }
}

/// Whether `q` is executing and can be suspended: its entry script is being
/// evaluated, or it is in a slice and owed nothing, and it has not been killed.
pub open spec fn can_suspend(w: WorldView, q: Pid) -> bool {
    let p = w.processes[q];
    &&& w.processes.contains_key(q)
    &&& p.place == Place::Starting || (p.place == Place::OnWorker && p.owed is None)
    &&& p.status != Status::Killed
}

/// `recv(ms)` with an empty mailbox parks its process, in a slice as well as in
/// the entry script. The timers find it due exactly from `ms` milliseconds after
/// the call on.
pub proof fn recv_with_a_timeout_waits_that_long(
    w: WorldView,
    q: Pid,
    ms: u64,
    now: u64,
    job_pending: bool,
)
    requires
        w.wf(),
        can_suspend(w, q),
        !w.processes[q].sleep_pending,
        w.processes[q].inbox.len() == 0,
    ensures
        ({
            let (w2, settled) = gives_up(w.recv_called(q, Some(ms), now), q, job_pending);
            let p2 = w2.processes[q];
            &&& settled == SettledView::Parked
            &&& w2.processes.contains_key(q)
            &&& p2.place == Place::Parked
            &&& p2.status == Status::Waiting
            &&& p2.inbox.len() == 0
            &&& others_alike(w, w2, q)
            &&& w2.queue == w.queue
            &&& forall|later: u64| #[trigger]
                w2.due(q, later) <==> later >= now + ms * 1_000_000
            &&& forall|pids: Seq<Pid>, later: u64| #[trigger]
                w2.all_due(pids, later) ==> (pids.contains(q) <==> later >= now + ms * 1_000_000)
        }),
{
    lemma_after_wf(w, Event::Recv { pid: q, timeout_ms: Some(ms), now });
    receiving(w, q, Some(ms), now, Ok(Recv::Wait));
    let w1 = w.recv_called(q, Some(ms), now);
    if w.processes[q].place == Place::Starting {
        settling(w1, q);
    } else {
        slice_end(w1, q, job_pending);
    }
    let w2 = gives_up(w1, q, job_pending).0;
    assert forall|pids: Seq<Pid>, later: u64| #[trigger] w2.all_due(pids, later) implies (
    pids.contains(q) <==> later >= now + ms * 1_000_000) by {
        assert(pids.contains(q) <==> w2.due(q, later));
    }
}

/// `recv()` without a timeout and with an empty mailbox parks its process, in a
/// slice as well as in the entry script, and no timer ever finds it due.
pub proof fn recv_without_a_timeout_never_expires(
    w: WorldView,
    q: Pid,
    now: u64,
    job_pending: bool,
)
    requires
        w.wf(),
        can_suspend(w, q),
        !w.processes[q].sleep_pending,
        w.processes[q].inbox.len() == 0,
    ensures
        ({
            let (w2, settled) = gives_up(w.recv_called(q, None, now), q, job_pending);
            let p2 = w2.processes[q];
            &&& settled == SettledView::Parked
            &&& w2.processes.contains_key(q)
            &&& p2.place == Place::Parked
            &&& p2.status == Status::Waiting
            &&& p2.inbox.len() == 0
            &&& p2.deadline is None
            &&& others_alike(w, w2, q)
            &&& w2.queue == w.queue
            &&& forall|later: u64| !#[trigger] w2.due(q, later)
            &&& forall|pids: Seq<Pid>, later: u64| #[trigger]
                w2.all_due(pids, later) ==> !pids.contains(q)
        }),
{
    lemma_after_wf(w, Event::Recv { pid: q, timeout_ms: None, now });
    receiving(w, q, None, now, Ok(Recv::Wait));
    let w1 = w.recv_called(q, None, now);
    if w.processes[q].place == Place::Starting {
        settling(w1, q);
    } else {
        slice_end(w1, q, job_pending);
    }
    let w2 = gives_up(w1, q, job_pending).0;
    assert forall|pids: Seq<Pid>, later: u64| #[trigger] w2.all_due(pids, later) implies
        !pids.contains(q) by {
        assert(pids.contains(q) <==> w2.due(q, later));
    }
}

/// `sleep(ms)` puts its process to rest with its mailbox as it is, in a slice as
/// well as in the entry script. The timers find it due exactly from `ms`
/// milliseconds after the call on.
pub proof fn sleep_lasts_that_long(w: WorldView, q: Pid, ms: u64, now: u64, job_pending: bool)
    requires
        w.wf(),
        can_suspend(w, q),
        !w.processes[q].recv_pending,
    ensures
        ({
            let (w2, settled) = gives_up(w.sleep_called(q, ms, now), q, job_pending);
            let p2 = w2.processes[q];
            &&& settled == SettledView::Asleep
            &&& w2.processes.contains_key(q)
            &&& p2.place == Place::Sleeping
            &&& p2.status == Status::Sleeping
            &&& p2.inbox == w.processes[q].inbox
            &&& others_alike(w, w2, q)
            &&& w2.queue == w.queue
            &&& forall|later: u64| #[trigger]
                w2.due(q, later) <==> later >= now + ms * 1_000_000
            &&& forall|pids: Seq<Pid>, later: u64| #[trigger]
                w2.all_due(pids, later) ==> (pids.contains(q) <==> later >= now + ms * 1_000_000)
        }),
{
    lemma_after_wf(w, Event::Sleep { pid: q, ms, now });
    sleeping(w, q, ms, now);
    let w1 = w.sleep_called(q, ms, now);
    if w.processes[q].place == Place::Starting {
        settling(w1, q);
    } else {
        slice_end(w1, q, job_pending);
    }
    let w2 = gives_up(w1, q, job_pending).0;
    assert forall|pids: Seq<Pid>, later: u64| #[trigger] w2.all_due(pids, later) implies (
    pids.contains(q) <==> later >= now + ms * 1_000_000) by {
        assert(pids.contains(q) <==> w2.due(q, later));
    }
}

/// Moving a call of `sleep` or `recv` in time moves its end by as much: what is
/// due `d` nanoseconds after the one call is due `d` nanoseconds after the other.
pub proof fn suspensions_do_not_depend_on_the_time_of_day(
    w: WorldView,
    q: Pid,
    ms: u64,
    a: u64,
    b: u64,
    d: u64,
    job_pending: bool,
)
    requires
        w.wf(),
        can_suspend(w, q),
        a + d <= u64::MAX,
        b + d <= u64::MAX,
    ensures
        !w.processes[q].recv_pending ==> (gives_up(w.sleep_called(q, ms, a), q, job_pending).0.due(
            q,
            (a + d) as u64,
        ) <==> gives_up(w.sleep_called(q, ms, b), q, job_pending).0.due(q, (b + d) as u64)),
        !w.processes[q].sleep_pending && w.processes[q].inbox.len() == 0 ==> (gives_up(
            w.recv_called(q, Some(ms), a),
            q,
            job_pending,
        ).0.due(q, (a + d) as u64) <==> gives_up(
            w.recv_called(q, Some(ms), b),
            q,
            job_pending,
        ).0.due(q, (b + d) as u64)),
{
    if !w.processes[q].recv_pending {
        sleep_lasts_that_long(w, q, ms, a, job_pending);
        sleep_lasts_that_long(w, q, ms, b, job_pending);
    }
    if !w.processes[q].sleep_pending && w.processes[q].inbox.len() == 0 {
        recv_with_a_timeout_waits_that_long(w, q, ms, a, job_pending);
        recv_with_a_timeout_waits_that_long(w, q, ms, b, job_pending);
    }
}

/// Servicing the timers takes exactly the processes that rest until a moment
/// that has come, each of them once, the earliest moment first and the smaller
/// pid first where the moments are the same. They join the run queue in that
/// order, and of those that waited for a message it is noted that they waited in
/// vain. Nothing else changes.
pub proof fn servicing_the_timers(w: WorldView, pids: Seq<Pid>, now: u64)
    requires
        w.wf(),
        w.all_due(pids, now),
    ensures
        forall|q: Pid| #[trigger]
            pids.contains(q) <==> {
                &&& w.processes.contains_key(q)
                &&& w.processes[q].place == Place::Parked || w.processes[q].place
                    == Place::Sleeping
                &&& w.processes[q].deadline is Some
                &&& w.processes[q].deadline->0 <= now
            },
        forall|i: int, j: int|
            0 <= i < j < pids.len() ==> {
                let a = w.processes[#[trigger] pids[i]].deadline->0;
                let b = w.processes[#[trigger] pids[j]].deadline->0;
                a < b || (a == b && pids[i] < pids[j])
            },
        ({
            let w2 = w.all_fired(pids);
            &&& w2.queue.len() == w.queue.len() + pids.len()
            &&& forall|i: int| 0 <= i < w.queue.len() ==> #[trigger] w2.queue[i] == w.queue[i]
            &&& forall|i: int|
                0 <= i < pids.len() ==> w2.queue[w.queue.len() + i] == RunItem::Process(
                    #[trigger] pids[i],
                )
            &&& w2.next_pid == w.next_pid
            &&& w2.active == w.active
            &&& w2.failed == w.failed
            &&& forall|q: Pid| #[trigger]
                w2.processes.contains_key(q) <==> w.processes.contains_key(q)
            &&& forall|q: Pid|
                w.processes.contains_key(q) && !pids.contains(q) ==> #[trigger] w2.processes[q]
                    == w.processes[q]
            &&& forall|q: Pid|
                pids.contains(q) ==> #[trigger] w2.processes[q] == (ProcView {
                    place: Place::Queued,
                    timed_out: w.processes[q].place == Place::Parked,
                    ..w.processes[q]
                })
        }),
{
    lemma_due_fired(w, pids, now);
    lemma_all_fired(w, pids);
    let w2 = w.all_fired(pids);
    assert forall|q: Pid| #[trigger] pids.contains(q) <==> {
        &&& w.processes.contains_key(q)
        &&& w.processes[q].place == Place::Parked || w.processes[q].place == Place::Sleeping
        &&& w.processes[q].deadline is Some
        &&& w.processes[q].deadline->0 <= now
    } by {
        assert(pids.contains(q) <==> w.due(q, now));
    }
    assert forall|i: int, j: int| 0 <= i < j < pids.len() implies {
        let a = w.processes[#[trigger] pids[i]].deadline->0;
        let b = w.processes[#[trigger] pids[j]].deadline->0;
        a < b || (a == b && pids[i] < pids[j])
    } by {
        assert(w.sooner(pids[i], pids[j]));
    }
    let items = pids.map_values(|q: Pid| RunItem::Process(q));
    assert forall|i: int| 0 <= i < pids.len() implies w2.queue[w.queue.len() + i]
        == RunItem::Process(#[trigger] pids[i]) by {
        assert(w2.queue[w.queue.len() + i] == items[i]);
    }
    assert forall|q: Pid| #[trigger]
        w2.processes.contains_key(q) <==> w.processes.contains_key(q) by {
        assert(w2.processes.dom().contains(q) == w.processes.dom().contains(q));
    }
}

/// A suspension that is over is told to the script when its turn comes: the end
/// of a `sleep`, or the timeout of a `recv`. Once it is told, the process runs,
/// with nothing pending and no deadline.
pub proof fn finished_suspensions_are_told(
    w: WorldView,
    pids: Seq<Pid>,
    now: u64,
    i: int,
    t: Seq<Event>,
)
    requires
        w.wf(),
        w.all_due(pids, now),
        0 <= i < pids.len(),
        w.all_fired(pids).admits_all(t),
        steps(t) == w.queue.len() + i,
        w.all_fired(pids).after_all(t).processes[pids[i]].status != Status::Killed,
    ensures
        ({
            let q = pids[i];
            let waited = w.processes[q].place == Place::Parked;
            let kind = if waited {
                WakeKind::Timeout
            } else {
                WakeKind::Sleep
            };
            let (w2, step) = w.all_fired(pids).after_all(t).worker_stepped();
            let p3 = w2.woken(q, kind, true).processes[q];
            &&& step == WorkerStepView::Slice(
                q,
                if waited {
                    SliceStartView::Timeout
                } else {
                    SliceStartView::Sleep
                },
            )
            &&& w2.owes(q, kind)
            &&& p3.status == Status::Running
            &&& p3.deadline is None
            &&& waited ==> !p3.recv_pending
            &&& !waited ==> !p3.sleep_pending
        }),
{
    let q = pids[i];
    servicing_the_timers(w, pids, now);
    lemma_after_wf(w, Event::Fire { pids, now });
    let w1 = w.all_fired(pids);
    assert(pids.contains(q));
    assert(w.alive(q));
    assert(w.processes[q].ok());
    assert(w1.queue[w.queue.len() + i] == RunItem::Process(q));
    queued_processes_keep_their_turn(w1, t, q, w.queue.len() + i);
    let w2 = w1.after_all(t);
    soundness(w1, t);
    asking_for_work(w2);
    lemma_after_wf(w2, Event::Step);
    let kind = if w.processes[q].place == Place::Parked {
        WakeKind::Timeout
    } else {
        WakeKind::Sleep
    };
    waking(w2.worker_stepped().0, q, kind);
}

} // verus!
