//! What each call into the library does to the world that it is given, and what
//! it returns.

use serde_json::Value;
use vstd::prelude::*;

use crate::host::{
    create_child, kill_by, recv, restrict_sandbox, self_sandbox, sleep, spawn_outcome, spawn_permit,
    yield_now, Recv,
};
use crate::json::{json_member, json_text};
use crate::laws::control::{
    acting_on_requests, clients_ask, clients_kill, clients_rename, clients_send, clients_spawn,
    other_requests, parse_errors, spawn_answers,
};
use crate::laws::dealings::{
    delivery, inheriting, killing, killing_by_a_script, listing, narrowing_by_a_script, payloads,
    renaming, reporting_failed_wakes, telling,
};
use crate::laws::lifecycle::{
    asking_for_work, becomes, granting_a_job, joins_queue, leaves, marking, others_alike,
    parking, registration, settling, slice_end, stopping, waits, waking,
};
use crate::laws::suspension::{receiving, servicing_the_timers, sleeping};
use crate::laws::texts::{lines, printing};
use crate::model::{SettledView, WorldView};
use crate::process::{
    console_line, error_report, joined, render, spec_render, ErrorClass, JsError, Pid, Place,
    Printable, ProcView, Sandbox, Status, WakeKind,
};
use crate::queue::RunItem;
use crate::rpc::{
    accept_step, dispatch, dispatched, handle_line, handle_request, is_dispatch, is_parse_error,
    is_request_action, is_response, is_spawn_answer, lemma_methods_distinct, line_content,
    method_of, opt_json, params_of, response_text, serve_step, spawn_answer, Accepted, Dispatch,
    LineAction, Params, ParamsView, Reply, Request, RpcError, ServeStep,
};
use crate::runtime::{exit_code, host_is_idle, keep_alive, keep_waiting, worker_count};
use crate::scheduler::{
    complete_park, complete_wake, create_process, create_root, deliver_json_string, end_slice,
    entry_done, entry_failed, fire_timers, is_info, is_listing, is_process_alive, job_failed,
    kill_process, list_processes, park, place_of, process_count, process_info, send_message,
    set_process_name, spawn_process, stop_workers, take_job, worker_step, Payload, Settled,
    SliceStart, WakeEnd, WorkerStep,
};
use crate::text::decimal;
use crate::world::World;

verus! {

/// Whether the world has one more process, under the next pid, with the given
/// name and sandbox, which is about to be started; and nothing else changed.
pub open spec fn has_new_process(
    w: WorldView,
    w2: WorldView,
    pid: Pid,
    name: Seq<char>,
    can_spawn_and_kill: bool,
) -> bool {
    &&& pid == w.next_pid
    &&& !w.processes.contains_key(pid)
    &&& w2.processes.contains_key(pid)
    &&& w2.processes[pid].name == name
    &&& w2.processes[pid].sandbox.can_spawn_and_kill == can_spawn_and_kill
    &&& w2.processes[pid].inbox.len() == 0
    &&& w2.processes[pid].status == Status::Running
    &&& w2.processes[pid].place == Place::Starting
    &&& others_alike(w, w2, pid)
    &&& w2.queue == w.queue
    &&& w2.next_pid == w.next_pid + 1
    &&& w2.active == w.active
    &&& w2.failed == w.failed
}

/// A process is created with the name and the sandbox that are given; one that
/// no script spawns may do everything, and a child what its parent may, unless
/// less is asked for.
pub proof fn creating(
    name: &str,
    sandbox: Sandbox,
    parent: Sandbox,
    request: Option<bool>,
    pid: Pid,
)
    ensures
        forall|world: &mut World| #[trigger]
            call_ensures(create_process, (world, name, sandbox), pid) && world.wf()
                && world@.next_pid < u64::MAX ==> has_new_process(
                world@,
                final(world)@,
                pid,
                name@,
                sandbox.can_spawn_and_kill,
            ),
        forall|world: &mut World| #[trigger]
            call_ensures(create_root, (world, name), pid) && world.wf() && world@.next_pid
                < u64::MAX ==> has_new_process(world@, final(world)@, pid, name@, true),
        forall|world: &mut World| #[trigger]
            call_ensures(create_child, (world, parent, request), pid) && world.wf()
                && world@.next_pid < u64::MAX ==> has_new_process(
                world@,
                final(world)@,
                pid,
                "<spawned>"@,
                parent.can_spawn_and_kill && request != Some(false),
            ),
{
    assert forall|world: &mut World| #[trigger]
        call_ensures(create_process, (world, name, sandbox), pid) && world.wf() && world@.next_pid
            < u64::MAX implies has_new_process(
        world@,
        final(world)@,
        pid,
        name@,
        sandbox.can_spawn_and_kill,
    ) by {
        registration(world@, name@, sandbox);
    }
    assert forall|world: &mut World| #[trigger]
        call_ensures(create_root, (world, name), pid) && world.wf() && world@.next_pid
            < u64::MAX implies has_new_process(world@, final(world)@, pid, name@, true) by {
        registration(world@, name@, Sandbox::spec_privileged());
    }
    assert forall|world: &mut World| #[trigger]
        call_ensures(create_child, (world, parent, request), pid) && world.wf() && world@.next_pid
            < u64::MAX implies has_new_process(
        world@,
        final(world)@,
        pid,
        "<spawned>"@,
        parent.can_spawn_and_kill && request != Some(false),
    ) by {
        registration(world@, "<spawned>"@, parent.spec_narrow(request));
        inheriting(world@, "<spawned>"@, parent, request);
    }
}

/// Whether `q`, whose entry script has been evaluated, counts as active, and is
/// parked or handed a message if it waits for one, at rest if it sleeps, and on
/// the run queue otherwise.
pub open spec fn is_settled(w: WorldView, w2: WorldView, q: Pid, to: SettledView) -> bool {
    let p = w.processes[q];
    let w3 = WorldView { active: w.active, ..w2 };
    &&& w2.active == w.active + 1
    &&& match p.status {
        Status::Waiting => waits(w, w2, to, q, 1),
        Status::Sleeping => to == SettledView::Asleep && becomes(
            w,
            w3,
            q,
            ProcView { place: Place::Sleeping, ..p },
        ),
        _ => to == SettledView::Queued && joins_queue(w, w3, q, p),
    }
}

/// Whether `q` is unregistered and nothing else changed.
pub open spec fn is_unregistered(w: WorldView, w2: WorldView, q: Pid) -> bool {
    &&& !w2.processes.contains_key(q)
    &&& others_alike(w, w2, q)
    &&& w2.queue == w.queue
    &&& w2.next_pid == w.next_pid
    &&& w2.active == w.active
    &&& w2.failed == w.failed
}

/// A spawn is settled by how the evaluation of the entry script went: if it
/// succeeded, the process goes where it belongs, and otherwise it is
/// unregistered, and the error is passed on.
pub proof fn settling_a_spawn(q: Pid, created: Result<(), String>, r: Result<Settled, String>)
    ensures
        forall|world: &mut World| #[trigger]
            call_ensures(spawn_process, (world, q, created), r) && world.wf() && world@.starting(q)
                ==> match created {
                Ok(_) => r is Ok && is_settled(world@, final(world)@, q, r->Ok_0@),
                Err(e) => r is Err && r->Err_0 == e && is_unregistered(world@, final(world)@, q),
            },
{
    assert forall|world: &mut World| #[trigger]
        call_ensures(spawn_process, (world, q, created), r) && world.wf() && world@.starting(
            q,
        ) implies match created {
        Ok(_) => r is Ok && is_settled(world@, final(world)@, q, r->Ok_0@),
        Err(e) => r is Err && r->Err_0 == e && is_unregistered(world@, final(world)@, q),
    } by {
        settling(world@, q);
    }
}

/// Whether `step` is the front of the run queue, which was taken off it.
pub open spec fn takes_front(w: WorldView, w2: WorldView, step: WorkerStep) -> bool {
    if w.queue.len() == 0 {
        step is Idle && w2 == w
    } else {
        &&& w.queue == seq![w.queue[0]] + w2.queue
        &&& match w.queue[0] {
            RunItem::Stop => step is Stop && w2.processes == w.processes && w2.failed == w.failed,
            RunItem::Process(q) => {
                let p = w.processes[q];
                let p2 = w2.processes[q];
                &&& step is Slice && step->Slice_0 == q
                &&& others_alike(w, w2, q)
                &&& w2.failed == w.failed
                &&& match step->Slice_1 {
                    SliceStart::Gone => {
                        &&& p.status == Status::Killed
                        &&& !w2.processes.contains_key(q)
                    },
                    SliceStart::Parked => false,
                    SliceStart::Message(json) => {
                        &&& p.status == Status::Waiting && !p.timed_out
                        &&& p.inbox == seq![json@] + p2.inbox
                        &&& p2.owed == Some(WakeKind::Message)
                    },
                    SliceStart::Timeout => {
                        &&& p.status == Status::Waiting && p.timed_out
                        &&& p2.inbox == p.inbox
                        &&& p2.owed == Some(WakeKind::Timeout)
                    },
                    SliceStart::Sleep => {
                        &&& p.status == Status::Sleeping
                        &&& p2.inbox == p.inbox
                        &&& p2.owed == Some(WakeKind::Sleep)
                    },
                    SliceStart::Yield => {
                        &&& p.status == Status::Yielding
                        &&& p2.inbox == p.inbox
                        &&& p2.owed == Some(WakeKind::Yield)
                    },
                    SliceStart::Run => {
                        &&& p.status == Status::Running || p.status == Status::Done || p.status
                            == Status::Failed
                        &&& p2.inbox == p.inbox
                        &&& p2.owed is None
                    },
                }
                &&& !(step->Slice_1 is Gone) ==> {
                    &&& w2.processes.contains_key(q)
                    &&& p2.place == Place::OnWorker
                    &&& p2.status == p.status && p2.deadline == p.deadline
                    &&& p2.sandbox == p.sandbox && p2.name == p.name
                    &&& p2.recv_pending == p.recv_pending && p2.sleep_pending == p.sleep_pending
                    &&& !p2.timed_out && !p2.ran_job
                }
            },
        }
    }
}

/// A worker is given the front of the run queue, and told what its script was
/// suspended for.
pub proof fn taking_work(r: WorkerStep)
    ensures
        forall|world: &mut World| #[trigger]
            call_ensures(worker_step, (world,), r) && world.wf() ==> takes_front(
                world@,
                final(world)@,
                r,
            ),
{
    assert forall|world: &mut World| #[trigger]
        call_ensures(worker_step, (world,), r) && world.wf() implies takes_front(
        world@,
        final(world)@,
        r,
    ) by {
        asking_for_work(world@);
        crate::laws::no_wake_for_nothing(world@, r->Slice_0);
    }
}

/// Whether `q` was told what it was owed and goes on, or could not be told and
/// is gone.
pub open spec fn is_woken(
    w: WorldView,
    w2: WorldView,
    q: Pid,
    kind: WakeKind,
    ok: bool,
    queued: bool,
    r: WakeEnd,
) -> bool {
    let p = w.processes[q];
    let p2 = w2.processes[q];
    &&& ok <==> r is Resumed
    &&& ok ==> {
        &&& queued ==> joins_queue(w, w2, q, ProcView { place: p.place, ..p2 })
        &&& !queued ==> becomes(w, w2, q, p2)
        &&& p2.owed is None
        &&& p2.status == if p.status == Status::Killed {
            Status::Killed
        } else {
            Status::Running
        }
        &&& p2.inbox == p.inbox && p2.sandbox == p.sandbox && p2.name == p.name
        &&& p2.recv_pending == (p.recv_pending && (kind == WakeKind::Sleep || kind
            == WakeKind::Yield))
        &&& p2.sleep_pending == (p.sleep_pending && kind != WakeKind::Sleep)
        &&& p2.deadline == if kind == WakeKind::Yield {
            p.deadline
        } else {
            None
        }
    }
    &&& !ok ==> {
        &&& leaves(
            w,
            w2,
            q,
            if p.status == Status::Killed {
                0
            } else {
                1
            },
        )
        &&& r is Dead && (r->Dead_0 is None <==> p.status == Status::Killed)
        &&& r->Dead_0 is Some ==> r->Dead_0->0@ == "[pid "@ + decimal(q as nat) + "] "@ + (
        "error: "@ + match kind {
            WakeKind::Message => "failed to deliver message"@,
            WakeKind::Timeout => "failed to deliver timeout"@,
            WakeKind::Sleep => "failed to resume after sleep"@,
            WakeKind::Yield => "failed to resume after yield"@,
        })
    }
}

/// Once a process has been woken it goes on, and one that could not be woken is
/// gone, and reported unless it was killed. One that was about to be parked goes
/// to the run queue.
pub proof fn completing_a_wake(q: Pid, kind: WakeKind, ok: bool, r: WakeEnd)
    ensures
        forall|world: &mut World| #[trigger]
            call_ensures(complete_wake, (world, q, kind, ok), r) && world.wf() && world@.owes(
                q,
                kind,
            ) ==> is_woken(world@, final(world)@, q, kind, ok, false, r),
        forall|world: &mut World| #[trigger]
            call_ensures(complete_park, (world, q, ok), r) && world.wf() && world@.owes(
                q,
                WakeKind::Message,
            ) ==> is_woken(world@, final(world)@, q, WakeKind::Message, ok, true, r),
{
    assert forall|world: &mut World| #[trigger]
        call_ensures(complete_wake, (world, q, kind, ok), r) && world.wf() && world@.owes(
            q,
            kind,
        ) implies is_woken(world@, final(world)@, q, kind, ok, false, r) by {
        waking(world@, q, kind);
        reporting_failed_wakes(world@, q, kind, ok, r);
    }
    assert forall|world: &mut World| #[trigger]
        call_ensures(complete_park, (world, q, ok), r) && world.wf() && world@.owes(
            q,
            WakeKind::Message,
        ) implies is_woken(world@, final(world)@, q, WakeKind::Message, ok, true, r) by {
        waking(world@, q, WakeKind::Message);
        reporting_failed_wakes(world@, q, WakeKind::Message, ok, r);
        let w1 = world@.woken(q, WakeKind::Message, true);
        let p1 = w1.processes[q];
        if ok {
            assert(ProcView { place: world@.processes[q].place, ..final(world)@.processes[q] }
                =~= p1);
        }
    }
}

/// A slice has its job exactly if a worker holds the process, its script is owed
/// nothing, it has not ended, and the slice has had none.
pub proof fn taking_a_job(q: Pid, r: bool)
    ensures
        forall|world: &mut World| #[trigger]
            call_ensures(take_job, (world, q), r) ==> {
                let p = world@.processes[q];
                &&& r <==> {
                    &&& world@.processes.contains_key(q)
                    &&& p.place == Place::OnWorker
                    &&& p.owed is None
                    &&& !p.ran_job
                    &&& p.status != Status::Done && p.status != Status::Failed && p.status
                        != Status::Killed
                }
                &&& r ==> becomes(
                    world@,
                    final(world)@,
                    q,
                    ProcView { ran_job: true, ..p },
                )
                &&& !r ==> final(world)@ == world@
            },
{
    assert forall|world: &mut World| #[trigger] call_ensures(take_job, (world, q), r) implies {
        let p = world@.processes[q];
        &&& r <==> {
            &&& world@.processes.contains_key(q)
            &&& p.place == Place::OnWorker
            &&& p.owed is None
            &&& !p.ran_job
            &&& p.status != Status::Done && p.status != Status::Failed && p.status
                != Status::Killed
        }
        &&& r ==> becomes(world@, final(world)@, q, ProcView { ran_job: true, ..p })
        &&& !r ==> final(world)@ == world@
    } by {
        granting_a_job(world@, q);
    }
}

/// Whether `q` has the given status, unless it was killed, and nothing else
/// changed.
pub open spec fn has_status(w: WorldView, w2: WorldView, q: Pid, status: Status) -> bool {
    becomes(
        w,
        w2,
        q,
        ProcView {
            status: if w.processes[q].status == Status::Killed {
                Status::Killed
            } else {
                status
            },
            ..w.processes[q]
        },
    )
}

/// Whether `line` is the report of a failure of `q`: none if it was killed.
pub open spec fn is_report(
    w: WorldView,
    q: Pid,
    label: Seq<char>,
    msg: Seq<char>,
    line: Option<String>,
) -> bool {
    &&& line is None <==> w.processes[q].status == Status::Killed
    &&& line is Some ==> line->0@ == seq!['[', 'p', 'i', 'd', ' '] + decimal(q as nat) + seq![
        ']',
        ' ',
    ] + (label + msg)
}

/// A script that fails, ends or yields leaves its process with that status,
/// unless it was killed. A failure is reported, unless the process was killed.
pub proof fn marking_processes(q: Pid, msg: &str, r: Option<String>)
    ensures
        forall|world: &mut World| #[trigger]
            call_ensures(job_failed, (world, q, msg), r) && world@.processes.contains_key(q) ==> {
                &&& has_status(world@, final(world)@, q, Status::Failed)
                &&& is_report(world@, q, "unhandled exception: "@, msg@, r)
            },
        forall|world: &mut World| #[trigger]
            call_ensures(entry_failed, (world, q, msg), r) && world@.processes.contains_key(q) ==> {
                &&& has_status(world@, final(world)@, q, Status::Failed)
                &&& is_report(world@, q, "error: "@, msg@, r)
            },
        forall|world: &mut World| #[trigger]
            call_ensures(entry_done, (world, q), ()) && world@.processes.contains_key(q)
                ==> has_status(world@, final(world)@, q, Status::Done),
        forall|world: &mut World| #[trigger]
            call_ensures(yield_now, (world, q), ()) && world@.processes.contains_key(q)
                ==> has_status(world@, final(world)@, q, Status::Yielding),
{
    lines(q, "unhandled exception: "@ + msg@);
    lines(q, "error: "@ + msg@);
    assert forall|world: &mut World| #[trigger]
        call_ensures(job_failed, (world, q, msg), r) && world@.processes.contains_key(q) implies {
        &&& has_status(world@, final(world)@, q, Status::Failed)
        &&& is_report(world@, q, "unhandled exception: "@, msg@, r)
    } by {
        marking(world@, q, Status::Failed);
    }
    assert forall|world: &mut World| #[trigger]
        call_ensures(entry_failed, (world, q, msg), r) && world@.processes.contains_key(q) implies {
        &&& has_status(world@, final(world)@, q, Status::Failed)
        &&& is_report(world@, q, "error: "@, msg@, r)
    } by {
        marking(world@, q, Status::Failed);
    }
    assert forall|world: &mut World| #[trigger]
        call_ensures(entry_done, (world, q), ()) && world@.processes.contains_key(
            q,
        ) implies has_status(world@, final(world)@, q, Status::Done) by {
        marking(world@, q, Status::Done);
    }
    assert forall|world: &mut World| #[trigger]
        call_ensures(yield_now, (world, q), ()) && world@.processes.contains_key(
            q,
        ) implies has_status(world@, final(world)@, q, Status::Yielding) by {
        marking(world@, q, Status::Yielding);
    }
}

/// Whether `q` went where it belongs when its slice ended.
pub open spec fn is_put_away(
    w: WorldView,
    w2: WorldView,
    q: Pid,
    job_pending: bool,
    to: SettledView,
) -> bool {
    let p = w.processes[q];
    match p.status {
        Status::Waiting => waits(w, w2, to, q, 0),
        Status::Sleeping => to == SettledView::Asleep && becomes(
            w,
            w2,
            q,
            ProcView { place: Place::Sleeping, ..p },
        ),
        Status::Yielding => to == SettledView::Queued && joins_queue(w, w2, q, p),
        Status::Running => if job_pending {
            to == SettledView::Queued && joins_queue(w, w2, q, p)
        } else {
            to == SettledView::Gone && leaves(w, w2, q, 0)
        },
        Status::Done | Status::Killed => to == SettledView::Gone && leaves(w, w2, q, 0),
        Status::Failed => to == SettledView::Gone && leaves(w, w2, q, 1),
    }
}

/// A slice that ends puts its process where it belongs. So does parking one that
/// waits.
pub proof fn ending_a_slice(q: Pid, job_pending: bool, r: Settled)
    ensures
        forall|world: &mut World| #[trigger]
            call_ensures(end_slice, (world, q, job_pending), r) && world.wf() && world@.in_slice(q)
                ==> is_put_away(world@, final(world)@, q, job_pending, r@),
        forall|world: &mut World| #[trigger]
            call_ensures(park, (world, q), r) && world.wf() && world@.in_slice(q)
                && world@.processes[q].status == Status::Waiting ==> waits(
                world@,
                final(world)@,
                r@,
                q,
                0,
            ),
{
    assert forall|world: &mut World| #[trigger]
        call_ensures(park, (world, q), r) && world.wf() && world@.in_slice(q)
            && world@.processes[q].status == Status::Waiting implies waits(
        world@,
        final(world)@,
        r@,
        q,
        0,
    ) by {
        parking(world@, q);
    }
    assert forall|world: &mut World| #[trigger]
        call_ensures(end_slice, (world, q, job_pending), r) && world.wf() && world@.in_slice(
            q,
        ) implies is_put_away(world@, final(world)@, q, job_pending, r@) by {
        slice_end(world@, q, job_pending);
    }
}

/// Exactly as many entries join the run queue as workers are told to stop.
pub proof fn stopping_workers(n: usize)
    ensures
        forall|world: &mut World| #[trigger]
            call_ensures(stop_workers, (world, n), ()) ==> {
                let (w, w2) = (world@, final(world)@);
                &&& w2.queue.len() == w.queue.len() + n
                &&& forall|i: int|
                    0 <= i < w2.queue.len() ==> #[trigger] w2.queue[i] == if i < w.queue.len() {
                        w.queue[i]
                    } else {
                        RunItem::Stop
                    }
                &&& w2.processes == w.processes
                &&& w2.active == w.active && w2.failed == w.failed && w2.next_pid == w.next_pid
            },
{
    assert forall|world: &mut World| #[trigger] call_ensures(stop_workers, (world, n), ()) implies {
        let (w, w2) = (world@, final(world)@);
        &&& w2.queue.len() == w.queue.len() + n
        &&& forall|i: int|
            0 <= i < w2.queue.len() ==> #[trigger] w2.queue[i] == if i < w.queue.len() {
                w.queue[i]
            } else {
                RunItem::Stop
            }
        &&& w2.processes == w.processes
        &&& w2.active == w.active && w2.failed == w.failed && w2.next_pid == w.next_pid
    } by {
        stopping(world@, n as nat);
    }
}

/// Whether the text is the newest message of `q`, which joins the run queue if
/// it was parked; nothing changed if `q` does not live.
pub open spec fn is_delivered(w: WorldView, w2: WorldView, q: Pid, json: Seq<char>) -> bool {
    let p = w.processes[q];
    let p2 = ProcView { inbox: w2.processes[q].inbox, ..p };
    &&& !w.processes.contains_key(q) ==> w2 == w
    &&& w.processes.contains_key(q) ==> {
        &&& p2.inbox.len() == p.inbox.len() + 1
        &&& p2.inbox.last() == json
        &&& p2.inbox.drop_last() == p.inbox
        &&& p.place == Place::Parked ==> joins_queue(w, w2, q, p2)
        &&& p.place != Place::Parked ==> becomes(w, w2, q, p2)
    }
}

/// A text that is delivered, or a value with a JSON text that is sent, is the
/// newest message of its process. A value without one is refused.
pub proof fn sending(q: Pid, json: String, value: Payload, r: Result<(), JsError>)
    ensures
        forall|world: &mut World| #[trigger]
            call_ensures(deliver_json_string, (world, q, json), ()) ==> is_delivered(
                world@,
                final(world)@,
                q,
                json@,
            ),
        forall|world: &mut World| #[trigger]
            call_ensures(send_message, (world, q, value), r) ==> match value {
                Payload::Json(Some(text)) => r is Ok && is_delivered(
                    world@,
                    final(world)@,
                    q,
                    text@,
                ),
                _ => {
                    &&& final(world)@ == world@
                    &&& r is Err
                    &&& r->Err_0.class == ErrorClass::TypeError
                    &&& r->Err_0.message@ == "value is not message-serializable"@
                },
            },
{
    payloads(value);
    assert forall|world: &mut World| #[trigger]
        call_ensures(deliver_json_string, (world, q, json), ()) implies is_delivered(
        world@,
        final(world)@,
        q,
        json@,
    ) by {
        delivery(world@, q, json@);
    }
    assert forall|world: &mut World| #[trigger]
        call_ensures(send_message, (world, q, value), r) implies match value {
        Payload::Json(Some(text)) => r is Ok && is_delivered(world@, final(world)@, q, text@),
        _ => {
            &&& final(world)@ == world@
            &&& r is Err
            &&& r->Err_0.class == ErrorClass::TypeError
            &&& r->Err_0.message@ == "value is not message-serializable"@
        },
    } by {
        if let Payload::Json(Some(text)) = value {
            delivery(world@, q, text@);
        }
    }
}

/// Whether `q` is gone if it was parked or asleep, and has the status killed if
/// it lives anywhere else.
pub open spec fn is_killed(w: WorldView, w2: WorldView, q: Pid) -> bool {
    let p = w.processes[q];
    let resting = p.place == Place::Parked || p.place == Place::Sleeping;
    &&& !w.processes.contains_key(q) ==> w2 == w
    &&& w.processes.contains_key(q) && resting ==> leaves(w, w2, q, 0)
    &&& w.processes.contains_key(q) && !resting ==> becomes(
        w,
        w2,
        q,
        ProcView { status: Status::Killed, ..p },
    )
}

/// A kill answers whether the process lived, and kills it. A script may always
/// kill its own process, and others exactly if its sandbox allows it.
pub proof fn killing_processes(caller: Pid, q: Pid, r: bool, a: Result<bool, JsError>)
    ensures
        forall|world: &mut World| #[trigger]
            call_ensures(kill_process, (world, q), r) && world.wf() ==> {
                &&& r == world@.processes.contains_key(q)
                &&& is_killed(world@, final(world)@, q)
            },
        forall|world: &mut World| #[trigger]
            call_ensures(kill_by, (world, caller, q), a) && world.wf()
                && world@.processes.contains_key(caller) ==> if q == caller
                || world@.processes[caller].sandbox.can_spawn_and_kill {
                &&& a == Ok::<bool, JsError>(world@.processes.contains_key(q))
                &&& is_killed(world@, final(world)@, q)
            } else {
                &&& a is Err && a->Err_0.class == ErrorClass::PermissionError
                &&& a->Err_0.message@
                    == "killProcess on another process is not permitted in this sandbox"@
                &&& final(world)@ == world@
            },
{
    assert forall|world: &mut World| #[trigger]
        call_ensures(kill_process, (world, q), r) && world.wf() implies {
        &&& r == world@.processes.contains_key(q)
        &&& is_killed(world@, final(world)@, q)
    } by {
        killing(world@, q);
    }
    assert forall|world: &mut World| #[trigger]
        call_ensures(kill_by, (world, caller, q), a) && world.wf()
            && world@.processes.contains_key(caller) implies if q == caller
        || world@.processes[caller].sandbox.can_spawn_and_kill {
        &&& a == Ok::<bool, JsError>(world@.processes.contains_key(q))
        &&& is_killed(world@, final(world)@, q)
    } else {
        &&& a is Err && a->Err_0.class == ErrorClass::PermissionError
        &&& a->Err_0.message@
            == "killProcess on another process is not permitted in this sandbox"@
        &&& final(world)@ == world@
    } by {
        killing(world@, q);
        killing_by_a_script(world@, final(world)@, caller, q, a);
    }
}

/// A request to narrow a sandbox that is granted returns the sandbox that the
/// process has from then on: what it had, less what is asked to be off.
pub proof fn restricting(
    caller: Pid,
    request: Option<bool>,
    target: Option<Pid>,
    r: Result<Sandbox, JsError>,
)
    ensures
        forall|world: &mut World| #[trigger]
            call_ensures(restrict_sandbox, (world, caller, request, target), r) && world.wf()
                && world@.processes.contains_key(caller) ==> {
                let t = if target is Some {
                    target->0
                } else {
                    caller
                };
                let privileged = world@.processes[caller].sandbox.can_spawn_and_kill;
                &&& r is Ok <==> t == caller || (request == Some(false) && privileged
                    && world@.processes.contains_key(t))
                &&& r is Ok ==> {
                    &&& r->Ok_0.can_spawn_and_kill
                        == (world@.processes[t].sandbox.can_spawn_and_kill && request
                        != Some(false))
                    &&& becomes(
                        world@,
                        final(world)@,
                        t,
                        ProcView { sandbox: r->Ok_0, ..world@.processes[t] },
                    )
                }
                &&& r is Err ==> {
                    &&& final(world)@ == world@
                    &&& r->Err_0.class == if request == Some(false) && !privileged {
                        ErrorClass::PermissionError
                    } else {
                        ErrorClass::TypeError
                    }
                }
            },
{
    assert forall|world: &mut World| #[trigger]
        call_ensures(restrict_sandbox, (world, caller, request, target), r) && world.wf()
            && world@.processes.contains_key(caller) implies {
        let t = if target is Some {
            target->0
        } else {
            caller
        };
        let privileged = world@.processes[caller].sandbox.can_spawn_and_kill;
        &&& r is Ok <==> t == caller || (request == Some(false) && privileged
            && world@.processes.contains_key(t))
        &&& r is Ok ==> {
            &&& r->Ok_0.can_spawn_and_kill == (world@.processes[t].sandbox.can_spawn_and_kill
                && request != Some(false))
            &&& becomes(
                world@,
                final(world)@,
                t,
                ProcView { sandbox: r->Ok_0, ..world@.processes[t] },
            )
        }
        &&& r is Err ==> {
            &&& final(world)@ == world@
            &&& r->Err_0.class == if request == Some(false) && !privileged {
                ErrorClass::PermissionError
            } else {
                ErrorClass::TypeError
            }
        }
    } by {
        narrowing_by_a_script(world@, final(world)@, caller, request, target, r);
    }
}

/// A script is told the sandbox that its process has. It may spawn exactly if
/// that allows it, and its child then starts from it. A spawn that failed raises
/// a `TypeError` with the reason.
pub proof fn permitting(
    world: &World,
    q: Pid,
    s: Sandbox,
    permit: Result<Sandbox, JsError>,
    spawned: Result<Pid, String>,
    outcome: Result<Pid, JsError>,
)
    ensures
        call_ensures(self_sandbox, (world, q), s) ==> s == world@.processes[q].sandbox,
        call_ensures(spawn_permit, (world, q), permit) ==> {
            &&& permit is Ok <==> world@.processes[q].sandbox.can_spawn_and_kill
            &&& permit is Ok ==> permit->Ok_0 == world@.processes[q].sandbox
            &&& permit is Err ==> {
                &&& permit->Err_0.class == ErrorClass::PermissionError
                &&& permit->Err_0.message@ == "spawn is not permitted in this sandbox"@
            }
        },
        call_ensures(spawn_outcome, (spawned,), outcome) ==> {
            &&& spawned is Ok ==> outcome is Ok && outcome->Ok_0 == spawned->Ok_0
            &&& spawned is Err ==> {
                &&& outcome is Err
                &&& outcome->Err_0.class == ErrorClass::TypeError
                &&& outcome->Err_0.message@ == spawned->Err_0@
            }
        },
{
}

/// `recv` and `sleep` suspend their process until the given number of
/// milliseconds has passed, or refuse to while the other is pending.
pub proof fn suspending(
    q: Pid,
    timeout_ms: Option<u64>,
    ms: u64,
    now: u64,
    r: Result<Recv, JsError>,
    s: Result<(), JsError>,
)
    ensures
        forall|world: &mut World| #[trigger]
            call_ensures(recv, (world, q, timeout_ms, now), r) && world@.processes.contains_key(q)
                ==> {
                let p = world@.processes[q];
                let p2 = final(world)@.processes[q];
                &&& becomes(world@, final(world)@, q, p2)
                &&& p2.name == p.name && p2.sandbox == p.sandbox && p2.place == p.place
                &&& r is Err <==> p.sleep_pending
                &&& r is Err ==> {
                    &&& p2 == p
                    &&& r->Err_0.class == ErrorClass::TypeError
                    &&& r->Err_0.message@ == "cannot call recv() while a sleep() is pending"@
                }
                &&& r is Ok && r->Ok_0 is Message ==> {
                    &&& p.inbox == seq![r->Ok_0->Message_0@] + p2.inbox
                    &&& p2 == (ProcView { inbox: p2.inbox, ..p })
                }
                &&& r is Ok && r->Ok_0 is Wait ==> {
                    &&& p.inbox.len() == 0 && p2.inbox.len() == 0
                    &&& p2.recv_pending && p2.sleep_pending == p.sleep_pending
                    &&& p2.deadline is Some <==> timeout_ms is Some
                    &&& timeout_ms is Some ==> p2.deadline->0 == now + timeout_ms->0 * 1_000_000
                    &&& p2.status == if p.status == Status::Killed {
                        Status::Killed
                    } else {
                        Status::Waiting
                    }
                }
            },
        forall|world: &mut World| #[trigger]
            call_ensures(sleep, (world, q, ms, now), s) && world@.processes.contains_key(q) ==> {
                let p = world@.processes[q];
                let p2 = final(world)@.processes[q];
                &&& becomes(world@, final(world)@, q, p2)
                &&& p2.inbox == p.inbox
                &&& p2.name == p.name && p2.sandbox == p.sandbox && p2.place == p.place
                &&& s is Err <==> p.recv_pending
                &&& s is Err ==> {
                    &&& p2 == p
                    &&& s->Err_0.class == ErrorClass::TypeError
                    &&& s->Err_0.message@ == "cannot call sleep() while a recv() is pending"@
                }
                &&& s is Ok ==> {
                    &&& p2.sleep_pending && p2.recv_pending == p.recv_pending
                    &&& p2.deadline is Some
                    &&& p2.deadline->0 == now + ms * 1_000_000
                    &&& p2.status == if p.status == Status::Killed {
                        Status::Killed
                    } else {
                        Status::Sleeping
                    }
                }
            },
{
    assert forall|world: &mut World| #[trigger]
        call_ensures(recv, (world, q, timeout_ms, now), r) && world@.processes.contains_key(
            q,
        ) implies {
        let p = world@.processes[q];
        let p2 = final(world)@.processes[q];
        &&& becomes(world@, final(world)@, q, p2)
        &&& p2.name == p.name && p2.sandbox == p.sandbox && p2.place == p.place
        &&& r is Err <==> p.sleep_pending
        &&& r is Err ==> {
            &&& p2 == p
            &&& r->Err_0.class == ErrorClass::TypeError
            &&& r->Err_0.message@ == "cannot call recv() while a sleep() is pending"@
        }
        &&& r is Ok && r->Ok_0 is Message ==> {
            &&& p.inbox == seq![r->Ok_0->Message_0@] + p2.inbox
            &&& p2 == (ProcView { inbox: p2.inbox, ..p })
        }
        &&& r is Ok && r->Ok_0 is Wait ==> {
            &&& p.inbox.len() == 0 && p2.inbox.len() == 0
            &&& p2.recv_pending && p2.sleep_pending == p.sleep_pending
            &&& p2.deadline is Some <==> timeout_ms is Some
            &&& timeout_ms is Some ==> p2.deadline->0 == now + timeout_ms->0 * 1_000_000
            &&& p2.status == if p.status == Status::Killed {
                Status::Killed
            } else {
                Status::Waiting
            }
        }
    } by {
        receiving(world@, q, timeout_ms, now, r);
    }
    assert forall|world: &mut World| #[trigger]
        call_ensures(sleep, (world, q, ms, now), s) && world@.processes.contains_key(q) implies {
        let p = world@.processes[q];
        let p2 = final(world)@.processes[q];
        &&& becomes(world@, final(world)@, q, p2)
        &&& p2.inbox == p.inbox
        &&& p2.name == p.name && p2.sandbox == p.sandbox && p2.place == p.place
        &&& s is Err <==> p.recv_pending
        &&& s is Err ==> {
            &&& p2 == p
            &&& s->Err_0.class == ErrorClass::TypeError
            &&& s->Err_0.message@ == "cannot call sleep() while a recv() is pending"@
        }
        &&& s is Ok ==> {
            &&& p2.sleep_pending && p2.recv_pending == p.recv_pending
            &&& p2.deadline is Some
            &&& p2.deadline->0 == now + ms * 1_000_000
            &&& p2.status == if p.status == Status::Killed {
                Status::Killed
            } else {
                Status::Sleeping
            }
        }
    } by {
        sleeping(world@, q, ms, now);
    }
}

/// The timers return exactly the processes that rest until a moment that has
/// come, the earliest first, and these join the run queue in that order.
pub proof fn firing(now: u64, r: Vec<Pid>)
    ensures
        forall|world: &mut World| #[trigger]
            call_ensures(fire_timers, (world, now), r) && world.wf() ==> {
                let (w, w2) = (world@, final(world)@);
                &&& forall|q: Pid| #[trigger]
                    r@.contains(q) <==> {
                        let p = w.processes[q];
                        &&& w.processes.contains_key(q)
                        &&& p.place == Place::Parked || p.place == Place::Sleeping
                        &&& p.deadline is Some && p.deadline->0 <= now
                    }
                &&& forall|i: int, j: int|
                    0 <= i < j < r@.len() ==> {
                        let a = w.processes[#[trigger] r@[i]].deadline->0;
                        let b = w.processes[#[trigger] r@[j]].deadline->0;
                        a < b || (a == b && r@[i] < r@[j])
                    }
                &&& w2.queue.len() == w.queue.len() + r@.len()
                &&& forall|i: int|
                    0 <= i < r@.len() ==> w2.queue[w.queue.len() + i] == RunItem::Process(
                        #[trigger] r@[i],
                    )
                &&& forall|q: Pid|
                    w.processes.contains_key(q) ==> #[trigger] w2.processes[q] == if r@.contains(
                        q,
                    ) {
                        ProcView {
                            place: Place::Queued,
                            timed_out: w.processes[q].place == Place::Parked,
                            ..w.processes[q]
                        }
                    } else {
                        w.processes[q]
                    }
            },
{
    assert forall|world: &mut World| #[trigger]
        call_ensures(fire_timers, (world, now), r) && world.wf() implies {
        let (w, w2) = (world@, final(world)@);
        &&& forall|q: Pid| #[trigger]
            r@.contains(q) <==> {
                let p = w.processes[q];
                &&& w.processes.contains_key(q)
                &&& p.place == Place::Parked || p.place == Place::Sleeping
                &&& p.deadline is Some && p.deadline->0 <= now
            }
        &&& forall|i: int, j: int|
            0 <= i < j < r@.len() ==> {
                let a = w.processes[#[trigger] r@[i]].deadline->0;
                let b = w.processes[#[trigger] r@[j]].deadline->0;
                a < b || (a == b && r@[i] < r@[j])
            }
        &&& w2.queue.len() == w.queue.len() + r@.len()
        &&& forall|i: int|
            0 <= i < r@.len() ==> w2.queue[w.queue.len() + i] == RunItem::Process(
                #[trigger] r@[i],
            )
        &&& forall|q: Pid|
            w.processes.contains_key(q) ==> #[trigger] w2.processes[q] == if r@.contains(q) {
                ProcView {
                    place: Place::Queued,
                    timed_out: w.processes[q].place == Place::Parked,
                    ..w.processes[q]
                }
            } else {
                w.processes[q]
            }
    } by {
        servicing_the_timers(world@, r@, now);
    }
}

/// A live process has the name that it is given, and nothing else changes.
pub proof fn naming(q: Pid, name: String)
    ensures
        forall|world: &mut World| #[trigger]
            call_ensures(set_process_name, (world, q, name), ()) ==> {
                &&& world@.processes.contains_key(q) ==> becomes(
                    world@,
                    final(world)@,
                    q,
                    ProcView { name: name@, ..world@.processes[q] },
                )
                &&& !world@.processes.contains_key(q) ==> final(world)@ == world@
            },
{
    assert forall|world: &mut World| #[trigger]
        call_ensures(set_process_name, (world, q, name), ()) implies {
        &&& world@.processes.contains_key(q) ==> becomes(
            world@,
            final(world)@,
            q,
            ProcView { name: name@, ..world@.processes[q] },
        )
        &&& !world@.processes.contains_key(q) ==> final(world)@ == world@
    } by {
        renaming(world@, q, name@);
    }
}

/// What can be asked about processes is answered by what their records say.
pub proof fn asking(
    world: &World,
    q: Pid,
    alive: bool,
    place: Option<Place>,
    count: usize,
    info: Option<(Pid, String, &'static str)>,
    l: Vec<(Pid, String, &'static str)>,
)
    ensures
        call_ensures(is_process_alive, (world, q), alive) ==> alive
            == world@.processes.contains_key(q),
        call_ensures(place_of, (world, q), place) ==> place == if world@.processes.contains_key(q) {
            Some(world@.processes[q].place)
        } else {
            None
        },
        call_ensures(process_count, (world,), count) ==> count == world@.processes.dom().len(),
        call_ensures(process_info, (world, q), info) ==> {
            &&& info is Some <==> world@.processes.contains_key(q)
            &&& info is Some ==> {
                &&& (info->0).0 == q
                &&& (info->0).1@ == world@.processes[q].name
                &&& (info->0).2@ == world@.processes[q].status.spec_as_str()
            }
        },
        call_ensures(list_processes, (world,), l) ==> {
            &&& l@.len() == world@.processes.dom().len()
            &&& forall|i: int|
                0 <= i < l@.len() ==> {
                    let r = world@.processes[(#[trigger] l@[i]).0];
                    &&& world@.processes.contains_key(l@[i].0)
                    &&& l@[i].1@ == r.name
                    &&& l@[i].2@ == r.status.spec_as_str()
                }
            &&& forall|i: int, j: int|
                0 <= i < j < l@.len() ==> (#[trigger] l@[i]).0 < (#[trigger] l@[j]).0
        },
{
    if call_ensures(process_info, (world, q), info) && info is Some {
        telling(world@, info->0);
    }
    if call_ensures(list_processes, (world,), l) {
        listing(world@, l@);
        assert forall|i: int| 0 <= i < l@.len() implies {
            let r = world@.processes[(#[trigger] l@[i]).0];
            &&& world@.processes.contains_key(l@[i].0)
            &&& l@[i].1@ == r.name
            &&& l@[i].2@ == r.status.spec_as_str()
        } by {
            telling(world@, l@[i]);
        }
    }
}

/// The program has as many workers as asked for, and at least one. It waits as
/// long as a process is active or it is kept alive, and not after a shutdown. It
/// exits with zero exactly if no process failed. It notes a host other than the
/// default that was given without a port.
pub proof fn running(
    world: &World,
    requested: usize,
    workers: usize,
    persistent: bool,
    controlled: bool,
    kept: bool,
    shutdown: bool,
    waiting: bool,
    code: i32,
    host: &str,
    port: Option<u16>,
    idle: bool,
)
    ensures
        call_ensures(worker_count, (requested,), workers) ==> {
            &&& workers >= 1
            &&& requested >= 1 ==> workers == requested
            &&& requested == 0 ==> workers == 1
        },
        call_ensures(keep_alive, (persistent, controlled), kept) ==> (!kept <==> !persistent
            && !controlled),
        call_ensures(keep_waiting, (world, shutdown, kept), waiting) ==> {
            &&& shutdown ==> !waiting
            &&& !shutdown && kept ==> waiting
            &&& !shutdown && !kept ==> (waiting <==> world@.active > 0)
        },
        call_ensures(exit_code, (world,), code) ==> {
            &&& world@.failed == 0 ==> code == 0
            &&& world@.failed > 0 ==> code == 1
        },
        call_ensures(host_is_idle, (host, port), idle) ==> {
            &&& port is Some ==> !idle
            &&& port is None ==> (idle <==> host@ != "127.0.0.1"@)
        },
{
}

/// Connections are accepted until there are too many or the program is shut
/// down. One that is accepted is served, and only an error ends the loop.
pub proof fn serving(shutdown: bool, live: usize, step: ServeStep, a: Accepted, next: ServeStep)
    ensures
        call_ensures(serve_step, (shutdown, live), step) ==> {
            &&& shutdown ==> step == ServeStep::Stop
            &&& !shutdown && live < 256 ==> step == ServeStep::Accept
            &&& !shutdown && live >= 256 ==> step == ServeStep::Pause
        },
        call_ensures(accept_step, (a,), next) ==> {
            &&& a == Accepted::Connection ==> next == ServeStep::Serve
            &&& a == Accepted::WouldBlock ==> next == ServeStep::Pause
            &&& a == Accepted::Error ==> next == ServeStep::Fail
        },
{
}

/// Whether the world is as the request of a control client leaves it: changed by
/// a kill, a message or a new name for the process that is named, and by nothing
/// else.
pub open spec fn is_served(
    w: WorldView,
    w2: WorldView,
    method: Seq<char>,
    params: ParamsView,
) -> bool {
    if method == "kill"@ && params.pid is Some {
        is_killed(w, w2, params.pid->0)
    } else if method == "send"@ && params.pid is Some {
        is_delivered(
            w,
            w2,
            params.pid->0,
            if params.value is Some {
                params.value->0
            } else {
                "null"@
            },
        )
    } else if method == "rename"@ && params.pid is Some && w.processes.contains_key(
        params.pid->0,
    ) {
        let name = w2.processes[params.pid->0].name;
        &&& becomes(w, w2, params.pid->0, ProcView { name, ..w.processes[params.pid->0] })
        &&& params.name is Some ==> name == params.name->0
        &&& params.name is None ==> name.len() == 0
    } else {
        w2 == w
    }
}

/// Whether `d` is the answer to a request: for a kill or a new name whether the
/// process lives, for a message and a shutdown `true`, and otherwise what is
/// asked for, or an error.
pub open spec fn is_answered(
    w: WorldView,
    method: Seq<char>,
    params: ParamsView,
    d: Dispatch,
) -> bool {
    let lives = params.pid is Some && w.processes.contains_key(params.pid->0);
    if method == "kill"@ || method == "rename"@ {
        d == Dispatch::Answer(Ok(Reply::Flag(lives)))
    } else if method == "send"@ || method == "shutdown"@ {
        d == Dispatch::Answer(Ok(Reply::Flag(true)))
    } else if method == "spawn"@ {
        if params.code is Some {
            &&& d is Spawn
            &&& d->code@ == params.code->0
            &&& d->name@ == if params.name is Some {
                params.name->0
            } else {
                "rpc"@
            }
        } else {
            d is Answer && d->Answer_0 is Err && d->Answer_0->Err_0.code == -32602
        }
    } else if method == "count"@ {
        &&& d is Answer && d->Answer_0 is Ok && d->Answer_0->Ok_0 is Count
        &&& d->Answer_0->Ok_0->Count_0 == w.processes.dom().len()
    } else if method == "info"@ {
        if lives {
            &&& d is Answer && d->Answer_0 is Ok && d->Answer_0->Ok_0 is Info
            &&& (d->Answer_0->Ok_0->Info_0).0 == params.pid->0
            &&& is_info(d->Answer_0->Ok_0->Info_0, w)
        } else {
            d == Dispatch::Answer(Ok(Reply::Null))
        }
    } else if method == "list"@ {
        &&& d is Answer && d->Answer_0 is Ok && d->Answer_0->Ok_0 is List
        &&& is_listing(d->Answer_0->Ok_0->List_0@, w)
    } else {
        d is Answer && d->Answer_0 is Err && d->Answer_0->Err_0.code == -32601
    }
}

proof fn lemma_dispatch(w: WorldView, method: Seq<char>, params: ParamsView, d: Dispatch)
    requires
        w.wf(),
        is_dispatch(d, w, method, params),
    ensures
        is_served(w, dispatched(w, method, params), method, params),
        is_answered(w, method, params, d),
{
    lemma_methods_distinct();
    other_requests(w, method, params, d);
    if method == "kill"@ {
        clients_kill(w, params, d);
    } else if method == "send"@ {
        clients_send(w, params, d);
        if params.pid is Some {
            delivery(w, params.pid->0, params.payload());
        }
    } else if method == "rename"@ {
        clients_rename(w, params, d);
    } else if method == "spawn"@ {
        clients_spawn(w, params, d);
    } else if method == "count"@ || method == "info"@ || method == "list"@ {
        clients_ask(w, params, d);
        if w.alive(u64::MAX) {
            assert(u64::MAX < w.next_pid);
        }
    }
}

/// A control client gets what it asks for: the process that it names is killed,
/// sent a message or renamed, or it is told about, and a shutdown is noted.
pub proof fn dispatching(method: &str, params: &Params, d: Dispatch)
    ensures
        forall|world: &mut World, shutdown: &mut bool| #[trigger]
            call_ensures(dispatch, (method, params, world, shutdown), d) && world.wf() ==> {
                &&& is_served(world@, final(world)@, method@, params@)
                &&& is_answered(world@, method@, params@, d)
                &&& *final(shutdown) <==> *shutdown || method@ == "shutdown"@
            },
{
    assert forall|world: &mut World, shutdown: &mut bool| #[trigger]
        call_ensures(dispatch, (method, params, world, shutdown), d) && world.wf() implies {
        &&& is_served(world@, final(world)@, method@, params@)
        &&& is_answered(world@, method@, params@, d)
        &&& *final(shutdown) <==> *shutdown || method@ == "shutdown"@
    } by {
        lemma_dispatch(world@, method@, params@, d);
    }
}

/// Whether `a` is what follows from a request: a process to be spawned exactly
/// if it asks for one and gives a source, and otherwise an answer, with the id
/// of the request, exactly if it has one. The connection is closed exactly after
/// a shutdown.
pub open spec fn is_acted_on(
    w: WorldView,
    id: Option<Seq<char>>,
    method: Seq<char>,
    params: ParamsView,
    a: LineAction,
) -> bool {
    &&& a is Spawn <==> method == "spawn"@ && params.code is Some
    &&& a is Spawn ==> opt_json(a->id) == id && a->code@ == params.code->0
    &&& a is Answer ==> {
        &&& a->reply is Some <==> id is Some
        &&& a->close <==> method == "shutdown"@
        &&& id is Some ==> exists|answer: Result<Reply, RpcError>|
            {
                &&& #[trigger] is_answered(w, method, params, Dispatch::Answer(answer))
                &&& a->reply->0@ == response_text(id->0, answer).push('\n')
            }
    }
}

proof fn lemma_acted_on(
    w: WorldView,
    id: Option<Seq<char>>,
    method: Seq<char>,
    params: ParamsView,
    a: LineAction,
)
    requires
        w.wf(),
        is_request_action(a, w, id, method, params),
    ensures
        is_acted_on(w, id, method, params, a),
        is_served(w, dispatched(w, method, params), method, params),
{
    acting_on_requests(a, w, id, method, params);
    match a {
        LineAction::Answer { reply, .. } => {
            let answer = choose|answer: Result<Reply, RpcError>|
                {
                    &&& #[trigger] is_dispatch(Dispatch::Answer(answer), w, method, params)
                    &&& id is Some ==> reply->0@ == response_text(id->0, answer).push('\n')
                };
            lemma_dispatch(w, method, params, Dispatch::Answer(answer));
            assert(is_answered(w, method, params, Dispatch::Answer(answer)));
        },
        LineAction::Spawn { id: _, name, code } => {
            lemma_dispatch(w, method, params, Dispatch::Spawn { name, code });
        },
    }
}

/// A request is carried out and answered.
pub proof fn handling_requests(request: Request, a: LineAction)
    ensures
        forall|world: &mut World, shutdown: &mut bool| #[trigger]
            call_ensures(handle_request, (request, world, shutdown), a) && world.wf() ==> {
                let (method, params) = (request.method@, request.params@);
                &&& is_served(world@, final(world)@, method, params)
                &&& is_acted_on(world@, opt_json(request.id), method, params, a)
                &&& *final(shutdown) <==> *shutdown || method == "shutdown"@
            },
{
    assert forall|world: &mut World, shutdown: &mut bool| #[trigger]
        call_ensures(handle_request, (request, world, shutdown), a) && world.wf() implies {
        let (method, params) = (request.method@, request.params@);
        &&& is_served(world@, final(world)@, method, params)
        &&& is_acted_on(world@, opt_json(request.id), method, params, a)
        &&& *final(shutdown) <==> *shutdown || method == "shutdown"@
    } by {
        lemma_acted_on(world@, opt_json(request.id), request.method@, request.params@, a);
    }
}

/// Whether `a` refuses a line that is no JSON text: by an error with the message
/// of the parser and without an id. The connection goes on.
pub open spec fn is_refused(message: Seq<char>, a: LineAction) -> bool {
    &&& a is Answer && !a->close && a->reply is Some
    &&& exists|e: RpcError|
        {
            &&& e.code == -32700
            &&& e.message@ == "parse error: "@ + message
            &&& a->reply->0@ == #[trigger] response_text("null"@, Err(e)).push('\n')
        }
}

proof fn lemma_refused(message: Seq<char>, a: LineAction)
    requires
        a matches LineAction::Answer { reply, close } && !close && exists|e: RpcError|
            is_parse_error(e, message) && #[trigger] is_response(reply, Some("null"@), Err(e)),
    ensures
        is_refused(message, a),
{
    let e = choose|e: RpcError|
        is_parse_error(e, message) && #[trigger] is_response(a->reply, Some("null"@), Err(e));
    parse_errors(e, message);
    assert(a->reply->0@ == response_text("null"@, Err(e)).push('\n'));
}

/// A line that holds a request has it carried out and answered. One that is no
/// JSON text is refused and changes nothing.
pub proof fn handling_lines(line: &str, a: LineAction)
    ensures
        forall|world: &mut World, shutdown: &mut bool| #[trigger]
            call_ensures(handle_line, (line, world, shutdown), a)
                && world.wf() ==> match line_content(line@) {
                Ok(text) => {
                    let (method, params) = (method_of(text), params_of(text));
                    &&& is_served(world@, final(world)@, method, params)
                    &&& is_acted_on(world@, json_member(text, "id"@), method, params, a)
                    &&& *final(shutdown) <==> *shutdown || method == "shutdown"@
                },
                Err(message) => {
                    &&& final(world)@ == world@
                    &&& *final(shutdown) == *shutdown
                    &&& is_refused(message, a)
                },
            },
{
    assert forall|world: &mut World, shutdown: &mut bool| #[trigger]
        call_ensures(handle_line, (line, world, shutdown), a)
            && world.wf() implies match line_content(line@) {
        Ok(text) => {
            let (method, params) = (method_of(text), params_of(text));
            &&& is_served(world@, final(world)@, method, params)
            &&& is_acted_on(world@, json_member(text, "id"@), method, params, a)
            &&& *final(shutdown) <==> *shutdown || method == "shutdown"@
        },
        Err(message) => {
            &&& final(world)@ == world@
            &&& *final(shutdown) == *shutdown
            &&& is_refused(message, a)
        },
    } by {
        match line_content(line@) {
            Ok(text) => lemma_acted_on(
                world@,
                json_member(text, "id"@),
                method_of(text),
                params_of(text),
                a,
            ),
            Err(message) => lemma_refused(message, a),
        }
    }
}

/// A request to spawn is answered, if it has an id, by the pid of the new
/// process, or by an error that says why there is none.
pub proof fn answering_spawns(id: Option<Value>, spawned: Result<Pid, String>, r: Option<String>)
    requires
        call_ensures(spawn_answer, (id, spawned), r),
    ensures
        r is Some <==> id is Some,
        id is Some && spawned is Ok ==> r->0@ == response_text(
            json_text(id->0),
            Ok(Reply::Spawned(spawned->Ok_0)),
        ).push('\n'),
        id is Some && spawned is Err ==> exists|e: RpcError|
            {
                &&& e.code == -32000
                &&& e.message@ == spawned->Err_0@
                &&& r->0@ == #[trigger] response_text(json_text(id->0), Err(e)).push('\n')
            },
{
    let answer = choose|answer: Result<Reply, RpcError>|
        is_spawn_answer(answer, spawned) && #[trigger] is_response(r, opt_json(id), answer);
    spawn_answers(answer, spawned);
    if answer is Err && id is Some {
        assert(r->0@ == response_text(json_text(id->0), Err(answer->Err_0)).push('\n'));
    }
}

/// A status has the name that it is known by, an end is an end, and a sandbox
/// keeps what it has and is not asked to give up.
pub proof fn reading_records(
    status: Status,
    name: &'static str,
    ended: bool,
    s: Sandbox,
    request: Option<bool>,
    narrowed: Sandbox,
)
    ensures
        call_ensures(Status::as_str, (status,), name) ==> name@ == match status {
            Status::Running => "running"@,
            Status::Waiting => "waiting"@,
            Status::Yielding => "yielding"@,
            Status::Sleeping => "sleeping"@,
            Status::Done => "done"@,
            Status::Failed => "failed"@,
            Status::Killed => "killed"@,
        },
        call_ensures(Status::is_terminal, (status,), ended) ==> (ended <==> status == Status::Done
            || status == Status::Failed || status == Status::Killed),
        call_ensures(Sandbox::narrow, (s, request), narrowed) ==> (narrowed.can_spawn_and_kill
            <==> s.can_spawn_and_kill && request != Some(false)),
{
}

/// What a script threw is reported as it was rendered, and as an unknown error
/// if it was nothing or could not be rendered. Values are printed as they are,
/// after the pid of their process.
pub proof fn wording(
    is_nullish: bool,
    rendered: Option<String>,
    report: String,
    v: &Printable,
    printed: String,
    pid: Pid,
    args: &Vec<Printable>,
    line: String,
)
    ensures
        call_ensures(error_report, (is_nullish, rendered), report) ==> {
            &&& is_nullish || rendered is None ==> report@ == "unknown error"@
            &&& !is_nullish && rendered is Some ==> report@ == rendered->0@
        },
        call_ensures(render, (v,), printed) ==> match *v {
            Printable::Text(s) => printed@ == s@,
            Printable::Json(Some(json)) => printed@ == json@,
            _ => printed@ == "undefined"@,
        },
        call_ensures(console_line, (pid, args), line) ==> exists|texts: Seq<Seq<char>>|
            {
                &&& texts.len() == args@.len()
                &&& forall|i: int|
                    0 <= i < texts.len() ==> #[trigger] texts[i] == spec_render(args@[i])
                &&& line@ == seq!['[', 'p', 'i', 'd', ' '] + decimal(pid as nat) + seq![
                    ']',
                    ' ',
                ] + #[trigger] joined(texts)
            },
{
    printing(*v);
    if call_ensures(console_line, (pid, args), line) {
        let texts = args@.map_values(|p: Printable| spec_render(p));
        lines(pid, joined(texts));
        assert(line@ == seq!['[', 'p', 'i', 'd', ' '] + decimal(pid as nat) + seq![']', ' ']
            + joined(texts));
    }
}

} // verus!
