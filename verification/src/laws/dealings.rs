//! What processes and clients do to other processes: messages, kills, sandboxes
//! and names, and what is told about whom.

use vstd::prelude::*;

use crate::host::{answers, kill_answer, restrict_answer, restrict_target};
use crate::laws::lifecycle::{becomes, joins_queue, leaves, registration};
use crate::model::{lemma_finished_wf, WorldView};
use crate::process::{
    ErrorClass, JsError, Pid, Place, ProcView, Sandbox, Status, WakeKind,
};
use crate::queue::RunItem;
use crate::scheduler::{is_info, is_listing, is_wake_end, Payload, WakeEnd};
use crate::text::decimal;

verus! {

/// A message for a live process goes to the end of its mailbox, wherever the
/// process is. If it was parked, it joins the run queue. Nothing else changes,
/// and nothing at all if there is no such process.
pub proof fn delivery(w: WorldView, q: Pid, json: Seq<char>)
    ensures
        ({
            let w2 = w.delivered(q, json);
            let p = w.processes[q];
            let inbox = w2.processes[q].inbox;
            &&& !w.processes.contains_key(q) ==> w2 == w
            &&& w.processes.contains_key(q) ==> {
                &&& inbox.len() == p.inbox.len() + 1
                &&& inbox.last() == json
                &&& inbox.drop_last() == p.inbox
                &&& if p.place == Place::Parked {
                    joins_queue(w, w2, q, ProcView { inbox, ..p })
                } else {
                    becomes(w, w2, q, ProcView { inbox, ..p })
                }
            }
        }),
{
    let p = w.processes[q];
    assert(p.inbox.push(json).drop_last() =~= p.inbox);
    assert(w.queue.push(RunItem::Process(q)).drop_last() =~= w.queue);
}

/// What is sent last is received last: two messages to one process stand in its
/// mailbox in the order in which they were sent, behind all that were there.
/// Messages to different processes do not meet.
pub proof fn deliveries_keep_their_order(
    w: WorldView,
    q: Pid,
    r: Pid,
    first: Seq<char>,
    second: Seq<char>,
)
    requires
        w.processes.contains_key(q),
        w.processes.contains_key(r),
    ensures
        ({
            let inbox = w.delivered(q, first).delivered(r, second).processes[q].inbox;
            if q == r {
                inbox == w.processes[q].inbox + seq![first, second]
            } else {
                inbox == w.processes[q].inbox + seq![first]
            }
        }),
{
    delivery(w, q, first);
    delivery(w.delivered(q, first), r, second);
    let inbox = w.delivered(q, first).delivered(r, second).processes[q].inbox;
    if q == r {
        assert(inbox =~= w.processes[q].inbox + seq![first, second]);
    } else {
        assert(inbox =~= w.processes[q].inbox + seq![first]);
    }
}

/// Only a value that has a JSON text travels, and it travels as that text.
pub proof fn payloads(value: Payload)
    ensures
        match value {
            Payload::Undefined | Payload::Function | Payload::Symbol => value.text() is None,
            Payload::Json(None) => value.text() is None,
            Payload::Json(Some(json)) => value.text() == Some(json@),
        },
{
}

/// A kill of a process that is parked or asleep takes it away at once. Any other
/// live process, wherever it is, has the status killed from then on, and nothing
/// else changes. No failure is counted. A kill of a process that does not live
/// changes nothing.
pub proof fn killing(w: WorldView, q: Pid)
    requires
        w.wf(),
    ensures
        ({
            let w2 = w.killed(q);
            let p = w.processes[q];
            &&& !w.processes.contains_key(q) ==> w2 == w
            &&& w.processes.contains_key(q) ==> if p.place == Place::Parked || p.place
                == Place::Sleeping {
                leaves(w, w2, q, 0)
            } else {
                becomes(w, w2, q, ProcView { status: Status::Killed, ..p })
            }
        }),
{
    if w.processes.contains_key(q) {
        assert(w.alive(q));
        let p = w.processes[q];
        if p.place == Place::Parked || p.place == Place::Sleeping {
            lemma_finished_wf(w, q);
        }
    }
}

/// Killing twice is killing once.
pub proof fn killing_is_idempotent(w: WorldView, q: Pid)
    requires
        w.wf(),
    ensures
        w.killed(q).killed(q) == w.killed(q),
{
    let w2 = w.killed(q);
    if w2.alive(q) {
        assert(w2.processes.insert(q, w2.processes[q]) =~= w2.processes);
    }
}

/// A script may kill its own process, and others exactly if its sandbox allows
/// it. If it may, it is told whether the process lived, and the process is
/// killed: it is gone, or has the status killed, wherever it was. If not, it is
/// told so, whether or not there is such a process, and nothing changes.
pub proof fn killing_by_a_script(
    w: WorldView,
    w2: WorldView,
    caller: Pid,
    q: Pid,
    r: Result<bool, JsError>,
)
    requires
        w.wf(),
        w.processes.contains_key(caller),
        answers(r, kill_answer(w, caller, q)),
        w2 == if r is Ok {
            w.killed(q)
        } else {
            w
        },
    ensures
        r is Ok <==> q == caller || w.processes[caller].sandbox.can_spawn_and_kill,
        match r {
            Ok(lived) => {
                &&& lived == w.processes.contains_key(q)
                &&& w2.processes.contains_key(q) ==> w2.processes[q].status == Status::Killed
                &&& w2.failed == w.failed
            },
            Err(e) => {
                &&& e.class == ErrorClass::PermissionError
                &&& e.message@
                    == "killProcess on another process is not permitted in this sandbox"@
                &&& w2 == w
            },
        },
{
    killing(w, q);
}

/// Narrowing a sandbox changes that sandbox and nothing else, wherever its
/// process is: a toggle stays on exactly if it was on and is not asked to be
/// off.
pub proof fn narrowing(w: WorldView, q: Pid, request: Option<bool>)
    requires
        w.processes.contains_key(q),
    ensures
        ({
            let w2 = w.narrowed(q, request);
            let s = w2.processes[q].sandbox;
            &&& becomes(w, w2, q, ProcView { sandbox: s, ..w.processes[q] })
            &&& s.can_spawn_and_kill <==> {
                &&& w.processes[q].sandbox.can_spawn_and_kill
                &&& request != Some(false)
            }
        }),
{
}

/// A request to narrow a sandbox that is granted takes effect: the sandbox that
/// is returned is the one that the process has from then on, wherever it is, and
/// a toggle is on in it exactly if it was on and is not asked to be off. A
/// script may always narrow its own process. Another one it may narrow exactly
/// if it asks for the toggle to be off, holds it itself, and the process lives;
/// otherwise it is told the first of these that does not hold, and nothing
/// changes.
pub proof fn narrowing_by_a_script(
    w: WorldView,
    w2: WorldView,
    caller: Pid,
    request: Option<bool>,
    target: Option<Pid>,
    r: Result<Sandbox, JsError>,
)
    requires
        w.wf(),
        w.processes.contains_key(caller),
        answers(r, restrict_answer(w, caller, request, restrict_target(caller, target))),
        w2 == if r is Ok {
            w.narrowed(restrict_target(caller, target), request)
        } else {
            w
        },
    ensures
        ({
            let t = match target {
                Some(pid) => pid,
                None => caller,
            };
            let privileged = w.processes[caller].sandbox.can_spawn_and_kill;
            &&& r is Ok <==> t == caller || (request == Some(false) && privileged
                && w.processes.contains_key(t))
            &&& match r {
                Ok(s) => {
                    &&& w.processes.contains_key(t)
                    &&& s.can_spawn_and_kill <==> {
                        &&& w.processes[t].sandbox.can_spawn_and_kill
                        &&& request != Some(false)
                    }
                    &&& becomes(w, w2, t, ProcView { sandbox: s, ..w.processes[t] })
                },
                Err(e) => {
                    &&& w2 == w
                    &&& if request != Some(false) {
                        &&& e.class == ErrorClass::TypeError
                        &&& e.message@
                            == "restrictSandbox on another process must set canSpawnAndKill to false"@
                    } else if !privileged {
                        &&& e.class == ErrorClass::PermissionError
                        &&& e.message@ == "not permitted to restrict other processes"@
                    } else {
                        &&& e.class == ErrorClass::TypeError
                        &&& e.message@ == "unknown pid"@
                    }
                },
            }
        }),
{
    let t = restrict_target(caller, target);
    if w.processes.contains_key(t) {
        narrowing(w, t, request);
    }
}

/// A process that was confined by a granted request may neither spawn nor kill
/// others nor narrow them, and is told so whoever asked for the confinement.
pub proof fn confinement_binds(
    w: WorldView,
    caller: Pid,
    target: Option<Pid>,
    r: Result<Sandbox, JsError>,
    other: Pid,
    kill: Result<bool, JsError>,
    narrow: Result<Sandbox, JsError>,
)
    requires
        w.wf(),
        w.processes.contains_key(caller),
        answers(r, restrict_answer(w, caller, Some(false), restrict_target(caller, target))),
        r is Ok,
        other != restrict_target(caller, target),
        ({
            let t = restrict_target(caller, target);
            let w2 = w.narrowed(t, Some(false));
            &&& answers(kill, kill_answer(w2, t, other))
            &&& answers(narrow, restrict_answer(w2, t, Some(false), other))
        }),
    ensures
        ({
            let t = match target {
                Some(pid) => pid,
                None => caller,
            };
            !w.narrowed(t, Some(false)).processes[t].sandbox.can_spawn_and_kill
        }),
        kill is Err && kill->Err_0.class == ErrorClass::PermissionError,
        narrow is Err && narrow->Err_0.class == ErrorClass::PermissionError,
{
    let t = restrict_target(caller, target);
    narrowing_by_a_script(w, w.narrowed(t, Some(false)), caller, Some(false), target, r);
}

/// A child may do what its parent may, unless the parent asks for less. A
/// process that no script spawned may do everything.
pub proof fn inheriting(w: WorldView, name: Seq<char>, parent: Sandbox, request: Option<bool>)
    requires
        w.wf(),
        w.next_pid < u64::MAX,
    ensures
        ({
            let q = w.next_pid as Pid;
            let child = w.created(name, parent.spec_narrow(request)).processes[q].sandbox;
            &&& child.can_spawn_and_kill <==> parent.can_spawn_and_kill && request != Some(false)
            &&& w.created(
                name,
                Sandbox::spec_privileged(),
            ).processes[q].sandbox.can_spawn_and_kill
        }),
        !Sandbox::spec_confined().can_spawn_and_kill,
{
    registration(w, name, parent.spec_narrow(request));
    registration(w, name, Sandbox::spec_privileged());
}

/// In an intersection a toggle is on exactly if it is on in both operands.
pub proof fn intersecting(a: Sandbox, b: Sandbox)
    ensures
        a.spec_intersect(b).can_spawn_and_kill <==> a.can_spawn_and_kill && b.can_spawn_and_kill,
        a.within(b) <==> !a.can_spawn_and_kill || b.can_spawn_and_kill,
{
}

/// A live process has the new name from then on, wherever it is, and nothing
/// else changes.
pub proof fn renaming(w: WorldView, q: Pid, name: Seq<char>)
    ensures
        w.processes.contains_key(q) ==> becomes(
            w,
            w.renamed(q, name),
            q,
            ProcView { name, ..w.processes[q] },
        ),
        !w.processes.contains_key(q) ==> w.renamed(q, name) == w,
{
}

/// What is told about a process is that it lives, and the name and the status
/// that it has.
pub proof fn telling(w: WorldView, info: (Pid, String, &'static str))
    ensures
        is_info(info, w) <==> {
            let p = w.processes[info.0];
            &&& w.processes.contains_key(info.0)
            &&& info.1@ == p.name
            &&& info.2@ == match p.status {
                Status::Running => "running"@,
                Status::Waiting => "waiting"@,
                Status::Yielding => "yielding"@,
                Status::Sleeping => "sleeping"@,
                Status::Done => "done"@,
                Status::Failed => "failed"@,
                Status::Killed => "killed"@,
            }
        },
{
}

/// A listing tells about every live process once and about no other, in
/// increasing order of pid, and says of each what is told about it alone.
pub proof fn listing(w: WorldView, l: Seq<(Pid, String, &'static str)>)
    requires
        is_listing(l, w),
    ensures
        l.len() == w.processes.dom().len(),
        forall|q: Pid|
            w.processes.contains_key(q) ==> exists|i: int|
                0 <= i < l.len() && (#[trigger] l[i]).0 == q,
        forall|i: int|
            0 <= i < l.len() ==> w.processes.contains_key((#[trigger] l[i]).0) && is_info(l[i], w),
        forall|i: int, j: int|
            0 <= i < j < l.len() ==> (#[trigger] l[i]).0 < (#[trigger] l[j]).0,
{
    assert forall|q: Pid| w.processes.contains_key(q) implies exists|i: int|
        0 <= i < l.len() && (#[trigger] l[i]).0 == q by {
        assert(w.alive(q));
    }
}

/// A process that could not be woken is reported with its pid and the wake that
/// failed, unless it was killed: then it dies silently. One that could be woken
/// is not reported.
pub proof fn reporting_failed_wakes(
    w: WorldView,
    q: Pid,
    kind: WakeKind,
    ok: bool,
    r: WakeEnd,
)
    requires
        is_wake_end(r, w, q, kind, ok),
    ensures
        ok <==> r is Resumed,
        !ok ==> {
            &&& r is Dead
            &&& r->Dead_0 is None <==> w.processes[q].status == Status::Killed
            &&& r->Dead_0 is Some ==> r->Dead_0->0@ == "[pid "@ + decimal(q as nat) + "] "@ + (
            "error: "@ + match kind {
                WakeKind::Message => "failed to deliver message"@,
                WakeKind::Timeout => "failed to deliver timeout"@,
                WakeKind::Sleep => "failed to resume after sleep"@,
                WakeKind::Yield => "failed to resume after yield"@,
            })
        },
{
}

/// Done, failed and killed are the ends of a process. Only a kill cannot be
/// overwritten.
pub proof fn statuses(status: Status, next: Status)
    ensures
        status.spec_is_terminal() <==> status == Status::Done || status == Status::Failed || status
            == Status::Killed,
        status != Status::Killed ==> status.unless_killed(next) == next,
        status == Status::Killed ==> status.unless_killed(next) == Status::Killed,
{
}

} // verus!
