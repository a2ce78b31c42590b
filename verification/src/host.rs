//! What scripts can ask of the runtime: suspending themselves, spawning and
//! killing, and narrowing sandboxes.
//!
//! Times are nanoseconds on a clock that starts with the runtime.

use vstd::prelude::*;

use crate::model::{lemma_with_wf, spec_deadline, WorldView, NANOS_PER_MILLI};
use crate::process::{ErrorClass, JsError, Pid, ProcView, Sandbox, Status};
use crate::scheduler::{create_process, is_process_alive, kill_process};
use crate::world::World;

verus! {

/// The moment `ms` milliseconds after `now`.
fn deadline_after(now: u64, ms: u64) -> (r: u128)
    ensures
        r == now + ms * NANOS_PER_MILLI,
        r == spec_deadline(now, ms),
{
    (now as u128) + (ms as u128) * NANOS_PER_MILLI
}

/// What `recv()` does.
pub enum Recv {
    /// It resolves at once with this JSON text.
    Message(String),
    /// The process waits.
    Wait,
}

/// Whether `r` is the answer to a `recv` of a process with the record `p`.
pub open spec fn is_recv_answer(r: Result<Recv, JsError>, p: ProcView) -> bool {
    if p.sleep_pending {
        r matches Err(e) && e.is(
            ErrorClass::TypeError,
            "cannot call recv() while a sleep() is pending"@,
        )
    } else if p.inbox.len() > 0 {
        r matches Ok(Recv::Message(json)) && json@ == p.inbox[0]
    } else {
        r matches Ok(Recv::Wait)
    }
}

/// `recv(timeoutMs)`: takes the oldest message, or suspends the process until
/// one arrives or the time is over. Without a timeout it waits for as long as
/// it takes.
pub fn recv(world: &mut World, pid: Pid, timeout_ms: Option<u64>, now: u64) -> (r: Result<
    Recv,
    JsError,
>)
    requires
        old(world).wf(),
        old(world)@.executing(pid),
    ensures
        final(world).wf(),
        is_recv_answer(r, old(world)@.processes[pid]),
        final(world)@ == old(world)@.recv_called(pid, timeout_ms, now),
{
    let mut p = world.take(pid);
    let ghost p0 = p@;
    if p.sleep_pending {
        world.put(p);
        assert(world@ =~= old(world)@);
        return Err(JsError::type_error("cannot call recv() while a sleep() is pending"));
    }
    match p.pop_message() {
        Some(json) => {
            world.put(p);
            proof {
                let p1 = ProcView { inbox: p0.inbox.drop_first(), ..p0 };
                lemma_with_wf(old(world)@, pid, p1);
                assert(world@ =~= old(world)@.with(pid, p1));
            }
            Ok(Recv::Message(json))
        },
        None => {
            p.recv_pending = true;
            p.deadline = match timeout_ms {
                Some(ms) => Some(deadline_after(now, ms)),
                None => None,
            };
            p.set_status_unless_killed(Status::Waiting);
            let ghost p1 = p@;
            world.put(p);
            proof {
                lemma_with_wf(old(world)@, pid, p1);
                assert(world@ =~= old(world)@.with(pid, p1));
            }
            Ok(Recv::Wait)
        },
    }
}

/// `sleep(ms)`: suspends the process for `ms` milliseconds. The mailbox is not
/// touched.
pub fn sleep(world: &mut World, pid: Pid, ms: u64, now: u64) -> (r: Result<(), JsError>)
    requires
        old(world).wf(),
        old(world)@.executing(pid),
    ensures
        final(world).wf(),
        final(world)@ == old(world)@.sleep_called(pid, ms, now),
        if old(world)@.processes[pid].recv_pending {
            r matches Err(e) && e.is(
                ErrorClass::TypeError,
                "cannot call sleep() while a recv() is pending"@,
            )
        } else {
            r is Ok
        },
{
    let mut p = world.take(pid);
    if p.recv_pending {
        world.put(p);
        assert(world@ =~= old(world)@);
        return Err(JsError::type_error("cannot call sleep() while a recv() is pending"));
    }
    p.sleep_pending = true;
    p.deadline = Some(deadline_after(now, ms));
    p.set_status_unless_killed(Status::Sleeping);
    let ghost p1 = p@;
    world.put(p);
    proof {
        lemma_with_wf(old(world)@, pid, p1);
        assert(world@ =~= old(world)@.with(pid, p1));
    }
    Ok(())
}

/// `yieldNow()`: gives up the rest of the slice.
pub fn yield_now(world: &mut World, pid: Pid)
    requires
        old(world).wf(),
        old(world)@.executing(pid),
    ensures
        final(world).wf(),
        final(world)@ == old(world)@.marked(pid, Status::Yielding),
{
    let mut p = world.take(pid);
    p.set_status_unless_killed(Status::Yielding);
    let ghost p1 = p@;
    world.put(p);
    proof {
        lemma_with_wf(old(world)@, pid, p1);
        assert(world@ =~= old(world)@.with(pid, p1));
    }
}

/// `selfSandbox()`: the sandbox of the caller.
pub fn self_sandbox(world: &World, caller: Pid) -> (r: Sandbox)
    requires
        world.wf(),
        world@.alive(caller),
    ensures
        r == world@.processes[caller].sandbox,
{
    world.record(caller).unwrap().sandbox
}

/// Whether the caller may spawn. If so, returns the sandbox that its child
/// starts from.
pub fn spawn_permit(world: &World, caller: Pid) -> (r: Result<Sandbox, JsError>)
    requires
        world.wf(),
        world@.alive(caller),
    ensures
        ({
            let sandbox = world@.processes[caller].sandbox;
            if sandbox.can_spawn_and_kill {
                r == Ok::<Sandbox, JsError>(sandbox)
            } else {
                r matches Err(e) && e.is(
                    ErrorClass::PermissionError,
                    "spawn is not permitted in this sandbox"@,
                )
            }
        }),
{
    let sandbox = self_sandbox(world, caller);
    if sandbox.can_spawn_and_kill {
        Ok(sandbox)
    } else {
        Err(JsError::permission("spawn is not permitted in this sandbox"))
    }
}

/// Registers the process that a script spawns. Its sandbox is that of its
/// parent, narrowed by what the call to `spawn` asked for.
pub fn create_child(world: &mut World, parent: Sandbox, request: Option<bool>) -> (pid: Pid)
    requires
        old(world).wf(),
        old(world)@.next_pid < u64::MAX,
    ensures
        final(world).wf(),
        pid == old(world)@.next_pid,
        final(world)@ == old(world)@.created("<spawned>"@, parent.spec_narrow(request)),
{
    create_process(world, "<spawned>", parent.narrow(request))
}

/// What `spawn` gives its caller: the pid of the child, or a `TypeError` that
/// says why there is none.
pub fn spawn_outcome(spawned: Result<Pid, String>) -> (r: Result<Pid, JsError>)
    ensures
        match spawned {
            Ok(pid) => r == Ok::<Pid, JsError>(pid),
            Err(msg) => r matches Err(e) && e.is(ErrorClass::TypeError, msg@),
        },
{
    match spawned {
        Ok(pid) => Ok(pid),
        Err(msg) => Err(JsError::type_error(msg.as_str())),
    }
}

/// Whether `r` is the given answer: the same value, or an error of the given
/// class with the given message.
pub open spec fn answers<T>(
    r: Result<T, JsError>,
    expected: Result<T, (ErrorClass, Seq<char>)>,
) -> bool {
    match expected {
        Ok(v) => r == Ok::<T, JsError>(v),
        Err((class, message)) => r matches Err(e) && e.is(class, message),
    }
}

/// The answer to a request of `caller` to kill `pid`.
pub open spec fn kill_answer(w: WorldView, caller: Pid, pid: Pid) -> Result<
    bool,
    (ErrorClass, Seq<char>),
> {
    if w.processes[caller].sandbox.can_spawn_and_kill || pid == caller {
        Ok(w.alive(pid))
    } else {
        Err(
            (
                ErrorClass::PermissionError,
                "killProcess on another process is not permitted in this sandbox"@,
            ),
        )
    }
}

/// `killProcess(pid)`: a process may always kill itself, and others only if
/// its sandbox says so. Permission is checked before anything is told about
/// the target.
pub fn kill_by(world: &mut World, caller: Pid, pid: Pid) -> (r: Result<bool, JsError>)
    requires
        old(world).wf(),
        old(world)@.alive(caller),
    ensures
        final(world).wf(),
        answers(r, kill_answer(old(world)@, caller, pid)),
        final(world)@ == if r is Ok {
            old(world)@.killed(pid)
        } else {
            old(world)@
        },
{
    if !self_sandbox(world, caller).can_spawn_and_kill && pid != caller {
        return Err(
            JsError::permission(
                "killProcess on another process is not permitted in this sandbox",
            ),
        );
    }
    Ok(kill_process(world, pid))
}

fn narrow_sandbox(world: &mut World, pid: Pid, request: Option<bool>) -> (r: Sandbox)
    requires
        old(world).wf(),
        old(world)@.alive(pid),
    ensures
        final(world).wf(),
        r == old(world)@.processes[pid].sandbox.spec_narrow(request),
        final(world)@ == old(world)@.narrowed(pid, request),
{
    let mut p = world.take(pid);
    let ghost p0 = p@;
    let r = p.sandbox.narrow(request);
    p.sandbox = r;
    let ghost p1 = p@;
    world.put(p);
    proof {
        assert(p1 =~= ProcView { sandbox: p0.sandbox.spec_narrow(request), ..p0 });
        lemma_with_wf(old(world)@, pid, p1);
        assert(world@ =~= old(world)@.with(pid, p1));
    }
    r
}

/// Whose sandbox a request of `caller` is about.
pub open spec fn restrict_target(caller: Pid, target: Option<Pid>) -> Pid {
    match target {
        Some(pid) => pid,
        None => caller,
    }
}

/// The answer to a request of `caller` to narrow the sandbox of `t`.
pub open spec fn restrict_answer(w: WorldView, caller: Pid, request: Option<bool>, t: Pid) -> Result<
    Sandbox,
    (ErrorClass, Seq<char>),
> {
    if t == caller {
        Ok(w.processes[caller].sandbox.spec_narrow(request))
    } else if request != Some(false) {
        Err(
            (
                ErrorClass::TypeError,
                "restrictSandbox on another process must set canSpawnAndKill to false"@,
            ),
        )
    } else if !w.processes[caller].sandbox.can_spawn_and_kill {
        Err((ErrorClass::PermissionError, "not permitted to restrict other processes"@))
    } else if !w.alive(t) {
        Err((ErrorClass::TypeError, "unknown pid"@))
    } else {
        Ok(w.processes[t].sandbox.spec_narrow(request))
    }
}

/// `restrictSandbox(policy, {pid})`: narrows a sandbox and returns what is left
/// of it. The caller may always narrow itself, or just look. Another process
/// can only be narrowed, and only by a caller that holds what it takes away;
/// that is checked before anything is told about the target.
pub fn restrict_sandbox(
    world: &mut World,
    caller: Pid,
    request: Option<bool>,
    target: Option<Pid>,
) -> (r: Result<Sandbox, JsError>)
    requires
        old(world).wf(),
        old(world)@.alive(caller),
    ensures
        final(world).wf(),
        answers(
            r,
            restrict_answer(old(world)@, caller, request, restrict_target(caller, target)),
        ),
        final(world)@ == if r is Ok {
            old(world)@.narrowed(restrict_target(caller, target), request)
        } else {
            old(world)@
        },
{
    let t: Pid = match target {
        Some(pid) => pid,
        None => caller,
    };
    if t == caller {
        return Ok(narrow_sandbox(world, caller, request));
    }
    match request {
        Some(false) => {},
        _ => {
            return Err(
                JsError::type_error(
                    "restrictSandbox on another process must set canSpawnAndKill to false",
                ),
            );
        },
    }
    if !self_sandbox(world, caller).can_spawn_and_kill {
        return Err(JsError::permission("not permitted to restrict other processes"));
    }
    if !is_process_alive(world, t) {
        return Err(JsError::type_error("unknown pid"));
    }
    Ok(narrow_sandbox(world, t, request))
}

} // verus!
