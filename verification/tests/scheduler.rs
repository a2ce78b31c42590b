//! Processes without scripts: what their engines would do is said by hand.

use otter_rt::host::{self, Recv};
use otter_rt::process::{ErrorClass, Pid, Place, Sandbox, WakeKind};
use otter_rt::queue::{RunItem, RunQueue};
use otter_rt::runtime;
use otter_rt::scheduler::{
    complete_park, complete_wake, create_process, create_root, deliver_json_string, end_slice,
    entry_done, entry_failed, fire_timers, is_process_alive, job_failed, kill_process,
    list_processes, owed_wake, park, place_of, process_count, process_info, send_message,
    set_process_name, spawn_process, stop_workers, take_job, worker_step, Payload, Settled,
    SliceStart, WakeEnd, WorkerStep,
};
use otter_rt::world::World;

const MS: u64 = 1_000_000;

/// A process whose entry script has returned without suspending.
fn runnable(w: &mut World) -> Pid {
    let pid = create_root(w, "p.js");
    assert!(matches!(spawn_process(w, pid, Ok(())), Ok(Settled::Queued)));
    pid
}

/// A process that waits for a message.
fn parked(w: &mut World, timeout_ms: Option<u64>, now: u64) -> Pid {
    let pid = create_root(w, "parked.js");
    assert!(matches!(host::recv(w, pid, timeout_ms, now), Ok(Recv::Wait)));
    assert!(matches!(spawn_process(w, pid, Ok(())), Ok(Settled::Parked)));
    pid
}

/// A process that sleeps.
fn asleep(w: &mut World, ms: u64, now: u64) -> Pid {
    let pid = create_root(w, "asleep.js");
    assert!(host::sleep(w, pid, ms, now).is_ok());
    assert!(matches!(spawn_process(w, pid, Ok(())), Ok(Settled::Asleep)));
    pid
}

/// The process at the front of the run queue, and how its slice begins.
fn next(w: &mut World) -> (Pid, SliceStart) {
    match worker_step(w) {
        WorkerStep::Slice(pid, start) => (pid, start),
        _ => panic!("nothing to run"),
    }
}

#[test]
fn the_run_queue_is_first_in_first_out() {
    let mut q = RunQueue::new();
    assert_eq!(q.pop(), None);
    q.push(RunItem::Process(2));
    q.push(RunItem::Stop);
    q.push(RunItem::Process(1));
    assert_eq!(q.pop(), Some(RunItem::Process(2)));
    assert_eq!(q.pop(), Some(RunItem::Stop));
    assert_eq!(q.pop(), Some(RunItem::Process(1)));
    assert_eq!(q.pop(), None);
}

#[test]
fn pids_count_up_and_are_not_reused() {
    let mut w = World::new();
    assert_eq!(create_root(&mut w, "a"), 0);
    assert_eq!(create_root(&mut w, "b"), 1);
    assert!(spawn_process(&mut w, 1, Err("SyntaxError".to_string())).is_err());
    assert!(!is_process_alive(&w, 1));
    assert_eq!(create_root(&mut w, "c"), 2);
    assert_eq!(w.next_pid(), 3);
    assert_eq!(process_count(&w), 2);
}

#[test]
fn a_failed_spawn_passes_its_error_on() {
    let mut w = World::new();
    let pid = create_process(&mut w, "bad.js", Sandbox::privileged());
    assert!(is_process_alive(&w, pid));
    match spawn_process(&mut w, pid, Err("SyntaxError: x".to_string())) {
        Err(e) => assert_eq!(e, "SyntaxError: x"),
        Ok(_) => panic!("spawned"),
    }
    assert_eq!(process_count(&w), 0);
    assert_eq!(w.active(), 0);
    assert_eq!(w.failed(), 0);
}

#[test]
fn a_message_wakes_its_parked_receiver() {
    let mut w = World::new();
    let pid = parked(&mut w, None, 0);
    assert_eq!(place_of(&w, pid), Some(Place::Parked));
    deliver_json_string(&mut w, pid, "\"hi\"".to_string());
    deliver_json_string(&mut w, pid, "2".to_string());
    assert_eq!(place_of(&w, pid), Some(Place::Queued));
    let (p, start) = next(&mut w);
    assert_eq!(p, pid);
    match start {
        SliceStart::Message(json) => assert_eq!(json, "\"hi\""),
        _ => panic!("no message"),
    }
    assert!(matches!(complete_wake(&mut w, pid, WakeKind::Message, true), WakeEnd::Resumed));
    assert!(take_job(&mut w, pid));
    // The second message is still there.
    match host::recv(&mut w, pid, None, 5) {
        Ok(Recv::Message(json)) => assert_eq!(json, "2"),
        _ => panic!("no message"),
    }
}

#[test]
fn a_message_that_is_there_keeps_a_process_from_being_parked() {
    let mut w = World::new();
    let pid = create_root(&mut w, "p.js");
    assert!(matches!(host::recv(&mut w, pid, None, 0), Ok(Recv::Wait)));
    deliver_json_string(&mut w, pid, "7".to_string());
    match spawn_process(&mut w, pid, Ok(())) {
        Ok(Settled::Message(json)) => assert_eq!(json, "7"),
        _ => panic!("no message"),
    }
    assert!(matches!(complete_park(&mut w, pid, true), WakeEnd::Resumed));
    assert_eq!(place_of(&w, pid), Some(Place::Queued));
    assert!(matches!(next(&mut w), (0, SliceStart::Run)));
}

#[test]
fn a_message_that_cannot_be_delivered_ends_its_receiver() {
    let mut w = World::new();
    let pid = parked(&mut w, None, 0);
    deliver_json_string(&mut w, pid, "1".to_string());
    let _ = next(&mut w);
    match complete_wake(&mut w, pid, WakeKind::Message, false) {
        WakeEnd::Dead(Some(line)) => assert_eq!(line, "[pid 0] error: failed to deliver message"),
        _ => panic!("alive"),
    }
    assert!(!is_process_alive(&w, pid));
    assert_eq!(w.failed(), 1);
    assert_eq!(w.active(), 0);
}

/// A process that a worker holds and whose script is owed the given wake.
fn owed(w: &mut World, kind: WakeKind) -> Pid {
    let pid = match kind {
        WakeKind::Message => {
            let pid = parked(w, None, 0);
            deliver_json_string(w, pid, "1".to_string());
            pid
        }
        WakeKind::Timeout => {
            let pid = parked(w, Some(1), 0);
            assert_eq!(fire_timers(w, MS), vec![pid]);
            pid
        }
        WakeKind::Sleep => {
            let pid = asleep(w, 1, 0);
            assert_eq!(fire_timers(w, MS), vec![pid]);
            pid
        }
        WakeKind::Yield => {
            let pid = runnable(w);
            let _ = next(w);
            host::yield_now(w, pid);
            assert!(matches!(end_slice(w, pid, true), Settled::Queued));
            pid
        }
    };
    assert_eq!(next(w).0, pid);
    pid
}

const KINDS: [WakeKind; 4] =
    [WakeKind::Message, WakeKind::Timeout, WakeKind::Sleep, WakeKind::Yield];

#[test]
fn each_wake_that_fails_says_so() {
    let texts = [
        "[pid 0] error: failed to deliver message",
        "[pid 0] error: failed to deliver timeout",
        "[pid 0] error: failed to resume after sleep",
        "[pid 0] error: failed to resume after yield",
    ];
    for (kind, text) in KINDS.into_iter().zip(texts) {
        let mut w = World::new();
        let pid = owed(&mut w, kind);
        match complete_wake(&mut w, pid, kind, false) {
            WakeEnd::Dead(Some(line)) => assert_eq!(line, text),
            _ => panic!("alive"),
        }
    }
}

#[test]
fn a_slice_first_pays_what_it_owes() {
    for kind in KINDS {
        let mut w = World::new();
        let pid = owed(&mut w, kind);
        assert_eq!(owed_wake(&w, pid), Some(kind));
        assert!(!take_job(&mut w, pid), "the script has not been woken yet");
        assert!(matches!(complete_wake(&mut w, pid, kind, true), WakeEnd::Resumed));
        assert_eq!(owed_wake(&w, pid), None);
        assert!(take_job(&mut w, pid));
        assert!(matches!(end_slice(&mut w, pid, true), Settled::Queued));
    }
    let mut w = World::new();
    let pid = runnable(&mut w);
    assert!(matches!(next(&mut w), (0, SliceStart::Run)));
    assert_eq!(owed_wake(&w, pid), None);
    assert_eq!(owed_wake(&w, 7), None);
}

#[test]
fn messages_to_the_dead_are_dropped() {
    let mut w = World::new();
    deliver_json_string(&mut w, 9, "1".to_string());
    assert!(send_message(&mut w, 9, Payload::Json(Some("1".to_string()))).is_ok());
    assert!(!kill_process(&mut w, 9));
    assert_eq!(process_count(&w), 0);
    assert!(matches!(worker_step(&mut w), WorkerStep::Idle));
}

#[test]
fn only_json_is_sent() {
    let mut w = World::new();
    let pid = parked(&mut w, None, 0);
    for value in [
        Payload::Undefined,
        Payload::Function,
        Payload::Symbol,
        Payload::Json(None),
    ] {
        match send_message(&mut w, pid, value) {
            Err(e) => {
                assert_eq!(e.class, ErrorClass::TypeError);
                assert_eq!(e.message, "value is not message-serializable");
            }
            Ok(()) => panic!("sent"),
        }
    }
    assert_eq!(place_of(&w, pid), Some(Place::Parked));
    assert!(send_message(&mut w, pid, Payload::Json(Some("null".to_string()))).is_ok());
    assert_eq!(place_of(&w, pid), Some(Place::Queued));
}

#[test]
fn sleep_is_neither_early_nor_cut_short() {
    let mut w = World::new();
    let pid = asleep(&mut w, 60, 5 * MS);
    deliver_json_string(&mut w, pid, "\"wake\"".to_string());
    assert_eq!(place_of(&w, pid), Some(Place::Sleeping));
    assert!(fire_timers(&mut w, 65 * MS - 1).is_empty());
    assert!(matches!(worker_step(&mut w), WorkerStep::Idle));
    assert_eq!(fire_timers(&mut w, 65 * MS), vec![pid]);
    assert!(matches!(next(&mut w), (0, SliceStart::Sleep)));
    assert!(matches!(complete_wake(&mut w, pid, WakeKind::Sleep, true), WakeEnd::Resumed));
    // The message stayed in the mailbox.
    match host::recv(&mut w, pid, Some(1), 70 * MS) {
        Ok(Recv::Message(json)) => assert_eq!(json, "\"wake\""),
        _ => panic!("no message"),
    }
}

#[test]
fn the_longest_sleep_does_not_overflow() {
    let mut w = World::new();
    let pid = asleep(&mut w, u64::MAX, u64::MAX);
    assert!(fire_timers(&mut w, u64::MAX).is_empty());
    assert_eq!(place_of(&w, pid), Some(Place::Sleeping));
}

#[test]
fn a_recv_times_out() {
    let mut w = World::new();
    let pid = parked(&mut w, Some(40), 0);
    assert!(fire_timers(&mut w, 40 * MS - 1).is_empty());
    assert_eq!(fire_timers(&mut w, 40 * MS), vec![pid]);
    // A message that races the timeout does not undo it.
    deliver_json_string(&mut w, pid, "\"late\"".to_string());
    assert!(matches!(next(&mut w), (0, SliceStart::Timeout)));
    assert!(matches!(complete_wake(&mut w, pid, WakeKind::Timeout, true), WakeEnd::Resumed));
    match host::recv(&mut w, pid, None, 41 * MS) {
        Ok(Recv::Message(json)) => assert_eq!(json, "\"late\""),
        _ => panic!("the message was lost"),
    }
}

#[test]
fn a_message_in_time_is_no_timeout() {
    let mut w = World::new();
    let pid = parked(&mut w, Some(40), 0);
    deliver_json_string(&mut w, pid, "1".to_string());
    assert!(fire_timers(&mut w, 1000 * MS).is_empty());
    assert!(matches!(next(&mut w), (0, SliceStart::Message(_))));
    assert!(matches!(complete_wake(&mut w, pid, WakeKind::Message, true), WakeEnd::Resumed));
}

#[test]
fn a_plain_recv_has_no_deadline() {
    let mut w = World::new();
    let pid = asleep(&mut w, 20, 0);
    assert_eq!(fire_timers(&mut w, 20 * MS), vec![pid]);
    let _ = next(&mut w);
    let _ = complete_wake(&mut w, pid, WakeKind::Sleep, true);
    assert!(matches!(host::recv(&mut w, pid, None, 20 * MS), Ok(Recv::Wait)));
    assert!(matches!(end_slice(&mut w, pid, false), Settled::Parked));
    assert!(fire_timers(&mut w, u64::MAX).is_empty());
}

#[test]
fn timers_fire_in_the_order_of_their_deadlines() {
    let mut w = World::new();
    let a = asleep(&mut w, 30, 0);
    let b = parked(&mut w, Some(10), 0);
    let c = asleep(&mut w, 30, 0);
    let d = asleep(&mut w, 50, 0);
    assert_eq!(fire_timers(&mut w, 40 * MS), vec![b, a, c]);
    assert!(fire_timers(&mut w, 40 * MS).is_empty());
    assert!(matches!(next(&mut w), (1, SliceStart::Timeout)));
    assert!(matches!(next(&mut w), (0, SliceStart::Sleep)));
    assert!(matches!(next(&mut w), (2, SliceStart::Sleep)));
    assert_eq!(place_of(&w, d), Some(Place::Sleeping));
}

#[test]
fn suspensions_do_not_overlap() {
    let mut w = World::new();
    let pid = create_root(&mut w, "p.js");
    assert!(matches!(host::recv(&mut w, pid, None, 0), Ok(Recv::Wait)));
    match host::sleep(&mut w, pid, 1, 0) {
        Err(e) => {
            assert_eq!(e.class, ErrorClass::TypeError);
            assert_eq!(e.message, "cannot call sleep() while a recv() is pending");
        }
        Ok(()) => panic!("slept"),
    }
    let other = create_root(&mut w, "q.js");
    assert!(host::sleep(&mut w, other, 1, 0).is_ok());
    match host::recv(&mut w, other, None, 0) {
        Err(e) => {
            assert_eq!(e.class, ErrorClass::TypeError);
            assert_eq!(e.message, "cannot call recv() while a sleep() is pending");
        }
        Ok(_) => panic!("received"),
    }
}

#[test]
fn yielding_goes_to_the_back() {
    let mut w = World::new();
    let a = runnable(&mut w);
    let b = runnable(&mut w);
    let c = runnable(&mut w);
    assert_eq!(next(&mut w).0, a);
    host::yield_now(&mut w, a);
    assert!(matches!(end_slice(&mut w, a, true), Settled::Queued));
    assert_eq!(next(&mut w).0, b);
    assert_eq!(next(&mut w).0, c);
    assert!(matches!(next(&mut w), (0, SliceStart::Yield)));
    assert!(matches!(complete_wake(&mut w, a, WakeKind::Yield, true), WakeEnd::Resumed));
}

#[test]
fn slices_end_by_status() {
    let mut w = World::new();
    let a = runnable(&mut w);
    let _ = next(&mut w);
    assert!(matches!(end_slice(&mut w, a, true), Settled::Queued));
    let _ = next(&mut w);
    assert!(matches!(end_slice(&mut w, a, false), Settled::Gone));
    assert!(!is_process_alive(&w, a));

    let b = runnable(&mut w);
    let _ = next(&mut w);
    entry_done(&mut w, b);
    assert!(!take_job(&mut w, b));
    assert!(matches!(end_slice(&mut w, b, true), Settled::Gone));

    let c = runnable(&mut w);
    let _ = next(&mut w);
    assert!(host::sleep(&mut w, c, 5, 0).is_ok());
    assert!(matches!(end_slice(&mut w, c, true), Settled::Asleep));

    assert_eq!(w.failed(), 0);
    assert_eq!(w.active(), 1);
    assert_eq!(process_count(&w), 1);
}

#[test]
fn a_failure_ends_one_process() {
    let mut w = World::new();
    let bad = runnable(&mut w);
    let good = parked(&mut w, None, 0);
    let _ = next(&mut w);
    assert_eq!(
        job_failed(&mut w, bad, "boom"),
        Some("[pid 0] unhandled exception: boom".to_string())
    );
    assert!(!take_job(&mut w, bad));
    assert!(matches!(end_slice(&mut w, bad, true), Settled::Gone));
    assert_eq!(w.failed(), 1);
    assert_eq!(runtime::exit_code(&w), 1);
    assert_eq!(place_of(&w, good), Some(Place::Parked));
    assert_eq!(w.active(), 1);
}

#[test]
fn a_rejected_entry_script_is_reported() {
    let mut w = World::new();
    let pid = runnable(&mut w);
    let _ = next(&mut w);
    assert_eq!(
        entry_failed(&mut w, pid, "Error: boom"),
        Some("[pid 0] error: Error: boom".to_string())
    );
    assert!(matches!(end_slice(&mut w, pid, false), Settled::Gone));
    assert_eq!(w.failed(), 1);
}

#[test]
fn kills_reap_processes_at_rest_at_once() {
    let mut w = World::new();
    let p = parked(&mut w, None, 0);
    let s = asleep(&mut w, 60_000, 0);
    assert!(kill_process(&mut w, p));
    assert!(!is_process_alive(&w, p));
    assert!(kill_process(&mut w, s));
    assert!(!is_process_alive(&w, s));
    assert!(!kill_process(&mut w, s));
    assert!(fire_timers(&mut w, u64::MAX).is_empty());
    assert_eq!((w.active(), w.failed()), (0, 0));
}

#[test]
fn kills_reap_queued_processes_before_their_slice() {
    let mut w = World::new();
    let a = runnable(&mut w);
    let b = runnable(&mut w);
    assert!(kill_process(&mut w, a));
    assert!(is_process_alive(&w, a));
    assert_eq!(process_info(&w, a), Some((a, "p.js".to_string(), "killed")));
    assert!(matches!(next(&mut w), (0, SliceStart::Gone)));
    assert!(!is_process_alive(&w, a));
    assert_eq!(next(&mut w).0, b);
    assert_eq!(w.failed(), 0);
}

#[test]
fn killed_processes_die_silently() {
    let mut w = World::new();
    let pid = runnable(&mut w);
    let _ = next(&mut w);
    assert_eq!(host::kill_by(&mut w, pid, pid).unwrap(), true);
    assert!(!take_job(&mut w, pid));
    assert_eq!(job_failed(&mut w, pid, "boom"), None);
    assert_eq!(entry_failed(&mut w, pid, "boom"), None);
    entry_done(&mut w, pid);
    assert!(matches!(host::recv(&mut w, pid, None, 0), Ok(Recv::Wait)));
    assert_eq!(process_info(&w, pid).unwrap().2, "killed");
    assert!(matches!(end_slice(&mut w, pid, true), Settled::Gone));
    assert_eq!((w.active(), w.failed()), (0, 0));
    assert_eq!(runtime::exit_code(&w), 0);
}

#[test]
fn a_killed_process_that_cannot_be_woken_is_silent() {
    let mut w = World::new();
    let pid = owed(&mut w, WakeKind::Message);
    assert!(kill_process(&mut w, pid));
    assert!(matches!(
        complete_wake(&mut w, pid, WakeKind::Message, false),
        WakeEnd::Dead(None)
    ));
    assert_eq!((w.active(), w.failed()), (0, 0));
}

#[test]
fn a_process_killed_while_it_starts_is_reaped() {
    let mut w = World::new();
    let pid = create_root(&mut w, "p.js");
    assert!(kill_process(&mut w, pid));
    assert!(matches!(spawn_process(&mut w, pid, Ok(())), Ok(Settled::Queued)));
    assert!(matches!(next(&mut w), (0, SliceStart::Gone)));
    assert_eq!((w.active(), w.failed()), (0, 0));
}

#[test]
fn listings_are_sorted_and_complete() {
    let mut w = World::new();
    let a = runnable(&mut w);
    let b = parked(&mut w, None, 0);
    let c = asleep(&mut w, 1, 0);
    let d = runnable(&mut w);
    assert!(kill_process(&mut w, b));
    set_process_name(&mut w, d, "renamed".to_string());
    set_process_name(&mut w, b, "ghost".to_string());
    assert_eq!(
        list_processes(&w),
        vec![
            (a, "p.js".to_string(), "running"),
            (c, "asleep.js".to_string(), "sleeping"),
            (d, "renamed".to_string(), "running"),
        ]
    );
    assert_eq!(process_info(&w, b), None);
    assert_eq!(process_info(&w, d), Some((d, "renamed".to_string(), "running")));
    assert_eq!(process_count(&w), 3);
}

#[test]
fn stopping_reaches_every_worker_after_the_work() {
    let mut w = World::new();
    let a = runnable(&mut w);
    stop_workers(&mut w, 2);
    assert_eq!(next(&mut w).0, a);
    assert!(matches!(worker_step(&mut w), WorkerStep::Stop));
    assert!(matches!(worker_step(&mut w), WorkerStep::Stop));
    assert!(matches!(worker_step(&mut w), WorkerStep::Idle));
}

#[test]
fn children_are_no_wider_than_their_parents() {
    let mut w = World::new();
    let root = create_root(&mut w, "root.js");
    let permit = host::spawn_permit(&w, root).unwrap();
    assert_eq!(permit, Sandbox::privileged());
    let same = host::create_child(&mut w, permit, None);
    let still = host::create_child(&mut w, permit, Some(true));
    let less = host::create_child(&mut w, permit, Some(false));
    assert_eq!(host::self_sandbox(&w, same), Sandbox::privileged());
    assert_eq!(host::self_sandbox(&w, still), Sandbox::privileged());
    assert_eq!(host::self_sandbox(&w, less), Sandbox::confined());
    assert_eq!(process_info(&w, less).unwrap().1, "<spawned>");
    let e = host::spawn_permit(&w, less).unwrap_err();
    assert_eq!(e.class, ErrorClass::PermissionError);
    assert_eq!(e.message, "spawn is not permitted in this sandbox");
    assert_eq!(host::spawn_outcome(Ok(4)).unwrap(), 4);
    let e = host::spawn_outcome(Err("SyntaxError".to_string())).unwrap_err();
    assert_eq!(e.class, ErrorClass::TypeError);
    assert_eq!(e.message, "SyntaxError");
}

#[test]
fn confined_processes_kill_only_themselves() {
    let mut w = World::new();
    let victim = parked(&mut w, None, 0);
    let confined = create_process(&mut w, "c.js", Sandbox::confined());
    for target in [victim, 99999] {
        let e = host::kill_by(&mut w, confined, target).unwrap_err();
        assert_eq!(e.class, ErrorClass::PermissionError);
        assert_eq!(
            e.message,
            "killProcess on another process is not permitted in this sandbox"
        );
    }
    assert!(is_process_alive(&w, victim));
    assert_eq!(host::kill_by(&mut w, confined, confined).unwrap(), true);
    let root = create_root(&mut w, "root.js");
    assert_eq!(host::kill_by(&mut w, root, 99999).unwrap(), false);
    assert_eq!(host::kill_by(&mut w, root, victim).unwrap(), true);
    assert!(!is_process_alive(&w, victim));
}

#[test]
fn sandboxes_are_narrowed_by_those_who_may() {
    let mut w = World::new();
    let root = create_root(&mut w, "root.js");
    let victim = create_root(&mut w, "victim.js");
    let confined = create_process(&mut w, "c.js", Sandbox::confined());

    // Another process: only an actual narrowing, and only with the permission.
    for request in [None, Some(true)] {
        let e = host::restrict_sandbox(&mut w, root, request, Some(victim)).unwrap_err();
        assert_eq!(e.class, ErrorClass::TypeError);
        assert_eq!(
            e.message,
            "restrictSandbox on another process must set canSpawnAndKill to false"
        );
    }
    for target in [victim, 99999] {
        let e = host::restrict_sandbox(&mut w, confined, Some(false), Some(target)).unwrap_err();
        assert_eq!(e.class, ErrorClass::PermissionError);
        assert_eq!(e.message, "not permitted to restrict other processes");
    }
    let e = host::restrict_sandbox(&mut w, root, Some(false), Some(99999)).unwrap_err();
    assert_eq!(e.class, ErrorClass::TypeError);
    assert_eq!(e.message, "unknown pid");
    assert_eq!(host::self_sandbox(&w, victim), Sandbox::privileged());
    let post = host::restrict_sandbox(&mut w, root, Some(false), Some(victim)).unwrap();
    assert_eq!(post, Sandbox::confined());
    assert_eq!(host::self_sandbox(&w, victim), Sandbox::confined());

    // Itself: always, and for good.
    let read = host::restrict_sandbox(&mut w, root, None, None).unwrap();
    assert_eq!(read, Sandbox::privileged());
    let read = host::restrict_sandbox(&mut w, root, Some(true), Some(root)).unwrap();
    assert_eq!(read, Sandbox::privileged());
    let post = host::restrict_sandbox(&mut w, root, Some(false), None).unwrap();
    assert_eq!(post, Sandbox::confined());
    let post = host::restrict_sandbox(&mut w, root, Some(true), None).unwrap();
    assert_eq!(post, Sandbox::confined());
}

#[test]
fn the_runtime_waits_for_its_processes() {
    let mut w = World::new();
    assert!(!runtime::keep_waiting(&w, false, false));
    assert!(runtime::keep_waiting(&w, false, true));
    assert!(!runtime::keep_waiting(&w, true, true));
    let pid = parked(&mut w, None, 0);
    assert!(runtime::keep_waiting(&w, false, false));
    assert!(!runtime::keep_waiting(&w, true, false));
    assert!(kill_process(&mut w, pid));
    assert!(!runtime::keep_waiting(&w, false, false));
    assert_eq!(runtime::exit_code(&w), 0);
}

#[test]
fn options_are_interpreted() {
    assert_eq!(runtime::worker_count(0), 1);
    assert_eq!(runtime::worker_count(1), 1);
    assert_eq!(runtime::worker_count(8), 8);
    assert!(!runtime::keep_alive(false, false));
    assert!(runtime::keep_alive(true, false));
    assert!(runtime::keep_alive(false, true));
    assert!(runtime::host_is_idle("0.0.0.0", None));
    assert!(!runtime::host_is_idle("127.0.0.1", None));
    assert!(!runtime::host_is_idle("0.0.0.0", Some(9000)));
}

#[test]
fn a_slice_has_one_job() {
    let mut w = World::new();
    let pid = runnable(&mut w);
    assert!(!take_job(&mut w, pid), "it is only queued");
    let _ = next(&mut w);
    assert!(take_job(&mut w, pid));
    assert!(!take_job(&mut w, pid));
    assert!(!take_job(&mut w, 99));
    assert!(matches!(end_slice(&mut w, pid, true), Settled::Queued));
    assert!(!take_job(&mut w, pid));
    let _ = next(&mut w);
    assert!(take_job(&mut w, pid));
    assert!(!take_job(&mut w, pid));
}

#[test]
fn parking_takes_the_oldest_message() {
    let mut w = World::new();
    let pid = parked(&mut w, None, 0);
    deliver_json_string(&mut w, pid, "1".to_string());
    let _ = next(&mut w);
    let _ = complete_wake(&mut w, pid, WakeKind::Message, true);
    assert!(matches!(host::recv(&mut w, pid, None, 0), Ok(Recv::Wait)));
    deliver_json_string(&mut w, pid, "2".to_string());
    deliver_json_string(&mut w, pid, "3".to_string());
    match park(&mut w, pid) {
        Settled::Message(json) => assert_eq!(json, "2"),
        _ => panic!("parked with a message in the mailbox"),
    }
    assert!(matches!(complete_park(&mut w, pid, true), WakeEnd::Resumed));
    assert_eq!(next(&mut w).0, pid);
    assert!(matches!(worker_step(&mut w), WorkerStep::Idle));
    match host::recv(&mut w, pid, None, 0) {
        Ok(Recv::Message(json)) => assert_eq!(json, "3"),
        _ => panic!("a message was lost"),
    }
    assert!(matches!(host::recv(&mut w, pid, None, 0), Ok(Recv::Wait)));
    assert!(matches!(park(&mut w, pid), Settled::Parked));
    assert_eq!(place_of(&w, pid), Some(Place::Parked));
}
