//! Real script engines on one worker, which takes turns until every process has
//! finished.

use std::collections::HashMap;
use std::sync::{Arc, Mutex, MutexGuard};
use std::time::{Duration, Instant};

use otter_rt::engine;
use otter_rt::host::{self, Recv};
use otter_rt::process::{Pid, Place, Sandbox, WakeKind};
use otter_rt::rpc::{self, LineAction, ServeStep};
use otter_rt::runtime;
use otter_rt::scheduler::{self, Settled, SliceStart, WakeEnd, WorkerStep};
use otter_rt::world::World;
use rquickjs::prelude::{Opt, Rest};
use rquickjs::{Array, Context, Ctx, Function, Object, Promise, Runtime, Value};

/// One isolated script engine.
struct Engine {
    rt: Runtime,
    ctx: Context,
}

impl Engine {
    /// Creates the engine of a registered process and evaluates its entry
    /// script.
    fn create(
        shared: &Arc<Shared>,
        pid: Pid,
        name: &str,
        source: &str,
    ) -> Result<Engine, String> {
        let rt = Runtime::new().map_err(|e| e.to_string())?;
        let ctx = Context::full(&rt).map_err(|e| e.to_string())?;
        ctx.with(|mut cx| {
            setup_globals(&mut cx, shared, pid).map_err(|e| e.to_string())?;
            engine::start_entry(&mut cx, name, source)
        })?;
        Ok(Engine { rt, ctx })
    }

    /// Whether a job is left.
    fn is_job_pending(&self) -> bool {
        self.rt.is_job_pending()
    }

    /// Executes one job. Returns what it raised.
    fn run_job(&self) -> Result<(), String> {
        match self.rt.execute_pending_job() {
            Ok(_) => Ok(()),
            Err(exc) => Err(exc.0.with(|mut cx| engine::describe_catch(&mut cx))),
        }
    }

    /// Wakes the script as the start of its slice says.
    fn wake(&self, start: SliceStart) -> Option<(WakeKind, bool)> {
        self.ctx.with(|mut cx| engine::wake(&mut cx, start))
    }
}

/// Milliseconds as a script gives them. Floating point: anything negative,
/// infinite or not a number counts as zero, and a fraction is rounded up, so
/// that no sleep is too short.
fn millis(ms: f64) -> u64 {
    let ms = if ms.is_finite() { ms.max(0.0) } else { 0.0 };
    ms.ceil() as u64
}

fn info_object<'js>(
    cx: &Ctx<'js>,
    info: (Pid, String, &'static str),
) -> rquickjs::Result<Object<'js>> {
    let obj = Object::new(cx.clone())?;
    obj.set("pid", info.0)?;
    obj.set("name", info.1)?;
    obj.set("status", info.2)?;
    Ok(obj)
}

fn sandbox_snapshot<'js>(cx: &Ctx<'js>, sandbox: Sandbox) -> rquickjs::Result<Value<'js>> {
    let obj = Object::new(cx.clone())?;
    obj.set("canSpawnAndKill", sandbox.can_spawn_and_kill)?;
    Ok(obj.into_value())
}

fn setup_globals<'js>(cx: &mut Ctx<'js>, shared: &Arc<Shared>, me: Pid) -> rquickjs::Result<()> {
    let globals = cx.globals();

    engine::define_errors(cx)?;

    let sh = shared.clone();
    globals.set(
        "spawn",
        Function::new(
            cx.clone(),
            move |mut cx: Ctx<'js>, code: String, opts: Opt<Value<'js>>| -> rquickjs::Result<u64> {
                let permit = host::spawn_permit(&sh.lock_live(me).world, me);
                let parent = permit.map_err(|e| engine::raise(&mut cx, &e))?;
                let request = engine::spawn_toggle(&mut cx, &opts.0)?;
                host::spawn_outcome(sh.spawn_child(parent, request, &code))
                    .map_err(|e| engine::raise(&mut cx, &e))
            },
        )?,
    )?;

    let sh = shared.clone();
    globals.set(
        "send",
        Function::new(
            cx.clone(),
            move |mut cx: Ctx<'js>, pid: u64, value: Value<'js>| -> rquickjs::Result<()> {
                let payload = engine::message_payload(&mut cx, &value)?;
                let sent = scheduler::send_message(&mut sh.lock().world, pid, payload);
                sent.map_err(|e| engine::raise(&mut cx, &e))
            },
        )?,
    )?;

    let sh = shared.clone();
    globals.set(
        "recv",
        Function::new(
            cx.clone(),
            move |mut cx: Ctx<'js>, timeout_ms: Opt<f64>| -> rquickjs::Result<Promise<'js>> {
                let (promise, resolve, reject) = Promise::new(&cx)?;
                let timeout = timeout_ms.0.map(millis);
                let now = sh.now();
                let answer = host::recv(&mut sh.lock_executing(me).world, me, timeout, now);
                match answer.map_err(|e| engine::raise(&mut cx, &e))? {
                    Recv::Message(json) => engine::resolve_recv(&mut cx, &resolve, json)?,
                    Recv::Wait => {
                        engine::stash_recv(&mut cx, resolve.into_value(), reject.into_value())?
                    }
                }
                Ok(promise)
            },
        )?,
    )?;

    let sh = shared.clone();
    globals.set(
        "sleep",
        Function::new(
            cx.clone(),
            move |mut cx: Ctx<'js>, ms: f64| -> rquickjs::Result<Promise<'js>> {
                let (promise, resolve, _reject) = Promise::new(&cx)?;
                let now = sh.now();
                let answer = host::sleep(&mut sh.lock_executing(me).world, me, millis(ms), now);
                answer.map_err(|e| engine::raise(&mut cx, &e))?;
                engine::stash_sleep(&mut cx, resolve.into_value())?;
                Ok(promise)
            },
        )?,
    )?;

    let sh = shared.clone();
    globals.set(
        "yieldNow",
        Function::new(
            cx.clone(),
            move |mut cx: Ctx<'js>| -> rquickjs::Result<Promise<'js>> {
                let (promise, resolve, _reject) = Promise::new(&cx)?;
                engine::stash_yield(&mut cx, resolve.into_value())?;
                host::yield_now(&mut sh.lock_executing(me).world, me);
                Ok(promise)
            },
        )?,
    )?;

    globals.set("self", Function::new(cx.clone(), move || -> u64 { me })?)?;

    let sh = shared.clone();
    globals.set(
        "killProcess",
        Function::new(
            cx.clone(),
            move |mut cx: Ctx<'js>, pid: u64| -> rquickjs::Result<bool> {
                let answer = {
                    let mut state = sh.lock_live(me);
                    let answer = host::kill_by(&mut state.world, me, pid);
                    (answer, state.reap(pid))
                };
                answer.0.map_err(|e| engine::raise(&mut cx, &e))
            },
        )?,
    )?;

    let sh = shared.clone();
    globals.set(
        "selfSandbox",
        Function::new(
            cx.clone(),
            move |cx: Ctx<'js>| -> rquickjs::Result<Value<'js>> {
                let sandbox = host::self_sandbox(&sh.lock_live(me).world, me);
                sandbox_snapshot(&cx, sandbox)
            },
        )?,
    )?;

    let sh = shared.clone();
    globals.set(
        "restrictSandbox",
        Function::new(
            cx.clone(),
            move |mut cx: Ctx<'js>,
                  policy: Opt<Value<'js>>,
                  opts: Opt<Value<'js>>|
                  -> rquickjs::Result<Value<'js>> {
                let request = engine::policy_toggle(&mut cx, &policy.0)?;
                let target = engine::restrict_pid(&mut cx, &opts.0)?;
                let answer =
                    host::restrict_sandbox(&mut sh.lock_live(me).world, me, request, target);
                let sandbox = answer.map_err(|e| engine::raise(&mut cx, &e))?;
                sandbox_snapshot(&cx, sandbox)
            },
        )?,
    )?;

    let sh = shared.clone();
    globals.set(
        "listProcesses",
        Function::new(
            cx.clone(),
            move |cx: Ctx<'js>| -> rquickjs::Result<Array<'js>> {
                let listing = scheduler::list_processes(&sh.lock().world);
                let arr = Array::new(cx.clone())?;
                for (i, info) in listing.into_iter().enumerate() {
                    arr.set(i, info_object(&cx, info)?)?;
                }
                Ok(arr)
            },
        )?,
    )?;

    let sh = shared.clone();
    globals.set(
        "isProcessAlive",
        Function::new(cx.clone(), move |pid: u64| -> bool {
            scheduler::is_process_alive(&sh.lock().world, pid)
        })?,
    )?;

    let sh = shared.clone();
    globals.set(
        "processInfo",
        Function::new(
            cx.clone(),
            move |cx: Ctx<'js>, pid: u64| -> rquickjs::Result<Value<'js>> {
                let info = scheduler::process_info(&sh.lock().world, pid);
                match info {
                    Some(info) => Ok(info_object(&cx, info)?.into_value()),
                    None => Ok(Value::new_null(cx.clone())),
                }
            },
        )?,
    )?;

    let sh = shared.clone();
    globals.set(
        "processCount",
        Function::new(cx.clone(), move || -> usize {
            scheduler::process_count(&sh.lock().world)
        })?,
    )?;

    let sh = shared.clone();
    globals.set(
        "setName",
        Function::new(cx.clone(), move |name: String| {
            scheduler::set_process_name(&mut sh.lock().world, me, name);
        })?,
    )?;

    let sh = shared.clone();
    globals.set(
        "__otter_done",
        Function::new(cx.clone(), move || {
            scheduler::entry_done(&mut sh.lock_executing(me).world, me);
        })?,
    )?;

    let sh = shared.clone();
    globals.set(
        "__otter_error",
        Function::new(cx.clone(), move |msg: String| {
            let line = scheduler::entry_failed(&mut sh.lock_executing(me).world, me, &msg);
            if let Some(line) = line {
                println!("{line}");
            }
        })?,
    )?;

    let console = Object::new(cx.clone())?;
    console.set(
        "log",
        Function::new(
            cx.clone(),
            move |mut cx: Ctx<'js>, args: Rest<Value<'js>>| -> rquickjs::Result<()> {
                println!("{}", engine::log_line(&mut cx, me, &args.0)?);
                Ok(())
            },
        )?,
    )?;
    console.set(
        "error",
        Function::new(
            cx.clone(),
            move |mut cx: Ctx<'js>, args: Rest<Value<'js>>| -> rquickjs::Result<()> {
                println!("{}", engine::log_line(&mut cx, me, &args.0)?);
                Ok(())
            },
        )?,
    )?;
    globals.set("console", console)?;

    Ok(())
}

/// What one lock guards.
struct State {
    world: World,
    /// The engine of every process that no worker holds.
    engines: HashMap<Pid, Engine>,
    shutdown: bool,
}

impl State {
    /// Takes out the engine of a process that is not alive any more, to be
    /// dropped by the caller once the lock is released.
    fn reap(&mut self, pid: Pid) -> Option<Engine> {
        if scheduler::is_process_alive(&self.world, pid) {
            None
        } else {
            self.engines.remove(&pid)
        }
    }

    /// Takes out the engines of all processes that are not alive any more.
    fn reap_all(&mut self) -> Vec<Engine> {
        let pids: Vec<Pid> = self.engines.keys().copied().collect();
        pids.into_iter().filter_map(|pid| self.reap(pid)).collect()
    }
}

/// Everything that workers, scripts and control clients share.
struct Shared {
    state: Mutex<State>,
    start: Instant,
}

impl Shared {
    fn new() -> Arc<Shared> {
        Arc::new(Shared {
            state: Mutex::new(State {
                world: World::new(),
                engines: HashMap::new(),
                shutdown: false,
            }),
            start: Instant::now(),
        })
    }

    fn lock(&self) -> MutexGuard<'_, State> {
        self.state.lock().unwrap()
    }

    /// Locks for a call that is about a live process.
    fn lock_live(&self, pid: Pid) -> MutexGuard<'_, State> {
        let state = self.lock();
        assert!(scheduler::is_process_alive(&state.world, pid));
        state
    }

    /// Locks for a call that is about a process whose script is being executed.
    fn lock_executing(&self, pid: Pid) -> MutexGuard<'_, State> {
        let state = self.lock();
        assert!(matches!(
            scheduler::place_of(&state.world, pid),
            Some(Place::Starting | Place::OnWorker)
        ));
        state
    }

    /// Locks for a call that is about a process that a worker holds and whose
    /// script is owed the given wake, or none.
    fn lock_held(&self, pid: Pid, owed: Option<WakeKind>) -> MutexGuard<'_, State> {
        let state = self.lock();
        assert_eq!(
            scheduler::place_of(&state.world, pid),
            Some(Place::OnWorker)
        );
        assert_eq!(scheduler::owed_wake(&state.world, pid), owed);
        state
    }

    /// Nanoseconds since the start.
    fn now(&self) -> u64 {
        self.start.elapsed().as_nanos() as u64
    }

    fn spawn(self: &Arc<Self>, name: &str, source: &str, sandbox: Sandbox) -> Result<Pid, String> {
        let pid = scheduler::create_process(&mut self.lock().world, name, sandbox);
        self.start_process(pid, name, source)
    }

    fn spawn_root(self: &Arc<Self>, name: &str, source: &str) -> Result<Pid, String> {
        let pid = scheduler::create_root(&mut self.lock().world, name);
        self.start_process(pid, name, source)
    }

    /// Starts a process on behalf of a script.
    fn spawn_child(
        self: &Arc<Self>,
        parent: Sandbox,
        request: Option<bool>,
        source: &str,
    ) -> Result<Pid, String> {
        let (pid, name) = {
            let mut state = self.lock();
            let pid = host::create_child(&mut state.world, parent, request);
            let info = scheduler::process_info(&state.world, pid);
            (pid, info.map(|i| i.1).unwrap_or_default())
        };
        self.start_process(pid, &name, source)
    }

    fn start_process(
        self: &Arc<Self>,
        pid: Pid,
        name: &str,
        source: &str,
    ) -> Result<Pid, String> {
        let (engine, created) = match Engine::create(self, pid, name, source) {
            Ok(engine) => (Some(engine), Ok(())),
            Err(msg) => (None, Err(msg)),
        };
        let mut state = self.lock();
        assert_eq!(
            scheduler::place_of(&state.world, pid),
            Some(Place::Starting)
        );
        let settled = scheduler::spawn_process(&mut state.world, pid, created)?;
        if let Some(engine) = engine {
            self.settle(state, pid, engine, settled);
        }
        Ok(pid)
    }

    /// Puts the engine of a process where the process went.
    fn settle(&self, mut state: MutexGuard<'_, State>, pid: Pid, engine: Engine, to: Settled) {
        match to {
            Settled::Gone => {
                drop(state);
                drop(engine);
            }
            Settled::Parked | Settled::Asleep | Settled::Queued => {
                state.engines.insert(pid, engine);
                drop(state);
            }
            Settled::Message(json) => {
                drop(state);
                let woken = engine.wake(SliceStart::Message(json));
                let ok = matches!(woken, Some((_, true)));
                let mut state = self.lock_held(pid, Some(WakeKind::Message));
                match scheduler::complete_park(&mut state.world, pid, ok) {
                    WakeEnd::Resumed => self.settle(state, pid, engine, Settled::Queued),
                    WakeEnd::Dead(line) => {
                        report(line);
                        self.settle(state, pid, engine, Settled::Gone);
                    }
                }
            }
        }
    }

    /// Takes one entry off the run queue, or services the timers if there is
    /// none. Says whether to go on.
    fn turn(&self) -> bool {
        let mut state = self.lock();
        match scheduler::worker_step(&mut state.world) {
            WorkerStep::Stop => return false,
            WorkerStep::Idle => {
                scheduler::fire_timers(&mut state.world, self.now());
            }
            WorkerStep::Slice(pid, start) => {
                assert!(!matches!(start, SliceStart::Parked));
                let engine = state.engines.remove(&pid).expect("an engine");
                drop(state);
                self.run_slice(pid, engine, start);
            }
        }
        true
    }

    /// Runs until every process has finished.
    fn run_to_completion(&self, seconds: u64) {
        let start = Instant::now();
        while runtime::keep_waiting(&self.lock().world, false, false) {
            assert!(
                start.elapsed() < Duration::from_secs(seconds),
                "processes did not finish within {seconds} s"
            );
            assert!(self.turn());
        }
    }

    /// Tells the worker to stop, and sees it stop.
    fn stop(&self) {
        scheduler::stop_workers(&mut self.lock().world, 1);
        let mut turns = 0;
        while self.turn() {
            turns += 1;
            assert!(turns < 1000);
        }
    }

    /// One slice: wakes the process if it is suspended, executes one job, and
    /// puts the process where it belongs.
    fn run_slice(&self, pid: Pid, engine: Engine, start: SliceStart) {
        if let SliceStart::Gone = start {
            self.settle(self.lock(), pid, engine, Settled::Gone);
            return;
        }
        if let Some((kind, ok)) = engine.wake(start) {
            let mut state = self.lock_held(pid, Some(kind));
            if let WakeEnd::Dead(line) = scheduler::complete_wake(&mut state.world, pid, kind, ok) {
                report(line);
                self.settle(state, pid, engine, Settled::Gone);
                return;
            }
        }
        if engine.is_job_pending() && scheduler::take_job(&mut self.lock().world, pid) {
            if let Err(msg) = engine.run_job() {
                report(scheduler::job_failed(
                    &mut self.lock_executing(pid).world,
                    pid,
                    &msg,
                ));
            }
        }
        let job_pending = engine.is_job_pending();
        let mut state = self.lock_held(pid, None);
        let settled = scheduler::end_slice(&mut state.world, pid, job_pending);
        self.settle(state, pid, engine, settled);
    }
}

fn report(line: Option<String>) {
    if let Some(line) = line {
        println!("{line}");
    }
}

/// Runs everything to its end, and sees that nothing failed.
fn complete(shared: &Arc<Shared>, seconds: u64) {
    shared.run_to_completion(seconds);
    assert_eq!(shared.lock().world.failed(), 0);
    assert_eq!(runtime::exit_code(&shared.lock().world), 0);
}

#[test]
fn two_processes_exchange_messages() {
    let shared = Shared::new();

    shared
        .spawn(
            "a.js",
            r#"
            const b = spawn(`
                send(0, "hello");
                await recv();
            `);
            const msg = await recv();
            if (msg !== "hello") throw new Error("unexpected message: " + msg);
            send(b, "bye");
        "#,
            Sandbox::privileged(),
        )
        .unwrap();

    complete(&shared, 10);
    shared.stop();
}

#[test]
fn one_worker_multiplexes_many_processes() {
    let shared = Shared::new();

    // 30 workers reply to pid 0, which sums their answers. The sum is only
    // correct if every process ran and every message was delivered.
    shared
        .spawn(
            "collector.js",
            r#"
            const COUNT = 30;
            for (let i = 1; i <= COUNT; i++) {
                const p = spawn(`
                    const n = await recv();
                    send(0, n * 2);
                `);
                send(p, i);
            }
            let total = 0;
            for (let i = 0; i < COUNT; i++) {
                total += await recv();
            }
            if (total !== 930) throw new Error("bad total: " + total);
        "#,
            Sandbox::privileged(),
        )
        .unwrap();

    complete(&shared, 30);
    shared.stop();
}

#[test]
fn yield_suspends_and_resumes() {
    let shared = Shared::new();

    shared
        .spawn(
            "a.js",
            r#"
            const order = [];
            const b = spawn(`
                for (let i = 0; i < 3; i++) {
                    await yieldNow();
                }
                send(0, "b-done");
            `);
            for (let i = 0; i < 3; i++) {
                order.push(i);
                await yieldNow();
            }
            const msg = await recv();
            if (msg !== "b-done") throw new Error("unexpected: " + msg);
            if (order.join(",") !== "0,1,2") {
                throw new Error("bad order: " + order.join(","));
            }
        "#,
            Sandbox::privileged(),
        )
        .unwrap();

    complete(&shared, 10);
    shared.stop();
}

#[test]
fn failing_process_does_not_stop_others() {
    let shared = Shared::new();

    shared
        .spawn(
            "survivor.js",
            r#"
            const bad = spawn(`
                await recv();
                throw new Error("boom");
            `);
            send(bad, "go");
            spawn(`send(0, "alive");`);
            const msg = await recv();
            if (msg !== "alive") throw new Error("unexpected: " + msg);
        "#,
            Sandbox::privileged(),
        )
        .unwrap();

    // The survivor and the good child finish; the throwing child fails.
    shared.run_to_completion(10);
    assert_eq!(shared.lock().world.failed(), 1);
    assert_eq!(runtime::exit_code(&shared.lock().world), 1);

    shared.stop();
}

#[test]
fn sleep_resumes_after_delay() {
    let shared = Shared::new();

    shared
        .spawn(
            "sleeper.js",
            r#"
            const t0 = Date.now();
            await sleep(60);
            const elapsed = Date.now() - t0;
            if (elapsed < 50) throw new Error("woke too early: " + elapsed + "ms");
            if (elapsed > 1000) throw new Error("woke too late: " + elapsed + "ms");
        "#,
            Sandbox::privileged(),
        )
        .unwrap();

    complete(&shared, 10);
    shared.stop();
}

#[test]
fn top_level_await_sleep_parks_entry_script() {
    let shared = Shared::new();

    // The entry script suspends before returning; spawn_process must park it
    // in the sleeping map (not the run queue) and the timer must resume it.
    shared
        .spawn(
            "top.js",
            r#"
            await sleep(40);
            send(0, "done");
        "#,
            Sandbox::privileged(),
        )
        .unwrap();

    complete(&shared, 10);
    shared.stop();
}

#[test]
fn recv_timeout_rejects_with_timeout_error() {
    let shared = Shared::new();

    shared
        .spawn(
            "timeout.js",
            r#"
            try {
                await recv(40);
                throw new Error("recv did not time out");
            } catch (e) {
                if (!(e instanceof TimeoutError)) {
                    throw new Error("wrong error type: " + e);
                }
            }
        "#,
            Sandbox::privileged(),
        )
        .unwrap();

    complete(&shared, 10);
    shared.stop();
}

#[test]
fn recv_message_before_timeout() {
    let shared = Shared::new();

    shared
        .spawn(
            "a.js",
            r#"
            const b = spawn(`send(0, "quick");`);
            const msg = await recv(1000);
            if (msg !== "quick") throw new Error("unexpected: " + msg);
        "#,
            Sandbox::privileged(),
        )
        .unwrap();

    complete(&shared, 10);
    shared.stop();
}

#[test]
fn message_that_races_a_timeout_is_still_delivered() {
    let shared = Shared::new();

    shared
        .spawn(
            "a.js",
            r#"
            const b = spawn(`
                await sleep(30);
                send(0, "late");
            `);
            let timedOut = false;
            try {
                await recv(10);
            } catch (e) {
                timedOut = e instanceof TimeoutError;
            }
            if (!timedOut) throw new Error("expected a timeout");
            // The late message must still be waiting in the mailbox.
            const m = await recv();
            if (m !== "late") throw new Error("unexpected: " + m);
        "#,
            Sandbox::privileged(),
        )
        .unwrap();

    complete(&shared, 10);
    shared.stop();
}

#[test]
fn sleeping_process_does_not_block_others() {
    let shared = Shared::new();

    // While the sleeper is parked, pid 0 must still be able to ping-pong
    // with a third process, then receive the sleeper's wake-up message.
    shared
        .spawn(
            "a.js",
            r#"
            spawn(`
                await sleep(80);
                send(0, "awake");
            `);
            const pinger = spawn(`
                for (let i = 0; i < 3; i++) {
                    send(0, "ping");
                    await recv();
                }
            `);
            for (let i = 0; i < 3; i++) {
                const m = await recv();
                if (m !== "ping") throw new Error("unexpected: " + m);
                send(pinger, "pong");
            }
            const awake = await recv();
            if (awake !== "awake") throw new Error("unexpected: " + awake);
        "#,
            Sandbox::privileged(),
        )
        .unwrap();

    complete(&shared, 10);
    shared.stop();
}

#[test]
fn sleep_then_plain_recv_has_no_stale_timeout() {
    let shared = Shared::new();

    // Regression: after a sleep wakes, a subsequent plain recv() must not
    // inherit the (stale) sleep deadline as a recv timeout.
    shared
        .spawn(
            "a.js",
            r#"
            await sleep(20);
            spawn(`send(0, "ping");`);
            const m = await recv();
            if (m !== "ping") throw new Error("unexpected: " + m);
        "#,
            Sandbox::privileged(),
        )
        .unwrap();

    complete(&shared, 10);
    shared.stop();
}

#[test]
fn kill_process_reaps_parked_and_sleeping_processes() {
    let shared = Shared::new();

    shared
        .spawn(
            "killer.js",
            r#"
            const parked = spawn(`await recv();`);
            const sleeper = spawn(`await sleep(60000);`);
            await sleep(100); // let both park
            if (processCount() !== 3) throw new Error("expected 3 processes, got " + processCount());
            const listed = listProcesses().map(p => p.pid);
            if (!listed.includes(parked) || !listed.includes(sleeper)) {
                throw new Error("children not listed: " + JSON.stringify(listed));
            }
            if (!killProcess(parked)) throw new Error("kill parked failed");
            if (!killProcess(sleeper)) throw new Error("kill sleeper failed");
            await sleep(50); // let the reaps happen
            if (isProcessAlive(parked) || isProcessAlive(sleeper)) {
                throw new Error("killed process still alive");
            }
            if (listProcesses().some(p => p.pid === parked || p.pid === sleeper)) {
                throw new Error("killed process still listed");
            }
            if (processCount() !== 1) throw new Error("expected only self, got " + processCount());
            send(parked, "hello"); // to a dead pid: dropped silently
        "#,
            Sandbox::privileged(),
        )
        .unwrap();

    complete(&shared, 10);
    shared.stop();
}

#[test]
fn kill_self_terminates_current_process() {
    let shared = Shared::new();

    shared
        .spawn(
            "selfkill.js",
            r#"
            const me = self();
            if (!killProcess(me)) throw new Error("self kill failed");
            if (!isProcessAlive(me)) throw new Error("self should still be listed until reaped");
            // Reaped at the next scheduling boundary: this suspension never
            // resolves and the process dies instead of parking.
            await recv();
            console.log("should never print");
        "#,
            Sandbox::privileged(),
        )
        .unwrap();

    complete(&shared, 10);
    shared.stop();
}

#[test]
fn kill_unknown_pid_is_false_and_info_is_null() {
    let shared = Shared::new();

    shared
        .spawn(
            "info.js",
            r#"
            if (processInfo(99999) !== null) throw new Error("expected null info");
            if (isProcessAlive(99999)) throw new Error("unknown pid reported alive");
            if (killProcess(99999)) throw new Error("kill of unknown pid should be false");
            const info = processInfo(self());
            if (info.pid !== self()) throw new Error("wrong pid in info");
            if (typeof info.name !== "string" || typeof info.status !== "string") {
                throw new Error("bad info shape");
            }
        "#,
            Sandbox::privileged(),
        )
        .unwrap();

    complete(&shared, 10);
    shared.stop();
}

#[test]
fn set_name_updates_process_info_and_list() {
    let shared = Shared::new();

    shared
        .spawn(
            "rename.js",
            r#"
            setName("renamed-self");
            if (processInfo(self()).name !== "renamed-self") throw new Error("info name not updated");
            const listed = listProcesses().find(p => p.pid === self());
            if (!listed || listed.name !== "renamed-self") throw new Error("list name not updated");
        "#,
            Sandbox::privileged(),
        )
        .unwrap();

    complete(&shared, 10);
    shared.stop();
}

#[test]
fn confined_child_cannot_spawn() {
    let shared = Shared::new();

    shared
        .spawn(
            "parent.js",
            r#"
            // Privileged root spawns a confined child.
            const child = spawn(
                `
                    try {
                        spawn("send(0, 'should not happen');");
                        throw new Error("spawn should have thrown");
                    } catch (e) {
                        if (!(e instanceof PermissionError)) {
                            throw new Error("expected PermissionError, got: " + e);
                        }
                        send(0, "blocked");
                    }
                `,
                { sandbox: { canSpawnAndKill: false } },
            );
            const msg = await recv();
            if (msg !== "blocked") throw new Error("unexpected: " + msg);
        "#,
            Sandbox::privileged(),
        )
        .unwrap();

    complete(&shared, 10);
    shared.stop();
}

#[test]
fn confined_child_cannot_kill_others() {
    let shared = Shared::new();

    shared
        .spawn(
            "parent.js",
            r#"
            const victim = spawn(`await recv();`); // privileged, parks
            await sleep(50); // let it park
            const confined = spawn(
                `
                    try {
                        killProcess(VICTIM);
                        throw new Error("kill should have thrown");
                    } catch (e) {
                        if (!(e instanceof PermissionError)) {
                            throw new Error("expected PermissionError, got: " + e);
                        }
                        send(0, "blocked");
                    }
                `.replace("VICTIM", victim),
                { sandbox: { canSpawnAndKill: false } },
            );
            const msg = await recv();
            if (msg !== "blocked") throw new Error("unexpected: " + msg);
            // Victim is still alive: the confined kill was blocked outright.
            if (!isProcessAlive(victim)) throw new Error("victim should still be alive");
            killProcess(victim); // privileged parent cleans up
        "#,
            Sandbox::privileged(),
        )
        .unwrap();

    complete(&shared, 10);
    shared.stop();
}

#[test]
fn confined_child_can_kill_self() {
    let shared = Shared::new();

    shared
        .spawn(
            "parent.js",
            r#"
            const child = spawn(
                `
                    if (!killProcess(self())) throw new Error("self-kill denied");
                    await recv(); // never resolves; reaped at next boundary
                    send(0, "should never happen");
                `,
                { sandbox: { canSpawnAndKill: false } },
            );
            await sleep(80);
            if (isProcessAlive(child)) throw new Error("confined self-kill did not reap");
            send(0, "ok"); // wake parent's own recv below
            await recv();
        "#,
            Sandbox::privileged(),
        )
        .unwrap();

    complete(&shared, 10);
    shared.stop();
}

#[test]
fn selfsandbox_reports_current_policy() {
    let shared = Shared::new();

    shared
        .spawn(
            "root.js",
            r#"
            if (selfSandbox().canSpawnAndKill !== true) {
                throw new Error("root should be privileged");
            }
            const child = spawn(
                `
                    const sb = selfSandbox();
                    if (sb.canSpawnAndKill !== false) throw new Error("child should be confined");
                    send(0, "reported");
                `,
                { sandbox: { canSpawnAndKill: false } },
            );
            const msg = await recv();
            if (msg !== "reported") throw new Error("unexpected: " + msg);
        "#,
            Sandbox::privileged(),
        )
        .unwrap();

    complete(&shared, 10);
    shared.stop();
}

#[test]
fn restrictsandbox_self_narrows_irrevocably() {
    let shared = Shared::new();

    shared
        .spawn(
            "root.js",
            r#"
            // Privileged root self-confines, then proves it cannot escape.
            const after = restrictSandbox({ canSpawnAndKill: false });
            if (after.canSpawnAndKill !== false) throw new Error("restrict did not narrow");
            if (selfSandbox().canSpawnAndKill !== false) throw new Error("selfSandbox disagrees");

            // Re-granting is a silent no-op (intersection): confinement is
            // irrevocable in effect.
            const still = restrictSandbox({ canSpawnAndKill: true });
            if (still.canSpawnAndKill !== false) throw new Error("re-grant widened!");
            if (selfSandbox().canSpawnAndKill !== false) throw new Error("selfSandbox widened!");

            // Spawn is now blocked.
            try {
                spawn("send(0,'x');");
                throw new Error("spawn after restrict should throw");
            } catch (e) {
                if (!(e instanceof PermissionError)) {
                    throw new Error("expected PermissionError, got: " + e);
                }
            }
            send(0, "done");
            await recv();
        "#,
            Sandbox::privileged(),
        )
        .unwrap();

    complete(&shared, 10);
    shared.stop();
}

#[test]
fn restrictsandbox_cross_target_requires_privilege_and_narrows() {
    let shared = Shared::new();

    shared
        .spawn(
            "root.js",
            r#"
            // A privileged child that, on request, tries to spawn and reports
            // whether it was blocked.
            const victim = spawn(`
                const cmd = await recv();
                if (cmd === "try-spawn") {
                    try {
                        spawn("send(0, 'should not happen');");
                        send(0, "leaked");
                    } catch (e) {
                        send(0, e instanceof PermissionError ? "blocked" : ("other:" + e));
                    }
                }
            `);
            await sleep(50); // let it park

            // Privileged parent narrows the live victim.
            const after = restrictSandbox({ canSpawnAndKill: false }, { pid: victim });
            if (after.canSpawnAndKill !== false) throw new Error("victim not narrowed");

            // Victim now cannot spawn: ask it to try and report back.
            send(victim, "try-spawn");
            const reply = await recv();
            if (reply !== "blocked") throw new Error("unexpected: " + reply);

            // A confined process cannot narrow another process.
            const confined = spawn(
                `
                    try {
                        restrictSandbox({ canSpawnAndKill: false }, { pid: VICTIM });
                        send(0, "leaked");
                    } catch (e) {
                        if (!(e instanceof PermissionError)) {
                            send(0, "wrong-error:" + e);
                        } else {
                            send(0, "denied");
                        }
                    }
                `.replace("VICTIM", victim),
                { sandbox: { canSpawnAndKill: false } },
            );
            const r2 = await recv();
            if (r2 !== "denied") throw new Error("confined cross-restrict not denied: " + r2);

            // Cross-target without an actual narrowing (pure read / widen
            // attempt) is a TypeError, not a permission issue.
            const confined2 = spawn(
                `
                    try {
                        restrictSandbox({}, { pid: VICTIM });
                        send(0, "read-leaked");
                    } catch (e) {
                        send(0, e instanceof TypeError ? "typeerror" : ("other:" + e));
                    }
                `.replace("VICTIM", victim),
                { sandbox: { canSpawnAndKill: false } },
            );
            const r3 = await recv();
            if (r3 !== "typeerror") throw new Error("empty cross-policy should be TypeError: " + r3);

            killProcess(victim);
            killProcess(confined);
            killProcess(confined2);
            send(0, "done");
            await recv();
        "#,
            Sandbox::privileged(),
        )
        .unwrap();

    complete(&shared, 10);
    shared.stop();
}

#[test]
fn restrictsandbox_unknown_target_is_typeerror_after_privilege() {
    let shared = Shared::new();

    shared
        .spawn(
            "root.js",
            r#"
            // Privileged caller, dead target -> TypeError (bad arg).
            try {
                restrictSandbox({ canSpawnAndKill: false }, { pid: 99999 });
                throw new Error("expected TypeError");
            } catch (e) {
                if (!(e instanceof TypeError)) throw new Error("expected TypeError, got: " + e);
            }

            // Confined caller, dead target -> PermissionError (privilege first).
            const confined = spawn(
                `
                    try {
                        restrictSandbox({ canSpawnAndKill: false }, { pid: 99999 });
                        send(0, "leaked");
                    } catch (e) {
                        send(0, e instanceof PermissionError ? "denied" : ("other:" + e));
                    }
                `,
                { sandbox: { canSpawnAndKill: false } },
            );
            const r = await recv();
            if (r !== "denied") throw new Error("confined should get PermissionError first: " + r);
            killProcess(confined);
            send(0, "done");
            await recv();
        "#,
            Sandbox::privileged(),
        )
        .unwrap();

    complete(&shared, 10);
    shared.stop();
}

#[test]
fn spawn_inherits_parent_sandbox_by_default() {
    let shared = Shared::new();

    // A confined root: its children inherit confinement even without an
    // explicit override (no-escalation by inheritance).
    shared
        .spawn(
            "confined-root.js",
            r#"
            if (selfSandbox().canSpawnAndKill !== false) throw new Error("root should be confined");
            // Cannot spawn at all from a confined process.
            try {
                spawn("send(0,'x');");
                throw new Error("spawn should throw");
            } catch (e) {
                if (!(e instanceof PermissionError)) throw new Error("expected PermissionError: " + e);
            }
            send(0, "done");
            await recv();
        "#,
            Sandbox::confined(),
        )
        .unwrap();

    complete(&shared, 10);
    shared.stop();
}

#[test]
fn confined_process_can_still_send_recv_and_sleep() {
    // The sandbox gates only spawn/killProcess(other); message passing,
    // sleep, and yieldNow must keep working for a confined process.
    let shared = Shared::new();

    shared
        .spawn(
            "root.js",
            r#"
            const child = spawn(
                `
                    setName("confined");
                    // sleep and recv both work.
                    await sleep(30);
                    send(0, "ping");
                    const reply = await recv();
                    if (reply !== "pong") throw new Error("unexpected: " + reply);
                    send(0, "child-done");
                `,
                { sandbox: { canSpawnAndKill: false } },
            );
            const ping = await recv();
            if (ping !== "ping") throw new Error("unexpected: " + ping);
            send(child, "pong");
            const done = await recv();
            if (done !== "child-done") throw new Error("unexpected: " + done);
        "#,
            Sandbox::privileged(),
        )
        .unwrap();

    complete(&shared, 10);
    shared.stop();
}

#[test]
fn spawn_explicit_true_is_noop_child_still_privileged() {
    // `{ sandbox: { canSpawnAndKill: true } }` is a no-op intersect: the
    // child stays privileged and can itself spawn. The grandchild's report
    // and the child's report both arrive at the root; order is not fixed, so
    // collect both.
    let shared = Shared::new();

    shared
        .spawn(
            "root.js",
            r#"
            const child = spawn(
                `
                    if (selfSandbox().canSpawnAndKill !== true) throw new Error("should be privileged");
                    const gc = spawn("send(0, 'grandchild-up');");
                    send(0, "child-spawned:" + gc);
                    await recv();
                `,
                { sandbox: { canSpawnAndKill: true } },
            );
            const m1 = await recv();
            const m2 = await recv();
            const msgs = [m1, m2].sort();
            // Order-agnostic: both messages must be present.
            const hasGc = msgs.includes("grandchild-up");
            const hasChild = msgs.some((m) => m.startsWith("child-spawned:"));
            if (!hasGc || !hasChild) throw new Error("missing reports: " + msgs);
            send(child, "bye");
        "#,
            Sandbox::privileged(),
        )
        .unwrap();

    complete(&shared, 10);
    shared.stop();
}

#[test]
fn spawn_with_empty_or_partial_sandbox_inherits() {
    // Empty opts, empty sandbox object, and an unknown key are all treated
    // as "inherit": the child is privileged and can spawn.
    let shared = Shared::new();

    shared
        .spawn(
            "root.js",
            r#"
            const a = spawn("send(0,'a');");                  // no opts
            const b = spawn("send(0,'b');", {});              // empty opts
            const c = spawn("send(0,'c');", { sandbox: {} }); // empty sandbox
            const d = spawn("send(0,'d');", { sandbox: { unknownKey: 1 } }); // unknown key
            const got = [];
            for (let i = 0; i < 4; i++) got.push(await recv());
            got.sort();
            if (got.join(",") !== "a,b,c,d") throw new Error("missing children: " + got);
            // Each child inherited privilege.
            for (const pid of [a, b, c, d]) {
                send(pid, "go");
            }
        "#,
            Sandbox::privileged(),
        )
        .unwrap();

    complete(&shared, 10);
    shared.stop();
}

#[test]
fn restrictsandbox_empty_or_omitted_is_pure_read() {
    // `restrictSandbox()` and `restrictSandbox({})` on a privileged process
    // return the current state unchanged and leave spawn working.
    let shared = Shared::new();

    shared
        .spawn(
            "root.js",
            r#"
            const a = restrictSandbox();
            if (a.canSpawnAndKill !== true) throw new Error("pure read should be true");
            const b = restrictSandbox({});
            if (b.canSpawnAndKill !== true) throw new Error("empty policy read should be true");
            // Explicit true on self is also a no-op (never widens, but it
            // wasn't narrow to begin with).
            const c = restrictSandbox({ canSpawnAndKill: true });
            if (c.canSpawnAndKill !== true) throw new Error("true should be no-op");
            // Spawn still works.
            const child = spawn("send(0, 'ok');");
            if ((await recv()) !== "ok") throw new Error("spawn broke after pure read");
            send(child, "bye");
        "#,
            Sandbox::privileged(),
        )
        .unwrap();

    complete(&shared, 10);
    shared.stop();
}

#[test]
fn confinement_gates_caller_not_target() {
    // A confined process cannot be killed by another confined process, but a
    // privileged caller can kill a confined target. The sandbox describes
    // what the *caller* may do, not what may be done to the target.
    let shared = Shared::new();

    shared
        .spawn(
            "root.js",
            r#"
            const target = spawn(
                `await recv();`,
                { sandbox: { canSpawnAndKill: false } },
            );
            await sleep(50); // let it park
            if (!isProcessAlive(target)) throw new Error("target died early");

            // A confined attacker cannot kill the confined target.
            const attacker = spawn(
                `
                    try {
                        killProcess(TARGET);
                        send(0, "attacker-leaked");
                    } catch (e) {
                        send(0, e instanceof PermissionError ? "attacker-blocked" : ("other:" + e));
                    }
                `.replace("TARGET", target),
                { sandbox: { canSpawnAndKill: false } },
            );
            const r = await recv();
            if (r !== "attacker-blocked") throw new Error("attacker should be blocked: " + r);
            if (!isProcessAlive(target)) throw new Error("target died from a blocked kill");

            // A privileged caller CAN kill the confined target.
            if (!killProcess(target)) throw new Error("privileged kill of confined target failed");
            await sleep(50);
            if (isProcessAlive(target)) throw new Error("confined target survived privileged kill");
            killProcess(attacker);
            send(0, "done");
            await recv();
        "#,
            Sandbox::privileged(),
        )
        .unwrap();

    complete(&shared, 10);
    shared.stop();
}

#[test]
fn self_restrict_then_self_kill_still_allowed() {
    // Self-kill is never gated by the sandbox, even after self-restriction
    // drops canSpawnAndKill. The setup-then-die lifecycle must work.
    let shared = Shared::new();

    shared
        .spawn(
            "root.js",
            r#"
            const child = spawn(`
                restrictSandbox({ canSpawnAndKill: false });
                if (selfSandbox().canSpawnAndKill !== false) throw new Error("not confined");
                // Self-kill still allowed despite confinement.
                if (!killProcess(self())) throw new Error("self-kill denied after restrict");
                await recv(); // never resolves; reaped at next boundary
                send(0, "should never happen");
            `);
            await sleep(80);
            if (isProcessAlive(child)) throw new Error("confined self-kill didn't reap");
            send(0, "done");
            await recv();
        "#,
            Sandbox::privileged(),
        )
        .unwrap();

    complete(&shared, 10);
    shared.stop();
}

#[test]
fn sandbox_inherits_through_privileged_chain() {
    // Multi-level inheritance: privileged root → privileged child (explicit
    // true) → confined grandchild (explicit false). The grandchild is
    // confined and cannot spawn; the middle child stays privileged.
    let shared = Shared::new();

    shared
        .spawn(
            "root.js",
            r#"
            const child = spawn(`
                if (selfSandbox().canSpawnAndKill !== true) throw new Error("child should be privileged");
                // Spawn a confined grandchild. Use a double-quoted one-liner
                // (no backticks) so it doesn't close this template literal; use
                // a numeric probe message so no nested string quotes are
                // needed (backtick template literals eat backslash-escapes).
                const gc = spawn("if(selfSandbox().canSpawnAndKill!==false)throw new Error('gc should be confined');try{spawn('send(0,42)');send(0,'gc-leaked')}catch(e){send(0,e instanceof PermissionError?'gc-blocked':('other:'+e))};await recv();", { sandbox: { canSpawnAndKill: false } });
                // The grandchild reports back directly to root (pid 0) and is
                // now parked on its own await recv(). This child waits to be
                // told the confinement held, then wakes the grandchild with
                // "bye" so it can finish.
                const ok = await recv();
                if (ok !== "bye") throw new Error("child expected a bye from root: " + ok);
                send(gc, "bye");
            `, { sandbox: { canSpawnAndKill: true } });
            const r = await recv();
            if (r !== "gc-blocked") throw new Error("grandchild should be confined: " + r);
            send(child, "bye");
        "#,
            Sandbox::privileged(),
        )
        .unwrap();

    complete(&shared, 10);
    shared.stop();
}

/// One control request, answered as a server would, with its reply parsed.
fn request_rpc(shared: &Arc<Shared>, method: &str, params: &str) -> serde_json::Value {
    let line = format!(
        "{{\"jsonrpc\":\"2.0\",\"id\":1,\"method\":\"{method}\",\"params\":{params}}}\n"
    );
    let reply = request_raw(shared, &line).expect("a reply");
    let v = serde_json::from_str::<serde_json::Value>(&reply).unwrap();
    assert_eq!(v.get("jsonrpc").unwrap().as_str().unwrap(), "2.0");
    assert_eq!(v.get("id").unwrap().as_u64().unwrap(), 1);
    v
}

/// One line, answered as a server would.
fn request_raw(shared: &Arc<Shared>, line: &str) -> Option<String> {
    let (action, reaped) = {
        let mut guard = shared.lock();
        let state = &mut *guard;
        let action = rpc::handle_line(line, &mut state.world, &mut state.shutdown);
        (action, state.reap_all())
    };
    drop(reaped);
    match action {
        LineAction::Answer { reply, .. } => reply,
        LineAction::Spawn { id, name, code } => {
            rpc::spawn_answer(id, shared.spawn_root(&name, &code))
        }
    }
}

fn count(shared: &Arc<Shared>) -> u64 {
    let resp = request_rpc(shared, "count", "{}");
    resp.get("result").unwrap().as_u64().unwrap()
}

/// Takes turns until `count` answers 0.
fn wait_until(shared: &Arc<Shared>) {
    let mut turns = 0;
    while count(shared) != 0 {
        assert!(shared.turn());
        turns += 1;
        assert!(turns < 1000, "processes did not finish");
    }
}

#[test]
fn rpc_list_reports_spawned_process() {
    let h = Shared::new();

    let resp = request_rpc(
        &h,
        "spawn",
        r#"{ "name": "waiter.js", "code": "await recv();" }"#,
    );
    let pid = resp.get("result").unwrap().get("pid").unwrap().as_u64().unwrap();
    assert_eq!(pid, 0, "first spawned process is pid 0");

    let list = request_rpc(&h, "list", "{}");
    let arr = list.get("result").unwrap().as_array().unwrap();
    assert_eq!(arr.len(), 1, "one live process");
    let first = arr.first().unwrap();
    assert_eq!(first.get("pid").unwrap().as_u64().unwrap(), 0);
    assert_eq!(first.get("name").unwrap().as_str().unwrap().to_owned(), "waiter.js");
    assert_eq!(first.get("status").unwrap().as_str().unwrap().to_owned(), "waiting");
}

#[test]
fn rpc_send_wakes_parked_process_and_it_finishes() {
    let h = Shared::new();
    let _ = request_rpc(&h, "spawn", r#"{ "code": "await recv();" }"#);
    assert_eq!(count(&h), 1);

    let resp = request_rpc(&h, "send", r#"{ "pid": 0, "value": "wake-up" }"#);
    assert_eq!(resp.get("result").unwrap().as_bool().unwrap(), true);

    wait_until(&h);
}

#[test]
fn rpc_kill_reaps_a_sleeping_process() {
    let h = Shared::new();
    let _ = request_rpc(&h, "spawn", r#"{ "code": "await sleep(60000);" }"#);
    assert_eq!(count(&h), 1);

    let resp = request_rpc(&h, "kill", r#"{ "pid": 0 }"#);
    assert_eq!(resp.get("result").unwrap().as_bool().unwrap(), true);

    wait_until(&h);
}

#[test]
fn rpc_rename_is_visible_in_list() {
    let h = Shared::new();
    let _ = request_rpc(
        &h,
        "spawn",
        r#"{ "name": "orig.js", "code": "await sleep(60000);" }"#,
    );

    let resp = request_rpc(&h, "rename", r#"{ "pid": 0, "name": "renamed.js" }"#);
    assert_eq!(resp.get("result").unwrap().as_bool().unwrap(), true);

    let list = request_rpc(&h, "list", "{}");
    let arr = list.get("result").unwrap().as_array().unwrap();
    let first = arr.first().unwrap();
    assert_eq!(first.get("name").unwrap().as_str().unwrap().to_owned(), "renamed.js");
}

#[test]
fn rpc_unknown_pid_yields_null_and_false() {
    let h = Shared::new();

    let resp = request_rpc(&h, "info", r#"{ "pid": 42 }"#);
    assert_eq!(resp.get("result").unwrap().as_null().is_some(), true);

    let resp = request_rpc(&h, "kill", r#"{ "pid": 42 }"#);
    assert_eq!(resp.get("result").unwrap().as_bool().unwrap(), false);
    let resp = request_rpc(&h, "rename", r#"{ "pid": 42, "name": "x" }"#);
    assert_eq!(resp.get("result").unwrap().as_bool().unwrap(), false);
}

#[test]
fn rpc_count_tracks_player() {
    let h = Shared::new();
    assert_eq!(count(&h), 0);

    let _ = request_rpc(&h, "spawn", r#"{ "code": "await recv();" }"#);
    assert_eq!(count(&h), 1);

    let _ = request_rpc(&h, "spawn", r#"{ "code": "await recv();" }"#);
    assert_eq!(count(&h), 2);
}

#[test]
fn rpc_method_not_found_returns_32601() {
    let h = Shared::new();
    let resp = request_rpc(&h, "bogusMethod", "{}");
    let err = resp.get("error").unwrap();
    assert_eq!(err.get("code").unwrap().as_i64().unwrap(), -32601);
}

#[test]
fn rpc_malformed_json_returns_parse_error() {
    let h = Shared::new();
    let resp = request_raw(&h, "this is not json\n").unwrap();
    let v = serde_json::from_str::<serde_json::Value>(&resp).unwrap();
    let err = v.get("error").unwrap();
    assert_eq!(err.get("code").unwrap().as_i64().unwrap(), -32700);
}

#[test]
fn rpc_missing_required_param_is_invalid_params() {
    let h = Shared::new();
    let resp = request_rpc(&h, "spawn", r#"{ "name": "x" }"#);
    let err = resp.get("error").unwrap();
    assert_eq!(err.get("code").unwrap().as_i64().unwrap(), -32602);
}

#[test]
fn rpc_notification_gets_no_response() {
    let h = Shared::new();
    let resp = request_raw(&h, "{\"jsonrpc\":\"2.0\",\"method\":\"count\"}\n");
    assert!(resp.is_none(), "notification must not produce a response");
}

#[test]
fn rpc_shutdown_stops_the_server() {
    let h = Shared::new();
    assert_eq!(rpc::serve_step(h.lock().shutdown, 0), ServeStep::Accept);
    let resp = request_rpc(&h, "shutdown", "{}");
    assert_eq!(resp.get("result").unwrap().as_bool().unwrap(), true);

    // No connection is accepted any more, and the runtime stops waiting.
    assert_eq!(rpc::serve_step(h.lock().shutdown, 0), ServeStep::Stop);
    let state = h.lock();
    assert!(!runtime::keep_waiting(&state.world, state.shutdown, true));
    drop(state);
    h.stop();
}

#[test]
fn rpc_spawn_of_bad_source_is_an_error() {
    let h = Shared::new();
    let resp = request_rpc(&h, "spawn", r#"{ "code": "let let = (;" }"#);
    let err = resp.get("error").unwrap();
    assert_eq!(err.get("code").unwrap().as_i64().unwrap(), -32000);
    assert!(err.get("message").unwrap().as_str().unwrap().contains("SyntaxError"));
    assert_eq!(count(&h), 0);
    assert_eq!(h.lock().world.next_pid(), 1);
}

#[test]
fn overlapping_suspensions_are_type_errors() {
    let shared = Shared::new();
    shared
        .spawn(
            "overlap.js",
            r#"
            const pending = recv(30);
            try {
                sleep(10);
                throw new Error("sleep should have thrown");
            } catch (e) {
                if (!(e instanceof TypeError)) throw e;
                if (e.message !== "cannot call sleep() while a recv() is pending") throw e;
            }
            try { await pending; } catch (e) {
                if (e.name !== "TimeoutError") throw e;
            }
            const nap = sleep(5);
            try {
                recv();
                throw new Error("recv should have thrown");
            } catch (e) {
                if (e.message !== "cannot call recv() while a sleep() is pending") throw e;
            }
            await nap;
            "#,
            Sandbox::privileged(),
        )
        .unwrap();
    complete(&shared, 10);
}

#[test]
fn values_without_json_are_not_sent() {
    let shared = Shared::new();
    shared
        .spawn(
            "unsendable.js",
            r#"
            for (const v of [undefined, () => 1, Symbol("s")]) {
                let refused = false;
                try { send(self(), v); } catch (e) {
                    refused = e instanceof TypeError
                        && e.message === "value is not message-serializable";
                }
                if (!refused) throw new Error("sent: " + String(v));
            }
            send(self(), null);
            if (await recv() !== null) throw new Error("null is a message");
            send(self(), { a: [1, "x"] });
            if ((await recv()).a[1] !== "x") throw new Error("structure lost");
            "#,
            Sandbox::privileged(),
        )
        .unwrap();
    complete(&shared, 10);
}

#[test]
fn bad_timeouts_expire_at_once() {
    let shared = Shared::new();
    shared
        .spawn(
            "edge.js",
            r#"
            for (const ms of [0, -5, NaN, Infinity]) {
                let name = "";
                try { await recv(ms); } catch (e) { name = e.name; }
                if (name !== "TimeoutError") throw new Error("no timeout for " + ms);
            }
            "#,
            Sandbox::privileged(),
        )
        .unwrap();
    complete(&shared, 10);
}

#[test]
fn bad_child_source_is_a_type_error() {
    let shared = Shared::new();
    shared
        .spawn(
            "parent.js",
            r#"
            let name = "";
            try { spawn("let let = (;"); } catch (e) { name = e.name; }
            if (name !== "TypeError") throw new Error("unexpected: " + name);
            if (processCount() !== 1) throw new Error("a trace was left");
            "#,
            Sandbox::privileged(),
        )
        .unwrap();
    complete(&shared, 10);
}

#[test]
fn a_token_travels_a_ring_of_processes() {
    let shared = Shared::new();
    shared
        .spawn(
            "ring.js",
            r#"
            let next = self();
            for (let i = 0; i < 200; i++) {
                next = spawn(`send(${next}, (await recv()) + 1);`);
            }
            send(next, 0);
            if (await recv() !== 200) throw new Error("the token was lost");
            "#,
            Sandbox::privileged(),
        )
        .unwrap();
    complete(&shared, 15);
}
