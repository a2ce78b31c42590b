# otter

A BEAM-like JavaScript runtime on QuickJS, with a verified core.

Many isolated script **processes** share a small, fixed pool of workers. Each
process has an engine of its own and a mailbox; processes communicate only by
messages. A worker executes one job of a process per slice, and then puts it
back on the run queue, parks it, or finishes it.

## Layout

- `src/` is the library: what the runtime decides. Each function states what it
  does in a contract that Verus proves.
  - `process`: pids, sandboxes, statuses, process records, and texts.
  - `queue`: the run queue.
  - `world`: the process table, the run queue and the counters.
  - `model`: the state of the runtime as mathematics, what always holds of it,
    and the steps that it takes.
  - `scheduler`: spawning, slices, messages, kills, listings, and timers.
  - `host`: what scripts ask for: `recv`, `sleep`, `yieldNow`, `spawn`,
    `killProcess`, `restrictSandbox`.
  - `script`: the calls into the script engine.
  - `engine`: values of the script engine: what is sent, printed, reported and
    raised, how an entry script is started, and how a suspended script is woken.
  - `json`, `rpc`: the control protocol, JSON-RPC 2.0 with one request per line.
  - `runtime`: how long the program runs and how it exits.
  - `trace`, `laws`: what can happen, and what holds whatever happens.
  - `text`: numerals and white space.
- `app/` is the program: the command line, threads, sockets, the clock, and the
  engines that execute the scripts.
- `tests/` runs the library, with real engines where scripts are concerned.

## How the parts meet

The program keeps one `World` behind a lock. A worker calls `worker_step`, which
hands out a process and says how its slice begins; `engine::wake` wakes the
script, `complete_wake` records how that went, `take_job` grants the one job
that the slice may execute, and `end_slice` says where the process goes. Until
`complete_wake` is called, the process is owed its wake: it gets no job, and its
slice cannot end. Script functions and control clients call into the library
under the same lock. A worker that finds nothing to do calls `fire_timers`.

Times are nanoseconds since the start of the runtime.

## What is trusted

Calls into `crossbeam_channel`, `serde_json` and `rquickjs`, and `str::trim`,
stand behind small functions whose contracts are believed, each with a comment
that says what is claimed.
