//! The life of the runtime as a whole: how many workers it has, how long it
//! waits, and how it exits.

use vstd::prelude::*;

use crate::text::same_text;
use crate::world::World;

verus! {

/// The number of workers: at least one.
pub fn worker_count(requested: usize) -> (r: usize)
    ensures
        r == if requested >= 1 {
            requested
        } else {
            1
        },
{
    if requested >= 1 {
        requested
    } else {
        1
    }
}

/// Whether the runtime stays alive without processes: if it was told to, or if
/// control clients can still spawn some.
pub fn keep_alive(persistent: bool, controlled: bool) -> (r: bool)
    ensures
        r == (persistent || controlled),
{
    persistent || controlled
}

/// Whether the runtime goes on waiting: not after a shutdown, and not once
/// every process has finished, unless it is kept alive.
pub fn keep_waiting(world: &World, shutdown: bool, keep_alive: bool) -> (r: bool)
    ensures
        r == (!shutdown && (world@.active > 0 || keep_alive)),
{
    !shutdown && (world.active() > 0 || keep_alive)
}

/// The exit code: not zero exactly if some process failed.
pub fn exit_code(world: &World) -> (r: i32)
    ensures
        r == if world@.failed > 0 {
            1i32
        } else {
            0i32
        },
{
    if world.failed() > 0 {
        1
    } else {
        0
    }
}

/// Whether to note that a host was given in vain: one other than the default,
/// without a port.
pub fn host_is_idle(host: &str, port: Option<u16>) -> (r: bool)
    ensures
        r == (port is None && host@ != "127.0.0.1"@),
{
    port.is_none() && !same_text(host, "127.0.0.1")
}

} // verus!
