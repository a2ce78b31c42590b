//! The state that all workers and all scripts share.

use std::collections::BTreeMap;
use vstd::prelude::*;

use crate::model::{lemma_empty_wf, WorldView};
use crate::process::{Pid, ProcShared};
use crate::queue::{RunItem, RunQueue};

verus! {

/// Everything that workers and scripts share.
pub struct World {
    queue: RunQueue,
    processes: BTreeMap<Pid, ProcShared>,
    next_pid: u64,
    active: u64,
    failed: u64,
}

impl View for World {
    type V = WorldView;

    closed spec fn view(&self) -> WorldView {
        WorldView {
            processes: self.processes@.map_values(|p: ProcShared| p@),
            queue: self.queue@,
            next_pid: self.next_pid as nat,
            active: self.active as nat,
            failed: self.failed as nat,
        }
    }
}

impl World {
    /// The queue is sound, and every record stands under its own pid.
    pub closed spec fn consistent(self) -> bool {
        &&& self.queue.wf()
        &&& forall|pid: Pid| #[trigger]
            self.processes@.contains_key(pid) ==> self.processes@[pid].pid == pid
    }

    /// What holds between any two calls into the library.
    pub open spec fn wf(self) -> bool {
        self.consistent() && self@.wf()
    }

    /// A world without processes.
    pub fn new() -> (r: World)
        ensures
            r.wf(),
            r@ == WorldView::empty(),
    {
        let r = World {
            queue: RunQueue::new(),
            processes: BTreeMap::new(),
            next_pid: 0,
            active: 0,
            failed: 0,
        };
        proof {
            assert(r@ =~= WorldView::empty());
            lemma_empty_wf();
        }
        r
    }

    /// How many processes have been started and have not finished.
    pub fn active(&self) -> (r: u64)
        ensures
            r == self@.active,
    {
        self.active
    }

    /// How many processes have failed.
    pub fn failed(&self) -> (r: u64)
        ensures
            r == self@.failed,
    {
        self.failed
    }

    /// The pid that the next process gets.
    pub fn next_pid(&self) -> (r: u64)
        ensures
            r == self@.next_pid,
    {
        self.next_pid
    }

    /// The number of live processes.
    pub(crate) fn process_count(&self) -> (r: usize)
        ensures
            r == self@.processes.dom().len(),
    {
        proof {
            assert(self@.processes.dom() =~= self.processes@.dom());
        }
        self.processes.len()
    }

    /// The record of a live process.
    pub(crate) fn record(&self, pid: Pid) -> (r: Option<&ProcShared>)
        requires
            self.consistent(),
        ensures
            match r {
                Some(p) => self@.alive(pid) && p.pid == pid && p@ == self@.processes[pid],
                None => !self@.alive(pid),
            },
    {
        self.processes.get(&pid)
    }

    /// Takes the record of a live process out of the table.
    pub(crate) fn take(&mut self, pid: Pid) -> (r: ProcShared)
        requires
            old(self).consistent(),
            old(self)@.alive(pid),
        ensures
            final(self).consistent(),
            r.pid == pid,
            r@ == old(self)@.processes[pid],
            final(self)@ == old(self)@.without(pid),
    {
        let r = self.processes.remove(&pid);
        proof {
            assert(self@ =~= old(self)@.without(pid));
        }
        r.unwrap()
    }

    /// Puts a record into the table.
    pub(crate) fn put(&mut self, p: ProcShared)
        requires
            old(self).consistent(),
        ensures
            final(self).consistent(),
            final(self)@ == old(self)@.with(p.pid, p@),
    {
        let ghost record = p;
        let pid = p.pid;
        self.processes.insert(pid, p);
        proof {
            assert(self@ =~= old(self)@.with(record.pid, record@));
        }
    }

    /// Adds an entry to the run queue.
    pub(crate) fn push(&mut self, item: RunItem)
        requires
            old(self).consistent(),
        ensures
            final(self).consistent(),
            final(self)@ == (WorldView { queue: old(self)@.queue.push(item), ..old(self)@ }),
    {
        self.queue.push(item);
    }

    /// Takes the front of the run queue.
    pub(crate) fn pop(&mut self) -> (r: Option<RunItem>)
        requires
            old(self).consistent(),
        ensures
            final(self).consistent(),
            match r {
                Some(item) => {
                    &&& old(self)@.queue.len() > 0
                    &&& item == old(self)@.queue[0]
                    &&& final(self)@ == (WorldView {
                        queue: old(self)@.queue.drop_first(),
                        ..old(self)@
                    })
                },
                None => old(self)@.queue.len() == 0 && final(self)@ == old(self)@,
            },
    {
        self.queue.pop()
    }

    /// Hands out a pid.
    pub(crate) fn allocate(&mut self) -> (r: Pid)
        requires
            old(self).consistent(),
            old(self)@.next_pid < u64::MAX,
        ensures
            final(self).consistent(),
            r == old(self)@.next_pid,
            final(self)@ == (WorldView { next_pid: old(self)@.next_pid + 1, ..old(self)@ }),
    {
        let pid = self.next_pid;
        self.next_pid = self.next_pid + 1;
        pid
    }

    /// Counts one more started process.
    pub(crate) fn count_started(&mut self)
        requires
            old(self).consistent(),
            old(self)@.active < u64::MAX,
        ensures
            final(self).consistent(),
            final(self)@ == (WorldView { active: old(self)@.active + 1, ..old(self)@ }),
    {
        self.active = self.active + 1;
    }

    /// Counts one started process less, and one more failure if it failed.
    pub(crate) fn count_finished(&mut self, failed: bool)
        requires
            old(self).consistent(),
            old(self)@.active >= 1,
            old(self)@.failed < u64::MAX,
        ensures
            final(self).consistent(),
            final(self)@ == (WorldView {
                active: (old(self)@.active - 1) as nat,
                failed: if failed {
                    old(self)@.failed + 1
                } else {
                    old(self)@.failed
                },
                ..old(self)@
            }),
    {
        self.active = self.active - 1;
        if failed {
            self.failed = self.failed + 1;
        }
    }

    /// The live processes, in increasing order of pid.
    pub(crate) fn pids(&self) -> (r: Vec<Pid>)
        requires
            self.consistent(),
        ensures
            forall|i: int, j: int| 0 <= i < j < r.len() ==> r[i] < r[j],
            forall|i: int| 0 <= i < r.len() ==> self@.alive(#[trigger] r[i]),
            forall|pid: Pid| #[trigger] self@.alive(pid) ==> r@.contains(pid),
    {
        let mut out: Vec<Pid> = Vec::new();
        let entries = self.processes.iter();
        let ghost all = vstd::std_specs::iter::IteratorSpec::remaining(&entries);
        let ghost keys = all.map_values(|kv: (&Pid, &ProcShared)| *kv.0);
        proof {
            assert forall|i: int, j: int| 0 <= i < j < keys.len() implies keys[i] < keys[j] by {
                assert(vstd::std_specs::btree::increasing_seq(keys));
                assert(vstd::std_specs::cmp::OrdSpec::cmp_spec(&keys[i], &keys[j]) is Less);
            }
        }
        for e in it: entries
            invariant
                it.seq() == all,
                out@.len() == it.index(),
                forall|i: int| 0 <= i < out.len() ==> out@[i] == *all[i].0,
        {
            out.push(*e.0);
        }
        proof {
            assert(out@ =~= keys);
            assert forall|pid: Pid| #[trigger] self@.alive(pid) implies out@.contains(pid) by {
                let i = all.index_of((&pid, &self.processes@[pid]));
                assert(out@[i] == pid);
            }
            assert forall|i: int| 0 <= i < out.len() implies self@.alive(#[trigger] out[i]) by {
                assert(self.processes@.contains_key(*all[i].0));
            }
        }
        out
    }
}

} // verus!
