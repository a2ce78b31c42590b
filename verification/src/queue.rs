//! The run queue: an unbounded channel of which the world holds both ends.

use crossbeam_channel::{Receiver, Sender};
use vstd::prelude::*;

use crate::process::Pid;

verus! {

/// An entry of the run queue.
#[derive(Clone, Copy, Debug, PartialEq, Eq, Structural)]
pub enum RunItem {
    /// A process that wants a slice.
    Process(Pid),
    /// Tells one worker to stop.
    Stop,
}

/// `crossbeam_channel::Sender`, the sending half of a channel.
#[verifier::external_type_specification]
#[verifier::external_body]
#[verifier::reject_recursive_types(T)]
pub struct ExSender<T>(crossbeam_channel::Sender<T>);

/// `crossbeam_channel::Receiver`, the receiving half of a channel.
#[verifier::external_type_specification]
#[verifier::external_body]
#[verifier::reject_recursive_types(T)]
pub struct ExReceiver<T>(crossbeam_channel::Receiver<T>);

/// The messages that are buffered in the channel of `rx`, oldest first.
pub uninterp spec fn channel_items(rx: Receiver<RunItem>) -> Seq<RunItem>;

/// Whether `tx` and `rx` are the two halves of one unbounded channel.
pub uninterp spec fn channel_joined(tx: Sender<RunItem>, rx: Receiver<RunItem>) -> bool;

/// `crossbeam_channel::unbounded`: the two halves of a new channel, which
/// holds no message.
#[verifier::external_body]
fn channel_open() -> (r: (Sender<RunItem>, Receiver<RunItem>))
    ensures
        channel_joined(r.0, r.1),
        channel_items(r.1) == Seq::<RunItem>::empty(),
{
    crossbeam_channel::unbounded()
}

/// `Sender::send` on an unbounded channel whose receiver is alive: the message
/// is buffered behind all others. The receiver is borrowed mutably since the
/// content of its channel changes.
#[verifier::external_body]
fn channel_send(tx: &Sender<RunItem>, rx: &mut Receiver<RunItem>, item: RunItem)
    requires
        channel_joined(*tx, *old(rx)),
    ensures
        channel_joined(*tx, *final(rx)),
        channel_items(*final(rx)) == channel_items(*old(rx)).push(item),
{
    let _ = tx.send(item);
}

/// `Receiver::try_recv` on an unbounded channel that no other thread uses
/// meanwhile: the oldest message is taken out and returned, and nothing is
/// returned exactly if there is none.
#[verifier::external_body]
fn channel_try_recv(tx: &Sender<RunItem>, rx: &mut Receiver<RunItem>) -> (r: Option<RunItem>)
    requires
        channel_joined(*tx, *old(rx)),
    ensures
        channel_joined(*tx, *final(rx)),
        match r {
            Some(item) => {
                &&& channel_items(*old(rx)).len() > 0
                &&& item == channel_items(*old(rx))[0]
                &&& channel_items(*final(rx)) == channel_items(*old(rx)).drop_first()
            },
            None => {
                &&& channel_items(*old(rx)).len() == 0
                &&& channel_items(*final(rx)) == channel_items(*old(rx))
            },
        },
{
    rx.try_recv().ok()
}

/// The run queue. Its view is the sequence of entries, next one first.
pub struct RunQueue {
    tx: Sender<RunItem>,
    rx: Receiver<RunItem>,
}

impl View for RunQueue {
    type V = Seq<RunItem>;

    closed spec fn view(&self) -> Seq<RunItem> {
        channel_items(self.rx)
    }
}

impl RunQueue {
    /// The two ends belong to one channel.
    pub closed spec fn wf(self) -> bool {
        channel_joined(self.tx, self.rx)
    }

    /// An empty queue.
    pub fn new() -> (r: RunQueue)
        ensures
            r.wf(),
            r@ == Seq::<RunItem>::empty(),
    {
        let (tx, rx) = channel_open();
        RunQueue { tx, rx }
    }

    /// Adds an entry at the back.
    pub fn push(&mut self, item: RunItem)
        requires
            old(self).wf(),
        ensures
            final(self).wf(),
            final(self)@ == old(self)@.push(item),
    {
        channel_send(&self.tx, &mut self.rx, item);
    }

    /// Takes the entry at the front.
    pub fn pop(&mut self) -> (r: Option<RunItem>)
        requires
            old(self).wf(),
        ensures
            final(self).wf(),
            match r {
                Some(item) => {
                    &&& old(self)@.len() > 0
                    &&& item == old(self)@[0]
                    &&& final(self)@ == old(self)@.drop_first()
                },
                None => old(self)@.len() == 0 && final(self)@ == old(self)@,
            },
    {
        channel_try_recv(&self.tx, &mut self.rx)
    }
}

} // verus!
