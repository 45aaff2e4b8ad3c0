//! The command channel: an unbounded first-in, first-out queue of command
//! events between the capture side and the automation side.

use std::collections::VecDeque;
use vstd::prelude::*;
use crate::command::AppCommand;

verus! {

/// The queue after `events` were sent one after another onto `pending`.
pub open spec fn after_sends(pending: Seq<AppCommand>, events: Seq<AppCommand>) -> Seq<AppCommand>
    decreases events.len(),
{
    if events.len() == 0 {
        pending
    } else {
        after_sends(pending.push(events[0]), events.drop_first())
    }
}

/// Events sent one after another stand behind what was pending, in the order
/// in which they were sent: none is lost, none moves, none doubles.
pub proof fn law_sends_keep_order(pending: Seq<AppCommand>, events: Seq<AppCommand>)
    ensures
        after_sends(pending, events) == pending + events,
    decreases events.len(),
{
    if events.len() == 0 {
        assert(pending + events =~= pending);
    } else {
        law_sends_keep_order(pending.push(events[0]), events.drop_first());
        assert(pending.push(events[0]) + events.drop_first() =~= pending + events);
    }
}

/// Events sent onto an empty channel are exactly what the next drain hands
/// over.
pub proof fn law_drain_sees_every_send(events: Seq<AppCommand>)
    ensures
        after_sends(Seq::<AppCommand>::empty(), events) == events,
{
    law_sends_keep_order(Seq::<AppCommand>::empty(), events);
    assert(Seq::<AppCommand>::empty() + events =~= events);
}

/// An unbounded queue of command events. Its view is the pending events,
/// oldest first.
pub struct CommandChannel {
    queue: VecDeque<AppCommand>,
}

impl View for CommandChannel {
    type V = Seq<AppCommand>;

    closed spec fn view(&self) -> Seq<AppCommand> {
        self.queue@
    }
}

impl CommandChannel {
    /// A channel with nothing pending.
    pub fn new() -> (r: Self)
        ensures
            r@ == Seq::<AppCommand>::empty(),
    {
        CommandChannel { queue: VecDeque::new() }
    }

    /// Puts `event` behind everything that is pending. Never waits.
    pub fn send(&mut self, event: AppCommand)
        ensures
            final(self)@ == old(self)@.push(event),
    {
        self.queue.push_back(event);
    }

    /// Takes the oldest pending event, if there is one. Never waits.
    pub fn try_receive(&mut self) -> (r: Option<AppCommand>)
        ensures
            old(self)@.len() == 0 ==> r == None::<AppCommand> && final(self)@ == old(self)@,
            old(self)@.len() > 0 ==> r == Some(old(self)@[0]) && final(self)@ == old(
                self,
            )@.drop_first(),
    {
        self.queue.pop_front()
    }

    /// How many events are pending.
    pub fn pending(&self) -> (r: usize)
        ensures
            r == self@.len(),
    {
        self.queue.len()
    }

    /// Takes everything that is pending, oldest first, and leaves the channel
    /// empty.
    pub fn drain(&mut self) -> (r: Vec<AppCommand>)
        ensures
            r@ == old(self)@,
            final(self)@ == Seq::<AppCommand>::empty(),
    {
        let mut taken: Vec<AppCommand> = Vec::new();
        loop
            invariant
                taken@ + self@ == old(self)@,
            decreases self@.len(),
        {
            let ghost before = self@;
            match self.try_receive() {
                Some(event) => {
                    taken.push(event);
                    assert(taken@ + self@ =~= old(self)@) by {
                        assert(before =~= seq![before[0]] + before.drop_first());
                    }
                },
                None => {
                    assert(taken@ + self@ =~= taken@);
                    assert(self@ =~= Seq::<AppCommand>::empty());
                    return taken;
                },
            }
        }
    }
}

} // verus!
