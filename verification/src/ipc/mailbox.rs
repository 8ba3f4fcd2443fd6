//! The mailbox of a process.

use crate::ipc::{Message, MessageView};
use std::collections::VecDeque;
use vstd::prelude::*;

verus! {

/// The messages that wait for a process, oldest first.
#[derive(Debug)]
pub struct Mailbox {
    buffer: VecDeque<Message>,
}

impl View for Mailbox {
    type V = Seq<MessageView>;

    /// The waiting messages, oldest first.
    closed spec fn view(&self) -> Seq<MessageView> {
        self.buffer@.map_values(|message: Message| message@)
    }
}

impl Default for Mailbox {
    /// An empty mailbox.
    fn default() -> (mailbox: Mailbox)
        ensures
            mailbox@ == Seq::<MessageView>::empty(),
    {
        let mailbox = Mailbox { buffer: VecDeque::new() };
        assert(mailbox@ =~= Seq::<MessageView>::empty());
        mailbox
    }
}

impl Mailbox {
    /// Puts a message behind those that wait already.
    pub fn send(&mut self, message: Message)
        ensures
            final(self)@ == old(self)@.push(message@),
    {
        self.buffer.push_back(message);
        assert(self@ =~= old(self)@.push(message@));
    }

    /// Takes the oldest message out, if any message waits.
    pub fn receive(&mut self) -> (message: Option<Message>)
        ensures
            old(self)@.len() == 0 ==> message is None && final(self)@ == old(self)@,
            old(self)@.len() > 0 ==> (message matches Some(oldest) && oldest@ == old(self)@[0]
                && final(self)@ == old(self)@.drop_first()),
    {
        let message = self.buffer.pop_front();
        assert(message is Some ==> self@ =~= old(self)@.drop_first());
        message
    }

    /// Returns the number of messages that wait.
    pub fn len(&self) -> (count: usize)
        ensures
            count == self@.len(),
    {
        self.buffer.len()
    }
}

} // verus!
