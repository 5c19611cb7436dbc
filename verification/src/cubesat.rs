//! Ground station to satellite messaging through a shared mailbox.

use vstd::prelude::*;

verus! {

/// Status of a satellite.
#[derive(Debug, PartialEq, Eq, Structural, Copy, Clone)]
pub enum Status {
    /// All is well.
    Nominal,
}

/// A message addressed to one satellite.
pub struct Message {
    /// Satellite identifier of the recipient.
    pub to: u64,
    pub content: String,
}

/// A mailbox: the messages posted and not yet delivered, in posting order.
pub struct Mailbox {
    pub messages: Vec<Message>,
}

impl Mailbox {
    /// Posts a message at the back of the mailbox.
    pub fn post(&mut self, msg: Message)
        ensures
            final(self).messages@ == old(self).messages@.push(msg),
    {
        self.messages.push(msg);
    }

    /// Delivers the oldest message addressed to `recipient`, removing it
    /// from the mailbox; `None` — and no change — when no message is
    /// addressed to it.
    pub fn deliver(&mut self, recipient: &CubeSat) -> (r: Option<Message>)
        ensures
            r is None ==> final(self).messages@ == old(self).messages@ && forall|j: int|
                0 <= j < old(self).messages@.len() ==> old(self).messages@[j].to
                    != recipient.id,
            r matches Some(m) ==> exists|k: int|
                {
                    &&& 0 <= k < old(self).messages@.len()
                    &&& old(self).messages@[k].to == recipient.id
                    &&& forall|j: int| 0 <= j < k ==> old(self).messages@[j].to != recipient.id
                    &&& m == old(self).messages@[k]
                    &&& final(self).messages@ == old(self).messages@.remove(k)
                },
    {
        let mut i: usize = 0;
        while i < self.messages.len()
            invariant
                i <= self.messages@.len(),
                self.messages@ == old(self).messages@,
                forall|j: int| 0 <= j < i ==> self.messages@[j].to != recipient.id,
            decreases self.messages@.len() - i,
        {
            if self.messages[i].to == recipient.id {
                let msg = self.messages.remove(i);
                return Some(msg);
            }
            i = i + 1;
        }
        None
    }
}

/// A satellite, identified by a number.
#[derive(Copy, Clone, Debug)]
pub struct CubeSat {
    pub id: u64,
}

/// Checks a satellite over; everything is always fine.
pub fn check(_sat: &CubeSat) -> (s: Status)
    ensures
        s == Status::Nominal,
{
    Status::Nominal
}

impl CubeSat {
    /// Receives this satellite's oldest message from the mailbox, if any.
    pub fn recv(&mut self, mailbox: &mut Mailbox) -> (r: Option<Message>)
        ensures
            *final(self) == *old(self),
            r is None ==> final(mailbox).messages@ == old(mailbox).messages@ && forall|j: int|
                0 <= j < old(mailbox).messages@.len() ==> old(mailbox).messages@[j].to
                    != old(self).id,
            r matches Some(m) ==> exists|k: int|
                {
                    &&& 0 <= k < old(mailbox).messages@.len()
                    &&& old(mailbox).messages@[k].to == old(self).id
                    &&& forall|j: int|
                        0 <= j < k ==> old(mailbox).messages@[j].to != old(self).id
                    &&& m == old(mailbox).messages@[k]
                    &&& final(mailbox).messages@ == old(mailbox).messages@.remove(k)
                },
    {
        mailbox.deliver(&*self)
    }
}

/// A ground station communicating with satellites.
pub struct GroundStation;

impl GroundStation {
    /// Sends `msg` to satellite `to` by posting it into the mailbox.
    pub fn send(&self, mailbox: &mut Mailbox, to: &CubeSat, msg: String)
        ensures
            final(mailbox).messages@.len() == old(mailbox).messages@.len() + 1,
            final(mailbox).messages@.last().to == to.id,
            final(mailbox).messages@.last().content == msg,
            forall|j: int|
                0 <= j < old(mailbox).messages@.len() ==> final(mailbox).messages@[j] == old(
                    mailbox,
                ).messages@[j],
    {
        let msg = Message { to: to.id, content: msg };
        mailbox.post(msg);
    }

    /// Opens a connection to the satellite with the given identifier.
    pub fn connect(&self, sat_id: u64) -> (sat: CubeSat)
        ensures
            sat.id == sat_id,
    {
        CubeSat { id: sat_id }
    }
}

} // verus!
