//! The outbound queue: what is published to it, and a queue that lives in
//! memory.

use crate::parsers::{message_line, EmailMessage, EmailMessageView};
use vstd::prelude::*;
use vstd::string::*;

verus! {

/// What is handed to the queue: exactly one message.
#[derive(Debug, PartialEq, Eq)]
pub struct QueueMessage {
    pub email_message: EmailMessage,
}

/// What a `QueueMessage` holds.
pub ghost struct QueueMessageView {
    pub email_message: EmailMessageView,
}

impl View for QueueMessage {
    type V = QueueMessageView;

    open spec fn view(&self) -> QueueMessageView {
        QueueMessageView { email_message: self.email_message@ }
    }
}

impl Clone for QueueMessage {
    fn clone(&self) -> (r: Self)
        ensures
            r@ == self@,
    {
        QueueMessage { email_message: self.email_message.clone() }
    }
}

impl QueueMessage {
    /// The message as a log line.
    pub fn describe(&self) -> (r: String)
        ensures
            r@ == "(email_message: "@ + message_line(self@.email_message) + ")"@,
    {
        let mut r = "(email_message: ".to_owned();
        r.append(self.email_message.describe().as_str());
        r.append(")");
        r
    }
}

/// What each message of a list holds.
pub open spec fn message_views(v: Seq<QueueMessage>) -> Seq<QueueMessageView> {
    v.map_values(|m: QueueMessage| m@)
}

/// Why a queue did not take a message.
#[derive(Clone, Copy, Debug, PartialEq, Eq, Structural)]
pub enum QueueError {
    /// The queue could not be reached or refused the message.
    Unavailable,
    /// The queue holds as much as it can.
    Full,
}

/// The topic that every message is published to.
pub fn topic() -> (r: &'static str)
    ensures
        r@ == "emails"@,
{
    "emails"
}

/// An outbound queue. Publishing is all it does: it takes the message or
/// it fails, and nobody asks again.
pub trait Queue {
    /// Publishes one message.
    fn publish_message(&mut self, message: QueueMessage) -> Result<(), QueueError>;
}

/// A queue together with two records: of what was handed to it, and of
/// what it took.
///
/// Whatever the queue behind it is, the first record holds every message
/// that was handed to it through `publish`, oldest first, and the second
/// those among them that it took.
pub struct Outbox<Q: Queue> {
    queue: Q,
    offered: Ghost<Seq<QueueMessageView>>,
    taken: Ghost<Seq<QueueMessageView>>,
}

impl<Q: Queue> Outbox<Q> {
    /// The messages that were handed to the queue, oldest first, whether it
    /// took them or not.
    pub closed spec fn offered(&self) -> Seq<QueueMessageView> {
        self.offered@
    }

    /// The messages that the queue took, oldest first.
    pub closed spec fn taken(&self) -> Seq<QueueMessageView> {
        self.taken@
    }

    /// The queue behind the outbox.
    pub closed spec fn queue(&self) -> Q {
        self.queue
    }

    /// An outbox in front of `queue`, with empty records.
    pub fn new(queue: Q) -> (r: Self)
        ensures
            r.offered() == Seq::<QueueMessageView>::empty(),
            r.taken() == Seq::<QueueMessageView>::empty(),
            r.queue() == queue,
    {
        Outbox { queue, offered: Ghost(Seq::empty()), taken: Ghost(Seq::empty()) }
    }

    /// Hands one message to the queue, once, and returns what the queue
    /// answers.
    ///
    /// The message is the newest entry of the record of what was handed
    /// over, whatever the answer. Where the queue takes it, it is also the
    /// newest entry of the record of what was taken; where not, that record
    /// is as it was.
    pub fn publish(&mut self, message: QueueMessage) -> (r: Result<(), QueueError>)
        ensures
            final(self).offered() == old(self).offered().push(message@),
            r is Ok ==> final(self).taken() == old(self).taken().push(message@),
            r is Err ==> final(self).taken() == old(self).taken(),
    {
        let ghost view = message@;
        let r = self.queue.publish_message(message);
        proof {
            self.offered@ = self.offered@.push(view);
            if r is Ok {
                self.taken@ = self.taken@.push(view);
            }
        }
        r
    }

    /// The queue behind the outbox.
    pub fn get_ref(&self) -> (r: &Q)
        ensures
            *r == self.queue(),
    {
        &self.queue
    }

    /// Gives the queue back and drops the records.
    pub fn into_inner(self) -> (r: Q)
        ensures
            r == self.queue(),
    {
        self.queue
    }
}

/// A queue that lives in memory and keeps what it took, up to a limit.
pub struct MemoryQueue {
    pub messages: Vec<QueueMessage>,
    pub limit: usize,
}

impl MemoryQueue {
    /// The messages that the queue took, oldest first.
    pub open spec fn published(&self) -> Seq<QueueMessageView> {
        message_views(self.messages@)
    }

    /// A queue that takes any number of messages.
    pub fn new() -> (r: MemoryQueue)
        ensures
            r.messages@.len() == 0,
            r.published() == Seq::<QueueMessageView>::empty(),
            r.limit == usize::MAX,
    {
        let r = MemoryQueue { messages: Vec::new(), limit: usize::MAX };
        assert(message_views(r.messages@) =~= Seq::empty());
        r
    }

    /// A queue that takes messages as long as it holds fewer than `limit`,
    /// and refuses the rest.
    pub fn with_limit(limit: usize) -> (r: MemoryQueue)
        ensures
            r.messages@.len() == 0,
            r.published() == Seq::<QueueMessageView>::empty(),
            r.limit == limit,
    {
        let r = MemoryQueue { messages: Vec::new(), limit };
        assert(message_views(r.messages@) =~= Seq::empty());
        r
    }
}

impl Queue for MemoryQueue {
    /// Takes the message unless the limit is reached, and then fails with
    /// `Full`.
    fn publish_message(&mut self, message: QueueMessage) -> (r: Result<(), QueueError>)
        ensures
            final(self).limit == old(self).limit,
            r is Ok <==> old(self).messages@.len() < old(self).limit,
            r is Ok ==> final(self).messages@ == old(self).messages@.push(message),
            r is Ok ==> final(self).published() == old(self).published().push(message@),
            r matches Err(e) ==> e == QueueError::Full && final(self).messages@ == old(
                self,
            ).messages@,
    {
        if self.messages.len() >= self.limit {
            return Err(QueueError::Full);
        }
        let ghost before = message_views(self.messages@);
        self.messages.push(message);
        assert(message_views(self.messages@) =~= before.push(message@));
        Ok(())
    }
}

} // verus!
