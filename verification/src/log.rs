//! The conversation transcript: an append-only ordered sequence of
//! role-tagged messages.  Entries are never renumbered or rewritten;
//! the session loop owns the log and every component appends through it.

use vstd::prelude::*;

verus! {

/// Who authored a transcript entry.
#[derive(Clone, Copy, PartialEq, Eq, Structural, Debug)]
pub enum Role {
    System,
    User,
    Assistant,
}

/// One transcript entry: a role tag and its text, immutable once
/// appended.
#[derive(Debug)]
pub struct Message {
    pub role: Role,
    pub content: String,
}

/// Mathematical image of a message.
pub struct SpecMessage {
    pub role: Role,
    pub content: Seq<char>,
}

impl View for Message {
    type V = SpecMessage;

    open spec fn view(&self) -> SpecMessage {
        SpecMessage { role: self.role, content: self.content@ }
    }
}

/// Shorthand for the image of an entry with the given role and text.
pub open spec fn spec_msg(role: Role, content: Seq<char>) -> SpecMessage {
    SpecMessage { role, content }
}

/// The append-only transcript.  The only mutation it offers is `append`.
pub struct ConversationLog {
    messages: Vec<Message>,
}

impl View for ConversationLog {
    type V = Seq<SpecMessage>;

    closed spec fn view(&self) -> Seq<SpecMessage> {
        Seq::new(self.messages@.len(), |i: int| self.messages@[i]@)
    }
}

impl ConversationLog {
    /// The empty transcript.
    pub fn new() -> (r: ConversationLog)
        ensures
            r@ == Seq::<SpecMessage>::empty(),
    {
        let r = ConversationLog { messages: Vec::new() };
        proof {
            assert(r@ =~= Seq::<SpecMessage>::empty());
        }
        r
    }

    /// Appends one entry at the end; every earlier entry keeps its place.
    pub fn append(&mut self, m: Message)
        ensures
            final(self)@ == old(self)@.push(m@),
    {
        let ghost mv = m@;
        self.messages.push(m);
        proof {
            assert(self@ =~= old(self)@.push(mv));
        }
    }

    /// Number of entries appended so far.
    pub fn len(&self) -> (r: usize)
        ensures
            r == self@.len(),
    {
        self.messages.len()
    }

    /// The entry at position `i`, in insertion order.
    pub fn get(&self, i: usize) -> (r: &Message)
        requires
            i < self@.len(),
        ensures
            r@ == self@[i as int],
    {
        &self.messages[i]
    }
}

/// The transcript that results from appending a batch of messages one by
/// one, in order.
pub open spec fn spec_append_all(log: Seq<SpecMessage>, msgs: Seq<SpecMessage>) -> Seq<SpecMessage>
    decreases msgs.len(),
{
    if msgs.len() == 0 {
        log
    } else {
        spec_append_all(log.push(msgs[0]), msgs.drop_first())
    }
}

/// Round trip: appending messages one by one and reading the log back
/// preserves every earlier entry, and the new entries' roles, contents
/// and order, exactly — append-only, no renumbering.
pub proof fn lemma_log_round_trip(log: Seq<SpecMessage>, msgs: Seq<SpecMessage>)
    ensures
        spec_append_all(log, msgs) == log + msgs,
        spec_append_all(log, msgs).len() == log.len() + msgs.len(),
        forall|i: int| 0 <= i < log.len() ==> spec_append_all(log, msgs)[i] == log[i],
        forall|i: int|
            0 <= i < msgs.len() ==> spec_append_all(log, msgs)[log.len() + i] == msgs[i],
    decreases msgs.len(),
{
    if msgs.len() == 0 {
        assert(log + msgs =~= log);
    } else {
        lemma_log_round_trip(log.push(msgs[0]), msgs.drop_first());
        assert(log.push(msgs[0]) + msgs.drop_first() =~= log + msgs);
    }
}

} // verus!
