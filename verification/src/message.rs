use std::collections::VecDeque;
use vstd::prelude::*;
use vstd::string::*;

verus! {

/// How long a message is kept, in milliseconds of the log's clock: a
/// message that has reached this age is purged.
pub const RETENTION_MS: u64 = 2000;

/// One entry of the message log.
pub struct Message {
    pub x: i16,
    pub y: i16,
    /// The mobile the message is meant for, or the one it is kept from.
    pub uuid: Option<u128>,
    /// Whether `uuid` is the only reader, rather than the one reader left out.
    pub uuid_is_target: bool,
    pub message: String,
    /// The reading of the log's clock when the message was posted.
    pub posted_time: u64,
}

/// A message with its text as a sequence of characters.
pub struct MessageView {
    pub x: i16,
    pub y: i16,
    pub uuid: Option<u128>,
    pub uuid_is_target: bool,
    pub message: Seq<char>,
    pub posted_time: u64,
}

impl View for Message {
    type V = MessageView;

    open spec fn view(&self) -> MessageView {
        MessageView {
            x: self.x,
            y: self.y,
            uuid: self.uuid,
            uuid_is_target: self.uuid_is_target,
            message: self.message@,
            posted_time: self.posted_time,
        }
    }
}

impl MessageView {
    /// A message for everyone at a place.
    pub open spec fn public(text: Seq<char>, x: i16, y: i16, at: u64) -> MessageView {
        MessageView { x, y, uuid: None, uuid_is_target: false, message: text, posted_time: at }
    }

    /// A message for everyone at a place but its origin.
    pub open spec fn no_echo(text: Seq<char>, x: i16, y: i16, origin: u128, at: u64) -> MessageView {
        MessageView {
            x,
            y,
            uuid: Some(origin),
            uuid_is_target: false,
            message: text,
            posted_time: at,
        }
    }

    /// A message for one mobile, wherever it is.
    pub open spec fn targeted(text: Seq<char>, target: u128, at: u64) -> MessageView {
        MessageView {
            x: 0,
            y: 0,
            uuid: Some(target),
            uuid_is_target: true,
            message: text,
            posted_time: at,
        }
    }

    /// The message has reached the age at which it is purged.
    pub open spec fn expired(self, now: u64) -> bool {
        now >= self.posted_time && now - self.posted_time >= RETENTION_MS
    }

    /// The message is meant for `reader` alone.
    pub open spec fn targets(self, reader: u128) -> bool {
        self.uuid_is_target && self.uuid == Some(reader)
    }

    /// The message is heard by `reader` standing at `(x, y)`: it is meant for
    /// the reader alone, or it was posted at that place and not kept from
    /// the reader.
    pub open spec fn heard_by(self, x: i16, y: i16, reader: u128) -> bool {
        self.targets(reader) || (!self.uuid_is_target && self.x == x && self.y == y && self.uuid
            != Some(reader))
    }
}

/// The messages of a log, oldest first, and the reading of its clock.
pub struct MessageListView {
    pub messages: Seq<MessageView>,
    pub now: u64,
}

/// What is left of the messages when the expired ones at the front are gone.
pub open spec fn purged(messages: Seq<MessageView>, now: u64) -> Seq<MessageView>
    decreases messages.len(),
{
    if messages.len() > 0 && messages[0].expired(now) {
        purged(messages.drop_first(), now)
    } else {
        messages
    }
}

/// The texts, each followed by a line break, of the messages posted at or
/// after `after` that are meant for `reader` alone.
pub open spec fn targeted_text(messages: Seq<MessageView>, reader: u128, after: u64) -> Seq<char>
    decreases messages.len(),
{
    if messages.len() == 0 {
        Seq::empty()
    } else {
        let m = messages.last();
        let before = targeted_text(messages.drop_last(), reader, after);
        if m.posted_time >= after && m.targets(reader) {
            before + m.message + "\n"@
        } else {
            before
        }
    }
}

/// The texts, each followed by a line break, of the messages posted at or
/// after `after` that `reader` hears at `(x, y)`.
pub open spec fn heard_text(
    messages: Seq<MessageView>,
    x: i16,
    y: i16,
    reader: u128,
    after: u64,
) -> Seq<char>
    decreases messages.len(),
{
    if messages.len() == 0 {
        Seq::empty()
    } else {
        let m = messages.last();
        let before = heard_text(messages.drop_last(), x, y, reader, after);
        if m.posted_time >= after && m.heard_by(x, y, reader) {
            before + m.message + "\n"@
        } else {
            before
        }
    }
}

impl MessageListView {
    /// The log with one more message at its end.
    pub open spec fn with(self, message: MessageView) -> MessageListView {
        MessageListView { messages: self.messages.push(message), ..self }
    }

    /// The log without the expired messages at its front.
    pub open spec fn cleaned(self) -> MessageListView {
        MessageListView { messages: purged(self.messages, self.now), ..self }
    }

    /// The log after a message for everyone at `(x, y)` was posted and the
    /// log was cleaned.
    pub open spec fn posted_for_all(self, text: Seq<char>, x: i16, y: i16) -> MessageListView {
        self.with(MessageView::public(text, x, y, self.now)).cleaned()
    }

    /// The log after a message for everyone at `(x, y)` but `origin` was
    /// posted and the log was cleaned.
    pub open spec fn posted_no_echo(
        self,
        text: Seq<char>,
        x: i16,
        y: i16,
        origin: u128,
    ) -> MessageListView {
        self.with(MessageView::no_echo(text, x, y, origin, self.now)).cleaned()
    }

    /// The log after a message for `target` alone was posted and the log was
    /// cleaned.
    pub open spec fn posted_for_target(self, text: Seq<char>, target: u128) -> MessageListView {
        self.with(MessageView::targeted(text, target, self.now)).cleaned()
    }
}

/// The log of what happened in the world, for the clients to read.
pub struct MessageList {
    pub(crate) msg_list: VecDeque<Message>,
    pub(crate) now: u64,
}

impl View for MessageList {
    type V = MessageListView;

    open(crate) spec fn view(&self) -> MessageListView {
        MessageListView { messages: self.msg_list@.map_values(|m: Message| m@), now: self.now }
    }
}

impl MessageList {
    /// An empty log whose clock reads zero.
    pub fn new() -> (list: MessageList)
        ensures
            list@.messages == Seq::<MessageView>::empty(),
            list@.now == 0,
    {
        let list = MessageList { msg_list: VecDeque::new(), now: 0 };
        assert(list@.messages =~= Seq::<MessageView>::empty());
        list
    }

    /// The reading of the log's clock.
    pub fn now(&self) -> (now: u64)
        ensures
            now == self@.now,
    {
        self.now
    }

    /// Moves the log's clock forward to `now`. The clock never runs
    /// backwards: an earlier reading leaves it as it is.
    pub fn set_time(&mut self, now: u64)
        ensures
            final(self)@.messages == old(self)@.messages,
            final(self)@.now == if now > old(self)@.now {
                now
            } else {
                old(self)@.now
            },
    {
        if now > self.now {
            self.now = now;
        }
    }

    fn push(&mut self, message: Message)
        ensures
            final(self)@ == old(self)@.with(message@),
    {
        self.msg_list.push_back(message);
        assert(self@.messages =~= old(self)@.messages.push(message@));
    }

    /// Posts a message for everyone at `(x, y)`. The log is not cleaned.
    pub fn broadcast(&mut self, msg: String, x: i16, y: i16)
        ensures
            final(self)@ == old(self)@.with(MessageView::public(msg@, x, y, old(self)@.now)),
    {
        let global_msg = Message {
            x: x,
            y: y,
            uuid: None,
            uuid_is_target: false,
            message: msg,
            posted_time: self.now,
        };
        self.push(global_msg);
    }

    /// Purges the expired messages at the front of the log.
    pub fn cleanup_old_messages(&mut self)
        ensures
            final(self)@ == old(self)@.cleaned(),
    {
        while self.msg_list.len() > 0
            invariant
                self.now == old(self).now,
                purged(self@.messages, self.now) == purged(old(self)@.messages, self.now),
            ensures
                self.now == old(self).now,
                self@.messages == purged(old(self)@.messages, self.now),
            decreases self.msg_list.len(),
        {
            let posted = self.msg_list[0].posted_time;
            assert(self@.messages[0] == self.msg_list@[0]@);
            if self.now >= posted && self.now - posted >= RETENTION_MS {
                let ghost before = self@.messages;
                self.msg_list.pop_front();
                assert(self@.messages =~= before.drop_first());
            } else {
                break;
            }
        }
    }

    /// Posts a message for everyone at `(x, y)` and cleans the log.
    pub fn post_for_all(&mut self, msg: String, x: i16, y: i16)
        ensures
            final(self)@ == old(self)@.posted_for_all(msg@, x, y),
    {
        let global_msg = Message {
            x: x,
            y: y,
            uuid: None,
            uuid_is_target: false,
            message: msg,
            posted_time: self.now,
        };
        self.push(global_msg);
        self.cleanup_old_messages();
    }

    /// Posts a message for everyone at `(x, y)` but `origin` and cleans the
    /// log.
    pub fn post_no_echo(&mut self, msg: String, x: i16, y: i16, origin: u128)
        ensures
            final(self)@ == old(self)@.posted_no_echo(msg@, x, y, origin),
    {
        let global_msg = Message {
            x: x,
            y: y,
            uuid: Some(origin),
            uuid_is_target: false,
            message: msg,
            posted_time: self.now,
        };
        self.push(global_msg);
        self.cleanup_old_messages();
    }

    /// Posts a message for `target` alone and cleans the log.
    pub fn post_for_target(&mut self, msg: String, target: u128)
        ensures
            final(self)@ == old(self)@.posted_for_target(msg@, target),
    {
        let global_msg = Message {
            x: 0,
            y: 0,
            uuid: Some(target),
            uuid_is_target: true,
            message: msg,
            posted_time: self.now,
        };
        self.push(global_msg);
        self.cleanup_old_messages();
    }

    /// The messages meant for `reader` alone that were posted at or after
    /// `after`, one to a line. The log is cleaned afterwards.
    pub fn read_targetted(&mut self, reader: u128, after: u64) -> (result: String)
        ensures
            result@ == targeted_text(old(self)@.messages, reader, after),
            final(self)@ == old(self)@.cleaned(),
    {
        let mut result = String::new();
        let mut i: usize = 0;
        while i < self.msg_list.len()
            invariant
                i <= self.msg_list.len(),
                *self == *old(self),
                result@ == targeted_text(self@.messages.take(i as int), reader, after),
            decreases self.msg_list.len() - i,
        {
            let element = &self.msg_list[i];
            proof {
                let next = self@.messages.take(i + 1);
                assert(next.drop_last() =~= self@.messages.take(i as int));
                assert(next.last() == element@);
            }
            let for_reader = match element.uuid {
                Some(uuid) => uuid == reader,
                None => false,
            };
            if element.posted_time >= after && element.uuid_is_target && for_reader {
                result.append(element.message.as_str());
                result.append("\n");
            }
            i += 1;
        }
        assert(self@.messages.take(i as int) =~= self@.messages);
        self.cleanup_old_messages();
        result
    }

    /// The messages that `reader` hears at `(x, y)` and that were posted at
    /// or after `after`, one to a line. The log is cleaned afterwards.
    pub fn read(&mut self, x: i16, y: i16, reader: u128, after: u64) -> (result: String)
        ensures
            result@ == heard_text(old(self)@.messages, x, y, reader, after),
            final(self)@ == old(self)@.cleaned(),
    {
        let mut result = String::new();
        let mut i: usize = 0;
        while i < self.msg_list.len()
            invariant
                i <= self.msg_list.len(),
                *self == *old(self),
                result@ == heard_text(self@.messages.take(i as int), x, y, reader, after),
            decreases self.msg_list.len() - i,
        {
            let element = &self.msg_list[i];
            proof {
                let next = self@.messages.take(i + 1);
                assert(next.drop_last() =~= self@.messages.take(i as int));
                assert(next.last() == element@);
            }
            if element.posted_time >= after {
                let is_reader = match element.uuid {
                    Some(uuid) => uuid == reader,
                    None => false,
                };
                if element.uuid_is_target && is_reader {
                    result.append(element.message.as_str());
                    result.append("\n");
                } else if !element.uuid_is_target && element.x == x && element.y == y {
                    if !is_reader {
                        result.append(element.message.as_str());
                        result.append("\n");
                    }
                }
            }
            i += 1;
        }
        assert(self@.messages.take(i as int) =~= self@.messages);
        self.cleanup_old_messages();
        result
    }
}

} // verus!
