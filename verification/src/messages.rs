//! The log that stands under the tables.

use vstd::prelude::*;

use crate::clock;
use crate::clock::Timestamp;

verus! {

/// How grave a message is.
#[derive(Clone, Copy, PartialEq, Eq, Structural, Debug)]
pub enum MessageLevel {
    INFO,
    ERROR,
    CRITICAL,
}

impl MessageLevel {
    /// The name of the level.
    pub open spec fn text(self) -> Seq<char> {
        match self {
            MessageLevel::INFO => "INFO"@,
            MessageLevel::ERROR => "ERROR"@,
            MessageLevel::CRITICAL => "CRITICAL"@,
        }
    }

    /// The name of the level.
    pub fn to_text(&self) -> (text: String)
        ensures
            text@ == self.text(),
    {
        match self {
            MessageLevel::INFO => "INFO".to_owned(),
            MessageLevel::ERROR => "ERROR".to_owned(),
            MessageLevel::CRITICAL => "CRITICAL".to_owned(),
        }
    }
}

/// A message of the log.
pub struct Message {
    time: Timestamp,
    level: MessageLevel,
    string: String,
}

/// What a message is.
#[verifier::ext_equal]
pub struct MessageView {
    pub time: Timestamp,
    pub level: MessageLevel,
    pub string: Seq<char>,
}

impl View for Message {
    type V = MessageView;

    closed spec fn view(&self) -> MessageView {
        MessageView { time: self.time, level: self.level, string: self.string@ }
    }
}

impl MessageView {
    /// The message as the log shows it: when it came, how grave it is, and what it says.
    pub open spec fn line(self) -> Seq<char> {
        self.time.text() + seq![' '] + self.level.text() + seq![':', ' '] + self.string
    }
}

impl Message {
    /// How grave the message is.
    pub fn level(&self) -> (level: MessageLevel)
        ensures
            level == self@.level,
    {
        self.level
    }

    /// The message as the log shows it.
    pub fn line(&self) -> (line: String)
        requires
            self@.time.valid(),
        ensures
            line@ == self@.line(),
    {
        let level = self.level.to_text();
        let mut line = self.time.to_text();
        line.push(' ');
        line.append(level.as_str());
        line.push(':');
        line.push(' ');
        line.append(self.string.as_str());
        proof {
            assert(line@ == self@.line());
        }
        line
    }
}

/// The log: its messages, which of them is selected, and how many it has room for.
pub struct Messages {
    items: Vec<Message>,
    selected: Option<usize>,
    display_size: usize,
}

/// What a log is.
#[verifier::ext_equal]
pub struct MessagesView {
    pub items: Seq<MessageView>,
    pub selected: Option<usize>,
    pub display_size: usize,
}

impl View for Messages {
    type V = MessagesView;

    closed spec fn view(&self) -> MessagesView {
        MessagesView {
            items: self.items@.map_values(|item: Message| item@),
            selected: self.selected,
            display_size: self.display_size,
        }
    }
}

impl MessagesView {
    /// A log without messages.
    pub open spec fn empty() -> MessagesView {
        MessagesView { items: seq![], selected: None, display_size: 5 }
    }

    /// The log with one more message, which is selected.
    pub open spec fn with(self, message: MessageView) -> MessagesView {
        MessagesView {
            items: self.items.push(message),
            selected: Some(self.items.len() as usize),
            ..self
        }
    }

    /// What holds of every log: the last message is selected, and all have a time that
    /// can be written.
    pub open spec fn valid(self) -> bool {
        &&& self.items.len() == 0 ==> self.selected is None
        &&& self.items.len() > 0 ==> self.selected is Some && self.selected->0
            == self.items.len() - 1
        &&& forall|i: int|
            0 <= i < self.items.len() ==> (#[trigger] self.items[i]).time.valid()
    }
}

impl Messages {
    /// A log without messages.
    pub fn new() -> (messages: Messages)
        ensures
            messages@ == MessagesView::empty(),
            messages@.valid(),
    {
        let messages = Messages { items: Vec::new(), selected: None, display_size: 5 };
        proof {
            assert(messages@ == MessagesView::empty());
        }
        messages
    }

    /// Logs a message now.
    pub fn push(&mut self, level: MessageLevel, string: String)
        requires
            old(self)@.valid(),
        ensures
            final(self)@.valid(),
            exists|time: Timestamp|
                time.valid() && time.read_from_clock() && final(self)@ == old(self)@.with(
                    #[trigger] message_at(time, level, string@),
                ),
    {
        let time = Timestamp::now();
        self.push_at(level, string, time)
    }

    /// Logs a message at a given moment.
    pub fn push_at(&mut self, level: MessageLevel, string: String, time: Timestamp)
        requires
            old(self)@.valid(),
            time.valid(),
        ensures
            final(self)@.valid(),
            final(self)@ == old(self)@.with(message_at(time, level, string@)),
    {
        self.items.push(Message { time, level, string });
        self.selected = Some(self.items.len() - 1);
        proof {
            assert(self@ == old(self)@.with(message_at(time, level, string@)));
        }
    }

    /// How many messages there are.
    pub fn len(&self) -> (len: usize)
        ensures
            len == self@.items.len(),
    {
        self.items.len()
    }

    /// A message of the log.
    pub fn get(&self, i: usize) -> (message: &Message)
        requires
            i < self@.items.len(),
        ensures
            message@ == self@.items[i as int],
    {
        &self.items[i]
    }

    /// Which message is selected.
    pub fn selected(&self) -> (selected: Option<usize>)
        ensures
            selected == self@.selected,
    {
        self.selected
    }
}

/// A message with all its parts.
pub open spec fn message_at(time: Timestamp, level: MessageLevel, string: Seq<char>) -> MessageView {
    MessageView { time, level, string }
}

/// A line of the log shows when its message came, then its level and what it says.
pub proof fn lines_show_their_message(message: MessageView)
    requires
        message.time.valid(),
    ensures
        clock::shows_moment(message.line().take(18), message.time),
        message.line().skip(18) == seq![' '] + message.level.text() + seq![':', ' ']
            + message.string,
{
    clock::moments_read_back(message.time);
    assert(message.line().take(18) == message.time.text());
}

/// Different levels have different names.
pub proof fn names_tell_levels_apart(a: MessageLevel, b: MessageLevel)
    ensures
        a.text() == b.text() <==> a == b,
{
    reveal_strlit("INFO");
    reveal_strlit("ERROR");
    reveal_strlit("CRITICAL");
    assert(a.text() == b.text() ==> a.text().len() == b.text().len());
}

/// Logging keeps what was logged: the earlier messages stay as they were, and the new one
/// comes last and is selected.
pub proof fn logging_keeps_the_log(log: MessagesView, message: MessageView)
    requires
        log.valid(),
        message.time.valid(),
        log.items.len() < usize::MAX,
    ensures
        log.with(message).valid(),
        log.with(message).items.drop_last() == log.items,
        log.with(message).items.last() == message,
        log.with(message).selected == Some(log.items.len() as usize),
{
}

} // verus!
