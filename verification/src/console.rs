//! What the keys do.

use vstd::prelude::*;

use crate::channel::{ChannelView, SPIChannel, SPIQueueState};
use crate::clock::Timestamp;
use crate::command::{CommandView, SPICommand};
use crate::channel;
use crate::random;

verus! {

/// The operation that has the device send the data back.
pub const ECHO: u16 = 0xFFFF;

/// The operation that reports an event.
pub const EVENT: u16 = 0x0001;

/// The number of bytes that the data of a random echo stay below.
pub const ECHO_LIMIT: u8 = 5;

/// The number of bytes that the data of a random event stay below.
pub const EVENT_LIMIT: u8 = 10;

/// What a key stands for.
#[derive(Clone, Copy, PartialEq, Eq, Structural, Debug)]
pub enum KeyAction {
    /// End the program.
    Quit,
    /// Send some echoes with random data.
    RandomEchoes,
    /// Send an echo with data that are always the same.
    PresetEcho,
    /// Send an event.
    SingleEvent,
    /// Start or stop the sending of random events.
    ToggleEvents,
    /// Nothing.
    Ignore,
}

impl KeyAction {
    /// What a key stands for.
    pub open spec fn of(key: char) -> KeyAction {
        if key == 'q' {
            KeyAction::Quit
        } else if key == 'r' {
            KeyAction::RandomEchoes
        } else if key == 's' {
            KeyAction::PresetEcho
        } else if key == 'e' {
            KeyAction::SingleEvent
        } else if key == 't' {
            KeyAction::ToggleEvents
        } else {
            KeyAction::Ignore
        }
    }

    /// The operation of the commands that an action sends.
    pub open spec fn opcode(self) -> u16 {
        if self == KeyAction::SingleEvent {
            EVENT
        } else {
            ECHO
        }
    }

    /// Whether these can be the data of the commands that an action sends.
    pub open spec fn sends(self, payloads: Seq<Seq<u8>>) -> bool {
        match self {
            KeyAction::RandomEchoes => {
                &&& 1 <= payloads.len() <= 9
                &&& forall|i: int|
                    0 <= i < payloads.len() ==> random::is_random_data(
                        #[trigger] payloads[i],
                        ECHO_LIMIT,
                    )
            },
            KeyAction::PresetEcho => payloads == seq![seq![0u8, 1, 2, 3, 4, 5]],
            KeyAction::SingleEvent => payloads == seq![seq![1u8]],
            _ => payloads.len() == 0,
        }
    }

    /// What a key stands for.
    pub fn from_key(key: char) -> (action: KeyAction)
        ensures
            action == KeyAction::of(key),
    {
        match key {
            'q' => KeyAction::Quit,
            'r' => KeyAction::RandomEchoes,
            's' => KeyAction::PresetEcho,
            'e' => KeyAction::SingleEvent,
            't' => KeyAction::ToggleEvents,
            _ => KeyAction::Ignore,
        }
    }

    /// The data of the commands that an action sends.
    pub fn payloads(&self) -> (payloads: Vec<Vec<u8>>)
        ensures
            self.sends(payloads_view(payloads@)),
            *self == KeyAction::RandomEchoes ==> random::burst_drawn(
                payloads_view(payloads@),
                ECHO_LIMIT,
            ),
    {
        let payloads: Vec<Vec<u8>> = match self {
            KeyAction::RandomEchoes => random::random_burst(ECHO_LIMIT),
            KeyAction::PresetEcho => vec![vec![0u8, 1, 2, 3, 4, 5]],
            KeyAction::SingleEvent => vec![vec![1u8]],
            _ => Vec::new(),
        };
        proof {
            if self == KeyAction::PresetEcho {
                assert(payloads_view(payloads@)[0] == seq![0u8, 1, 2, 3, 4, 5]);
                assert(payloads_view(payloads@) == seq![seq![0u8, 1, 2, 3, 4, 5]]);
            }
            if self == KeyAction::SingleEvent {
                assert(payloads_view(payloads@)[0] == seq![1u8]);
                assert(payloads_view(payloads@) == seq![seq![1u8]]);
            }
        }
        payloads
    }
}

/// Some pieces of data, apart from how they are stored.
pub open spec fn payloads_view(payloads: Seq<Vec<u8>>) -> Seq<Seq<u8>> {
    payloads.map_values(|data: Vec<u8>| data@)
}

/// How long the sender of random events rests while none are wanted, in microseconds.
pub const IDLE_PAUSE_MICROS: i64 = 100;

/// What the sender of random events does next.
#[derive(Clone, Copy, PartialEq, Eq, Structural, Debug)]
pub enum GeneratorStep {
    /// Sleep for a random time, and send an event.
    Send,
    /// Rest for some microseconds.
    Pause(i64),
}

/// What the console remembers: the number of the last command, and whether random events
/// are being sent.
#[derive(Clone, Copy, PartialEq, Eq, Structural, Debug)]
pub struct Console {
    pub last_command_id: u16,
    pub random_events: bool,
}

/// What pressing a key led to: whether the program ends, and whether the thread that
/// writes frames has to be started.
#[derive(Clone, Copy, PartialEq, Eq, Structural, Debug)]
pub struct KeyOutcome {
    pub quit: bool,
    pub start: bool,
}

/// Whether some commands are new ones, with one operation, these data, and the numbers
/// that follow on the last one.
pub open spec fn are_new_commands(
    commands: Seq<CommandView>,
    last_id: u16,
    opcode: u16,
    payloads: Seq<Seq<u8>>,
) -> bool {
    &&& commands.len() == payloads.len()
    &&& forall|i: int|
        0 <= i < commands.len() ==> {
            &&& (#[trigger] commands[i]).creation_time.valid()
            &&& commands[i] == CommandView::made(
                (last_id + 1 + i) as u16,
                opcode,
                payloads[i],
                commands[i].creation_time,
            )
        }
}

/// Whether the moments at which some commands were made were read from the clock.
pub open spec fn all_stamped(commands: Seq<CommandView>) -> bool {
    forall|i: int|
        0 <= i < commands.len() ==> (#[trigger] commands[i]).creation_time.read_from_clock()
}

/// The channel after some commands were sent.
pub open spec fn with_all_sent(channel: ChannelView, commands: Seq<CommandView>) -> ChannelView
    decreases commands.len(),
{
    if commands.len() == 0 {
        channel
    } else {
        with_all_sent(channel, commands.drop_last()).with_sent(commands.last())
    }
}

impl Console {
    /// A console that has sent nothing.
    pub fn new() -> (console: Console)
        ensures
            console.last_command_id == 0,
            !console.random_events,
    {
        Console { last_command_id: 0, random_events: false }
    }

    /// Whether numbers for so many more commands are left.
    pub fn has_ids(&self, count: usize) -> (enough: bool)
        ensures
            enough == (self.last_command_id + count <= u16::MAX),
    {
        count <= (u16::MAX - self.last_command_id) as usize
    }

    /// The number for the next command.
    pub fn next_command_id(&mut self) -> (id: u16)
        requires
            old(self).last_command_id < u16::MAX,
        ensures
            id == old(self).last_command_id + 1,
            *final(self) == (Console { last_command_id: id, ..*old(self) }),
    {
        self.last_command_id = self.last_command_id + 1;
        self.last_command_id
    }

    /// Sends a command. The answer is whether the caller has to start the thread that
    /// writes the frames.
    pub fn issue(&mut self, opcode: u16, data: Vec<u8>, channel: &mut SPIChannel) -> (start: bool)
        requires
            old(self).last_command_id < u16::MAX,
            old(channel).wf(),
        ensures
            *final(self) == (Console {
                last_command_id: (old(self).last_command_id + 1) as u16,
                ..*old(self)
            }),
            final(channel).wf(),
            forall|reader: spmc::Receiver<Vec<u8>>| #[trigger]
                final(channel).reads_queue(reader) == old(channel).reads_queue(reader),
            exists|now: Timestamp|
                now.valid() && now.read_from_clock() && final(channel)@ == old(channel)@.with_sent(
                    #[trigger] CommandView::made(
                        (old(self).last_command_id + 1) as u16,
                        opcode,
                        data@,
                        now,
                    ),
                ),
            start == (old(channel)@.tx_state == SPIQueueState::Stopped),
    {
        let id = self.next_command_id();
        let command = SPICommand::new(id, opcode, data);
        channel.send_command(command)
    }

    /// What the sender of random events does next.
    pub fn generator_step(&self) -> (step: GeneratorStep)
        ensures
            step == if self.random_events {
                GeneratorStep::Send
            } else {
                GeneratorStep::Pause(IDLE_PAUSE_MICROS)
            },
    {
        if self.random_events {
            GeneratorStep::Send
        } else {
            GeneratorStep::Pause(IDLE_PAUSE_MICROS)
        }
    }

    /// Sends commands with one operation, one after the other. The answer is whether the
    /// caller has to start the thread that writes the frames.
    pub fn issue_all(
        &mut self,
        opcode: u16,
        payloads: Vec<Vec<u8>>,
        channel: &mut SPIChannel,
    ) -> (start: bool)
        requires
            old(self).last_command_id + payloads@.len() <= u16::MAX,
            old(channel).wf(),
        ensures
            *final(self) == (Console {
                last_command_id: (old(self).last_command_id + payloads@.len()) as u16,
                ..*old(self)
            }),
            final(channel).wf(),
            forall|reader: spmc::Receiver<Vec<u8>>| #[trigger]
                final(channel).reads_queue(reader) == old(channel).reads_queue(reader),
            exists|commands: Seq<CommandView>|
                are_new_commands(
                    commands,
                    old(self).last_command_id,
                    opcode,
                    payloads_view(payloads@),
                ) && all_stamped(commands) && final(channel)@ == #[trigger] with_all_sent(
                    old(channel)@,
                    commands,
                ),
            start == (payloads@.len() > 0 && old(channel)@.tx_state == SPIQueueState::Stopped),
    {
        let mut start = false;
        let ghost mut sent: Seq<CommandView> = seq![];
        let mut payloads = payloads;
        let ghost all = payloads@;
        let mut i: usize = 0;
        let count = payloads.len();
        proof {
            reveal(sent_so_far);
        }
        while i < count
            invariant
                i <= count,
                count == all.len(),
                payloads@ == all.skip(i as int),
                old(self).last_command_id + count <= u16::MAX,
                *self == (Console {
                    last_command_id: (old(self).last_command_id + i) as u16,
                    ..*old(self)
                }),
                channel.wf(),
                forall|reader: spmc::Receiver<Vec<u8>>| #[trigger]
                    channel.reads_queue(reader) == old(channel).reads_queue(reader),
                sent_so_far(
                    old(channel)@,
                    channel@,
                    sent,
                    old(self).last_command_id,
                    opcode,
                    payloads_view(all.take(i as int)),
                ),
                i == 0 ==> channel@.tx_state == old(channel)@.tx_state,
                i > 0 ==> channel@.tx_state == SPIQueueState::Running,
                start == (i > 0 && old(channel)@.tx_state == SPIQueueState::Stopped),
            decreases count - i,
        {
            let data = payloads.remove(0);
            let ghost before = channel@;
            let started = self.issue(opcode, data, channel);
            start = start || started;
            proof {
                let command = lemma_one_more_sent(
                    old(channel)@,
                    before,
                    channel@,
                    sent,
                    old(self).last_command_id,
                    opcode,
                    payloads_view(all.take(i as int)),
                    data@,
                );
                sent = sent.push(command);
                assert(payloads_view(all.take(i as int)).push(data@) == payloads_view(
                    all.take(i + 1),
                ));
            }
            i = i + 1;
        }
        proof {
            reveal(sent_so_far);
            assert(all.take(count as int) == all);
        }
        start
    }

    /// Does what a key stands for. The data of the commands that it sends are those of
    /// [`KeyAction::payloads`].
    pub fn press(
        &mut self,
        action: KeyAction,
        payloads: Vec<Vec<u8>>,
        channel: &mut SPIChannel,
    ) -> (outcome: KeyOutcome)
        requires
            action.sends(payloads_view(payloads@)),
            old(self).last_command_id + payloads@.len() <= u16::MAX,
            old(channel).wf(),
        ensures
            outcome.quit == (action == KeyAction::Quit),
            outcome.start == (payloads@.len() > 0 && old(channel)@.tx_state
                == SPIQueueState::Stopped),
            final(channel).wf(),
            forall|reader: spmc::Receiver<Vec<u8>>| #[trigger]
                final(channel).reads_queue(reader) == old(channel).reads_queue(reader),
            *final(self) == (Console {
                last_command_id: (old(self).last_command_id + payloads@.len()) as u16,
                random_events: if action == KeyAction::ToggleEvents {
                    !old(self).random_events
                } else {
                    old(self).random_events
                },
            }),
            exists|commands: Seq<CommandView>|
                are_new_commands(
                    commands,
                    old(self).last_command_id,
                    action.opcode(),
                    payloads_view(payloads@),
                ) && all_stamped(commands) && final(channel)@ == #[trigger] with_all_sent(
                    old(channel)@,
                    commands,
                ),
    {
        if action == KeyAction::ToggleEvents {
            self.random_events = !self.random_events;
        }
        let opcode: u16 = if action == KeyAction::SingleEvent {
            EVENT
        } else {
            ECHO
        };
        let start = self.issue_all(opcode, payloads, channel);
        KeyOutcome { quit: action == KeyAction::Quit, start }
    }
}

/// Whether sending these commands led from one state of a channel to another.
#[verifier::opaque]
spec fn sent_so_far(
    before: ChannelView,
    after: ChannelView,
    sent: Seq<CommandView>,
    last_id: u16,
    opcode: u16,
    payloads: Seq<Seq<u8>>,
) -> bool {
    &&& are_new_commands(sent, last_id, opcode, payloads)
    &&& all_stamped(sent)
    &&& after == with_all_sent(before, sent)
}

/// One more command behind some that were sent.
proof fn lemma_one_more_sent(
    first: ChannelView,
    before: ChannelView,
    after: ChannelView,
    sent: Seq<CommandView>,
    last_id: u16,
    opcode: u16,
    payloads: Seq<Seq<u8>>,
    data: Seq<u8>,
) -> (command: CommandView)
    requires
        sent_so_far(first, before, sent, last_id, opcode, payloads),
        exists|now: Timestamp|
            now.valid() && now.read_from_clock() && after == before.with_sent(
                #[trigger] CommandView::made(
                    (last_id + payloads.len() + 1) as u16,
                    opcode,
                    data,
                    now,
                ),
            ),
    ensures
        sent_so_far(first, after, sent.push(command), last_id, opcode, payloads.push(data)),
{
    reveal(sent_so_far);
    let id = (last_id + payloads.len() + 1) as u16;
    let now = choose|now: Timestamp|
        now.valid() && now.read_from_clock() && after == before.with_sent(
            #[trigger] CommandView::made(id, opcode, data, now),
        );
    let command = CommandView::made(id, opcode, data, now);
    let more = sent.push(command);
    assert(more.drop_last() == sent);
    assert forall|i: int| 0 <= i < more.len() implies {
        &&& (#[trigger] more[i]).creation_time.valid()
        &&& more[i] == CommandView::made(
            (last_id + 1 + i) as u16,
            opcode,
            payloads.push(data)[i],
            more[i].creation_time,
        )
    } by {
        if i < sent.len() {
            assert(more[i] == sent[i]);
        }
    }
    command
}

/// Sending commands one after the other adds them behind the ones that wait, and their
/// frames behind the ones in the queue, and does nothing else but claim the writing.
pub proof fn sending_all_adds_all(channel: ChannelView, commands: Seq<CommandView>)
    ensures
        with_all_sent(channel, commands).commands == channel.commands + commands,
        with_all_sent(channel, commands).completed_commands == channel.completed_commands,
        with_all_sent(channel, commands).sent == channel.sent + channel::frames(commands),
        with_all_sent(channel, commands).tx_state == if commands.len() == 0 {
            channel.tx_state
        } else {
            SPIQueueState::Running
        },
    decreases commands.len(),
{
    if commands.len() > 0 {
        sending_all_adds_all(channel, commands.drop_last());
        assert(channel::frames(commands) == channel::frames(commands.drop_last()).push(
            commands.last().frame(),
        ));
        assert(commands == commands.drop_last().push(commands.last()));
    }
}

/// New commands ask for one operation on the data that they were given, under the numbers
/// that follow on the last one.
pub proof fn new_commands_ask_what_was_given(
    commands: Seq<CommandView>,
    last_id: u16,
    opcode: u16,
    payloads: Seq<Seq<u8>>,
    i: int,
)
    requires
        are_new_commands(commands, last_id, opcode, payloads),
        last_id + payloads.len() <= u16::MAX,
        0 <= i < payloads.len(),
    ensures
        commands.len() == payloads.len(),
        commands[i].id == last_id + 1 + i,
        commands[i].opcode == opcode,
        commands[i].data == payloads[i],
        commands[i].response is None,
{
}

/// Each action but one has a single key, and all other keys stand for nothing.
pub proof fn each_action_has_its_key(key: char)
    ensures
        KeyAction::of(key) == KeyAction::Quit <==> key == 'q',
        KeyAction::of(key) == KeyAction::RandomEchoes <==> key == 'r',
        KeyAction::of(key) == KeyAction::PresetEcho <==> key == 's',
        KeyAction::of(key) == KeyAction::SingleEvent <==> key == 'e',
        KeyAction::of(key) == KeyAction::ToggleEvents <==> key == 't',
{
}

/// Random echoes are drawn: as many of them as the number from one to nine that was drawn for
/// that, each as long as the number from zero to four that was drawn for it, with the byte
/// at each place that was drawn for that place.
pub proof fn random_echoes_are_drawn(payloads: Vec<Vec<u8>>)
    requires
        call_ensures(KeyAction::payloads, (&KeyAction::RandomEchoes,), payloads),
    ensures
        1 <= payloads@.len() <= 9,
        random::drawn(random::Purpose::Count, 1, 10, payloads@.len() as u8),
        forall|i: int|
            0 <= i < payloads@.len() ==> {
                &&& (#[trigger] payloads@[i])@.len() <= 4
                &&& random::drawn(
                    random::Purpose::Length { piece: i as u8 },
                    0,
                    5,
                    payloads@[i]@.len() as u8,
                )
            },
        forall|i: int, k: int|
            0 <= i < payloads@.len() && 0 <= k < payloads@[i]@.len() ==> random::drawn(
                random::Purpose::Byte { piece: i as u8, place: k as u8 },
                0,
                255,
                #[trigger] payloads@[i]@[k],
            ),
{
    let pieces = payloads_view(payloads@);
    assert(random::burst_drawn(pieces, ECHO_LIMIT));
    assert forall|i: int| 0 <= i < payloads@.len() implies random::data_drawn(
        (#[trigger] payloads@[i])@,
        i as u8,
        ECHO_LIMIT,
    ) by {
        assert(pieces[i] == payloads@[i]@);
    }
}

/// No two commands of a console have the same number, as long as numbers are left.
pub proof fn numbers_are_not_reused(
    commands: Seq<CommandView>,
    last_id: u16,
    opcode: u16,
    payloads: Seq<Seq<u8>>,
    i: int,
    j: int,
)
    requires
        are_new_commands(commands, last_id, opcode, payloads),
        last_id + payloads.len() <= u16::MAX,
        0 <= i < j < commands.len(),
    ensures
        last_id < commands[i].id < commands[j].id <= last_id + payloads.len(),
{
}

} // verus!
