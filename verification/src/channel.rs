//! The commands that wait for an answer, those that have one, and the frames that are
//! on their way to the device.

use vstd::multiset::Multiset;
use vstd::prelude::*;

use crate::clock;
use crate::clock::Timestamp;
use crate::command;
use crate::command::{CommandView, SPICommand};
use crate::queue;
use crate::text;

verus! {

/// Whether some thread is writing frames to the device.
#[derive(Clone, Copy, PartialEq, Eq, Structural, Debug)]
pub enum SPIQueueState {
    Stopped,
    Running,
}

/// The traffic with the device.
pub struct SPIChannel {
    tx_queue_producer: spmc::Sender<Vec<u8>>,
    tx_queue_consumer: queue::SpareEnd,
    commands: Vec<SPICommand>,
    completed_commands: Vec<SPICommand>,
    tx_state: SPIQueueState,
}

/// What a channel is: the commands without an answer in the order in which they were
/// sent, those with one in the order in which the answers came, all the frames that were
/// ever put in the queue, and whether some thread is taking them out.
#[verifier::ext_equal]
pub struct ChannelView {
    pub commands: Seq<CommandView>,
    pub completed_commands: Seq<CommandView>,
    pub sent: Seq<Seq<u8>>,
    pub tx_state: SPIQueueState,
}

/// Whether the command at a place is the first with a number.
pub open spec fn is_first_with_id(commands: Seq<CommandView>, id: u16, i: int) -> bool {
    &&& 0 <= i < commands.len()
    &&& commands[i].id == id
    &&& forall|j: int| 0 <= j < i ==> (#[trigger] commands[j]).id != id
}

/// The frames of some commands.
pub open spec fn frames(commands: Seq<CommandView>) -> Seq<Seq<u8>> {
    commands.map_values(|command: CommandView| command.frame())
}

impl ChannelView {
    /// A channel that nothing has happened on.
    pub open spec fn fresh() -> ChannelView {
        ChannelView {
            commands: seq![],
            completed_commands: seq![],
            sent: seq![],
            tx_state: SPIQueueState::Stopped,
        }
    }

    /// The channel with a thread that takes frames out.
    pub open spec fn started(self) -> ChannelView {
        ChannelView { tx_state: SPIQueueState::Running, ..self }
    }

    /// The channel without such a thread.
    pub open spec fn stopped(self) -> ChannelView {
        ChannelView { tx_state: SPIQueueState::Stopped, ..self }
    }

    /// The channel after a command was sent.
    pub open spec fn with_sent(self, command: CommandView) -> ChannelView {
        ChannelView {
            commands: self.commands.push(command),
            sent: self.sent.push(command.frame()),
            ..self
        }.started()
    }

    /// Whether a command with this number waits for an answer.
    pub open spec fn awaits(self, id: u16) -> bool {
        exists|i: int| is_first_with_id(self.commands, id, i)
    }

    /// The place of the first command with a number, where there is one.
    pub open spec fn place_of(self, id: u16) -> int {
        choose|i: int| is_first_with_id(self.commands, id, i)
    }

    /// The channel after an answer came at a moment: the first command with its number
    /// takes it and moves to the end of the completed ones. An answer that no command
    /// waits for changes nothing.
    pub open spec fn with_answer(self, id: u16, data: Seq<u8>, now: Timestamp) -> ChannelView {
        if self.awaits(id) {
            let i = self.place_of(id);
            ChannelView {
                commands: self.commands.remove(i),
                completed_commands: self.completed_commands.push(
                    self.commands[i].answered(data, now),
                ),
                ..self
            }
        } else {
            self
        }
    }

    /// What holds of every channel: the commands that wait have no answer, the completed
    /// ones have one, and the frames that were put in the queue are those of all these
    /// commands, each as often as it was sent.
    pub open spec fn valid(self) -> bool {
        &&& forall|i: int|
            0 <= i < self.commands.len() ==> (#[trigger] self.commands[i]).valid()
                && !self.commands[i].completed()
        &&& forall|i: int|
            0 <= i < self.completed_commands.len() ==> (
            #[trigger] self.completed_commands[i]).valid() && self.completed_commands[i].completed()
        &&& self.sent.to_multiset() == frames(self.commands).to_multiset().add(
            frames(self.completed_commands).to_multiset(),
        )
    }
}

impl View for SPIChannel {
    type V = ChannelView;

    closed spec fn view(&self) -> ChannelView {
        ChannelView {
            commands: self.commands@.map_values(|command: SPICommand| command@),
            completed_commands: self.completed_commands@.map_values(|command: SPICommand| command@),
            sent: queue::frames_sent(self.tx_queue_producer),
            tx_state: self.tx_state,
        }
    }
}

impl SPIChannel {
    /// Whether the channel is as every channel should be, and its queue has both ends.
    pub closed spec fn wf(&self) -> bool {
        &&& self@.valid()
        &&& queue::connected(self.tx_queue_producer, self.tx_queue_consumer.end())
    }

    /// A channel in use is as every channel should be.
    pub proof fn channels_in_use_are_valid(&self)
        requires
            self.wf(),
        ensures
            self@.valid(),
    {
    }

    /// A channel that nothing has happened on.
    pub fn new() -> (channel: SPIChannel)
        ensures
            channel.wf(),
            channel@ == ChannelView::fresh(),
    {
        let (tx_queue_producer, tx_queue_consumer) = queue::new_queue();
        let channel = SPIChannel {
            tx_queue_producer,
            tx_queue_consumer,
            commands: Vec::new(),
            completed_commands: Vec::new(),
            tx_state: SPIQueueState::Stopped,
        };
        proof {
            assert(channel@ == ChannelView::fresh());
            fresh_channels_are_valid();
        }
        channel
    }

    /// Claims the writing of frames. The answer is whether the caller has to start the
    /// thread that does it; where one runs already, it has not.
    pub fn process_tx(&mut self) -> (start: bool)
        requires
            old(self).wf(),
        ensures
            final(self).wf(),
            forall|reader: spmc::Receiver<Vec<u8>>| #[trigger]
                final(self).reads_queue(reader) == old(self).reads_queue(reader),
            final(self)@ == old(self)@.started(),
            start == (old(self)@.tx_state == SPIQueueState::Stopped),
        opens_invariants none
    {
        if self.tx_state == SPIQueueState::Running {
            false
        } else {
            self.tx_state = SPIQueueState::Running;
            true
        }
    }

    /// Gives the writing of frames up again, when the thread that did it ends.
    pub fn finish_tx(&mut self)
        requires
            old(self).wf(),
        ensures
            final(self).wf(),
            forall|reader: spmc::Receiver<Vec<u8>>| #[trigger]
                final(self).reads_queue(reader) == old(self).reads_queue(reader),
            final(self)@ == old(self)@.stopped(),
        opens_invariants none
    {
        self.tx_state = SPIQueueState::Stopped;
    }

    /// An end of the queue at which a writing thread takes the frames out. Nothing has been
    /// taken out at it.
    pub fn tx_queue(&self) -> (reader: spmc::Receiver<Vec<u8>>)
        requires
            self.wf(),
        ensures
            self.reads_queue(reader),
            queue::frames_taken(reader) == Seq::<Seq<u8>>::empty(),
        opens_invariants none
    {
        queue::clone_reader(&self.tx_queue_consumer)
    }

    /// Takes a frame out at an end of the queue, where one is left. What was taken out
    /// there, this frame last, is, in order, among what this channel has sent.
    pub fn take_frame(&self, reader: &mut spmc::Receiver<Vec<u8>>) -> (frame: Option<Vec<u8>>)
        requires
            self.reads_queue(*old(reader)),
        ensures
            self.reads_queue(*final(reader)),
            queue::frames_taken(*final(reader)) == queue::frames_taken(*old(reader))
                + queue::given(frame),
            queue::in_order_among(queue::frames_taken(*final(reader)), self@.sent),
            self.gave_frame(*old(reader), frame),
    {
        queue::ask_for_frame(&self.tx_queue_producer, reader)
    }

    /// Whether the queue, when it was asked for a frame at this end, gave this one, or none.
    pub closed spec fn gave_frame(
        &self,
        reader: spmc::Receiver<Vec<u8>>,
        frame: Option<Vec<u8>>,
    ) -> bool {
        queue::gave(self.tx_queue_producer, reader, frame)
    }

    /// Whether the frames of this channel come out at that end.
    pub closed spec fn reads_queue(&self, reader: spmc::Receiver<Vec<u8>>) -> bool {
        queue::connected(self.tx_queue_producer, reader)
    }

    /// Sends a command: it waits for its answer from now on, and its frame goes behind
    /// all others. The answer is whether the caller has to start the thread that writes
    /// the frames.
    pub fn send_command(&mut self, command: SPICommand) -> (start: bool)
        requires
            old(self).wf(),
            command@.valid(),
            !command@.completed(),
        ensures
            final(self).wf(),
            forall|reader: spmc::Receiver<Vec<u8>>| #[trigger]
                final(self).reads_queue(reader) == old(self).reads_queue(reader),
            final(self)@ == old(self)@.with_sent(command@),
            start == (old(self)@.tx_state == SPIQueueState::Stopped),
    {
        proof {
            sending_keeps_channels_valid(self@, command@);
        }
        let serialized = command.serialize();
        self.commands.push(command);
        queue::send_frame(&mut self.tx_queue_producer, &self.tx_queue_consumer, serialized);
        proof {
            assert(self@.started() == old(self)@.with_sent(command@));
        }
        self.process_tx()
    }

    /// The place of the first command that waits for an answer with this number.
    fn position(&self, id: u16) -> (place: Option<usize>)
        ensures
            match place {
                Some(i) => is_first_with_id(self@.commands, id, i as int),
                None => !self@.awaits(id),
            },
    {
        let mut i: usize = 0;
        while i < self.commands.len()
            invariant
                i <= self.commands.len(),
                forall|j: int| 0 <= j < i ==> (#[trigger] self@.commands[j]).id != id,
            decreases self.commands.len() - i,
        {
            if self.commands[i].id() == id {
                return Some(i);
            }
            i = i + 1;
        }
        None
    }

    /// Takes an answer that has just come.
    pub fn receive_response(&mut self, id: u16, data: Vec<u8>)
        requires
            old(self).wf(),
        ensures
            final(self).wf(),
            forall|reader: spmc::Receiver<Vec<u8>>| #[trigger]
                final(self).reads_queue(reader) == old(self).reads_queue(reader),
            exists|now: Timestamp|
                now.valid() && now.read_from_clock() && final(self)@
                    == #[trigger] old(self)@.with_answer(id, data@, now),
    {
        let now = Timestamp::now();
        self.receive_response_at(id, data, now)
    }

    /// Takes an answer that came at a given moment.
    pub fn receive_response_at(&mut self, id: u16, data: Vec<u8>, now: Timestamp)
        requires
            old(self).wf(),
            now.valid(),
        ensures
            final(self).wf(),
            forall|reader: spmc::Receiver<Vec<u8>>| #[trigger]
                final(self).reads_queue(reader) == old(self).reads_queue(reader),
            final(self)@ == old(self)@.with_answer(id, data@, now),
    {
        proof {
            answers_keep_channels_valid(self@, id, data@, now);
        }
        match self.position(id) {
            Some(index) => {
                proof {
                    places_are_unique(self@, id, index as int);
                }
                let mut command = self.commands.remove(index);
                command.answer_at(data, now);
                self.completed_commands.push(command);
                proof {
                    assert(self@ == old(self)@.with_answer(id, data@, now));
                }
            },
            None => {},
        }
    }

    /// The rows of the commands that wait for an answer, each with whether it has one.
    pub fn rows(&self) -> (rows: Vec<(bool, Vec<String>)>)
        ensures
            rows@.len() == self@.commands.len(),
            forall|i: int|
                0 <= i < rows@.len() ==> row_shows(#[trigger] rows@[i], self@.commands[i]),
    {
        rows_of(&self.commands)
    }

    /// The rows of the completed commands, each with whether it has an answer.
    pub fn completed_rows(&self) -> (rows: Vec<(bool, Vec<String>)>)
        ensures
            rows@.len() == self@.completed_commands.len(),
            forall|i: int|
                0 <= i < rows@.len() ==> row_shows(
                    #[trigger] rows@[i],
                    self@.completed_commands[i],
                ),
    {
        rows_of(&self.completed_commands)
    }
}

/// Whether a row is that of a command, and says rightly whether it has an answer.
pub open spec fn row_shows(row: (bool, Vec<String>), command: CommandView) -> bool {
    &&& row.0 == command.completed()
    &&& row.1@.map_values(|column: String| column@) == command.row
}

/// The rows of some commands.
fn rows_of(commands: &Vec<SPICommand>) -> (rows: Vec<(bool, Vec<String>)>)
    ensures
        rows@.len() == commands@.len(),
        forall|i: int| 0 <= i < rows@.len() ==> row_shows(#[trigger] rows@[i], commands@[i]@),
{
    let mut rows: Vec<(bool, Vec<String>)> = Vec::new();
    for i in 0..commands.len()
        invariant
            rows@.len() == i,
            forall|j: int| 0 <= j < i ==> row_shows(#[trigger] rows@[j], commands@[j]@),
    {
        rows.push((commands[i].is_completed(), commands[i].get_row_vector()));
    }
    rows
}

/// The place of a command is the only one that is first with its number.
pub proof fn places_are_unique(channel: ChannelView, id: u16, i: int)
    requires
        is_first_with_id(channel.commands, id, i),
    ensures
        channel.awaits(id),
        channel.place_of(id) == i,
{
    let p = channel.place_of(id);
    assert(is_first_with_id(channel.commands, id, p));
    assert(!(p < i)) by {
        assert(p < i ==> channel.commands[p].id != id);
    }
    assert(!(i < p)) by {
        assert(i < p ==> channel.commands[i].id != id);
    }
}

/// A channel on which nothing has happened is as every channel should be.
pub proof fn fresh_channels_are_valid()
    ensures
        ChannelView::fresh().valid(),
{
    broadcast use vstd::seq_lib::group_to_multiset_ensures;

    let none: Seq<CommandView> = seq![];
    assert(frames(none) == Seq::<Seq<u8>>::empty());
    assert(Seq::<Seq<u8>>::empty().to_multiset().len() == 0);
    assert(Seq::<Seq<u8>>::empty().to_multiset() == Multiset::<Seq<u8>>::empty());
    assert(Multiset::<Seq<u8>>::empty().add(Multiset::empty()) =~= Multiset::<Seq<u8>>::empty());
}

/// Sending a command keeps the channel as every channel should be.
pub proof fn sending_keeps_channels_valid(channel: ChannelView, command: CommandView)
    requires
        channel.valid(),
        command.valid(),
        !command.completed(),
    ensures
        channel.with_sent(command).valid(),
{
    broadcast use vstd::seq_lib::group_to_multiset_ensures;

    let after = channel.with_sent(command);
    assert(frames(after.commands) == frames(channel.commands).push(command.frame()));
    assert(after.sent.to_multiset() == frames(after.commands).to_multiset().add(
        frames(after.completed_commands).to_multiset(),
    ));
}

/// An answer keeps the channel as every channel should be.
pub proof fn answers_keep_channels_valid(
    channel: ChannelView,
    id: u16,
    data: Seq<u8>,
    now: Timestamp,
)
    requires
        channel.valid(),
        now.valid(),
    ensures
        channel.with_answer(id, data, now).valid(),
{
    broadcast use vstd::seq_lib::group_to_multiset_ensures;

    if channel.awaits(id) {
        let i = channel.place_of(id);
        let command = channel.commands[i];
        let after = channel.with_answer(id, data, now);
        assert(is_first_with_id(channel.commands, id, i));
        assert(command.valid());
        assert(frames(after.commands) == frames(channel.commands).remove(i));
        assert(frames(after.completed_commands) == frames(channel.completed_commands).push(
            command.frame(),
        ));
        assert(frames(channel.commands)[i] == command.frame());
        assert(frames(channel.commands).contains(command.frame()));
        assert(after.sent.to_multiset() =~= frames(after.commands).to_multiset().add(
            frames(after.completed_commands).to_multiset(),
        ));
    }
}

/// Every command that was sent either waits or is completed, and none is both: sending
/// adds one to their number, and an answer only moves one over.
pub proof fn no_command_is_lost(
    channel: ChannelView,
    command: CommandView,
    id: u16,
    data: Seq<u8>,
    now: Timestamp,
)
    ensures
        channel.with_sent(command).commands.len() == channel.commands.len() + 1,
        channel.with_sent(command).completed_commands == channel.completed_commands,
        channel.with_answer(id, data, now).commands.len() + channel.with_answer(
            id,
            data,
            now,
        ).completed_commands.len() == channel.commands.len() + channel.completed_commands.len(),
{
    if channel.awaits(id) {
        assert(is_first_with_id(channel.commands, id, channel.place_of(id)));
    }
}

/// As many frames were put in the queue as there are commands, waiting and completed.
pub proof fn every_command_has_its_frame(channel: ChannelView)
    requires
        channel.valid(),
    ensures
        channel.sent.len() == channel.commands.len() + channel.completed_commands.len(),
        forall|i: int|
            0 <= i < channel.commands.len() ==> channel.sent.contains(
                (#[trigger] channel.commands[i]).frame(),
            ),
        forall|i: int|
            0 <= i < channel.completed_commands.len() ==> channel.sent.contains(
                (#[trigger] channel.completed_commands[i]).frame(),
            ),
{
    broadcast use vstd::seq_lib::group_to_multiset_ensures;

    let waiting = frames(channel.commands);
    let completed = frames(channel.completed_commands);
    assert(channel.sent.to_multiset().len() == waiting.to_multiset().len()
        + completed.to_multiset().len());
    assert forall|i: int| 0 <= i < channel.commands.len() implies channel.sent.contains(
        (#[trigger] channel.commands[i]).frame(),
    ) by {
        assert(waiting[i] == channel.commands[i].frame());
        assert(waiting.contains(channel.commands[i].frame()));
        assert(channel.sent.to_multiset().count(channel.commands[i].frame()) > 0);
    }
    assert forall|i: int| 0 <= i < channel.completed_commands.len() implies channel.sent.contains(
        (#[trigger] channel.completed_commands[i]).frame(),
    ) by {
        assert(completed[i] == channel.completed_commands[i].frame());
        assert(completed.contains(channel.completed_commands[i].frame()));
        assert(channel.sent.to_multiset().count(channel.completed_commands[i].frame()) > 0);
    }
}

/// What a take does at an end of the queue: what the queue gave there, and nothing else, is
/// added to what was taken out there before, and this is, in order, among what the channel
/// has sent, so that never more comes out than was sent.
pub proof fn takes_lose_nothing(
    channel: &SPIChannel,
    reader: &mut spmc::Receiver<Vec<u8>>,
    frame: Option<Vec<u8>>,
)
    requires
        call_ensures(SPIChannel::take_frame, (channel, reader), frame),
    ensures
        channel.gave_frame(*old(reader), frame),
        frame is None ==> queue::frames_taken(*final(reader)) == queue::frames_taken(*old(reader)),
        frame is Some ==> queue::frames_taken(*final(reader)) == queue::frames_taken(
            *old(reader),
        ).push(frame->0@),
        queue::frames_taken(*final(reader)).len() <= channel@.sent.len(),
        queue::frames_taken(*final(reader)).len() == channel@.sent.len()
            ==> queue::frames_taken(*final(reader)) == channel@.sent,
{
    queue::all_that_went_in_comes_out_in_order(
        queue::frames_taken(*final(reader)),
        channel@.sent,
    );
}

/// What comes out of a channel's queue is the frame of a command that was sent on the
/// channel, whether that has an answer or not.
pub proof fn frames_that_come_out_are_commands(
    channel: ChannelView,
    taken: Seq<Seq<u8>>,
    i: int,
)
    requires
        channel.valid(),
        queue::in_order_among(taken, channel.sent),
        0 <= i < taken.len(),
    ensures
        exists|command: CommandView|
            #![trigger command.frame()]
            (channel.commands.contains(command) || channel.completed_commands.contains(command))
                && command.frame() == taken[i],
{
    broadcast use vstd::seq_lib::group_to_multiset_ensures;

    let frame = taken[i];
    let waiting = frames(channel.commands);
    let completed = frames(channel.completed_commands);
    assert(taken.contains(frame));
    queue::frames_among_others_are_some_of_them(taken, channel.sent, frame);
    assert(channel.sent.to_multiset().count(frame) > 0);
    if waiting.to_multiset().count(frame) > 0 {
        assert(waiting.contains(frame));
        let k = choose|k: int| 0 <= k < waiting.len() && waiting[k] == frame;
        assert(channel.commands.contains(channel.commands[k]));
        assert(channel.commands[k].frame() == frame);
    } else {
        assert(completed.contains(frame));
        let k = choose|k: int| 0 <= k < completed.len() && completed[k] == frame;
        assert(channel.completed_commands.contains(channel.completed_commands[k]));
        assert(channel.completed_commands[k].frame() == frame);
    }
}

/// A command that is sent waits behind all others, and its frame goes behind all others; the
/// completed commands stay as they are, and from then on frames are being written.
pub proof fn sent_commands_wait_behind_the_others(channel: ChannelView, command: CommandView)
    ensures
        channel.with_sent(command).commands == channel.commands.push(command),
        channel.with_sent(command).sent == channel.sent.push(command.frame()),
        channel.with_sent(command).completed_commands == channel.completed_commands,
        channel.with_sent(command).tx_state == SPIQueueState::Running,
{
}

/// The command that takes an answer shows when it came, how long that took since it was
/// made, and what it says.
pub proof fn completed_commands_show_their_answer(
    channel: ChannelView,
    id: u16,
    data: Seq<u8>,
    now: Timestamp,
    i: int,
)
    requires
        channel.valid(),
        now.valid(),
        is_first_with_id(channel.commands, id, i),
    ensures
        ({
            let asked = channel.commands[i];
            let after = channel.with_answer(id, data, now);
            let last = after.completed_commands.last();
            &&& after.completed_commands.len() == channel.completed_commands.len() + 1
            &&& last.id == id
            &&& last.data == asked.data
            &&& last.opcode == asked.opcode
            &&& last.creation_time == asked.creation_time
            &&& last.response == Some(data)
            &&& last.response_time == Some(now)
            &&& clock::shows_moment(last.row[6], now)
            &&& clock::shows_nanos(last.row[7], now.total() - asked.creation_time.total())
            &&& text::shows_bytes(last.row[8], data)
        }),
{
    places_are_unique(channel, id, i);
    answers_keep_channels_valid(channel, id, data, now);
    let after = channel.with_answer(id, data, now);
    let last = after.completed_commands[after.completed_commands.len() - 1];
    assert(last == channel.commands[i].answered(data, now));
    command::rows_show_all_columns(last);
}

/// An answer that is taken now is stamped with a moment that was read from the clock, and
/// the command that takes it shows that moment, and the time from its making to it.
pub proof fn answers_are_stamped_by_the_clock(
    channel: &mut SPIChannel,
    id: u16,
    data: Vec<u8>,
    i: int,
)
    requires
        old(channel).wf(),
        is_first_with_id(old(channel)@.commands, id, i),
        call_ensures(SPIChannel::receive_response, (channel, id, data), ()),
    ensures
        ({
            let asked = old(channel)@.commands[i];
            let last = final(channel)@.completed_commands.last();
            &&& last.id == id
            &&& last.response == Some(data@)
            &&& last.creation_time == asked.creation_time
            &&& last.response_time is Some
            &&& last.response_time->0.read_from_clock()
            &&& clock::shows_moment(last.row[6], last.response_time->0)
            &&& clock::shows_nanos(
                last.row[7],
                last.response_time->0.total() - asked.creation_time.total(),
            )
        }),
{
    let before = old(channel)@;
    let now = choose|now: Timestamp|
        now.valid() && now.read_from_clock() && final(channel)@ == #[trigger] before.with_answer(
            id,
            data@,
            now,
        );
    completed_commands_show_their_answer(before, id, data@, now, i);
}

/// A row that the tables are given has the nine columns of its command, and says whether an
/// answer has come.
pub proof fn given_rows_are_complete(row: (bool, Vec<String>), command: CommandView)
    requires
        command.valid(),
        row_shows(row, command),
    ensures
        row.0 == (command.response is Some),
        row.1@.len() == 9,
        forall|k: int| 0 <= k < 9 ==> (#[trigger] row.1@[k])@ == command.row[k],
{
    let texts = row.1@.map_values(|column: String| column@);
    assert(texts == command.row);
    assert forall|k: int| 0 <= k < 9 implies (#[trigger] row.1@[k])@ == command.row[k] by {
        assert(texts[k] == row.1@[k]@);
    }
}

/// An answer that no command waits for changes nothing.
pub proof fn stray_answers_change_nothing(
    channel: ChannelView,
    id: u16,
    data: Seq<u8>,
    now: Timestamp,
)
    requires
        forall|i: int|
            0 <= i < channel.commands.len() ==> (#[trigger] channel.commands[i]).id != id,
    ensures
        channel.with_answer(id, data, now) == channel,
{
}

/// An answer to a number that waits goes to the command that has waited longest with it.
/// That command moves to the end of the completed ones; the others keep their order, and
/// the completed ones before it stay as they were.
pub proof fn answers_go_to_the_first_in_line(
    channel: ChannelView,
    id: u16,
    data: Seq<u8>,
    now: Timestamp,
    i: int,
)
    requires
        0 <= i < channel.commands.len(),
        channel.commands[i].id == id,
        forall|j: int| 0 <= j < i ==> (#[trigger] channel.commands[j]).id != id,
    ensures
        channel.with_answer(id, data, now).commands == channel.commands.take(i)
            + channel.commands.skip(i + 1),
        channel.with_answer(id, data, now).completed_commands
            == channel.completed_commands.push(channel.commands[i].answered(data, now)),
        channel.with_answer(id, data, now).sent == channel.sent,
        channel.with_answer(id, data, now).tx_state == channel.tx_state,
{
    assert(is_first_with_id(channel.commands, id, i));
    places_are_unique(channel, id, i);
}

/// A command under a number that is not in use is completed by the answer to that number:
/// the commands that waited before wait on as they were, and the new one comes last among
/// the completed ones, with the answer.
pub proof fn a_command_finds_its_answer(
    channel: ChannelView,
    command: CommandView,
    data: Seq<u8>,
    now: Timestamp,
)
    requires
        forall|i: int|
            0 <= i < channel.commands.len() ==> (#[trigger] channel.commands[i]).id != command.id,
    ensures
        ({
            let after = channel.with_sent(command).with_answer(command.id, data, now);
            &&& after.commands == channel.commands
            &&& after.completed_commands == channel.completed_commands.push(
                command.answered(data, now),
            )
        }),
{
    let sent = channel.with_sent(command);
    let last = channel.commands.len() as int;
    assert forall|j: int| 0 <= j < last implies (#[trigger] sent.commands[j]).id
        != command.id by {
        assert(sent.commands[j] == channel.commands[j]);
    }
    answers_go_to_the_first_in_line(sent, command.id, data, now, last);
    assert(sent.commands.take(last) + sent.commands.skip(last + 1) == channel.commands);
}

/// Of two answers to one number, of which only one command waits, the second changes
/// nothing.
pub proof fn a_second_answer_changes_nothing(
    channel: ChannelView,
    id: u16,
    data: Seq<u8>,
    now: Timestamp,
    again: Seq<u8>,
    later: Timestamp,
)
    requires
        forall|i: int, j: int|
            0 <= i < j < channel.commands.len() ==> (#[trigger] channel.commands[i]).id != id
                || (#[trigger] channel.commands[j]).id != id,
    ensures
        channel.with_answer(id, data, now).with_answer(id, again, later) == channel.with_answer(
            id,
            data,
            now,
        ),
{
    let after = channel.with_answer(id, data, now);
    if channel.awaits(id) {
        let p = channel.place_of(id);
        assert(is_first_with_id(channel.commands, id, p));
        assert forall|i: int| 0 <= i < after.commands.len() implies (
        #[trigger] after.commands[i]).id != id by {
            if i < p {
                assert(after.commands[i] == channel.commands[i]);
            } else {
                assert(after.commands[i] == channel.commands[i + 1]);
                assert(channel.commands[p].id == id);
            }
        }
    }
}

/// Two answers to different numbers lead to the same waiting commands, whichever comes
/// first, and to the same completed ones, but for the order of the last two.
pub proof fn answers_to_different_commands_commute(
    channel: ChannelView,
    a: u16,
    a_data: Seq<u8>,
    a_now: Timestamp,
    b: u16,
    b_data: Seq<u8>,
    b_now: Timestamp,
)
    requires
        a != b,
    ensures
        ({
            let ab = channel.with_answer(a, a_data, a_now).with_answer(b, b_data, b_now);
            let ba = channel.with_answer(b, b_data, b_now).with_answer(a, a_data, a_now);
            &&& ab.commands == ba.commands
            &&& ab.completed_commands.to_multiset() == ba.completed_commands.to_multiset()
            &&& ab.sent == ba.sent
            &&& ab.tx_state == ba.tx_state
        }),
{
    lemma_waiting_after_two(channel, a, a_data, a_now, b, b_data, b_now);
    lemma_waiting_after_two(channel, b, b_data, b_now, a, a_data, a_now);
    lemma_completed_after_two(channel, a, a_data, a_now, b, b_data, b_now);
    lemma_completed_after_two(channel, b, b_data, b_now, a, a_data, a_now);
    if channel.awaits(a) && channel.awaits(b) {
        let x = channel.commands[channel.place_of(a)].answered(a_data, a_now);
        let y = channel.commands[channel.place_of(b)].answered(b_data, b_now);
        lemma_push_two(channel.completed_commands, x, y);
    }
}

/// Commands without the moments of their answers, the times that these took, and the rows.
pub open spec fn untimed(commands: Seq<CommandView>) -> Seq<CommandView> {
    commands.map_values(|command: CommandView| command.untimed())
}

/// Whichever of two answers to different numbers comes first, and whenever each comes, the
/// same commands wait, and the completed ones are the same, but for their order and what
/// they show of the moments.
pub proof fn the_order_of_answers_shows_only_in_times(
    channel: ChannelView,
    a: u16,
    a_data: Seq<u8>,
    a_first: Timestamp,
    a_second: Timestamp,
    b: u16,
    b_data: Seq<u8>,
    b_first: Timestamp,
    b_second: Timestamp,
)
    requires
        a != b,
    ensures
        ({
            let ab = channel.with_answer(a, a_data, a_first).with_answer(b, b_data, b_second);
            let ba = channel.with_answer(b, b_data, b_first).with_answer(a, a_data, a_second);
            &&& ab.commands == ba.commands
            &&& untimed(ab.completed_commands).to_multiset() == untimed(
                ba.completed_commands,
            ).to_multiset()
            &&& ab.sent == ba.sent
            &&& ab.tx_state == ba.tx_state
        }),
{
    lemma_waiting_after_two(channel, a, a_data, a_first, b, b_data, b_second);
    lemma_waiting_after_two(channel, b, b_data, b_first, a, a_data, a_second);
    lemma_completed_after_two(channel, a, a_data, a_first, b, b_data, b_second);
    lemma_completed_after_two(channel, b, b_data, b_first, a, a_data, a_second);
    let done = channel.completed_commands;
    if channel.awaits(a) && channel.awaits(b) {
        let p = channel.commands[channel.place_of(a)];
        let q = channel.commands[channel.place_of(b)];
        lemma_untimed_push(done, p.answered(a_data, a_first));
        lemma_untimed_push(done.push(p.answered(a_data, a_first)), q.answered(b_data, b_second));
        lemma_untimed_push(done, q.answered(b_data, b_first));
        lemma_untimed_push(done.push(q.answered(b_data, b_first)), p.answered(a_data, a_second));
        lemma_push_two(
            untimed(done),
            p.answered(a_data, a_first).untimed(),
            q.answered(b_data, b_first).untimed(),
        );
    } else if channel.awaits(a) {
        let p = channel.commands[channel.place_of(a)];
        lemma_untimed_push(done, p.answered(a_data, a_first));
        lemma_untimed_push(done, p.answered(a_data, a_second));
    } else if channel.awaits(b) {
        let q = channel.commands[channel.place_of(b)];
        lemma_untimed_push(done, q.answered(b_data, b_first));
        lemma_untimed_push(done, q.answered(b_data, b_second));
    }
}

proof fn lemma_untimed_push(commands: Seq<CommandView>, command: CommandView)
    ensures
        untimed(commands.push(command)) == untimed(commands).push(command.untimed()),
{
}

/// Two elements at the end can stand in either order, as far as only their number counts.
proof fn lemma_push_two(commands: Seq<CommandView>, x: CommandView, y: CommandView)
    ensures
        commands.push(x).push(y).to_multiset() == commands.push(y).push(x).to_multiset(),
{
    broadcast use vstd::seq_lib::group_to_multiset_ensures;

    assert(commands.push(x).push(y).to_multiset() =~= commands.push(y).push(x).to_multiset());
}

/// The commands with the elements at two places taken out.
spec fn without_two(commands: Seq<CommandView>, p: int, q: int) -> Seq<CommandView> {
    if p < q {
        commands.remove(q).remove(p)
    } else {
        commands.remove(p).remove(q)
    }
}

/// The commands that wait after two answers to different numbers.
proof fn lemma_waiting_after_two(
    channel: ChannelView,
    a: u16,
    a_data: Seq<u8>,
    a_now: Timestamp,
    b: u16,
    b_data: Seq<u8>,
    b_now: Timestamp,
)
    requires
        a != b,
    ensures
        channel.with_answer(a, a_data, a_now).with_answer(b, b_data, b_now).commands
            == if channel.awaits(a) && channel.awaits(b) {
            without_two(channel.commands, channel.place_of(a), channel.place_of(b))
        } else if channel.awaits(a) {
            channel.commands.remove(channel.place_of(a))
        } else if channel.awaits(b) {
            channel.commands.remove(channel.place_of(b))
        } else {
            channel.commands
        },
        channel.awaits(a) && channel.awaits(b) ==> without_two(
            channel.commands,
            channel.place_of(a),
            channel.place_of(b),
        ) == without_two(channel.commands, channel.place_of(b), channel.place_of(a)),
{
    lemma_place_after_answer(channel, a, a_data, a_now, b);
    lemma_place_after_answer(channel, b, b_data, b_now, a);
    if channel.awaits(a) && channel.awaits(b) {
        let p = channel.place_of(a);
        let q = channel.place_of(b);
        if p < q {
            lemma_remove_two(channel.commands, p, q);
        }
    }
}

/// The commands that are completed after two answers to different numbers.
proof fn lemma_completed_after_two(
    channel: ChannelView,
    a: u16,
    a_data: Seq<u8>,
    a_now: Timestamp,
    b: u16,
    b_data: Seq<u8>,
    b_now: Timestamp,
)
    requires
        a != b,
    ensures
        ({
            let done = channel.completed_commands;
            let x = channel.commands[channel.place_of(a)].answered(a_data, a_now);
            let y = channel.commands[channel.place_of(b)].answered(b_data, b_now);
            channel.with_answer(a, a_data, a_now).with_answer(b, b_data, b_now).completed_commands
                == if channel.awaits(a) && channel.awaits(b) {
                done.push(x).push(y)
            } else if channel.awaits(a) {
                done.push(x)
            } else if channel.awaits(b) {
                done.push(y)
            } else {
                done
            }
        }),
{
    lemma_place_after_answer(channel, a, a_data, a_now, b);
    lemma_place_after_answer(channel, b, b_data, b_now, a);
    if channel.awaits(a) && channel.awaits(b) {
        let p = channel.place_of(a);
        let q = channel.place_of(b);
        assert(channel.commands.remove(p)[if p < q {
            q - 1
        } else {
            q
        }] == channel.commands[q]);
    }
}

/// Two elements can be taken out in either order.
proof fn lemma_remove_two(commands: Seq<CommandView>, p: int, q: int)
    requires
        0 <= p < q < commands.len(),
    ensures
        commands.remove(p).remove(q - 1) == commands.remove(q).remove(p),
{
    let one = commands.remove(p).remove(q - 1);
    let other = commands.remove(q).remove(p);
    assert forall|i: int| 0 <= i < one.len() implies one[i] == other[i] by {
        if i < p {
            assert(one[i] == commands[i]);
        } else if i < q - 1 {
            assert(one[i] == commands[i + 1]);
        } else {
            assert(one[i] == commands[i + 2]);
        }
    }
    assert(one == other);
}

/// Where the first command with one number stands after an answer to another number.
proof fn lemma_place_after_answer(
    channel: ChannelView,
    a: u16,
    data: Seq<u8>,
    now: Timestamp,
    b: u16,
)
    requires
        a != b,
    ensures
        channel.with_answer(a, data, now).awaits(b) == channel.awaits(b),
        channel.awaits(b) ==> channel.with_answer(a, data, now).place_of(b) == if channel.awaits(a)
            && channel.place_of(a) < channel.place_of(b) {
            channel.place_of(b) - 1
        } else {
            channel.place_of(b)
        },
        channel.awaits(b) ==> 0 <= channel.place_of(b) < channel.commands.len(),
        channel.awaits(a) && channel.awaits(b) ==> channel.place_of(a) != channel.place_of(b),
{
    let after = channel.with_answer(a, data, now);
    if channel.awaits(a) {
        let p = channel.place_of(a);
        assert(is_first_with_id(channel.commands, a, p));
        if channel.awaits(b) {
            let q = channel.place_of(b);
            assert(is_first_with_id(channel.commands, b, q));
            let r = if p < q {
                q - 1
            } else {
                q
            };
            assert(after.commands[r] == channel.commands[q]);
            assert forall|j: int| 0 <= j < r implies (#[trigger] after.commands[j]).id != b by {
                if j < p {
                    assert(after.commands[j] == channel.commands[j]);
                } else {
                    assert(after.commands[j] == channel.commands[j + 1]);
                }
            }
            assert(is_first_with_id(after.commands, b, r));
            places_are_unique(after, b, r);
        }
        if after.awaits(b) {
            let q = after.place_of(b);
            assert(is_first_with_id(after.commands, b, q));
            let r = if p <= q {
                q + 1
            } else {
                q
            };
            assert(after.commands[q] == channel.commands[r]);
            assert forall|j: int| 0 <= j < r implies (#[trigger] channel.commands[j]).id != b by {
                if j < p {
                    assert(after.commands[j] == channel.commands[j]);
                } else if j > p {
                    assert(after.commands[j - 1] == channel.commands[j]);
                }
            }
            assert(is_first_with_id(channel.commands, b, r));
        }
    } else if channel.awaits(b) {
        assert(is_first_with_id(channel.commands, b, channel.place_of(b)));
    }
}

/// Only one thread writes frames at a time: whoever claims the writing after another,
/// without a stop between, is told to start none, and after a stop the next is told to.
pub proof fn writers_are_alone(channel: ChannelView)
    ensures
        channel.started().tx_state == SPIQueueState::Running,
        channel.started().started() == channel.started(),
        channel.started().stopped().tx_state == SPIQueueState::Stopped,
        forall|command: CommandView|
            (#[trigger] channel.with_sent(command)).tx_state == SPIQueueState::Running,
{
}

/// Frames go in the queue in the order in which the commands were sent.
pub proof fn frames_go_out_in_order(channel: ChannelView, a: CommandView, b: CommandView)
    ensures
        channel.with_sent(a).with_sent(b).sent == channel.sent + seq![a.frame(), b.frame()],
{
}

} // verus!
