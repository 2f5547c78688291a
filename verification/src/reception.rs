//! The taking of an answer, in three parts: its header is read, room is made for its
//! data, and its data are read. The log shows how long each part took.

use vstd::prelude::*;

use crate::channel;
use crate::channel::{ChannelView, SPIChannel};
use crate::clock;
use crate::clock::{Span, Timestamp};
use crate::command::CommandView;
use crate::messages;
use crate::messages::{MessageLevel, Messages};
use crate::wire;
use crate::wire::RxHeader;

verus! {

/// An answer of which the header has been read.
#[derive(Clone, Copy, PartialEq, Eq, Structural, Debug)]
pub struct Reception {
    pub header: RxHeader,
    /// How long the reading of the header took.
    pub header_span: Span,
    /// How long the making of room took.
    pub room_span: Span,
}

/// Three times as the log shows them.
pub open spec fn spans_line(first: Span, second: Span, third: Span) -> Seq<char> {
    first.text() + seq![' ', ':', ' '] + second.text() + seq![' ', ':', ' '] + third.text()
}

/// Three times as the log shows them.
pub fn spans_text(first: &Span, second: &Span, third: &Span) -> (line: String)
    requires
        first.valid(),
        second.valid(),
        third.valid(),
    ensures
        line@ == spans_line(*first, *second, *third),
{
    let mut line = first.to_text();
    line.push(' ');
    line.push(':');
    line.push(' ');
    line.append(second.to_text().as_str());
    line.push(' ');
    line.push(':');
    line.push(' ');
    line.append(third.to_text().as_str());
    proof {
        assert(line@ == spans_line(*first, *second, *third));
    }
    line
}

/// Whether an answer is to be read, by what the wait for an edge of the busy line gave: an
/// edge says so, running out of time does not.
pub fn answer_waits(edge: Option<u8>) -> (waits: bool)
    ensures
        waits == edge is Some,
{
    edge.is_some()
}

impl Reception {
    /// Whether the times that the parts took can be written.
    pub open spec fn valid(self) -> bool {
        self.header_span.valid() && self.room_span.valid()
    }

    /// An answer of which the header has been read, with when that began and ended, and
    /// when the making of room did.
    pub fn timed(
        header: RxHeader,
        started: Timestamp,
        finished: Timestamp,
        room_started: Timestamp,
        room_finished: Timestamp,
    ) -> (reception: Reception)
        requires
            started.valid(),
            finished.valid(),
            room_started.valid(),
            room_finished.valid(),
        ensures
            reception.valid(),
            reception.header == header,
            reception.header_span == Span::from_to(started, finished),
            reception.room_span == Span::from_to(room_started, room_finished),
    {
        Reception {
            header,
            header_span: Span::between(started, finished),
            room_span: Span::between(room_started, room_finished),
        }
    }

    /// Takes the header of an answer, and makes room for its data.
    pub fn begin(raw: &[u8; 4], started: Timestamp, finished: Timestamp) -> (begun: (
        Reception,
        Vec<u8>,
    ))
        requires
            started.valid(),
            finished.valid(),
        ensures
            begun.0.valid(),
            begun.0.header == RxHeader::of(raw@),
            begun.0.header_span == Span::from_to(started, finished),
            exists|room_started: Timestamp, room_finished: Timestamp|
                room_started.valid() && room_finished.valid() && room_started.read_from_clock()
                    && room_finished.read_from_clock() && begun.0.room_span
                    == #[trigger] Span::from_to(room_started, room_finished),
            begun.1@ == Seq::new(begun.0.header.message_size as nat, |i: int| 0u8),
    {
        let room_started = Timestamp::now();
        let header = RxHeader::parse(raw);
        let room = header.buffer();
        let room_finished = Timestamp::now();
        (Reception::timed(header, started, finished, room_started, room_finished), room)
    }

    /// The line that the log shows once the data have been read.
    pub fn line(&self, started: Timestamp, finished: Timestamp) -> (line: String)
        requires
            self.valid(),
            started.valid(),
            finished.valid(),
        ensures
            line@ == spans_line(
                self.header_span,
                self.room_span,
                Span::from_to(started, finished),
            ),
    {
        spans_text(&self.header_span, &self.room_span, &Span::between(started, finished))
    }

    /// Hands an answer over whose data have been read: the log shows how long the parts
    /// took, and the command that the header names takes the data.
    pub fn deliver(
        &self,
        data: Vec<u8>,
        started: Timestamp,
        finished: Timestamp,
        log: &mut Messages,
        channel: &mut SPIChannel,
    )
        requires
            self.valid(),
            started.valid(),
            finished.valid(),
            old(log)@.valid(),
            old(channel).wf(),
        ensures
            final(log)@.valid(),
            exists|time: Timestamp|
                time.valid() && time.read_from_clock() && final(log)@ == old(log)@.with(
                    #[trigger] messages::message_at(
                        time,
                        MessageLevel::INFO,
                        spans_line(
                            self.header_span,
                            self.room_span,
                            Span::from_to(started, finished),
                        ),
                    ),
                ),
            final(channel).wf(),
            forall|reader: spmc::Receiver<Vec<u8>>| #[trigger]
                final(channel).reads_queue(reader) == old(channel).reads_queue(reader),
            exists|now: Timestamp|
                now.valid() && now.read_from_clock() && final(channel)@ == #[trigger] old(channel)@.with_answer(
                    self.header.message_id,
                    data@,
                    now,
                ),
    {
        log.push(MessageLevel::INFO, self.line(started, finished));
        channel.receive_response(self.header.message_id, data);
    }
}

/// The line of the log shows the lengths of the three times, in order.
pub proof fn lines_show_three_times(first: Span, second: Span, third: Span)
    requires
        first.valid(),
        second.valid(),
        third.valid(),
    ensures
        exists|a: Seq<char>, b: Seq<char>, c: Seq<char>|
            #![trigger a + b + c]
            spans_line(first, second, third) == a + seq![' ', ':', ' '] + b + seq![' ', ':', ' '] + c
                && clock::shows_nanos(a, first.total()) && clock::shows_nanos(b, second.total())
                && clock::shows_nanos(c, third.total()),
{
    clock::spans_read_back(first);
    clock::spans_read_back(second);
    clock::spans_read_back(third);
    let line = first.text() + second.text() + third.text();
}

/// An answer that the device sends to a command under a number that is not in use ends up
/// with that command: its header makes room for exactly its data, and names the command,
/// which is then the last of the completed ones.
pub proof fn answers_reach_their_command(
    before: ChannelView,
    command: CommandView,
    data: Seq<u8>,
    now: Timestamp,
)
    requires
        forall|i: int|
            0 <= i < before.commands.len() ==> (#[trigger] before.commands[i]).id != command.id,
        data.len() <= u16::MAX,
    ensures
        ({
            let header = RxHeader::of(wire::header_bytes(command.id, data.len() as u16));
            let after = before.with_sent(command).with_answer(header.message_id, data, now);
            &&& header.message_size == data.len()
            &&& after.commands == before.commands
            &&& after.completed_commands == before.completed_commands.push(
                command.answered(data, now),
            )
        }),
{
    let header = RxHeader { message_id: command.id, message_size: data.len() as u16 };
    wire::header_survives_the_wire(header, seq![]);
    assert(wire::header_bytes(command.id, data.len() as u16) + Seq::<u8>::empty()
        == wire::header_bytes(command.id, data.len() as u16));
    channel::a_command_finds_its_answer(before, command, data, now);
}

} // verus!
