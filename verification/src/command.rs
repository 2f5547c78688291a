//! A command to the device, from its making to its answer.

use vstd::prelude::*;

use crate::clock;
use crate::clock::{Span, Timestamp};
use crate::text;
use crate::wire;

verus! {

/// A command: what it asks of the device, when it was made, what came back, and the row
/// that the tables show for it.
pub struct SPICommand {
    creation_time: Timestamp,
    response_time: Option<Timestamp>,
    id: u16,
    opcode: u16,
    data: Vec<u8>,
    response: Option<Vec<u8>>,
    delta_time: Option<Span>,
    rowvec: Vec<String>,
}

/// What a command is, apart from how it is stored.
#[verifier::ext_equal]
pub struct CommandView {
    pub creation_time: Timestamp,
    pub response_time: Option<Timestamp>,
    pub id: u16,
    pub opcode: u16,
    pub data: Seq<u8>,
    pub response: Option<Seq<u8>>,
    pub delta_time: Option<Span>,
    pub row: Seq<Seq<char>>,
}

impl CommandView {
    /// A command that was made at a moment and has no answer.
    pub open spec fn made(id: u16, opcode: u16, data: Seq<u8>, now: Timestamp) -> CommandView {
        CommandView {
            creation_time: now,
            response_time: None,
            id,
            opcode,
            data,
            response: None,
            delta_time: None,
            row: seq![],
        }.with_row()
    }

    /// The command with an answer that came at a moment.
    pub open spec fn answered(self, response: Seq<u8>, now: Timestamp) -> CommandView {
        CommandView {
            response_time: Some(now),
            response: Some(response),
            delta_time: Some(Span::from_to(self.creation_time, now)),
            ..self
        }.with_row()
    }

    /// The command with the row that belongs to it.
    pub open spec fn with_row(self) -> CommandView {
        CommandView { row: self.columns(), ..self }
    }

    /// The nine columns of the command's row: when it was made, how many bytes of data
    /// it has, its number, its operation, its data, an empty column, when the answer
    /// came, how long that took, and the answer.
    pub open spec fn columns(self) -> Seq<Seq<char>> {
        seq![
            self.creation_time.text(),
            text::decimal(self.data.len()),
            text::decimal(self.id as nat),
            text::decimal(self.opcode as nat),
            text::dump(self.data),
            seq![],
            match self.response_time {
                Some(time) => time.text(),
                None => seq![],
            },
            match self.delta_time {
                Some(span) => span.text(),
                None => seq![],
            },
            match self.response {
                Some(response) => text::dump(response),
                None => seq![],
            },
        ]
    }

    /// The command as it goes over the bus: its number and its operation, low byte
    /// first, then its data.
    pub open spec fn frame(self) -> Seq<u8> {
        wire::header_bytes(self.id, self.opcode) + self.data
    }

    /// The command without the moment of its answer, the time that it took, and the row.
    pub open spec fn untimed(self) -> CommandView {
        CommandView { response_time: None, delta_time: None, row: seq![], ..self }
    }

    /// Whether an answer has come.
    pub open spec fn completed(self) -> bool {
        self.response is Some
    }

    /// Whether all the command's times can be written.
    pub open spec fn times_valid(self) -> bool {
        &&& self.creation_time.valid()
        &&& self.response_time is Some ==> self.response_time->0.valid()
        &&& self.delta_time is Some ==> self.delta_time->0.valid()
    }

    /// What holds of every command: the answer, its moment and the time it took are
    /// there together or not at all, the time it took runs from the making to the
    /// answer, and the row is that of the command as it is.
    pub open spec fn valid(self) -> bool {
        &&& self.times_valid()
        &&& self.row == self.columns()
        &&& self.response is Some <==> self.response_time is Some
        &&& self.response is Some <==> self.delta_time is Some
        &&& self.response_time is Some ==> self.delta_time == Some(
            Span::from_to(self.creation_time, self.response_time->0),
        )
    }
}

impl View for SPICommand {
    type V = CommandView;

    closed spec fn view(&self) -> CommandView {
        CommandView {
            creation_time: self.creation_time,
            response_time: self.response_time,
            id: self.id,
            opcode: self.opcode,
            data: self.data@,
            response: match self.response {
                Some(response) => Some(response@),
                None => None,
            },
            delta_time: self.delta_time,
            row: self.rowvec@.map_values(|column: String| column@),
        }
    }
}

impl SPICommand {
    /// Makes a command now.
    pub fn new(id: u16, opcode: u16, data: Vec<u8>) -> (command: SPICommand)
        ensures
            command@.valid(),
            command@ == CommandView::made(id, opcode, data@, command@.creation_time),
            command@.creation_time.read_from_clock(),
    {
        SPICommand::new_at(id, opcode, data, Timestamp::now())
    }

    /// Makes a command at a given moment.
    pub fn new_at(id: u16, opcode: u16, data: Vec<u8>, now: Timestamp) -> (command: SPICommand)
        requires
            now.valid(),
        ensures
            command@.valid(),
            command@ == CommandView::made(id, opcode, data@, now),
    {
        let mut command = SPICommand {
            creation_time: now,
            response_time: None,
            id,
            opcode,
            data,
            response: None,
            delta_time: None,
            rowvec: Vec::new(),
        };
        command.update_row_vector();
        command
    }

    /// Whether an answer has come.
    pub fn is_completed(&self) -> (completed: bool)
        ensures
            completed == self@.completed(),
    {
        self.response.is_some()
    }

    /// The command's number.
    pub fn id(&self) -> (id: u16)
        ensures
            id == self@.id,
    {
        self.id
    }

    /// The command as it goes over the bus.
    pub fn serialize(&self) -> (frame: Vec<u8>)
        ensures
            frame@ == self@.frame(),
    {
        let mut frame: Vec<u8> = vec![0u8; 4];
        wire::put_u16(&mut frame, 0, self.id);
        wire::put_u16(&mut frame, 2, self.opcode);
        frame.extend_from_slice(self.data.as_slice());
        frame
    }

    /// The row of the command, column by column.
    pub fn get_row_vector(&self) -> (row: Vec<String>)
        ensures
            row@.map_values(|column: String| column@) == self@.row,
    {
        self.rowvec.clone()
    }

    /// Writes the row of the command anew.
    pub fn update_row_vector(&mut self)
        requires
            old(self)@.times_valid(),
        ensures
            final(self)@ == old(self)@.with_row(),
    {
        let response_time = match &self.response_time {
            Some(time) => time.to_text(),
            None => String::new(),
        };
        let delta_time = match &self.delta_time {
            Some(span) => span.to_text(),
            None => String::new(),
        };
        let response = match &self.response {
            Some(response) => text::dump_text(response),
            None => String::new(),
        };
        self.rowvec = vec![
            self.creation_time.to_text(),
            text::decimal_text(self.data.len() as u64),
            text::decimal_text(self.id as u64),
            text::decimal_text(self.opcode as u64),
            text::dump_text(&self.data),
            String::new(),
            response_time,
            delta_time,
            response,
        ];
    }

    /// Notes an answer that came at a given moment.
    pub(crate) fn answer_at(&mut self, response: Vec<u8>, now: Timestamp)
        requires
            old(self)@.creation_time.valid(),
            now.valid(),
        ensures
            final(self)@ == old(self)@.answered(response@, now),
            final(self)@.valid(),
    {
        self.response_time = Some(now);
        self.delta_time = Some(Span::between(self.creation_time, now));
        self.response = Some(response);
        self.update_row_vector();
    }
}

/// A command that is made now asks what it was made to ask, has no answer, and shows a
/// moment that was read from the clock.
pub proof fn commands_are_stamped_by_the_clock(
    id: u16,
    opcode: u16,
    data: Vec<u8>,
    command: SPICommand,
)
    requires
        call_ensures(SPICommand::new, (id, opcode, data), command),
    ensures
        command@.id == id,
        command@.opcode == opcode,
        command@.data == data@,
        command@.response is None,
        command@.response_time is None,
        command@.creation_time.read_from_clock(),
        clock::shows_moment(command@.row[0], command@.creation_time),
{
    rows_show_all_columns(command@);
}

/// What each column of a row shows. The first is the moment of making, then come the number
/// of data bytes, the command's number, its operation, the data, and nothing. The last three
/// are the moment of the answer, the time from the making to it, and the answer's bytes, and
/// are empty for as long as there is no answer.
pub proof fn rows_show_all_columns(command: CommandView)
    requires
        command.valid(),
    ensures
        command.row.len() == 9,
        clock::shows_moment(command.row[0], command.creation_time),
        text::is_number(command.row[1]),
        text::number(command.row[1]) == command.data.len(),
        text::is_number(command.row[2]),
        text::number(command.row[2]) == command.id,
        text::is_number(command.row[3]),
        text::number(command.row[3]) == command.opcode,
        text::shows_bytes(command.row[4], command.data),
        command.row[5].len() == 0,
        command.response is None ==> {
            &&& command.row[6].len() == 0
            &&& command.row[7].len() == 0
            &&& command.row[8].len() == 0
        },
        command.response is Some ==> {
            &&& command.response_time is Some
            &&& clock::shows_moment(command.row[6], command.response_time->0)
            &&& clock::shows_nanos(
                command.row[7],
                command.response_time->0.total() - command.creation_time.total(),
            )
            &&& text::shows_bytes(command.row[8], command.response->0)
        },
{
    let row = command.columns();
    assert(command.row == row);
    clock::moments_read_back(command.creation_time);
    text::decimal_reads_back(command.data.len());
    text::decimal_reads_back(command.id as nat);
    text::decimal_reads_back(command.opcode as nat);
    text::dumps_read_back(command.data);
    if command.response is Some {
        let time = command.response_time->0;
        clock::moments_read_back(time);
        clock::spans_add_up(command.creation_time, time, time);
        clock::spans_read_back(command.delta_time->0);
        text::dumps_read_back(command.response->0);
    }
}

/// Two commands that show the same size have data of the same length, and the dump of data
/// is three characters wide for each byte that the size shows, but for the last space.
pub proof fn sizes_tell_the_length(a: CommandView, b: CommandView)
    requires
        a.valid(),
        b.valid(),
    ensures
        a.row[1] == b.row[1] <==> a.data.len() == b.data.len(),
        a.data.len() > 0 ==> a.row[4].len() == 3 * text::number(a.row[1]) - 1,
{
    rows_show_all_columns(a);
    rows_show_all_columns(b);
}

/// The bytes of a frame: number and operation, the low byte before the high one, then the
/// data as they are.
pub proof fn frames_hold_low_bytes_first(command: CommandView)
    ensures
        command.frame().len() == 4 + command.data.len(),
        command.frame()[0] + 256 * command.frame()[1] == command.id,
        command.frame()[2] + 256 * command.frame()[3] == command.opcode,
        forall|i: int|
            0 <= i < command.data.len() ==> command.frame()[4 + i] == #[trigger] command.data[i],
{
}

/// A new command is as every command should be, and has no answer.
pub proof fn made_commands_are_valid(id: u16, opcode: u16, data: Seq<u8>, now: Timestamp)
    requires
        now.valid(),
    ensures
        CommandView::made(id, opcode, data, now).valid(),
        !CommandView::made(id, opcode, data, now).completed(),
        CommandView::made(id, opcode, data, now).id == id,
        CommandView::made(id, opcode, data, now).opcode == opcode,
        CommandView::made(id, opcode, data, now).data == data,
        CommandView::made(id, opcode, data, now).creation_time == now,
        CommandView::made(id, opcode, data, now).response is None,
{
}

/// An answer completes a command and leaves what was asked as it was: the number, the
/// operation, the data, the moment of making, and so the frame.
pub proof fn answers_keep_the_question(command: CommandView, response: Seq<u8>, now: Timestamp)
    ensures
        command.answered(response, now).completed(),
        command.answered(response, now).response == Some(response),
        command.answered(response, now).response_time == Some(now),
        command.answered(response, now).id == command.id,
        command.answered(response, now).opcode == command.opcode,
        command.answered(response, now).data == command.data,
        command.answered(response, now).creation_time == command.creation_time,
        command.answered(response, now).frame() == command.frame(),
{
}

/// The time that an answer took is that from the making of the command to the answer,
/// to the nanosecond.
pub proof fn answers_are_timed(command: CommandView, response: Seq<u8>, now: Timestamp)
    requires
        command.creation_time.valid(),
        now.valid(),
    ensures
        command.answered(response, now).valid(),
        command.answered(response, now).delta_time is Some,
        command.answered(response, now).delta_time->0.total() == now.total()
            - command.creation_time.total(),
{
}

/// A frame can be read back: its header holds the number and the operation, and the
/// rest is the data.
pub proof fn frames_can_be_read_back(command: CommandView)
    ensures
        command.frame().len() == wire::HEADER_LEN + command.data.len(),
        wire::le_value(command.frame(), 0) == command.id,
        wire::le_value(command.frame(), 2) == command.opcode,
        command.frame().skip(wire::HEADER_LEN as int) == command.data,
{
}

/// Two commands have the same frame only where they ask the same under one number.
pub proof fn frames_tell_commands_apart(a: CommandView, b: CommandView)
    requires
        a.frame() == b.frame(),
    ensures
        a.id == b.id,
        a.opcode == b.opcode,
        a.data == b.data,
{
    frames_can_be_read_back(a);
    frames_can_be_read_back(b);
}

/// A row that is up to date stays as it is when it is written anew.
pub proof fn rows_are_stable(command: CommandView)
    ensures
        command.with_row().with_row() == command.with_row(),
        command.valid() ==> command.with_row() == command,
{
}

/// A row shows all there is to a command and its answer: where two rows are the same,
/// so are the number, the operation, the data, and the answer or its absence.
pub proof fn rows_tell_commands_apart(a: CommandView, b: CommandView)
    requires
        a.valid(),
        b.valid(),
        a.row == b.row,
    ensures
        a.id == b.id,
        a.opcode == b.opcode,
        a.data == b.data,
        a.completed() == b.completed(),
        a.response == b.response,
{
    assert(a.columns()[2] == b.columns()[2]);
    text::decimal_tells_the_number(a.id as nat, b.id as nat);
    assert(a.columns()[3] == b.columns()[3]);
    text::decimal_tells_the_number(a.opcode as nat, b.opcode as nat);
    assert(a.columns()[4] == b.columns()[4]);
    text::dump_tells_the_bytes(a.data, b.data);
    assert(a.columns()[6] == b.columns()[6]);
    assert(a.columns()[8] == b.columns()[8]);
    if a.response is Some && b.response is Some {
        text::dump_tells_the_bytes(a.response->0, b.response->0);
    }
}

} // verus!
