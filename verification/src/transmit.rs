//! The thread that writes frames to the device, one decision at a time. It takes a frame
//! out of the queue, reads the busy line until the device is free, writes the frame, and
//! ends when the queue is empty.

use vstd::prelude::*;

use crate::channel::SPIChannel;
use crate::messages::MessageLevel;
use crate::queue;

verus! {

/// How long to pause before the busy line is read again, in microseconds.
pub const BUSY_PAUSE_MICROS: i64 = 10_000;

/// How long the device is left alone after a frame, in microseconds.
pub const FRAME_PAUSE_MICROS: i64 = 100;

/// How far the writing has come.
pub enum Transmitter {
    /// The next frame is to be taken out of the queue.
    Fetching,
    /// A frame waits for the device to be free.
    Holding(Vec<u8>),
    /// The queue was empty.
    Finished,
}

/// What came of the last thing that was done.
pub enum TxEvent {
    /// The queue gave a frame, or none.
    Fetched(Option<Vec<u8>>),
    /// The busy line was read.
    Busy(u8),
}

/// What is to be done next.
pub enum TxAction {
    /// Read the busy line.
    ReadBusy,
    /// Log the message, pause, and read the busy line.
    Wait { level: MessageLevel, message: String, pause_micros: i64 },
    /// Write the frame, pause, and take the next one out of the queue.
    Write { frame: Vec<u8>, pause_micros: i64 },
    /// End the thread.
    Stop,
}

/// What a transmitter is.
#[verifier::ext_equal]
pub enum TransmitterView {
    Fetching,
    Holding(Seq<u8>),
    Finished,
}

/// What an event is.
#[verifier::ext_equal]
pub enum TxEventView {
    Fetched(Option<Seq<u8>>),
    Busy(u8),
}

/// What an action is.
#[verifier::ext_equal]
pub enum TxActionView {
    ReadBusy,
    Wait { level: MessageLevel, message: Seq<char>, pause_micros: i64 },
    Write { frame: Seq<u8>, pause_micros: i64 },
    Stop,
}

impl View for Transmitter {
    type V = TransmitterView;

    open spec fn view(&self) -> TransmitterView {
        match self {
            Transmitter::Fetching => TransmitterView::Fetching,
            Transmitter::Holding(frame) => TransmitterView::Holding(frame@),
            Transmitter::Finished => TransmitterView::Finished,
        }
    }
}

impl View for TxEvent {
    type V = TxEventView;

    open spec fn view(&self) -> TxEventView {
        match self {
            TxEvent::Fetched(Some(frame)) => TxEventView::Fetched(Some(frame@)),
            TxEvent::Fetched(None) => TxEventView::Fetched(None),
            TxEvent::Busy(level) => TxEventView::Busy(*level),
        }
    }
}

impl View for TxAction {
    type V = TxActionView;

    open spec fn view(&self) -> TxActionView {
        match self {
            TxAction::ReadBusy => TxActionView::ReadBusy,
            TxAction::Wait { level, message, pause_micros } => TxActionView::Wait {
                level: *level,
                message: message@,
                pause_micros: *pause_micros,
            },
            TxAction::Write { frame, pause_micros } => TxActionView::Write {
                frame: frame@,
                pause_micros: *pause_micros,
            },
            TxAction::Stop => TxActionView::Stop,
        }
    }
}

impl TransmitterView {
    /// Whether an event can come now.
    pub open spec fn accepts(self, event: TxEventView) -> bool {
        match self {
            TransmitterView::Fetching => event is Fetched,
            TransmitterView::Holding(_) => event is Busy,
            TransmitterView::Finished => false,
        }
    }

    /// Where an event leads, and what is to be done next.
    pub open spec fn step(self, event: TxEventView) -> (TransmitterView, TxActionView) {
        match (self, event) {
            (_, TxEventView::Fetched(Some(frame))) => (
                TransmitterView::Holding(frame),
                TxActionView::ReadBusy,
            ),
            (TransmitterView::Holding(frame), TxEventView::Busy(level)) => if level == 0 {
                (
                    TransmitterView::Fetching,
                    TxActionView::Write { frame, pause_micros: FRAME_PAUSE_MICROS },
                )
            } else {
                (
                    self,
                    TxActionView::Wait {
                        level: MessageLevel::INFO,
                        message: "Waiting"@,
                        pause_micros: BUSY_PAUSE_MICROS,
                    },
                )
            },
            _ => (TransmitterView::Finished, TxActionView::Stop),
        }
    }

    /// Whether a series of events can come, one after the other.
    pub open spec fn accepts_all(self, events: Seq<TxEventView>) -> bool
        decreases events.len(),
    {
        events.len() == 0 || (self.accepts_all(events.drop_last()) && self.after(
            events.drop_last(),
        ).accepts(events.last()))
    }

    /// Where a series of events leads.
    pub open spec fn after(self, events: Seq<TxEventView>) -> TransmitterView
        decreases events.len(),
    {
        if events.len() == 0 {
            self
        } else {
            self.after(events.drop_last()).step(events.last()).0
        }
    }

    /// What is done in the course of a series of events.
    pub open spec fn actions(self, events: Seq<TxEventView>) -> Seq<TxActionView>
        decreases events.len(),
    {
        if events.len() == 0 {
            seq![]
        } else {
            self.actions(events.drop_last()).push(
                self.after(events.drop_last()).step(events.last()).1,
            )
        }
    }

    /// The frame that waits for the device, if any.
    pub open spec fn held(self) -> Seq<Seq<u8>> {
        match self {
            TransmitterView::Holding(frame) => seq![frame],
            _ => seq![],
        }
    }
}

/// The frames that the queue gave, in order.
pub open spec fn fetched(events: Seq<TxEventView>) -> Seq<Seq<u8>>
    decreases events.len(),
{
    if events.len() == 0 {
        seq![]
    } else {
        match events.last() {
            TxEventView::Fetched(Some(frame)) => fetched(events.drop_last()).push(frame),
            _ => fetched(events.drop_last()),
        }
    }
}

/// The frames that were written, in order.
pub open spec fn written(actions: Seq<TxActionView>) -> Seq<Seq<u8>>
    decreases actions.len(),
{
    if actions.len() == 0 {
        seq![]
    } else {
        match actions.last() {
            TxActionView::Write { frame, .. } => written(actions.drop_last()).push(frame),
            _ => written(actions.drop_last()),
        }
    }
}

impl Transmitter {
    /// A thread that has just been started. It has to take a frame out of the queue.
    pub fn new() -> (transmitter: Transmitter)
        ensures
            transmitter@ == TransmitterView::Fetching,
    {
        Transmitter::Fetching
    }

    /// Takes the next frame out of the queue, and says what to do with it. A frame that
    /// comes out is held, and what was taken out at this end is, in order, among what the
    /// channel has sent.
    pub fn fetch(self, reader: &mut spmc::Receiver<Vec<u8>>, channel: &SPIChannel) -> (next: (
        Transmitter,
        TxAction,
    ))
        requires
            self@ is Fetching,
            channel.reads_queue(*old(reader)),
        ensures
            exists|frame: Option<Seq<u8>>|
                (next.0@, next.1@) == #[trigger] self@.step(TxEventView::Fetched(frame)),
            queue::frames_taken(*final(reader)) == queue::frames_taken(*old(reader))
                + next.0@.held(),
            queue::in_order_among(queue::frames_taken(*final(reader)), channel@.sent),
            channel.reads_queue(*final(reader)),
            exists|frame: Option<Vec<u8>>| #[trigger]
                channel.gave_frame(*old(reader), frame) && (next.0@, next.1@) == self@.step(
                    TxEvent::Fetched(frame)@,
                ),
    {
        let frame = channel.take_frame(reader);
        let ghost gave = frame;
        let event = TxEvent::Fetched(frame);
        proof {
            assert(channel.gave_frame(*old(reader), gave));
            assert(event@ == TxEventView::Fetched(event@->Fetched_0));
        }
        self.step(event)
    }

    /// Decides what to do next.
    pub fn step(self, event: TxEvent) -> (next: (Transmitter, TxAction))
        requires
            self@.accepts(event@),
        ensures
            (next.0@, next.1@) == self@.step(event@),
    {
        match event {
            TxEvent::Fetched(Some(frame)) => (Transmitter::Holding(frame), TxAction::ReadBusy),
            TxEvent::Fetched(None) => (Transmitter::Finished, TxAction::Stop),
            TxEvent::Busy(level) => match self {
                Transmitter::Holding(frame) => if level == 0 {
                    (
                        Transmitter::Fetching,
                        TxAction::Write { frame, pause_micros: FRAME_PAUSE_MICROS },
                    )
                } else {
                    (
                        Transmitter::Holding(frame),
                        TxAction::Wait {
                            level: MessageLevel::INFO,
                            message: "Waiting".to_owned(),
                            pause_micros: BUSY_PAUSE_MICROS,
                        },
                    )
                },
                _ => (Transmitter::Finished, TxAction::Stop),
            },
        }
    }
}

/// Every frame that was taken out of the queue is written, once and in order; only the
/// last may still wait for the device.
pub proof fn frames_are_written_in_order(events: Seq<TxEventView>)
    requires
        TransmitterView::Fetching.accepts_all(events),
    ensures
        fetched(events) == written(TransmitterView::Fetching.actions(events))
            + TransmitterView::Fetching.after(events).held(),
    decreases events.len(),
{
    if events.len() > 0 {
        frames_are_written_in_order(events.drop_last());
        let start = TransmitterView::Fetching;
        let before = start.after(events.drop_last());
        assert(start.actions(events).drop_last() == start.actions(events.drop_last()));
        assert(before.accepts(events.last()));
    }
}

/// What the frames of a series of events come to, when one more is fetched: fetching adds
/// to them just what it adds to those taken out of the queue.
pub proof fn fetching_follows_the_queue(
    events: Seq<TxEventView>,
    frame: Option<Seq<u8>>,
    taken: Seq<Seq<u8>>,
)
    requires
        TransmitterView::Fetching.after(events) is Fetching,
        taken == fetched(events),
    ensures
        ({
            let event = TxEventView::Fetched(frame);
            let next = TransmitterView::Fetching.after(events).step(event).0;
            &&& TransmitterView::Fetching.accepts_all(events)
                ==> TransmitterView::Fetching.accepts_all(events.push(event))
            &&& TransmitterView::Fetching.after(events.push(event)) == next
            &&& taken + next.held() == fetched(events.push(event))
        }),
{
    assert(events.push(TxEventView::Fetched(frame)).drop_last() == events);
}

/// What is written to the device is, in order, among what was sent, wherever that holds of
/// what was taken out of the queue.
pub proof fn the_device_gets_what_was_sent(
    events: Seq<TxEventView>,
    taken: Seq<Seq<u8>>,
    sent: Seq<Seq<u8>>,
)
    requires
        TransmitterView::Fetching.accepts_all(events),
        taken == fetched(events),
        queue::in_order_among(taken, sent),
    ensures
        queue::in_order_among(written(TransmitterView::Fetching.actions(events)), sent),
{
    let done = written(TransmitterView::Fetching.actions(events));
    frames_are_written_in_order(events);
    queue::first_frames_keep_the_order(taken, sent, done.len() as int);
    assert(taken.take(done.len() as int) == done);
}

/// A frame that is held is written as it is, with a pause of a tenth of a millisecond, as
/// soon as the device is free. While the device is busy the frame is held on to, and each
/// time that is logged and ten milliseconds are let pass.
pub proof fn held_frames_wait_for_the_device(frame: Seq<u8>, level: u8)
    ensures
        TransmitterView::Fetching.step(TxEventView::Fetched(Some(frame))).0.held() == seq![frame],
        level == 0 ==> {
            let next = TransmitterView::Holding(frame).step(TxEventView::Busy(level));
            &&& next.0 is Fetching
            &&& next.1 matches TxActionView::Write { frame: out, pause_micros }
            &&& out == frame
            &&& pause_micros == 100
        },
        level != 0 ==> {
            let next = TransmitterView::Holding(frame).step(TxEventView::Busy(level));
            &&& next.0.held() == seq![frame]
            &&& next.1 matches TxActionView::Wait { level: grave, message, pause_micros }
            &&& grave == MessageLevel::INFO
            &&& message == "Waiting"@
            &&& pause_micros == 10_000
        },
{
}

/// A frame is written only when the busy line was read as zero, the thread ends only when
/// the queue gave nothing, and while the device is busy nothing but waiting is done.
pub proof fn actions_have_their_cause(events: Seq<TxEventView>, k: int)
    requires
        TransmitterView::Fetching.accepts_all(events),
        0 <= k < events.len(),
    ensures
        TransmitterView::Fetching.actions(events).len() == events.len(),
        TransmitterView::Fetching.actions(events)[k] is Write <==> events[k] == TxEventView::Busy(0),
        TransmitterView::Fetching.actions(events)[k] is Stop <==> events[k]
            == TxEventView::Fetched(None),
        TransmitterView::Fetching.actions(events)[k] is Wait <==> (events[k] is Busy && events[k]
            != TxEventView::Busy(0)),
    decreases events.len(),
{
    let start = TransmitterView::Fetching;
    let before = events.drop_last();
    assert(start.after(before).accepts(events.last()));
    lemma_one_action_each(before);
    if k < before.len() {
        actions_have_their_cause(before, k);
        assert(start.actions(events)[k] == start.actions(before)[k]);
        assert(events[k] == before[k]);
    } else {
        assert(start.actions(events)[k] == start.after(before).step(events.last()).1);
    }
}

proof fn lemma_one_action_each(events: Seq<TxEventView>)
    ensures
        TransmitterView::Fetching.actions(events).len() == events.len(),
    decreases events.len(),
{
    if events.len() > 0 {
        lemma_one_action_each(events.drop_last());
    }
}

/// Once the queue gave nothing, nothing more can come.
pub proof fn nothing_comes_after_the_end(events: Seq<TxEventView>, k: int)
    requires
        TransmitterView::Fetching.accepts_all(events),
        0 <= k < events.len(),
        events[k] == TxEventView::Fetched(None),
    ensures
        k == events.len() - 1,
        TransmitterView::Fetching.after(events) is Finished,
    decreases events.len(),
{
    let start = TransmitterView::Fetching;
    let before = events.drop_last();
    assert(start.after(before).accepts(events.last()));
    if k < before.len() {
        assert(before[k] == events[k]);
        nothing_comes_after_the_end(before, k);
    }
}

} // verus!
