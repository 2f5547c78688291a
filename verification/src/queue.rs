//! The queue that carries frames from the channel to the thread that writes them.

use vstd::prelude::*;

verus! {

/// The writing end of a `spmc` queue.
#[verifier::external_type_specification]
#[verifier::external_body]
#[verifier::reject_recursive_types(T)]
pub struct ExSender<T: Send>(spmc::Sender<T>);

/// A reading end of a `spmc` queue.
#[verifier::external_type_specification]
#[verifier::external_body]
#[verifier::reject_recursive_types(T)]
pub struct ExReceiver<T: Send>(spmc::Receiver<T>);

/// All the frames that were put in at this end, in order, whether they were taken out
/// again or not.
pub uninterp spec fn frames_sent(queue: spmc::Sender<Vec<u8>>) -> Seq<Seq<u8>>;

/// Whether the two ends belong to one queue.
pub uninterp spec fn connected(
    queue: spmc::Sender<Vec<u8>>,
    reader: spmc::Receiver<Vec<u8>>,
) -> bool;

/// All the frames that were taken out at this end, in order.
pub uninterp spec fn frames_taken(reader: spmc::Receiver<Vec<u8>>) -> Seq<Seq<u8>>;

/// Whether these places, which go up, are those at which some frames stand among others.
pub open spec fn stand_at(some: Seq<Seq<u8>>, all: Seq<Seq<u8>>, places: Seq<int>) -> bool {
    &&& places.len() == some.len()
    &&& forall|i: int|
        0 <= i < places.len() ==> 0 <= #[trigger] places[i] < all.len() && all[places[i]] == some[i]
    &&& forall|i: int, j: int| 0 <= i < j < places.len() ==> places[i] < places[j]
}

/// Whether some frames are among others, in the same order, each as often at most.
pub open spec fn in_order_among(some: Seq<Seq<u8>>, all: Seq<Seq<u8>>) -> bool {
    exists|places: Seq<int>| stand_at(some, all, places)
}

/// What a queue gave, as the frames that came out.
pub open spec fn given(frame: Option<Vec<u8>>) -> Seq<Seq<u8>> {
    match frame {
        Some(frame) => seq![frame@],
        None => seq![],
    }
}

/// The reading end that stays with the writing end. It keeps the queue open, and further
/// ends are made from it; nothing is taken out at it.
pub struct SpareEnd {
    end: spmc::Receiver<Vec<u8>>,
}

impl SpareEnd {
    /// The end itself.
    pub closed spec fn end(self) -> spmc::Receiver<Vec<u8>> {
        self.end
    }
}

/// `spmc::channel`: the two ends of one queue, in which nothing has been put.
#[verifier::external_body]
pub(crate) fn new_queue() -> (ends: (spmc::Sender<Vec<u8>>, SpareEnd))
    ensures
        frames_sent(ends.0) == Seq::<Seq<u8>>::empty(),
        frames_taken(ends.1.end()) == Seq::<Seq<u8>>::empty(),
        connected(ends.0, ends.1.end()),
{
    let (queue, end) = spmc::channel();
    (queue, SpareEnd { end })
}

/// `spmc::Sender::send`: puts one frame in behind all others. It refuses a frame only
/// once every reading end of the queue is gone; one that is lent to this call is not, so
/// the frame is always taken.
#[verifier::external_body]
pub(crate) fn send_frame(
    queue: &mut spmc::Sender<Vec<u8>>,
    reader: &SpareEnd,
    frame: Vec<u8>,
)
    requires
        connected(*old(queue), reader.end()),
    ensures
        frames_sent(*final(queue)) == frames_sent(*old(queue)).push(frame@),
        forall|other: spmc::Receiver<Vec<u8>>|
            connected(*final(queue), other) == connected(*old(queue), other),
{
    queue.send(frame).unwrap();
}

/// `clone` of `spmc::Receiver`: one more reading end of the same queue, at which nothing
/// has been taken out.
#[verifier::external_body]
pub(crate) fn clone_reader(reader: &SpareEnd) -> (other: spmc::Receiver<Vec<u8>>)
    ensures
        forall|queue: spmc::Sender<Vec<u8>>|
            connected(queue, other) == connected(queue, reader.end()),
        frames_taken(other) == Seq::<Seq<u8>>::empty(),
    opens_invariants none
{
    reader.end.clone()
}

/// `spmc::Receiver::try_recv`: takes one frame out, or none where the queue is empty. The
/// queue gives its frames out in the order in which they were put in, each to one end
/// only. So what was taken out at this end, this frame last, is, in order, among what was
/// put in at the writing end, into which nothing goes while it is lent to this call.
/// Whether a frame is left, and which one, depends on what was taken out at the other ends
/// meanwhile, so no more is said of it.
#[verifier::external_body]
pub(crate) fn try_take_frame(
    queue: &spmc::Sender<Vec<u8>>,
    reader: &mut spmc::Receiver<Vec<u8>>,
) -> (frame: Option<Vec<u8>>)
    requires
        connected(*queue, *old(reader)),
    ensures
        frames_taken(*final(reader)) == frames_taken(*old(reader)) + given(frame),
        in_order_among(frames_taken(*final(reader)), frames_sent(*queue)),
        forall|other: spmc::Sender<Vec<u8>>|
            connected(other, *final(reader)) == connected(other, *old(reader)),
{
    reader.try_recv().ok()
}

/// Whether the queue, when it was asked for a frame at this end, gave this one, or none.
pub closed spec fn gave(
    queue: spmc::Sender<Vec<u8>>,
    reader: spmc::Receiver<Vec<u8>>,
    frame: Option<Vec<u8>>,
) -> bool {
    exists|asked: &mut spmc::Receiver<Vec<u8>>|
        #[trigger] call_ensures(try_take_frame, (&queue, asked), frame) && *asked == reader
}

/// Takes one frame out, or none where the queue is empty, and has that on record.
pub(crate) fn ask_for_frame(
    queue: &spmc::Sender<Vec<u8>>,
    reader: &mut spmc::Receiver<Vec<u8>>,
) -> (frame: Option<Vec<u8>>)
    requires
        connected(*queue, *old(reader)),
    ensures
        frames_taken(*final(reader)) == frames_taken(*old(reader)) + given(frame),
        in_order_among(frames_taken(*final(reader)), frames_sent(*queue)),
        forall|other: spmc::Sender<Vec<u8>>|
            connected(other, *final(reader)) == connected(other, *old(reader)),
        gave(*queue, *old(reader), frame),
{
    let ask = try_take_frame;
    ask(queue, reader)
}

/// Frames that are in order among others stay so when more are put in behind these.
pub proof fn later_frames_keep_the_order(
    some: Seq<Seq<u8>>,
    all: Seq<Seq<u8>>,
    more: Seq<Seq<u8>>,
)
    requires
        in_order_among(some, all),
    ensures
        in_order_among(some, all + more),
{
    let places = choose|places: Seq<int>| stand_at(some, all, places);
    assert(stand_at(some, all + more, places));
}

/// Of frames that are in order among others, the first ones are so too.
pub proof fn first_frames_keep_the_order(some: Seq<Seq<u8>>, all: Seq<Seq<u8>>, n: int)
    requires
        in_order_among(some, all),
        0 <= n <= some.len(),
    ensures
        in_order_among(some.take(n), all),
{
    let places = choose|places: Seq<int>| stand_at(some, all, places);
    assert(stand_at(some.take(n), all, places.take(n)));
}

/// Each of some frames that are in order among others is one of these.
pub proof fn frames_among_others_are_some_of_them(
    some: Seq<Seq<u8>>,
    all: Seq<Seq<u8>>,
    frame: Seq<u8>,
)
    requires
        in_order_among(some, all),
        some.contains(frame),
    ensures
        all.contains(frame),
{
    let places = choose|places: Seq<int>| stand_at(some, all, places);
    let i = choose|i: int| 0 <= i < some.len() && some[i] == frame;
    assert(all[places[i]] == frame);
}

/// No more frames come out at an end than were put in, and where as many came out, they are
/// just those that were put in, in the same order.
pub proof fn all_that_went_in_comes_out_in_order(some: Seq<Seq<u8>>, all: Seq<Seq<u8>>)
    requires
        in_order_among(some, all),
    ensures
        some.len() <= all.len(),
        some.len() == all.len() ==> some == all,
{
    let places = choose|places: Seq<int>| stand_at(some, all, places);
    assert forall|i: int| 0 <= i < places.len() implies i <= #[trigger] places[i] <= all.len()
        - some.len() + i by {
        lemma_places_bounds(some, all, places, i);
    }
    if some.len() > 0 {
        assert(places[0] <= all.len() - some.len());
    }
    if some.len() == all.len() {
        assert forall|i: int| 0 <= i < some.len() implies some[i] == all[i] by {
            assert(places[i] == i);
        }
    }
}

proof fn lemma_places_bounds(some: Seq<Seq<u8>>, all: Seq<Seq<u8>>, places: Seq<int>, i: int)
    requires
        stand_at(some, all, places),
        0 <= i < places.len(),
    ensures
        i <= places[i] <= all.len() - some.len() + i,
{
    lemma_places_from_below(some, all, places, i);
    lemma_places_from_above(some, all, places, i);
}

proof fn lemma_places_from_below(some: Seq<Seq<u8>>, all: Seq<Seq<u8>>, places: Seq<int>, i: int)
    requires
        stand_at(some, all, places),
        0 <= i < places.len(),
    ensures
        i <= places[i],
    decreases i,
{
    if i > 0 {
        lemma_places_from_below(some, all, places, i - 1);
        assert(places[i - 1] < places[i]);
    }
}

proof fn lemma_places_from_above(some: Seq<Seq<u8>>, all: Seq<Seq<u8>>, places: Seq<int>, i: int)
    requires
        stand_at(some, all, places),
        0 <= i < places.len(),
    ensures
        places[i] <= all.len() - some.len() + i,
    decreases places.len() - i,
{
    if i + 1 < places.len() {
        lemma_places_from_above(some, all, places, i + 1);
        assert(places[i] < places[i + 1]);
    }
}

} // verus!
