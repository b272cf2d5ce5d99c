//! The block feed of a tenant: one producer, many consumers, bounded.
//!
//! Every header that is published reaches every consumer that had subscribed
//! before, in the order of publication. The feed holds a header until every
//! such consumer has taken it or has left, and it holds no more than its
//! capacity: while it is full, a further header is refused and stays with the
//! producer. So one slow consumer holds up the publication for all, and no
//! header is lost.
//!
//! [`BlockFeed`] states this rule over plain values. The channel that carries
//! the headers between tasks is the caller's; it is opened with
//! [`FEED_CAPACITY`]. What the registry keeps of a feed is a handle that takes
//! no header and so holds none up; a consumer comes to be when such a handle
//! is made to receive, and it is then handed what is published from that
//! moment on, as [`BlockFeed::subscribe`] says.

use vstd::prelude::*;

verus! {

/// The number of headers that a block feed holds at most.
pub const FEED_CAPACITY: usize = 10;

/// Why a header was not published. The header comes back with the reason.
#[derive(Debug, PartialEq, Eq)]
pub enum PublishError<T> {
    /// The feed is full: a consumer has yet to take the oldest header.
    Full(T),
    /// The feed has no consumer.
    NoConsumer(T),
}

/// The least of `top` and the marks of `taken`.
pub open spec fn low_mark(taken: Seq<Option<nat>>, top: nat) -> nat
    decreases taken.len(),
{
    if taken.len() == 0 {
        top
    } else {
        let rest = low_mark(taken.drop_last(), top);
        match taken.last() {
            Some(mark) => if mark < rest {
                mark
            } else {
                rest
            },
            None => rest,
        }
    }
}

/// The marks of `taken`, each lowered by `by`.
pub open spec fn lowered(taken: Seq<Option<nat>>, by: nat) -> Seq<Option<nat>> {
    Seq::new(
        taken.len(),
        |c: int|
            match taken[c] {
                Some(mark) => Some((mark - by) as nat),
                None => None,
            },
    )
}

/// The state of a block feed, as the rules see it.
pub struct BlockFeedView<T> {
    /// The number of headers that the feed holds at most.
    pub capacity: nat,
    /// The headers that some consumer has yet to take, oldest first.
    pub pending: Seq<T>,
    /// For each consumer, by its number: how many of the pending headers it
    /// has taken, or nothing once it has left.
    pub taken: Seq<Option<nat>>,
}

impl<T> BlockFeedView<T> {
    /// Whether `consumer` has subscribed and has not left.
    pub open spec fn is_active(self, consumer: int) -> bool {
        0 <= consumer < self.taken.len() && self.taken[consumer] is Some
    }

    /// Whether the feed has a consumer.
    pub open spec fn has_consumer(self) -> bool {
        exists|c: int| self.is_active(c)
    }

    /// The states that a feed can be in.
    pub open spec fn wf(self) -> bool {
        &&& self.pending.len() <= self.capacity
        &&& forall|c: int| #[trigger] self.is_active(c) ==> self.taken[c]->0 <= self.pending.len()
        &&& self.pending.len() > 0 ==> exists|c: int|
            #[trigger] self.is_active(c) && self.taken[c]->0 == 0
    }

    /// The feed of the given capacity that holds nothing and has no consumer.
    pub open spec fn empty(capacity: nat) -> Self {
        BlockFeedView { capacity, pending: Seq::empty(), taken: Seq::empty() }
    }

    /// Whether the feed is full.
    pub open spec fn is_full(self) -> bool {
        self.pending.len() >= self.capacity
    }

    /// Whether a header can be published.
    pub open spec fn accepts(self) -> bool {
        self.has_consumer() && !self.is_full()
    }

    /// The state after `header` was offered: it is pending where the feed
    /// accepted it, and nothing has changed where it did not.
    pub open spec fn after_publish(self, header: T) -> Self {
        if self.accepts() {
            BlockFeedView { pending: self.pending.push(header), ..self }
        } else {
            self
        }
    }

    /// The state after a consumer has subscribed: it has taken all that is
    /// pending, so that it is handed the headers published from now on.
    pub open spec fn after_subscribe(self) -> Self {
        BlockFeedView { taken: self.taken.push(Some(self.pending.len())), ..self }
    }

    /// The header that `consumer` takes next, if one is pending for it.
    pub open spec fn next_for(self, consumer: int) -> Option<T> {
        if self.is_active(consumer) && self.taken[consumer]->0 < self.pending.len() {
            Some(self.pending[self.taken[consumer]->0 as int])
        } else {
            None
        }
    }

    /// The state after the headers that every consumer has taken have left
    /// the feed.
    pub open spec fn settled(self) -> Self {
        let gone = low_mark(self.taken, self.pending.len());
        BlockFeedView {
            pending: self.pending.skip(gone as int),
            taken: lowered(self.taken, gone),
            ..self
        }
    }

    /// The state after `consumer` has taken its next header. A header leaves
    /// the feed once every consumer has taken it. Where nothing is pending
    /// for the consumer, nothing changes.
    pub open spec fn after_take(self, consumer: int) -> Self {
        if self.next_for(consumer) is Some {
            (BlockFeedView {
                taken: self.taken.update(consumer, Some(self.taken[consumer]->0 + 1)),
                ..self
            }).settled()
        } else {
            self
        }
    }

    /// The state after `consumer` has left. The headers that only it had yet
    /// to take leave the feed with it. Where the consumer is unknown or has
    /// left before, nothing changes.
    pub open spec fn after_leave(self, consumer: int) -> Self {
        if self.is_active(consumer) {
            (BlockFeedView { taken: self.taken.update(consumer, None), ..self }).settled()
        } else {
            self
        }
    }
}

proof fn lemma_low_mark(taken: Seq<Option<nat>>, top: nat)
    ensures
        low_mark(taken, top) <= top,
        forall|c: int|
            0 <= c < taken.len() && (#[trigger] taken[c]) is Some ==> low_mark(taken, top)
                <= taken[c]->0,
        low_mark(taken, top) == top || exists|c: int|
            0 <= c < taken.len() && #[trigger] taken[c] == Some(low_mark(taken, top)),
    decreases taken.len(),
{
    if taken.len() > 0 {
        let rest = taken.drop_last();
        lemma_low_mark(rest, top);
        assert forall|c: int| 0 <= c < taken.len() && (#[trigger] taken[c]) is Some implies low_mark(
            taken,
            top,
        ) <= taken[c]->0 by {
            if c < rest.len() {
                assert(rest[c] == taken[c]);
            }
        }
        if low_mark(taken, top) != top {
            if taken.last() == Some(low_mark(taken, top)) {
                assert(taken[taken.len() - 1] == Some(low_mark(taken, top)));
            } else {
                let c = choose|c: int|
                    0 <= c < rest.len() && #[trigger] rest[c] == Some(low_mark(rest, top));
                assert(taken[c] == rest[c]);
            }
        }
    }
}

proof fn lemma_settled_is_wf<T>(feed: BlockFeedView<T>)
    requires
        feed.pending.len() <= feed.capacity,
        forall|c: int| #[trigger] feed.is_active(c) ==> feed.taken[c]->0 <= feed.pending.len(),
    ensures
        feed.settled().wf(),
        feed.settled().pending.len() + low_mark(feed.taken, feed.pending.len())
            == feed.pending.len(),
{
    let gone = low_mark(feed.taken, feed.pending.len());
    lemma_low_mark(feed.taken, feed.pending.len());
    let after = feed.settled();
    assert forall|c: int| #[trigger] after.is_active(c) implies after.taken[c]->0
        <= after.pending.len() by {
        assert(feed.is_active(c));
    }
    if after.pending.len() > 0 {
        let c = choose|c: int| 0 <= c < feed.taken.len() && #[trigger] feed.taken[c] == Some(gone);
        assert(after.is_active(c) && after.taken[c]->0 == 0);
    }
}

/// A feed never holds more than its capacity: whatever is done with a feed
/// leads from a state that a feed can be in to another such state.
pub proof fn lemma_feed_stays_bounded<T>(feed: BlockFeedView<T>, header: T, consumer: int)
    requires
        feed.wf(),
    ensures
        feed.after_publish(header).wf(),
        feed.after_subscribe().wf(),
        feed.after_take(consumer).wf(),
        feed.after_leave(consumer).wf(),
        feed.after_publish(header).pending.len() <= feed.capacity,
        feed.after_take(consumer).pending.len() <= feed.capacity,
        feed.after_leave(consumer).pending.len() <= feed.capacity,
{
    let published = feed.after_publish(header);
    if feed.accepts() {
        assert forall|c: int| #[trigger] published.is_active(c) implies published.taken[c]->0
            <= published.pending.len() by {
            assert(feed.is_active(c));
        }
        if feed.pending.len() > 0 {
            let c = choose|c: int| #[trigger] feed.is_active(c) && feed.taken[c]->0 == 0;
            assert(published.is_active(c) && published.taken[c]->0 == 0);
        } else {
            let c = choose|c: int| feed.is_active(c);
            assert(published.is_active(c) && published.taken[c]->0 == 0);
        }
    }
    let subscribed = feed.after_subscribe();
    assert forall|c: int| #[trigger] subscribed.is_active(c) implies subscribed.taken[c]->0
        <= subscribed.pending.len() by {
        if c < feed.taken.len() {
            assert(feed.is_active(c));
        }
    }
    if feed.pending.len() > 0 {
        let c = choose|c: int| #[trigger] feed.is_active(c) && feed.taken[c]->0 == 0;
        assert(subscribed.is_active(c) && subscribed.taken[c]->0 == 0);
    }
    if feed.next_for(consumer) is Some {
        let moved = BlockFeedView {
            taken: feed.taken.update(consumer, Some(feed.taken[consumer]->0 + 1)),
            ..feed
        };
        assert forall|c: int| #[trigger] moved.is_active(c) implies moved.taken[c]->0
            <= moved.pending.len() by {
            if c != consumer {
                assert(feed.is_active(c));
            }
        }
        lemma_settled_is_wf(moved);
    }
    if feed.is_active(consumer) {
        let left = BlockFeedView { taken: feed.taken.update(consumer, None), ..feed };
        assert forall|c: int| #[trigger] left.is_active(c) implies left.taken[c]->0
            <= left.pending.len() by {
            assert(feed.is_active(c));
        }
        lemma_settled_is_wf(left);
    }
}

/// Backpressure: a full feed refuses every header, whoever offers it and
/// however often, for as long as the consumer that has yet to take the oldest
/// header neither takes it nor leaves; nothing that the feed holds changes
/// meanwhile.
pub proof fn lemma_full_feed_refuses<T>(feed: BlockFeedView<T>, header: T)
    requires
        feed.wf(),
        feed.is_full(),
    ensures
        feed.after_publish(header) == feed,
        forall|c: int| feed.after_publish(header).next_for(c) == feed.next_for(c),
{
}

proof fn lemma_low_mark_is_one(taken: Seq<Option<nat>>, top: nat)
    requires
        top >= 1,
        forall|c: int| 0 <= c < taken.len() && (#[trigger] taken[c]) is Some ==> taken[c]->0 >= 1,
        exists|c: int| 0 <= c < taken.len() && #[trigger] taken[c] == Some(1nat),
    ensures
        low_mark(taken, top) == 1,
{
    lemma_low_mark(taken, top);
    let one = choose|c: int| 0 <= c < taken.len() && #[trigger] taken[c] == Some(1nat);
    assert(low_mark(taken, top) <= taken[one]->0);
    if low_mark(taken, top) != top {
        let c = choose|c: int|
            0 <= c < taken.len() && #[trigger] taken[c] == Some(low_mark(taken, top));
        assert(taken[c]->0 >= 1);
    }
}

/// Backpressure ends when the slow consumer drains a slot: where exactly one
/// consumer has yet to take the oldest header of a full feed, its next take
/// frees one place, and the header offered next is accepted.
pub proof fn lemma_take_by_slowest_frees_a_slot<T>(feed: BlockFeedView<T>, slow: int, header: T)
    requires
        feed.wf(),
        feed.is_full(),
        feed.capacity > 0,
        feed.is_active(slow),
        feed.taken[slow] == Some(0nat),
        forall|c: int| #[trigger] feed.is_active(c) && c != slow ==> feed.taken[c]->0 >= 1,
    ensures
        feed.after_take(slow).pending == feed.pending.drop_first(),
        feed.after_take(slow).pending.len() == feed.capacity - 1,
        feed.after_take(slow).accepts(),
        feed.after_take(slow).after_publish(header).pending == feed.pending.drop_first().push(
            header,
        ),
{
    let moved = BlockFeedView { taken: feed.taken.update(slow, Some(1nat)), ..feed };
    assert(moved.taken[slow] == Some(1nat));
    assert forall|c: int| 0 <= c < moved.taken.len() && (#[trigger] moved.taken[c])
        is Some implies moved.taken[c]->0 >= 1 by {
        if c != slow {
            assert(feed.is_active(c));
        }
    }
    lemma_low_mark_is_one(moved.taken, moved.pending.len());
    assert(feed.pending.skip(1) =~= feed.pending.drop_first());
    assert(feed.after_take(slow).is_active(slow));
}

/// A block feed.
pub struct BlockFeed<T> {
    capacity: usize,
    pending: Vec<T>,
    taken: Vec<Option<usize>>,
}

/// The marks of `taken`, as numbers without bound.
pub open spec fn marks(taken: Seq<Option<usize>>) -> Seq<Option<nat>> {
    Seq::new(
        taken.len(),
        |c: int|
            match taken[c] {
                Some(mark) => Some(mark as nat),
                None => None,
            },
    )
}

impl<T> View for BlockFeed<T> {
    type V = BlockFeedView<T>;

    closed spec fn view(&self) -> BlockFeedView<T> {
        BlockFeedView {
            capacity: self.capacity as nat,
            pending: self.pending@,
            taken: marks(self.taken@),
        }
    }
}

impl<T> BlockFeed<T> {
    /// A feed that holds at most [`FEED_CAPACITY`] headers.
    pub fn new() -> (feed: Self)
        ensures
            feed@ == BlockFeedView::<T>::empty(FEED_CAPACITY as nat),
            feed@.wf(),
    {
        Self::with_capacity(FEED_CAPACITY)
    }

    /// A feed that holds at most `capacity` headers.
    pub fn with_capacity(capacity: usize) -> (feed: Self)
        ensures
            feed@ == BlockFeedView::<T>::empty(capacity as nat),
            feed@.wf(),
    {
        let feed = BlockFeed { capacity, pending: Vec::new(), taken: Vec::new() };
        assert(feed@.taken =~= Seq::empty());
        feed
    }

    /// Adds a consumer and gives its number. The consumer is handed the
    /// headers that are published from now on.
    pub fn subscribe(&mut self) -> (consumer: usize)
        requires
            old(self)@.wf(),
        ensures
            final(self)@.wf(),
            final(self)@ == old(self)@.after_subscribe(),
            consumer == old(self)@.taken.len(),
    {
        let consumer = self.taken.len();
        self.taken.push(Some(self.pending.len()));
        proof {
            assert(self@.taken =~= old(self)@.after_subscribe().taken);
            lemma_feed_stays_bounded(old(self)@, arbitrary(), 0);
        }
        consumer
    }

    fn has_active(&self) -> (any: bool)
        ensures
            any == self@.has_consumer(),
    {
        let mut c: usize = 0;
        while c < self.taken.len()
            invariant
                c <= self.taken.len(),
                forall|k: int| 0 <= k < c ==> !self@.is_active(k),
            decreases self.taken.len() - c,
        {
            if self.taken[c].is_some() {
                assert(self@.is_active(c as int));
                return true;
            }
            c += 1;
        }
        false
    }

    /// Offers `header` to the feed. The feed accepts it where it has a
    /// consumer and is not full; else the header comes back with the reason,
    /// and the feed is as it was.
    pub fn publish(&mut self, header: T) -> (published: Result<(), PublishError<T>>)
        requires
            old(self)@.wf(),
        ensures
            final(self)@.wf(),
            final(self)@ == old(self)@.after_publish(header),
            published is Ok <==> old(self)@.accepts(),
            published matches Err(PublishError::NoConsumer(back)) ==> back == header && !old(
                self,
            )@.has_consumer(),
            published matches Err(PublishError::Full(back)) ==> back == header && old(
                self,
            )@.has_consumer() && old(self)@.is_full(),
    {
        if !self.has_active() {
            return Err(PublishError::NoConsumer(header));
        }
        if self.pending.len() >= self.capacity {
            return Err(PublishError::Full(header));
        }
        proof {
            lemma_feed_stays_bounded(old(self)@, header, 0);
        }
        self.pending.push(header);
        Ok(())
    }

    /// The header that `consumer` takes next, if one is pending for it.
    pub fn peek(&self, consumer: usize) -> (next: Option<&T>)
        requires
            self@.wf(),
        ensures
            match next {
                Some(header) => self@.next_for(consumer as int) == Some(*header),
                None => self@.next_for(consumer as int) is None,
            },
    {
        if consumer < self.taken.len() {
            match self.taken[consumer] {
                Some(at) => {
                    if at < self.pending.len() {
                        Some(&self.pending[at])
                    } else {
                        None
                    }
                },
                None => None,
            }
        } else {
            None
        }
    }

    /// Lets the headers go that every consumer has taken.
    fn settle(&mut self)
        requires
            old(self).pending@.len() <= old(self).capacity,
            forall|c: int| #[trigger]
                old(self)@.is_active(c) ==> old(self)@.taken[c]->0 <= old(self)@.pending.len(),
        ensures
            final(self)@ == old(self)@.settled(),
    {
        let ghost start = self@;
        let mut gone: usize = self.pending.len();
        let mut c: usize = 0;
        while c < self.taken.len()
            invariant
                c <= self.taken.len(),
                self@ == start,
                gone == low_mark(start.taken.take(c as int), start.pending.len()),
            decreases self.taken.len() - c,
        {
            proof {
                let next = start.taken.take(c + 1);
                assert(next.drop_last() =~= start.taken.take(c as int));
                assert(next.last() == start.taken[c as int]);
            }
            match self.taken[c] {
                Some(mark) => {
                    if mark < gone {
                        gone = mark;
                    }
                },
                None => {},
            }
            c += 1;
        }
        proof {
            assert(start.taken.take(start.taken.len() as int) =~= start.taken);
            lemma_low_mark(start.taken, start.pending.len());
        }
        let kept = self.pending.split_off(gone);
        self.pending = kept;
        assert(self.pending@ =~= start.pending.skip(gone as int));
        let mut c: usize = 0;
        while c < self.taken.len()
            invariant
                c <= self.taken.len(),
                self.taken@.len() == start.taken.len(),
                self.capacity == start.capacity,
                self.pending@ == start.pending.skip(gone as int),
                gone == low_mark(start.taken, start.pending.len()),
                forall|k: int|
                    0 <= k < start.taken.len() && (#[trigger] start.taken[k]) is Some ==> gone
                        <= start.taken[k]->0,
                forall|k: int|
                    0 <= k < c ==> marks(self.taken@)[k] == #[trigger] lowered(
                        start.taken,
                        gone as nat,
                    )[k],
                forall|k: int|
                    c <= k < self.taken@.len() ==> #[trigger] marks(self.taken@)[k]
                        == start.taken[k],
            decreases self.taken.len() - c,
        {
            let ghost before = self.taken@;
            assert(marks(before)[c as int] == start.taken[c as int]);
            match self.taken[c] {
                Some(mark) => {
                    self.taken.set(c, Some(mark - gone));
                },
                None => {},
            }
            proof {
                assert forall|k: int| c < k < self.taken@.len() implies #[trigger] marks(
                    self.taken@,
                )[k] == start.taken[k] by {
                    assert(self.taken@[k] == before[k]);
                    assert(marks(before)[k] == start.taken[k]);
                }
                assert forall|k: int| 0 <= k <= c implies marks(self.taken@)[k] == #[trigger] lowered(
                    start.taken,
                    gone as nat,
                )[k] by {
                    if k < c {
                        assert(self.taken@[k] == before[k]);
                        assert(marks(before)[k] == lowered(start.taken, gone as nat)[k]);
                    }
                }
            }
            c += 1;
        }
        assert(self@.taken =~= start.settled().taken);
    }

    /// Records that `consumer` has taken its next header, and says whether
    /// one was pending for it. A header leaves the feed once every consumer
    /// has taken it.
    pub fn take(&mut self, consumer: usize) -> (took: bool)
        requires
            old(self)@.wf(),
        ensures
            final(self)@.wf(),
            took == old(self)@.next_for(consumer as int) is Some,
            final(self)@ == old(self)@.after_take(consumer as int),
    {
        if consumer >= self.taken.len() {
            return false;
        }
        let at = match self.taken[consumer] {
            Some(at) => at,
            None => {
                return false;
            },
        };
        if at >= self.pending.len() {
            return false;
        }
        proof {
            lemma_feed_stays_bounded(old(self)@, arbitrary(), consumer as int);
        }
        self.taken.set(consumer, Some(at + 1));
        proof {
            let moved = BlockFeedView {
                taken: old(self)@.taken.update(
                    consumer as int,
                    Some(old(self)@.taken[consumer as int]->0 + 1),
                ),
                ..old(self)@
            };
            assert(self@.taken =~= moved.taken);
            assert forall|c: int| #[trigger] self@.is_active(c) implies self@.taken[c]->0
                <= self@.pending.len() by {
                if c != consumer {
                    assert(old(self)@.is_active(c));
                }
            }
        }
        self.settle();
        true
    }

    /// Records that `consumer` has left, and says whether it had been a
    /// consumer until now. The headers that only it had yet to take leave the
    /// feed with it.
    pub fn unsubscribe(&mut self, consumer: usize) -> (left: bool)
        requires
            old(self)@.wf(),
        ensures
            final(self)@.wf(),
            left == old(self)@.is_active(consumer as int),
            final(self)@ == old(self)@.after_leave(consumer as int),
    {
        if consumer >= self.taken.len() {
            return false;
        }
        if self.taken[consumer].is_none() {
            return false;
        }
        proof {
            lemma_feed_stays_bounded(old(self)@, arbitrary(), consumer as int);
        }
        self.taken.set(consumer, None);
        proof {
            let gone = BlockFeedView {
                taken: old(self)@.taken.update(consumer as int, None),
                ..old(self)@
            };
            assert(self@.taken =~= gone.taken);
            assert forall|c: int| #[trigger] self@.is_active(c) implies self@.taken[c]->0
                <= self@.pending.len() by {
                assert(old(self)@.is_active(c));
            }
        }
        self.settle();
        true
    }

    /// The number of headers that the feed holds.
    pub fn len(&self) -> (count: usize)
        ensures
            count == self@.pending.len(),
    {
        self.pending.len()
    }

    /// Whether the feed is full.
    pub fn is_full(&self) -> (full: bool)
        ensures
            full == self@.is_full(),
    {
        self.pending.len() >= self.capacity
    }
}

} // verus!
