//! Backfill of a range of blocks into the document store.
//!
//! A backfill fetches every block of an inclusive range of block numbers and
//! writes the transactions of each block to the store, unless the store holds
//! documents of that block already. The fetches run side by side. One
//! limiter, shared by all backfills of all tenants, bounds how many fetches
//! are under way at once.
//!
//! Fetching and writing are the caller's work. This module decides: which block
//! is fetched next and when to wait ([`Backfill`], [`FetchLimiter`]), and
//! whether a fetched block is written ([`decide_block_write`]). It also states
//! what follows of these rules for every run: [`lemma_fetches_stay_within_permits`],
//! [`lemma_run_fetches_in_order`], [`lemma_finished_run_covers_range`] and
//! [`lemma_second_backfill_writes_nothing`].

use vstd::prelude::*;
use std::sync::Arc;
use crate::chain::{BlockView, TransactionView};
use crate::elastic::{BulkLine, bulk_body, is_bulk_body};
use crate::queries::TRANSACTIONS_INDEX;
use crate::registry::EthersRepository;

verus! {

/// The number of fetches that may be under way at once, over all backfills.
pub const MAX_IN_FLIGHT: usize = 300;

/// The number of blocks in the inclusive range from `from_block` to
/// `to_block`; a range whose end lies before its start holds none.
pub open spec fn range_len(from_block: u64, to_block: u64) -> nat {
    if from_block <= to_block {
        (to_block - from_block + 1) as nat
    } else {
        0
    }
}

/// The state of the limiter, as the rules see it.
pub struct FetchLimiterView {
    /// Number of fetches that may be under way at once.
    pub permits: nat,
    /// Number of permits that fetches hold.
    pub in_use: nat,
}

impl FetchLimiterView {
    /// The states that a limiter can be in.
    pub open spec fn wf(self) -> bool {
        0 < self.permits && self.in_use <= self.permits
    }

    /// The limiter of `permits` permits of which none is in use.
    pub open spec fn start(permits: nat) -> FetchLimiterView {
        FetchLimiterView { permits, in_use: 0 }
    }

    /// Whether a permit is free.
    pub open spec fn has_free(self) -> bool {
        self.in_use < self.permits
    }

    /// The state after a permit was asked for: one more is in use where one
    /// was free, and nothing has changed where none was.
    pub open spec fn after_acquire(self) -> FetchLimiterView {
        if self.has_free() {
            FetchLimiterView { in_use: self.in_use + 1, ..self }
        } else {
            self
        }
    }

    /// The state after a permit was given back; where none is in use,
    /// nothing changes.
    pub open spec fn after_release(self) -> FetchLimiterView {
        if self.in_use > 0 {
            FetchLimiterView { in_use: (self.in_use - 1) as nat, ..self }
        } else {
            self
        }
    }
}

/// The limiter of the fetches: it hands out permits, one for each fetch that
/// is under way, and never more than it has.
pub struct FetchLimiter {
    permits: usize,
    in_use: usize,
}

impl View for FetchLimiter {
    type V = FetchLimiterView;

    closed spec fn view(&self) -> FetchLimiterView {
        FetchLimiterView { permits: self.permits as nat, in_use: self.in_use as nat }
    }
}

impl FetchLimiter {
    /// The limiter of [`MAX_IN_FLIGHT`] permits.
    pub fn new() -> (limiter: FetchLimiter)
        ensures
            limiter@ == FetchLimiterView::start(MAX_IN_FLIGHT as nat),
            limiter@.wf(),
    {
        FetchLimiter { permits: MAX_IN_FLIGHT, in_use: 0 }
    }

    /// The limiter of `permits` permits.
    pub fn with_permits(permits: usize) -> (limiter: FetchLimiter)
        requires
            permits > 0,
        ensures
            limiter@ == FetchLimiterView::start(permits as nat),
            limiter@.wf(),
    {
        FetchLimiter { permits, in_use: 0 }
    }

    /// Takes a permit where one is free, and says whether it did.
    pub fn try_acquire(&mut self) -> (acquired: bool)
        requires
            old(self)@.wf(),
        ensures
            final(self)@.wf(),
            acquired == old(self)@.has_free(),
            final(self)@ == old(self)@.after_acquire(),
    {
        if self.in_use < self.permits {
            self.in_use = self.in_use + 1;
            true
        } else {
            false
        }
    }

    /// Gives a permit back, and says whether one was in use.
    pub fn release(&mut self) -> (released: bool)
        requires
            old(self)@.wf(),
        ensures
            final(self)@.wf(),
            released == (old(self)@.in_use > 0),
            final(self)@ == old(self)@.after_release(),
    {
        if self.in_use > 0 {
            self.in_use = self.in_use - 1;
            true
        } else {
            false
        }
    }

    /// The number of permits in use.
    pub fn in_use(&self) -> (count: usize)
        ensures
            count == self@.in_use,
    {
        self.in_use
    }

    /// The number of permits.
    pub fn permits(&self) -> (count: usize)
        ensures
            count == self@.permits,
    {
        self.permits
    }
}

/// What a backfill does next.
#[derive(PartialEq, Eq, Structural, Clone, Copy, Debug)]
pub enum BackfillStep {
    /// Start fetching the block with this number; a permit was taken for it.
    Fetch(u64),
    /// Start nothing until a fetch that is under way has finished.
    Wait,
    /// Every block of the range was fetched and no fetch is under way.
    Done,
}

/// The state of a backfill, as the rules see it.
pub struct BackfillView {
    /// First block of the range.
    pub from_block: u64,
    /// Last block of the range.
    pub to_block: u64,
    /// Number of fetches started so far.
    pub issued: nat,
    /// Number of fetches started and not yet finished.
    pub in_flight: nat,
}

/// What happens to a backfill.
pub enum BackfillEvent {
    /// The backfill is asked for its next step, while the limiter has a free
    /// permit or has none.
    Step { permit_free: bool },
    /// One of the backfill's fetches has finished.
    Finished,
}

impl BackfillView {
    /// The states that a backfill can be in.
    pub open spec fn wf(self) -> bool {
        &&& self.issued <= range_len(self.from_block, self.to_block)
        &&& self.in_flight <= self.issued
    }

    /// The state in which a backfill starts.
    pub open spec fn start(from_block: u64, to_block: u64) -> BackfillView {
        BackfillView { from_block, to_block, issued: 0, in_flight: 0 }
    }

    /// Whether every block of the range was fetched or is being fetched.
    pub open spec fn exhausted(self) -> bool {
        self.issued >= range_len(self.from_block, self.to_block)
    }

    /// What the backfill does next in this state, given whether the limiter
    /// has a free permit.
    pub open spec fn step(self, permit_free: bool) -> BackfillStep {
        if self.exhausted() {
            if self.in_flight == 0 {
                BackfillStep::Done
            } else {
                BackfillStep::Wait
            }
        } else if permit_free {
            BackfillStep::Fetch((self.from_block + self.issued) as u64)
        } else {
            BackfillStep::Wait
        }
    }

    /// The state after the next step was taken.
    pub open spec fn after_step(self, permit_free: bool) -> BackfillView {
        match self.step(permit_free) {
            BackfillStep::Fetch(_) => BackfillView {
                issued: self.issued + 1,
                in_flight: self.in_flight + 1,
                ..self
            },
            _ => self,
        }
    }

    /// The state after a fetch has finished; where none is under way, nothing
    /// changes.
    pub open spec fn after_finish(self) -> BackfillView {
        if self.in_flight > 0 {
            BackfillView { in_flight: (self.in_flight - 1) as nat, ..self }
        } else {
            self
        }
    }

    /// The state after `events`, taken in order.
    pub open spec fn after(self, events: Seq<BackfillEvent>) -> BackfillView
        decreases events.len(),
    {
        if events.len() == 0 {
            self
        } else {
            let before = self.after(events.drop_last());
            match events.last() {
                BackfillEvent::Step { permit_free } => before.after_step(permit_free),
                BackfillEvent::Finished => before.after_finish(),
            }
        }
    }

    /// The block numbers whose fetch was started during `events`, in the order
    /// in which they were started.
    pub open spec fn fetched(self, events: Seq<BackfillEvent>) -> Seq<u64>
        decreases events.len(),
    {
        if events.len() == 0 {
            Seq::empty()
        } else {
            let earlier = self.fetched(events.drop_last());
            let before = self.after(events.drop_last());
            match events.last() {
                BackfillEvent::Step { permit_free } => match before.step(permit_free) {
                    BackfillStep::Fetch(number) => earlier.push(number),
                    _ => earlier,
                },
                BackfillEvent::Finished => earlier,
            }
        }
    }
}

/// Whatever happens during a backfill, in whatever order and whatever the
/// limiter allows: the blocks fetched so far are the first blocks of the
/// range, each once, in rising order.
pub proof fn lemma_run_fetches_in_order(from_block: u64, to_block: u64, events: Seq<BackfillEvent>)
    ensures
        ({
            let start = BackfillView::start(from_block, to_block);
            let state = start.after(events);
            let fetched = start.fetched(events);
            &&& state.wf()
            &&& state.from_block == from_block
            &&& state.to_block == to_block
            &&& fetched.len() == state.issued
            &&& fetched.len() <= range_len(from_block, to_block)
            &&& forall|i: int| 0 <= i < fetched.len() ==> #[trigger] fetched[i] == from_block + i
        }),
    decreases events.len(),
{
    if events.len() > 0 {
        lemma_run_fetches_in_order(from_block, to_block, events.drop_last());
    }
}

/// A backfill over a range from `from_block` to `to_block` that has come to
/// its end has started exactly `to_block - from_block + 1` fetches: one for
/// each block of the range, in rising order, and none for any other block.
pub proof fn lemma_finished_run_covers_range(
    from_block: u64,
    to_block: u64,
    events: Seq<BackfillEvent>,
    permit_free: bool,
)
    requires
        from_block <= to_block,
        BackfillView::start(from_block, to_block).after(events).step(permit_free)
            == BackfillStep::Done,
    ensures
        ({
            let fetched = BackfillView::start(from_block, to_block).fetched(events);
            &&& fetched.len() == to_block - from_block + 1
            &&& forall|i: int| 0 <= i < fetched.len() ==> #[trigger] fetched[i] == from_block + i
        }),
{
    lemma_run_fetches_in_order(from_block, to_block, events);
}

/// The backfills that run at one time, with the limiter that they share.
pub struct BackfillsView {
    /// The limiter.
    pub limiter: FetchLimiterView,
    /// The backfills, each with the range it was started for.
    pub backfills: Seq<BackfillView>,
}

/// The number of fetches that `backfills` have under way, all together.
pub open spec fn under_way(backfills: Seq<BackfillView>) -> nat
    decreases backfills.len(),
{
    if backfills.len() == 0 {
        0
    } else {
        under_way(backfills.drop_last()) + backfills.last().in_flight
    }
}

impl BackfillsView {
    /// The states that the backfills and their limiter can be in: every
    /// fetch under way holds one permit, and no permit is held otherwise.
    pub open spec fn wf(self) -> bool {
        &&& self.limiter.wf()
        &&& under_way(self.backfills) == self.limiter.in_use
        &&& forall|i: int| 0 <= i < self.backfills.len() ==> (#[trigger] self.backfills[i]).wf()
    }

    /// The state after the backfill with number `which` was asked for its
    /// next step (`is_step`) or has finished a fetch. An unknown number
    /// changes nothing.
    pub open spec fn after_event(self, which: int, is_step: bool) -> BackfillsView {
        if 0 <= which < self.backfills.len() {
            let backfill = self.backfills[which];
            if is_step {
                let free = self.limiter.has_free();
                BackfillsView {
                    limiter: if backfill.step(free) is Fetch {
                        self.limiter.after_acquire()
                    } else {
                        self.limiter
                    },
                    backfills: self.backfills.update(which, backfill.after_step(free)),
                }
            } else {
                BackfillsView {
                    limiter: if backfill.in_flight > 0 {
                        self.limiter.after_release()
                    } else {
                        self.limiter
                    },
                    backfills: self.backfills.update(which, backfill.after_finish()),
                }
            }
        } else {
            self
        }
    }

    /// The state after `events`, taken in order.
    pub open spec fn after(self, events: Seq<(int, bool)>) -> BackfillsView
        decreases events.len(),
    {
        if events.len() == 0 {
            self
        } else {
            self.after(events.drop_last()).after_event(events.last().0, events.last().1)
        }
    }
}

proof fn lemma_under_way_update(backfills: Seq<BackfillView>, which: int, changed: BackfillView)
    requires
        0 <= which < backfills.len(),
    ensures
        under_way(backfills.update(which, changed)) + backfills[which].in_flight == under_way(
            backfills,
        ) + changed.in_flight,
        under_way(backfills) >= backfills[which].in_flight,
    decreases backfills.len(),
{
    let updated = backfills.update(which, changed);
    if which == backfills.len() - 1 {
        assert(updated.drop_last() =~= backfills.drop_last());
    } else {
        assert(updated.drop_last() =~= backfills.drop_last().update(which, changed));
        assert(backfills.drop_last()[which] == backfills[which]);
        lemma_under_way_update(backfills.drop_last(), which, changed);
    }
}

proof fn lemma_event_keeps_wf(state: BackfillsView, which: int, is_step: bool)
    requires
        state.wf(),
    ensures
        state.after_event(which, is_step).wf(),
{
    if 0 <= which < state.backfills.len() {
        let backfill = state.backfills[which];
        let after = state.after_event(which, is_step);
        assert(backfill.wf());
        lemma_under_way_update(state.backfills, which, after.backfills[which]);
        assert forall|i: int| 0 <= i < after.backfills.len() implies (#[trigger] after.backfills[i]).wf() by {
            if i != which {
                assert(after.backfills[i] == state.backfills[i]);
            }
        }
    }
}

/// Whatever backfills run at one time, for whatever tenants and ranges, and
/// in whatever order they take their steps and finish their fetches: the
/// fetches under way, counted over all of them together, are as many as the
/// permits in use, and never more than the limiter has.
pub proof fn lemma_fetches_stay_within_permits(start: BackfillsView, events: Seq<(int, bool)>)
    requires
        start.wf(),
    ensures
        start.after(events).wf(),
        start.after(events).limiter.permits == start.limiter.permits,
        under_way(start.after(events).backfills) == start.after(events).limiter.in_use,
        under_way(start.after(events).backfills) <= start.limiter.permits,
    decreases events.len(),
{
    if events.len() > 0 {
        lemma_fetches_stay_within_permits(start, events.drop_last());
        lemma_event_keeps_wf(
            start.after(events.drop_last()),
            events.last().0,
            events.last().1,
        );
    }
}

/// Backfills that have started no fetch, with a limiter of which no permit is
/// in use, are in a state from which [`lemma_fetches_stay_within_permits`]
/// holds.
pub proof fn lemma_fresh_backfills_are_wf(permits: nat, backfills: Seq<BackfillView>)
    requires
        permits > 0,
        forall|i: int|
            0 <= i < backfills.len() ==> (#[trigger] backfills[i]).issued == 0 && backfills[i].in_flight
                == 0,
    ensures
        (BackfillsView { limiter: FetchLimiterView::start(permits), backfills }).wf(),
    decreases backfills.len(),
{
    if backfills.len() > 0 {
        assert forall|i: int| 0 <= i < backfills.drop_last().len() implies (
        #[trigger] backfills.drop_last()[i]).issued == 0 && backfills.drop_last()[i].in_flight
            == 0 by {
            assert(backfills.drop_last()[i] == backfills[i]);
        }
        lemma_fresh_backfills_are_wf(permits, backfills.drop_last());
        assert(backfills.last() == backfills[backfills.len() - 1]);
    }
}

/// The scheduler of one backfill: it hands out the block numbers of the range
/// one by one, each with a permit of the limiter.
pub struct Backfill {
    from_block: u64,
    to_block: u64,
    issued: u64,
    all_issued: bool,
    in_flight: u128,
}

impl View for Backfill {
    type V = BackfillView;

    closed spec fn view(&self) -> BackfillView {
        BackfillView {
            from_block: self.from_block,
            to_block: self.to_block,
            issued: if self.all_issued {
                range_len(self.from_block, self.to_block)
            } else {
                self.issued as nat
            },
            in_flight: self.in_flight as nat,
        }
    }
}

impl Backfill {
    /// The states that the scheduler can be in.
    pub closed spec fn wf(&self) -> bool {
        &&& self@.wf()
        &&& !self.all_issued ==> self.issued < range_len(self.from_block, self.to_block)
    }

    /// A backfill of the blocks from `from_block` to `to_block`, both
    /// included.
    pub fn new(from_block: u64, to_block: u64) -> (backfill: Backfill)
        ensures
            backfill.wf(),
            backfill@ == BackfillView::start(from_block, to_block),
    {
        Backfill { from_block, to_block, issued: 0, all_issued: from_block > to_block, in_flight: 0 }
    }

    /// Takes the next step: where a block of the range is left and `limiter`
    /// has a free permit, takes the permit and starts the fetch of the next
    /// block, and says so; else says whether the backfill waits or is done.
    /// No fetch is started without a permit.
    pub fn next_step(&mut self, limiter: &mut FetchLimiter) -> (step: BackfillStep)
        requires
            old(self).wf(),
            old(limiter)@.wf(),
        ensures
            final(self).wf(),
            final(limiter)@.wf(),
            step == old(self)@.step(old(limiter)@.has_free()),
            final(self)@ == old(self)@.after_step(old(limiter)@.has_free()),
            final(limiter)@ == if step is Fetch {
                old(limiter)@.after_acquire()
            } else {
                old(limiter)@
            },
            step is Fetch ==> final(limiter)@.in_use == old(limiter)@.in_use + 1,
    {
        if self.all_issued {
            if self.in_flight == 0 {
                BackfillStep::Done
            } else {
                BackfillStep::Wait
            }
        } else if limiter.try_acquire() {
            let number: u64 = self.from_block + self.issued;
            self.in_flight = self.in_flight + 1;
            if number == self.to_block {
                self.all_issued = true;
            } else {
                self.issued = self.issued + 1;
            }
            BackfillStep::Fetch(number)
        } else {
            BackfillStep::Wait
        }
    }

    /// Records that a fetch of this backfill has finished, and gives its
    /// permit back to `limiter`. Says whether a fetch was under way; where
    /// none was, nothing changes.
    pub fn fetch_finished(&mut self, limiter: &mut FetchLimiter) -> (was_under_way: bool)
        requires
            old(self).wf(),
            old(limiter)@.wf(),
        ensures
            final(self).wf(),
            final(limiter)@.wf(),
            was_under_way == (old(self)@.in_flight > 0),
            final(self)@ == old(self)@.after_finish(),
            final(limiter)@ == if was_under_way {
                old(limiter)@.after_release()
            } else {
                old(limiter)@
            },
    {
        if self.in_flight > 0 {
            self.in_flight = self.in_flight - 1;
            limiter.release();
            true
        } else {
            false
        }
    }

    /// The number of fetches of this backfill that are under way.
    pub fn in_flight(&self) -> (count: u128)
        ensures
            count == self@.in_flight,
    {
        self.in_flight
    }
}

/// Why a backfill could not start.
#[derive(PartialEq, Eq, Structural, Clone, Copy, Debug)]
pub enum BackfillError {
    /// No connection is registered for the tenant.
    ConnectionNotFound,
}

/// Starts the backfill of the blocks from `from_block` to `to_block` for the
/// tenant `user_id`: resolves the tenant's connection, once, and sets up the
/// scheduler. Fails where no connection is registered for the tenant.
pub fn start_backfill<C, R: Clone>(
    registry: &EthersRepository<C, R>,
    user_id: i32,
    from_block: u64,
    to_block: u64,
) -> (started: Result<(Arc<C>, Backfill), BackfillError>)
    ensures
        match started {
            Ok((connection, backfill)) => {
                &&& registry.connection(user_id) == Some(*connection)
                &&& backfill.wf()
                &&& backfill@ == BackfillView::start(from_block, to_block)
            },
            Err(error) => registry.connection(user_id) is None,
        },
{
    match registry.get_connection(user_id) {
        Some(connection) => Ok((connection, Backfill::new(from_block, to_block))),
        None => Err(BackfillError::ConnectionNotFound),
    }
}

/// Whether a block is written, given the number of documents that the store
/// holds of it: it is where the store holds none.
pub open spec fn should_index(documents_found: nat) -> bool {
    documents_found == 0
}

/// What is done with a fetched block once the store was asked for its
/// documents.
#[derive(Debug, PartialEq, Eq)]
pub enum BlockWrite<'a, D, E> {
    /// Write this body: the store holds no document of the block.
    Write(Vec<BulkLine<'a, D>>),
    /// Write nothing: the store holds documents of the block.
    Skip,
    /// The search failed, with this error. Nothing is written, and the
    /// failure stays with this block.
    Failed(E),
}

/// Decides what is done with a fetched block from the result of the search
/// for its documents: where the search found none, the block's transactions
/// are written, all in one bulk write; where it found any, nothing is
/// written; where it failed, nothing is written either, and the error is
/// handed back for this block alone.
pub fn decide_block_write<'a, D, E>(transactions: &'a Vec<D>, searched: Result<usize, E>) -> (write:
    BlockWrite<'a, D, E>)
    ensures
        match searched {
            Ok(found) => if should_index(found as nat) {
                write matches BlockWrite::Write(lines) && is_bulk_body(
                    lines@,
                    TRANSACTIONS_INDEX@,
                    transactions@,
                )
            } else {
                write is Skip
            },
            Err(error) => write == BlockWrite::<D, E>::Failed(error),
        },
{
    match searched {
        Ok(found) => match plan_block_write(transactions, found) {
            Some(lines) => BlockWrite::Write(lines),
            None => BlockWrite::Skip,
        },
        Err(error) => BlockWrite::Failed(error),
    }
}

/// Decides whether a fetched block is written, from the number of documents
/// that the store holds of it: where it holds none, the result is the body of
/// the bulk write of all the block's transactions; where it holds any, the
/// block is left out.
pub fn plan_block_write<'a, D>(transactions: &'a Vec<D>, documents_found: usize) -> (write: Option<
    Vec<BulkLine<'a, D>>,
>)
    ensures
        write is Some <==> should_index(documents_found as nat),
        write matches Some(lines) ==> is_bulk_body(lines@, TRANSACTIONS_INDEX@, transactions@),
{
    if documents_found == 0 {
        Some(bulk_body(TRANSACTIONS_INDEX, transactions))
    } else {
        None
    }
}

/// A document of the store: a transaction and the hash of its block.
pub struct StoredTransaction {
    pub block_hash: Seq<char>,
    pub transaction: TransactionView,
}

/// The documents that the write of `block` adds to the store.
pub open spec fn documents_of(block: BlockView) -> Seq<StoredTransaction> {
    Seq::new(
        block.transactions.len(),
        |i: int| StoredTransaction { block_hash: block.hash, transaction: block.transactions[i] },
    )
}

/// The number of documents of `store` that belong to the block with hash
/// `block_hash`.
pub open spec fn documents_found(store: Seq<StoredTransaction>, block_hash: Seq<char>) -> nat
    decreases store.len(),
{
    if store.len() == 0 {
        0
    } else if store.last().block_hash == block_hash {
        documents_found(store.drop_last(), block_hash) + 1
    } else {
        documents_found(store.drop_last(), block_hash)
    }
}

/// The store after `block` was fetched and the rule of [`plan_block_write`] was
/// followed.
pub open spec fn store_after_block(store: Seq<StoredTransaction>, block: BlockView) -> Seq<
    StoredTransaction,
> {
    if should_index(documents_found(store, block.hash)) {
        store + documents_of(block)
    } else {
        store
    }
}

/// The store after each of `blocks` was handled in turn.
pub open spec fn store_after(store: Seq<StoredTransaction>, blocks: Seq<BlockView>) -> Seq<
    StoredTransaction,
>
    decreases blocks.len(),
{
    if blocks.len() == 0 {
        store
    } else {
        store_after_block(store_after(store, blocks.drop_last()), blocks.last())
    }
}

/// Nothing is left to write for `block`: the store holds documents of it, or
/// the block has no transactions.
pub open spec fn is_settled(store: Seq<StoredTransaction>, block: BlockView) -> bool {
    documents_found(store, block.hash) > 0 || block.transactions.len() == 0
}

proof fn lemma_found_in_concat(
    store: Seq<StoredTransaction>,
    added: Seq<StoredTransaction>,
    block_hash: Seq<char>,
)
    ensures
        documents_found(store + added, block_hash) == documents_found(store, block_hash)
            + documents_found(added, block_hash),
    decreases added.len(),
{
    if added.len() == 0 {
        assert(store + added =~= store);
    } else {
        assert((store + added).drop_last() =~= store + added.drop_last());
        assert((store + added).last() == added.last());
        lemma_found_in_concat(store, added.drop_last(), block_hash);
    }
}

proof fn lemma_found_in_own_documents(block: BlockView, count: nat)
    requires
        count <= block.transactions.len(),
    ensures
        documents_found(documents_of(block).take(count as int), block.hash) == count,
    decreases count,
{
    let docs = documents_of(block).take(count as int);
    if count > 0 {
        lemma_found_in_own_documents(block, (count - 1) as nat);
        assert(docs.drop_last() =~= documents_of(block).take(count - 1));
        assert(docs.last().block_hash == block.hash);
    }
}

proof fn lemma_block_is_settled_after(store: Seq<StoredTransaction>, block: BlockView)
    ensures
        is_settled(store_after_block(store, block), block),
        forall|hash: Seq<char>| #[trigger]
            documents_found(store_after_block(store, block), hash) >= documents_found(store, hash),
{
    if should_index(documents_found(store, block.hash)) {
        lemma_found_in_own_documents(block, block.transactions.len());
        assert(documents_of(block).take(block.transactions.len() as int) =~= documents_of(block));
        lemma_found_in_concat(store, documents_of(block), block.hash);
    }
    assert forall|hash: Seq<char>| #[trigger]
        documents_found(store_after_block(store, block), hash) >= documents_found(
            store,
            hash,
        ) by {
        if should_index(documents_found(store, block.hash)) {
            lemma_found_in_concat(store, documents_of(block), hash);
        }
    }
}

proof fn lemma_blocks_are_settled_after(store: Seq<StoredTransaction>, blocks: Seq<BlockView>)
    ensures
        forall|i: int|
            0 <= i < blocks.len() ==> is_settled(store_after(store, blocks), #[trigger] blocks[i]),
        forall|hash: Seq<char>| #[trigger]
            documents_found(store_after(store, blocks), hash) >= documents_found(store, hash),
    decreases blocks.len(),
{
    if blocks.len() > 0 {
        let earlier = store_after(store, blocks.drop_last());
        lemma_blocks_are_settled_after(store, blocks.drop_last());
        lemma_block_is_settled_after(earlier, blocks.last());
        assert forall|i: int| 0 <= i < blocks.len() implies is_settled(
            store_after(store, blocks),
            #[trigger] blocks[i],
        ) by {
            if i < blocks.len() - 1 {
                assert(blocks.drop_last()[i] == blocks[i]);
                assert(is_settled(earlier, blocks[i]));
                assert(documents_found(store_after_block(earlier, blocks.last()), blocks[i].hash)
                    >= documents_found(earlier, blocks[i].hash));
            }
        }
        assert forall|hash: Seq<char>| #[trigger]
            documents_found(store_after(store, blocks), hash) >= documents_found(
                store,
                hash,
            ) by {
            assert(documents_found(store_after_block(earlier, blocks.last()), hash)
                >= documents_found(earlier, hash));
            assert(documents_found(earlier, hash) >= documents_found(store, hash));
        }
    }
}

/// Where nothing is left to write for any of `blocks`, handling them leaves
/// the store as it is.
pub proof fn lemma_settled_blocks_write_nothing(store: Seq<StoredTransaction>, blocks: Seq<BlockView>)
    requires
        forall|i: int| 0 <= i < blocks.len() ==> is_settled(store, #[trigger] blocks[i]),
    ensures
        store_after(store, blocks) == store,
    decreases blocks.len(),
{
    if blocks.len() > 0 {
        assert forall|i: int| 0 <= i < blocks.drop_last().len() implies is_settled(
            store,
            #[trigger] blocks.drop_last()[i],
        ) by {
            assert(blocks.drop_last()[i] == blocks[i]);
        }
        lemma_settled_blocks_write_nothing(store, blocks.drop_last());
        assert(is_settled(store, blocks[blocks.len() - 1]));
        if blocks.last().transactions.len() == 0 {
            assert(store + documents_of(blocks.last()) =~= store);
        }
    }
}

/// A backfill that is run a second time over the same blocks writes nothing:
/// the store after the second run is the store after the first. So the
/// transactions of a block are written at most once, however often the block
/// is handled, as long as each check sees what was written before it.
pub proof fn lemma_second_backfill_writes_nothing(
    store: Seq<StoredTransaction>,
    blocks: Seq<BlockView>,
)
    ensures
        store_after(store_after(store, blocks), blocks) == store_after(store, blocks),
{
    lemma_blocks_are_settled_after(store, blocks);
    lemma_settled_blocks_write_nothing(store_after(store, blocks), blocks);
}

/// A block of which the store holds documents is left out, and the store
/// stays as it is; a block of which it holds none is written whole, after
/// what the store held.
pub proof fn lemma_block_is_written_once(store: Seq<StoredTransaction>, block: BlockView)
    ensures
        documents_found(store, block.hash) > 0 ==> store_after_block(store, block) == store,
        documents_found(store, block.hash) == 0 ==> store_after_block(store, block) == store
            + documents_of(block),
        store_after_block(store_after_block(store, block), block) == store_after_block(
            store,
            block,
        ),
{
    lemma_block_is_settled_after(store, block);
    let once = store_after_block(store, block);
    if block.transactions.len() == 0 {
        assert(once + documents_of(block) =~= once);
    }
}

} // verus!
