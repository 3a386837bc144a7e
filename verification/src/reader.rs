//! The reader side of the engine: services seek requests and keeps the block
//! queue filled ahead of the playback position.
//!
//! The reader owns the block-queue producer, the timeline and the file
//! table for its whole life.  One `step` is one iteration of its loop; the
//! surrounding driver (a dedicated thread, or a test harness) keeps calling
//! `step` until it is told to stop, and backs off briefly whenever a step
//! reports that the queue is full.

use crate::block::{all_zero, block_shaped, grid, zero_block, Block};
use crate::queue::{spsc_free_slots, spsc_pop, spsc_push};
use crate::source::{routes_to, AudioSource, SourceError};
use crate::timeline::{entry_wf, plan_fills, plan_spec, Entry, FillStep};
use vstd::prelude::*;

verus! {

/// One audio source with its channel routing.
pub struct FileSlot<F> {
    /// The decoder.
    pub source: F,
    /// Routes file channel `k` to output channel `channel_map[k]`.
    pub channel_map: Vec<Option<usize>>,
}

/// A message of the ready channel: a pre-buffered block-queue consumer,
/// tagged with the frame its first block starts at.
pub struct ReadyMsg {
    /// The timeline frame of the first queued block.
    pub frame: u64,
    /// The consumer half of the block queue.
    pub consumer: rtrb::Consumer<Block>,
}

impl ReadyMsg {
    /// A hand-off message: the consumer, tagged with the frame its first
    /// block starts at.
    pub fn new(frame: u64, consumer: rtrb::Consumer<Block>) -> (m: ReadyMsg)
        ensures
            m.frame == frame,
            m.consumer == consumer,
    {
        ReadyMsg { frame, consumer }
    }
}

/// A message of the seek-request channel: the target frame, with the
/// block-queue consumer to drain and recycle.
pub struct SeekMsg {
    /// The requested timeline frame.
    pub frame: u64,
    /// The consumer half of the block queue, handed back for recycling.
    pub consumer: rtrb::Consumer<Block>,
}

impl SeekMsg {
    /// A seek request: the target frame, with the consumer to recycle.
    pub fn new(frame: u64, consumer: rtrb::Consumer<Block>) -> (m: SeekMsg)
        ensures
            m.frame == frame,
            m.consumer == consumer,
    {
        SeekMsg { frame, consumer }
    }
}

/// What one reader iteration accomplished.  On `NoRoom` the driver should
/// back off briefly (the queue is full, or the timeline position cannot
/// advance further) instead of spinning.
#[derive(Clone, Copy, Debug, PartialEq, Eq, Structural)]
pub enum StepOutcome {
    /// A block was filled and committed to the queue.
    Filled,
    /// No queue slot was free; nothing was committed.
    NoRoom,
}

/// Whether none of the plan's first `upto` fill steps routes anything to
/// output channel `ch`.
pub open spec fn plan_leaves_silent<F>(
    plan: Seq<FillStep>,
    files: Seq<FileSlot<F>>,
    ch: int,
    upto: int,
) -> bool {
    forall|i: int|
        0 <= i < upto ==> !routes_to((#[trigger] files[plan[i].idx as int]).channel_map@, ch)
}

/// The reader: block-queue producer, timeline, file table, and the seek
/// bookkeeping of the current buffering cycle.
pub struct Reader<F> {
    /// The timeline entries, read-only.
    pub playlist: Vec<Entry>,
    /// The audio sources the entries index into.
    pub files: Vec<FileSlot<F>>,
    /// Producer half of the block queue.
    pub data_producer: rtrb::Producer<Block>,
    /// Consumer half of the seek-request channel.
    pub seek_consumer: rtrb::Consumer<SeekMsg>,
    /// Producer half of the ready channel.
    pub ready_producer: rtrb::Producer<ReadyMsg>,
    /// The block-queue consumer, held until enough look-ahead accumulated.
    pub held_consumer: Option<rtrb::Consumer<Block>>,
    /// A filled block that found no queue slot, kept for the next attempt.
    pub pending: Option<Block>,
    /// The frame the next filled block starts at.
    pub current_frame: u64,
    /// The frame the current buffering cycle started at.
    pub seek_frame: u64,
    /// Frames per block.
    pub blocksize: u32,
    /// Output channels per block.
    pub channels: u32,
    /// Blocks of look-ahead owed before the consumer is handed over.
    pub buffer_blocks: u32,
}

impl<F> Reader<F> {
    /// The reader's invariant: sane configuration, a consistent buffering
    /// cycle, and a timeline whose entries stay representable and index
    /// into the file table.
    pub open spec fn wf(self) -> bool {
        &&& 1 <= self.blocksize
        &&& 1 <= self.channels
        &&& self.seek_frame <= self.current_frame
        &&& (self.pending is Some ==> self.current_frame as int - self.seek_frame as int
            >= self.blocksize)
        &&& forall|i: int|
            0 <= i < self.playlist@.len() ==> entry_wf(#[trigger] self.playlist@[i])
                && self.playlist@[i].idx < self.files@.len()
    }

    /// The configuration half of the invariant is frozen after construction.
    pub open spec fn same_config(self, other: Self) -> bool {
        &&& self.blocksize == other.blocksize
        &&& self.channels == other.channels
        &&& self.buffer_blocks == other.buffer_blocks
        &&& self.playlist == other.playlist
        &&& self.files@.len() == other.files@.len()
    }
}

impl<F: AudioSource> Reader<F> {
    /// Fills one zero-initialized block for `[current_frame, current_frame +
    /// blocksize)`: every active entry is seeked as the plan directs and
    /// mixed in through its channel map.  With no active entry the block
    /// stays silent.
    pub fn fill_block(&mut self) -> (r: Result<Block, SourceError>)
        requires
            old(self).wf(),
            old(self).current_frame + old(self).blocksize <= u64::MAX,
        ensures
            final(self).wf(),
            final(self).same_config(*old(self)),
            final(self).current_frame == old(self).current_frame,
            final(self).seek_frame == old(self).seek_frame,
            final(self).data_producer == old(self).data_producer,
            final(self).seek_consumer == old(self).seek_consumer,
            final(self).ready_producer == old(self).ready_producer,
            final(self).held_consumer == old(self).held_consumer,
            final(self).pending == old(self).pending,
            r matches Ok(b) ==> block_shaped(
                grid(b),
                old(self).channels as int,
                old(self).blocksize as int,
            ),
            old(self).playlist@.len() == 0 ==> r is Ok,
            r matches Ok(b) ==> (plan_spec(
                old(self).playlist@,
                old(self).current_frame as int,
                old(self).seek_frame as int,
                old(self).blocksize as int,
            ) == Seq::<FillStep>::empty() ==> all_zero(grid(b))),
            // A channel that no active entry routes to stays silent.
            r matches Ok(b) ==> (forall|ch: int, jj: int|
                0 <= ch < grid(b).len() && 0 <= jj < grid(b)[ch].len() && plan_leaves_silent(
                    plan_spec(
                        old(self).playlist@,
                        old(self).current_frame as int,
                        old(self).seek_frame as int,
                        old(self).blocksize as int,
                    ),
                    old(self).files@,
                    ch,
                    plan_spec(
                        old(self).playlist@,
                        old(self).current_frame as int,
                        old(self).seek_frame as int,
                        old(self).blocksize as int,
                    ).len() as int,
                ) ==> #[trigger] grid(b)[ch][jj] == 0i32),
    {
        let blocksize = self.blocksize;
        let channels = self.channels;
        let mut block: Block = zero_block(channels, blocksize);
        proof {
            assert forall|ch: int| 0 <= ch < block@.len() implies (#[trigger] block@[ch])@.len()
                == blocksize as int by {
                assert(grid(block)[ch].len() == blocksize as int);
            }
            assert forall|ch: int, jj: int|
                0 <= ch < block@.len() && 0 <= jj < block@[ch]@.len() implies #[trigger] block@[
                ch
            ]@[jj] == 0i32 by {
                assert(grid(block)[ch] == block@[ch]@);
                assert(grid(block)[ch][jj] == 0i32);
            }
        }
        let plan = plan_fills(
            &self.playlist,
            self.current_frame,
            self.seek_frame,
            blocksize,
            self.files.len(),
        );
        let mut i: usize = 0;
        while i < plan.len()
            invariant
                i <= plan@.len(),
                self.wf(),
                self.same_config(*old(self)),
                self.playlist == old(self).playlist,
                self.data_producer == old(self).data_producer,
                self.seek_consumer == old(self).seek_consumer,
                self.ready_producer == old(self).ready_producer,
                self.held_consumer == old(self).held_consumer,
                self.pending == old(self).pending,
                self.current_frame == old(self).current_frame,
                self.seek_frame == old(self).seek_frame,
                blocksize == self.blocksize,
                channels == self.channels,
                plan@.len() > 0 ==> old(self).playlist@.len() > 0,
                plan@ == plan_spec(
                    old(self).playlist@,
                    old(self).current_frame as int,
                    old(self).seek_frame as int,
                    blocksize as int,
                ),
                forall|n: int|
                    0 <= n < self.files@.len() ==> (#[trigger] self.files@[n]).channel_map == old(self).files@[n].channel_map,
                forall|ch: int, jj: int|
                    0 <= ch < block@.len() && 0 <= jj < block@[ch]@.len() && plan_leaves_silent(
                        plan@,
                        old(self).files@,
                        ch,
                        i as int,
                    ) ==> #[trigger] block@[ch]@[jj] == 0i32,
                forall|k: int|
                    0 <= k < plan@.len() ==> (#[trigger] plan@[k]).idx < self.files@.len()
                        && plan@[k].offset < blocksize,
                block@.len() == channels as int,
                forall|ch: int|
                    0 <= ch < block@.len() ==> (#[trigger] block@[ch])@.len() == blocksize as int,
                plan@.len() == 0 ==> all_zero(grid(block)),
            decreases plan@.len() - i,
        {
            let step = plan[i];
            let ghost b_pre = block;
            let slot = &mut self.files[step.idx];
            if let Some(file_frame) = step.file_seek {
                match slot.source.seek(file_frame) {
                    Ok(()) => (),
                    Err(e) => {
                        return Err(e);
                    },
                }
            }
            match slot.source.fill_channels(&slot.channel_map, blocksize, step.offset, &mut block) {
                Ok(()) => (),
                Err(e) => {
                    return Err(e);
                },
            }
            proof {
                assert forall|ch: int, jj: int|
                    0 <= ch < block@.len() && 0 <= jj < block@[ch]@.len() && plan_leaves_silent(
                        plan@,
                        old(self).files@,
                        ch,
                        i + 1,
                    ) implies #[trigger] block@[ch]@[jj] == 0i32 by {
                    assert(!routes_to(
                        old(self).files@[plan@[i as int].idx as int].channel_map@,
                        ch,
                    ));
                    assert(block@[ch]@ == b_pre@[ch]@);
                    assert(b_pre@[ch]@[jj] == 0i32);
                }
            }
            i += 1;
        }
        proof {
            assert forall|ch: int| 0 <= ch < grid(block).len() implies (#[trigger] grid(
                block,
            )[ch]).len() == blocksize as int by {
                assert(grid(block)[ch] == block@[ch]@);
            }
            assert forall|ch: int, jj: int|
                0 <= ch < grid(block).len() && 0 <= jj < grid(block)[ch].len()
                    && plan_leaves_silent(plan@, old(self).files@, ch, plan@.len() as int)
                implies #[trigger] grid(block)[ch][jj] == 0i32 by {
                assert(grid(block)[ch] == block@[ch]@);
                assert(block@[ch]@[jj] == 0i32);
            }
        }
        Ok(block)
    }

    /// Services one poll of the seek-request channel: a received consumer is
    /// drained of every stale block and adopted, and the buffering cycle
    /// restarts at the requested frame; no message changes nothing.
    pub fn service_seek(&mut self, msg: Option<SeekMsg>)
        requires
            old(self).wf(),
        ensures
            final(self).wf(),
            final(self).same_config(*old(self)),
            final(self).files == old(self).files,
            final(self).data_producer == old(self).data_producer,
            final(self).seek_consumer == old(self).seek_consumer,
            final(self).ready_producer == old(self).ready_producer,
            msg matches Some(m) ==> final(self).current_frame == m.frame && final(self).seek_frame == m.frame && final(self).pending is None && final(self).held_consumer is Some,
            msg is None ==> *final(self) == *old(self),
    {
        if let Some(m) = msg {
            let mut queue = m.consumer;
            drain_queue(&mut queue, self.buffer_blocks);
            self.held_consumer = Some(queue);
            self.current_frame = m.frame;
            self.seek_frame = m.frame;
            // A block filled for the old cycle is stale now.
            self.pending = None;
        }
    }

    /// One iteration of the reader loop: service a pending seek request,
    /// fill and commit one block when the queue has room, and hand the
    /// consumer over once enough look-ahead has accumulated since the last
    /// seek.
    pub fn step(&mut self) -> (r: Result<StepOutcome, SourceError>)
        requires
            old(self).wf(),
        ensures
            final(self).wf(),
            final(self).same_config(*old(self)),
            // A committed block always leaves at least one block of
            // look-ahead in the current buffering cycle.
            r == Ok::<StepOutcome, SourceError>(StepOutcome::Filled) ==> final(self).current_frame as int - final(self).seek_frame as int >= final(self).blocksize,
            // An empty timeline gives the sources no work, so nothing fails.
            old(self).playlist@.len() == 0 ==> !(r is Err),
            // The position only ever advances by whole blocks: it is kept,
            // advanced by one block, or restarted by a serviced seek (and
            // then possibly advanced by the first block of the new cycle).
            final(self).current_frame == old(self).current_frame || final(self).current_frame as int == old(self).current_frame as int + old(self).blocksize || final(self).current_frame == final(self).seek_frame || final(self).current_frame as int == final(self).seek_frame as int + final(self).blocksize,
            // The held consumer is shed only once the look-ahead threshold
            // of the current buffering cycle is reached.
            final(self).held_consumer is None ==> old(self).held_consumer is None || final(self).current_frame as int - final(self).seek_frame as int >= final(self).buffer_blocks as int * final(self).blocksize as int,
    {
        // Seek service first: the requested frame decides what to fill.
        let msg = spsc_pop(&mut self.seek_consumer);
        self.service_seek(msg);
        // Fill step: commit the block kept from a full-queue attempt, or
        // fill a fresh one when the position can still advance.
        if let Some(kept) = self.pending.take() {
            if let Some(back) = spsc_push(&mut self.data_producer, kept) {
                self.pending = Some(back);
                return Ok(StepOutcome::NoRoom);
            }
        } else {
            if self.current_frame > u64::MAX - self.blocksize as u64 {
                // The timeline position cannot advance further; idle.
                return Ok(StepOutcome::NoRoom);
            }
            if spsc_free_slots(&self.data_producer) == 0 {
                return Ok(StepOutcome::NoRoom);
            }
            let block = match self.fill_block() {
                Ok(block) => block,
                Err(e) => {
                    return Err(e);
                },
            };
            self.current_frame = self.current_frame + self.blocksize as u64;
            if let Some(back) = spsc_push(&mut self.data_producer, block) {
                // A free slot was seen above and only this side pushes;
                // keep the block for the next attempt regardless.
                self.pending = Some(back);
                return Ok(StepOutcome::NoRoom);
            }
        }
        // Hand-off decision: enough look-ahead since the last seek, and a
        // not-yet-delivered consumer still held.
        if handoff_due(self.current_frame, self.seek_frame, self.buffer_blocks, self.blocksize) {
            if let Some(consumer) = self.held_consumer.take() {
                let msg = ReadyMsg::new(self.seek_frame, consumer);
                if let Some(back) = spsc_push(&mut self.ready_producer, msg) {
                    // The single-slot channel was still occupied; keep the
                    // consumer for a later hand-off.
                    self.held_consumer = Some(back.consumer);
                }
            }
        }
        Ok(StepOutcome::Filled)
    }

}

/// The hand-off threshold: a freshly recycled consumer is delivered to the
/// facade once `buffer_blocks` whole blocks of look-ahead lie between the
/// start of the buffering cycle and the fill position.
pub fn handoff_due(current_frame: u64, seek_frame: u64, buffer_blocks: u32, blocksize: u32) -> (r:
    bool)
    requires
        seek_frame <= current_frame,
    ensures
        r == (current_frame - seek_frame >= buffer_blocks as int * blocksize as int),
{
    proof {
        assert((buffer_blocks as int) * (blocksize as int) < 0x1_0000_0000_0000_0000)
            by (nonlinear_arith)
            requires
                0 <= (buffer_blocks as int),
                (buffer_blocks as int) < 0x1_0000_0000,
                0 <= (blocksize as int),
                (blocksize as int) < 0x1_0000_0000;
    }
    let lookahead: u64 = current_frame - seek_frame;
    lookahead >= buffer_blocks as u64 * blocksize as u64
}

/// Law: once a buffering cycle has restarted at `seek_frame`, the hand-off
/// becomes due exactly with the `buffer_blocks`-th filled block — each fill
/// advances the position by one block, so the look-ahead the facade waits
/// for accumulates within that many reader iterations.
pub proof fn lemma_handoff_after_buffer_blocks(
    seek_frame: int,
    k: int,
    buffer_blocks: int,
    blocksize: int,
)
    requires
        0 <= k,
        0 <= buffer_blocks,
        1 <= blocksize,
    ensures
        (seek_frame + k * blocksize) - seek_frame >= buffer_blocks * blocksize <==> k
            >= buffer_blocks,
{
    if k >= buffer_blocks {
        vstd::arithmetic::mul::lemma_mul_inequality(buffer_blocks, k, blocksize);
    }
    if k * blocksize >= buffer_blocks * blocksize && k < buffer_blocks {
        vstd::arithmetic::mul::lemma_mul_inequality(k + 1, buffer_blocks, blocksize);
        assert((k + 1) * blocksize == k * blocksize + blocksize) by (nonlinear_arith);
    }
}

/// Drains every block a recycled consumer still holds.  Only the reader
/// pushes into the block queue, so after at most the queue's capacity of
/// pops — one bounded burst per seek — it is empty.
fn drain_queue(queue: &mut rtrb::Consumer<Block>, capacity: u32) {
    let mut left: u64 = capacity as u64 + 1;
    while left > 0
        decreases left,
    {
        if spsc_pop(queue).is_none() {
            left = 0;
        } else {
            left -= 1;
        }
    }
}

} // verus!
