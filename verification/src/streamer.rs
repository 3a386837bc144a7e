//! The real-time streaming facade: non-blocking data requests, glitch-free
//! fades, and the seek handshake.
//!
//! The facade owns the block-queue consumer whenever one has been handed
//! over, the seek-request producer and the ready-channel consumer.  Every
//! operation returns immediately; the only suspension anywhere is a
//! non-blocking queue pop.

use crate::block::{all_zero, apply_block, block_shaped, fill_with_zeros, grid, Block};
use crate::queue::{block_queue_bound, block_queue_new, spsc_new, spsc_pop, spsc_push};
use crate::reader::{FileSlot, Reader, ReadyMsg, SeekMsg};
use crate::source::AudioSource;
use crate::timeline::{entry_wf, Entry};
use vstd::prelude::*;

verus! {

/// The playback position: either delivering data from a known frame, or
/// waiting for a requested frame to be confirmed.
#[derive(Clone, Copy, Debug, PartialEq, Eq, Structural)]
pub enum State {
    /// The consumer delivers real data; the position advances by one block
    /// per consumed chunk.
    Playing(u64),
    /// A target position was requested but not yet confirmed.
    Seeking(u64),
}

/// The errors a data request can report.  All of them leave the target
/// fully silence-filled.
#[derive(Clone, Copy, Debug, PartialEq, Eq, Structural)]
pub enum StreamingError {
    /// Transient underrun: the block queue was momentarily empty.
    EmptyBuffer,
    /// Misuse: data was requested before any seek handshake completed.
    IncompleteSeek,
    /// Misuse: a seek must complete while not rolling.
    SeekWhileRolling,
}

/// The streaming facade.
pub struct FileStreamer {
    /// Consumer half of the ready channel.
    pub ready_consumer: rtrb::Consumer<ReadyMsg>,
    /// Producer half of the seek-request channel.
    pub seek_producer: rtrb::Producer<SeekMsg>,
    /// The block-queue consumer, when the facade currently holds it.
    pub data_consumer: Option<rtrb::Consumer<Block>>,
    /// Output channels per block.
    pub channels: u32,
    /// Frames per block.
    pub blocksize: u32,
    /// Whether the previous data request produced audio rather than silence.
    pub previously_rolling: bool,
    /// The playback position.
    pub state: State,
}

impl FileStreamer {
    /// The facade's invariant: a sane block format, and a position that is
    /// only ever `Playing` while the block-queue consumer is held.
    pub open spec fn wf(self) -> bool {
        &&& 1 <= self.blocksize
        &&& 1 <= self.channels
        &&& self.state is Playing ==> self.data_consumer is Some
    }

    /// The configuration half of the invariant is frozen after construction.
    pub open spec fn same_config(self, other: Self) -> bool {
        &&& self.blocksize == other.blocksize
        &&& self.channels == other.channels
    }

    /// A target buffer of the right shape: one row of `blocksize` samples
    /// per channel.
    pub open spec fn target_shaped(self, target: Vec<Vec<i32>>) -> bool {
        block_shaped(grid(target), self.channels as int, self.blocksize as int)
    }

    /// Builds the whole engine: the block queue, the two handoff channels,
    /// the reader (to be driven elsewhere) and the facade.  The facade
    /// starts out seeking frame zero with no consumer; the reader starts
    /// buffering at frame zero holding the consumer.
    pub fn new<F: AudioSource>(
        playlist: Vec<Entry>,
        files: Vec<FileSlot<F>>,
        blocksize: u32,
        channels: u32,
        buffer_blocks: u32,
    ) -> (r: (FileStreamer, Reader<F>))
        requires
            1 <= blocksize,
            1 <= channels,
            1 <= buffer_blocks,
            forall|i: int|
                0 <= i < playlist@.len() ==> entry_wf(#[trigger] playlist@[i]) && playlist@[i].idx
                    < files@.len(),
        ensures
            r.0.wf(),
            r.0.blocksize == blocksize,
            r.0.channels == channels,
            r.0.previously_rolling == false,
            r.0.state == State::Seeking(0u64),
            r.0.data_consumer is None,
            r.1.wf(),
            r.1.blocksize == blocksize,
            r.1.channels == channels,
            r.1.buffer_blocks == buffer_blocks,
            r.1.playlist == playlist,
            r.1.files == files,
            r.1.current_frame == 0u64,
            r.1.seek_frame == 0u64,
            r.1.held_consumer is Some,
            r.1.pending is None,
            // The block queue is built with one slot per look-ahead block.
            block_queue_bound(r.1.data_producer) == buffer_blocks as nat,
    {
        let (ready_producer, ready_consumer) = spsc_new::<ReadyMsg>(1);
        let (seek_producer, seek_consumer) = spsc_new::<SeekMsg>(1);
        let (data_producer, data_consumer) = block_queue_new(buffer_blocks as usize);
        let streamer = FileStreamer {
            ready_consumer,
            seek_producer,
            data_consumer: None,
            channels,
            blocksize,
            previously_rolling: false,
            state: State::Seeking(0),
        };
        let reader = Reader {
            playlist,
            files,
            data_producer,
            seek_consumer,
            ready_producer,
            held_consumer: Some(data_consumer),
            pending: None,
            current_frame: 0,
            seek_frame: 0,
            blocksize,
            channels,
            buffer_blocks,
        };
        (streamer, reader)
    }

    /// The number of output channels.
    pub fn channels(&self) -> (r: u32)
        ensures
            r == self.channels,
    {
        self.channels
    }

    /// Resolves one poll of the ready channel against the requested frame:
    /// a pre-buffered consumer whose tag matches is adopted and playback is
    /// confirmed at that frame; a mismatched one is merely held, to be
    /// recycled by the caller; no message changes nothing.
    pub fn adopt_ready(&mut self, msg: Option<ReadyMsg>, frame: u64) -> (r: bool)
        requires
            old(self).wf(),
            old(self).data_consumer is None,
        ensures
            final(self).wf(),
            final(self).same_config(*old(self)),
            final(self).previously_rolling == old(self).previously_rolling,
            final(self).ready_consumer == old(self).ready_consumer,
            final(self).seek_producer == old(self).seek_producer,
            msg matches Some(m) ==> (m.frame == frame ==> r == true && final(self).state == State::Playing(frame) && final(self).data_consumer == Some(m.consumer)),
            msg matches Some(m) ==> (m.frame != frame ==> r == false && final(self).state == old(self).state && final(self).data_consumer == Some(m.consumer)),
            msg is None ==> r == false && *final(self) == *old(self),
    {
        match msg {
            Some(m) => {
                self.data_consumer = Some(m.consumer);
                if m.frame == frame {
                    // Fast path: the reader had pre-buffered exactly this
                    // position.
                    self.state = State::Playing(frame);
                    true
                } else {
                    false
                }
            },
            None => false,
        }
    }

    /// Requests playback from `frame`.  Non-blocking: `false` means "poll
    /// again", not failure.  Seeking to the frame already playing is a
    /// no-op; during a fade-out the seek is deferred to the next data
    /// request; otherwise the facade adopts a pre-buffered consumer whose
    /// tag matches, or recycles whatever consumer it holds through the
    /// seek-request channel.
    pub fn seek(&mut self, frame: u64) -> (r: bool)
        requires
            old(self).wf(),
        ensures
            final(self).wf(),
            final(self).same_config(*old(self)),
            final(self).previously_rolling == old(self).previously_rolling,
            old(self).state == State::Playing(frame) ==> r == true && *final(self) == *old(self),
            old(self).previously_rolling && old(self).state != State::Playing(frame) ==> r == false
                && final(self).state == State::Seeking(frame) && final(self).data_consumer == old(self).data_consumer && final(self).ready_consumer == old(self).ready_consumer
                && final(self).seek_producer == old(self).seek_producer,
            r == true ==> final(self).state == State::Playing(frame) && final(self).data_consumer is Some,
            r == false ==> final(self).state == State::Seeking(frame),
            // A successful seek never sends a recycle request.
            r == true ==> final(self).seek_producer == old(self).seek_producer,
            // A held consumer forces the recycle path: no fast-path success.
            !old(self).previously_rolling && old(self).state != State::Playing(frame) && old(self).data_consumer is Some ==> r == false,
            // After a recycle attempt the consumer was either sent away or,
            // when the single-slot channel was still occupied, kept whole.
            r == false && !old(self).previously_rolling && old(self).data_consumer is Some ==> final(self).data_consumer is None || final(self).data_consumer == old(self).data_consumer,
    {
        if let State::Playing(f) = self.state {
            if f == frame {
                return true;
            }
        }
        self.state = State::Seeking(frame);
        if self.previously_rolling {
            // Do not seek yet; the data request fades out first and issues
            // this seek afterwards.
            return false;
        }
        if self.data_consumer.is_none() {
            let msg = spsc_pop(&mut self.ready_consumer);
            if self.adopt_ready(msg, frame) {
                return true;
            }
        }
        if let Some(queue) = self.data_consumer.take() {
            let request = SeekMsg::new(frame, queue);
            if let Some(back) = spsc_push(&mut self.seek_producer, request) {
                // The single-slot channel can only be occupied while a
                // request is still in flight; keep the consumer and let a
                // later poll retry.
                self.data_consumer = Some(back.consumer);
            }
        }
        false
    }

    /// Fills `target` with one block of output.  Silence while not rolling;
    /// otherwise the next queued chunk, faded across rolling transitions.
    /// On every error the target is fully silence-filled.
    pub fn get_data(&mut self, target: &mut Vec<Vec<i32>>, rolling: bool) -> (r: Result<
        (),
        StreamingError,
    >)
        requires
            old(self).wf(),
            old(self).target_shaped(*old(target)),
        ensures
            final(self).wf(),
            final(self).same_config(*old(self)),
            final(self).target_shaped(*final(target)),
            // Misuse: data requested before any seek handshake completed,
            // exactly when audio is wanted (now or as a fade-out) with no
            // consumer; nothing changes.
            r == Err::<(), StreamingError>(StreamingError::IncompleteSeek) <==> (old(self).data_consumer is None && (rolling || old(self).previously_rolling)),
            r == Err::<(), StreamingError>(StreamingError::IncompleteSeek) ==> *final(self) == *old(self) && all_zero(grid(*final(target))),
            // Transient underrun: a consumer is held but the queue was
            // empty; one silent block, nothing else changes.
            r == Err::<(), StreamingError>(StreamingError::EmptyBuffer) ==> old(self).data_consumer is Some && (rolling || old(self).previously_rolling) && all_zero(
                grid(*final(target)),
            ) && final(self).state == old(self).state && final(self).previously_rolling == old(self).previously_rolling,
            // Misuse: a pending seek cannot complete while rolling.
            r == Err::<(), StreamingError>(StreamingError::SeekWhileRolling) ==> rolling && old(self).state is Seeking && final(self).state == old(self).state && all_zero(
                grid(*final(target)),
            ),
            rolling && old(self).state is Seeking && old(self).data_consumer is Some ==> (r == Err::<
                (),
                StreamingError,
            >(StreamingError::EmptyBuffer) || r == Err::<(), StreamingError>(
                StreamingError::SeekWhileRolling,
            )),
            // Pause: with no audio wanted now or previously, the output is
            // silence and the request succeeds.
            !rolling && !old(self).previously_rolling ==> r == Ok::<(), StreamingError>(())
                && all_zero(grid(*final(target))),
            // The rolling flag is remembered exactly on the paths that
            // reach the state machine.
            r == Ok::<(), StreamingError>(()) || r == Err::<(), StreamingError>(
                StreamingError::SeekWhileRolling,
            ) ==> final(self).previously_rolling == rolling,
            // A deferred seek issued on the way out leaves the position
            // either confirmed at the pending frame or still seeking it.
            !rolling && old(self).state is Seeking && r == Ok::<(), StreamingError>(()) ==> final(self).state == State::Playing(old(self).state->Seeking_0) || final(self).state == State::Seeking(old(self).state->Seeking_0),
            // While paused the position only changes through the deferred
            // seek of a pending request; with none pending there is no queue
            // or channel interaction at all.
            !rolling && !old(self).previously_rolling && old(self).state is Playing ==> final(self).state == old(self).state && final(self).data_consumer == old(self).data_consumer
                && final(self).ready_consumer == old(self).ready_consumer && final(self).seek_producer == old(self).seek_producer,
            // Steady playback advances by one block per delivered chunk and
            // never moves otherwise.
            r == Ok::<(), StreamingError>(()) && (rolling || old(self).previously_rolling) && old(self).state is Playing ==> final(self).state
                == State::Playing(
                if old(self).state->Playing_0 + old(self).blocksize <= u64::MAX {
                    (old(self).state->Playing_0 + old(self).blocksize) as u64
                } else {
                    old(self).state->Playing_0
                },
            ),
    {
        let previously = self.previously_rolling;
        if !rolling && !previously {
            fill_with_zeros(target);
            proof {
                lemma_shape_from_rows(*target, self.channels as int, self.blocksize as int, *old(target));
            }
        } else if self.data_consumer.is_some() {
            let mut queue = self.data_consumer.take().unwrap();
            let popped = spsc_pop(&mut queue);
            self.data_consumer = Some(queue);
            match popped {
                Some(chunk) => {
                    if rolling && matches!(self.state, State::Seeking(_)) {
                        // A pending seek cannot complete while rolling; the
                        // chunk is dropped and the target left silent.
                        fill_with_zeros(target);
                        proof {
                            lemma_shape_from_rows(*target, self.channels as int, self.blocksize as int, *old(target));
                        }
                        self.previously_rolling = rolling;
                        return Err(StreamingError::SeekWhileRolling);
                    }
                    if chunk.len() == self.channels as usize && rows_sized(&chunk, self.blocksize) {
                        proof {
                            lemma_rows_to_shape(chunk, self.channels as int, self.blocksize as int);
                        }
                        apply_block(&chunk, target, self.blocksize, rolling, previously);
                    } else {
                        // A reader built with the same configuration only
                        // queues blocks of this shape; anything else is
                        // treated as an underrun.
                        fill_with_zeros(target);
                        proof {
                            lemma_shape_from_rows(*target, self.channels as int, self.blocksize as int, *old(target));
                        }
                        return Err(StreamingError::EmptyBuffer);
                    }
                    if let State::Playing(f) = self.state {
                        if f <= u64::MAX - self.blocksize as u64 {
                            self.state = State::Playing(f + self.blocksize as u64);
                        }
                        // At the very end of the representable timeline the
                        // position saturates instead of overflowing.
                    }
                },
                None => {
                    fill_with_zeros(target);
                    proof {
                        lemma_shape_from_rows(*target, self.channels as int, self.blocksize as int, *old(target));
                    }
                    return Err(StreamingError::EmptyBuffer);
                },
            }
        } else {
            fill_with_zeros(target);
            proof {
                lemma_shape_from_rows(*target, self.channels as int, self.blocksize as int, *old(target));
            }
            return Err(StreamingError::IncompleteSeek);
        }
        self.previously_rolling = rolling;
        if let State::Seeking(frame) = self.state {
            // Only a non-rolling request reaches this point while seeking:
            // this is the deferred seek promised by the fade-out branch of
            // `seek`, and its own polling contract continues the handshake.
            let _ = self.seek(frame);
        }
        Ok(())
    }
}

/// Every row of the block has exactly `blocksize` samples.
fn rows_sized(block: &Block, blocksize: u32) -> (r: bool)
    ensures
        r == forall|ch: int|
            0 <= ch < block@.len() ==> (#[trigger] block@[ch])@.len() == blocksize as int,
{
    let mut ch: usize = 0;
    while ch < block.len()
        invariant
            ch <= block@.len(),
            forall|c: int| 0 <= c < ch ==> (#[trigger] block@[c])@.len() == blocksize as int,
        decreases block@.len() - ch,
    {
        if block[ch].len() != blocksize as usize {
            return false;
        }
        ch += 1;
    }
    true
}

/// Rows of the right count and size make a shaped grid.
proof fn lemma_rows_to_shape(v: Vec<Vec<i32>>, channels: int, blocksize: int)
    requires
        v@.len() == channels,
        forall|ch: int| 0 <= ch < v@.len() ==> (#[trigger] v@[ch])@.len() == blocksize,
    ensures
        block_shaped(grid(v), channels, blocksize),
{
    assert forall|ch: int| 0 <= ch < grid(v).len() implies (#[trigger] grid(v)[ch]).len()
        == blocksize by {
        assert(grid(v)[ch] == v@[ch]@);
    }
}

/// A buffer that kept the shape of a shaped buffer is itself shaped.
proof fn lemma_shape_from_rows(
    v: Vec<Vec<i32>>,
    channels: int,
    blocksize: int,
    former: Vec<Vec<i32>>,
)
    requires
        block_shaped(grid(former), channels, blocksize),
        v@.len() == former@.len(),
        forall|ch: int| 0 <= ch < v@.len() ==> (#[trigger] v@[ch])@.len() == former@[ch]@.len(),
    ensures
        block_shaped(grid(v), channels, blocksize),
{
    assert forall|ch: int| 0 <= ch < v@.len() implies (#[trigger] v@[ch])@.len() == blocksize by {
        assert(grid(former)[ch].len() == blocksize);
        assert(grid(former)[ch] == former@[ch]@);
    }
    lemma_rows_to_shape(v, channels, blocksize);
}

} // verus!
