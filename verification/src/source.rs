//! The audio-file decoder interface the reader consumes, and a verified
//! in-memory source.
//!
//! Decoding formats are outside this engine: a source only has to seek to a
//! frame and mix samples into a block through a channel map.  The engine
//! relies on nothing beyond the structural contract below; what the mixed
//! samples are is the source's business.

use crate::block::grid;
use vstd::prelude::*;

verus! {

/// A fatal failure of an audio source; it ends the reader loop.
#[derive(Clone, Copy, Debug, PartialEq, Eq, Structural)]
pub struct SourceError;

/// Whether some file channel of the map routes to output channel `ch`.
pub open spec fn routes_to(map: Seq<Option<usize>>, ch: int) -> bool {
    exists|k: int| 0 <= k < map.len() && ((#[trigger] map[k]) matches Some(c) && c as int == ch)
}

/// An openable, seekable, channel-mixing audio source.
///
/// `channel_map` routes file channel `k` to output channel `channel_map[k]`
/// (`None` drops the file channel).  `fill_channels` mixes up to
/// `blocksize - offset` frames, read from the source's current cursor, into
/// the target rows starting at sample `offset`; samples before `offset` and
/// rows no file channel routes to are left untouched.
pub trait AudioSource: Sized {
    /// Moves the read cursor to `frame` frames from the start of the source.
    fn seek(&mut self, frame: u64) -> (r: Result<(), SourceError>);

    /// Mixes up to `blocksize - offset` frames into `target` at `offset`,
    /// advancing the read cursor; the shape of `target`, the samples before
    /// `offset` and the unrouted rows are preserved.
    fn fill_channels(
        &mut self,
        channel_map: &Vec<Option<usize>>,
        blocksize: u32,
        offset: u32,
        target: &mut Vec<Vec<i32>>,
    ) -> (r: Result<(), SourceError>)
        requires
            offset <= blocksize,
            forall|ch: int|
                0 <= ch < old(target)@.len() ==> (#[trigger] old(target)@[ch])@.len()
                    == blocksize as int,
        ensures
            final(target)@.len() == old(target)@.len(),
            forall|ch: int|
                0 <= ch < final(target)@.len() ==> (#[trigger] final(target)@[ch])@.len()
                    == blocksize as int,
            forall|ch: int, j: int|
                0 <= ch < final(target)@.len() && 0 <= j < offset
                    ==> #[trigger] final(target)@[ch]@[j] == old(target)@[ch]@[j],
            forall|ch: int|
                0 <= ch < final(target)@.len() && !routes_to(channel_map@, ch)
                    ==> #[trigger] final(target)@[ch]@ == old(target)@[ch]@,
    ;
}

/// Clamps an addition of two samples to the representable range.
pub open spec fn mixed(a: int, b: int) -> int {
    if a + b > i32::MAX as int {
        i32::MAX as int
    } else if a + b < i32::MIN as int {
        i32::MIN as int
    } else {
        a + b
    }
}

/// Adds two samples, clamping at the representable range.
pub fn mix_sample(a: i32, b: i32) -> (r: i32)
    ensures
        r as int == mixed(a as int, b as int),
{
    let wide: i64 = a as i64 + b as i64;
    if wide > i32::MAX as i64 {
        i32::MAX
    } else if wide < i32::MIN as i64 {
        i32::MIN
    } else {
        wide as i32
    }
}

/// One output row after the frames of one source row are mixed in: sample
/// `j` of the row gains source sample `cursor + (j - offset)` when `j` lies
/// in `[offset, upto)` and that source index exists.
pub open spec fn mix_row_upto(
    src: Seq<i32>,
    cursor: int,
    offset: int,
    row: Seq<i32>,
    upto: int,
) -> Seq<i32> {
    Seq::new(
        row.len(),
        |j: int|
            if offset <= j < upto && 0 <= cursor + (j - offset) < src.len() {
                mixed(row[j] as int, src[cursor + (j - offset)] as int) as i32
            } else {
                row[j]
            },
    )
}

/// The output grid after the first `k` file channels of the map are mixed
/// in, in map order: each routed, existing file channel adds its samples
/// from `cursor` on to `[offset, blocksize)` of its output row.
pub open spec fn mix_grid(
    samples: Seq<Seq<i32>>,
    map: Seq<Option<usize>>,
    cursor: int,
    offset: int,
    blocksize: int,
    t: Seq<Seq<i32>>,
    k: int,
) -> Seq<Seq<i32>>
    decreases k,
{
    if k <= 0 {
        t
    } else {
        let prev = mix_grid(samples, map, cursor, offset, blocksize, t, k - 1);
        match map[k - 1] {
            Some(ch) => if (ch as int) < prev.len() && k - 1 < samples.len() {
                prev.update(
                    ch as int,
                    mix_row_upto(samples[k - 1], cursor, offset, prev[ch as int], blocksize),
                )
            } else {
                prev
            },
            None => prev,
        }
    }
}

/// An audio source backed by per-channel sample rows held in memory.
pub struct MemorySource {
    /// One row of samples per file channel.
    pub samples: Vec<Vec<i32>>,
    /// The read cursor, in frames from the start.
    pub cursor: u64,
}

impl MemorySource {
    /// A source over the given per-channel rows, cursor at the start.
    pub fn new(samples: Vec<Vec<i32>>) -> (r: MemorySource)
        ensures
            r.samples == samples,
            r.cursor == 0u64,
    {
        MemorySource { samples, cursor: 0 }
    }
}

impl AudioSource for MemorySource {
    /// Seeking never fails: a cursor past the end simply reads silence.
    fn seek(&mut self, frame: u64) -> (r: Result<(), SourceError>)
        ensures
            final(self).samples == old(self).samples,
            final(self).cursor == frame,
            r is Ok,
    {
        self.cursor = frame;
        Ok(())
    }

    /// Mixing is exact: the result is `mix_grid` of the sample rows through
    /// the map, and the cursor advances by the mixed frame count.
    fn fill_channels(
        &mut self,
        channel_map: &Vec<Option<usize>>,
        blocksize: u32,
        offset: u32,
        target: &mut Vec<Vec<i32>>,
    ) -> (r: Result<(), SourceError>)
        ensures
            r is Ok,
            final(self).samples == old(self).samples,
            final(self).cursor == if old(self).cursor + (blocksize - offset) <= u64::MAX {
                (old(self).cursor + (blocksize - offset)) as u64
            } else {
                u64::MAX
            },
            grid(*final(target)) == mix_grid(
                grid(old(self).samples),
                channel_map@,
                old(self).cursor as int,
                offset as int,
                blocksize as int,
                grid(*old(target)),
                channel_map@.len() as int,
            ),
    {
        let frames: u32 = blocksize - offset;
        let ghost srcs = grid(old(self).samples);
        let ghost map = channel_map@;
        let ghost cur = old(self).cursor as int;
        let ghost g0 = grid(*old(target));
        let mut k: usize = 0;
        while k < channel_map.len()
            invariant
                k <= map.len(),
                map == channel_map@,
                *self == *old(self),
                srcs == grid(old(self).samples),
                cur == old(self).cursor as int,
                g0 == grid(*old(target)),
                offset <= blocksize,
                frames == blocksize - offset,
                target@.len() == old(target)@.len(),
                forall|ch: int|
                    0 <= ch < target@.len() ==> (#[trigger] target@[ch])@.len()
                        == blocksize as int,
                forall|ch: int, j: int|
                    0 <= ch < target@.len() && 0 <= j < offset ==> #[trigger] target@[ch]@[j]
                        == old(target)@[ch]@[j],
                forall|ch: int|
                    0 <= ch < target@.len() && !routes_to(map, ch) ==> #[trigger] target@[ch]@
                        == old(target)@[ch]@,
                grid(*target) == mix_grid(
                    srcs,
                    map,
                    cur,
                    offset as int,
                    blocksize as int,
                    g0,
                    k as int,
                ),
            decreases map.len() - k,
        {
            let ghost gk = grid(*target);
            let route = channel_map[k];
            if let Some(ch) = route {
                if ch < target.len() && k < self.samples.len() {
                    proof {
                        assert(map[k as int] == Some(ch));
                        assert(routes_to(map, ch as int));
                        assert(srcs[k as int] == self.samples@[k as int]@);
                    }
                    let ghost row0 = target@[ch as int]@;
                    let mut j: u32 = 0;
                    while j < frames
                        invariant
                            j <= frames,
                            offset <= blocksize,
                            frames == blocksize - offset,
                            *self == *old(self),
                            srcs == grid(old(self).samples),
                            srcs[k as int] == self.samples@[k as int]@,
                            cur == old(self).cursor as int,
                            ch < target@.len(),
                            k < map.len(),
                            k < self.samples@.len(),
                            target@.len() == gk.len(),
                            row0 == gk[ch as int],
                            row0.len() == blocksize as int,
                            forall|c: int|
                                0 <= c < target@.len() && c != ch ==> #[trigger] target@[c]@
                                    == gk[c],
                            forall|c: int|
                                0 <= c < target@.len() ==> (#[trigger] target@[c])@.len()
                                    == blocksize as int,
                            target@[ch as int]@ == mix_row_upto(
                                srcs[k as int],
                                cur,
                                offset as int,
                                row0,
                                offset + j,
                            ),
                        decreases frames - j,
                    {
                        let src_idx: u64 = self.cursor.saturating_add(j as u64);
                        let out_idx: usize = (offset + j) as usize;
                        let n: usize = self.samples[k].len();
                        let ghost pre_row = target@[ch as int]@;
                        if src_idx < n as u64 {
                            proof {
                                assert(src_idx as int == cur + j && cur + j < srcs[
                                    k as int
                                ].len());
                                assert(pre_row[out_idx as int] == row0[out_idx as int]);
                            }
                            let s: i32 = self.samples[k][src_idx as usize];
                            let row = &mut target[ch];
                            let slot = &mut row[out_idx];
                            *slot = mix_sample(*slot, s);
                            proof {
                                assert(target@[ch as int]@ =~= mix_row_upto(
                                    srcs[k as int],
                                    cur,
                                    offset as int,
                                    row0,
                                    offset + j + 1,
                                ));
                            }
                        } else {
                            proof {
                                assert(n as int == srcs[k as int].len());
                                assert(cur + j >= srcs[k as int].len());
                                assert(target@[ch as int]@ =~= mix_row_upto(
                                    srcs[k as int],
                                    cur,
                                    offset as int,
                                    row0,
                                    offset + j + 1,
                                ));
                            }
                        }
                        j += 1;
                    }
                    proof {
                        assert(grid(*target) =~~= mix_grid(
                            srcs,
                            map,
                            cur,
                            offset as int,
                            blocksize as int,
                            g0,
                            k + 1,
                        ));
                        assert forall|jj: int| 0 <= jj < offset implies target@[ch as int]@[jj]
                            == old(target)@[ch as int]@[jj] by {
                            assert(target@[ch as int]@[jj] == row0[jj]);
                        }
                    }
                } else {
                    proof {
                        assert(grid(*target) =~~= mix_grid(
                            srcs,
                            map,
                            cur,
                            offset as int,
                            blocksize as int,
                            g0,
                            k + 1,
                        ));
                    }
                }
            } else {
                proof {
                    assert(grid(*target) =~~= mix_grid(
                        srcs,
                        map,
                        cur,
                        offset as int,
                        blocksize as int,
                        g0,
                        k + 1,
                    ));
                }
            }
            k += 1;
        }
        self.cursor = self.cursor.saturating_add(frames as u64);
        Ok(())
    }
}

} // verus!
