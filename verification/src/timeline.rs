//! The timeline: an ordered set of playback entries, and the per-block plan
//! the reader derives from it.
//!
//! For every block `[current_frame, current_frame + blocksize)` the reader
//! scans the timeline for active entries and decides, per entry, whether the
//! underlying file must be seeked and at which offset inside the block its
//! first sample lands.

use vstd::prelude::*;

verus! {

/// One playback entry: source `idx` plays frames
/// `[begin, begin + duration)` of the global timeline.
#[derive(Clone, Copy, Debug, PartialEq, Eq, Structural)]
pub struct Entry {
    /// Index of the audio source in the file table.
    pub idx: usize,
    /// First timeline frame at which the entry sounds.
    pub begin: u64,
    /// Number of frames the entry sounds for.
    pub duration: u64,
}

/// An entry is active for a block iff its frame range intersects the block.
pub open spec fn entry_active(e: Entry, block_start: int, block_end: int) -> bool {
    e.begin < block_end && block_start < e.begin + e.duration
}

/// An entry is well formed when its frame range stays representable.
pub open spec fn entry_wf(e: Entry) -> bool {
    e.begin + e.duration <= u64::MAX
}

/// The work the reader owes one active entry for one block: seek the file
/// first (when `file_seek` is set, to that frame of the file), then mix
/// `blocksize - offset` frames into the block starting at `offset`.
#[derive(Clone, Copy, Debug, PartialEq, Eq)]
pub struct FillStep {
    /// Index of the audio source in the file table.
    pub idx: usize,
    /// Frame within the file to seek to before mixing, if a seek is due.
    pub file_seek: Option<u64>,
    /// First sample index of the block this entry writes to.
    pub offset: u32,
}

/// The fill step owed to one active entry.  An entry that began strictly
/// before the block is a continuation: its file is seeked only on the first
/// block after a seek (`current == seek`); otherwise the file cursor has
/// already advanced sequentially.  An entry that begins inside the block is
/// seeked to its frame zero and lands at offset `begin - current`.
pub open spec fn step_of_entry(e: Entry, current: int, seek: int) -> FillStep {
    if e.begin < current {
        FillStep {
            idx: e.idx,
            file_seek: if current == seek {
                Some((current - e.begin) as u64)
            } else {
                None
            },
            offset: 0,
        }
    } else {
        FillStep { idx: e.idx, file_seek: Some(0u64), offset: (e.begin - current) as u32 }
    }
}

/// The whole plan for one block: the fill steps of the active entries, in
/// timeline order.
pub open spec fn plan_spec(entries: Seq<Entry>, current: int, seek: int, blocksize: int) -> Seq<
    FillStep,
>
    decreases entries.len(),
{
    if entries.len() == 0 {
        Seq::empty()
    } else {
        let init = plan_spec(entries.drop_last(), current, seek, blocksize);
        if entry_active(entries.last(), current, current + blocksize) {
            init.push(step_of_entry(entries.last(), current, seek))
        } else {
            init
        }
    }
}

/// Computes the fill plan for the block `[current_frame, current_frame +
/// blocksize)` by a linear scan of the timeline.
pub fn plan_fills(
    entries: &Vec<Entry>,
    current_frame: u64,
    seek_frame: u64,
    blocksize: u32,
    files_len: usize,
) -> (r: Vec<FillStep>)
    requires
        1 <= blocksize,
        current_frame + blocksize <= u64::MAX,
        forall|i: int|
            0 <= i < entries@.len() ==> entry_wf(#[trigger] entries@[i]) && entries@[i].idx
                < files_len,
    ensures
        r@ == plan_spec(entries@, current_frame as int, seek_frame as int, blocksize as int),
        forall|i: int|
            0 <= i < r@.len() ==> (#[trigger] r@[i]).idx < files_len && r@[i].offset < blocksize,
{
    let block_end: u64 = current_frame + blocksize as u64;
    let mut r: Vec<FillStep> = Vec::new();
    let mut i: usize = 0;
    while i < entries.len()
        invariant
            i <= entries@.len(),
            1 <= blocksize,
            current_frame + blocksize <= u64::MAX,
            block_end == current_frame + blocksize,
            forall|k: int|
                0 <= k < entries@.len() ==> entry_wf(#[trigger] entries@[k]) && entries@[k].idx
                    < files_len,
            r@ == plan_spec(
                entries@.take(i as int),
                current_frame as int,
                seek_frame as int,
                blocksize as int,
            ),
            forall|k: int|
                0 <= k < r@.len() ==> (#[trigger] r@[k]).idx < files_len && r@[k].offset
                    < blocksize,
        decreases entries@.len() - i,
    {
        let e = entries[i];
        proof {
            assert(entries@.take(i + 1).drop_last() =~= entries@.take(i as int));
            assert(entries@.take(i + 1).last() == entries@[i as int]);
        }
        if e.begin < block_end && current_frame < e.begin + e.duration {
            let step = if e.begin < current_frame {
                let file_seek: Option<u64> = if current_frame == seek_frame {
                    Some(current_frame - e.begin)
                } else {
                    None
                };
                FillStep { idx: e.idx, file_seek, offset: 0 }
            } else {
                FillStep { idx: e.idx, file_seek: Some(0u64), offset: (e.begin - current_frame) as u32 }
            };
            r.push(step);
        }
        i += 1;
    }
    proof {
        assert(entries@.take(entries@.len() as int) =~= entries@);
    }
    r
}

} // verus!
