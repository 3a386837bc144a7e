//! Sample blocks and the per-block fade application.
//!
//! A block is one queue chunk: `channels` rows of `blocksize` samples,
//! planar.  `apply_block` turns one queued block into the output of one
//! `get_data` call, applying the fade ramp that the rolling transition
//! selects.

use crate::fade::{apply_gain, scaled};
use vstd::prelude::*;

verus! {

/// One queue chunk: per-channel rows of samples.
pub type Block = Vec<Vec<i32>>;

/// The sample grid a block or an output buffer holds.
pub open spec fn grid(v: Vec<Vec<i32>>) -> Seq<Seq<i32>> {
    Seq::new(v@.len(), |i: int| v@[i]@)
}

/// Every sample of every row is zero.
pub open spec fn all_zero(g: Seq<Seq<i32>>) -> bool {
    forall|ch: int, j: int|
        0 <= ch < g.len() && 0 <= j < g[ch].len() ==> #[trigger] g[ch][j] == 0i32
}

/// `channels` rows of `blocksize` samples each.
pub open spec fn block_shaped(g: Seq<Seq<i32>>, channels: int, blocksize: int) -> bool {
    g.len() == channels && forall|ch: int| 0 <= ch < g.len() ==> (#[trigger] g[ch]).len() == blocksize
}

/// The output sample at `(ch, j)` that one data request owes, given the
/// queued input block and the rolling transition: fade-in scales by
/// `(j+1)/blocksize`, fade-out by `(blocksize-j)/blocksize`, steady rolling
/// copies.
pub open spec fn faded(
    input: Seq<Seq<i32>>,
    ch: int,
    j: int,
    blocksize: int,
    rolling: bool,
    previously: bool,
) -> int {
    let s = input[ch][j] as int;
    if rolling && !previously {
        scaled(s, j + 1, blocksize)
    } else if !rolling && previously {
        scaled(s, blocksize - j, blocksize)
    } else {
        s
    }
}

/// Replaces one row of a sample grid.
fn set_row(target: &mut Vec<Vec<i32>>, ch: usize, row: Vec<i32>)
    requires
        ch < old(target)@.len(),
    ensures
        final(target)@ == old(target)@.update(ch as int, row),
{
    let slot = &mut target[ch];
    *slot = row;
}

/// A fresh all-zero block of `channels` rows of `blocksize` samples.
pub fn zero_block(channels: u32, blocksize: u32) -> (r: Block)
    ensures
        block_shaped(grid(r), channels as int, blocksize as int),
        all_zero(grid(r)),
{
    let mut r: Block = Vec::new();
    let mut ch: usize = 0;
    while ch < channels as usize
        invariant
            ch <= channels as usize,
            r@.len() == ch,
            forall|c: int|
                0 <= c < ch ==> (#[trigger] r@[c])@ =~= Seq::new(
                    blocksize as nat,
                    |j: int| 0i32,
                ),
        decreases channels as usize - ch,
    {
        let row: Vec<i32> = vec![0i32; blocksize as usize];
        r.push(row);
        ch += 1;
    }
    r
}

/// Overwrites every sample of the target with silence, keeping its shape.
pub fn fill_with_zeros(target: &mut Vec<Vec<i32>>)
    ensures
        final(target)@.len() == old(target)@.len(),
        forall|ch: int|
            0 <= ch < final(target)@.len() ==> (#[trigger] final(target)@[ch])@.len() == old(
                target,
            )@[ch]@.len(),
        all_zero(grid(*final(target))),
{
    let mut ch: usize = 0;
    while ch < target.len()
        invariant
            ch <= target@.len(),
            target@.len() == old(target)@.len(),
            forall|c: int|
                ch <= c < target@.len() ==> (#[trigger] target@[c])@ == old(target)@[c]@,
            forall|c: int|
                0 <= c < ch ==> (#[trigger] target@[c])@ =~= Seq::new(
                    old(target)@[c]@.len(),
                    |j: int| 0i32,
                ),
        decreases target@.len() - ch,
    {
        let n: usize = target[ch].len();
        let row: Vec<i32> = vec![0i32; n];
        set_row(target, ch, row);
        ch += 1;
    }
}

/// Writes the faded image of the queued block into the target: the core of
/// the glitch-free rolling transition.
pub fn apply_block(
    block: &Block,
    target: &mut Vec<Vec<i32>>,
    blocksize: u32,
    rolling: bool,
    previously: bool,
)
    requires
        1 <= blocksize,
        block_shaped(grid(*block), old(target)@.len() as int, blocksize as int),
        block_shaped(grid(*old(target)), old(target)@.len() as int, blocksize as int),
    ensures
        final(target)@.len() == old(target)@.len(),
        block_shaped(grid(*final(target)), old(target)@.len() as int, blocksize as int),
        forall|ch: int, j: int|
            0 <= ch < final(target)@.len() && 0 <= j < blocksize ==> #[trigger] grid(
                *final(target),
            )[ch][j] as int == faded(
                grid(*block),
                ch,
                j,
                blocksize as int,
                rolling,
                previously,
            ),
{
    let channels: usize = target.len();
    proof {
        assert forall|c: int| 0 <= c < channels implies (#[trigger] target@[c])@.len()
            == blocksize as int by {
            assert(grid(*target)[c].len() == blocksize as int);
        }
    }
    let mut ch: usize = 0;
    while ch < channels
        invariant
            ch <= channels,
            channels == old(target)@.len(),
            1 <= blocksize,
            block_shaped(grid(*block), channels as int, blocksize as int),
            target@.len() == channels,
            forall|c: int|
                0 <= c < channels ==> (#[trigger] target@[c])@.len() == blocksize as int,
            forall|c: int, j: int|
                0 <= c < ch && 0 <= j < blocksize ==> #[trigger] target@[c]@[j] as int == faded(
                    grid(*block),
                    c,
                    j,
                    blocksize as int,
                    rolling,
                    previously,
                ),
        decreases channels - ch,
    {
        proof {
            assert(grid(*block)[ch as int].len() == blocksize as int);
        }
        let source: &Vec<i32> = &block[ch];
        proof {
            assert(source@.len() == blocksize as int);
        }
        let mut row: Vec<i32> = Vec::new();
        let mut j: usize = 0;
        while j < blocksize as usize
            invariant
                j <= blocksize as usize,
                ch < channels,
                1 <= blocksize,
                block_shaped(grid(*block), channels as int, blocksize as int),
                source == block@[ch as int],
                source@.len() == blocksize as int,
                row@.len() == j,
                forall|k: int|
                    0 <= k < j ==> #[trigger] row@[k] as int == faded(
                        grid(*block),
                        ch as int,
                        k,
                        blocksize as int,
                        rolling,
                        previously,
                    ),
            decreases blocksize as usize - j,
        {
            let s: i32 = source[j];
            let v: i32 = if rolling && !previously {
                apply_gain(s, (j as u32) + 1, blocksize)
            } else if !rolling && previously {
                apply_gain(s, blocksize - (j as u32), blocksize)
            } else {
                s
            };
            row.push(v);
            j += 1;
        }
        set_row(target, ch, row);
        ch += 1;
    }
}

} // verus!
