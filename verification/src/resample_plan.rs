//! Block planning for fixed-input-size resampling: how the input is cut
//! into blocks, how a short last block is padded, and how much of each
//! block's output is kept.
use vstd::prelude::*;

verus! {

/// The number of input frames the resampler consumes per block.
pub const RESAMPLE_CHUNK: usize = 1024;

/// Resampling is needed exactly when the two rates differ.
pub fn needs_resampling(from_rate: u32, to_rate: u32) -> (r: bool)
    ensures
        r == (from_rate != to_rate),
{
    from_rate != to_rate
}

/// The end of the block that starts at `pos`: a full block, or the rest of the input.
pub open spec fn spec_block_end(pos: nat, input_len: nat, chunk_size: nat) -> nat {
    if pos + chunk_size < input_len {
        pos + chunk_size
    } else {
        input_len
    }
}

/// The end of the block that starts at `pos`.
pub fn block_end(pos: usize, input_len: usize, chunk_size: usize) -> (end: usize)
    requires
        pos <= input_len,
    ensures
        end == spec_block_end(pos as nat, input_len as nat, chunk_size as nat),
{
    if input_len - pos > chunk_size {
        pos + chunk_size
    } else {
        input_len
    }
}

/// The blocks `[start, end)` into which an input of `input_len` frames is cut.
pub fn plan_blocks(input_len: usize, chunk_size: usize) -> (blocks: Vec<(usize, usize)>)
    requires
        chunk_size > 0,
    ensures
        blocks@.len() > 0 ==> blocks@[0].0 == 0,
        blocks@.len() > 0 ==> blocks@.last().1 == input_len,
        blocks@.len() == 0 <==> input_len == 0,
        forall|k: int|
            0 <= k < blocks@.len() ==> #[trigger] blocks@[k].1 == spec_block_end(
                blocks@[k].0 as nat,
                input_len as nat,
                chunk_size as nat,
            ) && blocks@[k].0 < blocks@[k].1,
        forall|k: int| 0 < k < blocks@.len() ==> #[trigger] blocks@[k].0 == blocks@[k - 1].1,
        forall|k: int| 0 <= k < blocks@.len() ==> #[trigger] blocks@[k].1 - blocks@[k].0 <= chunk_size,
        forall|k: int| 0 <= k < blocks@.len() - 1 ==> #[trigger] blocks@[k].1 - blocks@[k].0 == chunk_size,
        forall|f: int| 0 <= f < input_len ==> #[trigger] covered(blocks@, f),
{
    let blocks = plan_blocks_raw(input_len, chunk_size);
    proof {
        lemma_blocks_tile(input_len as nat, chunk_size as nat, blocks@);
    }
    blocks
}

fn plan_blocks_raw(input_len: usize, chunk_size: usize) -> (blocks: Vec<(usize, usize)>)
    requires
        chunk_size > 0,
    ensures
        blocks@.len() > 0 ==> blocks@[0].0 == 0,
        blocks@.len() > 0 ==> blocks@.last().1 == input_len,
        blocks@.len() == 0 <==> input_len == 0,
        forall|k: int|
            0 <= k < blocks@.len() ==> #[trigger] blocks@[k].1 == spec_block_end(
                blocks@[k].0 as nat,
                input_len as nat,
                chunk_size as nat,
            ) && blocks@[k].0 < blocks@[k].1,
        forall|k: int| 0 < k < blocks@.len() ==> #[trigger] blocks@[k].0 == blocks@[k - 1].1,
{
    let mut blocks: Vec<(usize, usize)> = Vec::new();
    let mut pos: usize = 0;
    while pos < input_len
        invariant
            chunk_size > 0,
            pos <= input_len,
            blocks@.len() == 0 <==> pos == 0,
            blocks@.len() > 0 ==> blocks@[0].0 == 0,
            blocks@.len() > 0 ==> blocks@.last().1 == pos,
            forall|k: int|
                0 <= k < blocks@.len() ==> #[trigger] blocks@[k].1 == spec_block_end(
                    blocks@[k].0 as nat,
                    input_len as nat,
                    chunk_size as nat,
                ) && blocks@[k].0 < blocks@[k].1,
            forall|k: int| 0 < k < blocks@.len() ==> #[trigger] blocks@[k].0 == blocks@[k - 1].1,
        decreases input_len - pos,
    {
        let end = block_end(pos, input_len, chunk_size);
        blocks.push((pos, end));
        pos = end;
    }
    blocks
}

/// Frame `f` lies in block `b`.
pub open spec fn block_holds(b: (usize, usize), f: int) -> bool {
    b.0 <= f < b.1
}

/// Frame `f` lies in some block of `blocks`.
pub open spec fn covered(blocks: Seq<(usize, usize)>, f: int) -> bool {
    exists|k: int| 0 <= k < blocks.len() && #[trigger] block_holds(blocks[k], f)
}

/// The blocks tile the input: every frame lies in exactly one block, each
/// block holds at most `chunk_size` frames, and every block but the last
/// holds exactly `chunk_size`.
pub proof fn lemma_blocks_tile(input_len: nat, chunk_size: nat, blocks: Seq<(usize, usize)>)
    requires
        chunk_size > 0,
        blocks.len() > 0 ==> blocks[0].0 == 0,
        blocks.len() > 0 ==> blocks.last().1 == input_len,
        blocks.len() == 0 <==> input_len == 0,
        forall|k: int|
            0 <= k < blocks.len() ==> #[trigger] blocks[k].1 == spec_block_end(
                blocks[k].0 as nat,
                input_len,
                chunk_size,
            ) && blocks[k].0 < blocks[k].1,
        forall|k: int| 0 < k < blocks.len() ==> #[trigger] blocks[k].0 == blocks[k - 1].1,
    ensures
        forall|k: int| 0 <= k < blocks.len() ==> #[trigger] blocks[k].1 - blocks[k].0 <= chunk_size,
        forall|k: int| 0 <= k < blocks.len() - 1 ==> #[trigger] blocks[k].1 - blocks[k].0 == chunk_size,
        forall|f: int| 0 <= f < input_len ==> #[trigger] covered(blocks, f),
        forall|f: int, k1: int, k2: int|
            0 <= k1 < blocks.len() && 0 <= k2 < blocks.len() && #[trigger] block_holds(blocks[k1], f)
                && #[trigger] block_holds(blocks[k2], f) ==> k1 == k2,
{
    // Block starts increase strictly with the index.
    assert forall|a: int, b: int| 0 <= a < b < blocks.len() implies #[trigger] blocks[a].1 <= #[trigger] blocks[b].0 by {
        lemma_starts_increase(input_len, chunk_size, blocks, a, b);
    }
    assert forall|k: int| 0 <= k < blocks.len() - 1 implies #[trigger] blocks[k].1 - blocks[k].0 == chunk_size by {
        assert(blocks[k + 1].0 == blocks[k].1);
        assert(blocks[k].1 < input_len) by {
            if k + 1 < blocks.len() - 1 {
                lemma_starts_increase(input_len, chunk_size, blocks, k + 1, blocks.len() - 1);
            }
            assert(blocks[k + 1].0 < blocks[k + 1].1);
            assert(blocks[blocks.len() - 1].0 < blocks[blocks.len() - 1].1);
        }
    }
    assert forall|f: int| 0 <= f < input_len implies #[trigger] covered(blocks, f) by {
        lemma_frame_in_block(input_len, chunk_size, blocks, f, blocks.len() - 1);
    }
    assert forall|f: int, k1: int, k2: int|
        0 <= k1 < blocks.len() && 0 <= k2 < blocks.len() && #[trigger] block_holds(blocks[k1], f)
            && #[trigger] block_holds(blocks[k2], f) implies k1 == k2 by {
        if k1 < k2 {
            lemma_starts_increase(input_len, chunk_size, blocks, k1, k2);
        } else if k2 < k1 {
            lemma_starts_increase(input_len, chunk_size, blocks, k2, k1);
        }
    }
}

proof fn lemma_starts_increase(input_len: nat, chunk_size: nat, blocks: Seq<(usize, usize)>, a: int, b: int)
    requires
        0 <= a < b < blocks.len(),
        forall|k: int|
            0 <= k < blocks.len() ==> #[trigger] blocks[k].1 == spec_block_end(
                blocks[k].0 as nat,
                input_len,
                chunk_size,
            ) && blocks[k].0 < blocks[k].1,
        forall|k: int| 0 < k < blocks.len() ==> #[trigger] blocks[k].0 == blocks[k - 1].1,
    ensures
        blocks[a].1 <= blocks[b].0,
    decreases b - a,
{
    assert(blocks[b].0 == blocks[b - 1].1);
    if b - 1 > a {
        lemma_starts_increase(input_len, chunk_size, blocks, a, b - 1);
        assert(blocks[b - 1].0 < blocks[b - 1].1);
    }
}

proof fn lemma_frame_in_block(input_len: nat, chunk_size: nat, blocks: Seq<(usize, usize)>, f: int, upto: int)
    requires
        0 <= upto < blocks.len(),
        blocks[0].0 == 0,
        0 <= f < blocks[upto].1,
        forall|k: int| 0 < k < blocks.len() ==> #[trigger] blocks[k].0 == blocks[k - 1].1,
    ensures
        exists|k: int| 0 <= k <= upto && #[trigger] block_holds(blocks[k], f),
    decreases upto,
{
    if f >= blocks[upto].0 {
        assert(block_holds(blocks[upto], f));
    } else {
        assert(blocks[upto].0 == blocks[upto - 1].1);
        lemma_frame_in_block(input_len, chunk_size, blocks, f, upto - 1);
    }
}

/// The block `channel[start..end)` padded with `zero` up to `chunk_size` samples.
pub open spec fn spec_padded_block<S>(channel: Seq<S>, start: int, end: int, chunk_size: nat, zero: S) -> Seq<S> {
    let body = channel.subrange(start, end);
    if body.len() < chunk_size {
        body + Seq::new((chunk_size - body.len()) as nat, |i: int| zero)
    } else {
        body
    }
}

/// A padded block holds the block's samples in order from its start, then
/// `zero` up to `chunk_size`; a block at least `chunk_size` long is not padded.
pub proof fn lemma_padded_block<S>(channel: Seq<S>, start: int, end: int, chunk_size: nat, zero: S)
    requires
        0 <= start <= end <= channel.len(),
    ensures
        ({
            let out = spec_padded_block(channel, start, end, chunk_size, zero);
            &&& out.len() == if end - start < chunk_size {
                chunk_size as int
            } else {
                end - start
            }
            &&& forall|k: int| 0 <= k < end - start ==> #[trigger] out[k] == channel[start + k]
            &&& forall|k: int| end - start <= k < out.len() ==> #[trigger] out[k] == zero
        }),
{
}

/// The samples of one channel in a block, padded with `zero` to a full block.
pub fn padded_block<S: Copy>(channel: &[S], start: usize, end: usize, chunk_size: usize, zero: S) -> (out: Vec<S>)
    requires
        start <= end <= channel@.len(),
    ensures
        out@ == spec_padded_block(channel@, start as int, end as int, chunk_size as nat, zero),
        out@.len() == if end - start < chunk_size {
            chunk_size as int
        } else {
            end - start
        },
        forall|k: int| 0 <= k < end - start ==> #[trigger] out@[k] == channel@[start + k],
        forall|k: int| end - start <= k < out@.len() ==> #[trigger] out@[k] == zero,
{
    proof {
        lemma_padded_block(channel@, start as int, end as int, chunk_size as nat, zero);
    }
    let mut out: Vec<S> = Vec::new();
    let mut i: usize = start;
    while i < end
        invariant
            start <= i <= end <= channel@.len(),
            out@ == channel@.subrange(start as int, i as int),
        decreases end - i,
    {
        out.push(channel[i]);
        i = i + 1;
        assert(out@ =~= channel@.subrange(start as int, i as int));
    }
    let body_len = end - start;
    if body_len < chunk_size {
        let ghost body = out@;
        let mut j: usize = body_len;
        while j < chunk_size
            invariant
                body_len <= j <= chunk_size,
                body == channel@.subrange(start as int, end as int),
                body.len() == body_len,
                out@ == body + Seq::new((j - body_len) as nat, |i: int| zero),
            decreases chunk_size - j,
        {
            out.push(zero);
            j = j + 1;
            assert(out@ =~= body + Seq::new((j - body_len) as nat, |i: int| zero));
        }
    }
    out
}

/// How many output frames of a block are kept: all of a full block; of a
/// short last block at most `expected`, the resampled length of the input
/// frames it really held.
pub fn kept_output_len(actual_len: usize, chunk_size: usize, expected: usize, produced: usize) -> (n: usize)
    ensures
        actual_len >= chunk_size ==> n == produced,
        actual_len < chunk_size ==> n == if expected < produced {
            expected
        } else {
            produced
        },
{
    if actual_len < chunk_size {
        if expected < produced {
            expected
        } else {
            produced
        }
    } else {
        produced
    }
}

} // verus!
