//! Planning of the model inference: the model's input dimensions, the
//! overlapping windows of spectrogram frames fed to the model, the tensor
//! layouts, and the stereo input.
use vstd::prelude::*;
use vstd::arithmetic::div_mod::*;
use vstd::arithmetic::mul::*;
use crate::audio_io::copy_channel;

verus! {

/// Input dimensions of the separation model: planes, frequency bins and frames per window.
#[derive(Clone, Copy, Debug, PartialEq, Eq, Structural)]
pub struct ModelDims {
    pub n_channels: usize,
    pub dim_f: usize,
    pub dim_t: usize,
}

/// A declared dimension when it is positive, the default otherwise.
pub open spec fn dim_or(declared: i64, default: usize) -> usize {
    if declared > 0 {
        declared as usize
    } else {
        default
    }
}

/// The dimensions read from a model input shape `[batch, planes, bins, frames]`;
/// the defaults 4, 3072 and 256 stand in for dynamic (non-positive) entries
/// and for an input that is not a tensor of rank four.
pub open spec fn spec_model_dims(shape: Option<Seq<i64>>) -> ModelDims {
    match shape {
        Some(s) => if s.len() == 4 {
            ModelDims { n_channels: dim_or(s[1], 4), dim_f: dim_or(s[2], 3072), dim_t: dim_or(s[3], 256) }
        } else {
            ModelDims { n_channels: 4, dim_f: 3072, dim_t: 256 }
        },
        None => ModelDims { n_channels: 4, dim_f: 3072, dim_t: 256 },
    }
}

fn dim_or_exec(declared: i64, default: usize) -> (d: usize)
    ensures
        d == dim_or(declared, default),
{
    if declared > 0 {
        declared as usize
    } else {
        default
    }
}

/// Each dimension is read from its own entry of a rank-four shape: the
/// entry when positive, the default (4 planes, 3072 bins, 256 frames)
/// otherwise, whatever the batch entry is; any other shape, or no tensor,
/// gives all three defaults.
pub proof fn lemma_model_dims_entrywise(shape: Option<Seq<i64>>, batch: i64)
    ensures
        ({
            let d = spec_model_dims(shape);
            match shape {
                Some(s) => if s.len() == 4 {
                    &&& (s[1] > 0 ==> d.n_channels == s[1] as usize)
                    &&& (s[1] <= 0 ==> d.n_channels == 4)
                    &&& (s[2] > 0 ==> d.dim_f == s[2] as usize)
                    &&& (s[2] <= 0 ==> d.dim_f == 3072)
                    &&& (s[3] > 0 ==> d.dim_t == s[3] as usize)
                    &&& (s[3] <= 0 ==> d.dim_t == 256)
                    &&& spec_model_dims(Some(s.update(0, batch))) == d
                } else {
                    d.n_channels == 4 && d.dim_f == 3072 && d.dim_t == 256
                },
                None => d.n_channels == 4 && d.dim_f == 3072 && d.dim_t == 256,
            }
        }),
{
}

/// The model dimensions for the shape of the model's first input, `None`
/// when that input is not a tensor.
pub fn model_dims(shape: Option<Vec<i64>>) -> (d: ModelDims)
    ensures
        d == spec_model_dims(
            match shape {
                Some(v) => Some(v@),
                None => None,
            },
        ),
        match shape {
            Some(v) => if v@.len() == 4 {
                &&& (v@[1] > 0 ==> d.n_channels == v@[1] as usize)
                &&& (v@[1] <= 0 ==> d.n_channels == 4)
                &&& (v@[2] > 0 ==> d.dim_f == v@[2] as usize)
                &&& (v@[2] <= 0 ==> d.dim_f == 3072)
                &&& (v@[3] > 0 ==> d.dim_t == v@[3] as usize)
                &&& (v@[3] <= 0 ==> d.dim_t == 256)
            } else {
                d.n_channels == 4 && d.dim_f == 3072 && d.dim_t == 256
            },
            None => d.n_channels == 4 && d.dim_f == 3072 && d.dim_t == 256,
        },
{
    match shape {
        Some(s) => {
            if s.len() == 4 {
                ModelDims {
                    n_channels: dim_or_exec(s[1], 4),
                    dim_f: dim_or_exec(s[2], 3072),
                    dim_t: dim_or_exec(s[3], 256),
                }
            } else {
                ModelDims { n_channels: 4, dim_f: 3072, dim_t: 256 }
            }
        },
        None => ModelDims { n_channels: 4, dim_f: 3072, dim_t: 256 },
    }
}

/// How the frames are cut into model windows of `dim_t` frames overlapping by half.
#[derive(Clone, Copy, Debug, PartialEq, Eq, Structural)]
pub struct ChunkPlan {
    pub overlap: usize,
    pub step: usize,
    pub n_chunks: usize,
}

/// The window plan for `n_frames` frames: half-window overlap, the rest of a
/// window as the step, one window when all frames fit in one, and otherwise
/// as many steps as it takes to reach the end.
pub open spec fn spec_chunk_plan(n_frames: usize, dim_t: usize) -> ChunkPlan {
    let overlap = dim_t / 2;
    let step = (dim_t - overlap) as nat;
    ChunkPlan {
        overlap: overlap as usize,
        step: step as usize,
        n_chunks: if n_frames <= dim_t {
            1
        } else {
            ((n_frames - overlap + step - 1) as int / step as int) as usize
        },
    }
}

proof fn lemma_ceil_div(x: nat, d: nat)
    requires
        d > 0,
    ensures
        (x + d - 1) as int / d as int == x as int / d as int + if x % d == 0 {
            0int
        } else {
            1int
        },
{
    lemma_fundamental_div_mod(x as int, d as int);
    let q = x as int / d as int;
    let r = x as int % d as int;
    lemma_mul_is_commutative(q, d as int);
    lemma_mul_is_distributive_add_other_way(d as int, q, 1);
    assert(x == q * d + r);
    if r == 0 {
        lemma_fundamental_div_mod_converse((x + d - 1) as int, d as int, q, d - 1);
    } else {
        lemma_fundamental_div_mod_converse((x + d - 1) as int, d as int, q + 1, r - 1);
    }
}

/// The window plan for `n_frames` spectrogram frames and windows of `dim_t` frames.
pub fn chunk_plan(n_frames: usize, dim_t: usize) -> (p: ChunkPlan)
    requires
        dim_t > 0 || n_frames == 0,
    ensures
        p == spec_chunk_plan(n_frames, dim_t),
        p.overlap == dim_t / 2,
        p.step == dim_t - dim_t / 2,
        n_frames <= dim_t ==> p.n_chunks == 1,
        n_frames > dim_t ==> p.n_chunks >= 2 && (p.n_chunks - 2) * p.step + dim_t < n_frames
            && (p.n_chunks - 1) * p.step + dim_t >= n_frames,
{
    proof {
        lemma_chunk_plan_sound(n_frames, dim_t);
    }
    let overlap = dim_t / 2;
    let step = dim_t - overlap;
    let n_chunks = if n_frames <= dim_t {
        1
    } else {
        let x = n_frames - overlap;
        proof {
            lemma_ceil_div(x as nat, step as nat);
        }
        x / step + if x % step == 0 {
            0
        } else {
            1
        }
    };
    ChunkPlan { overlap, step, n_chunks }
}

/// First frame of window `idx`.
pub open spec fn span_start(p: ChunkPlan, idx: nat) -> nat {
    idx * (p.step as nat)
}

/// One past the last frame of window `idx`: a full window, cut at the last frame.
pub open spec fn span_end(p: ChunkPlan, n_frames: nat, dim_t: nat, idx: nat) -> nat {
    if span_start(p, idx) + dim_t < n_frames {
        span_start(p, idx) + dim_t
    } else {
        n_frames
    }
}

/// Frame `t` lies in window `idx`.
pub open spec fn in_span(p: ChunkPlan, n_frames: nat, dim_t: nat, idx: nat, t: nat) -> bool {
    span_start(p, idx) <= t && t < span_end(p, n_frames, dim_t, idx)
}

/// Frame `t` lies in some window of the plan.
pub open spec fn frame_covered(p: ChunkPlan, n_frames: nat, dim_t: nat, t: nat) -> bool {
    exists|idx: nat| idx < p.n_chunks && #[trigger] in_span(p, n_frames, dim_t, idx, t)
}

/// The frames `[start, end)` of window `idx`.
pub fn chunk_span(p: &ChunkPlan, n_frames: usize, dim_t: usize, idx: usize) -> (r: (usize, usize))
    requires
        dim_t > 0 || n_frames == 0,
        *p == spec_chunk_plan(n_frames, dim_t),
        idx < p.n_chunks,
    ensures
        r.0 == span_start(*p, idx as nat),
        r.1 == span_end(*p, n_frames as nat, dim_t as nat, idx as nat),
        r.0 == idx * (dim_t - dim_t / 2),
        r.0 <= r.1 <= n_frames,
        r.1 - r.0 == dim_t || r.1 == n_frames,
        r.1 - r.0 <= dim_t,
{
    proof {
        lemma_chunk_plan_sound(n_frames, dim_t);
        assert(idx * p.step <= (p.n_chunks - 1) * p.step) by (nonlinear_arith)
            requires
                idx <= p.n_chunks - 1,
        ;
    }
    let start = idx * p.step;
    let end = if n_frames - start > dim_t {
        start + dim_t
    } else {
        n_frames
    };
    (start, end)
}

/// The windows cover the frames: every window starts inside the frames (or
/// at 0 when there are none) and holds at most `dim_t` frames, each window
/// starts no later than the previous one ends, and the last window reaches
/// the last frame; hence every frame lies in some window.
pub proof fn lemma_chunk_plan_sound(n_frames: usize, dim_t: usize)
    requires
        dim_t > 0 || n_frames == 0,
    ensures
        ({
            let p = spec_chunk_plan(n_frames, dim_t);
            let n_frames = n_frames as nat;
            let dim_t = dim_t as nat;
            &&& p.overlap == dim_t / 2
            &&& p.step == dim_t - dim_t / 2
            &&& forall|idx: nat|
                idx < p.n_chunks ==> #[trigger] span_start(p, idx) == idx * (dim_t - dim_t / 2)
            &&& forall|idx: nat|
                idx < p.n_chunks ==> #[trigger] span_end(p, n_frames, dim_t, idx) - span_start(p, idx)
                    == dim_t || span_end(p, n_frames, dim_t, idx) == n_frames
            &&& n_frames <= dim_t ==> p.n_chunks == 1
            &&& n_frames > dim_t ==> p.n_chunks >= 2 && (p.n_chunks - 2) * p.step + dim_t < n_frames
            &&& p.n_chunks >= 1
            &&& p.step >= 1 || n_frames == 0
            &&& p.step <= dim_t
            &&& forall|idx: nat|
                idx < p.n_chunks ==> span_start(p, idx) <= (p.n_chunks - 1) * p.step && (
                n_frames == 0 || #[trigger] span_start(p, idx) < n_frames)
            &&& forall|idx: nat|
                idx < p.n_chunks ==> span_start(p, idx) <= #[trigger] span_end(p, n_frames, dim_t, idx)
                    <= n_frames && span_end(p, n_frames, dim_t, idx) - span_start(p, idx) <= dim_t
            &&& forall|idx: nat|
                0 < idx < p.n_chunks ==> #[trigger] span_start(p, idx) <= span_end(
                    p,
                    n_frames,
                    dim_t,
                    (idx - 1) as nat,
                )
            &&& span_end(p, n_frames, dim_t, (p.n_chunks - 1) as nat) == n_frames
            &&& forall|t: nat| t < n_frames ==> #[trigger] frame_covered(p, n_frames, dim_t, t)
        }),
{
    let p = spec_chunk_plan(n_frames, dim_t);
    let n_frames = n_frames as nat;
    let dim_t = dim_t as nat;
    let overlap = dim_t / 2;
    let step: nat = (dim_t - overlap) as nat;
    assert(p.overlap == overlap && p.step == step);
    if n_frames <= dim_t {
        assert(p.n_chunks == 1);
        assert(span_start(p, 0) == 0);
        assert forall|t: nat| t < n_frames implies #[trigger] frame_covered(p, n_frames, dim_t, t) by {
            assert(span_end(p, n_frames, dim_t, 0) == n_frames);
            assert(in_span(p, n_frames, dim_t, 0, t));
        }
    } else {
        let x: nat = (n_frames - overlap) as nat;
        lemma_ceil_div(x, step);
        assert((x + step - 1) as int / step as int <= x) by {
            if step >= 2 {
                lemma_div_is_strictly_smaller(x as int, step as int);
            } else {
                lemma_div_basics(x as int);
                lemma_fundamental_div_mod(x as int, 1);
            }
        }
        let nc = p.n_chunks as int;
        lemma_fundamental_div_mod(x as int, step as int);
        let q = x as int / step as int;
        let r = x as int % step as int;
        assert(nc == q + if r == 0 { 0int } else { 1int });
        assert(q >= 0) by {
            lemma_div_pos_is_pos(x as int, step as int);
        }
        // The last window starts before x and reaches at least x + overlap = n_frames.
        assert(nc >= 1) by (nonlinear_arith)
            requires
                x > 0,
                x == step * q + r,
                0 <= r < step,
                nc == q + if r == 0 { 0int } else { 1int },
                q >= 0,
        ;
        assert((nc - 1) * step < x) by (nonlinear_arith)
            requires
                x == step * q + r,
                0 <= r < step,
                nc == q + if r == 0 { 0int } else { 1int },
                nc >= 1,
        ;
        assert(nc * step >= x) by (nonlinear_arith)
            requires
                x == step * q + r,
                0 <= r < step,
                nc == q + if r == 0 { 0int } else { 1int },
        ;
        assert((nc - 1) * step + dim_t >= n_frames) by (nonlinear_arith)
            requires
                nc * step >= x,
                x == n_frames - overlap,
                dim_t == step + overlap,
        ;
        assert(x > step);
        assert(nc >= 2) by (nonlinear_arith)
            requires
                nc * step >= x,
                x > step,
                step >= 1,
        ;
        assert((nc - 2) * step + dim_t < n_frames) by (nonlinear_arith)
            requires
                (nc - 1) * step < x,
                x == n_frames - overlap,
                dim_t == step + overlap,
        ;
        assert forall|idx: nat| idx < p.n_chunks implies span_start(p, idx) <= (p.n_chunks - 1) * p.step && (
            n_frames == 0 || #[trigger] span_start(p, idx) < n_frames) by {
            assert(idx * step <= (nc - 1) * step) by (nonlinear_arith)
                requires
                    idx <= nc - 1,
                    step >= 0,
            ;
        }
        assert forall|idx: nat| 0 < idx < p.n_chunks implies #[trigger] span_start(p, idx) <= span_end(
            p,
            n_frames,
            dim_t,
            (idx - 1) as nat,
        ) by {
            assert(idx * step == (idx - 1) * step + step) by (nonlinear_arith)
                requires
                    idx >= 1,
            ;
            assert(idx * step <= (nc - 1) * step) by (nonlinear_arith)
                requires
                    idx <= nc - 1,
            ;
        }
        assert forall|t: nat| t < n_frames implies #[trigger] frame_covered(p, n_frames, dim_t, t) by {
            let qt = t as int / step as int;
            let rt = t as int % step as int;
            lemma_fundamental_div_mod(t as int, step as int);
            assert(qt >= 0) by {
                lemma_div_pos_is_pos(t as int, step as int);
            }
            if qt < nc - 1 {
                let idx = qt as nat;
                assert(idx * step <= t) by (nonlinear_arith)
                    requires
                        t == step * qt + rt,
                        rt >= 0,
                        idx == qt,
                ;
                assert(t < idx * step + step) by (nonlinear_arith)
                    requires
                        t == step * qt + rt,
                        rt < step,
                        idx == qt,
                ;
                assert(in_span(p, n_frames, dim_t, idx, t));
            } else {
                let idx = (nc - 1) as nat;
                assert(idx * step <= t) by (nonlinear_arith)
                    requires
                        t == step * qt + rt,
                        rt >= 0,
                        idx <= qt,
                        step >= 0,
                ;
                assert(in_span(p, n_frames, dim_t, idx, t));
            }
        }
    }
}

/// Position of element `(plane, f, t)` in a row-major tensor of shape
/// `[1, s1, s2, s3]` stored contiguously.
pub open spec fn spec_tensor_offset(plane: nat, f: nat, t: nat, s2: nat, s3: nat) -> nat {
    plane * s2 * s3 + f * s3 + t
}

/// Index of element `(plane, f, t)` in the flat data of a `[1, s1, s2, s3]` tensor.
pub fn tensor_offset(plane: usize, f: usize, t: usize, s1: usize, s2: usize, s3: usize) -> (o: usize)
    requires
        plane < s1,
        f < s2,
        t < s3,
        s1 * s2 * s3 <= usize::MAX,
    ensures
        o == spec_tensor_offset(plane as nat, f as nat, t as nat, s2 as nat, s3 as nat),
        o == plane * s2 * s3 + f * s3 + t,
        o < s1 * s2 * s3,
{
    proof {
        lemma_offset_bound(plane as nat, f as nat, t as nat, s1 as nat, s2 as nat, s3 as nat);
    }
    plane * s2 * s3 + f * s3 + t
}

proof fn lemma_offset_bound(plane: nat, f: nat, t: nat, s1: nat, s2: nat, s3: nat)
    requires
        plane < s1,
        f < s2,
        t < s3,
    ensures
        plane * s2 * s3 + f * s3 + t < s1 * s2 * s3,
        plane * s2 <= plane * s2 * s3,
        f * s3 <= s2 * s3,
{
    assert(plane * s2 <= plane * s2 * s3) by (nonlinear_arith)
        requires
            t < s3,
    ;
    assert(f * s3 <= s2 * s3) by (nonlinear_arith)
        requires
            f < s2,
    ;
    assert(f * s3 + t < s2 * s3) by (nonlinear_arith)
        requires
            f < s2,
            t < s3,
    ;
    assert(plane * s2 * s3 + s2 * s3 <= s1 * s2 * s3) by (nonlinear_arith)
        requires
            plane < s1,
    ;
}

/// Row-major layout: the first element is at 0, the next frame is the next
/// position, the next bin is `s3` positions on, and the next plane `s2 * s3`
/// positions on.
pub proof fn lemma_tensor_offset_strides(plane: nat, f: nat, t: nat, s2: nat, s3: nat)
    ensures
        spec_tensor_offset(0, 0, 0, s2, s3) == 0,
        spec_tensor_offset(plane, f, t + 1, s2, s3) == spec_tensor_offset(plane, f, t, s2, s3) + 1,
        spec_tensor_offset(plane, f + 1, t, s2, s3) == spec_tensor_offset(plane, f, t, s2, s3) + s3,
        spec_tensor_offset(plane + 1, f, t, s2, s3) == spec_tensor_offset(plane, f, t, s2, s3) + s2
            * s3,
{
    assert((plane + 1) * s2 * s3 == plane * s2 * s3 + s2 * s3) by (nonlinear_arith);
    assert((f + 1) * s3 == f * s3 + s3) by (nonlinear_arith);
}

/// Distinct elements of a tensor occupy distinct positions.
pub proof fn lemma_tensor_offset_injective(
    a: (nat, nat, nat),
    b: (nat, nat, nat),
    s2: nat,
    s3: nat,
)
    requires
        a.1 < s2 && a.2 < s3,
        b.1 < s2 && b.2 < s3,
        spec_tensor_offset(a.0, a.1, a.2, s2, s3) == spec_tensor_offset(b.0, b.1, b.2, s2, s3),
    ensures
        a == b,
{
    let oa = spec_tensor_offset(a.0, a.1, a.2, s2, s3) as int;
    assert(oa == (a.0 * s2 + a.1) * s3 + a.2) by (nonlinear_arith)
        requires
            oa == spec_tensor_offset(a.0, a.1, a.2, s2, s3),
    ;
    assert(oa == (b.0 * s2 + b.1) * s3 + b.2) by (nonlinear_arith)
        requires
            oa == spec_tensor_offset(b.0, b.1, b.2, s2, s3),
    ;
    lemma_fundamental_div_mod_converse(oa, s3 as int, (a.0 * s2 + a.1) as int, a.2 as int);
    lemma_fundamental_div_mod_converse(oa, s3 as int, (b.0 * s2 + b.1) as int, b.2 as int);
    let row = (a.0 * s2 + a.1) as int;
    lemma_fundamental_div_mod_converse(row, s2 as int, a.0 as int, a.1 as int);
    lemma_fundamental_div_mod_converse(row, s2 as int, b.0 as int, b.1 as int);
}

/// The plane of the model tensor that holds the real (or, with `imag`, the
/// imaginary) part of stereo channel `ch`: planes alternate real and
/// imaginary, left channel first.
pub fn spectrum_plane(ch: usize, imag: bool) -> (p: usize)
    requires
        ch < 2,
    ensures
        p == 2 * ch + if imag {
            1nat
        } else {
            0nat
        },
{
    if imag {
        2 * ch + 1
    } else {
        2 * ch
    }
}

/// The number of frequency bins fed to the model: the model's, capped by what the transform yields.
pub fn effective_bins(dim_f: usize, freq_bins: usize) -> (n: usize)
    ensures
        n == if dim_f < freq_bins {
            dim_f
        } else {
            freq_bins
        },
{
    if dim_f < freq_bins {
        dim_f
    } else {
        freq_bins
    }
}

/// The two channels given to the model: a mono input is used for both,
/// otherwise the first two channels are taken.
pub fn stereo_pair<S: Copy>(audio: &[Vec<S>]) -> (r: (Vec<S>, Vec<S>))
    requires
        audio@.len() >= 1,
    ensures
        r.0@ == audio@[0]@,
        audio@.len() == 1 ==> r.1@ == audio@[0]@,
        audio@.len() > 1 ==> r.1@ == audio@[1]@,
{
    let left = copy_channel(&audio[0]);
    if audio.len() == 1 {
        let right = copy_channel(&audio[0]);
        (left, right)
    } else {
        let right = copy_channel(&audio[1]);
        (left, right)
    }
}

} // verus!
