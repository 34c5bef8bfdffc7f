//! Frame geometry of the short-time Fourier transform with centred
//! (zero-padded) frames, shared by the forward and the inverse transform.
use vstd::prelude::*;
use vstd::arithmetic::div_mod::*;
use vstd::arithmetic::mul::*;

verus! {

/// FFT size of the spectral transform used for separation.
pub const N_FFT: usize = 6144;

/// Hop between consecutive frames.
pub const HOP_LENGTH: usize = 1024;

/// The layout of the frames over a signal padded by half a frame on each side.
#[derive(Clone, Copy, Debug, PartialEq, Eq, Structural)]
pub struct StftGeometry {
    /// Zeros added before and after the signal.
    pub pad: usize,
    /// Length of the padded signal.
    pub padded_len: usize,
    /// Number of frames.
    pub n_frames: usize,
    /// Number of frequency bins of a real FFT of one frame.
    pub freq_bins: usize,
}

/// The number of frames of `n_fft` samples, `hop` apart, that start within
/// the padded signal: one more than the whole hops that fit beyond the first frame.
pub open spec fn frame_count(signal_len: nat, n_fft: nat, hop: nat) -> nat {
    ((((signal_len + 2 * (n_fft / 2)) - n_fft) as int / hop as int) + 1) as nat
}

/// The geometry that `stft_geometry` computes, as plain arithmetic.
pub open spec fn spec_geometry(signal_len: nat, n_fft: nat, hop: nat) -> StftGeometry {
    let pad = n_fft / 2;
    let padded_len = signal_len + 2 * pad;
    StftGeometry {
        pad: pad as usize,
        padded_len: padded_len as usize,
        n_frames: frame_count(signal_len, n_fft, hop) as usize,
        freq_bins: (n_fft / 2 + 1) as usize,
    }
}

/// The frame layout for a signal of `signal_len` samples.
pub fn stft_geometry(signal_len: usize, n_fft: usize, hop: usize) -> (g: StftGeometry)
    requires
        hop > 0,
        signal_len + 2 * (n_fft / 2) <= usize::MAX,
        signal_len + 2 * (n_fft / 2) >= n_fft,
        frame_count(signal_len as nat, n_fft as nat, hop as nat) <= usize::MAX,
    ensures
        g == spec_geometry(signal_len as nat, n_fft as nat, hop as nat),
        g.pad == n_fft / 2,
        g.padded_len == signal_len + 2 * g.pad,
        g.freq_bins == n_fft / 2 + 1,
        g.n_frames >= 1,
        (g.n_frames - 1) * hop + n_fft <= g.padded_len,
        g.padded_len < g.n_frames * hop + n_fft,
{
    proof {
        lemma_geometry(signal_len, n_fft, hop);
    }
    let pad = n_fft / 2;
    let padded_len = signal_len + 2 * pad;
    let n_frames = (padded_len - n_fft) / hop + 1;
    StftGeometry { pad, padded_len, n_frames, freq_bins: n_fft / 2 + 1 }
}

/// The geometry of a centred transform: half a frame of padding on each
/// side, one bin more than half the frame size, at least one frame, every
/// frame inside the padded signal, and as many frames as fit: one more
/// frame would run past its end.
pub proof fn lemma_geometry(signal_len: usize, n_fft: usize, hop: usize)
    requires
        hop > 0,
        signal_len + 2 * (n_fft / 2) <= usize::MAX,
        signal_len + 2 * (n_fft / 2) >= n_fft,
        frame_count(signal_len as nat, n_fft as nat, hop as nat) <= usize::MAX,
    ensures
        ({
            let g = spec_geometry(signal_len as nat, n_fft as nat, hop as nat);
            &&& g.pad == n_fft / 2
            &&& g.padded_len == signal_len + 2 * g.pad
            &&& g.freq_bins == n_fft / 2 + 1
            &&& g.n_frames >= 1
            &&& (g.n_frames - 1) * hop + n_fft <= g.padded_len
            &&& g.padded_len < g.n_frames * hop + n_fft
        }),
{
    lemma_frames_fit(signal_len as nat, n_fft as nat, hop as nat);
}

/// The frames lie inside the padded signal, and no further whole frame would fit.
pub proof fn lemma_frames_fit(signal_len: nat, n_fft: nat, hop: nat)
    requires
        hop > 0,
        signal_len + 2 * (n_fft / 2) >= n_fft,
    ensures
        ({
            let n = frame_count(signal_len, n_fft, hop);
            &&& n >= 1
            &&& (n - 1) * hop + n_fft <= signal_len + 2 * (n_fft / 2)
            &&& signal_len + 2 * (n_fft / 2) < n * hop + n_fft
        }),
{
    let x: int = signal_len + 2 * (n_fft / 2) - n_fft;
    lemma_fundamental_div_mod(x, hop as int);
    let q = x / (hop as int);
    assert(q >= 0) by {
        lemma_div_pos_is_pos(x, hop as int);
    }
    assert(q * hop <= x) by {
        lemma_mul_is_commutative(q, hop as int);
    }
    assert(x < (q + 1) * hop) by (nonlinear_arith)
        requires
            x == hop * q + x % (hop as int),
            x % (hop as int) < hop,
    ;
    assert(frame_count(signal_len, n_fft, hop) == q + 1);
}

/// The signal with `pad` copies of `zero` added before and after it.
pub open spec fn spec_padded<S>(signal: Seq<S>, pad: nat, zero: S) -> Seq<S> {
    Seq::new(pad, |i: int| zero) + signal + Seq::new(pad, |i: int| zero)
}

/// The signal padded with `pad` copies of `zero` on each side.
pub fn padded_signal<S: Copy>(signal: &[S], pad: usize, zero: S) -> (out: Vec<S>)
    requires
        signal@.len() + 2 * pad <= usize::MAX,
    ensures
        out@ == spec_padded(signal@, pad as nat, zero),
        out@.len() == signal@.len() + 2 * pad,
        forall|k: int| 0 <= k < pad ==> #[trigger] out@[k] == zero,
        forall|k: int| 0 <= k < signal@.len() ==> #[trigger] out@[pad + k] == signal@[k],
        forall|k: int| pad + signal@.len() <= k < out@.len() ==> #[trigger] out@[k] == zero,
{
    let mut out: Vec<S> = Vec::new();
    let mut i: usize = 0;
    while i < pad
        invariant
            i <= pad,
            out@ == Seq::new(i as nat, |k: int| zero),
        decreases pad - i,
    {
        out.push(zero);
        i = i + 1;
        assert(out@ =~= Seq::new(i as nat, |k: int| zero));
    }
    let mut j: usize = 0;
    while j < signal.len()
        invariant
            j <= signal@.len(),
            out@ == Seq::new(pad as nat, |k: int| zero) + signal@.take(j as int),
        decreases signal@.len() - j,
    {
        out.push(signal[j]);
        j = j + 1;
        assert(out@ =~= Seq::new(pad as nat, |k: int| zero) + signal@.take(j as int));
    }
    assert(signal@.take(signal@.len() as int) =~= signal@);
    let ghost front = out@;
    let mut k: usize = 0;
    while k < pad
        invariant
            k <= pad,
            front == Seq::new(pad as nat, |k: int| zero) + signal@,
            out@ == front + Seq::new(k as nat, |m: int| zero),
        decreases pad - k,
    {
        out.push(zero);
        k = k + 1;
        assert(out@ =~= front + Seq::new(k as nat, |m: int| zero));
    }
    out
}

/// The range of the padded reconstruction that is returned: the samples
/// that correspond to the original signal.
pub fn crop_range(g: &StftGeometry, output_len: usize) -> (r: (usize, usize))
    requires
        g.pad + output_len <= usize::MAX,
    ensures
        r.0 == g.pad,
        r.1 == g.pad + output_len,
{
    (g.pad, g.pad + output_len)
}

/// Frame `t` starts at `t * hop` of the padded signal.
pub fn frame_start(t: usize, hop: usize) -> (s: usize)
    requires
        t * hop <= usize::MAX,
    ensures
        s == t * hop,
{
    t * hop
}

} // verus!
