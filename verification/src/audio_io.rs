//! Channel layout of decoded and written audio: splitting interleaved
//! packets into per-channel buffers, and interleaving channels back into
//! frames for writing.
use vstd::prelude::*;
use vstd::arithmetic::div_mod::*;
use vstd::arithmetic::mul::*;

verus! {

/// Decoded audio: one buffer of samples per channel.
pub struct DecodedAudio<S> {
    pub samples: Vec<Vec<S>>,
    pub sample_rate: u32,
    pub channels: usize,
}

/// The number of samples that channel `c` receives from `len` interleaved
/// samples of `ch` channels: the positions `c`, `c + ch`, `c + 2 ch`, ... below `len`.
pub open spec fn frames_for(len: nat, ch: nat, c: nat) -> nat {
    if c < ch {
        ((len + ch - 1 - c) as int / ch as int) as nat
    } else {
        0
    }
}

/// The samples of channel `c` in the interleaved sequence `s` of `ch` channels.
pub open spec fn channel_samples<S>(s: Seq<S>, ch: nat, c: nat) -> Seq<S> {
    Seq::new(frames_for(s.len(), ch, c), |k: int| s[c + k * ch])
}

/// One more interleaved sample adds one sample to exactly the channel it belongs to.
proof fn lemma_frames_step(n: nat, ch: nat, c: nat)
    requires
        ch > 0,
        c < ch,
    ensures
        n % ch == c ==> frames_for(n + 1, ch, c) == frames_for(n, ch, c) + 1 && c + frames_for(
            n,
            ch,
            c,
        ) * ch == n,
        n % ch != c ==> frames_for(n + 1, ch, c) == frames_for(n, ch, c),
{
    let m: int = n + ch - 1 - c;
    assert(m >= 0);
    lemma_fundamental_div_mod(m, ch as int);
    lemma_fundamental_div_mod(m + 1, ch as int);
    lemma_fundamental_div_mod(n as int, ch as int);
    let q = m / (ch as int);
    let r = m % (ch as int);
    assert(0 <= r < ch);
    if r == ch - 1 {
        assert(m + 1 == (q + 1) * ch) by (nonlinear_arith)
            requires
                m == ch * q + r,
                r == ch - 1,
        ;
        lemma_div_multiples_vanish(q + 1, ch as int);
        assert((m + 1) / (ch as int) == q + 1) by {
            lemma_mul_is_commutative(q + 1, ch as int);
        }
        assert(n == c + q * ch) by (nonlinear_arith)
            requires
                m == ch * q + r,
                r == ch - 1,
                m == n + ch - 1 - c,
        ;
        lemma_mod_multiples_vanish(q, c as int, ch as int);
        lemma_small_mod(c, ch);
        assert((ch * q + c) % (ch as int) == c);
        assert(n % ch == c) by {
            lemma_mul_is_commutative(q, ch as int);
        }
    } else {
        assert(m + 1 == ch * q + (r + 1));
        lemma_div_multiples_vanish_fancy(q, r + 1, ch as int);
        assert((m + 1) / (ch as int) == q);
        // n = ch * q + r + 1 + c - ch, so n % ch = (r + 1 + c) mod ch != c
        if n % ch == c {
            let q2 = n as int / ch as int;
            assert(n == ch * q2 + c);
            assert(ch * q + r + 1 + c - ch == ch * q2 + c);
            assert(ch * (q - q2 - 1) == -(r + 1)) by (nonlinear_arith)
                requires
                    ch * q + r + 1 + c - ch == ch * q2 + c,
            ;
            let k = q - q2 - 1;
            if k >= 0 {
                lemma_mul_nonnegative(ch as int, k);
            } else {
                lemma_mul_inequality(k, -1, ch as int);
                lemma_mul_is_commutative(k, ch as int);
            }
        }
    }
}

/// Splitting a sequence grown by one sample extends one channel by that sample.
proof fn lemma_channel_samples_push<S>(s: Seq<S>, x: S, ch: nat, c: nat)
    requires
        ch > 0,
    ensures
        s.len() % ch == c ==> channel_samples(s.push(x), ch, c) == channel_samples(s, ch, c).push(x),
        s.len() % ch != c ==> channel_samples(s.push(x), ch, c) == channel_samples(s, ch, c),
{
    let t = s.push(x);
    if c < ch {
        lemma_frames_step(s.len(), ch, c);
        let a = channel_samples(t, ch, c);
        let b = channel_samples(s, ch, c);
        assert forall|k: int| 0 <= k < b.len() implies a[k] == b[k] by {
            assert(c + k * ch < s.len()) by (nonlinear_arith)
                requires
                    0 <= k < b.len(),
                    b.len() == frames_for(s.len(), ch, c),
                    frames_for(s.len(), ch, c) == (s.len() + ch - 1 - c) as int / ch as int,
                    ch > 0,
                    c < ch,
            {
                lemma_fundamental_div_mod((s.len() + ch - 1 - c) as int, ch as int);
            }
        }
        if s.len() % ch == c {
            assert(a =~= b.push(x));
        } else {
            assert(a =~= b);
        }
    } else {
        assert(s.len() % ch != c) by {
            lemma_mod_bound(s.len() as int, ch as int);
        }
        assert(channel_samples(t, ch, c) =~= channel_samples(s, ch, c));
    }
}

/// The channel count of a track: the reported count, or two when the
/// container does not report one.
pub fn channel_count_or_default(reported: Option<usize>) -> (n: usize)
    ensures
        n == match reported {
            Some(k) => k,
            None => 2,
        },
{
    match reported {
        Some(k) => k,
        None => 2,
    }
}

/// `channels` empty buffers.
pub fn empty_channel_buffers<S>(channels: usize) -> (b: Vec<Vec<S>>)
    ensures
        b.len() == channels,
        forall|c: int| 0 <= c < channels ==> (#[trigger] b[c])@.len() == 0,
{
    let mut b: Vec<Vec<S>> = Vec::new();
    let mut i: usize = 0;
    while i < channels
        invariant
            i <= channels,
            b.len() == i,
            forall|c: int| 0 <= c < i ==> (#[trigger] b[c])@.len() == 0,
        decreases channels - i,
    {
        b.push(Vec::new());
        i = i + 1;
    }
    b
}

/// Appends the samples of one interleaved packet of `packet_channels`
/// channels to the per-channel buffers; samples of channels beyond the
/// buffers are dropped.
pub fn route_interleaved<S: Copy>(buffers: &mut Vec<Vec<S>>, samples: &[S], packet_channels: usize)
    requires
        packet_channels > 0 || samples@.len() == 0,
    ensures
        final(buffers).len() == old(buffers).len(),
        forall|c: int|
            0 <= c < old(buffers).len() ==> (#[trigger] final(buffers)[c])@ == old(buffers)[c]@
                + channel_samples(samples@, packet_channels as nat, c as nat),
{
    let n = samples.len();
    if n == 0 {
        proof {
            assert forall|c: int| 0 <= c < buffers.len() implies (#[trigger] buffers[c])@ == buffers[c]@
                + channel_samples(samples@, packet_channels as nat, c as nat) by {
                if c < packet_channels {
                    lemma_basic_div((packet_channels - 1 - c) as int, packet_channels as int);
                }
                assert(channel_samples(samples@, packet_channels as nat, c as nat) =~= Seq::<S>::empty());
                assert(buffers[c]@ + Seq::<S>::empty() =~= buffers[c]@);
            }
        }
        return;
    }
    let ghost start = buffers@;
    proof {
        assert forall|c: int| 0 <= c < start.len() implies (#[trigger] buffers[c])@ == start[c]@
            + channel_samples(samples@.take(0), packet_channels as nat, c as nat) by {
            if c < packet_channels {
                lemma_basic_div((packet_channels - 1 - c) as int, packet_channels as int);
            }
            assert(channel_samples(samples@.take(0), packet_channels as nat, c as nat) =~= Seq::<
                S,
            >::empty());
        }
    }
    let mut i: usize = 0;
    while i < n
        invariant
            n == samples@.len(),
            packet_channels > 0,
            i <= n,
            buffers.len() == start.len(),
            forall|c: int|
                0 <= c < start.len() ==> (#[trigger] buffers[c])@ == start[c]@ + channel_samples(
                    samples@.take(i as int),
                    packet_channels as nat,
                    c as nat,
                ),
        decreases n - i,
    {
        let c = i % packet_channels;
        let x = samples[i];
        let ghost before = buffers@;
        if c < buffers.len() {
            buffers[c].push(x);
        }
        proof {
            assert(samples@.take(i + 1) =~= samples@.take(i as int).push(x));
            assert forall|d: int| 0 <= d < start.len() implies (#[trigger] buffers[d])@ == start[d]@
                + channel_samples(samples@.take(i + 1), packet_channels as nat, d as nat) by {
                lemma_channel_samples_push(samples@.take(i as int), x, packet_channels as nat, d as nat);
                if d == c {
                    assert(buffers[d]@ == before[d]@.push(x));
                } else {
                    assert(buffers[d] == before[d]);
                }
            }
        }
        i = i + 1;
    }
    assert(samples@.take(n as int) =~= samples@);
}

/// Every channel buffer is empty.
pub fn all_channels_empty<S>(buffers: &Vec<Vec<S>>) -> (r: bool)
    ensures
        r == forall|c: int| 0 <= c < buffers.len() ==> (#[trigger] buffers[c])@.len() == 0,
{
    let mut i: usize = 0;
    while i < buffers.len()
        invariant
            i <= buffers.len(),
            forall|c: int| 0 <= c < i ==> (#[trigger] buffers[c])@.len() == 0,
        decreases buffers.len() - i,
    {
        if buffers[i].len() != 0 {
            return false;
        }
        i = i + 1;
    }
    true
}

/// The error text when a stream decodes to no samples at all.
pub open spec fn no_samples_message() -> Seq<char> {
    "No audio samples decoded"@
}

/// Packages the decoded channel buffers, failing when every buffer is empty.
pub fn finish_decode<S>(buffers: Vec<Vec<S>>, sample_rate: u32, channels: usize) -> (r: Result<
    DecodedAudio<S>,
    String,
>)
    ensures
        (forall|c: int| 0 <= c < buffers.len() ==> (#[trigger] buffers[c])@.len() == 0) <==> r is Err,
        r matches Err(e) ==> e@ == no_samples_message(),
        r matches Ok(d) ==> d.samples == buffers && d.sample_rate == sample_rate && d.channels
            == channels,
{
    if all_channels_empty(&buffers) {
        Err(String::from_str("No audio samples decoded"))
    } else {
        Ok(DecodedAudio { samples: buffers, sample_rate, channels })
    }
}

/// The smallest length among the channel buffers, zero when there are none.
pub open spec fn min_len<S>(chans: Seq<Vec<S>>) -> nat
    decreases chans.len(),
{
    if chans.len() == 0 {
        0
    } else if chans.len() == 1 {
        chans[0]@.len()
    } else {
        let rest = min_len(chans.drop_last());
        let last = chans.last()@.len();
        if last < rest {
            last
        } else {
            rest
        }
    }
}

/// `min_len` is a lower bound of the lengths and is one of them.
pub proof fn lemma_min_len<S>(chans: Seq<Vec<S>>)
    ensures
        forall|c: int| 0 <= c < chans.len() ==> min_len(chans) <= (#[trigger] chans[c])@.len(),
        chans.len() > 0 ==> exists|c: int| 0 <= c < chans.len() && min_len(chans) == (#[trigger] chans[c])@.len(),
    decreases chans.len(),
{
    if chans.len() > 1 {
        lemma_min_len(chans.drop_last());
        let rest = chans.drop_last();
        assert forall|c: int| 0 <= c < chans.len() implies min_len(chans) <= (#[trigger] chans[c])@.len() by {
            if c < chans.len() - 1 {
                assert(rest[c] == chans[c]);
            }
        }
        if chans.last()@.len() >= min_len(rest) {
            let c = choose|c: int| 0 <= c < rest.len() && min_len(rest) == (#[trigger] rest[c])@.len();
            assert(chans[c] == rest[c]);
        } else {
            assert(chans[chans.len() - 1] == chans.last());
        }
    } else if chans.len() == 1 {
        assert(min_len(chans) == chans[0]@.len());
    }
}

/// Frames of the channel buffers laid out one after another, each frame
/// holding one sample of every channel in channel order; as many frames as
/// the shortest buffer has samples.
pub open spec fn interleaved<S>(chans: Seq<Vec<S>>) -> Seq<S> {
    let n = chans.len();
    Seq::new(min_len(chans) * n, |i: int| chans[i % (n as int)]@[i / (n as int)])
}

/// The interleaved frames of all channels, as written to a WAV stream.
pub fn interleave_frames<S: Copy>(chans: &[Vec<S>]) -> (out: Vec<S>)
    requires
        min_len(chans@) * chans@.len() <= usize::MAX,
    ensures
        out@ == interleaved(chans@),
{
    let n = chans.len();
    let mut m: usize = 0;
    if n > 0 {
        m = chans[0].len();
        let mut c: usize = 1;
        while c < n
            invariant
                n == chans@.len(),
                1 <= c <= n,
                m == min_len(chans@.take(c as int)),
            decreases n - c,
        {
            proof {
                assert(chans@.take(c + 1).drop_last() =~= chans@.take(c as int));
            }
            if chans[c].len() < m {
                m = chans[c].len();
            }
            c = c + 1;
        }
        proof {
            assert(chans@.take(n as int) =~= chans@);
        }
    }
    assert(m == min_len(chans@)) by {
        if n == 0 {
        }
    }
    proof {
        lemma_min_len(chans@);
    }
    let mut out: Vec<S> = Vec::new();
    let mut i: usize = 0;
    while i < m
        invariant
            n == chans@.len(),
            m == min_len(chans@),
            m * n <= usize::MAX,
            i <= m,
            forall|c: int| 0 <= c < n ==> m <= (#[trigger] chans@[c])@.len(),
            out@.len() == i * n,
            forall|j: int| 0 <= j < i * n ==> out@[j] == #[trigger] chans@[j % (n as int)]@[j / (n as int)],
        decreases m - i,
    {
        let mut c: usize = 0;
        while c < n
            invariant
                n == chans@.len(),
                m == min_len(chans@),
                m * n <= usize::MAX,
                i < m,
                c <= n,
                forall|d: int| 0 <= d < n ==> m <= (#[trigger] chans@[d])@.len(),
                out@.len() == i * n + c,
                forall|j: int| 0 <= j < i * n + c ==> out@[j] == #[trigger] chans@[j % (n as int)]@[j / (n as int)],
            decreases n - c,
        {
            proof {
                lemma_fundamental_div_mod_converse((i * n + c) as int, n as int, i as int, c as int);
            }
            out.push(chans[c][i]);
            c = c + 1;
        }
        proof {
            assert((i + 1) * n == i * n + n) by (nonlinear_arith);
            assert((i + 1) * n <= m * n) by (nonlinear_arith)
                requires
                    i < m,
            ;
        }
        i = i + 1;
    }
    assert(out@ =~= interleaved(chans@));
    out
}

/// The channel count field of a WAV header for `n` channel buffers.
pub fn wav_channel_count(n: usize) -> (r: u16)
    ensures
        r == n as u16,
{
    n as u16
}

/// Writing back what was split: interleaving the channel buffers obtained
/// by splitting `s` into `ch` channels gives `s` again, when `s` holds
/// whole frames.
pub proof fn lemma_interleave_inverts_split<S>(s: Seq<S>, ch: nat, frames: nat, chans: Seq<Vec<S>>)
    requires
        ch > 0,
        s.len() == frames * ch,
        chans.len() == ch,
        forall|c: int| 0 <= c < ch ==> (#[trigger] chans[c])@ == channel_samples(s, ch, c as nat),
    ensures
        interleaved(chans) == s,
{
    assert forall|c: int| 0 <= c < ch implies #[trigger] frames_for(s.len(), ch, c as nat) == frames by {
        let x: int = frames * ch + ch - 1 - c;
        assert(x == (frames as int) * (ch as int) + (ch - 1 - c));
        lemma_fundamental_div_mod_converse(x, ch as int, frames as int, ch - 1 - c);
    }
    lemma_min_len(chans);
    assert(min_len(chans) == frames);
    let t = interleaved(chans);
    assert(t.len() == s.len());
    assert forall|i: int| 0 <= i < s.len() implies t[i] == s[i] by {
        lemma_fundamental_div_mod(i, ch as int);
        let q = i / (ch as int);
        let r = i % (ch as int);
        assert(0 <= r < ch);
        assert(0 <= q < frames) by (nonlinear_arith)
            requires
                i == ch * q + r,
                0 <= r < ch,
                0 <= i < frames * ch,
        ;
        assert(r + q * ch == i) by (nonlinear_arith)
            requires
                i == ch * q + r,
        ;
    }
    assert(t =~= s);
}

/// Reading back what was written: splitting the interleaved frames of `n`
/// channels of equal length gives every channel back.
pub proof fn lemma_split_inverts_interleave<S>(chans: Seq<Vec<S>>, len: nat)
    requires
        chans.len() > 0,
        forall|c: int| 0 <= c < chans.len() ==> (#[trigger] chans[c])@.len() == len,
    ensures
        forall|c: int|
            0 <= c < chans.len() ==> #[trigger] channel_samples(interleaved(chans), chans.len(), c as nat)
                == chans[c]@,
{
    let n = chans.len();
    lemma_min_len(chans);
    assert(min_len(chans) == len);
    let t = interleaved(chans);
    assert(t.len() == len * n);
    assert forall|c: int| 0 <= c < n implies #[trigger] channel_samples(t, n, c as nat) == chans[c]@ by {
        let x: int = len * n + n - 1 - c;
        assert(x == (len as int) * (n as int) + (n - 1 - c));
        lemma_fundamental_div_mod_converse(x, n as int, len as int, n - 1 - c);
        assert(frames_for(t.len(), n, c as nat) == len);
        let a = channel_samples(t, n, c as nat);
        assert forall|k: int| 0 <= k < len implies a[k] == chans[c]@[k] by {
            lemma_fundamental_div_mod_converse(c + k * n, n as int, k, c);
            assert(c + k * n < len * n) by (nonlinear_arith)
                requires
                    0 <= k < len,
                    0 <= c < n,
            ;
        }
        assert(a =~= chans[c]@);
    }
}

/// A copy of one channel.
pub fn copy_channel<S: Copy>(src: &Vec<S>) -> (out: Vec<S>)
    ensures
        out@ == src@,
{
    let mut out: Vec<S> = Vec::new();
    let mut i: usize = 0;
    while i < src.len()
        invariant
            i <= src.len(),
            out@ == src@.take(i as int),
        decreases src.len() - i,
    {
        out.push(src[i]);
        i = i + 1;
        assert(out@ =~= src@.take(i as int));
    }
    assert(src@.take(src.len() as int) =~= src@);
    out
}

/// A copy of every channel, as returned when no resampling is needed.
pub fn copy_channels<S: Copy>(chans: &[Vec<S>]) -> (out: Vec<Vec<S>>)
    ensures
        out@.len() == chans@.len(),
        forall|c: int| 0 <= c < chans@.len() ==> (#[trigger] out@[c])@ == chans@[c]@,
{
    let mut out: Vec<Vec<S>> = Vec::new();
    let mut c: usize = 0;
    while c < chans.len()
        invariant
            c <= chans@.len(),
            out@.len() == c,
            forall|d: int| 0 <= d < c ==> (#[trigger] out@[d])@ == chans@[d]@,
        decreases chans@.len() - c,
    {
        out.push(copy_channel(&chans[c]));
        c = c + 1;
    }
    out
}

} // verus!
