//! Sample-format conversion and streaming resampling to 16 kHz mono.
//!
//! Raw interleaved samples at any integer rate and channel count are
//! mono-mixed and resampled by linear interpolation to the fixed target
//! rate, then emitted as fixed-size chunks.  All arithmetic is exact
//! integer arithmetic: the fractional resampling cursor is kept as a
//! numerator over `TARGET_RATE`, and every output sample is the exact
//! rational interpolation truncated toward zero, once.

use vstd::prelude::*;
use vstd::arithmetic::div_mod::{
    lemma_div_is_ordered, lemma_div_multiples_vanish, lemma_div_pos_is_pos,
    lemma_fundamental_div_mod_converse,
};

verus! {

/// Target sample rate in Hz for all transcription input.
pub const TARGET_RATE: u32 = 16000;

/// Samples per emitted chunk: 100 ms of audio at the target rate.
pub const SAMPLES_PER_CHUNK: usize = 1600;

/// Convert an unsigned 8-bit sample (silence at 128) to a signed 16-bit sample.
pub fn u8_to_i16(s: u8) -> (r: i16)
    ensures
        r as int == (s as int - 128) * 256,
{
    (s as i16 - 128) * 256
}

/// Convert a signed 32-bit sample to 16 bits by dropping the low 16 bits:
/// an arithmetic right shift, i.e. floor division by 65536.
pub fn i32_to_i16(s: i32) -> (r: i16)
    ensures
        r as int == (s as int) / 65536,
{
    let r: i32 = s >> 16;
    proof {
        assert(-32768i32 <= (s >> 16i32) <= 32767i32) by (bit_vector);
        assert(0i32 <= s - 65536i32 * (s >> 16i32) < 65536i32) by (bit_vector);
        lemma_fundamental_div_mod_converse(
            s as int,
            65536,
            (s >> 16i32) as int,
            s as int - 65536 * ((s >> 16i32) as int),
        );
    }
    r as i16
}

/// Integer division truncated toward zero, the rounding used when a mixed
/// or interpolated sample is brought back to the 16-bit domain.
pub open spec fn div_trunc(a: int, b: int) -> int {
    if a >= 0 {
        a / b
    } else {
        -((-a) / b)
    }
}

/// Exec counterpart of `div_trunc` on 64-bit intermediates.
fn div_trunc_i64(a: i64, b: i64) -> (r: i64)
    requires
        1 <= b,
        -0x4000_0000_0000_0000 <= a <= 0x4000_0000_0000_0000,
    ensures
        r == div_trunc(a as int, b as int),
{
    if a >= 0 {
        let q: u64 = (a as u64) / (b as u64);
        proof {
            lemma_div_le_self(a as int, b as int);
        }
        q as i64
    } else {
        let q: u64 = ((-a) as u64) / (b as u64);
        proof {
            lemma_div_le_self(-(a as int), b as int);
        }
        -(q as i64)
    }
}

proof fn lemma_div_le_self(a: int, b: int)
    requires
        0 <= a,
        1 <= b,
    ensures
        0 <= a / b <= a,
{
    assert(a <= b * a) by (nonlinear_arith)
        requires
            0 <= a && 1 <= b,
    ;
    lemma_div_is_ordered(a, b * a, b);
    lemma_div_multiples_vanish(a, b);
    lemma_div_pos_is_pos(a, b);
}

/// A division bounded on both sides stays bounded: if `-lo * b <= a <= hi * b`
/// then the truncated quotient lies in `[-lo, hi]`.
proof fn lemma_div_trunc_bounds(a: int, b: int, lo: int, hi: int)
    requires
        1 <= b,
        0 <= lo,
        0 <= hi,
        -lo * b <= a <= hi * b,
    ensures
        -lo <= div_trunc(a, b) <= hi,
{
    if a >= 0 {
        lemma_div_is_ordered(a, hi * b, b);
        assert(b * hi == hi * b) by (nonlinear_arith);
        lemma_div_multiples_vanish(hi, b);
        lemma_div_pos_is_pos(a, b);
    } else {
        assert((-lo) * b == -(lo * b)) by (nonlinear_arith);
        lemma_div_is_ordered(-a, lo * b, b);
        assert(b * lo == lo * b) by (nonlinear_arith);
        lemma_div_multiples_vanish(lo, b);
        lemma_div_pos_is_pos(-a, b);
    }
}

/// Exact division cancels: `div_trunc(x * b, b) == x`.
proof fn lemma_div_trunc_exact(x: int, b: int)
    requires
        1 <= b,
    ensures
        div_trunc(x * b, b) == x,
{
    if x >= 0 {
        assert(x * b >= 0) by (nonlinear_arith)
            requires
                x >= 0,
                b >= 1,
        ;
        assert(b * x == x * b) by (nonlinear_arith);
        lemma_div_multiples_vanish(x, b);
    } else {
        assert(x * b < 0) by (nonlinear_arith)
            requires
                x < 0,
                b >= 1,
        ;
        assert(-(x * b) == b * (-x)) by (nonlinear_arith);
        lemma_div_multiples_vanish(-x, b);
    }
}

/// Sum of the first `c` channel values of frame `frame` in the interleaved
/// sample sequence `s` with `ch` channels.
pub open spec fn frame_sum(s: Seq<i16>, ch: nat, frame: nat, c: nat) -> int
    decreases c,
{
    if c == 0 {
        0
    } else {
        frame_sum(s, ch, frame, (c - 1) as nat) + s[frame * ch + (c - 1)]
    }
}

proof fn lemma_frame_sum_bounds(s: Seq<i16>, ch: nat, frame: nat, c: nat)
    ensures
        -32768 * c <= frame_sum(s, ch, frame, c) <= 32767 * c,
    decreases c,
{
    if c > 0 {
        lemma_frame_sum_bounds(s, ch, frame, (c - 1) as nat);
    }
}

/// The mono mix of one frame: the channel average, truncated toward zero.
pub open spec fn mono_frame(s: Seq<i16>, ch: nat, frame: nat) -> int {
    div_trunc(frame_sum(s, ch, frame, ch), ch as int)
}

proof fn lemma_mono_frame_bounds(s: Seq<i16>, ch: nat, frame: nat)
    requires
        1 <= ch,
    ensures
        -32768 <= mono_frame(s, ch, frame) <= 32767,
{
    lemma_frame_sum_bounds(s, ch, frame, ch);
    assert(-32768 * (ch as int) == -(32768 * ch)) by (nonlinear_arith);
    lemma_div_trunc_bounds(frame_sum(s, ch, frame, ch), ch as int, 32768, 32767);
}

/// The exact linearly interpolated mono sample at cursor position
/// `pos` (a numerator over `TARGET_RATE`), truncated toward zero once.
/// At the last frame no successor exists and the mono mix is used as is.
pub open spec fn interp_at(s: Seq<i16>, ch: nat, frames: nat, pos: int) -> int {
    let idx = pos / 16000;
    let rem = pos % 16000;
    if idx + 1 < frames {
        div_trunc(
            frame_sum(s, ch, idx as nat, ch) * (16000 - rem) + frame_sum(
                s,
                ch,
                (idx + 1) as nat,
                ch,
            ) * rem,
            ch as int * 16000,
        )
    } else {
        mono_frame(s, ch, idx as nat)
    }
}

proof fn lemma_interp_at_bounds(s: Seq<i16>, ch: nat, frames: nat, pos: int)
    requires
        1 <= ch,
        0 <= pos,
    ensures
        -32768 <= interp_at(s, ch, frames, pos) <= 32767,
{
    let idx = pos / 16000;
    let rem = pos % 16000;
    if idx + 1 < frames {
        let s0 = frame_sum(s, ch, idx as nat, ch);
        let s1 = frame_sum(s, ch, (idx + 1) as nat, ch);
        lemma_frame_sum_bounds(s, ch, idx as nat, ch);
        lemma_frame_sum_bounds(s, ch, (idx + 1) as nat, ch);
        assert(0 <= rem < 16000);
        assert(s0 * (16000 - rem) + s1 * rem <= 32767 * (ch as int * 16000)) by (nonlinear_arith)
            requires
                s0 <= 32767 * ch,
                s1 <= 32767 * ch,
                0 <= rem < 16000,
        ;
        assert(s0 * (16000 - rem) + s1 * rem >= -32768 * (ch as int * 16000)) by (nonlinear_arith)
            requires
                s0 >= -32768 * ch,
                s1 >= -32768 * ch,
                0 <= rem < 16000,
        ;
        assert(ch as int * 16000 >= 1) by (nonlinear_arith)
            requires
                ch >= 1,
        ;
        lemma_div_trunc_bounds(
            s0 * (16000 - rem) + s1 * rem,
            ch as int * 16000,
            32768,
            32767,
        );
    } else {
        lemma_mono_frame_bounds(s, ch, idx as nat);
    }
}

/// How far the cursor still is from the end of the available frames,
/// clipped at zero; the termination measure of the resampling recursion.
pub open spec fn cursor_room(frames: nat, pos: int) -> int {
    if frames * 16000 - pos >= 0 {
        frames * 16000 - pos
    } else {
        0
    }
}

/// The full sequence of interpolated output samples produced from cursor
/// position `pos` until the cursor leaves the available frames, stepping
/// by `src` (the source rate) per output sample.
pub open spec fn resampled(s: Seq<i16>, ch: nat, src: nat, frames: nat, pos: int) -> Seq<int>
    decreases cursor_room(frames, pos),
{
    if src < 1 || pos < 0 || pos >= frames * 16000 {
        Seq::empty()
    } else {
        seq![interp_at(s, ch, frames, pos)] + resampled(s, ch, src, frames, pos + src)
    }
}

/// Every sample of a `resampled` sequence fits the 16-bit output domain.
proof fn lemma_resampled_bounds(s: Seq<i16>, ch: nat, src: nat, frames: nat, pos: int)
    requires
        1 <= ch,
    ensures
        forall|i: int|
            0 <= i < resampled(s, ch, src, frames, pos).len() ==> -32768 <= #[trigger] resampled(
                s,
                ch,
                src,
                frames,
                pos,
            )[i] <= 32767,
    decreases cursor_room(frames, pos),
{
    if src >= 1 && 0 <= pos && pos < frames * 16000 {
        lemma_interp_at_bounds(s, ch, frames, pos);
        lemma_resampled_bounds(s, ch, src, frames, pos + src);
        let rest = resampled(s, ch, src, frames, pos + src);
        assert forall|i: int| 0 <= i < resampled(s, ch, src, frames, pos).len() implies -32768
            <= #[trigger] resampled(s, ch, src, frames, pos)[i] <= 32767 by {
            if i > 0 {
                assert(resampled(s, ch, src, frames, pos)[i] == rest[i - 1]);
            }
        }
    }
}

/// The output count is exact: from a cursor in range, the cursor lands in
/// `[frames * 16000, frames * 16000 + src)` after the last output sample.
pub proof fn lemma_resampled_count(s: Seq<i16>, ch: nat, src: nat, frames: nat, pos: int)
    requires
        1 <= src,
        0 <= pos,
    ensures
        pos >= frames * 16000 ==> resampled(s, ch, src, frames, pos).len() == 0,
        pos < frames * 16000 ==> frames * 16000 <= pos + resampled(s, ch, src, frames, pos).len()
            * src < frames * 16000 + src,
    decreases cursor_room(frames, pos),
{
    if pos < frames * 16000 {
        lemma_resampled_count(s, ch, src, frames, pos + src);
        let n = resampled(s, ch, src, frames, pos + src).len();
        assert(resampled(s, ch, src, frames, pos).len() == n + 1);
        assert((pos + src) + n * src == pos + (n + 1) * src) by (nonlinear_arith);
    }
}

/// Everything one call to `Downsampler::feed` appends to the pending
/// buffer: the mono mixes themselves at the target rate, the interpolated
/// resampling otherwise.  With no channels or no samples nothing is fed.
pub open spec fn produced(s: Seq<i16>, ch: nat, src: nat, pos0: int) -> Seq<i16> {
    if ch == 0 || s.len() == 0 {
        Seq::empty()
    } else if src == 16000 {
        Seq::new(s.len() / ch, |i: int| mono_frame(s, ch, i as nat) as i16)
    } else {
        resampled(s, ch, src, s.len() / ch, pos0).map(|i: int, v: int| v as i16)
    }
}

/// The cursor position after one `feed`, made relative to the start of
/// the next call's data by subtracting the frames just consumed.
pub open spec fn cursor_next(s: Seq<i16>, ch: nat, src: nat, pos0: int) -> int {
    if ch == 0 || s.len() == 0 || src == 16000 {
        pos0
    } else {
        pos0 + resampled(s, ch, src, s.len() / ch, pos0).len() * src - (s.len() / ch) * 16000
    }
}

/// Concatenation of a sequence of chunks, in order.
pub open spec fn concat_chunks(cs: Seq<Seq<i16>>) -> Seq<i16>
    decreases cs.len(),
{
    if cs.len() == 0 {
        Seq::empty()
    } else {
        cs[0] + concat_chunks(cs.drop_first())
    }
}

/// The contents of a vector of chunks, as a sequence of sequences.
pub open spec fn chunk_views(cs: Seq<Vec<i16>>) -> Seq<Seq<i16>> {
    cs.map(|i: int, v: Vec<i16>| v@)
}

proof fn lemma_concat_chunks_snoc(cs: Seq<Seq<i16>>, c: Seq<i16>)
    ensures
        concat_chunks(cs.push(c)) =~= concat_chunks(cs) + c,
    decreases cs.len(),
{
    if cs.len() == 0 {
        assert(cs.push(c)[0] == c);
        assert(cs.push(c).drop_first() =~= Seq::<Seq<i16>>::empty());
        assert(concat_chunks(cs.push(c).drop_first()) =~= Seq::<i16>::empty());
        assert(concat_chunks(cs.push(c)) =~= c + Seq::<i16>::empty());
        assert(concat_chunks(cs) + c =~= c);
    } else {
        assert(cs.push(c).drop_first() =~= cs.drop_first().push(c));
        lemma_concat_chunks_snoc(cs.drop_first(), c);
    }
}

proof fn lemma_chunk_views_push(cs: Seq<Vec<i16>>, v: Vec<i16>)
    ensures
        chunk_views(cs.push(v)) =~= chunk_views(cs).push(v@),
{
}

/// Sum of the channel values of frame `frame`, computed exactly.
fn channel_sum(samples: &[i16], ch: usize, frame: usize) -> (s: i64)
    requires
        1 <= ch <= 65535,
        (frame + 1) * ch <= samples@.len(),
        samples@.len() <= usize::MAX,
    ensures
        s == frame_sum(samples@, ch as nat, frame as nat, ch as nat),
        -32768 * ch <= s <= 32767 * ch,
{
    proof {
        assert(frame * ch + ch == (frame + 1) * ch) by (nonlinear_arith);
        assert(frame * ch >= 0) by (nonlinear_arith)
            requires
                frame >= 0 && ch >= 1,
        ;
    }
    let base: usize = frame * ch;
    let mut acc: i64 = 0;
    let mut c: usize = 0;
    while c < ch
        invariant
            0 <= c <= ch <= 65535,
            base == frame * ch,
            base + ch <= samples@.len(),
            samples@.len() <= usize::MAX,
            acc == frame_sum(samples@, ch as nat, frame as nat, c as nat),
            -32768 * c <= acc <= 32767 * c,
        decreases ch - c,
    {
        let v: i16 = samples[base + c];
        acc = acc + (v as i64);
        c = c + 1;
    }
    acc
}

/// Accumulates raw interleaved audio, mixes it to mono, resamples it to
/// the target rate, and emits complete fixed-size chunks.
pub struct Downsampler {
    source_rate: u32,
    source_channels: u16,
    out_buf: Vec<i16>,
    pos_num: u64,
}

impl Downsampler {
    /// The internal invariant: a live source rate, a cursor strictly inside
    /// one source step, and never a full chunk left pending.
    pub closed spec fn wf(&self) -> bool {
        &&& 1 <= self.source_rate
        &&& (self.pos_num as int) < (self.source_rate as int)
        &&& self.out_buf@.len() < 1600
        &&& (self.source_rate == 16000 ==> self.pos_num == 0)
    }

    pub closed spec fn rate(&self) -> u32 {
        self.source_rate
    }

    pub closed spec fn channels(&self) -> u16 {
        self.source_channels
    }

    /// Mono target-rate samples waiting to fill the next chunk.
    pub closed spec fn pending(&self) -> Seq<i16> {
        self.out_buf@
    }

    /// The fractional resampling cursor, as a numerator over the target rate.
    pub closed spec fn cursor(&self) -> int {
        self.pos_num as int
    }

    pub fn new(source_rate: u32, source_channels: u16) -> (d: Downsampler)
        requires
            1 <= source_rate,
        ensures
            d.wf(),
            d.rate() == source_rate,
            d.channels() == source_channels,
            d.pending() =~= Seq::<i16>::empty(),
            d.cursor() == 0,
    {
        Downsampler {
            source_rate,
            source_channels,
            out_buf: Vec::new(),
            pos_num: 0,
        }
    }

    /// Feed raw interleaved samples; returns the complete chunks now available.
    ///
    /// The total output is conserved: the chunks plus the new pending buffer
    /// are exactly the old pending buffer plus `produced`, and the cursor
    /// advances to `cursor_next`, so nothing is lost or duplicated across
    /// callback boundaries.
    pub fn feed(&mut self, samples: &[i16]) -> (chunks: Vec<Vec<i16>>)
        requires
            old(self).wf(),
            samples@.len() <= 0x1000_0000_0000,
        ensures
            final(self).wf(),
            final(self).rate() == old(self).rate(),
            final(self).channels() == old(self).channels(),
            final(self).cursor() == cursor_next(
                samples@,
                old(self).channels() as nat,
                old(self).rate() as nat,
                old(self).cursor(),
            ),
            concat_chunks(chunk_views(chunks@)) + final(self).pending() =~= old(self).pending()
                + produced(
                samples@,
                old(self).channels() as nat,
                old(self).rate() as nat,
                old(self).cursor(),
            ),
            chunks@.len() == (old(self).pending() + produced(
                samples@,
                old(self).channels() as nat,
                old(self).rate() as nat,
                old(self).cursor(),
            )).len() / 1600,
            forall|i: int| 0 <= i < chunks@.len() ==> (#[trigger] chunks@[i])@.len() == 1600,
            final(self).pending().len() == (old(self).pending() + produced(
                samples@,
                old(self).channels() as nat,
                old(self).rate() as nat,
                old(self).cursor(),
            )).len() % 1600,
    {
        let ghost s_seq = samples@;
        let ghost ch_g = self.source_channels as nat;
        let ghost src_g = self.source_rate as nat;
        let ghost pos0 = self.pos_num as int;
        let ghost buf0 = self.out_buf@;

        let ch: usize = self.source_channels as usize;
        if ch == 0 || samples.len() == 0 {
            proof {
                assert(produced(s_seq, ch_g, src_g, pos0) =~= Seq::<i16>::empty());
                assert(chunk_views(Seq::<Vec<i16>>::empty()) =~= Seq::<Seq<i16>>::empty());
                vstd::arithmetic::div_mod::lemma_basic_div(buf0.len() as int, 1600);
                vstd::arithmetic::div_mod::lemma_small_mod(buf0.len() as nat, 1600);
            }
            return Vec::new();
        }
        let frames: usize = samples.len() / ch;
        proof {
            assert(frames * ch <= s_seq.len()) by (nonlinear_arith)
                requires
                    frames == s_seq.len() as int / ch as int,
                    1 <= ch,
            {
                vstd::arithmetic::div_mod::lemma_fundamental_div_mod(s_seq.len() as int, ch as int);
                vstd::arithmetic::div_mod::lemma_mod_bound(s_seq.len() as int, ch as int);
            }
        }

        if self.source_rate == TARGET_RATE {
            let mut f: usize = 0;
            while f < frames
                invariant
                    0 <= f <= frames,
                    1 <= ch <= 65535,
                    frames * ch <= samples@.len() <= 0x1000_0000_0000,
                    samples@.len() <= usize::MAX,
                    frames == samples@.len() as int / ch as int,
                    self.out_buf@ =~= buf0 + Seq::new(f as nat, |i: int| mono_frame(samples@, ch as nat, i as nat) as i16),
                    self.source_rate == old(self).source_rate,
                    self.source_channels == old(self).source_channels,
                    self.pos_num == old(self).pos_num,
                    buf0.len() < 1600,
                decreases frames - f,
            {
                proof {
                    assert((f + 1) * ch <= frames * ch) by (nonlinear_arith)
                        requires
                            f + 1 <= frames && ch >= 1,
                    ;
                }
                let s0: i64 = channel_sum(samples, ch, f);
                let m: i64 = div_trunc_i64(s0, ch as i64);
                proof {
                    lemma_mono_frame_bounds(samples@, ch as nat, f as nat);
                    assert(m == mono_frame(samples@, ch as nat, f as nat));
                }
                self.out_buf.push(m as i16);
                f = f + 1;
                proof {
                    assert(self.out_buf@ =~= buf0 + Seq::new(f as nat, |i: int| mono_frame(samples@, ch as nat, i as nat) as i16));
                }
            }
            proof {
                assert(self.out_buf@ =~= buf0 + produced(s_seq, ch_g, src_g, pos0));
            }
        } else {
            let l_total: u64 = (frames as u64) * 16000;
            let src: u64 = self.source_rate as u64;
            let mut pos: u64 = self.pos_num;
            let ghost mut done: Seq<int> = Seq::empty();
            proof {
                assert(resampled(s_seq, ch_g, src_g, frames as nat, pos0) =~= done + resampled(
                    s_seq,
                    ch_g,
                    src_g,
                    frames as nat,
                    pos0,
                ));
            }
            while pos < l_total
                invariant
                    1 <= ch <= 65535,
                    frames * ch <= samples@.len() <= 0x1000_0000_0000,
                    samples@.len() <= usize::MAX,
                    frames == samples@.len() as int / ch as int,
                    l_total == frames * 16000,
                    1 <= src <= 0xffff_ffff,
                    src == old(self).source_rate,
                    src_g == src as nat,
                    ch_g == ch as nat,
                    s_seq =~= samples@,
                    0 <= pos0 < src,
                    pos == pos0 + done.len() * src,
                    done.len() * src <= l_total + src,
                    resampled(s_seq, ch_g, src_g, frames as nat, pos0) =~= done + resampled(
                        s_seq,
                        ch_g,
                        src_g,
                        frames as nat,
                        pos as int,
                    ),
                    self.out_buf@ =~= buf0 + done.map(|i: int, v: int| v as i16),
                    forall|i: int| 0 <= i < done.len() ==> -32768 <= #[trigger] done[i] <= 32767,
                    self.source_rate == old(self).source_rate,
                    self.source_channels == old(self).source_channels,
                    buf0.len() < 1600,
                decreases l_total + src - pos,
            {
                let idx: usize = (pos / 16000) as usize;
                let rem: u64 = pos % 16000;
                proof {
                    assert(pos as int / 16000 < frames) by {
                        vstd::arithmetic::div_mod::lemma_div_is_ordered(pos as int, l_total as int - 1, 16000);
                        assert((frames * 16000 - 1) / 16000 == frames - 1) by {
                            lemma_fundamental_div_mod_converse(
                                frames * 16000 - 1,
                                16000,
                                frames - 1,
                                15999,
                            );
                        }
                    }
                    vstd::arithmetic::div_mod::lemma_mod_bound(pos as int, 16000);
                    assert((idx + 1) * ch <= frames * ch) by (nonlinear_arith)
                        requires
                            idx + 1 <= frames && ch >= 1,
                    ;
                    assert((idx + 2) * ch <= frames * ch || idx + 1 >= frames) by (nonlinear_arith)
                        requires
                            ch >= 1,
                    ;
                }
                let s0: i64 = channel_sum(samples, ch, idx);
                let v: i64 = if idx + 1 < frames {
                    let s1: i64 = channel_sum(samples, ch, idx + 1);
                    let w1: i64 = 16000 - (rem as i64);
                    proof {
                        assert(-0x2000_0000_0000 <= s0 * w1 <= 0x2000_0000_0000) by (nonlinear_arith)
                            requires
                                -32768 * ch <= s0 <= 32767 * ch,
                                1 <= ch <= 65535,
                                0 <= w1 <= 16000,
                        ;
                        assert(-0x2000_0000_0000 <= s1 * (rem as i64) <= 0x2000_0000_0000)
                            by (nonlinear_arith)
                            requires
                                -32768 * ch <= s1 <= 32767 * ch,
                                1 <= ch <= 65535,
                                0 <= rem < 16000,
                        ;
                    }
                    let num: i64 = s0 * w1 + s1 * (rem as i64);
                    div_trunc_i64(num, (ch as i64) * 16000)
                } else {
                    div_trunc_i64(s0, ch as i64)
                };
                proof {
                    assert(v == interp_at(s_seq, ch_g, frames as nat, pos as int));
                    lemma_interp_at_bounds(s_seq, ch_g, frames as nat, pos as int);
                    assert(resampled(s_seq, ch_g, src_g, frames as nat, pos as int) =~= seq![
                        interp_at(s_seq, ch_g, frames as nat, pos as int),
                    ] + resampled(s_seq, ch_g, src_g, frames as nat, pos as int + src as int));
                }
                self.out_buf.push(v as i16);
                proof {
                    let done2 = done.push(v as int);
                    assert(done2.map(|i: int, v2: int| v2 as i16) =~= done.map(
                        |i: int, v2: int| v2 as i16,
                    ).push(v as i16));
                    assert(resampled(s_seq, ch_g, src_g, frames as nat, pos0) =~= done2 + resampled(
                        s_seq,
                        ch_g,
                        src_g,
                        frames as nat,
                        pos as int + src as int,
                    ));
                    assert((done.len() + 1) * src == done.len() * src + src) by (nonlinear_arith);
                    lemma_resampled_count(s_seq, ch_g, src_g, frames as nat, pos0);
                    done = done2;
                }
                pos = pos + src;
            }
            proof {
                assert(resampled(s_seq, ch_g, src_g, frames as nat, pos as int) =~= Seq::<
                    int,
                >::empty());
                assert(done =~= resampled(s_seq, ch_g, src_g, frames as nat, pos0));
                assert(self.out_buf@ =~= buf0 + produced(s_seq, ch_g, src_g, pos0));
                lemma_resampled_count(s_seq, ch_g, src_g, frames as nat, pos0);
            }
            self.pos_num = pos - l_total;
            proof {
                assert(self.pos_num as int == cursor_next(s_seq, ch_g, src_g, pos0));
                assert(self.pos_num < src);
            }
        }
        self.take_chunks()
    }

    /// Move every complete chunk out of the pending buffer, oldest first.
    fn take_chunks(&mut self) -> (chunks: Vec<Vec<i16>>)
        ensures
            final(self).source_rate == old(self).source_rate,
            final(self).source_channels == old(self).source_channels,
            final(self).pos_num == old(self).pos_num,
            concat_chunks(chunk_views(chunks@)) + final(self).pending() =~= old(self).pending(),
            chunks@.len() == old(self).pending().len() / 1600,
            forall|i: int| 0 <= i < chunks@.len() ==> (#[trigger] chunks@[i])@.len() == 1600,
            final(self).pending().len() == old(self).pending().len() % 1600,
            final(self).pending().len() < 1600,
    {
        let ghost buf0 = self.out_buf@;
        let len: usize = self.out_buf.len();
        let n: usize = len / 1600;
        proof {
            vstd::arithmetic::div_mod::lemma_fundamental_div_mod(len as int, 1600);
            vstd::arithmetic::div_mod::lemma_mod_bound(len as int, 1600);
        }
        let mut chunks: Vec<Vec<i16>> = Vec::new();
        let mut k: usize = 0;
        while k < n
            invariant
                0 <= k <= n,
                n * 1600 <= len,
                len == self.out_buf@.len(),
                self.out_buf@ =~= buf0,
                n == len as int / 1600,
                chunks@.len() == k,
                concat_chunks(chunk_views(chunks@)) =~= buf0.take(k * 1600),
                forall|i: int| 0 <= i < k ==> (#[trigger] chunks@[i])@.len() == 1600,
            decreases n - k,
        {
            let start: usize = k * 1600;
            let c: Vec<i16> = vstd::slice::slice_to_vec(
                vstd::slice::slice_subrange(self.out_buf.as_slice(), start, start + 1600),
            );
            proof {
                lemma_concat_chunks_snoc(chunk_views(chunks@), c@);
                lemma_chunk_views_push(chunks@, c);
                assert(buf0.take((k + 1) * 1600) =~= buf0.take(k * 1600) + buf0.subrange(
                    k * 1600,
                    k * 1600 + 1600,
                ));
            }
            chunks.push(c);
            k = k + 1;
        }
        let rest: Vec<i16> = vstd::slice::slice_to_vec(
            vstd::slice::slice_subrange(self.out_buf.as_slice(), n * 1600, len),
        );
        self.out_buf = rest;
        proof {
            assert(concat_chunks(chunk_views(chunks@)) + self.out_buf@ =~= buf0);
        }
        chunks
    }
}

/// The exact output sample `i` of the stateless linear resampler: the
/// source position is `i * from / to`, and the sample is interpolated
/// between the two neighbouring input samples, truncated toward zero.
pub open spec fn lin_sample(s: Seq<i16>, from: nat, to: nat, i: int) -> i16 {
    let posn = i * from;
    let idx = posn / (to as int);
    let rem = posn % (to as int);
    if idx + 1 < s.len() {
        div_trunc(s[idx] * (to - rem) + s[idx + 1] * rem, to as int) as i16
    } else {
        s[idx]
    }
}

/// Stateless linear-interpolation resampling of a whole buffer.
///
/// The output length is exactly `input.len() * to_rate / from_rate`, and
/// equal rates reproduce the input unchanged.
pub fn resample_linear(input: &[i16], from_rate: u32, to_rate: u32) -> (r: Vec<i16>)
    requires
        1 <= from_rate <= 1000000,
        1 <= to_rate <= 1000000,
        input@.len() * to_rate <= usize::MAX,
    ensures
        r@.len() == input@.len() * to_rate / (from_rate as int),
        forall|i: int|
            0 <= i < r@.len() ==> r@[i] == lin_sample(
                input@,
                from_rate as nat,
                to_rate as nat,
                i,
            ),
        from_rate == to_rate ==> r@ =~= input@,
{
    let ghost s = input@;
    let len: usize = input.len();
    if len == 0 {
        let r: Vec<i16> = Vec::new();
        proof {
            vstd::arithmetic::div_mod::lemma_div_of0(from_rate as int);
            assert(input@.len() * to_rate == 0) by (nonlinear_arith)
                requires
                    input@.len() == 0,
            ;
            assert(0int / (from_rate as int) == 0);
        }
        return r;
    }
    let from64: u64 = from_rate as u64;
    let to64: u64 = to_rate as u64;
    proof {
        assert(len * to_rate <= usize::MAX) by (nonlinear_arith)
            requires
                len == s.len() && s.len() * to_rate <= usize::MAX,
        ;
    }
    let out_len: usize = (((len as u64) * to64) / from64) as usize;
    proof {
        vstd::arithmetic::div_mod::lemma_div_pos_is_pos(len as int * to_rate as int, from_rate as int);
        lemma_div_le_self(len as int * to_rate as int, from_rate as int);
        vstd::arithmetic::div_mod::lemma_fundamental_div_mod(
            len as int * to_rate as int,
            from_rate as int,
        );
        vstd::arithmetic::div_mod::lemma_mod_bound(len as int * to_rate as int, from_rate as int);
    }
    let mut r: Vec<i16> = Vec::new();
    let mut i: usize = 0;
    while i < out_len
        invariant
            0 <= i <= out_len,
            len == s.len(),
            1 <= len,
            len * to_rate <= usize::MAX,
            1 <= from64 == from_rate <= 1000000,
            1 <= to64 == to_rate <= 1000000,
            out_len == s.len() * to_rate / (from_rate as int),
            out_len * from_rate <= len * to_rate,
            s =~= input@,
            r@.len() == i,
            forall|j: int|
                0 <= j < i ==> r@[j] == lin_sample(s, from_rate as nat, to_rate as nat, j),
        decreases out_len - i,
    {
        proof {
            assert((i + 1) * from_rate <= out_len * from_rate) by (nonlinear_arith)
                requires
                    i + 1 <= out_len && from_rate >= 1,
            ;
            assert((i + 1) as int * from_rate as int == i as int * from_rate as int
                + from_rate as int) by (nonlinear_arith);
            assert(i as int * from_rate as int <= len as int * to_rate as int - from_rate as int);
        }
        let posn: u64 = (i as u64) * from64;
        let idx_u: u64 = posn / to64;
        let rem: u64 = posn % to64;
        proof {
            vstd::arithmetic::div_mod::lemma_mod_bound(posn as int, to_rate as int);
            assert(posn as int <= len as int * to_rate as int - 1);
            lemma_div_is_ordered(posn as int, len as int * to_rate as int - 1, to_rate as int);
            assert((len as int - 1) * to_rate as int == len as int * to_rate as int
                - to_rate as int) by (nonlinear_arith);
            lemma_fundamental_div_mod_converse(
                len as int * to_rate as int - 1,
                to_rate as int,
                len as int - 1,
                to_rate as int - 1,
            );
            assert(idx_u < len);
        }
        let idx: usize = idx_u as usize;
        if idx + 1 < len {
            let w1: i64 = (to64 - rem) as i64;
            let a: i64 = input[idx] as i64;
            let b: i64 = input[idx + 1] as i64;
            proof {
                assert(-32768 * 1000000 <= a * w1 <= 32767 * 1000000) by (nonlinear_arith)
                    requires
                        -32768 <= a <= 32767 && 0 <= w1 <= 1000000,
                ;
                assert(-32768 * 1000000 <= b * (rem as i64) <= 32767 * 1000000)
                    by (nonlinear_arith)
                    requires
                        -32768 <= b <= 32767 && 0 <= rem <= 1000000,
                ;
                assert(a * w1 + b * (rem as i64) <= 32767 * (to_rate as int)) by (nonlinear_arith)
                    requires
                        -32768 <= a <= 32767,
                        -32768 <= b <= 32767,
                        0 <= rem < to_rate,
                        w1 == to_rate - rem,
                ;
                assert(a * w1 + b * (rem as i64) >= -32768 * (to_rate as int)) by (nonlinear_arith)
                    requires
                        -32768 <= a <= 32767,
                        -32768 <= b <= 32767,
                        0 <= rem < to_rate,
                        w1 == to_rate - rem,
                ;
            }
            let num: i64 = a * w1 + b * (rem as i64);
            let v: i64 = div_trunc_i64(num, to64 as i64);
            proof {
                lemma_div_trunc_bounds(num as int, to_rate as int, 32768, 32767);
                assert(v == lin_sample(s, from_rate as nat, to_rate as nat, i as int) as int);
            }
            r.push(v as i16);
        } else {
            let v: i16 = input[idx];
            r.push(v);
        }
        i = i + 1;
    }
    proof {
        if from_rate == to_rate {
            assert(to_rate as int * len as int == len as int * to_rate as int)
                by (nonlinear_arith);
            lemma_div_multiples_vanish(len as int, to_rate as int);
            assert(r@.len() == s.len());
            assert forall|j: int| 0 <= j < r@.len() implies r@[j] == s[j] by {
                lemma_lin_sample_identity(s, from_rate as nat, j);
            }
        }
    }
    r
}

/// Law: resampling with equal source and target rates is the identity —
/// every output sample equals the input sample at the same index.
pub proof fn lemma_lin_sample_identity(s: Seq<i16>, rate: nat, i: int)
    requires
        1 <= rate,
        0 <= i < s.len(),
    ensures
        lin_sample(s, rate, rate, i) == s[i],
{
    assert(rate as int * i == i * rate) by (nonlinear_arith);
    lemma_div_multiples_vanish(i, rate as int);
    vstd::arithmetic::div_mod::lemma_mod_multiples_basic(i, rate as int);
    let posn = i * rate;
    let idx = posn / (rate as int);
    let rem = posn % (rate as int);
    assert(idx == i);
    assert(rem == 0);
    if idx + 1 < s.len() {
        assert(s[idx] * (rate - 0) + s[idx + 1] * 0 == s[idx] * rate) by (nonlinear_arith);
        lemma_div_trunc_exact(s[idx] as int, rate as int);
    }
}

/// Law: a mono stream already at the target rate passes through `feed`
/// unchanged — the produced samples are exactly the samples given, with
/// no interpolation.  Combined with `feed`'s conservation clause, the
/// chunks emitted plus the samples left pending grow by exactly the
/// input, value for value and in order, over any sequence of calls.
pub proof fn lemma_passthrough_identity(s: Seq<i16>, pos0: int)
    ensures
        produced(s, 1, 16000, pos0) =~= s,
{
    if s.len() > 0 {
        lemma_div_multiples_vanish(s.len() as int, 1);
        assert(s.len() as int / 1 == s.len());
        assert forall|i: int| 0 <= i < s.len() implies produced(s, 1, 16000, pos0)[i] == s[i] by {
            assert(frame_sum(s, 1, i as nat, 1) == frame_sum(s, 1, i as nat, 0) + s[i * 1 + 0]);
            assert(i * 1 + 0 == i) by (nonlinear_arith);
            lemma_div_trunc_exact(s[i] as int, 1);
            assert(s[i] as int * 1 == s[i]) by (nonlinear_arith);
            assert(mono_frame(s, 1, i as nat) == s[i]);
        }
    }
}

/// Law: what one `feed` produces is counted exactly, stated over the
/// `produced` sequence of its contract: from cursor `pos`, emitting the
/// produced samples lands the cursor in `[frames * 16000, frames * 16000
/// + src)`.  At a 48000 Hz source this is one sample per three frames,
/// rounded up — within one sample of a third, so long runs stay within
/// any ratio tolerance.
pub proof fn lemma_produced_count(s: Seq<i16>, ch: nat, src: nat, pos: int)
    requires
        1 <= ch,
        1 <= src,
        src != 16000,
        0 <= pos,
        s.len() > 0,
    ensures
        pos >= (s.len() / ch) * 16000 ==> produced(s, ch, src, pos).len() == 0,
        pos < (s.len() / ch) * 16000 ==> (s.len() / ch) * 16000 <= pos + produced(
            s,
            ch,
            src,
            pos,
        ).len() * src < (s.len() / ch) * 16000 + src,
{
    lemma_resampled_count(s, ch, src, (s.len() / ch) as nat, pos);
    assert(produced(s, ch, src, pos).len() == resampled(
        s,
        ch,
        src,
        (s.len() / ch) as nat,
        pos,
    ).len());
}

/// Law: the carried cursor makes the output count split-invariant.
/// Feeding a stream in two consecutive calls produces in total exactly as
/// many samples as feeding the concatenation in one call, for every split
/// on a frame boundary.  (Sample values at the seam may differ: a split
/// hides the next frame from the interpolator, exactly as the streaming
/// algorithm behaves.)
pub proof fn lemma_feed_split_count(s1: Seq<i16>, s2: Seq<i16>, ch: nat, src: nat, pos0: int)
    requires
        1 <= ch,
        1 <= src,
        src != 16000,
        0 <= pos0 < src,
        s1.len() % ch == 0,
    ensures
        produced(s1 + s2, ch, src, pos0).len() == produced(s1, ch, src, pos0).len() + produced(
            s2,
            ch,
            src,
            cursor_next(s1, ch, src, pos0),
        ).len(),
{
    let f1 = s1.len() as int / ch as int;
    let f2 = s2.len() as int / ch as int;
    let f = (s1 + s2).len() as int / ch as int;
    vstd::arithmetic::div_mod::lemma_fundamental_div_mod(s1.len() as int, ch as int);
    assert(s1.len() as int == ch * f1);
    vstd::arithmetic::div_mod::lemma_hoist_over_denominator(s2.len() as int, f1, ch);
    assert(f == f1 + f2) by {
        assert(s2.len() as int + f1 * (ch as int) == (s1 + s2).len()) by (nonlinear_arith)
            requires
                s1.len() as int == (ch as int) * f1 && (s1 + s2).len() == s1.len() + s2.len(),
        ;
    }
    let l1 = f1 * 16000;
    let l2 = f2 * 16000;
    let n1 = resampled(s1, ch, src, f1 as nat, pos0).len() as int;
    let c1 = cursor_next(s1, ch, src, pos0);
    let n2 = resampled(s2, ch, src, f2 as nat, c1).len() as int;
    let n = resampled(s1 + s2, ch, src, f as nat, pos0).len() as int;
    lemma_resampled_count(s1, ch, src, f1 as nat, pos0);
    if s1.len() == 0 {
        assert(c1 == pos0);
        assert(n1 == 0);
    } else {
        assert(c1 == pos0 + n1 * src - l1);
    }
    assert(0 <= c1 < src);
    lemma_resampled_count(s2, ch, src, f2 as nat, c1);
    lemma_resampled_count(s1 + s2, ch, src, f as nat, pos0);
    if s2.len() == 0 || f2 == 0 {
        assert(n2 == 0) by {
            if c1 >= l2 {
            }
        }
    }
    // Both n and n1 + n2 land the cursor in [l1 + l2, l1 + l2 + src).
    assert(l1 + l2 <= pos0 + (n1 + n2) * src < l1 + l2 + src) by (nonlinear_arith)
        requires
            c1 == pos0 + n1 * src - l1,
            (c1 >= l2 && n2 == 0) || l2 <= c1 + n2 * src < l2 + src,
            (c1 >= l2 ==> c1 - l2 < src),
            0 <= c1 < src,
            n2 >= 0,
    ;
    assert((f1 + f2) * 16000 == l1 + l2);
    assert(l1 + l2 <= pos0 + n * src < l1 + l2 + src || (pos0 >= l1 + l2 && n == 0));
    assert(n == n1 + n2) by (nonlinear_arith)
        requires
            src >= 1,
            n >= 0,
            n1 + n2 >= 0,
            0 <= pos0 < src,
            (l1 + l2 <= pos0 + n * src < l1 + l2 + src) || (pos0 >= l1 + l2 && n == 0),
            l1 + l2 <= pos0 + (n1 + n2) * src < l1 + l2 + src,
    ;
}

} // verus!

