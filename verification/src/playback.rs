//! Decoded audio: collecting the sample words of decoded frames, and feeding
//! them to an output device that asks for interleaved buffers.
use vstd::prelude::*;
use vstd::arithmetic::div_mod::lemma_fundamental_div_mod_converse;
use crate::frames::whole_frames;

verus! {

/// Bytes of one 32-bit sample.
pub const SAMPLE_WORD_LEN: usize = 4;

/// The contents of a list of 4-byte words.
pub open spec fn word_views(words: Seq<[u8; 4]>) -> Seq<Seq<u8>> {
    words.map_values(|w: [u8; 4]| w@)
}

/// Splits decoded sample bytes into 4-byte words, dropping a trailing partial
/// word.
pub fn sample_words(data: &[u8]) -> (words: Vec<[u8; 4]>)
    ensures
        word_views(words@) == whole_frames(data@, 4),
{
    let mut words: Vec<[u8; 4]> = Vec::new();
    let mut start: usize = 0;
    while SAMPLE_WORD_LEN <= data.len() - start
        invariant
            start <= data@.len(),
            start == words@.len() * 4,
            forall|k: int|
                0 <= k < words@.len() ==> (#[trigger] words@[k])@ == data@.subrange(
                    k * 4,
                    k * 4 + 4,
                ),
        decreases data.len() - start,
    {
        let w = [data[start], data[start + 1], data[start + 2], data[start + 3]];
        assert(w@ =~= data@.subrange(start as int, start + 4));
        words.push(w);
        start = start + SAMPLE_WORD_LEN;
    }
    proof {
        lemma_fundamental_div_mod_converse(
            data@.len() as int,
            4,
            words@.len() as int,
            data@.len() - start,
        );
        assert(word_views(words@) =~= whole_frames(data@, 4));
    }
    words
}

/// Decoded audio gathered frame by frame.
pub struct AudioCollector {
    /// Number of decoded frames taken.
    pub frame_count: usize,
    /// Their sample words, in order.
    pub words: Vec<[u8; 4]>,
}

impl AudioCollector {
    pub fn new() -> (c: AudioCollector)
        ensures
            c.frame_count == 0,
            c.words@ == Seq::<[u8; 4]>::empty(),
    {
        AudioCollector { frame_count: 0, words: Vec::new() }
    }

    /// Takes the first plane of one decoded frame.
    pub fn push_frame(&mut self, data: &[u8])
        requires
            old(self).frame_count < usize::MAX,
        ensures
            final(self).frame_count == old(self).frame_count + 1,
            word_views(final(self).words@) == word_views(old(self).words@) + whole_frames(
                data@,
                4,
            ),
    {
        let new_words = sample_words(data);
        let ghost before = self.words@;
        let mut i: usize = 0;
        while i < new_words.len()
            invariant
                i <= new_words@.len(),
                self.frame_count == old(self).frame_count,
                old(self).frame_count < usize::MAX,
                self.words@ == before + new_words@.take(i as int),
            decreases new_words.len() - i,
        {
            self.words.push(new_words[i]);
            assert(new_words@.take(i + 1) =~= new_words@.take(i as int).push(new_words@[i as int]));
            i = i + 1;
        }
        assert(new_words@.take(new_words@.len() as int) =~= new_words@);
        assert(word_views(self.words@) =~= word_views(before) + word_views(new_words@));
        self.frame_count = self.frame_count + 1;
    }
}

/// Plays a list of samples once, then silence.
pub struct SampleCursor<T> {
    samples: Vec<T>,
    pos: usize,
    silence: T,
}

/// A cursor as plain values.
pub struct CursorView<T> {
    pub samples: Seq<T>,
    /// Index of the next sample to play.
    pub pos: int,
    /// What is played once the samples run out.
    pub silence: T,
}

impl<T> View for SampleCursor<T> {
    type V = CursorView<T>;

    closed spec fn view(&self) -> CursorView<T> {
        CursorView { samples: self.samples@, pos: self.pos as int, silence: self.silence }
    }
}

/// Sample `p` of `samples`, or `silence` past the end.
pub open spec fn sample_at<T>(samples: Seq<T>, silence: T, p: int) -> T {
    if 0 <= p < samples.len() {
        samples[p]
    } else {
        silence
    }
}

/// The smaller of two integers.
pub open spec fn min(a: int, b: int) -> int {
    if a <= b {
        a
    } else {
        b
    }
}

/// Number of frames of `channels` samples (the last one possibly short) that
/// cover `len` samples.
pub open spec fn frames_covering(len: int, channels: int) -> int {
    (len + channels - 1) / channels
}

/// What a buffer of `len` slots holds once filled from cursor `c`: slot `k`
/// gets the sample `k / channels` places after the cursor.
pub open spec fn fill<T>(c: CursorView<T>, channels: int, len: int) -> Seq<T> {
    Seq::new(len as nat, |k: int| sample_at(c.samples, c.silence, c.pos + k / channels))
}

/// The cursor after filling a buffer of `len` slots: it moves by one sample per
/// frame, but not past the end of the samples.
pub open spec fn after_fill<T>(c: CursorView<T>, channels: int, len: int) -> CursorView<T> {
    CursorView { pos: min(c.pos + frames_covering(len, channels), c.samples.len() as int), ..c }
}

impl<T> SampleCursor<T> {
    #[verifier::type_invariant]
    spec fn inv(self) -> bool {
        self.pos <= self.samples@.len()
    }
}

impl<T: Copy> SampleCursor<T> {
    pub fn new(samples: Vec<T>, silence: T) -> (c: SampleCursor<T>)
        ensures
            c@ == (CursorView { samples: samples@, pos: 0, silence }),
    {
        SampleCursor { samples, pos: 0, silence }
    }

    /// Index of the next sample to play.
    pub fn position(&self) -> (p: usize)
        ensures
            p == self@.pos,
            p <= self@.samples.len(),
    {
        proof {
            use_type_invariant(self);
        }
        self.pos
    }

    /// The next sample: the one at the cursor, which then moves on, or silence
    /// once the samples are used up.
    pub fn next_sample(&mut self) -> (s: T)
        ensures
            s == sample_at(old(self)@.samples, old(self)@.silence, old(self)@.pos),
            final(self)@ == (CursorView {
                samples: old(self)@.samples,
                pos: min(old(self)@.pos + 1, old(self)@.samples.len() as int),
                silence: old(self)@.silence,
            }),
    {
        proof {
            use_type_invariant(&*self);
        }
        if self.pos >= self.samples.len() {
            return self.silence;
        }
        let s = self.samples[self.pos];
        self.pos = self.pos + 1;
        s
    }
}

/// Fills an interleaved output buffer: each frame of `channels` slots (the
/// last one possibly short) gets the next sample in all its slots.
pub fn write_data<T: Copy>(output: &mut [T], channels: usize, cursor: &mut SampleCursor<T>)
    requires
        channels > 0,
    ensures
        final(output)@ == fill(old(cursor)@, channels as int, old(output)@.len() as int),
        final(cursor)@ == after_fill(old(cursor)@, channels as int, old(output)@.len() as int),
{
    proof {
        use_type_invariant(&*cursor);
    }
    let n = output.len();
    let ghost c0 = cursor@;
    let ghost p0 = c0.pos;
    let ghost samples = c0.samples;
    let ghost silence = c0.silence;
    let ghost ch = channels as int;
    let mut start: usize = 0;
    let ghost mut f: int = 0;
    assert(f * ch == 0) by (nonlinear_arith)
        requires
            f == 0,
    ;
    while start < n
        invariant
            n == output@.len(),
            channels > 0,
            ch == channels as int,
            start <= n,
            f >= 0,
            start <= f * ch,
            start < n ==> start == f * ch,
            f > 0 ==> (f - 1) * ch < n,
            cursor@.pos == min(p0 + f, samples.len() as int),
            cursor@.samples == samples,
            cursor@.silence == silence,
            0 <= p0 <= samples.len(),
            forall|k: int|
                0 <= k < start ==> #[trigger] output@[k] == sample_at(samples, silence, p0 + k / ch),
        decreases n - start,
    {
        let value = cursor.next_sample();
        let remaining = n - start;
        let take = if channels < remaining {
            channels
        } else {
            remaining
        };
        let end = start + take;
        let mut j: usize = start;
        while j < end
            invariant
                n == output@.len(),
                start <= j <= end <= n,
                end == start + take,
                take <= channels,
                ch == channels as int,
                channels > 0,
                start == f * ch,
                value == sample_at(samples, silence, p0 + f),
                forall|k: int|
                    0 <= k < j ==> #[trigger] output@[k] == sample_at(samples, silence, p0 + k / ch),
            decreases end - j,
        {
            proof {
                lemma_fundamental_div_mod_converse(j as int, ch, f, j - f * ch);
            }
            output[j] = value;
            j = j + 1;
        }
        proof {
            assert((f + 1) * ch == f * ch + ch) by (nonlinear_arith);
        }
        start = end;
        proof {
            f = f + 1;
        }
    }
    proof {
        assert(f * ch >= n);
        if f > 0 {
            assert((f - 1) * ch == f * ch - ch) by (nonlinear_arith);
            lemma_fundamental_div_mod_converse(n + ch - 1, ch, f, n + ch - 1 - f * ch);
        } else {
            lemma_fundamental_div_mod_converse(n + ch - 1, ch, 0, n + ch - 1);
        }
        assert(output@ =~= fill(c0, ch, n as int));
    }
}

/// The buffers filled, one per length in `lens`, and the cursor after them,
/// when a cursor feeds a run of output buffers.
pub open spec fn play<T>(c: CursorView<T>, channels: int, lens: Seq<int>) -> (
    Seq<Seq<T>>,
    CursorView<T>,
)
    decreases lens.len(),
{
    if lens.len() == 0 {
        (Seq::empty(), c)
    } else {
        let (bufs, d) = play(c, channels, lens.drop_last());
        (bufs.push(fill(d, channels, lens.last())), after_fill(d, channels, lens.last()))
    }
}

/// Number of frames in buffers of the lengths `lens`.
pub open spec fn total_frames(lens: Seq<int>, channels: int) -> int
    decreases lens.len(),
{
    if lens.len() == 0 {
        0
    } else {
        total_frames(lens.drop_last(), channels) + frames_covering(lens.last(), channels)
    }
}

/// Frame counts are never negative.
proof fn lemma_total_frames_nonneg(lens: Seq<int>, channels: int)
    requires
        channels > 0,
        forall|i: int| 0 <= i < lens.len() ==> lens[i] >= 0,
    ensures
        total_frames(lens, channels) >= 0,
    decreases lens.len(),
{
    if lens.len() > 0 {
        lemma_total_frames_nonneg(lens.drop_last(), channels);
        let x = lens.last() + channels - 1;
        assert(x / channels >= 0) by (nonlinear_arith)
            requires
                x >= 0,
                channels > 0,
        ;
    }
}

/// Over any run of output buffers, a cursor that starts within its samples
/// plays them in order, each once, then silence: slot `m` of buffer `i` gets
/// the sample `m / channels` places after the frames of the earlier buffers,
/// counted from the start; a buffer that starts past the end is all silence;
/// and the cursor ends at the start plus the frames of all buffers, but not
/// past the end of the samples. Nothing else (such as a sample rate) enters.
pub proof fn lemma_play_in_order<T>(c: CursorView<T>, channels: int, lens: Seq<int>)
    requires
        channels > 0,
        0 <= c.pos <= c.samples.len(),
        forall|i: int| 0 <= i < lens.len() ==> lens[i] >= 0,
    ensures
        play(c, channels, lens).0.len() == lens.len(),
        play(c, channels, lens).1 == (CursorView {
            pos: min(c.pos + total_frames(lens, channels), c.samples.len() as int),
            ..c
        }),
        forall|i: int, m: int|
            0 <= i < lens.len() && 0 <= m < lens[i] ==> #[trigger] play(c, channels, lens).0[i][m]
                == sample_at(c.samples, c.silence, c.pos + total_frames(lens.take(i), channels) + m
                / channels),
        forall|i: int|
            0 <= i < lens.len() ==> #[trigger] play(c, channels, lens).0[i].len() == lens[i],
        forall|i: int, m: int|
            0 <= i < lens.len() && 0 <= m < lens[i] && c.pos + total_frames(lens.take(i), channels)
                >= c.samples.len() ==> #[trigger] play(c, channels, lens).0[i][m] == c.silence,
    decreases lens.len(),
{
    if lens.len() > 0 {
        let init = lens.drop_last();
        let last = lens.last();
        let k = lens.len() - 1;
        lemma_play_in_order(c, channels, init);
        lemma_total_frames_nonneg(init, channels);
        let (bufs, d) = play(c, channels, init);
        assert(init =~= lens.take(k));
        assert forall|i: int| 0 <= i < k implies lens.take(i) =~= init.take(i) by {}
        let f = total_frames(init, channels);
        assert forall|i: int, m: int|
            0 <= i < lens.len() && 0 <= m < lens[i] implies #[trigger] play(c, channels, lens).0[i][m] == sample_at(
            c.samples,
            c.silence,
            c.pos + total_frames(lens.take(i), channels) + m / channels,
        ) by {
            if i < k {
                assert(lens.take(i) =~= init.take(i));
                assert(play(c, channels, lens).0[i] == bufs[i]);
                assert(init[i] == lens[i]);
            } else {
                assert(lens.take(i) =~= init);
                assert(m / channels >= 0) by (nonlinear_arith)
                    requires
                        m >= 0,
                        channels > 0,
                ;
            }
        }
        assert forall|i: int| 0 <= i < lens.len() implies #[trigger] play(
            c,
            channels,
            lens,
        ).0[i].len() == lens[i] by {
            if i < k {
                assert(play(c, channels, lens).0[i] == bufs[i]);
                assert(init[i] == lens[i]);
            }
        }
        assert forall|i: int, m: int|
            0 <= i < lens.len() && 0 <= m < lens[i] && c.pos + total_frames(lens.take(i), channels)
                >= c.samples.len() implies #[trigger] play(c, channels, lens).0[i][m]
            == c.silence by {
            assert(m / channels >= 0) by (nonlinear_arith)
                requires
                    m >= 0,
                    channels > 0,
            ;
        }
    }
}

/// Once the samples are used up, every buffer is silence and the cursor stays
/// put.
pub proof fn lemma_silence_after_end<T>(c: CursorView<T>, channels: int, len: int)
    requires
        channels > 0,
        len >= 0,
        c.pos >= c.samples.len(),
    ensures
        forall|k: int| 0 <= k < len ==> #[trigger] fill(c, channels, len)[k] == c.silence,
        after_fill(c, channels, len).pos == c.samples.len(),
{
    assert forall|k: int| 0 <= k < len implies #[trigger] fill(c, channels, len)[k] == c.silence by {
        assert(k / channels >= 0) by (nonlinear_arith)
            requires
                k >= 0,
                channels > 0,
        ;
    }
    let x = len + channels - 1;
    assert(x / channels >= 0) by (nonlinear_arith)
        requires
            x >= 0,
            channels > 0,
    ;
}

/// All slots of one frame of the output get the same sample.
pub proof fn lemma_frame_slots_equal<T>(
    c: CursorView<T>,
    channels: int,
    len: int,
    frame: int,
    a: int,
    b: int,
)
    requires
        channels > 0,
        frame >= 0,
        0 <= a < channels,
        0 <= b < channels,
        frame * channels + a < len,
        frame * channels + b < len,
    ensures
        fill(c, channels, len)[frame * channels + a] == fill(c, channels, len)[frame * channels + b],
        fill(c, channels, len)[frame * channels + a] == sample_at(c.samples, c.silence, c.pos + frame),
{
    lemma_fundamental_div_mod_converse(frame * channels + a, channels, frame, a);
    lemma_fundamental_div_mod_converse(frame * channels + b, channels, frame, b);
    assert(frame * channels >= 0) by (nonlinear_arith)
        requires
            frame >= 0,
            channels > 0,
    ;
}

} // verus!
