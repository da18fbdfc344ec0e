//! The encoding loop of the pipelines as a state machine, from the first frame
//! (once the output is set up and its header written) to the closing of the
//! output.
//!
//! The caller performs each action on FFmpeg and hands back the status code that
//! the call returned; the driver decides what comes next.  Only the code of a
//! packet request is looked at: a negative one means that the encoder has no
//! packet ready (or is drained).
use vstd::prelude::*;
use crate::encode::Rational;

verus! {

/// Timestamp conversion applied to every packet before it is written.
#[derive(Clone, Copy, Debug, PartialEq, Eq, Structural)]
pub struct Rescale {
    /// The encoder's time base.
    pub from: Rational,
    /// The stream's time base.
    pub to: Rational,
}

/// What the caller does next.
#[derive(Clone, Copy, Debug, PartialEq, Eq, Structural)]
pub enum EncodeAction {
    /// Prepare frame `index` (for video, the `index`-th whole frame of the
    /// captured buffer converted to the encoder's format), stamp it with `pts`
    /// and send it to the encoder.
    SendFrame { index: usize, pts: i64 },
    /// Send the end-of-stream marker (a null frame) to the encoder.
    SendFlush,
    /// Ask the encoder for a packet; hand back the status code it returns.
    ReceivePacket,
    /// Rescale the packet's timestamps where asked, set its stream index, write
    /// it interleaved and unreference it.
    WritePacket { stream_index: i32, rescale: Option<Rescale> },
    /// Write the container trailer.
    WriteTrailer,
    /// Close the output file.
    CloseOutput,
    /// Nothing is left to do.
    Finished,
}

/// Where the driver stands: which action it handed out last.
#[derive(Clone, Copy, Debug, PartialEq, Eq, Structural)]
pub enum Stage {
    Start,
    Sent,
    Receiving,
    Written,
    TrailerWritten,
    Closed,
    Done,
}

/// The driver's configuration and progress, as plain values.
#[derive(Clone, Copy, Debug, PartialEq, Eq, Structural)]
pub struct DriverState {
    /// Number of frames to send before the end-of-stream marker.
    pub total_frames: usize,
    /// Frame `i` carries the timestamp `i * pts_step`.
    pub pts_step: i64,
    pub stream_index: i32,
    pub rescale: Option<Rescale>,
    pub write_trailer: bool,
    pub close_output: bool,
    /// Index of the next frame to send.
    pub next_frame: usize,
    /// Whether the end-of-stream marker has been sent.
    pub flushing: bool,
    pub stage: Stage,
}

/// Magnitude of an integer.
pub open spec fn abs(x: int) -> int {
    if x < 0 {
        -x
    } else {
        x
    }
}

impl DriverState {
    /// Timestamps of all frames fit in an `i64`, and progress is consistent.
    pub open spec fn wf(self) -> bool {
        &&& self.total_frames <= i64::MAX
        &&& self.total_frames * abs(self.pts_step as int) <= i64::MAX
        &&& self.next_frame <= self.total_frames
        &&& self.flushing ==> self.next_frame == self.total_frames
    }

    /// Timestamp of frame `index`.
    pub open spec fn pts_of(self, index: int) -> int {
        index * self.pts_step
    }

    /// Send the next frame, or the end-of-stream marker once all are sent.
    pub open spec fn spec_send_next(self) -> (DriverState, EncodeAction) {
        if self.next_frame < self.total_frames {
            (
                DriverState { next_frame: (self.next_frame + 1) as usize, stage: Stage::Sent, ..self },
                EncodeAction::SendFrame {
                    index: self.next_frame,
                    pts: self.pts_of(self.next_frame as int) as i64,
                },
            )
        } else {
            (DriverState { flushing: true, stage: Stage::Sent, ..self }, EncodeAction::SendFlush)
        }
    }

    /// Close the output where asked, else finish.
    pub open spec fn spec_after_trailer(self) -> (DriverState, EncodeAction) {
        if self.close_output {
            (DriverState { stage: Stage::Closed, ..self }, EncodeAction::CloseOutput)
        } else {
            (DriverState { stage: Stage::Done, ..self }, EncodeAction::Finished)
        }
    }

    /// Once the encoder is drained: trailer where asked, then closing.
    pub open spec fn spec_after_drain(self) -> (DriverState, EncodeAction) {
        if self.write_trailer {
            (DriverState { stage: Stage::TrailerWritten, ..self }, EncodeAction::WriteTrailer)
        } else {
            self.spec_after_trailer()
        }
    }

    /// One step: the next state and action, given the status code of the last
    /// action.
    pub open spec fn spec_step(self, code: i32) -> (DriverState, EncodeAction) {
        match self.stage {
            Stage::Start => self.spec_send_next(),
            Stage::Sent => (
                DriverState { stage: Stage::Receiving, ..self },
                EncodeAction::ReceivePacket,
            ),
            Stage::Receiving => if code >= 0 {
                (
                    DriverState { stage: Stage::Written, ..self },
                    EncodeAction::WritePacket {
                        stream_index: self.stream_index,
                        rescale: self.rescale,
                    },
                )
            } else if self.flushing {
                self.spec_after_drain()
            } else {
                self.spec_send_next()
            },
            Stage::Written => (
                DriverState { stage: Stage::Receiving, ..self },
                EncodeAction::ReceivePacket,
            ),
            Stage::TrailerWritten => self.spec_after_trailer(),
            Stage::Closed => (DriverState { stage: Stage::Done, ..self }, EncodeAction::Finished),
            Stage::Done => (self, EncodeAction::Finished),
        }
    }

    fn send_next(&self) -> (r: (DriverState, EncodeAction))
        requires
            self.wf(),
        ensures
            r == self.spec_send_next(),
    {
        if self.next_frame < self.total_frames {
            let index = self.next_frame;
            let step = self.pts_step;
            proof {
                lemma_pts_in_range(*self, index as int);
            }
            let pts = (index as i64) * step;
            (
                DriverState { next_frame: index + 1, stage: Stage::Sent, ..*self },
                EncodeAction::SendFrame { index, pts },
            )
        } else {
            (DriverState { flushing: true, stage: Stage::Sent, ..*self }, EncodeAction::SendFlush)
        }
    }

    fn after_trailer(&self) -> (r: (DriverState, EncodeAction))
        ensures
            r == self.spec_after_trailer(),
    {
        if self.close_output {
            (DriverState { stage: Stage::Closed, ..*self }, EncodeAction::CloseOutput)
        } else {
            (DriverState { stage: Stage::Done, ..*self }, EncodeAction::Finished)
        }
    }

    fn step(&self, code: i32) -> (r: (DriverState, EncodeAction))
        requires
            self.wf(),
        ensures
            r == self.spec_step(code),
    {
        match self.stage {
            Stage::Start => self.send_next(),
            Stage::Sent => (
                DriverState { stage: Stage::Receiving, ..*self },
                EncodeAction::ReceivePacket,
            ),
            Stage::Receiving => {
                if code >= 0 {
                    (
                        DriverState { stage: Stage::Written, ..*self },
                        EncodeAction::WritePacket {
                            stream_index: self.stream_index,
                            rescale: self.rescale,
                        },
                    )
                } else if self.flushing {
                    if self.write_trailer {
                        (
                            DriverState { stage: Stage::TrailerWritten, ..*self },
                            EncodeAction::WriteTrailer,
                        )
                    } else {
                        self.after_trailer()
                    }
                } else {
                    self.send_next()
                }
            },
            Stage::Written => (
                DriverState { stage: Stage::Receiving, ..*self },
                EncodeAction::ReceivePacket,
            ),
            Stage::TrailerWritten => self.after_trailer(),
            Stage::Closed => (DriverState { stage: Stage::Done, ..*self }, EncodeAction::Finished),
            Stage::Done => (*self, EncodeAction::Finished),
        }
    }
}

/// Every step keeps the state well formed.
pub proof fn lemma_step_keeps_wf(s: DriverState, code: i32)
    requires
        s.wf(),
    ensures
        s.spec_step(code).0.wf(),
{
}

/// Timestamps of frames `0..=total_frames` fit in an `i64`.
proof fn lemma_pts_in_range(s: DriverState, index: int)
    requires
        s.wf(),
        0 <= index <= s.total_frames,
    ensures
        i64::MIN <= s.pts_of(index) <= i64::MAX,
{
    let a = abs(s.pts_step as int);
    assert(index * a <= s.total_frames * a) by (nonlinear_arith)
        requires
            index <= s.total_frames,
            a >= 0,
    ;
    assert(-(index * a) <= index * s.pts_step <= index * a) by (nonlinear_arith)
        requires
            index >= 0,
            a == abs(s.pts_step as int),
    ;
}

/// Consecutive frames are `pts_step` apart: one tick apart for video, one
/// frame of samples apart for audio.
pub proof fn lemma_pts_spacing(s: DriverState, index: int)
    ensures
        s.pts_of(index + 1) - s.pts_of(index) == s.pts_step,
        s.pts_of(0) == 0,
{
    assert((index + 1) * s.pts_step - index * s.pts_step == s.pts_step) by (nonlinear_arith);
}

/// The state after a run of steps, and the actions handed out on the way.
pub open spec fn run_steps(s: DriverState, codes: Seq<i32>) -> (DriverState, Seq<EncodeAction>)
    decreases codes.len(),
{
    if codes.len() == 0 {
        (s, Seq::empty())
    } else {
        let (t, acts) = run_steps(s, codes.drop_last());
        let (u, a) = t.spec_step(codes.last());
        (u, acts.push(a))
    }
}

/// Index and timestamp of every frame sent, in order.
pub open spec fn sent_frames(acts: Seq<EncodeAction>) -> Seq<(usize, i64)>
    decreases acts.len(),
{
    if acts.len() == 0 {
        Seq::empty()
    } else {
        let before = sent_frames(acts.drop_last());
        match acts.last() {
            EncodeAction::SendFrame { index, pts } => before.push((index, pts)),
            _ => before,
        }
    }
}

/// How many end-of-stream markers were sent.
pub open spec fn flush_count(acts: Seq<EncodeAction>) -> nat
    decreases acts.len(),
{
    if acts.len() == 0 {
        0
    } else {
        flush_count(acts.drop_last()) + if acts.last() is SendFlush {
            1nat
        } else {
            0nat
        }
    }
}

/// How many times `a` was handed out.
pub open spec fn count_action(acts: Seq<EncodeAction>, a: EncodeAction) -> nat
    decreases acts.len(),
{
    if acts.len() == 0 {
        0
    } else {
        count_action(acts.drop_last(), a) + if acts.last() == a {
            1nat
        } else {
            0nat
        }
    }
}

/// The stages after the encoder is drained past the end-of-stream marker.
pub open spec fn finishing(stage: Stage) -> bool {
    stage == Stage::TrailerWritten || stage == Stage::Closed || stage == Stage::Done
}

/// A driver that has not started yet.
pub open spec fn fresh(s: DriverState) -> bool {
    &&& s.wf()
    &&& s.next_frame == 0
    &&& !s.flushing
    &&& s.stage == Stage::Start
}

/// `t` has the configuration of `s`.
pub open spec fn same_config(s: DriverState, t: DriverState) -> bool {
    &&& t.total_frames == s.total_frames
    &&& t.pts_step == s.pts_step
    &&& t.stream_index == s.stream_index
    &&& t.rescale == s.rescale
    &&& t.write_trailer == s.write_trailer
    &&& t.close_output == s.close_output
}

/// What holds of the state and the actions after any run from a fresh driver.
pub open spec fn run_invariant(s: DriverState, t: DriverState, acts: Seq<EncodeAction>) -> bool {
    let sent = sent_frames(acts);
    &&& t.wf()
    &&& same_config(s, t)
    &&& sent.len() == t.next_frame
    &&& forall|i: int| 0 <= i < sent.len() ==> (#[trigger] sent[i]).0 == i && sent[i].1 == i * s.pts_step
    &&& flush_count(acts) == if t.flushing { 1nat } else { 0nat }
    &&& t.stage == Stage::Start ==> !t.flushing && t.next_frame == 0
    &&& finishing(t.stage) ==> t.flushing
    &&& t.stage == Stage::TrailerWritten ==> t.write_trailer
    &&& t.stage == Stage::Closed ==> t.close_output
    &&& count_action(acts, EncodeAction::WriteTrailer) == if finishing(t.stage) && t.write_trailer {
        1nat
    } else {
        0nat
    }
    &&& count_action(acts, EncodeAction::CloseOutput) == if t.stage == Stage::Closed || (t.stage
        == Stage::Done && t.close_output) {
        1nat
    } else {
        0nat
    }
    &&& count_action(acts, EncodeAction::Finished) > 0 ==> t.stage == Stage::Done
}

/// Whatever the encoder answers, a fresh driver sends frames `0, 1, 2, …` in
/// order, frame `i` with timestamp `i * pts_step`, never more than
/// `total_frames` of them; it sends the end-of-stream marker at most once, and
/// only after every frame.
pub proof fn lemma_frames_sent_in_order(s: DriverState, codes: Seq<i32>)
    requires
        fresh(s),
    ensures
        run_invariant(s, run_steps(s, codes).0, run_steps(s, codes).1),
        run_steps(s, codes).0.next_frame <= s.total_frames,
        flush_count(run_steps(s, codes).1) <= 1,
        run_steps(s, codes).0.flushing ==> sent_frames(run_steps(s, codes).1).len() == s.total_frames,
    decreases codes.len(),
{
    if codes.len() == 0 {
        assert(sent_frames(Seq::<EncodeAction>::empty()) =~= Seq::<(usize, i64)>::empty());
    } else {
        lemma_frames_sent_in_order(s, codes.drop_last());
        let (t, acts) = run_steps(s, codes.drop_last());
        let (u, a) = t.spec_step(codes.last());
        let all = acts.push(a);
        assert(all.drop_last() =~= acts);
        assert(all.last() == a);
        assert(run_steps(s, codes) == (u, all));
        let sent = sent_frames(acts);
        if let EncodeAction::SendFrame { index, pts } = a {
            lemma_pts_in_range(t, t.next_frame as int);
            assert(index == t.next_frame);
            assert(sent_frames(all) =~= sent.push((index, pts)));
            assert forall|i: int| 0 <= i < sent_frames(all).len() implies (#[trigger] sent_frames(
                all,
            )[i]).0 == i && sent_frames(all)[i].1 == i * s.pts_step by {
                if i < sent.len() {
                    assert(sent_frames(all)[i] == sent[i]);
                }
            }
        } else {
            assert(sent_frames(all) =~= sent);
        }
    }
}

/// A session that has answered `Finished` is complete: every one of the
/// `total_frames` frames was sent, in order, frame `i` with timestamp
/// `i * pts_step`; the end-of-stream marker was sent once; the trailer was
/// written once where the session writes one; and the output was closed once
/// where the session closes it.
pub proof fn lemma_finished_session_complete(s: DriverState, codes: Seq<i32>)
    requires
        fresh(s),
        count_action(run_steps(s, codes).1, EncodeAction::Finished) > 0,
    ensures
        sent_frames(run_steps(s, codes).1).len() == s.total_frames,
        forall|i: int|
            0 <= i < s.total_frames ==> (#[trigger] sent_frames(run_steps(s, codes).1)[i]).0 == i
                && sent_frames(run_steps(s, codes).1)[i].1 == i * s.pts_step,
        flush_count(run_steps(s, codes).1) == 1,
        count_action(run_steps(s, codes).1, EncodeAction::WriteTrailer) == if s.write_trailer {
            1nat
        } else {
            0nat
        },
        count_action(run_steps(s, codes).1, EncodeAction::CloseOutput) == if s.close_output {
            1nat
        } else {
            0nat
        },
{
    lemma_frames_sent_in_order(s, codes);
}

/// Once the encoder has no packet left after a frame, the next frame goes out
/// (index `next_frame`, timestamp `next_frame * pts_step`) while any is left,
/// else the end-of-stream marker; the session never stops early. At the start
/// it is the same.
pub proof fn lemma_next_frame_after_drain(s: DriverState, code: i32)
    requires
        s.wf(),
        (s.stage == Stage::Receiving && code < 0 && !s.flushing) || s.stage == Stage::Start,
    ensures
        s.next_frame < s.total_frames ==> {
            let (t, a) = s.spec_step(code);
            &&& a matches EncodeAction::SendFrame { index, pts }
            &&& index == s.next_frame
            &&& pts as int == s.next_frame * s.pts_step
            &&& t.next_frame == s.next_frame + 1
            &&& t.stage == Stage::Sent
            &&& !t.flushing
        },
        s.next_frame >= s.total_frames ==> {
            let (t, a) = s.spec_step(code);
            &&& a == EncodeAction::SendFlush
            &&& t.flushing
            &&& t.next_frame == s.next_frame
            &&& t.stage == Stage::Sent
        },
        s.spec_step(code).1 != EncodeAction::Finished,
{
    lemma_pts_in_range(s, s.next_frame as int);
}

/// `Finished` is handed out only once the session is done.
pub proof fn lemma_finished_only_when_done(s: DriverState, code: i32)
    ensures
        s.spec_step(code).1 == EncodeAction::Finished ==> s.spec_step(code).0.stage == Stage::Done,
{
}

/// A frame or the end-of-stream marker is only sent at the start, or once the
/// encoder has reported that it has no packet left.
pub proof fn lemma_send_only_when_drained(s: DriverState, code: i32)
    requires
        s.wf(),
        s.spec_step(code).1 is SendFrame || s.spec_step(code).1 is SendFlush,
    ensures
        s.stage == Stage::Start || (s.stage == Stage::Receiving && code < 0),
{
}

/// Every packet the encoder hands out is written, under the configured stream
/// index and rescaling, and the encoder is asked again right after.
pub proof fn lemma_received_packets_written(s: DriverState, code: i32)
    requires
        s.stage == Stage::Receiving,
        code >= 0,
    ensures
        s.spec_step(code).1 == (EncodeAction::WritePacket {
            stream_index: s.stream_index,
            rescale: s.rescale,
        }),
        s.spec_step(code).0.spec_step(code).1 == EncodeAction::ReceivePacket,
{
}

/// The trailer is written only once the encoder is drained after the
/// end-of-stream marker; after it nothing but closing and finishing follows.
pub proof fn lemma_trailer_last(s: DriverState, code: i32)
    ensures
        s.spec_step(code).1 == EncodeAction::WriteTrailer ==> s.flushing && s.stage
            == Stage::Receiving && code < 0 && s.write_trailer,
        (s.stage == Stage::TrailerWritten || s.stage == Stage::Closed || s.stage == Stage::Done)
            ==> {
            let (t, a) = s.spec_step(code);
            &&& (t.stage == Stage::Closed || t.stage == Stage::Done)
            &&& (a == EncodeAction::CloseOutput || a == EncodeAction::Finished)
        },
        s.stage == Stage::Done ==> s.spec_step(code) == (s, EncodeAction::Finished),
{
}

/// Drives one encoding session: frames, end-of-stream, draining, trailer.
pub struct EncodeDriver {
    state: DriverState,
}

impl View for EncodeDriver {
    type V = DriverState;

    closed spec fn view(&self) -> DriverState {
        self.state
    }
}

impl EncodeDriver {
    #[verifier::type_invariant]
    spec fn inv(self) -> bool {
        self.state.wf()
    }

    /// A driver for a video session of `total_frames` frames with timestamps
    /// `0, 1, 2, …`, whose packets go from the encoder's time base to the
    /// stream's (as they stand once the header is written); a trailer is
    /// written, and the output is closed when `needs_file` holds.
    pub fn for_video(
        total_frames: usize,
        stream_index: i32,
        encoder_time_base: Rational,
        stream_time_base: Rational,
        needs_file: bool,
    ) -> (d: EncodeDriver)
        requires
            total_frames <= i64::MAX,
        ensures
            d@ == (DriverState {
                total_frames,
                pts_step: 1,
                stream_index,
                rescale: Some(Rescale { from: encoder_time_base, to: stream_time_base }),
                write_trailer: true,
                close_output: needs_file,
                next_frame: 0,
                flushing: false,
                stage: Stage::Start,
            }),
            fresh(d@),
    {
        assert(abs(1) == 1);
        assert(total_frames * 1 == total_frames) by (nonlinear_arith);
        EncodeDriver {
            state: DriverState {
                total_frames,
                pts_step: 1,
                stream_index,
                rescale: Some(Rescale { from: encoder_time_base, to: stream_time_base }),
                write_trailer: true,
                close_output: needs_file,
                next_frame: 0,
                flushing: false,
                stage: Stage::Start,
            },
        }
    }

    /// A driver for an audio session of `total_frames` frames of `frame_size`
    /// samples each, with timestamps counted in samples; packets keep their
    /// timestamps, no trailer is written, and the output is closed when
    /// `needs_file` holds.
    pub fn for_audio(total_frames: usize, frame_size: i32, stream_index: i32, needs_file: bool) -> (d:
        EncodeDriver)
        requires
            total_frames <= i64::MAX,
            total_frames * abs(frame_size as int) <= i64::MAX,
        ensures
            d@ == (DriverState {
                total_frames,
                pts_step: frame_size as i64,
                stream_index,
                rescale: None,
                write_trailer: false,
                close_output: needs_file,
                next_frame: 0,
                flushing: false,
                stage: Stage::Start,
            }),
            fresh(d@),
    {
        EncodeDriver {
            state: DriverState {
                total_frames,
                pts_step: frame_size as i64,
                stream_index,
                rescale: None,
                write_trailer: false,
                close_output: needs_file,
                next_frame: 0,
                flushing: false,
                stage: Stage::Start,
            },
        }
    }

    /// The next action, given the status code returned by the last one (any
    /// value at the start).
    pub fn advance(&mut self, code: i32) -> (action: EncodeAction)
        ensures
            (final(self)@, action) == old(self)@.spec_step(code),
    {
        proof {
            use_type_invariant(&*self);
        }
        let (next, action) = self.state.step(code);
        self.state = next;
        action
    }

    /// The driver's state.
    pub fn state(&self) -> (s: DriverState)
        ensures
            s == self@,
    {
        self.state
    }
}

} // verus!
