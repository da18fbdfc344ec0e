//! The screen-capture loop as a state machine: it keeps the BGRA frames that
//! the capturer hands out and reports each one with its time since the first.
use vstd::prelude::*;
use crate::frames::views;

verus! {

/// Frames per second asked of the capturer.
pub const CAPTURE_FPS: u32 = 30;

/// How many times the capture loop asks the capturer for a frame.
pub const CAPTURE_ITERATIONS: u32 = 100;

/// What the capturer handed out.
pub enum CaptureEvent {
    /// A packed BGRA frame.
    Bgra { display_time: u64, width: u32, height: u32, data: Vec<u8> },
    /// A frame of any other kind, which the loop skips.
    Other,
}

/// A captured event with its pixel data as a sequence.
pub enum CaptureEventView {
    Bgra { display_time: u64, width: u32, height: u32, data: Seq<u8> },
    Other,
}

impl View for CaptureEvent {
    type V = CaptureEventView;

    open spec fn view(&self) -> CaptureEventView {
        match self {
            CaptureEvent::Bgra { display_time, width, height, data } => CaptureEventView::Bgra {
                display_time: *display_time,
                width: *width,
                height: *height,
                data: data@,
            },
            CaptureEvent::Other => CaptureEventView::Other,
        }
    }
}

/// The line the loop prints for a kept frame.
#[derive(Clone, Copy, Debug, PartialEq, Eq, Structural)]
pub struct FrameReport {
    /// Iteration of the loop that got the frame.
    pub index: u32,
    pub width: u32,
    pub height: u32,
    /// Display time since the start time.
    pub elapsed: u64,
}

/// The state of the capture loop as plain values.
pub struct CaptureModel {
    /// Display time of the first frame with a non-zero time, or zero.
    pub start_time: u64,
    /// Iterations done so far.
    pub next_index: u32,
    /// Pixel data of the frames kept so far, in order.
    pub frames: Seq<Seq<u8>>,
}

/// The state of the capture loop.
pub struct CaptureLog {
    pub start_time: u64,
    pub next_index: u32,
    pub frames: Vec<Vec<u8>>,
}

impl View for CaptureLog {
    type V = CaptureModel;

    open spec fn view(&self) -> CaptureModel {
        CaptureModel {
            start_time: self.start_time,
            next_index: self.next_index,
            frames: views(self.frames@),
        }
    }
}

/// The start time after a BGRA frame with `display_time`: taken from the frame
/// while it is still zero.
pub open spec fn next_start(start_time: u64, display_time: u64) -> u64 {
    if start_time == 0 {
        display_time
    } else {
        start_time
    }
}

/// One iteration of the capture loop.
pub open spec fn spec_capture_step(m: CaptureModel, e: CaptureEventView) -> (
    CaptureModel,
    Option<FrameReport>,
) {
    match e {
        CaptureEventView::Bgra { display_time, width, height, data } => {
            let start = next_start(m.start_time, display_time);
            (
                CaptureModel {
                    start_time: start,
                    next_index: (m.next_index + 1) as u32,
                    frames: m.frames.push(data),
                },
                Some(
                    FrameReport {
                        index: m.next_index,
                        width,
                        height,
                        elapsed: (display_time - start) as u64,
                    },
                ),
            )
        },
        CaptureEventView::Other => (
            CaptureModel { next_index: (m.next_index + 1) as u32, ..m },
            None,
        ),
    }
}

/// A frame's display time does not lie before the start time (the loop
/// subtracts the one from the other).
pub open spec fn in_order(start_time: u64, e: CaptureEventView) -> bool {
    match e {
        CaptureEventView::Bgra { display_time, .. } => next_start(start_time, display_time)
            <= display_time,
        CaptureEventView::Other => true,
    }
}

impl CaptureLog {
    /// The state before the first iteration.
    pub fn new() -> (log: CaptureLog)
        ensures
            log@ == (CaptureModel { start_time: 0, next_index: 0, frames: Seq::empty() }),
    {
        let log = CaptureLog { start_time: 0, next_index: 0, frames: Vec::new() };
        assert(log@.frames =~= Seq::<Seq<u8>>::empty());
        log
    }

    /// Whether `event` can be taken: its display time does not lie before the
    /// start time it would be measured from.
    pub fn accepts(&self, event: &CaptureEvent) -> (ok: bool)
        ensures
            ok == in_order(self.start_time, event@),
            ok == (match event@ {
                CaptureEventView::Bgra { display_time, .. } => self.start_time == 0
                    || self.start_time <= display_time,
                CaptureEventView::Other => true,
            }),
    {
        match event {
            CaptureEvent::Bgra { display_time, .. } => {
                let start = if self.start_time == 0 {
                    *display_time
                } else {
                    self.start_time
                };
                start <= *display_time
            },
            CaptureEvent::Other => true,
        }
    }

    /// Takes what the capturer handed out in this iteration: keeps a BGRA frame
    /// and returns its report; skips anything else.
    pub fn on_event(&mut self, event: CaptureEvent) -> (report: Option<FrameReport>)
        requires
            old(self).next_index < u32::MAX,
            in_order(old(self).start_time, event@),
        ensures
            (final(self)@, report) == spec_capture_step(old(self)@, event@),
            match event@ {
                CaptureEventView::Bgra { display_time, width, height, .. } => report matches Some(r)
                    && r.index == old(self).next_index && r.width == width && r.height == height
                    && r.elapsed as int == display_time - final(self).start_time,
                CaptureEventView::Other => report is None,
            },
    {
        let ghost before = self.frames@;
        match event {
            CaptureEvent::Bgra { display_time, width, height, data } => {
                if self.start_time == 0 {
                    self.start_time = display_time;
                }
                let elapsed = display_time - self.start_time;
                let ghost d = data@;
                self.frames.push(data);
                self.next_index = self.next_index + 1;
                proof {
                    assert(views(self.frames@) =~= views(before).push(d));
                }
                Some(FrameReport { index: (self.next_index - 1), width, height, elapsed })
            },
            CaptureEvent::Other => {
                self.next_index = self.next_index + 1;
                None
            },
        }
    }

    /// Hands over the kept frames.
    pub fn into_frames(self) -> (frames: Vec<Vec<u8>>)
        ensures
            views(frames@) == self@.frames,
    {
        self.frames
    }
}

/// A BGRA frame is taken exactly when the start time is still unset or does
/// not lie after the frame's display time; any other event is always taken.
pub proof fn lemma_accepts_frames_after_start(start_time: u64, e: CaptureEventView)
    ensures
        e matches CaptureEventView::Bgra { display_time, .. } ==> (in_order(start_time, e) <==> (
        start_time == 0 || start_time <= display_time)),
        e is Other ==> in_order(start_time, e),
{
}

/// Taking a BGRA frame with display time `t`: the report names the iteration,
/// the frame's size, and the full time since the start (the frame's own time
/// when no start is set yet, so zero); the start time is set from the first
/// frame with a non-zero time and never changes afterwards; the frame's data is
/// appended and the iteration count goes up by one. Anything else only counts
/// the iteration.
pub proof fn lemma_capture_step_reports(m: CaptureModel, e: CaptureEventView)
    requires
        in_order(m.start_time, e),
        m.next_index < u32::MAX,
    ensures
        e matches CaptureEventView::Bgra { display_time, width, height, data } ==> {
            let (n, r) = spec_capture_step(m, e);
            &&& r matches Some(rep)
            &&& rep.index == m.next_index
            &&& rep.width == width
            &&& rep.height == height
            &&& m.start_time != 0 ==> rep.elapsed as int == display_time as int - m.start_time as int
            &&& m.start_time == 0 ==> rep.elapsed == 0
            &&& m.start_time != 0 ==> n.start_time == m.start_time
            &&& m.start_time == 0 ==> n.start_time == display_time
            &&& n.frames == m.frames.push(data)
            &&& n.next_index == m.next_index + 1
        },
        e is Other ==> {
            let (n, r) = spec_capture_step(m, e);
            &&& r is None
            &&& n.frames == m.frames
            &&& n.start_time == m.start_time
            &&& n.next_index == m.next_index + 1
        },
{
}

/// The state after a run of iterations.
pub open spec fn run_capture(m: CaptureModel, events: Seq<CaptureEventView>) -> CaptureModel
    decreases events.len(),
{
    if events.len() == 0 {
        m
    } else {
        spec_capture_step(run_capture(m, events.drop_last()), events.last()).0
    }
}

/// Pixel data of the BGRA frames among `events`, in order.
pub open spec fn bgra_payloads(events: Seq<CaptureEventView>) -> Seq<Seq<u8>>
    decreases events.len(),
{
    if events.len() == 0 {
        Seq::empty()
    } else {
        let before = bgra_payloads(events.drop_last());
        match events.last() {
            CaptureEventView::Bgra { data, .. } => before.push(data),
            CaptureEventView::Other => before,
        }
    }
}

/// Display time of the first BGRA frame among `events` whose time is not zero,
/// or zero where there is none.
pub open spec fn first_nonzero_time(events: Seq<CaptureEventView>) -> u64
    decreases events.len(),
{
    if events.len() == 0 {
        0
    } else {
        let before = first_nonzero_time(events.drop_last());
        if before != 0 {
            before
        } else {
            match events.last() {
                CaptureEventView::Bgra { display_time, .. } => display_time,
                CaptureEventView::Other => 0,
            }
        }
    }
}

/// From the initial state, the loop keeps exactly the BGRA frames it is handed,
/// in order, counts every iteration, and its start time is the first non-zero
/// display time.
pub proof fn lemma_capture_keeps_bgra_frames(events: Seq<CaptureEventView>)
    requires
        events.len() <= u32::MAX,
    ensures
        run_capture(CaptureModel { start_time: 0, next_index: 0, frames: Seq::empty() }, events).frames
            == bgra_payloads(events),
        run_capture(CaptureModel { start_time: 0, next_index: 0, frames: Seq::empty() }, events).next_index
            == events.len(),
        run_capture(CaptureModel { start_time: 0, next_index: 0, frames: Seq::empty() }, events).start_time
            == first_nonzero_time(events),
    decreases events.len(),
{
    if events.len() > 0 {
        lemma_capture_keeps_bgra_frames(events.drop_last());
    }
}

} // verus!
