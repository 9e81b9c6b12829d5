//! Samples as they are captured, and as they are handed to resolution once
//! each of their frames has been described.

use crate::model::Function;
use crate::tables::FrameView;
use vstd::prelude::*;

verus! {

/// The deepest stack that one capture records.
pub const MAX_STACK_DEPTH: usize = 500;

/// One frame of a captured stack: the runtime's handle for the frame and the
/// line that was executing.
#[derive(Clone, Copy, Debug, PartialEq, Eq, Structural)]
pub struct CapturedFrame {
    pub handle: u64,
    pub line: i32,
}

/// A snapshot of one thread's stack, innermost frame first, as it is staged.
#[derive(Debug, PartialEq, Eq)]
pub struct RawSample {
    pub timestamp_ns: u64,
    pub thread: u64,
    pub frames: Vec<CapturedFrame>,
}

/// A raw sample with its frames as a sequence.
pub ghost struct RawSampleView {
    pub timestamp_ns: u64,
    pub thread: u64,
    pub frames: Seq<CapturedFrame>,
}

impl View for RawSample {
    type V = RawSampleView;

    open spec fn view(&self) -> RawSampleView {
        RawSampleView { timestamp_ns: self.timestamp_ns, thread: self.thread, frames: self.frames@ }
    }
}

/// The views of a list of raw samples.
pub open spec fn raw_views(samples: Seq<RawSample>) -> Seq<RawSampleView> {
    Seq::new(samples.len(), |i: int| samples[i]@)
}

/// The handles of a stack of captured frames, in the stack's order.
pub open spec fn handles_of(frames: Seq<CapturedFrame>) -> Seq<u64> {
    Seq::new(frames.len(), |i: int| frames[i].handle)
}

/// The handles of every frame of the samples, sample after sample.
pub open spec fn all_handles(samples: Seq<RawSampleView>) -> Seq<u64>
    decreases samples.len(),
{
    if samples.len() == 0 {
        Seq::empty()
    } else {
        all_handles(samples.drop_last()) + handles_of(samples.last().frames)
    }
}

/// A captured frame together with the description of its callable unit.
#[derive(Debug, PartialEq, Eq)]
pub struct DescribedFrame {
    pub function: Function,
    pub line: i32,
}

impl View for DescribedFrame {
    type V = FrameView;

    open spec fn view(&self) -> FrameView {
        FrameView { function: self.function@, line: self.line }
    }
}

/// The views of a stack of described frames.
pub open spec fn frame_views(frames: Seq<DescribedFrame>) -> Seq<FrameView> {
    Seq::new(frames.len(), |i: int| frames[i]@)
}

/// A sample whose frames have all been described.
#[derive(Debug, PartialEq, Eq)]
pub struct DescribedSample {
    pub timestamp_ns: u64,
    pub thread: u64,
    pub frames: Vec<DescribedFrame>,
}

/// A described sample with its frames as a sequence of views.
pub ghost struct DescribedSampleView {
    pub timestamp_ns: u64,
    pub thread: u64,
    pub frames: Seq<FrameView>,
}

impl View for DescribedSample {
    type V = DescribedSampleView;

    open spec fn view(&self) -> DescribedSampleView {
        DescribedSampleView {
            timestamp_ns: self.timestamp_ns,
            thread: self.thread,
            frames: frame_views(self.frames@),
        }
    }
}

/// Whether a capture that reports `line_count` frames can be read out of
/// buffers of the given lengths.
pub open spec fn capture_fits(handles: nat, lines: nat, line_count: i32) -> bool {
    0 <= line_count <= MAX_STACK_DEPTH && line_count <= handles && line_count <= lines
}

/// The frames that a capture of `line_count` frames left in its buffers.
pub open spec fn captured_frames(handles: Seq<u64>, lines: Seq<i32>, line_count: i32) -> Seq<
    CapturedFrame,
> {
    Seq::new(line_count as nat, |i: int| CapturedFrame { handle: handles[i], line: lines[i] })
}

/// The frames of `raw`, each with the function at its position.
pub open spec fn described_frames(raw: Seq<CapturedFrame>, functions: Seq<Function>) -> Seq<
    FrameView,
> {
    Seq::new(raw.len(), |i: int| FrameView { function: functions[i]@, line: raw[i].line })
}

/// Whether `descriptions` holds one list for each sample, with one function
/// for each of the sample's frames.
pub open spec fn descriptions_fit(
    samples: Seq<RawSampleView>,
    descriptions: Seq<Vec<Function>>,
) -> bool {
    &&& descriptions.len() == samples.len()
    &&& forall|i: int|
        0 <= i < samples.len() ==> (#[trigger] descriptions[i])@.len() == samples[i].frames.len()
}

/// Sample `i` with the functions of `descriptions[i]` at its frames.
pub open spec fn described_all(
    samples: Seq<RawSampleView>,
    descriptions: Seq<Vec<Function>>,
) -> Seq<DescribedSampleView> {
    Seq::new(
        samples.len(),
        |i: int|
            DescribedSampleView {
                timestamp_ns: samples[i].timestamp_ns,
                thread: samples[i].thread,
                frames: described_frames(samples[i].frames, descriptions[i]@),
            },
    )
}

/// The views of a list of described samples.
pub open spec fn described_views(samples: Seq<DescribedSample>) -> Seq<DescribedSampleView> {
    Seq::new(samples.len(), |i: int| samples[i]@)
}

/// Pairs every sample with its descriptions: `descriptions[i][j]` describes
/// frame `j` of sample `i`. There is no result where a list is missing or
/// differs in length from its sample's stack.
pub fn describe_all(samples: &Vec<RawSample>, descriptions: &Vec<Vec<Function>>) -> (described:
    Option<Vec<DescribedSample>>)
    ensures
        described is Some <==> descriptions_fit(raw_views(samples@), descriptions@),
        described matches Some(d) ==> described_views(d@) == described_all(
            raw_views(samples@),
            descriptions@,
        ),
{
    if descriptions.len() != samples.len() {
        return None;
    }
    let ghost views = raw_views(samples@);
    let mut described: Vec<DescribedSample> = Vec::with_capacity(samples.len());
    let mut i: usize = 0;
    while i < samples.len()
        invariant
            i <= samples@.len(),
            descriptions@.len() == samples@.len(),
            views == raw_views(samples@),
            described@.len() == i,
            forall|k: int|
                0 <= k < i ==> (#[trigger] descriptions@[k])@.len() == views[k].frames.len(),
            forall|k: int|
                0 <= k < i ==> (#[trigger] described@[k])@ == described_all(views, descriptions@)[k],
        decreases samples@.len() - i,
    {
        match samples[i].describe(&descriptions[i]) {
            Some(sample) => {
                described.push(sample);
            },
            None => {
                assert(descriptions@[i as int]@.len() != views[i as int].frames.len());
                return None;
            },
        }
        i += 1;
    }
    proof {
        assert(described_views(described@) =~= described_all(views, descriptions@));
    }
    Some(described)
}

impl RawSample {
    /// Reads a sample out of the buffers that a stack capture filled: the
    /// first `line_count` handles and lines, innermost frame first. There is
    /// no sample where the count is negative, deeper than `MAX_STACK_DEPTH`,
    /// or beyond either buffer.
    pub fn from_capture(
        thread: u64,
        timestamp_ns: u64,
        handles: &[u64],
        lines: &[i32],
        line_count: i32,
    ) -> (sample: Option<RawSample>)
        ensures
            sample is Some <==> capture_fits(handles@.len(), lines@.len(), line_count),
            sample matches Some(s) ==> s@ == (RawSampleView {
                timestamp_ns,
                thread,
                frames: captured_frames(handles@, lines@, line_count),
            }),
    {
        if line_count < 0 {
            return None;
        }
        let depth: usize = line_count as usize;
        if depth > MAX_STACK_DEPTH || depth > handles.len() || depth > lines.len() {
            return None;
        }
        let mut frames: Vec<CapturedFrame> = Vec::with_capacity(depth);
        let mut i: usize = 0;
        while i < depth
            invariant
                i <= depth,
                depth == line_count,
                depth <= handles@.len(),
                depth <= lines@.len(),
                frames@.len() == i,
                forall|k: int|
                    0 <= k < i ==> frames@[k] == (CapturedFrame {
                        handle: handles@[k],
                        line: lines@[k],
                    }),
            decreases depth - i,
        {
            frames.push(CapturedFrame { handle: handles[i], line: lines[i] });
            i += 1;
        }
        assert(frames@ =~= captured_frames(handles@, lines@, line_count));
        Some(RawSample { timestamp_ns, thread, frames })
    }

    /// Pairs each frame with the description of its callable unit:
    /// `functions[i]` describes frame `i`. There is no result where the two
    /// differ in length.
    pub fn describe(&self, functions: &Vec<Function>) -> (described: Option<DescribedSample>)
        ensures
            described is Some <==> functions@.len() == self.frames@.len(),
            described matches Some(d) ==> d@ == (DescribedSampleView {
                timestamp_ns: self.timestamp_ns,
                thread: self.thread,
                frames: described_frames(self.frames@, functions@),
            }),
    {
        if functions.len() != self.frames.len() {
            return None;
        }
        let mut frames: Vec<DescribedFrame> = Vec::with_capacity(functions.len());
        let mut i: usize = 0;
        while i < functions.len()
            invariant
                i <= functions@.len(),
                functions@.len() == self.frames@.len(),
                frames@.len() == i,
                forall|k: int|
                    0 <= k < i ==> (#[trigger] frames@[k])@ == (FrameView {
                        function: functions@[k]@,
                        line: self.frames@[k].line,
                    }),
            decreases functions@.len() - i,
        {
            frames.push(DescribedFrame { function: functions[i].clone(), line: self.frames[i].line });
            i += 1;
        }
        assert(frame_views(frames@) =~= described_frames(self.frames@, functions@));
        Some(DescribedSample { timestamp_ns: self.timestamp_ns, thread: self.thread, frames })
    }
}

} // verus!
