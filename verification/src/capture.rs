//! Frame capture. The sensor announces a frame with a pulse on frame-sync,
//! raises line-sync for the length of every row, and puts the two bytes of
//! every pixel on its eight data lines, most significant first, one with
//! each rising edge of the pixel clock. None of this is buffered or
//! interrupt-driven: the lines are sampled over and over, and
//! [`FrameCapture`] is told every sample and follows the edges.

use vstd::prelude::*;
use crate::pixel::{combine_bytes, join_bytes};
use crate::wait::{poll_status, BoundedWait, WaitStatus};

verus! {

/// The levels of the sensor's lines at one moment.
#[derive(Clone, Copy, Debug, PartialEq, Eq, Structural)]
pub struct LineSample {
    pub frame_sync: bool,
    pub line_sync: bool,
    pub pixel_clock: bool,
    pub data: u8,
}

/// What a capture is waiting for. Every wait is for an edge: a level counts
/// only after the opposite level was seen.
#[derive(Clone, Copy, Debug, PartialEq, Eq, Structural)]
pub enum CapturePhase {
    /// A whole pulse on frame-sync: low, then high, then low again.
    WaitFrameStart,
    /// Line-sync to rise: a row begins.
    WaitLineStart,
    /// The pixel clock to rise: the data lines then hold the high byte.
    SampleHighByte,
    /// The pixel clock to fall and rise again: the data lines then hold the
    /// low byte.
    SampleLowByte,
    /// The pixel clock to fall: line-sync then tells whether another pixel
    /// follows or the row is complete.
    EndOfLine,
    /// Nothing: all rows of the frame were captured.
    EndOfFrame,
}

/// Why a frame was given up.
#[derive(Clone, Copy, Debug, PartialEq, Eq, Structural)]
pub enum FrameError {
    /// A row ended with another number of pixels than the declared width.
    Desync { row: u32, pixels: u32 },
    /// An edge did not come within the allowed polls.
    Timeout,
}

/// What one sample brought.
#[derive(Clone, Copy, Debug, PartialEq, Eq, Structural)]
pub enum CaptureEvent {
    /// Nothing to act on.
    Pending,
    /// The row of this index is complete and waits in the row buffer.
    Row(u32),
    /// The frame was complete before this sample.
    Done,
    /// The frame is given up; the capture waits for the next one.
    Failed(FrameError),
}

/// The state of a capture.
pub struct CaptureState {
    /// The declared number of pixels in a row.
    pub width: u32,
    /// The number of rows in a frame.
    pub rows: u32,
    /// The polls that every wait is allowed.
    pub limit: u32,
    /// What the capture is waiting for.
    pub phase: CapturePhase,
    /// How many of the levels that make up the awaited edges were seen:
    /// the low level that must come before a rising edge is the first.
    pub edges: u8,
    /// The index of the row in progress.
    pub row: u32,
    /// The pixels that were clocked in the row in progress; it stops
    /// counting at the largest number that it can hold.
    pub count: u32,
    /// The high byte of the pixel in progress.
    pub high: u8,
    /// The row buffer.
    pub buffer: Seq<u16>,
    /// The polls that the wait in progress is still allowed.
    pub polls_left: nat,
}

impl CaptureState {
    /// The state of a capture that has seen nothing.
    pub open spec fn start(width: u32, rows: u32, limit: u32) -> CaptureState {
        CaptureState {
            width,
            rows,
            limit,
            phase: CapturePhase::WaitFrameStart,
            edges: 0,
            row: 0,
            count: 0,
            high: 0,
            buffer: Seq::empty(),
            polls_left: limit as nat,
        }
    }

    /// While a row is sampled, the buffer holds its pixels up to the
    /// declared width.
    pub open spec fn sampling(self) -> bool {
        self.phase == CapturePhase::SampleHighByte || self.phase == CapturePhase::SampleLowByte
            || self.phase == CapturePhase::EndOfLine
    }

    /// A frame has at least one row of at least one pixel, the row in
    /// progress is one of the frame and the first while the frame is waited
    /// for, and the row buffer never holds more than the declared width.
    pub open spec fn wf(self) -> bool {
        &&& self.width >= 1
        &&& self.rows >= 1
        &&& self.row < self.rows
        &&& self.phase == CapturePhase::WaitFrameStart ==> self.row == 0
        &&& self.polls_left <= self.limit
        &&& self.buffer.len() <= self.width
        &&& self.sampling() ==> self.buffer.len() == if self.count < self.width {
            self.count
        } else {
            self.width
        }
    }

    /// Whether the lines show what the capture is waiting for.
    pub open spec fn awaited(self, sample: LineSample) -> bool {
        match self.phase {
            CapturePhase::WaitFrameStart => if self.edges == 1 {
                sample.frame_sync
            } else {
                !sample.frame_sync
            },
            CapturePhase::WaitLineStart => if self.edges == 0 {
                !sample.line_sync
            } else {
                sample.line_sync
            },
            CapturePhase::SampleHighByte | CapturePhase::SampleLowByte => if self.edges == 0 {
                !sample.pixel_clock
            } else {
                sample.pixel_clock
            },
            CapturePhase::EndOfLine => !sample.pixel_clock,
            CapturePhase::EndOfFrame => false,
        }
    }

    /// The state in which the next frame is waited for.
    pub open spec fn reset(self) -> CaptureState {
        CaptureState {
            phase: CapturePhase::WaitFrameStart,
            edges: 0,
            row: 0,
            count: 0,
            buffer: Seq::empty(),
            polls_left: self.limit as nat,
            ..self
        }
    }

    /// The state after the awaited level was seen, and what it brought. A
    /// wait for a rising edge begins past its low level where the sample
    /// that ends the wait before it shows that line low.
    pub open spec fn advance(self, sample: LineSample) -> (CaptureState, CaptureEvent) {
        let next = CaptureState { edges: 0, polls_left: self.limit as nat, ..self };
        match self.phase {
            CapturePhase::WaitFrameStart => if self.edges < 2 {
                (CaptureState { edges: (self.edges + 1) as u8, ..next }, CaptureEvent::Pending)
            } else {
                (
                    CaptureState {
                        phase: CapturePhase::WaitLineStart,
                        edges: if sample.line_sync {
                            0
                        } else {
                            1
                        },
                        row: 0,
                        ..next
                    },
                    CaptureEvent::Pending,
                )
            },
            CapturePhase::WaitLineStart => if self.edges == 0 {
                (CaptureState { edges: 1, ..next }, CaptureEvent::Pending)
            } else {
                (
                    CaptureState {
                        phase: CapturePhase::SampleHighByte,
                        edges: if sample.pixel_clock {
                            0
                        } else {
                            1
                        },
                        count: 0,
                        buffer: Seq::empty(),
                        ..next
                    },
                    CaptureEvent::Pending,
                )
            },
            CapturePhase::SampleHighByte => if self.edges == 0 {
                (CaptureState { edges: 1, ..next }, CaptureEvent::Pending)
            } else {
                (
                    CaptureState { phase: CapturePhase::SampleLowByte, high: sample.data, ..next },
                    CaptureEvent::Pending,
                )
            },
            CapturePhase::SampleLowByte => if self.edges == 0 {
                (CaptureState { edges: 1, ..next }, CaptureEvent::Pending)
            } else {
                (
                    CaptureState {
                        phase: CapturePhase::EndOfLine,
                        count: if self.count < u32::MAX {
                            (self.count + 1) as u32
                        } else {
                            self.count
                        },
                        buffer: if self.count < self.width {
                            self.buffer.push(join_bytes(self.high, sample.data))
                        } else {
                            self.buffer
                        },
                        ..next
                    },
                    CaptureEvent::Pending,
                )
            },
            CapturePhase::EndOfLine => if sample.line_sync {
                (
                    CaptureState { phase: CapturePhase::SampleHighByte, edges: 1, ..next },
                    CaptureEvent::Pending,
                )
            } else if self.count != self.width {
                (
                    self.reset(),
                    CaptureEvent::Failed(FrameError::Desync { row: self.row, pixels: self.count }),
                )
            } else if self.row + 1 >= self.rows {
                (
                    CaptureState { phase: CapturePhase::EndOfFrame, ..next },
                    CaptureEvent::Row(self.row),
                )
            } else {
                (
                    CaptureState {
                        phase: CapturePhase::WaitLineStart,
                        edges: 1,
                        row: (self.row + 1) as u32,
                        ..next
                    },
                    CaptureEvent::Row(self.row),
                )
            },
            CapturePhase::EndOfFrame => (self, CaptureEvent::Done),
        }
    }

    /// The state after one sample, and what the sample brought. A sample
    /// that does not show the awaited edge spends one poll of the wait in
    /// progress; when the last is spent the frame is given up.
    pub open spec fn poll(self, sample: LineSample) -> (CaptureState, CaptureEvent) {
        if self.phase == CapturePhase::EndOfFrame {
            (self, CaptureEvent::Done)
        } else {
            match poll_status(self.polls_left, self.awaited(sample)) {
                WaitStatus::Ready => self.advance(sample),
                WaitStatus::Pending => (
                    CaptureState { polls_left: (self.polls_left - 1) as nat, ..self },
                    CaptureEvent::Pending,
                ),
                WaitStatus::Expired => (self.reset(), CaptureEvent::Failed(FrameError::Timeout)),
            }
        }
    }
}

/// Follows the sensor's lines through one frame after the other.
pub struct FrameCapture {
    width: u32,
    rows: u32,
    limit: u32,
    phase: CapturePhase,
    edges: u8,
    row: u32,
    count: u32,
    high: u8,
    buffer: Vec<u16>,
    wait: BoundedWait,
}

impl View for FrameCapture {
    type V = CaptureState;

    closed spec fn view(&self) -> CaptureState {
        CaptureState {
            width: self.width,
            rows: self.rows,
            limit: self.limit,
            phase: self.phase,
            edges: self.edges,
            row: self.row,
            count: self.count,
            high: self.high,
            buffer: self.buffer@,
            polls_left: self.wait@,
        }
    }
}

impl FrameCapture {
    /// A capture of frames of `rows` rows of `width` pixels that gives every
    /// wait for an edge `poll_limit` polls. There is none for a frame
    /// without pixels.
    pub fn new(width: u32, rows: u32, poll_limit: u32) -> (capture: Option<FrameCapture>)
        ensures
            capture is Some <==> width >= 1 && rows >= 1,
            capture is Some ==> capture.unwrap()@ == CaptureState::start(width, rows, poll_limit)
                && capture.unwrap()@.wf(),
    {
        if width >= 1 && rows >= 1 {
            Some(
                FrameCapture {
                    width,
                    rows,
                    limit: poll_limit,
                    phase: CapturePhase::WaitFrameStart,
                    edges: 0,
                    row: 0,
                    count: 0,
                    high: 0,
                    buffer: Vec::new(),
                    wait: BoundedWait::new(poll_limit),
                },
            )
        } else {
            None
        }
    }

    /// What the capture is waiting for.
    pub fn phase(&self) -> (phase: CapturePhase)
        ensures
            phase == self@.phase,
    {
        self.phase
    }

    /// The row buffer. After a [`CaptureEvent::Row`] it holds that row, and
    /// keeps it until the next row begins.
    pub fn row(&self) -> (row: &Vec<u16>)
        ensures
            row@ == self@.buffer,
    {
        &self.buffer
    }

    /// Gives the frame in progress up, or leaves a complete one behind, and
    /// waits for the next.
    pub fn restart(&mut self)
        requires
            old(self)@.wf(),
        ensures
            final(self)@ == old(self)@.reset(),
            final(self)@.wf(),
    {
        self.phase = CapturePhase::WaitFrameStart;
        self.edges = 0;
        self.row = 0;
        self.count = 0;
        self.buffer.clear();
        self.wait = BoundedWait::new(self.limit);
    }

    /// Takes one sample of the lines.
    pub fn poll(&mut self, sample: LineSample) -> (event: CaptureEvent)
        requires
            old(self)@.wf(),
        ensures
            (final(self)@, event) == old(self)@.poll(sample),
            final(self)@.wf(),
            event is Row ==> final(self)@.buffer.len() == final(self)@.width,
    {
        let awaited = match self.phase {
            CapturePhase::WaitFrameStart => if self.edges == 1 {
                sample.frame_sync
            } else {
                !sample.frame_sync
            },
            CapturePhase::WaitLineStart => if self.edges == 0 {
                !sample.line_sync
            } else {
                sample.line_sync
            },
            CapturePhase::SampleHighByte | CapturePhase::SampleLowByte => if self.edges == 0 {
                !sample.pixel_clock
            } else {
                sample.pixel_clock
            },
            CapturePhase::EndOfLine => !sample.pixel_clock,
            CapturePhase::EndOfFrame => {
                return CaptureEvent::Done;
            },
        };
        match self.wait.poll(awaited) {
            WaitStatus::Pending => CaptureEvent::Pending,
            WaitStatus::Expired => {
                self.restart();
                CaptureEvent::Failed(FrameError::Timeout)
            },
            WaitStatus::Ready => {
                self.wait = BoundedWait::new(self.limit);
                let edges = self.edges;
                self.edges = 0;
                match self.phase {
                    CapturePhase::WaitFrameStart => {
                        if edges < 2 {
                            self.edges = edges + 1;
                        } else {
                            self.phase = CapturePhase::WaitLineStart;
                            self.row = 0;
                            if !sample.line_sync {
                                self.edges = 1;
                            }
                        }
                        CaptureEvent::Pending
                    },
                    CapturePhase::WaitLineStart => {
                        if edges == 0 {
                            self.edges = 1;
                        } else {
                            self.phase = CapturePhase::SampleHighByte;
                            self.count = 0;
                            self.buffer.clear();
                            if !sample.pixel_clock {
                                self.edges = 1;
                            }
                        }
                        CaptureEvent::Pending
                    },
                    CapturePhase::SampleHighByte => {
                        if edges == 0 {
                            self.edges = 1;
                        } else {
                            self.phase = CapturePhase::SampleLowByte;
                            self.high = sample.data;
                        }
                        CaptureEvent::Pending
                    },
                    CapturePhase::SampleLowByte => {
                        if edges == 0 {
                            self.edges = 1;
                        } else {
                            if self.count < self.width {
                                self.buffer.push(combine_bytes(self.high, sample.data));
                            }
                            if self.count < u32::MAX {
                                self.count = self.count + 1;
                            }
                            self.phase = CapturePhase::EndOfLine;
                        }
                        CaptureEvent::Pending
                    },
                    CapturePhase::EndOfLine => {
                        if sample.line_sync {
                            self.phase = CapturePhase::SampleHighByte;
                            self.edges = 1;
                            CaptureEvent::Pending
                        } else if self.count != self.width {
                            let error = FrameError::Desync { row: self.row, pixels: self.count };
                            self.restart();
                            CaptureEvent::Failed(error)
                        } else {
                            let row = self.row;
                            if row + 1 >= self.rows {
                                self.phase = CapturePhase::EndOfFrame;
                            } else {
                                self.phase = CapturePhase::WaitLineStart;
                                self.edges = 1;
                                self.row = row + 1;
                            }
                            CaptureEvent::Row(row)
                        }
                    },
                    CapturePhase::EndOfFrame => CaptureEvent::Done,
                }
            },
        }
    }
}

/// A capture together with what it has delivered of one frame.
pub struct CaptureRun {
    /// The state of the capture.
    pub machine: CaptureState,
    /// The rows that were completed, in order.
    pub rows: Seq<Seq<u16>>,
    /// Why the frame was given up, if it was.
    pub error: Option<FrameError>,
}

impl CaptureRun {
    /// A run that begins with the capture waiting for a frame.
    pub open spec fn begin(machine: CaptureState) -> CaptureRun {
        CaptureRun { machine: machine.reset(), rows: Seq::empty(), error: None }
    }

    /// The frame is complete or given up: further samples are not looked
    /// at.
    pub open spec fn over(self) -> bool {
        self.error is Some || self.machine.phase == CapturePhase::EndOfFrame
    }

    /// The run after one more sample.
    pub open spec fn sample(self, sample: LineSample) -> CaptureRun {
        if self.over() {
            self
        } else {
            let (machine, event) = self.machine.poll(sample);
            match event {
                CaptureEvent::Row(_) => CaptureRun {
                    machine,
                    rows: self.rows.push(machine.buffer),
                    ..self
                },
                CaptureEvent::Failed(error) => CaptureRun { machine, error: Some(error), ..self },
                _ => CaptureRun { machine, ..self },
            }
        }
    }

    /// The run after a list of samples.
    pub open spec fn feed(self, signals: Seq<LineSample>) -> CaptureRun
        decreases signals.len(),
    {
        if signals.len() == 0 {
            self
        } else {
            self.feed(signals.drop_last()).sample(signals.last())
        }
    }

    /// What the run comes to: the rows of a complete frame, or the error
    /// that ended it. A frame that is still incomplete when the samples end
    /// has timed out.
    pub open spec fn result(self) -> Result<Seq<Seq<u16>>, FrameError> {
        match self.error {
            Some(error) => Err(error),
            None => if self.machine.phase == CapturePhase::EndOfFrame {
                Ok(self.rows)
            } else {
                Err(FrameError::Timeout)
            },
        }
    }
}

/// Samples that follow the end of a run change nothing.
pub proof fn lemma_run_stays_over(run: CaptureRun, signals: Seq<LineSample>, seen: int)
    requires
        0 <= seen <= signals.len(),
        run.feed(signals.take(seen)).over(),
    ensures
        run.feed(signals) == run.feed(signals.take(seen)),
    decreases signals.len() - seen,
{
    if seen == signals.len() {
        assert(signals.take(seen) =~= signals);
    } else {
        assert(signals.take(seen + 1).drop_last() =~= signals.take(seen));
        lemma_run_stays_over(run, signals, seen + 1);
    }
}

fn copy_row(row: &Vec<u16>) -> (copy: Vec<u16>)
    ensures
        copy@ == row@,
{
    let mut copy: Vec<u16> = Vec::new();
    let mut i: usize = 0;
    while i < row.len()
        invariant
            i <= row.len(),
            copy@ == row@.take(i as int),
        decreases row.len() - i,
    {
        copy.push(row[i]);
        i += 1;
        assert(copy@ =~= row@.take(i as int));
    }
    assert(row@.take(i as int) =~= row@);
    copy
}

impl FrameCapture {
    /// Captures the next frame from a list of samples, taken in order.
    /// Returns the rows of the frame, or the error that ended it; if the
    /// samples end before the frame does, that is a timeout.
    pub fn capture_frame(&mut self, signals: &[LineSample]) -> (result: Result<
        Vec<Vec<u16>>,
        FrameError,
    >)
        requires
            old(self)@.wf(),
        ensures
            final(self)@.wf(),
            final(self)@ == CaptureRun::begin(old(self)@).feed(signals@).machine,
            match result {
                Ok(rows) => CaptureRun::begin(old(self)@).feed(signals@).result() == Ok::<
                    Seq<Seq<u16>>,
                    FrameError,
                >(rows.deep_view()),
                Err(error) => CaptureRun::begin(old(self)@).feed(signals@).result() == Err::<
                    Seq<Seq<u16>>,
                    FrameError,
                >(error),
            },
    {
        let ghost begin = CaptureRun::begin(self@);
        self.restart();
        let mut rows: Vec<Vec<u16>> = Vec::new();
        let mut i: usize = 0;
        assert(signals@.take(0) =~= Seq::<LineSample>::empty());
        assert(rows.deep_view() =~~= Seq::<Seq<u16>>::empty());
        while i < signals.len()
            invariant
                i <= signals.len(),
                self@.wf(),
                begin == CaptureRun::begin(old(self)@),
                begin.feed(signals@.take(i as int)) == (CaptureRun {
                    machine: self@,
                    rows: rows.deep_view(),
                    error: None,
                }),
                self@.phase != CapturePhase::EndOfFrame,
            decreases signals.len() - i,
        {
            proof {
                assert(signals@.take(i + 1).drop_last() =~= signals@.take(i as int));
            }
            let ghost before = rows.deep_view();
            let event = self.poll(signals[i]);
            i += 1;
            match event {
                CaptureEvent::Row(_) => {
                    let row = copy_row(self.row());
                    rows.push(row);
                    assert(rows.deep_view() =~~= before.push(self@.buffer));
                },
                CaptureEvent::Failed(error) => {
                    proof {
                        lemma_run_stays_over(begin, signals@, i as int);
                    }
                    return Err(error);
                },
                _ => {},
            }
            match self.phase {
                CapturePhase::EndOfFrame => {
                    proof {
                        lemma_run_stays_over(begin, signals@, i as int);
                    }
                    return Ok(rows);
                },
                _ => {},
            }
        }
        assert(signals@.take(i as int) =~= signals@);
        Err(FrameError::Timeout)
    }
}

impl CaptureRun {
    /// The rows that were delivered are the first rows of the frame, one
    /// for each row index that the capture has passed, and each holds
    /// exactly the declared width.
    pub open spec fn wf(self) -> bool {
        &&& self.machine.wf()
        &&& self.error is None ==> self.rows.len() == if self.machine.phase
            == CapturePhase::EndOfFrame {
            self.machine.rows
        } else {
            self.machine.row
        }
        &&& forall|i: int| 0 <= i < self.rows.len() ==> (#[trigger] self.rows[i]).len()
            == self.machine.width
    }
}

proof fn lemma_sample_keeps_geometry(run: CaptureRun, sample: LineSample)
    requires
        run.wf(),
    ensures
        run.sample(sample).wf(),
        run.sample(sample).machine.width == run.machine.width,
        run.sample(sample).machine.rows == run.machine.rows,
        run.sample(sample).machine.limit == run.machine.limit,
{
    let after = run.sample(sample);
    if !run.over() {
        let (machine, event) = run.machine.poll(sample);
        assert(machine.wf());
        match event {
            CaptureEvent::Row(_) => {
                assert(machine.buffer.len() == machine.width);
                assert forall|i: int| 0 <= i < after.rows.len() implies (#[trigger] after.rows[i]).len()
                    == after.machine.width by {
                    if i < run.rows.len() {
                        assert(after.rows[i] == run.rows[i]);
                    }
                }
            },
            _ => {},
        }
    }
}

/// Whatever the lines show, a capture never delivers a row of another
/// length than the declared width, and a frame that it completes has
/// exactly the declared number of rows.
pub proof fn lemma_run_geometry(machine: CaptureState, signals: Seq<LineSample>)
    requires
        machine.wf(),
    ensures
        ({
            let run = CaptureRun::begin(machine).feed(signals);
            &&& run.wf()
            &&& run.machine.width == machine.width
            &&& run.machine.rows == machine.rows
            &&& run.machine.limit == machine.limit
            &&& run.result() matches Ok(rows) ==> rows.len() == machine.rows && forall|i: int|
                0 <= i < rows.len() ==> (#[trigger] rows[i]).len() == machine.width
        }),
    decreases signals.len(),
{
    if signals.len() > 0 {
        lemma_run_geometry(machine, signals.drop_last());
        lemma_sample_keeps_geometry(
            CaptureRun::begin(machine).feed(signals.drop_last()),
            signals.last(),
        );
    }
}

/// No wait goes on for ever: a sample that does not show the awaited level
/// spends one poll of the wait in progress and changes nothing else, and
/// the sample that spends the last poll ends the frame with a timeout.
pub proof fn lemma_capture_wait_is_bounded(state: CaptureState, sample: LineSample)
    requires
        state.wf(),
        state.phase != CapturePhase::EndOfFrame,
        !state.awaited(sample),
    ensures
        state.polls_left >= 2 ==> state.poll(sample) == (
            CaptureState { polls_left: (state.polls_left - 1) as nat, ..state },
            CaptureEvent::Pending,
        ),
        state.polls_left <= 1 ==> state.poll(sample) == (
            state.reset(),
            CaptureEvent::Failed(FrameError::Timeout),
        ),
        state.poll(sample).0.wf(),
{
}

} // verus!
