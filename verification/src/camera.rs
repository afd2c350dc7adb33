//! The camera: an OV7670 sensor that is configured over the two-wire bus
//! and read out, row by row, to the display.

use vstd::prelude::*;
use crate::capture::{
    lemma_run_geometry, lemma_run_stays_over, CaptureEvent, CapturePhase, CaptureRun, CaptureState,
    FrameCapture, FrameError, LineSample,
};
use crate::display::{
    pixel_bytes, widened, ControlMode, Display, DisplayOp, CASET, NOP, RAMWR, RASET, ST7735,
};
use crate::panel::{
    lemma_draw_row_reading, lemma_reading_concat, reading, window_bytes, Reading,
};
use crate::profile::{profile, profile_steps, ProfileStep};
use crate::signal::{
    frame_signal, lemma_frame_is_captured, lemma_oversampled_concat, lemma_wrong_row_is_desync,
};

verus! {

/// The address of the sensor on the two-wire bus.
pub const SENSOR_ADDRESS: u8 = 0x21;

/// The pixels in a row of the configured mode.
pub const FRAME_WIDTH: u32 = 160;

/// The rows that are taken of every frame. The configured mode sends more;
/// the rest of the frame is left alone.
pub const FRAME_ROWS: u32 = 80;

/// The operations that draw the first `count` rows of a frame, each on the
/// display column of its index.
pub open spec fn rows_ops(display: ST7735, rows: Seq<Seq<u16>>, count: nat) -> Seq<DisplayOp>
    decreases count,
{
    if count == 0 {
        Seq::empty()
    } else {
        rows_ops(display, rows, (count - 1) as nat) + display.draw_row_ops(
            (count - 1) as u32,
            rows[count - 1],
        )
    }
}

/// A camera that is driven by a list of register steps and read out from
/// samples of its lines.
pub trait Camera {
    /// The steps of [`Camera::calibrate`].
    spec fn calibrate_steps(&self) -> Seq<ProfileStep>;

    /// The rows that [`Camera::draw_frame`] takes from the samples, and how
    /// the frame ends.
    spec fn frame_run(&self, signals: Seq<LineSample>) -> CaptureRun;

    /// Set up and turn on the camera.
    fn calibrate(&self) -> (steps: Vec<ProfileStep>)
        ensures
            steps@ == self.calibrate_steps(),
    ;

    /// Capture the next frame from samples of the camera's lines and draw
    /// it on the display: every row is handed over as soon as it is
    /// complete. Returns the operations that draw the rows that were
    /// completed, and whether the frame was.
    fn draw_frame(&self, display: &ST7735, signals: &[LineSample]) -> (drawn: (
        Vec<DisplayOp>,
        Result<(), FrameError>,
    ))
        requires
            display.wf(),
        ensures
            drawn.0@ == rows_ops(
                *display,
                self.frame_run(signals@).rows,
                self.frame_run(signals@).rows.len(),
            ),
            drawn.1 == match self.frame_run(signals@).result() {
                Ok(_) => Ok::<(), FrameError>(()),
                Err(error) => Err(error),
            },
    ;
}

/// An OV7670 sensor in its downsampled 5/6/5 mode.
#[derive(Clone, Copy, Debug, PartialEq, Eq)]
pub struct OV7670 {
    poll_limit: u32,
    verify: bool,
}

impl OV7670 {
    /// The polls that every wait is allowed.
    pub closed spec fn spec_poll_limit(&self) -> u32 {
        self.poll_limit
    }

    /// Whether calibration reads every mode register back.
    pub closed spec fn spec_verify(&self) -> bool {
        self.verify
    }

    /// The state of a capture of this camera's frames that has seen
    /// nothing.
    pub open spec fn capture_start(&self) -> CaptureState {
        CaptureState::start(FRAME_WIDTH, FRAME_ROWS, self.poll_limit())
    }

    /// Describes a sensor whose waits, on the bus and on the video lines,
    /// are each allowed `poll_limit` polls, and whose mode registers are
    /// read back after calibration if `verify` is set.
    pub fn new(poll_limit: u32, verify: bool) -> (camera: OV7670)
        ensures
            camera.poll_limit() == poll_limit,
            camera.verify() == verify,
    {
        OV7670 { poll_limit, verify }
    }

    /// The polls that every wait is allowed.
    #[verifier::when_used_as_spec(spec_poll_limit)]
    pub fn poll_limit(&self) -> (limit: u32)
        ensures
            limit == self.spec_poll_limit(),
    {
        self.poll_limit
    }

    /// Whether calibration reads every mode register back.
    #[verifier::when_used_as_spec(spec_verify)]
    pub fn verify(&self) -> (verify: bool)
        ensures
            verify == self.spec_verify(),
    {
        self.verify
    }

    /// A capture of this camera's frames that has seen nothing.
    pub fn capture(&self) -> (capture: FrameCapture)
        ensures
            capture@ == self.capture_start(),
            capture@.wf(),
    {
        FrameCapture::new(FRAME_WIDTH, FRAME_ROWS, self.poll_limit).unwrap()
    }
}

impl Camera for OV7670 {
    open spec fn calibrate_steps(&self) -> Seq<ProfileStep> {
        profile_steps(self.verify())
    }

    open spec fn frame_run(&self, signals: Seq<LineSample>) -> CaptureRun {
        CaptureRun::begin(self.capture_start()).feed(signals)
    }

    fn calibrate(&self) -> (steps: Vec<ProfileStep>) {
        profile(self.verify)
    }

    fn draw_frame(&self, display: &ST7735, signals: &[LineSample]) -> (drawn: (
        Vec<DisplayOp>,
        Result<(), FrameError>,
    )) {
        let mut capture = self.capture();
        let ghost begin = CaptureRun::begin(capture@);
        let ghost mut rows: Seq<Seq<u16>> = Seq::empty();
        let mut ops: Vec<DisplayOp> = Vec::new();
        let mut i: usize = 0;
        assert(signals@.take(0) =~= Seq::<LineSample>::empty());
        while i < signals.len()
            invariant
                i <= signals.len(),
                display.wf(),
                capture@.wf(),
                begin == self.frame_run(Seq::empty()),
                begin.feed(signals@.take(i as int)) == (CaptureRun {
                    machine: capture@,
                    rows,
                    error: None,
                }),
                capture@.phase != CapturePhase::EndOfFrame,
                ops@ == rows_ops(*display, rows, rows.len()),
            decreases signals.len() - i,
        {
            proof {
                assert(signals@.take(i + 1).drop_last() =~= signals@.take(i as int));
            }
            let event = capture.poll(signals[i]);
            i += 1;
            match event {
                CaptureEvent::Row(index) => {
                    proof {
                        lemma_run_geometry(self.capture_start(), signals@.take(i as int));
                        let longer = rows.push(capture@.buffer);
                        assert(longer.drop_last() =~= rows);
                        lemma_rows_ops_ignore_later(*display, rows, longer, rows.len());
                        rows = longer;
                    }
                    let mut row = display.draw_row(index, capture.row().as_slice());
                    ops.append(&mut row);
                },
                CaptureEvent::Failed(error) => {
                    proof {
                        lemma_run_stays_over(begin, signals@, i as int);
                    }
                    return (ops, Err(error));
                },
                _ => {},
            }
            match capture.phase() {
                CapturePhase::EndOfFrame => {
                    proof {
                        lemma_run_stays_over(begin, signals@, i as int);
                    }
                    return (ops, Ok(()));
                },
                _ => {},
            }
        }
        assert(signals@.take(i as int) =~= signals@);
        (ops, Err(FrameError::Timeout))
    }
}

/// The operations that draw the first rows do not depend on the rows after
/// them.
proof fn lemma_rows_ops_ignore_later(
    display: ST7735,
    rows: Seq<Seq<u16>>,
    longer: Seq<Seq<u16>>,
    count: nat,
)
    requires
        count <= rows.len() <= longer.len(),
        forall|r: int| 0 <= r < count ==> rows[r] == longer[r],
    ensures
        rows_ops(display, rows, count) == rows_ops(display, longer, count),
    decreases count,
{
    if count > 0 {
        lemma_rows_ops_ignore_later(display, rows, longer, (count - 1) as nat);
    }
}

/// What the sensor sends is what the display is told to draw: from the
/// samples of a frame of the camera's geometry, `draw_frame` produces the
/// drawing operations of every row of that frame, in order, each on the
/// display column of the row's index.
pub proof fn lemma_frame_is_drawn(camera: OV7670, display: ST7735, frame: Seq<Seq<u16>>)
    requires
        camera.poll_limit() >= 1,
        frame.len() == FRAME_ROWS,
        forall|r: int| 0 <= r < frame.len() ==> (#[trigger] frame[r]).len() == FRAME_WIDTH,
    ensures
        camera.frame_run(frame_signal(frame)).rows == frame,
        camera.frame_run(frame_signal(frame)).result() is Ok,
        rows_ops(
            display,
            camera.frame_run(frame_signal(frame)).rows,
            camera.frame_run(frame_signal(frame)).rows.len(),
        ) == rows_ops(display, frame, FRAME_ROWS as nat),
{
    lemma_frame_is_captured(camera.capture_start(), frame);
}

/// A frame that loses its synchronisation is drawn up to the row that went
/// wrong, and no further.
pub proof fn lemma_desync_stops_drawing(
    camera: OV7670,
    display: ST7735,
    frame: Seq<Seq<u16>>,
    bad: int,
)
    requires
        camera.poll_limit() >= 1,
        frame.len() == FRAME_ROWS,
        0 <= bad < frame.len(),
        forall|r: int| 0 <= r < bad ==> (#[trigger] frame[r]).len() == FRAME_WIDTH,
        frame[bad].len() != FRAME_WIDTH,
        1 <= frame[bad].len() <= u32::MAX,
    ensures
        camera.frame_run(frame_signal(frame)).rows == frame.take(bad),
        camera.frame_run(frame_signal(frame)).result() == Err::<Seq<Seq<u16>>, FrameError>(
            FrameError::Desync { row: bad as u32, pixels: frame[bad].len() as u32 },
        ),
        rows_ops(
            display,
            camera.frame_run(frame_signal(frame)).rows,
            camera.frame_run(frame_signal(frame)).rows.len(),
        ) == rows_ops(display, frame, bad as nat),
{
    lemma_wrong_row_is_desync(camera.capture_start(), frame, bad, 1);
    lemma_oversampled_concat(frame_signal(frame), Seq::empty(), 1);
    lemma_rows_ops_ignore_later(display, frame.take(bad), frame, bad as nat);
}

/// The data bytes that the first `count` rows of a frame put on the
/// display's wire: for every row the window of its column, and after it
/// the widened pixel codes that fit the panel.
pub open spec fn rows_data(display: ST7735, rows: Seq<Seq<u16>>, count: nat) -> Seq<u8>
    decreases count,
{
    if count == 0 {
        Seq::empty()
    } else {
        let row = (count - 1) as u32;
        let codes = rows[count - 1];
        rows_data(display, rows, (count - 1) as nat) + window_bytes(
            display.row_window_spec(row, codes.len()).unwrap(),
        ) + pixel_bytes(widened(codes, display.row_length(codes.len())))
    }
}

/// The command bytes of `count` drawing operations.
pub open spec fn rows_commands(count: nat) -> Seq<u8>
    decreases count,
{
    if count == 0 {
        Seq::empty()
    } else {
        rows_commands((count - 1) as nat) + seq![NOP, CASET, RASET, RAMWR]
    }
}

/// From the sensor's wire to the display's: the drawing operations of a
/// frame deliver, row after row, the column window of the row's index and
/// the row's pixel codes, each widened to its triple. Every row is one
/// drawing operation with its own assertion of chip-select.
pub proof fn lemma_rows_reading(
    display: ST7735,
    rows: Seq<Seq<u16>>,
    count: nat,
    mode: ControlMode,
)
    requires
        display.wf(),
        count <= rows.len(),
        count <= display.width(),
        forall|r: int|
            0 <= r < count ==> 1 <= display.row_length((#[trigger] rows[r]).len())
                <= display.height(),
    ensures
        reading(rows_ops(display, rows, count), mode) == (Reading {
            commands: rows_commands(count),
            data: rows_data(display, rows, count),
            mode: if count == 0 {
                mode
            } else {
                ControlMode::Command
            },
            asserted: count,
            released: count,
        }),
    decreases count,
{
    if count == 0 {
        let seen = reading(rows_ops(display, rows, count), mode);
        assert(seen.commands =~= rows_commands(0));
        assert(seen.data =~= rows_data(display, rows, 0));
    } else {
        let before = (count - 1) as nat;
        let row = before as u32;
        let codes = rows[count - 1];
        let earlier = rows_ops(display, rows, before);
        lemma_rows_reading(display, rows, before, mode);
        lemma_reading_concat(earlier, display.draw_row_ops(row, codes), mode);
        lemma_draw_row_reading(display, row, codes, reading(earlier, mode).mode);
        let seen = reading(rows_ops(display, rows, count), mode);
        assert(seen.commands =~= rows_commands(count));
        assert(seen.data =~= rows_data(display, rows, count));
    }
}

} // verus!
