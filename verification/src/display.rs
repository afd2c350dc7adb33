//! The serial display protocol: single-byte commands, their parameter bytes,
//! and the pixel stream that follows a memory-write command.
//!
//! Nothing here touches a wire. Every operation is compiled to the ordered
//! list of [`DisplayOp`]s that must be performed, one after the other, by
//! whoever owns the serial bus and the three control lines.

use vstd::prelude::*;
use crate::pixel::{big_endian, channels, color_channels, rgb565_to_rgb888, split_bytes, widen, Rgb888};

verus! {

/// The level of an active-low control line, named by its effect.
#[derive(Clone, Copy, Debug, PartialEq, Eq, Structural)]
pub enum PinState {
    Enable,
    Disable,
}

/// What the display takes the next byte for.
#[derive(Clone, Copy, Debug, PartialEq, Eq, Structural)]
pub enum ControlMode {
    Data,
    Command,
}

/// One thing to do on the display's lines.
#[derive(Clone, Copy, Debug, PartialEq, Eq, Structural)]
pub enum DisplayOp {
    /// Assert (`Enable`) or release (`Disable`) chip-select.
    ChipSelect(PinState),
    /// Set the register-select line for the bytes that follow.
    RegisterSelect(ControlMode),
    /// Assert (`Enable`) or release (`Disable`) the hardware reset line.
    Reset(PinState),
    /// Shift one byte out on the serial bus.
    Write(u8),
    /// Do nothing for this many milliseconds.
    Settle(u32),
}

/// An addressing rectangle, both corners included.
#[derive(Clone, Copy, Debug, PartialEq, Eq, Structural)]
pub struct DisplayWindow {
    pub x0: u16,
    pub x1: u16,
    pub y0: u16,
    pub y1: u16,
}

/// No operation; the controller wants one before every drawing sequence.
pub const NOP: u8 = 0x00;

/// Software reset.
pub const SWRESET: u8 = 0x01;

/// Leave sleep mode.
pub const SLPOUT: u8 = 0x11;

/// Switch the panel on.
pub const DISPON: u8 = 0x29;

/// Column address set.
pub const CASET: u8 = 0x2A;

/// Row address set.
pub const RASET: u8 = 0x2B;

/// Memory write: the bytes that follow are pixels.
pub const RAMWR: u8 = 0x2C;

/// How long the controller needs after a reset edge or a power command.
pub const SETTLE_MS: u32 = 120;

/// The colour of a fill that names none.
pub const WHITE: u32 = 0xFFFFFF;

/// The largest extent that a 16-bit address can span.
pub const MAX_EXTENT: u32 = 0x10000;

impl DisplayWindow {
    /// The rectangle is not empty and lies on a panel of this size.
    pub open spec fn within(&self, width: u32, height: u32) -> bool {
        self.x0 <= self.x1 < width && self.y0 <= self.y1 < height
    }
}

/// A command byte, preceded by the switch to command mode.
pub open spec fn command_ops(command: u8) -> Seq<DisplayOp> {
    seq![DisplayOp::RegisterSelect(ControlMode::Command), DisplayOp::Write(command)]
}

/// The bytes, one write each, in order.
pub open spec fn write_ops(bytes: Seq<u8>) -> Seq<DisplayOp> {
    Seq::new(bytes.len(), |i: int| DisplayOp::Write(bytes[i]))
}

/// Parameter or pixel bytes, preceded by the switch to data mode.
pub open spec fn data_ops(bytes: Seq<u8>) -> Seq<DisplayOp> {
    seq![DisplayOp::RegisterSelect(ControlMode::Data)] + write_ops(bytes)
}

/// An address range as the controller reads it: two 16-bit values, each
/// most significant byte first.
pub open spec fn range_bytes(first: u16, last: u16) -> Seq<u8> {
    seq![split_bytes(first).0, split_bytes(first).1, split_bytes(last).0, split_bytes(last).1]
}

/// Column range, then row range, each a command with four parameter bytes.
pub open spec fn window_ops(window: DisplayWindow) -> Seq<DisplayOp> {
    command_ops(CASET) + data_ops(range_bytes(window.x0, window.x1)) + command_ops(RASET)
        + data_ops(range_bytes(window.y0, window.y1))
}

/// Three bytes for each pixel: red, green, blue.
pub open spec fn pixel_bytes(pixels: Seq<Rgb888>) -> Seq<u8> {
    Seq::new(
        3 * pixels.len(),
        |k: int|
            if k % 3 == 0 {
                pixels[k / 3].red
            } else if k % 3 == 1 {
                pixels[k / 3].green
            } else {
                pixels[k / 3].blue
            },
    )
}

/// What comes before the pixels of a drawing operation: chip-select, the
/// no-op, the window, and the memory-write command.
pub open spec fn draw_prologue(window: DisplayWindow) -> Seq<DisplayOp> {
    seq![DisplayOp::ChipSelect(PinState::Enable)] + command_ops(NOP) + window_ops(window)
        + command_ops(RAMWR)
}

/// What comes after the pixels: back to command mode, chip-select released.
pub open spec fn draw_epilogue() -> Seq<DisplayOp> {
    seq![
        DisplayOp::RegisterSelect(ControlMode::Command),
        DisplayOp::ChipSelect(PinState::Disable),
    ]
}

/// One whole drawing operation.
pub open spec fn draw_ops(window: DisplayWindow, pixels: Seq<Rgb888>) -> Seq<DisplayOp> {
    draw_prologue(window) + data_ops(pixel_bytes(pixels)) + draw_epilogue()
}

/// `count` pixels of one colour.
pub open spec fn solid(count: nat, rgb: Rgb888) -> Seq<Rgb888> {
    Seq::new(count, |i: int| rgb)
}

/// The first `count` pixel codes of a captured row, widened.
pub open spec fn widened(codes: Seq<u16>, count: nat) -> Seq<Rgb888> {
    Seq::new(count, |i: int| widen(codes[i]))
}

/// Everything of a power-up sequence that precedes the clearing fill.
pub open spec fn power_up_ops() -> Seq<DisplayOp> {
    seq![
        DisplayOp::ChipSelect(PinState::Disable),
        DisplayOp::Reset(PinState::Enable),
        DisplayOp::Settle(SETTLE_MS),
        DisplayOp::Reset(PinState::Disable),
        DisplayOp::Settle(SETTLE_MS),
        DisplayOp::ChipSelect(PinState::Enable),
    ] + command_ops(SWRESET) + seq![DisplayOp::Settle(SETTLE_MS)] + command_ops(SLPOUT)
        + seq![DisplayOp::Settle(SETTLE_MS)] + command_ops(DISPON) + seq![
        DisplayOp::Settle(SETTLE_MS),
    ]
}

/// A display that is driven by lists of operations.
pub trait Display {
    /// What must hold of the display's description before it is driven.
    spec fn wf(&self) -> bool;

    /// The operations of [`Display::calibrate`].
    spec fn calibrate_ops(&self) -> Seq<DisplayOp>;

    /// The operations of [`Display::fill`].
    spec fn fill_ops(&self, color: Option<u32>) -> Seq<DisplayOp>;

    /// The operations of [`Display::draw_row`].
    spec fn draw_row_ops(&self, row: u32, buf: Seq<u16>) -> Seq<DisplayOp>;

    /// Set up and switch on the display.
    fn calibrate(&self) -> (ops: Vec<DisplayOp>)
        requires
            self.wf(),
        ensures
            ops@ == self.calibrate_ops(),
    ;

    /// Fill the display with one `0xRRGGBB` colour, white if none is given.
    fn fill(&self, color: Option<u32>) -> (ops: Vec<DisplayOp>)
        requires
            self.wf(),
        ensures
            ops@ == self.fill_ops(color),
    ;

    /// Draw one captured row of packed 5/6/5 pixel codes.
    fn draw_row(&self, row: u32, buf: &[u16]) -> (ops: Vec<DisplayOp>)
        requires
            self.wf(),
        ensures
            ops@ == self.draw_row_ops(row, buf@),
    ;
}

/// A panel behind an ST7735 controller, `width` columns by `height` rows.
#[derive(Clone, Copy, Debug, PartialEq, Eq)]
pub struct ST7735 {
    width: u32,
    height: u32,
}

fn push_command(out: &mut Vec<DisplayOp>, command: u8)
    ensures
        final(out)@ == old(out)@ + command_ops(command),
{
    out.push(DisplayOp::RegisterSelect(ControlMode::Command));
    out.push(DisplayOp::Write(command));
    assert(out@ =~= old(out)@ + command_ops(command));
}

fn push_data(out: &mut Vec<DisplayOp>, bytes: &[u8])
    ensures
        final(out)@ == old(out)@ + data_ops(bytes@),
{
    out.push(DisplayOp::RegisterSelect(ControlMode::Data));
    let mut i: usize = 0;
    while i < bytes.len()
        invariant
            i <= bytes.len(),
            out@ == old(out)@ + data_ops(bytes@.take(i as int)),
        decreases bytes.len() - i,
    {
        out.push(DisplayOp::Write(bytes[i]));
        i += 1;
        assert(out@ =~= old(out)@ + data_ops(bytes@.take(i as int)));
    }
    assert(bytes@.take(i as int) =~= bytes@);
}

fn push_range(out: &mut Vec<DisplayOp>, first: u16, last: u16)
    ensures
        final(out)@ == old(out)@ + data_ops(range_bytes(first, last)),
{
    let low = big_endian(first);
    let high = big_endian(last);
    out.push(DisplayOp::RegisterSelect(ControlMode::Data));
    out.push(DisplayOp::Write(low.0));
    out.push(DisplayOp::Write(low.1));
    out.push(DisplayOp::Write(high.0));
    out.push(DisplayOp::Write(high.1));
    assert(out@ =~= old(out)@ + data_ops(range_bytes(first, last)));
}

fn push_window(out: &mut Vec<DisplayOp>, window: DisplayWindow)
    ensures
        final(out)@ == old(out)@ + window_ops(window),
{
    push_command(out, CASET);
    push_range(out, window.x0, window.x1);
    push_command(out, RASET);
    push_range(out, window.y0, window.y1);
    assert(out@ =~= old(out)@ + window_ops(window));
}

fn push_prologue(out: &mut Vec<DisplayOp>, window: DisplayWindow)
    ensures
        final(out)@ == old(out)@ + draw_prologue(window),
{
    out.push(DisplayOp::ChipSelect(PinState::Enable));
    push_command(out, NOP);
    push_window(out, window);
    push_command(out, RAMWR);
    assert(out@ =~= old(out)@ + draw_prologue(window));
}

fn push_pixel(out: &mut Vec<DisplayOp>, rgb: Rgb888)
    ensures
        final(out)@ == old(out)@ + write_ops(pixel_bytes(seq![rgb])),
{
    out.push(DisplayOp::Write(rgb.red));
    out.push(DisplayOp::Write(rgb.green));
    out.push(DisplayOp::Write(rgb.blue));
    assert(out@ =~= old(out)@ + write_ops(pixel_bytes(seq![rgb])));
}

fn push_epilogue(out: &mut Vec<DisplayOp>)
    ensures
        final(out)@ == old(out)@ + draw_epilogue(),
{
    out.push(DisplayOp::RegisterSelect(ControlMode::Command));
    out.push(DisplayOp::ChipSelect(PinState::Disable));
    assert(out@ =~= old(out)@ + draw_epilogue());
}

/// A pixel stream grows by the three bytes of the pixel that is added.
proof fn lemma_stream_grows(pixels: Seq<Rgb888>, rgb: Rgb888)
    ensures
        data_ops(pixel_bytes(pixels.push(rgb))) == data_ops(pixel_bytes(pixels)) + write_ops(
            pixel_bytes(seq![rgb]),
        ),
{
    assert(data_ops(pixel_bytes(pixels.push(rgb))) =~= data_ops(pixel_bytes(pixels)) + write_ops(
        pixel_bytes(seq![rgb]),
    ));
}

impl ST7735 {
    /// The number of columns.
    pub closed spec fn spec_width(&self) -> u32 {
        self.width
    }

    /// The number of rows.
    pub closed spec fn spec_height(&self) -> u32 {
        self.height
    }

    /// The window that covers the whole panel.
    pub open spec fn full_window(&self) -> DisplayWindow {
        DisplayWindow {
            x0: 0,
            x1: (self.width() - 1) as u16,
            y0: 0,
            y1: (self.height() - 1) as u16,
        }
    }

    /// How many pixels of a captured row are drawn: the row is cut at the
    /// panel's width.
    pub open spec fn row_length(&self, available: nat) -> nat {
        if available < self.width() {
            available
        } else {
            self.width() as nat
        }
    }

    /// The axis swap. Sensor and panel are mounted a quarter turn apart, so
    /// a captured row lies along one panel column: the row's index is the
    /// column address and its pixels span the rows from the top. There is
    /// no window where the row is empty or would leave the panel.
    pub open spec fn row_window_spec(&self, row: u32, available: nat) -> Option<DisplayWindow> {
        let length = self.row_length(available);
        if row < self.width() && 1 <= length <= self.height() {
            Some(DisplayWindow { x0: row as u16, x1: row as u16, y0: 0, y1: (length - 1) as u16 })
        } else {
            None
        }
    }

    /// Describes a panel of `width` by `height` pixels. Both must be at
    /// least 1 and small enough for 16-bit addresses.
    pub fn new(width: u32, height: u32) -> (display: Option<ST7735>)
        ensures
            display is Some <==> 1 <= width <= MAX_EXTENT && 1 <= height <= MAX_EXTENT,
            display is Some ==> display.unwrap().wf() && display.unwrap().width() == width
                && display.unwrap().height() == height,
    {
        if 1 <= width && width <= MAX_EXTENT && 1 <= height && height <= MAX_EXTENT {
            Some(ST7735 { width, height })
        } else {
            None
        }
    }

    /// The number of columns.
    #[verifier::when_used_as_spec(spec_width)]
    pub fn width(&self) -> (width: u32)
        ensures
            width == self.spec_width(),
    {
        self.width
    }

    /// The number of rows.
    #[verifier::when_used_as_spec(spec_height)]
    pub fn height(&self) -> (height: u32)
        ensures
            height == self.spec_height(),
    {
        self.height
    }

    /// Sends one command byte.
    pub fn write_command(&self, command: u8) -> (ops: Vec<DisplayOp>)
        ensures
            ops@ == command_ops(command),
    {
        let mut ops: Vec<DisplayOp> = Vec::new();
        push_command(&mut ops, command);
        assert(ops@ =~= command_ops(command));
        ops
    }

    /// Sends data bytes: parameters of the last command, or pixels.
    pub fn write_data(&self, bytes: &[u8]) -> (ops: Vec<DisplayOp>)
        ensures
            ops@ == data_ops(bytes@),
    {
        let mut ops: Vec<DisplayOp> = Vec::new();
        push_data(&mut ops, bytes);
        assert(ops@ =~= data_ops(bytes@));
        ops
    }

    /// Sets the addressing window to the columns `x0..=x1` and the rows
    /// `y0..=y1`, or does nothing where that rectangle is empty or not on
    /// the panel.
    pub fn set_window(&self, x0: u16, x1: u16, y0: u16, y1: u16) -> (ops: Option<Vec<DisplayOp>>)
        requires
            self.wf(),
        ensures
            ops is Some <==> (DisplayWindow { x0, x1, y0, y1 }).within(self.width(), self.height()),
            ops is Some ==> ops.unwrap()@ == window_ops(DisplayWindow { x0, x1, y0, y1 }),
    {
        if x0 <= x1 && (x1 as u32) < self.width && y0 <= y1 && (y1 as u32) < self.height {
            let mut ops: Vec<DisplayOp> = Vec::new();
            push_window(&mut ops, DisplayWindow { x0, x1, y0, y1 });
            assert(ops@ =~= window_ops(DisplayWindow { x0, x1, y0, y1 }));
            Some(ops)
        } else {
            None
        }
    }

    /// The window of one captured row of `available` pixel codes; see
    /// [`ST7735::row_window_spec`].
    pub fn row_window(&self, row: u32, available: usize) -> (window: Option<DisplayWindow>)
        requires
            self.wf(),
        ensures
            window == self.row_window_spec(row, available as nat),
            window is Some ==> window.unwrap().within(self.width(), self.height()),
    {
        let length: usize = if available < self.width as usize {
            available
        } else {
            self.width as usize
        };
        if row < self.width && 1 <= length && length <= self.height as usize {
            Some(DisplayWindow { x0: row as u16, x1: row as u16, y0: 0, y1: (length - 1) as u16 })
        } else {
            None
        }
    }
}

impl Display for ST7735 {
    open spec fn wf(&self) -> bool {
        1 <= self.width() <= MAX_EXTENT && 1 <= self.height() <= MAX_EXTENT
    }

    open spec fn calibrate_ops(&self) -> Seq<DisplayOp> {
        power_up_ops() + self.fill_ops(None)
    }

    open spec fn fill_ops(&self, color: Option<u32>) -> Seq<DisplayOp> {
        let rgb = channels(
            match color {
                Some(c) => c,
                None => WHITE,
            },
        );
        draw_ops(self.full_window(), solid((self.width() * self.height()) as nat, rgb))
    }

    open spec fn draw_row_ops(&self, row: u32, buf: Seq<u16>) -> Seq<DisplayOp> {
        match self.row_window_spec(row, buf.len()) {
            Some(window) => draw_ops(window, widened(buf, self.row_length(buf.len()))),
            None => Seq::empty(),
        }
    }

    fn calibrate(&self) -> (ops: Vec<DisplayOp>) {
        let mut ops: Vec<DisplayOp> = Vec::new();
        ops.push(DisplayOp::ChipSelect(PinState::Disable));
        ops.push(DisplayOp::Reset(PinState::Enable));
        ops.push(DisplayOp::Settle(SETTLE_MS));
        ops.push(DisplayOp::Reset(PinState::Disable));
        ops.push(DisplayOp::Settle(SETTLE_MS));
        ops.push(DisplayOp::ChipSelect(PinState::Enable));
        push_command(&mut ops, SWRESET);
        ops.push(DisplayOp::Settle(SETTLE_MS));
        push_command(&mut ops, SLPOUT);
        ops.push(DisplayOp::Settle(SETTLE_MS));
        push_command(&mut ops, DISPON);
        ops.push(DisplayOp::Settle(SETTLE_MS));
        assert(ops@ =~= power_up_ops());
        let mut clear = self.fill(None);
        ops.append(&mut clear);
        ops
    }

    fn fill(&self, color: Option<u32>) -> (ops: Vec<DisplayOp>) {
        let rgb = color_channels(
            match color {
                Some(c) => c,
                None => WHITE,
            },
        );
        let window = DisplayWindow {
            x0: 0,
            x1: (self.width - 1) as u16,
            y0: 0,
            y1: (self.height - 1) as u16,
        };
        let mut ops: Vec<DisplayOp> = Vec::new();
        push_prologue(&mut ops, window);
        ops.push(DisplayOp::RegisterSelect(ControlMode::Data));
        assert(self.width * self.height <= 0x1_0000_0000) by (nonlinear_arith)
            requires
                self.width <= 0x10000,
                self.height <= 0x10000,
        ;
        let total: u64 = self.width as u64 * self.height as u64;
        assert(ops@ =~= draw_prologue(window) + data_ops(pixel_bytes(solid(0, rgb))));
        let mut sent: u64 = 0;
        while sent < total
            invariant
                sent <= total,
                ops@ == draw_prologue(window) + data_ops(pixel_bytes(solid(sent as nat, rgb))),
            decreases total - sent,
        {
            push_pixel(&mut ops, rgb);
            proof {
                lemma_stream_grows(solid(sent as nat, rgb), rgb);
                assert(solid(sent as nat, rgb).push(rgb) =~= solid((sent + 1) as nat, rgb));
            }
            sent += 1;
        }
        push_epilogue(&mut ops);
        ops
    }

    fn draw_row(&self, row: u32, buf: &[u16]) -> (ops: Vec<DisplayOp>) {
        let mut ops: Vec<DisplayOp> = Vec::new();
        match self.row_window(row, buf.len()) {
            None => {},
            Some(window) => {
                let length: usize = window.y1 as usize + 1;
                push_prologue(&mut ops, window);
                ops.push(DisplayOp::RegisterSelect(ControlMode::Data));
                assert(ops@ =~= draw_prologue(window) + data_ops(pixel_bytes(widened(buf@, 0))));
                let mut sent: usize = 0;
                while sent < length
                    invariant
                        sent <= length <= buf.len(),
                        ops@ == draw_prologue(window) + data_ops(
                            pixel_bytes(widened(buf@, sent as nat)),
                        ),
                    decreases length - sent,
                {
                    let rgb = rgb565_to_rgb888(buf[sent]);
                    push_pixel(&mut ops, rgb);
                    proof {
                        lemma_stream_grows(widened(buf@, sent as nat), rgb);
                        assert(widened(buf@, sent as nat).push(rgb) =~= widened(
                            buf@,
                            (sent + 1) as nat,
                        ));
                    }
                    sent += 1;
                }
                push_epilogue(&mut ops);
            },
        }
        ops
    }
}

} // verus!
