//! The panel's side of the wire: what a list of operations delivers to the
//! controller, and what that is for each operation of the driver.

use vstd::prelude::*;
use crate::display::{
    command_ops, data_ops, draw_epilogue, draw_ops, pixel_bytes, power_up_ops, range_bytes, solid,
    widened, window_ops, write_ops, ControlMode, Display, DisplayOp, DisplayWindow, PinState,
    CASET, DISPON, NOP, RAMWR, RASET, SETTLE_MS, SLPOUT, ST7735, SWRESET, WHITE,
};
use crate::pixel::{channels, Rgb888};

verus! {

/// The state of the register-select line after `ops`, where it was `mode`
/// before them.
pub open spec fn mode_after(ops: Seq<DisplayOp>, mode: ControlMode) -> ControlMode
    decreases ops.len(),
{
    if ops.len() == 0 {
        mode
    } else {
        match ops.last() {
            DisplayOp::RegisterSelect(selected) => selected,
            _ => mode_after(ops.drop_last(), mode),
        }
    }
}

/// The bytes that `ops` write while the register-select line is in
/// `target`, in order, where the line was in `mode` before them.
pub open spec fn delivered(ops: Seq<DisplayOp>, target: ControlMode, mode: ControlMode) -> Seq<u8>
    decreases ops.len(),
{
    if ops.len() == 0 {
        Seq::empty()
    } else {
        let earlier = delivered(ops.drop_last(), target, mode);
        match ops.last() {
            DisplayOp::Write(byte) => if mode_after(ops.drop_last(), mode) == target {
                earlier.push(byte)
            } else {
                earlier
            },
            _ => earlier,
        }
    }
}

/// How often `ops` put the chip-select line in `state`.
pub open spec fn selects(ops: Seq<DisplayOp>, state: PinState) -> nat
    decreases ops.len(),
{
    if ops.len() == 0 {
        0
    } else {
        selects(ops.drop_last(), state) + if ops.last() == DisplayOp::ChipSelect(state) {
            1nat
        } else {
            0nat
        }
    }
}

/// How often `wanted` occurs among `bytes`.
pub open spec fn occurrences(bytes: Seq<u8>, wanted: u8) -> nat
    decreases bytes.len(),
{
    if bytes.len() == 0 {
        0
    } else {
        occurrences(bytes.drop_last(), wanted) + if bytes.last() == wanted {
            1nat
        } else {
            0nat
        }
    }
}

/// Reads a list of operations as the controller does and returns the bytes
/// that arrive in `target` mode. `mode` is the state of the register-select
/// line before the first operation.
pub fn received(ops: &[DisplayOp], target: ControlMode, mode: ControlMode) -> (bytes: Vec<u8>)
    ensures
        bytes@ == delivered(ops@, target, mode),
{
    let mut bytes: Vec<u8> = Vec::new();
    let mut current = mode;
    let mut i: usize = 0;
    while i < ops.len()
        invariant
            i <= ops.len(),
            current == mode_after(ops@.take(i as int), mode),
            bytes@ == delivered(ops@.take(i as int), target, mode),
        decreases ops.len() - i,
    {
        assert(ops@.take(i + 1).drop_last() =~= ops@.take(i as int));
        match ops[i] {
            DisplayOp::RegisterSelect(selected) => {
                current = selected;
            },
            DisplayOp::Write(byte) => {
                if current == target {
                    bytes.push(byte);
                }
            },
            _ => {},
        }
        i += 1;
    }
    assert(ops@.take(i as int) =~= ops@);
    bytes
}

/// Counts how often a list of operations puts the chip-select line in
/// `state`.
pub fn chip_selects(ops: &[DisplayOp], state: PinState) -> (count: usize)
    ensures
        count == selects(ops@, state),
{
    let mut count: usize = 0;
    let mut i: usize = 0;
    while i < ops.len()
        invariant
            i <= ops.len(),
            count <= i,
            count == selects(ops@.take(i as int), state),
        decreases ops.len() - i,
    {
        assert(ops@.take(i + 1).drop_last() =~= ops@.take(i as int));
        match ops[i] {
            DisplayOp::ChipSelect(level) => {
                if level == state {
                    count += 1;
                }
            },
            _ => {},
        }
        i += 1;
    }
    assert(ops@.take(i as int) =~= ops@);
    count
}

/// What the controller has seen of a list of operations.
pub struct Reading {
    /// The bytes that arrived in command mode.
    pub commands: Seq<u8>,
    /// The bytes that arrived in data mode.
    pub data: Seq<u8>,
    /// The state in which the register-select line is left.
    pub mode: ControlMode,
    /// How often chip-select was asserted.
    pub asserted: nat,
    /// How often chip-select was released.
    pub released: nat,
}

/// What the controller sees of `ops`, where the register-select line was in
/// `mode` before them.
pub open spec fn reading(ops: Seq<DisplayOp>, mode: ControlMode) -> Reading {
    Reading {
        commands: delivered(ops, ControlMode::Command, mode),
        data: delivered(ops, ControlMode::Data, mode),
        mode: mode_after(ops, mode),
        asserted: selects(ops, PinState::Enable),
        released: selects(ops, PinState::Disable),
    }
}

impl Reading {
    /// This reading, continued by a later one.
    pub open spec fn followed_by(self, later: Reading) -> Reading {
        Reading {
            commands: self.commands + later.commands,
            data: self.data + later.data,
            mode: later.mode,
            asserted: self.asserted + later.asserted,
            released: self.released + later.released,
        }
    }
}

proof fn lemma_delivered_concat(
    first: Seq<DisplayOp>,
    second: Seq<DisplayOp>,
    target: ControlMode,
    mode: ControlMode,
)
    ensures
        mode_after(first + second, mode) == mode_after(second, mode_after(first, mode)),
        delivered(first + second, target, mode) == delivered(first, target, mode) + delivered(
            second,
            target,
            mode_after(first, mode),
        ),
    decreases second.len(),
{
    if second.len() == 0 {
        assert(first + second =~= first);
        assert(delivered(first, target, mode) + Seq::<u8>::empty() =~= delivered(
            first,
            target,
            mode,
        ));
    } else {
        let shorter = second.drop_last();
        assert((first + second).drop_last() =~= first + shorter);
        assert((first + second).last() == second.last());
        lemma_delivered_concat(first, shorter, target, mode);
        let before = delivered(first, target, mode);
        let between = mode_after(first, mode);
        match second.last() {
            DisplayOp::Write(byte) => {
                assert(before + delivered(shorter, target, between).push(byte) =~= (before
                    + delivered(shorter, target, between)).push(byte));
            },
            _ => {},
        }
    }
}

proof fn lemma_selects_concat(first: Seq<DisplayOp>, second: Seq<DisplayOp>, state: PinState)
    ensures
        selects(first + second, state) == selects(first, state) + selects(second, state),
    decreases second.len(),
{
    if second.len() == 0 {
        assert(first + second =~= first);
    } else {
        assert((first + second).drop_last() =~= first + second.drop_last());
        assert((first + second).last() == second.last());
        lemma_selects_concat(first, second.drop_last(), state);
    }
}

/// Reading two lists one after the other is reading their concatenation.
pub proof fn lemma_reading_concat(first: Seq<DisplayOp>, second: Seq<DisplayOp>, mode: ControlMode)
    ensures
        reading(first + second, mode) == reading(first, mode).followed_by(
            reading(second, reading(first, mode).mode),
        ),
{
    lemma_delivered_concat(first, second, ControlMode::Command, mode);
    lemma_delivered_concat(first, second, ControlMode::Data, mode);
    lemma_selects_concat(first, second, PinState::Enable);
    lemma_selects_concat(first, second, PinState::Disable);
}

/// A single operation, read on its own.
proof fn lemma_reading_one(op: DisplayOp, mode: ControlMode)
    ensures
        reading(seq![op], mode) == (Reading {
            commands: match op {
                DisplayOp::Write(byte) if mode == ControlMode::Command => seq![byte],
                _ => Seq::empty(),
            },
            data: match op {
                DisplayOp::Write(byte) if mode == ControlMode::Data => seq![byte],
                _ => Seq::empty(),
            },
            mode: match op {
                DisplayOp::RegisterSelect(selected) => selected,
                _ => mode,
            },
            asserted: if op == DisplayOp::ChipSelect(PinState::Enable) {
                1nat
            } else {
                0nat
            },
            released: if op == DisplayOp::ChipSelect(PinState::Disable) {
                1nat
            } else {
                0nat
            },
        }),
{
    reveal_with_fuel(mode_after, 2);
    reveal_with_fuel(delivered, 2);
    reveal_with_fuel(selects, 2);
    let ops = seq![op];
    assert(ops.drop_last() =~= Seq::<DisplayOp>::empty());
    assert(ops.last() == op);
    let seen = reading(ops, mode);
    match op {
        DisplayOp::Write(byte) => {
            assert(Seq::<u8>::empty().push(byte) =~= seq![byte]);
            assert(seen.commands =~= if mode == ControlMode::Command {
                seq![byte]
            } else {
                Seq::empty()
            });
            assert(seen.data =~= if mode == ControlMode::Data {
                seq![byte]
            } else {
                Seq::empty()
            });
        },
        _ => {
            assert(seen.commands =~= Seq::<u8>::empty());
            assert(seen.data =~= Seq::<u8>::empty());
        },
    }
}

/// Plain writes arrive in whatever mode the line is in and leave it there.
proof fn lemma_reading_writes(bytes: Seq<u8>, mode: ControlMode)
    ensures
        reading(write_ops(bytes), mode) == (Reading {
            commands: if mode == ControlMode::Command {
                bytes
            } else {
                Seq::empty()
            },
            data: if mode == ControlMode::Data {
                bytes
            } else {
                Seq::empty()
            },
            mode,
            asserted: 0,
            released: 0,
        }),
    decreases bytes.len(),
{
    let ops = write_ops(bytes);
    if bytes.len() == 0 {
        assert(bytes =~= Seq::<u8>::empty());
    } else {
        assert(ops.drop_last() =~= write_ops(bytes.drop_last()));
        assert(ops.last() == DisplayOp::Write(bytes.last()));
        lemma_reading_writes(bytes.drop_last(), mode);
        assert(bytes.drop_last().push(bytes.last()) =~= bytes);
    }
}

/// A command arrives in command mode, whatever the line was before.
proof fn lemma_reading_command(command: u8, mode: ControlMode)
    ensures
        reading(command_ops(command), mode) == (Reading {
            commands: seq![command],
            data: Seq::empty(),
            mode: ControlMode::Command,
            asserted: 0,
            released: 0,
        }),
{
    let select = DisplayOp::RegisterSelect(ControlMode::Command);
    assert(command_ops(command) =~= seq![select] + seq![DisplayOp::Write(command)]);
    lemma_reading_one(select, mode);
    lemma_reading_one(DisplayOp::Write(command), ControlMode::Command);
    lemma_reading_concat(seq![select], seq![DisplayOp::Write(command)], mode);
    assert(Seq::<u8>::empty() + seq![command] =~= seq![command]);
    assert(Seq::<u8>::empty() + Seq::<u8>::empty() =~= Seq::<u8>::empty());
}

/// Data bytes arrive in data mode, whatever the line was before.
proof fn lemma_reading_data(bytes: Seq<u8>, mode: ControlMode)
    ensures
        reading(data_ops(bytes), mode) == (Reading {
            commands: Seq::empty(),
            data: bytes,
            mode: ControlMode::Data,
            asserted: 0,
            released: 0,
        }),
{
    let select = DisplayOp::RegisterSelect(ControlMode::Data);
    lemma_reading_one(select, mode);
    lemma_reading_writes(bytes, ControlMode::Data);
    lemma_reading_concat(seq![select], write_ops(bytes), mode);
    assert(Seq::<u8>::empty() + bytes =~= bytes);
    assert(Seq::<u8>::empty() + Seq::<u8>::empty() =~= Seq::<u8>::empty());
}

/// The eight parameter bytes of a window, as the controller receives them.
pub open spec fn window_bytes(window: DisplayWindow) -> Seq<u8> {
    range_bytes(window.x0, window.x1) + range_bytes(window.y0, window.y1)
}

/// Setting a window delivers two commands and the eight bytes of the two
/// ranges, columns first, each value most significant byte first.
pub proof fn lemma_window_reading(window: DisplayWindow, mode: ControlMode)
    ensures
        reading(window_ops(window), mode) == (Reading {
            commands: seq![CASET, RASET],
            data: window_bytes(window),
            mode: ControlMode::Data,
            asserted: 0,
            released: 0,
        }),
        window_bytes(window).len() == 8,
{
    let a = command_ops(CASET);
    let b = data_ops(range_bytes(window.x0, window.x1));
    let c = command_ops(RASET);
    let d = data_ops(range_bytes(window.y0, window.y1));
    lemma_reading_command(CASET, mode);
    lemma_reading_data(range_bytes(window.x0, window.x1), ControlMode::Command);
    lemma_reading_command(RASET, ControlMode::Data);
    lemma_reading_data(range_bytes(window.y0, window.y1), ControlMode::Command);
    lemma_reading_concat(a, b, mode);
    lemma_reading_concat(a + b, c, mode);
    lemma_reading_concat(a + b + c, d, mode);
    let r = reading(window_ops(window), mode);
    assert(r.commands =~= seq![CASET, RASET]);
    assert(r.data =~= window_bytes(window));
}

/// A drawing operation delivers the no-op, the window and the memory-write
/// command, then the window's bytes and three bytes for each pixel. It
/// asserts chip-select once and releases it once.
pub proof fn lemma_draw_reading(window: DisplayWindow, pixels: Seq<Rgb888>, mode: ControlMode)
    ensures
        reading(draw_ops(window, pixels), mode) == (Reading {
            commands: seq![NOP, CASET, RASET, RAMWR],
            data: window_bytes(window) + pixel_bytes(pixels),
            mode: ControlMode::Command,
            asserted: 1,
            released: 1,
        }),
{
    let select = seq![DisplayOp::ChipSelect(PinState::Enable)];
    let nop = command_ops(NOP);
    let win = window_ops(window);
    let write = command_ops(RAMWR);
    let stream = data_ops(pixel_bytes(pixels));
    let back = seq![DisplayOp::RegisterSelect(ControlMode::Command)];
    let release = seq![DisplayOp::ChipSelect(PinState::Disable)];
    lemma_reading_one(DisplayOp::ChipSelect(PinState::Enable), mode);
    lemma_reading_command(NOP, mode);
    lemma_window_reading(window, ControlMode::Command);
    lemma_reading_command(RAMWR, ControlMode::Data);
    lemma_reading_data(pixel_bytes(pixels), ControlMode::Command);
    lemma_reading_one(DisplayOp::RegisterSelect(ControlMode::Command), ControlMode::Data);
    lemma_reading_one(DisplayOp::ChipSelect(PinState::Disable), ControlMode::Command);
    lemma_reading_concat(select, nop, mode);
    lemma_reading_concat(select + nop, win, mode);
    lemma_reading_concat(select + nop + win, write, mode);
    lemma_reading_concat(select + nop + win + write, stream, mode);
    lemma_reading_concat(select + nop + win + write + stream, back, mode);
    lemma_reading_concat(select + nop + win + write + stream + back, release, mode);
    assert(draw_epilogue() =~= back + release);
    assert(draw_ops(window, pixels) =~= select + nop + win + write + stream + back + release);
    let r = reading(draw_ops(window, pixels), mode);
    assert(r.commands =~= seq![NOP, CASET, RASET, RAMWR]);
    assert(r.data =~= window_bytes(window) + pixel_bytes(pixels));
}

/// The power-up sequence delivers the three power commands and no data. It
/// releases chip-select for the hardware reset and asserts it afterwards.
proof fn lemma_power_up_reading(mode: ControlMode)
    ensures
        reading(power_up_ops(), mode) == (Reading {
            commands: seq![SWRESET, SLPOUT, DISPON],
            data: Seq::empty(),
            mode: ControlMode::Command,
            asserted: 1,
            released: 1,
        }),
{
    let settle = DisplayOp::Settle(SETTLE_MS);
    let s0 = seq![DisplayOp::ChipSelect(PinState::Disable)];
    let s1 = s0 + seq![DisplayOp::Reset(PinState::Enable)];
    let s2 = s1 + seq![settle];
    let s3 = s2 + seq![DisplayOp::Reset(PinState::Disable)];
    let s4 = s3 + seq![settle];
    let s5 = s4 + seq![DisplayOp::ChipSelect(PinState::Enable)];
    let s6 = s5 + command_ops(SWRESET);
    let s7 = s6 + seq![settle];
    let s8 = s7 + command_ops(SLPOUT);
    let s9 = s8 + seq![settle];
    let s10 = s9 + command_ops(DISPON);
    let s11 = s10 + seq![settle];
    assert(power_up_ops() =~= s11);
    lemma_reading_one(DisplayOp::ChipSelect(PinState::Disable), mode);
    lemma_reading_one(DisplayOp::Reset(PinState::Enable), mode);
    lemma_reading_one(settle, mode);
    lemma_reading_one(DisplayOp::Reset(PinState::Disable), mode);
    lemma_reading_one(DisplayOp::ChipSelect(PinState::Enable), mode);
    lemma_reading_one(settle, ControlMode::Command);
    lemma_reading_command(SWRESET, mode);
    lemma_reading_command(SLPOUT, ControlMode::Command);
    lemma_reading_command(DISPON, ControlMode::Command);
    lemma_reading_concat(s0, seq![DisplayOp::Reset(PinState::Enable)], mode);
    lemma_reading_concat(s1, seq![settle], mode);
    lemma_reading_concat(s2, seq![DisplayOp::Reset(PinState::Disable)], mode);
    lemma_reading_concat(s3, seq![settle], mode);
    lemma_reading_concat(s4, seq![DisplayOp::ChipSelect(PinState::Enable)], mode);
    lemma_reading_concat(s5, command_ops(SWRESET), mode);
    lemma_reading_concat(s6, seq![settle], mode);
    lemma_reading_concat(s7, command_ops(SLPOUT), mode);
    lemma_reading_concat(s8, seq![settle], mode);
    lemma_reading_concat(s9, command_ops(DISPON), mode);
    lemma_reading_concat(s10, seq![settle], mode);
    let seen = reading(s11, mode);
    assert(reading(s5, mode).commands =~= Seq::<u8>::empty());
    assert(reading(s5, mode).data =~= Seq::<u8>::empty());
    assert(reading(s7, mode).commands =~= seq![SWRESET]);
    assert(reading(s7, mode).data =~= Seq::<u8>::empty());
    assert(reading(s9, mode).commands =~= seq![SWRESET, SLPOUT]);
    assert(reading(s9, mode).data =~= Seq::<u8>::empty());
    assert(seen.commands =~= seq![SWRESET, SLPOUT, DISPON]);
    assert(seen.data =~= Seq::<u8>::empty());
}

/// A fill addresses the whole panel and streams one triple of the colour
/// for each of its pixels, inside one assertion of chip-select.
pub proof fn lemma_fill_reading(display: ST7735, color: Option<u32>, mode: ControlMode)
    requires
        display.wf(),
    ensures
        reading(display.fill_ops(color), mode) == (Reading {
            commands: seq![NOP, CASET, RASET, RAMWR],
            data: window_bytes(display.full_window()) + pixel_bytes(
                solid(
                    (display.width() * display.height()) as nat,
                    channels(
                        match color {
                            Some(c) => c,
                            None => WHITE,
                        },
                    ),
                ),
            ),
            mode: ControlMode::Command,
            asserted: 1,
            released: 1,
        }),
        display.full_window().within(display.width(), display.height()),
        reading(display.fill_ops(color), mode).data.len() == 8 + 3 * (display.width()
            * display.height()),
{
    let rgb = channels(
        match color {
            Some(c) => c,
            None => WHITE,
        },
    );
    lemma_draw_reading(
        display.full_window(),
        solid((display.width() * display.height()) as nat, rgb),
        mode,
    );
    lemma_window_reading(display.full_window(), mode);
    assert(0 <= display.width() * display.height()) by (nonlinear_arith)
        requires
            display.width() >= 0,
            display.height() >= 0,
    ;
}

/// A row is drawn along the panel column of its index. Exactly the first
/// `row_length` pixel codes are streamed, each widened, and no code after
/// them has any influence: a buffer longer than the panel is wide is cut at
/// the panel's width. A row that is empty, or whose window would leave the
/// panel, draws nothing.
pub proof fn lemma_draw_row_reading(display: ST7735, row: u32, buf: Seq<u16>, mode: ControlMode)
    requires
        display.wf(),
    ensures
        display.row_length(buf.len()) <= buf.len(),
        display.row_length(buf.len()) <= display.width(),
        buf.len() >= display.width() ==> display.row_length(buf.len()) == display.width(),
        display.row_window_spec(row, buf.len()) is Some <==> row < display.width() && 1
            <= display.row_length(buf.len()) <= display.height(),
        display.row_window_spec(row, buf.len()) is None ==> display.draw_row_ops(row, buf)
            == Seq::<DisplayOp>::empty(),
        display.row_window_spec(row, buf.len()) matches Some(window) ==> {
            &&& window.within(display.width(), display.height())
            &&& window.x0 == row && window.x1 == row
            &&& window.y0 == 0 && window.y1 == display.row_length(buf.len()) - 1
            &&& reading(display.draw_row_ops(row, buf), mode) == (Reading {
                commands: seq![NOP, CASET, RASET, RAMWR],
                data: window_bytes(window) + pixel_bytes(
                    widened(buf, display.row_length(buf.len())),
                ),
                mode: ControlMode::Command,
                asserted: 1,
                released: 1,
            })
            &&& reading(display.draw_row_ops(row, buf), mode).data.len() == 8 + 3
                * display.row_length(buf.len())
        },
        display.draw_row_ops(row, buf) == display.draw_row_ops(
            row,
            buf.take(display.row_length(buf.len()) as int),
        ),
{
    let length = display.row_length(buf.len());
    let cut = buf.take(length as int);
    assert(display.row_length(cut.len()) == length);
    assert(widened(buf, length) =~= widened(cut, length));
    match display.row_window_spec(row, buf.len()) {
        Some(window) => {
            lemma_draw_reading(window, widened(buf, length), mode);
            lemma_window_reading(window, mode);
        },
        None => {},
    }
}

/// A buffer that is longer than the panel is wide is cut to exactly the
/// panel's width: that many pixels are streamed and the codes after them
/// are not looked at. The panel must be at least as high as it is wide, or
/// the cut row would leave it and nothing is drawn.
pub proof fn lemma_long_row_is_cut(display: ST7735, row: u32, buf: Seq<u16>, mode: ControlMode)
    requires
        display.wf(),
        row < display.width(),
        display.width() <= display.height(),
        buf.len() > display.width(),
    ensures
        display.draw_row_ops(row, buf) == draw_ops(
            DisplayWindow { x0: row as u16, x1: row as u16, y0: 0, y1: (display.width() - 1) as u16 },
            widened(buf, display.width() as nat),
        ),
        display.draw_row_ops(row, buf) == display.draw_row_ops(
            row,
            buf.take(display.width() as int),
        ),
        reading(display.draw_row_ops(row, buf), mode).data.len() == 8 + 3 * display.width(),
{
    lemma_draw_row_reading(display, row, buf, mode);
}

/// Calibration is the power-up sequence followed by one fill: the
/// memory-write command is delivered once, as the last command, and what
/// follows it is the white that clears the panel.
pub proof fn lemma_calibrate_reading(display: ST7735, mode: ControlMode)
    requires
        display.wf(),
    ensures
        display.calibrate_ops() == power_up_ops() + display.fill_ops(None),
        reading(display.calibrate_ops(), mode) == (Reading {
            commands: seq![SWRESET, SLPOUT, DISPON, NOP, CASET, RASET, RAMWR],
            data: reading(display.fill_ops(None), ControlMode::Command).data,
            mode: ControlMode::Command,
            asserted: 2,
            released: 2,
        }),
        occurrences(reading(display.calibrate_ops(), mode).commands, RAMWR) == 1,
        reading(display.calibrate_ops(), mode).commands.last() == RAMWR,
{
    lemma_power_up_reading(mode);
    lemma_fill_reading(display, None, ControlMode::Command);
    lemma_reading_concat(power_up_ops(), display.fill_ops(None), mode);
    let seen = reading(display.calibrate_ops(), mode);
    let expected = seq![SWRESET, SLPOUT, DISPON, NOP, CASET, RASET, RAMWR];
    assert(seen.commands =~= expected);
    assert(seen.data =~= reading(display.fill_ops(None), ControlMode::Command).data);
    reveal_with_fuel(occurrences, 8);
    assert(expected.drop_last() =~= seq![SWRESET, SLPOUT, DISPON, NOP, CASET, RASET]);
    assert(expected.drop_last().drop_last() =~= seq![SWRESET, SLPOUT, DISPON, NOP, CASET]);
    assert(expected.drop_last().drop_last().drop_last() =~= seq![SWRESET, SLPOUT, DISPON, NOP]);
    assert(expected.drop_last().drop_last().drop_last().drop_last() =~= seq![
        SWRESET,
        SLPOUT,
        DISPON,
    ]);
    assert(expected.drop_last().drop_last().drop_last().drop_last().drop_last() =~= seq![
        SWRESET,
        SLPOUT,
    ]);
    assert(expected.drop_last().drop_last().drop_last().drop_last().drop_last().drop_last()
        =~= seq![SWRESET]);
    assert(expected.drop_last().drop_last().drop_last().drop_last().drop_last().drop_last()
        .drop_last() =~= Seq::<u8>::empty());
}

/// Every top-level operation asserts chip-select as often as it releases
/// it, and leaves the register-select line in command mode.
pub proof fn lemma_chip_select_balanced(
    display: ST7735,
    color: Option<u32>,
    row: u32,
    buf: Seq<u16>,
    mode: ControlMode,
)
    requires
        display.wf(),
    ensures
        selects(display.calibrate_ops(), PinState::Enable) == selects(
            display.calibrate_ops(),
            PinState::Disable,
        ),
        selects(display.fill_ops(color), PinState::Enable) == selects(
            display.fill_ops(color),
            PinState::Disable,
        ),
        selects(display.draw_row_ops(row, buf), PinState::Enable) == selects(
            display.draw_row_ops(row, buf),
            PinState::Disable,
        ),
        mode_after(display.calibrate_ops(), mode) == ControlMode::Command,
        mode_after(display.fill_ops(color), mode) == ControlMode::Command,
        display.row_window_spec(row, buf.len()) is Some ==> mode_after(
            display.draw_row_ops(row, buf),
            mode,
        ) == ControlMode::Command,
{
    lemma_calibrate_reading(display, mode);
    lemma_fill_reading(display, color, mode);
    lemma_draw_row_reading(display, row, buf, mode);
}

} // verus!
