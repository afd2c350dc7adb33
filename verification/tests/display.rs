use pixel_pipeline::display::{
    ControlMode, Display, DisplayOp, DisplayWindow, PinState, CASET, DISPON, NOP, RAMWR, RASET,
    SETTLE_MS, SLPOUT, ST7735, SWRESET,
};
use pixel_pipeline::panel::{chip_selects, received};

fn command(byte: u8) -> Vec<DisplayOp> {
    vec![DisplayOp::RegisterSelect(ControlMode::Command), DisplayOp::Write(byte)]
}

fn data(bytes: &[u8]) -> Vec<DisplayOp> {
    let mut ops = vec![DisplayOp::RegisterSelect(ControlMode::Data)];
    for byte in bytes {
        ops.push(DisplayOp::Write(*byte));
    }
    ops
}

fn drawing(columns: [u8; 4], rows: [u8; 4], pixels: &[u8]) -> Vec<DisplayOp> {
    let mut ops = vec![DisplayOp::ChipSelect(PinState::Enable)];
    ops.extend(command(NOP));
    ops.extend(command(CASET));
    ops.extend(data(&columns));
    ops.extend(command(RASET));
    ops.extend(data(&rows));
    ops.extend(command(RAMWR));
    ops.extend(data(pixels));
    ops.push(DisplayOp::RegisterSelect(ControlMode::Command));
    ops.push(DisplayOp::ChipSelect(PinState::Disable));
    ops
}

fn power_up() -> Vec<DisplayOp> {
    let mut ops = vec![
        DisplayOp::ChipSelect(PinState::Disable),
        DisplayOp::Reset(PinState::Enable),
        DisplayOp::Settle(120),
        DisplayOp::Reset(PinState::Disable),
        DisplayOp::Settle(120),
        DisplayOp::ChipSelect(PinState::Enable),
    ];
    ops.extend(command(0x01));
    ops.push(DisplayOp::Settle(120));
    ops.extend(command(0x11));
    ops.push(DisplayOp::Settle(120));
    ops.extend(command(0x29));
    ops.push(DisplayOp::Settle(120));
    ops
}

#[test]
fn command_codes_are_those_of_the_controller() {
    assert_eq!(NOP, 0x00);
    assert_eq!(SWRESET, 0x01);
    assert_eq!(SLPOUT, 0x11);
    assert_eq!(DISPON, 0x29);
    assert_eq!(CASET, 0x2A);
    assert_eq!(RASET, 0x2B);
    assert_eq!(RAMWR, 0x2C);
    assert_eq!(SETTLE_MS, 120);
}

#[test]
fn new_accepts_panels_with_16_bit_addresses_only() {
    let display = ST7735::new(128, 160).unwrap();
    assert_eq!(display.width(), 128);
    assert_eq!(display.height(), 160);
    assert!(ST7735::new(1, 1).is_some());
    assert!(ST7735::new(0x10000, 0x10000).is_some());
    assert!(ST7735::new(0, 160).is_none());
    assert!(ST7735::new(128, 0).is_none());
    assert!(ST7735::new(0x10001, 160).is_none());
    assert!(ST7735::new(128, 0x10001).is_none());
}

#[test]
fn write_command_selects_command_mode_first() {
    let display = ST7735::new(128, 160).unwrap();
    assert_eq!(display.write_command(0x2C), command(0x2C));
}

#[test]
fn write_data_selects_data_mode_first() {
    let display = ST7735::new(128, 160).unwrap();
    assert_eq!(display.write_data(&[1, 2, 3]), data(&[1, 2, 3]));
    assert_eq!(display.write_data(&[]), data(&[]));
}

#[test]
fn set_window_emits_exactly_eight_data_bytes() {
    let display = ST7735::new(128, 160).unwrap();
    let ops = display.set_window(0, 127, 0, 159).unwrap();
    let bytes = received(&ops, ControlMode::Data, ControlMode::Command);
    assert_eq!(bytes, vec![0x00, 0x00, 0x00, 0x7F, 0x00, 0x00, 0x00, 0x9F]);
    let commands = received(&ops, ControlMode::Command, ControlMode::Data);
    assert_eq!(commands, vec![0x2A, 0x2B]);
}

#[test]
fn set_window_lists_columns_then_rows() {
    let display = ST7735::new(128, 160).unwrap();
    let ops = display.set_window(3, 5, 7, 9).unwrap();
    let mut expected = command(0x2A);
    expected.extend(data(&[0, 3, 0, 5]));
    expected.extend(command(0x2B));
    expected.extend(data(&[0, 7, 0, 9]));
    assert_eq!(ops, expected);
}

#[test]
fn set_window_sends_both_bytes_of_wide_coordinates() {
    let display = ST7735::new(0x10000, 0x10000).unwrap();
    let ops = display.set_window(0x0102, 0xFFFF, 0x0304, 0xABCD).unwrap();
    let bytes = received(&ops, ControlMode::Data, ControlMode::Command);
    assert_eq!(bytes, vec![0x01, 0x02, 0xFF, 0xFF, 0x03, 0x04, 0xAB, 0xCD]);
}

#[test]
fn set_window_refuses_rectangles_off_the_panel() {
    let display = ST7735::new(128, 160).unwrap();
    assert!(display.set_window(0, 128, 0, 159).is_none());
    assert!(display.set_window(0, 127, 0, 160).is_none());
    assert!(display.set_window(5, 4, 0, 159).is_none());
    assert!(display.set_window(0, 127, 9, 8).is_none());
    assert!(display.set_window(127, 127, 159, 159).is_some());
}

#[test]
fn row_window_swaps_the_axes() {
    let display = ST7735::new(128, 160).unwrap();
    assert_eq!(
        display.row_window(7, 160),
        Some(DisplayWindow { x0: 7, x1: 7, y0: 0, y1: 127 })
    );
    assert_eq!(
        display.row_window(0, 10),
        Some(DisplayWindow { x0: 0, x1: 0, y0: 0, y1: 9 })
    );
    assert_eq!(
        display.row_window(127, 1),
        Some(DisplayWindow { x0: 127, x1: 127, y0: 0, y1: 0 })
    );
    assert_eq!(display.row_window(128, 10), None);
    assert_eq!(display.row_window(0, 0), None);
}

#[test]
fn row_window_needs_room_for_the_row() {
    let wide = ST7735::new(160, 128).unwrap();
    assert_eq!(wide.row_window(0, 128), Some(DisplayWindow { x0: 0, x1: 0, y0: 0, y1: 127 }));
    assert_eq!(wide.row_window(0, 129), None);
    assert_eq!(wide.row_window(0, 200), None);
}

#[test]
fn fill_streams_one_triple_for_every_pixel() {
    let display = ST7735::new(2, 3).unwrap();
    let ops = display.fill(Some(0x123456));
    let pixels = [0x12u8, 0x34, 0x56].repeat(6);
    assert_eq!(ops, drawing([0, 0, 0, 1], [0, 0, 0, 2], &pixels));
    assert_eq!(ops.len(), 40);
}

#[test]
fn fill_defaults_to_white() {
    let display = ST7735::new(2, 2).unwrap();
    let ops = display.fill(None);
    assert_eq!(ops, drawing([0, 0, 0, 1], [0, 0, 0, 1], &[0xFF; 12]));
    assert_eq!(ops, display.fill(Some(0xFFFFFF)));
}

#[test]
fn fill_covers_the_whole_panel() {
    let display = ST7735::new(128, 160).unwrap();
    let ops = display.fill(Some(0x00FF00));
    let bytes = received(&ops, ControlMode::Data, ControlMode::Command);
    assert_eq!(bytes.len(), 8 + 3 * 128 * 160);
    assert_eq!(&bytes[..8], &[0x00, 0x00, 0x00, 0x7F, 0x00, 0x00, 0x00, 0x9F]);
    for pixel in bytes[8..].chunks(3) {
        assert_eq!(pixel, &[0x00, 0xFF, 0x00]);
    }
    let commands = received(&ops, ControlMode::Command, ControlMode::Command);
    assert_eq!(commands, vec![0x00, 0x2A, 0x2B, 0x2C]);
}

#[test]
fn draw_row_draws_along_one_column() {
    let display = ST7735::new(128, 160).unwrap();
    let ops = display.draw_row(5, &[0xF800, 0x07E0, 0x001F]);
    assert_eq!(
        ops,
        drawing([0, 5, 0, 5], [0, 0, 0, 2], &[248, 0, 0, 0, 252, 0, 0, 0, 248])
    );
}

#[test]
fn draw_row_truncates_to_the_panel_width() {
    let display = ST7735::new(128, 160).unwrap();
    let buffer: Vec<u16> = (0..160u16).map(|i| i << 5).collect();
    let ops = display.draw_row(79, &buffer);
    let bytes = received(&ops, ControlMode::Data, ControlMode::Command);
    assert_eq!(bytes.len(), 8 + 3 * 128);
    assert_eq!(&bytes[..8], &[0, 79, 0, 79, 0, 0, 0, 127]);
    for i in 0..128usize {
        let code = (i as u16) << 5;
        assert_eq!(bytes[8 + 3 * i], (((code >> 11) & 0x1F) << 3) as u8);
        assert_eq!(bytes[9 + 3 * i], (((code >> 5) & 0x3F) << 2) as u8);
        assert_eq!(bytes[10 + 3 * i], ((code & 0x1F) << 3) as u8);
    }
    assert_eq!(ops, display.draw_row(79, &buffer[..128]));
}

#[test]
fn draw_row_with_short_buffer_draws_what_there_is() {
    let display = ST7735::new(128, 160).unwrap();
    let ops = display.draw_row(0, &[0xFFFF; 5]);
    let bytes = received(&ops, ControlMode::Data, ControlMode::Command);
    assert_eq!(bytes.len(), 8 + 15);
    assert_eq!(&bytes[..8], &[0, 0, 0, 0, 0, 0, 0, 4]);
}

#[test]
fn draw_row_of_nothing_draws_nothing() {
    let display = ST7735::new(128, 160).unwrap();
    assert_eq!(display.draw_row(0, &[]), vec![]);
}

#[test]
fn draw_row_off_the_panel_draws_nothing() {
    let display = ST7735::new(128, 160).unwrap();
    assert_eq!(display.draw_row(128, &[0xFFFF; 4]), vec![]);
    let wide = ST7735::new(160, 128).unwrap();
    assert_eq!(wide.draw_row(0, &[0xFFFF; 200]), vec![]);
}

#[test]
fn calibrate_powers_up_and_ends_with_one_fill() {
    let display = ST7735::new(4, 3).unwrap();
    let ops = display.calibrate();
    let fill = display.fill(None);
    let mut expected = power_up();
    expected.extend(fill.iter().copied());
    assert_eq!(ops, expected);
    assert!(ops.ends_with(&fill));
    let commands = received(&ops, ControlMode::Command, ControlMode::Data);
    assert_eq!(commands, vec![0x01, 0x11, 0x29, 0x00, 0x2A, 0x2B, 0x2C]);
    assert_eq!(commands.iter().filter(|c| **c == RAMWR).count(), 1);
    let pixels = received(&ops, ControlMode::Data, ControlMode::Command);
    assert_eq!(pixels.len(), 8 + 3 * 12);
    assert!(pixels[8..].iter().all(|b| *b == 0xFF));
}

#[test]
fn calibrate_settles_after_every_reset_edge_and_power_command() {
    let display = ST7735::new(128, 160).unwrap();
    let ops = display.calibrate();
    let settles: Vec<usize> = ops
        .iter()
        .enumerate()
        .filter(|(_, op)| matches!(op, DisplayOp::Settle(_)))
        .map(|(i, _)| i)
        .collect();
    assert_eq!(settles, vec![2, 4, 8, 11, 14]);
    for i in settles {
        assert_eq!(ops[i], DisplayOp::Settle(120));
    }
    assert_eq!(ops[1], DisplayOp::Reset(PinState::Enable));
    assert_eq!(ops[3], DisplayOp::Reset(PinState::Disable));
}

#[test]
fn chip_select_is_balanced_in_every_operation() {
    let display = ST7735::new(128, 160).unwrap();
    let buffer = [0x1234u16; 160];
    let operations = vec![
        display.calibrate(),
        display.fill(None),
        display.fill(Some(0x2C2C2C)),
        display.draw_row(3, &buffer),
        display.draw_row(200, &buffer),
    ];
    for ops in operations {
        let asserted = chip_selects(&ops, PinState::Enable);
        let released = chip_selects(&ops, PinState::Disable);
        assert_eq!(asserted, released);
        if let Some(last) = ops.last() {
            assert_eq!(*last, DisplayOp::ChipSelect(PinState::Disable));
        }
    }
    assert_eq!(chip_selects(&display.calibrate(), PinState::Enable), 2);
    assert_eq!(chip_selects(&display.fill(None), PinState::Enable), 1);
    assert_eq!(chip_selects(&display.draw_row(3, &buffer), PinState::Disable), 1);
}

#[test]
fn data_bytes_that_look_like_commands_are_not_commands() {
    let display = ST7735::new(2, 2).unwrap();
    let ops = display.fill(Some(0x2C2C2C));
    let commands = received(&ops, ControlMode::Command, ControlMode::Command);
    assert_eq!(commands, vec![0x00, 0x2A, 0x2B, 0x2C]);
}

#[test]
fn received_follows_the_register_select_line() {
    let ops = vec![
        DisplayOp::Write(1),
        DisplayOp::RegisterSelect(ControlMode::Data),
        DisplayOp::Write(2),
        DisplayOp::Settle(5),
        DisplayOp::Write(3),
        DisplayOp::RegisterSelect(ControlMode::Command),
        DisplayOp::Write(4),
    ];
    assert_eq!(received(&ops, ControlMode::Command, ControlMode::Command), vec![1, 4]);
    assert_eq!(received(&ops, ControlMode::Data, ControlMode::Command), vec![2, 3]);
    assert_eq!(received(&ops, ControlMode::Data, ControlMode::Data), vec![1, 2, 3]);
    assert_eq!(received(&[], ControlMode::Data, ControlMode::Data), vec![]);
}
