use pixel_pipeline::camera::{Camera, FRAME_ROWS, FRAME_WIDTH, OV7670};
use pixel_pipeline::capture::{CapturePhase, FrameError};
use pixel_pipeline::display::{ControlMode, Display, DisplayOp, ST7735};
use pixel_pipeline::panel::received;
use pixel_pipeline::signal::simulate_frame;

fn frame() -> Vec<Vec<u16>> {
    (0..80u16).map(|r| (0..160u16).map(|c| (r << 8) ^ (c * 257)).collect()).collect()
}

#[test]
fn camera_geometry() {
    assert_eq!(FRAME_WIDTH, 160);
    assert_eq!(FRAME_ROWS, 80);
    let camera = OV7670::new(500, true);
    assert_eq!(camera.poll_limit(), 500);
    assert!(camera.verify());
    assert_eq!(camera.capture().phase(), CapturePhase::WaitFrameStart);
}

#[test]
fn draw_frame_draws_every_row_on_its_column() {
    let camera = OV7670::new(1000, false);
    let display = ST7735::new(128, 160).unwrap();
    let frame = frame();
    let (ops, result) = camera.draw_frame(&display, &simulate_frame(&frame));
    assert_eq!(result, Ok(()));
    let mut expected: Vec<DisplayOp> = Vec::new();
    for (y, row) in frame.iter().enumerate() {
        expected.extend(display.draw_row(y as u32, row));
    }
    assert_eq!(ops, expected);
    let bytes = received(&ops, ControlMode::Data, ControlMode::Command);
    assert_eq!(bytes.len(), 80 * (8 + 3 * 128));
    let commands = received(&ops, ControlMode::Command, ControlMode::Command);
    assert_eq!(commands.len(), 80 * 4);
}

#[test]
fn draw_frame_puts_sensor_pixels_on_the_display_wire() {
    let camera = OV7670::new(1000, false);
    let display = ST7735::new(128, 160).unwrap();
    let frame = frame();
    let (ops, _) = camera.draw_frame(&display, &simulate_frame(&frame));
    let bytes = received(&ops, ControlMode::Data, ControlMode::Command);
    for (y, row) in frame.iter().enumerate() {
        let drawn = &bytes[y * (8 + 3 * 128)..(y + 1) * (8 + 3 * 128)];
        assert_eq!(&drawn[..8], &[0, y as u8, 0, y as u8, 0, 0, 0, 127]);
        for x in 0..128 {
            let code = row[x];
            let pixel = &drawn[8 + 3 * x..11 + 3 * x];
            assert_eq!(pixel[0], ((code >> 11) << 3) as u8);
            assert_eq!(pixel[1], (((code >> 5) & 0x3F) << 2) as u8);
            assert_eq!(pixel[2], ((code & 0x1F) << 3) as u8);
        }
    }
}

#[test]
fn draw_frame_gives_a_desynchronised_frame_up() {
    let camera = OV7670::new(1000, false);
    let display = ST7735::new(128, 160).unwrap();
    let mut frame = frame();
    frame[40].truncate(100);
    let (ops, result) = camera.draw_frame(&display, &simulate_frame(&frame));
    assert_eq!(result, Err(FrameError::Desync { row: 40, pixels: 100 }));
    let mut expected: Vec<DisplayOp> = Vec::new();
    for (y, row) in frame.iter().enumerate().take(40) {
        expected.extend(display.draw_row(y as u32, row));
    }
    assert_eq!(ops, expected);
}

#[test]
fn draw_frame_without_a_frame_times_out() {
    let camera = OV7670::new(10, false);
    let display = ST7735::new(128, 160).unwrap();
    assert_eq!(camera.draw_frame(&display, &[]), (vec![], Err(FrameError::Timeout)));
}
