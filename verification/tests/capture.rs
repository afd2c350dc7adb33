use pixel_pipeline::capture::{
    CaptureEvent, CapturePhase, FrameCapture, FrameError, LineSample,
};
use pixel_pipeline::signal::{oversample, simulate_frame};

fn sample(frame_sync: bool, line_sync: bool, pixel_clock: bool, data: u8) -> LineSample {
    LineSample { frame_sync, line_sync, pixel_clock, data }
}

fn pattern(rows: u16, width: u16) -> Vec<Vec<u16>> {
    (0..rows)
        .map(|r| (0..width).map(|c| r.wrapping_mul(160).wrapping_add(c).wrapping_mul(31)).collect())
        .collect()
}

#[test]
fn captures_eighty_rows_of_one_hundred_sixty_pixels() {
    let frame = pattern(80, 160);
    let signals = simulate_frame(&frame);
    assert_eq!(signals.len(), 3 + 80 * (1 + 160 * 4));
    let mut capture = FrameCapture::new(160, 80, 1000).unwrap();
    let rows = capture.capture_frame(&signals).unwrap();
    assert_eq!(rows.len(), 80);
    for row in &rows {
        assert_eq!(row.len(), 160);
    }
    assert_eq!(rows, frame);
    assert_eq!(capture.phase(), CapturePhase::EndOfFrame);
}

#[test]
fn captures_with_a_single_poll_per_wait() {
    let frame = pattern(3, 5);
    let mut capture = FrameCapture::new(5, 3, 1).unwrap();
    assert_eq!(capture.capture_frame(&simulate_frame(&frame)), Ok(frame));
}

#[test]
fn captures_one_frame_after_the_other() {
    let first = pattern(2, 3);
    let second: Vec<Vec<u16>> = vec![vec![1, 2, 3], vec![4, 5, 6]];
    let mut capture = FrameCapture::new(3, 2, 10).unwrap();
    assert_eq!(capture.capture_frame(&simulate_frame(&first)), Ok(first));
    assert_eq!(capture.capture_frame(&simulate_frame(&second)), Ok(second));
}

#[test]
fn simulated_source_shows_both_bytes_of_every_pixel() {
    let signals = simulate_frame(&vec![vec![0x1234, 0xABCD]]);
    assert_eq!(
        signals,
        vec![
            sample(false, false, false, 0),
            sample(true, false, false, 0),
            sample(false, false, false, 0),
            sample(false, true, false, 0),
            sample(false, true, true, 0x12),
            sample(false, true, false, 0),
            sample(false, true, true, 0x34),
            sample(false, true, false, 0),
            sample(false, true, true, 0xAB),
            sample(false, true, false, 0),
            sample(false, true, true, 0xCD),
            sample(false, false, false, 0),
        ]
    );
}

#[test]
fn oversample_repeats_every_sample() {
    let a = sample(false, false, false, 1);
    let b = sample(true, false, false, 2);
    assert_eq!(oversample(&[a, b], 3), vec![a, a, a, b, b, b]);
    assert_eq!(oversample(&[a, b], 1), vec![a, b]);
    assert_eq!(oversample(&[a, b], 0), vec![]);
    assert_eq!(oversample(&[], 5), vec![]);
}

#[test]
fn repeated_samples_do_not_disturb_the_capture() {
    let frame = pattern(4, 6);
    let signals = simulate_frame(&frame);
    for hold in 1..=5 {
        let mut capture = FrameCapture::new(6, 4, 5).unwrap();
        assert_eq!(capture.capture_frame(&oversample(&signals, hold)), Ok(frame.clone()));
    }
}

#[test]
fn a_level_that_outlasts_the_poll_limit_is_a_timeout() {
    let frame = pattern(4, 6);
    let signals = simulate_frame(&frame);
    let mut capture = FrameCapture::new(6, 4, 5).unwrap();
    assert_eq!(capture.capture_frame(&oversample(&signals, 6)), Err(FrameError::Timeout));
}

#[test]
fn frame_boundary_is_an_edge_sequence_not_a_level() {
    let mut capture = FrameCapture::new(1, 1, 100).unwrap();
    assert_eq!(capture.poll(sample(true, true, false, 0)), CaptureEvent::Pending);
    assert_eq!(capture.poll(sample(true, true, true, 0)), CaptureEvent::Pending);
    assert_eq!(capture.phase(), CapturePhase::WaitFrameStart);
    assert_eq!(capture.poll(sample(false, true, false, 0)), CaptureEvent::Pending);
    assert_eq!(capture.phase(), CapturePhase::WaitFrameStart);
    assert_eq!(capture.poll(sample(true, false, false, 0)), CaptureEvent::Pending);
    assert_eq!(capture.phase(), CapturePhase::WaitFrameStart);
    assert_eq!(capture.poll(sample(false, false, false, 0)), CaptureEvent::Pending);
    assert_eq!(capture.phase(), CapturePhase::WaitLineStart);
}

#[test]
fn capture_walks_through_its_phases() {
    let mut capture = FrameCapture::new(1, 2, 100).unwrap();
    assert_eq!(capture.phase(), CapturePhase::WaitFrameStart);
    for s in [sample(false, false, false, 0), sample(true, false, false, 0), sample(false, false, false, 0)] {
        assert_eq!(capture.poll(s), CaptureEvent::Pending);
    }
    assert_eq!(capture.phase(), CapturePhase::WaitLineStart);
    assert_eq!(capture.poll(sample(false, false, true, 9)), CaptureEvent::Pending);
    assert_eq!(capture.phase(), CapturePhase::WaitLineStart);
    assert_eq!(capture.poll(sample(false, true, false, 9)), CaptureEvent::Pending);
    assert_eq!(capture.phase(), CapturePhase::SampleHighByte);
    assert_eq!(capture.poll(sample(false, true, true, 0xF8)), CaptureEvent::Pending);
    assert_eq!(capture.phase(), CapturePhase::SampleLowByte);
    assert_eq!(capture.poll(sample(false, true, true, 0x55)), CaptureEvent::Pending);
    assert_eq!(capture.phase(), CapturePhase::SampleLowByte);
    assert_eq!(capture.poll(sample(false, true, false, 0x55)), CaptureEvent::Pending);
    assert_eq!(capture.phase(), CapturePhase::SampleLowByte);
    assert_eq!(capture.poll(sample(false, true, true, 0x1F)), CaptureEvent::Pending);
    assert_eq!(capture.phase(), CapturePhase::EndOfLine);
    assert_eq!(capture.row(), &vec![0xF81F]);
    assert_eq!(capture.poll(sample(false, false, false, 0)), CaptureEvent::Row(0));
    assert_eq!(capture.phase(), CapturePhase::WaitLineStart);
    assert_eq!(capture.row(), &vec![0xF81F]);
    for s in [
        sample(false, true, false, 0),
        sample(false, true, true, 0x07),
        sample(false, true, false, 0),
        sample(false, true, true, 0xE0),
    ] {
        assert_eq!(capture.poll(s), CaptureEvent::Pending);
    }
    assert_eq!(capture.poll(sample(false, false, false, 0)), CaptureEvent::Row(1));
    assert_eq!(capture.row(), &vec![0x07E0]);
    assert_eq!(capture.phase(), CapturePhase::EndOfFrame);
    assert_eq!(capture.poll(sample(true, true, true, 1)), CaptureEvent::Done);
    assert_eq!(capture.phase(), CapturePhase::EndOfFrame);
    capture.restart();
    assert_eq!(capture.phase(), CapturePhase::WaitFrameStart);
    assert_eq!(capture.row(), &Vec::<u16>::new());
}

#[test]
fn a_short_row_is_a_desync() {
    let mut frame = pattern(4, 6);
    frame[2].pop();
    let mut capture = FrameCapture::new(6, 4, 10).unwrap();
    assert_eq!(
        capture.capture_frame(&simulate_frame(&frame)),
        Err(FrameError::Desync { row: 2, pixels: 5 })
    );
    assert_eq!(capture.phase(), CapturePhase::WaitFrameStart);
}

#[test]
fn a_long_row_is_a_desync_and_never_overfills_the_buffer() {
    let mut frame = pattern(2, 4);
    frame[0].extend([7, 8, 9]);
    let mut capture = FrameCapture::new(4, 2, 10).unwrap();
    for s in simulate_frame(&frame) {
        let event = capture.poll(s);
        assert!(capture.row().len() <= 4);
        if let CaptureEvent::Failed(error) = event {
            assert_eq!(error, FrameError::Desync { row: 0, pixels: 7 });
            return;
        }
        assert_eq!(event, CaptureEvent::Pending);
    }
    panic!("the long row went unnoticed");
}

#[test]
fn capture_resumes_at_the_next_frame_after_a_desync() {
    let mut bad = pattern(2, 3);
    bad[1].push(1);
    let good = pattern(2, 3);
    let mut signals = simulate_frame(&bad);
    signals.extend(simulate_frame(&good));
    let mut capture = FrameCapture::new(3, 2, 10).unwrap();
    let mut events = Vec::new();
    let mut rows = Vec::new();
    for s in signals {
        match capture.poll(s) {
            CaptureEvent::Pending => {}
            event => {
                if let CaptureEvent::Row(_) = event {
                    rows.push(capture.row().clone());
                }
                events.push(event);
            }
        }
    }
    assert_eq!(
        events,
        vec![
            CaptureEvent::Row(0),
            CaptureEvent::Failed(FrameError::Desync { row: 1, pixels: 4 }),
            CaptureEvent::Row(0),
            CaptureEvent::Row(1),
        ]
    );
    assert_eq!(rows, vec![good[0].clone(), good[0].clone(), good[1].clone()]);
    assert_eq!(capture.phase(), CapturePhase::EndOfFrame);
}

#[test]
fn samples_that_end_early_are_a_timeout() {
    let frame = pattern(2, 3);
    let mut signals = simulate_frame(&frame);
    signals.pop();
    let mut capture = FrameCapture::new(3, 2, 10).unwrap();
    assert_eq!(capture.capture_frame(&signals), Err(FrameError::Timeout));
    assert_eq!(capture.capture_frame(&[]), Err(FrameError::Timeout));
}

#[test]
fn an_edge_that_never_comes_is_a_timeout() {
    let mut capture = FrameCapture::new(3, 2, 4).unwrap();
    assert_eq!(capture.poll(sample(false, false, false, 0)), CaptureEvent::Pending);
    for _ in 0..3 {
        assert_eq!(capture.poll(sample(false, false, false, 0)), CaptureEvent::Pending);
    }
    assert_eq!(
        capture.poll(sample(false, false, false, 0)),
        CaptureEvent::Failed(FrameError::Timeout)
    );
    assert_eq!(capture.phase(), CapturePhase::WaitFrameStart);
    let idle = vec![sample(false, false, false, 0); 100];
    let mut again = FrameCapture::new(3, 2, 4).unwrap();
    assert_eq!(again.capture_frame(&idle), Err(FrameError::Timeout));
}

#[test]
fn a_stalled_pixel_clock_is_a_timeout() {
    let mut capture = FrameCapture::new(2, 1, 3).unwrap();
    let mut signals = vec![
        sample(false, false, false, 0),
        sample(true, false, false, 0),
        sample(false, false, false, 0),
        sample(false, true, false, 0),
        sample(false, true, true, 0x12),
    ];
    signals.extend(vec![sample(false, true, true, 0x12); 3]);
    assert_eq!(capture.capture_frame(&signals), Err(FrameError::Timeout));
}

#[test]
fn a_capture_without_polls_gives_up_at_once() {
    let mut capture = FrameCapture::new(3, 2, 0).unwrap();
    assert_eq!(
        capture.poll(sample(false, false, false, 0)),
        CaptureEvent::Failed(FrameError::Timeout)
    );
    assert_eq!(
        capture.capture_frame(&simulate_frame(&pattern(2, 3))),
        Err(FrameError::Timeout)
    );
}

#[test]
fn there_is_no_capture_of_an_empty_frame() {
    assert!(FrameCapture::new(0, 80, 10).is_none());
    assert!(FrameCapture::new(160, 0, 10).is_none());
    assert!(FrameCapture::new(1, 1, 0).is_some());
}

#[test]
fn a_row_in_progress_is_not_taken_for_a_row_start() {
    let mut capture = FrameCapture::new(1, 1, 100).unwrap();
    for s in [
        sample(false, false, false, 0),
        sample(true, true, false, 0),
        sample(false, true, false, 0),
    ] {
        assert_eq!(capture.poll(s), CaptureEvent::Pending);
    }
    assert_eq!(capture.phase(), CapturePhase::WaitLineStart);
    assert_eq!(capture.poll(sample(false, true, false, 0)), CaptureEvent::Pending);
    assert_eq!(capture.poll(sample(false, true, true, 0xAA)), CaptureEvent::Pending);
    assert_eq!(capture.phase(), CapturePhase::WaitLineStart);
    assert_eq!(capture.poll(sample(false, false, false, 0)), CaptureEvent::Pending);
    assert_eq!(capture.phase(), CapturePhase::WaitLineStart);
    assert_eq!(capture.poll(sample(false, true, false, 0)), CaptureEvent::Pending);
    assert_eq!(capture.phase(), CapturePhase::SampleHighByte);
}

#[test]
fn a_clock_that_is_high_at_the_row_start_is_not_an_edge() {
    let mut capture = FrameCapture::new(1, 1, 100).unwrap();
    for s in [
        sample(false, false, false, 0),
        sample(true, false, false, 0),
        sample(false, false, false, 0),
        sample(false, true, true, 0x11),
        sample(false, true, true, 0x22),
    ] {
        assert_eq!(capture.poll(s), CaptureEvent::Pending);
    }
    assert_eq!(capture.phase(), CapturePhase::SampleHighByte);
    assert_eq!(capture.poll(sample(false, true, false, 0x33)), CaptureEvent::Pending);
    assert_eq!(capture.phase(), CapturePhase::SampleHighByte);
    assert_eq!(capture.poll(sample(false, true, true, 0x44)), CaptureEvent::Pending);
    assert_eq!(capture.phase(), CapturePhase::SampleLowByte);
    assert_eq!(capture.poll(sample(false, true, false, 0)), CaptureEvent::Pending);
    assert_eq!(capture.poll(sample(false, true, true, 0x55)), CaptureEvent::Pending);
    assert_eq!(capture.poll(sample(false, false, false, 0)), CaptureEvent::Row(0));
    assert_eq!(capture.row(), &vec![0x4455]);
}
