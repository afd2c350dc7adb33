//! A polled pixel pipeline between a parallel-output image sensor and a
//! serial-bus display without a framebuffer of its own.
//!
//! The crate holds the decisions of the pipeline and none of its wiring:
//! every driver is either a function from plain values to the operations
//! that must reach the wire, or a state machine that is fed what the
//! hardware answered and says what to do next. Whoever owns the peripherals
//! performs the operations and hands the answers back.
//!
//! * [`pixel`]: the two pixel encodings and the conversion between them.
//! * [`wait`]: polls that give up at a limit.
//! * [`bus`]: register transactions on the two-wire bus.
//! * [`recovery`]: freeing a two-wire bus whose data line is held low.
//! * [`profile`]: the registers that put the sensor into its capture mode.
//! * [`capture`]: following sync, clock and data lines through a frame.
//! * [`display`]: the command and data framing of the display.
//! * [`camera`]: the sensor as a whole, from calibration to drawn frame.
//!
//! Three modules stand in for the hardware, so that the drivers can be run
//! and their behaviour stated without it: [`simulated`] is a sensor on the
//! two-wire bus, [`signal`] is a sensor's video lines, and [`panel`] is the
//! display's side of its wire.

pub mod pixel;
pub mod wait;
pub mod bus;
pub mod recovery;
pub mod simulated;
pub mod profile;
pub mod capture;
pub mod signal;
pub mod display;
pub mod panel;
pub mod camera;
