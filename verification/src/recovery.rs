//! Recovery of a wedged two-wire bus. A device that was interrupted in the
//! middle of a byte may hold the data line low for good. The remedy is to
//! take both lines over as plain outputs, clock the device until it lets
//! go, close with a stop condition made by hand, and give the lines back to
//! the bus controller.

use vstd::prelude::*;
use crate::bus::BusError;

verus! {

/// One thing to do on the two lines.
#[derive(Clone, Copy, Debug, PartialEq, Eq, Structural)]
pub enum LineStep {
    /// Make both lines plain outputs.
    ClaimLines,
    /// Drive both lines high, the idle state of the bus.
    IdleLines,
    /// Drive the clock line low.
    ClockLow,
    /// Drive the clock line high.
    ClockHigh,
    /// Drive the data line low.
    DataLow,
    /// Drive the data line high.
    DataHigh,
    /// Do nothing for [`PAUSE_CYCLES`].
    Pause,
    /// Read the level of the data line.
    SenseData,
    /// Give both lines back to the bus controller.
    RestoreLines,
}

/// The most clock pulses that recovery sends: a byte and its acknowledge.
pub const MAX_PULSES: u8 = 9;

/// The length of a pause, in processor cycles.
pub const PAUSE_CYCLES: u32 = 1000;

/// The most steps that one recovery takes.
pub const MAX_STEPS: u32 = 55;

/// Where a recovery stands. Each stage names the step that is due.
#[derive(Clone, Copy, Debug, PartialEq, Eq, Structural)]
pub enum RecoveryStage {
    Claim,
    Idle,
    Sense,
    PulseLow,
    PulseLowPause,
    PulseHigh,
    PulseHighPause,
    StopData,
    StopDataPause,
    StopClock,
    StopClockPause,
    StopRelease,
    StopReleasePause,
    Restore,
    Done,
}

/// The state of a recovery.
pub struct RecoveryState {
    /// The step that is due.
    pub stage: RecoveryStage,
    /// The clock pulses that were sent.
    pub pulses: nat,
    /// The data line was seen high.
    pub released: bool,
}

impl RecoveryState {
    /// The state before the first step.
    pub open spec fn start() -> RecoveryState {
        RecoveryState { stage: RecoveryStage::Claim, pulses: 0, released: false }
    }

    /// A pulse is in progress.
    pub open spec fn pulsing(self) -> bool {
        self.stage == RecoveryStage::PulseLow || self.stage == RecoveryStage::PulseLowPause
            || self.stage == RecoveryStage::PulseHigh || self.stage
            == RecoveryStage::PulseHighPause
    }

    /// No more pulses were sent than are allowed, the one in progress
    /// included.
    pub open spec fn wf(self) -> bool {
        self.pulses <= MAX_PULSES && (self.pulsing() ==> self.pulses < MAX_PULSES)
    }

    /// The step that is due, or `None` at the end.
    pub open spec fn request(self) -> Option<LineStep> {
        match self.stage {
            RecoveryStage::Claim => Some(LineStep::ClaimLines),
            RecoveryStage::Idle => Some(LineStep::IdleLines),
            RecoveryStage::Sense => Some(LineStep::SenseData),
            RecoveryStage::PulseLow => Some(LineStep::ClockLow),
            RecoveryStage::PulseLowPause => Some(LineStep::Pause),
            RecoveryStage::PulseHigh => Some(LineStep::ClockHigh),
            RecoveryStage::PulseHighPause => Some(LineStep::Pause),
            RecoveryStage::StopData => Some(LineStep::DataLow),
            RecoveryStage::StopDataPause => Some(LineStep::Pause),
            RecoveryStage::StopClock => Some(LineStep::ClockHigh),
            RecoveryStage::StopClockPause => Some(LineStep::Pause),
            RecoveryStage::StopRelease => Some(LineStep::DataHigh),
            RecoveryStage::StopReleasePause => Some(LineStep::Pause),
            RecoveryStage::Restore => Some(LineStep::RestoreLines),
            RecoveryStage::Done => None,
        }
    }

    /// The state after the step that was due. `level` is the level of the
    /// data line and counts only where that step was to read it: a high
    /// line is released and the stop condition follows; a low line gets
    /// another pulse, unless all pulses were sent.
    pub open spec fn respond(self, level: bool) -> RecoveryState {
        match self.stage {
            RecoveryStage::Claim => RecoveryState { stage: RecoveryStage::Idle, ..self },
            RecoveryStage::Idle => RecoveryState { stage: RecoveryStage::Sense, ..self },
            RecoveryStage::Sense => if level {
                RecoveryState { stage: RecoveryStage::StopData, released: true, ..self }
            } else if self.pulses >= MAX_PULSES {
                RecoveryState { stage: RecoveryStage::StopData, ..self }
            } else {
                RecoveryState { stage: RecoveryStage::PulseLow, ..self }
            },
            RecoveryStage::PulseLow => RecoveryState { stage: RecoveryStage::PulseLowPause, ..self },
            RecoveryStage::PulseLowPause => RecoveryState { stage: RecoveryStage::PulseHigh, ..self },
            RecoveryStage::PulseHigh => RecoveryState {
                stage: RecoveryStage::PulseHighPause,
                ..self
            },
            RecoveryStage::PulseHighPause => RecoveryState {
                stage: RecoveryStage::Sense,
                pulses: self.pulses + 1,
                ..self
            },
            RecoveryStage::StopData => RecoveryState { stage: RecoveryStage::StopDataPause, ..self },
            RecoveryStage::StopDataPause => RecoveryState { stage: RecoveryStage::StopClock, ..self },
            RecoveryStage::StopClock => RecoveryState {
                stage: RecoveryStage::StopClockPause,
                ..self
            },
            RecoveryStage::StopClockPause => RecoveryState {
                stage: RecoveryStage::StopRelease,
                ..self
            },
            RecoveryStage::StopRelease => RecoveryState {
                stage: RecoveryStage::StopReleasePause,
                ..self
            },
            RecoveryStage::StopReleasePause => RecoveryState {
                stage: RecoveryStage::Restore,
                ..self
            },
            RecoveryStage::Restore => RecoveryState { stage: RecoveryStage::Done, ..self },
            RecoveryStage::Done => self,
        }
    }

    /// How the recovery ended, once it has: well if the data line was seen
    /// high, and failed if it was still low after the last pulse.
    pub open spec fn outcome(self) -> Option<Result<(), BusError>> {
        if self.stage == RecoveryStage::Done {
            if self.released {
                Some(Ok(()))
            } else {
                Some(Err(BusError::RecoveryFailed))
            }
        } else {
            None
        }
    }

    /// The most steps that are still to come.
    pub open spec fn steps_left(self) -> nat {
        let pulses_left = (MAX_PULSES - self.pulses) as nat;
        match self.stage {
            RecoveryStage::Claim => 10 + 5 * pulses_left,
            RecoveryStage::Idle => 9 + 5 * pulses_left,
            RecoveryStage::Sense => 8 + 5 * pulses_left,
            RecoveryStage::PulseLow => 7 + 5 * pulses_left,
            RecoveryStage::PulseLowPause => 6 + 5 * pulses_left,
            RecoveryStage::PulseHigh => 5 + 5 * pulses_left,
            RecoveryStage::PulseHighPause => 4 + 5 * pulses_left,
            RecoveryStage::StopData => 7,
            RecoveryStage::StopDataPause => 6,
            RecoveryStage::StopClock => 5,
            RecoveryStage::StopClockPause => 4,
            RecoveryStage::StopRelease => 3,
            RecoveryStage::StopReleasePause => 2,
            RecoveryStage::Restore => 1,
            RecoveryStage::Done => 0,
        }
    }
}

/// Walks a bus recovery step by step.
#[derive(Clone, Copy, Debug)]
pub struct Recovery {
    stage: RecoveryStage,
    pulses: u8,
    released: bool,
}

impl View for Recovery {
    type V = RecoveryState;

    closed spec fn view(&self) -> RecoveryState {
        RecoveryState { stage: self.stage, pulses: self.pulses as nat, released: self.released }
    }
}

impl Recovery {
    /// A recovery that has not begun.
    pub fn new() -> (recovery: Recovery)
        ensures
            recovery@ == RecoveryState::start(),
            recovery@.wf(),
    {
        Recovery { stage: RecoveryStage::Claim, pulses: 0, released: false }
    }

    /// The clock pulses that were sent so far.
    pub fn pulses(&self) -> (pulses: u8)
        ensures
            pulses == self@.pulses,
    {
        self.pulses
    }

    /// The step that is due, or `None` once the recovery has ended.
    pub fn request(&self) -> (step: Option<LineStep>)
        ensures
            step == self@.request(),
    {
        match self.stage {
            RecoveryStage::Claim => Some(LineStep::ClaimLines),
            RecoveryStage::Idle => Some(LineStep::IdleLines),
            RecoveryStage::Sense => Some(LineStep::SenseData),
            RecoveryStage::PulseLow => Some(LineStep::ClockLow),
            RecoveryStage::PulseLowPause => Some(LineStep::Pause),
            RecoveryStage::PulseHigh => Some(LineStep::ClockHigh),
            RecoveryStage::PulseHighPause => Some(LineStep::Pause),
            RecoveryStage::StopData => Some(LineStep::DataLow),
            RecoveryStage::StopDataPause => Some(LineStep::Pause),
            RecoveryStage::StopClock => Some(LineStep::ClockHigh),
            RecoveryStage::StopClockPause => Some(LineStep::Pause),
            RecoveryStage::StopRelease => Some(LineStep::DataHigh),
            RecoveryStage::StopReleasePause => Some(LineStep::Pause),
            RecoveryStage::Restore => Some(LineStep::RestoreLines),
            RecoveryStage::Done => None,
        }
    }

    /// Records that the step that was due is done. `level` is the level of
    /// the data line, if the step was to read it, and is ignored otherwise.
    pub fn respond(&mut self, level: bool)
        requires
            old(self)@.wf(),
        ensures
            final(self)@ == old(self)@.respond(level),
            final(self)@.wf(),
    {
        match self.stage {
            RecoveryStage::Claim => {
                self.stage = RecoveryStage::Idle;
            },
            RecoveryStage::Idle => {
                self.stage = RecoveryStage::Sense;
            },
            RecoveryStage::Sense => {
                if level {
                    self.released = true;
                    self.stage = RecoveryStage::StopData;
                } else if self.pulses >= MAX_PULSES {
                    self.stage = RecoveryStage::StopData;
                } else {
                    self.stage = RecoveryStage::PulseLow;
                }
            },
            RecoveryStage::PulseLow => {
                self.stage = RecoveryStage::PulseLowPause;
            },
            RecoveryStage::PulseLowPause => {
                self.stage = RecoveryStage::PulseHigh;
            },
            RecoveryStage::PulseHigh => {
                self.stage = RecoveryStage::PulseHighPause;
            },
            RecoveryStage::PulseHighPause => {
                self.pulses = self.pulses + 1;
                self.stage = RecoveryStage::Sense;
            },
            RecoveryStage::StopData => {
                self.stage = RecoveryStage::StopDataPause;
            },
            RecoveryStage::StopDataPause => {
                self.stage = RecoveryStage::StopClock;
            },
            RecoveryStage::StopClock => {
                self.stage = RecoveryStage::StopClockPause;
            },
            RecoveryStage::StopClockPause => {
                self.stage = RecoveryStage::StopRelease;
            },
            RecoveryStage::StopRelease => {
                self.stage = RecoveryStage::StopReleasePause;
            },
            RecoveryStage::StopReleasePause => {
                self.stage = RecoveryStage::Restore;
            },
            RecoveryStage::Restore => {
                self.stage = RecoveryStage::Done;
            },
            RecoveryStage::Done => {},
        }
    }

    /// How the recovery ended, or `None` while steps are due.
    pub fn outcome(&self) -> (outcome: Option<Result<(), BusError>>)
        ensures
            outcome == self@.outcome(),
    {
        match self.stage {
            RecoveryStage::Done => if self.released {
                Some(Ok(()))
            } else {
                Some(Err(BusError::RecoveryFailed))
            },
            _ => None,
        }
    }
}

/// Every step brings a recovery nearer to its end, whatever the data line
/// does: no recovery takes more than [`MAX_STEPS`] steps or sends more than
/// [`MAX_PULSES`] pulses.
pub proof fn lemma_recovery_is_bounded(state: RecoveryState, level: bool)
    requires
        state.wf(),
    ensures
        state.respond(level).wf(),
        state.request() is Some ==> state.respond(level).steps_left() < state.steps_left(),
        state.request() is None ==> state.respond(level) == state,
        state.steps_left() <= MAX_STEPS,
        RecoveryState::start().wf(),
        RecoveryState::start().steps_left() == MAX_STEPS,
        state.steps_left() == 0 <==> state.outcome() is Some,
        state.pulses <= state.respond(level).pulses <= MAX_PULSES,
{
}

/// Whether the data line is low at the reading of the given number. A
/// reading that the list does not hold finds the line low.
pub open spec fn held(levels: Seq<bool>, reading: int) -> bool {
    reading >= levels.len() || !levels[reading]
}

/// The pulses that are sent in all, where `sent` were sent and the line was
/// low at every reading so far.
pub open spec fn pulses_from(levels: Seq<bool>, sent: nat) -> nat
    decreases MAX_PULSES - sent,
{
    if sent >= MAX_PULSES || !held(levels, sent as int) {
        sent
    } else {
        pulses_from(levels, sent + 1)
    }
}

/// The pulses that a recovery sends on a data line with these levels: one
/// for each reading that finds the line low, up to the allowed number.
pub open spec fn pulses_needed(levels: Seq<bool>) -> nat {
    pulses_from(levels, 0)
}

/// A reading of the data line and the pulse that answers a low line.
pub open spec fn pulse_steps() -> Seq<LineStep> {
    seq![
        LineStep::SenseData,
        LineStep::ClockLow,
        LineStep::Pause,
        LineStep::ClockHigh,
        LineStep::Pause,
    ]
}

/// `count` readings, each followed by a pulse.
pub open spec fn pulse_train(count: nat) -> Seq<LineStep>
    decreases count,
{
    if count == 0 {
        Seq::empty()
    } else {
        pulse_train((count - 1) as nat) + pulse_steps()
    }
}

/// The stop condition made by hand: the data line rises while the clock
/// line is high.
pub open spec fn stop_steps() -> Seq<LineStep> {
    seq![
        LineStep::DataLow,
        LineStep::Pause,
        LineStep::ClockHigh,
        LineStep::Pause,
        LineStep::DataHigh,
        LineStep::Pause,
    ]
}

/// All steps of a recovery that sends `pulses` pulses.
pub open spec fn recovery_steps(pulses: nat) -> Seq<LineStep> {
    seq![LineStep::ClaimLines, LineStep::IdleLines] + pulse_train(pulses) + seq![
        LineStep::SenseData,
    ] + stop_steps() + seq![LineStep::RestoreLines]
}

/// What a recovery returns on a data line with these levels.
pub open spec fn recovery_result(levels: Seq<bool>) -> Result<(), BusError> {
    if held(levels, pulses_needed(levels) as int) {
        Err(BusError::RecoveryFailed)
    } else {
        Ok(())
    }
}

/// The steps that were carried out when a recovery is in `state`.
spec fn carried_out(state: RecoveryState) -> Seq<LineStep> {
    let sensing = seq![LineStep::ClaimLines, LineStep::IdleLines] + pulse_train(state.pulses);
    let sensed = sensing + seq![LineStep::SenseData];
    match state.stage {
        RecoveryStage::Claim => Seq::empty(),
        RecoveryStage::Idle => seq![LineStep::ClaimLines],
        RecoveryStage::Sense => sensing,
        RecoveryStage::PulseLow => sensed,
        RecoveryStage::PulseLowPause => sensed + seq![LineStep::ClockLow],
        RecoveryStage::PulseHigh => sensed + seq![LineStep::ClockLow, LineStep::Pause],
        RecoveryStage::PulseHighPause => sensed + seq![
            LineStep::ClockLow,
            LineStep::Pause,
            LineStep::ClockHigh,
        ],
        RecoveryStage::StopData => sensed,
        RecoveryStage::StopDataPause => sensed + seq![LineStep::DataLow],
        RecoveryStage::StopClock => sensed + seq![LineStep::DataLow, LineStep::Pause],
        RecoveryStage::StopClockPause => sensed + seq![
            LineStep::DataLow,
            LineStep::Pause,
            LineStep::ClockHigh,
        ],
        RecoveryStage::StopRelease => sensed + seq![
            LineStep::DataLow,
            LineStep::Pause,
            LineStep::ClockHigh,
            LineStep::Pause,
        ],
        RecoveryStage::StopReleasePause => sensed + seq![
            LineStep::DataLow,
            LineStep::Pause,
            LineStep::ClockHigh,
            LineStep::Pause,
            LineStep::DataHigh,
        ],
        RecoveryStage::Restore => sensed + stop_steps(),
        RecoveryStage::Done => recovery_steps(state.pulses),
    }
}

/// How a recovery in `state` stands to the levels of the data line that it
/// has read.
spec fn follows(state: RecoveryState, levels: Seq<bool>) -> bool {
    match state.stage {
        RecoveryStage::Claim | RecoveryStage::Idle => state.pulses == 0 && !state.released,
        RecoveryStage::Sense => pulses_from(levels, state.pulses) == pulses_needed(levels)
            && !state.released,
        RecoveryStage::PulseLow
        | RecoveryStage::PulseLowPause
        | RecoveryStage::PulseHigh
        | RecoveryStage::PulseHighPause => pulses_from(levels, state.pulses + 1) == pulses_needed(
            levels,
        ) && !state.released,
        _ => state.pulses == pulses_needed(levels) && state.released == !held(
            levels,
            state.pulses as int,
        ),
    }
}

/// Runs a recovery on a data line that shows `levels`, one for each time the
/// line is read, and is low whenever it is read after that. Returns the
/// steps that were carried out and how the recovery ended.
pub fn recover(levels: &[bool]) -> (report: (Vec<LineStep>, Result<(), BusError>))
    ensures
        report.0@ == recovery_steps(pulses_needed(levels@)),
        report.1 == recovery_result(levels@),
        pulses_needed(levels@) <= MAX_PULSES,
        report.0@.len() == 10 + 5 * pulses_needed(levels@),
{
    let mut recovery = Recovery::new();
    let mut steps: Vec<LineStep> = Vec::new();
    let mut readings: usize = 0;
    loop
        invariant
            recovery@.wf(),
            steps@ == carried_out(recovery@),
            follows(recovery@, levels@),
            readings <= recovery@.pulses + 1,
            recovery@.pulsing() ==> readings == recovery@.pulses + 1,
            recovery@.stage == RecoveryStage::Claim || recovery@.stage == RecoveryStage::Idle
                || recovery@.stage == RecoveryStage::Sense ==> readings == recovery@.pulses,
        ensures
            recovery@.wf(),
            recovery@.stage == RecoveryStage::Done,
            steps@ == carried_out(recovery@),
            follows(recovery@, levels@),
        decreases recovery@.steps_left(),
    {
        proof {
            lemma_recovery_is_bounded(recovery@, false);
            lemma_recovery_is_bounded(recovery@, true);
        }
        match recovery.request() {
            None => {
                break ;
            },
            Some(step) => {
                let level = match step {
                    LineStep::SenseData => {
                        let level = readings < levels.len() && levels[readings];
                        readings = readings + 1;
                        level
                    },
                    _ => false,
                };
                let ghost before = recovery@;
                steps.push(step);
                recovery.respond(level);
                proof {
                    assert(pulse_train(before.pulses + 1) == pulse_train(before.pulses)
                        + pulse_steps());
                    assert(steps@ =~= carried_out(recovery@));
                }
            },
        }
    }
    proof {
        lemma_train_length(pulses_needed(levels@));
    }
    let result = match recovery.outcome() {
        Some(result) => result,
        None => Err(BusError::RecoveryFailed),
    };
    (steps, result)
}

/// Every reading with its pulse is five steps.
proof fn lemma_train_length(count: nat)
    ensures
        pulse_train(count).len() == 5 * count,
    decreases count,
{
    if count > 0 {
        lemma_train_length((count - 1) as nat);
    }
}

/// A recovery begins by taking the lines over and ends by giving them back,
/// with the stop condition just before; it is well exactly if one of the
/// readings that it makes finds the data line high.
pub proof fn lemma_recovery_shape(levels: Seq<bool>)
    ensures
        pulses_needed(levels) <= MAX_PULSES,
        recovery_steps(pulses_needed(levels)).len() == 10 + 5 * pulses_needed(levels),
        recovery_steps(pulses_needed(levels)).len() <= MAX_STEPS,
        recovery_steps(pulses_needed(levels)).first() == LineStep::ClaimLines,
        recovery_steps(pulses_needed(levels)).last() == LineStep::RestoreLines,
        recovery_result(levels) is Ok <==> exists|reading: int|
            0 <= reading <= MAX_PULSES && !held(levels, reading),
        forall|reading: int| 0 <= reading < pulses_needed(levels) ==> held(levels, reading),
{
    lemma_train_length(pulses_needed(levels));
    lemma_pulses_from(levels, 0);
    let needed = pulses_needed(levels);
    if !held(levels, needed as int) {
        assert(0 <= needed <= MAX_PULSES && !held(levels, needed as int));
    }
}

/// The readings from `sent` on, up to the one that ends the pulses, find the
/// line low.
proof fn lemma_pulses_from(levels: Seq<bool>, sent: nat)
    requires
        sent <= MAX_PULSES,
    ensures
        sent <= pulses_from(levels, sent) <= MAX_PULSES,
        forall|reading: int| sent <= reading < pulses_from(levels, sent) ==> held(levels, reading),
        pulses_from(levels, sent) < MAX_PULSES ==> !held(levels, pulses_from(levels, sent) as int),
    decreases MAX_PULSES - sent,
{
    if sent < MAX_PULSES && held(levels, sent as int) {
        lemma_pulses_from(levels, sent + 1);
    }
}

} // verus!
