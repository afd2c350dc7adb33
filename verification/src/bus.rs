//! The two-wire register bus: one transaction reads or writes one 8-bit
//! register of a device.
//!
//! A transaction is compiled to a fixed list of steps. A [`BusDriver`] walks
//! that list: it says which step is due, is told what the bus controller
//! answered, and bounds every wait for a status flag.

use vstd::prelude::*;
use crate::wait::{poll_status, BoundedWait, WaitStatus};

verus! {

/// Why a bus operation was given up.
#[derive(Clone, Copy, Debug, PartialEq, Eq, Structural)]
pub enum BusError {
    /// A status flag did not come up within the allowed polls.
    Timeout,
    /// Recovery spent all its clock pulses and the data line is still held.
    RecoveryFailed,
}

/// The status flags of the bus controller that a transaction waits for.
#[derive(Clone, Copy, Debug, PartialEq, Eq, Structural)]
pub enum BusFlag {
    /// The start condition is on the bus.
    StartSent,
    /// The addressed device has acknowledged.
    AddressAcked,
    /// The last byte has left the shift register.
    TransferFinished,
    /// A received byte is waiting in the data register.
    ReceiveReady,
}

/// One step of a transaction, and at the same time what the driver asks of
/// the bus controller.
#[derive(Clone, Copy, Debug, PartialEq, Eq, Structural)]
pub enum BusStep {
    /// Put a start condition on the bus.
    Start,
    /// Put a stop condition on the bus.
    Stop,
    /// Write a byte to the data register.
    Send(u8),
    /// Clear the pending address flag.
    ClearAddress,
    /// Answer the next received byte with a not-acknowledge and follow it
    /// with a stop condition.
    NackThenStop,
    /// Wait until a status flag is up. As a request: look at the flag once.
    Await(BusFlag),
    /// Read the data register.
    Receive,
}

/// What the bus controller answered to a request.
#[derive(Clone, Copy, Debug, PartialEq, Eq, Structural)]
pub enum BusReply {
    /// The request was carried out and has nothing to say.
    Done,
    /// The state of the flag that was looked at.
    Flag(bool),
    /// The byte that was in the data register.
    Byte(u8),
}

/// A register access. It lives for one call and is carried out at once.
#[derive(Clone, Copy, Debug, PartialEq, Eq, Structural)]
pub enum BusTransaction {
    /// Store `value` in a register.
    Write { device: u8, register: u8, value: u8 },
    /// Fetch a register.
    Read { device: u8, register: u8 },
}

/// The first byte of a transfer: the device's 7-bit address above the
/// direction bit, which is set for a read.
pub open spec fn address_byte(device: u8, read: bool) -> u8 {
    ((device as int % 128) * 2 + if read {
        1int
    } else {
        0int
    }) as u8
}

/// The steps that select a register: start, address the device for
/// writing, send the register's number.
pub open spec fn select_steps(device: u8, register: u8) -> Seq<BusStep> {
    seq![
        BusStep::Start,
        BusStep::Await(BusFlag::StartSent),
        BusStep::Send(address_byte(device, false)),
        BusStep::Await(BusFlag::AddressAcked),
        BusStep::ClearAddress,
        BusStep::Send(register),
        BusStep::Await(BusFlag::TransferFinished),
    ]
}

/// The steps of a register write.
pub open spec fn write_steps(device: u8, register: u8, value: u8) -> Seq<BusStep> {
    select_steps(device, register) + seq![
        BusStep::Send(value),
        BusStep::Await(BusFlag::TransferFinished),
        BusStep::Stop,
    ]
}

/// The steps of a register read: the register is selected by a write that
/// stops early, and fetched by a second transfer in the read direction.
pub open spec fn read_steps(device: u8, register: u8) -> Seq<BusStep> {
    select_steps(device, register) + seq![
        BusStep::Stop,
        BusStep::Start,
        BusStep::Await(BusFlag::StartSent),
        BusStep::Send(address_byte(device, true)),
        BusStep::Await(BusFlag::AddressAcked),
        BusStep::ClearAddress,
        BusStep::NackThenStop,
        BusStep::Await(BusFlag::ReceiveReady),
        BusStep::Receive,
    ]
}

impl BusTransaction {
    /// The steps of this transaction, in order.
    pub open spec fn steps_spec(self) -> Seq<BusStep> {
        match self {
            BusTransaction::Write { device, register, value } => write_steps(
                device,
                register,
                value,
            ),
            BusTransaction::Read { device, register } => read_steps(device, register),
        }
    }

    /// Compiles the transaction to its steps.
    pub fn steps(&self) -> (steps: Vec<BusStep>)
        ensures
            steps@ == self.steps_spec(),
    {
        let mut steps: Vec<BusStep> = Vec::new();
        match *self {
            BusTransaction::Write { device, register, value } => {
                push_select(&mut steps, device, register);
                steps.push(BusStep::Send(value));
                steps.push(BusStep::Await(BusFlag::TransferFinished));
                steps.push(BusStep::Stop);
                assert(steps@ =~= write_steps(device, register, value));
            },
            BusTransaction::Read { device, register } => {
                push_select(&mut steps, device, register);
                steps.push(BusStep::Stop);
                steps.push(BusStep::Start);
                steps.push(BusStep::Await(BusFlag::StartSent));
                steps.push(BusStep::Send(first_byte(device, true)));
                steps.push(BusStep::Await(BusFlag::AddressAcked));
                steps.push(BusStep::ClearAddress);
                steps.push(BusStep::NackThenStop);
                steps.push(BusStep::Await(BusFlag::ReceiveReady));
                steps.push(BusStep::Receive);
                assert(steps@ =~= read_steps(device, register));
            },
        }
        steps
    }
}

/// Computes the first byte of a transfer.
pub fn first_byte(device: u8, read: bool) -> (byte: u8)
    ensures
        byte == address_byte(device, read),
{
    let direction: u8 = if read {
        1
    } else {
        0
    };
    let byte: u8 = ((device & 0x7F) << 1) | direction;
    assert(byte == (device % 128) * 2 + direction) by (bit_vector)
        requires
            byte == ((device & 0x7F) << 1) | direction,
            direction == 0 || direction == 1,
    ;
    byte
}

fn push_select(steps: &mut Vec<BusStep>, device: u8, register: u8)
    requires
        old(steps)@.len() == 0,
    ensures
        final(steps)@ == select_steps(device, register),
{
    steps.push(BusStep::Start);
    steps.push(BusStep::Await(BusFlag::StartSent));
    steps.push(BusStep::Send(first_byte(device, false)));
    steps.push(BusStep::Await(BusFlag::AddressAcked));
    steps.push(BusStep::ClearAddress);
    steps.push(BusStep::Send(register));
    steps.push(BusStep::Await(BusFlag::TransferFinished));
    assert(steps@ =~= select_steps(device, register));
}

/// The state of a driver: where it stands in its list of steps.
pub struct DriverState {
    /// The steps of the transaction.
    pub steps: Seq<BusStep>,
    /// The number of steps that are done.
    pub cursor: nat,
    /// The polls that every wait is allowed.
    pub limit: nat,
    /// The polls that the wait in progress is still allowed.
    pub polls_left: nat,
    /// The byte that was received, once it was.
    pub received: Option<u8>,
    /// A wait has expired.
    pub failed: bool,
}

impl DriverState {
    /// The state before the first step.
    pub open spec fn start(steps: Seq<BusStep>, limit: nat) -> DriverState {
        DriverState { steps, cursor: 0, limit, polls_left: limit, received: None, failed: false }
    }

    /// The cursor is inside the list, no wait has more polls than the limit,
    /// and a byte is held as soon as a receive step is done.
    pub open spec fn wf(self) -> bool {
        &&& self.cursor <= self.steps.len()
        &&& self.polls_left <= self.limit
        &&& forall|i: int|
            0 <= i < self.cursor && self.steps[i] == BusStep::Receive ==> self.received is Some
    }

    /// Nothing is left to do: all steps are done or a wait has expired.
    pub open spec fn finished(self) -> bool {
        self.failed || self.cursor >= self.steps.len()
    }

    /// The step that is due.
    pub open spec fn request(self) -> Option<BusStep> {
        if self.finished() {
            None
        } else {
            Some(self.steps[self.cursor as int])
        }
    }

    /// Whether `reply` is what the step that is due was waiting for. A step
    /// that waits for nothing is satisfied by any reply.
    pub open spec fn satisfied(self, reply: BusReply) -> bool {
        match self.steps[self.cursor as int] {
            BusStep::Await(_) => reply == BusReply::Flag(true),
            BusStep::Receive => reply is Byte,
            _ => true,
        }
    }

    /// The state after `reply` to the step that was due: the next step with
    /// a fresh wait, the same step with one poll less, or failure.
    pub open spec fn respond(self, reply: BusReply) -> DriverState {
        if self.finished() {
            self
        } else {
            match poll_status(self.polls_left_for_step(), self.satisfied(reply)) {
                WaitStatus::Ready => DriverState {
                    cursor: self.cursor + 1,
                    polls_left: self.limit,
                    received: match (self.steps[self.cursor as int], reply) {
                        (BusStep::Receive, BusReply::Byte(byte)) => Some(byte),
                        _ => self.received,
                    },
                    ..self
                },
                WaitStatus::Pending => DriverState {
                    polls_left: (self.polls_left - 1) as nat,
                    ..self
                },
                WaitStatus::Expired => DriverState { polls_left: 0, failed: true, ..self },
            }
        }
    }

    /// The polls that the step that is due may take: a step that waits for
    /// nothing is always carried out.
    pub open spec fn polls_left_for_step(self) -> nat {
        match self.steps[self.cursor as int] {
            BusStep::Await(_) => self.polls_left,
            BusStep::Receive => self.polls_left,
            _ => 1,
        }
    }

    /// How the transaction ended, once it has.
    pub open spec fn outcome(self) -> Option<Result<Option<u8>, BusError>> {
        if self.failed {
            Some(Err(BusError::Timeout))
        } else if self.cursor >= self.steps.len() {
            Some(Ok(self.received))
        } else {
            None
        }
    }

    /// The most replies that the driver can still take.
    pub open spec fn exchanges_left(self) -> nat {
        if self.finished() {
            0
        } else {
            let each = if self.limit >= 1 {
                self.limit
            } else {
                1
            };
            let here = if self.polls_left >= 1 {
                self.polls_left
            } else {
                1
            };
            ((self.steps.len() - self.cursor - 1) * each + here) as nat
        }
    }
}

/// Walks the steps of one transaction.
pub struct BusDriver {
    steps: Vec<BusStep>,
    cursor: usize,
    limit: u32,
    wait: BoundedWait,
    received: Option<u8>,
    failed: bool,
}

impl View for BusDriver {
    type V = DriverState;

    closed spec fn view(&self) -> DriverState {
        DriverState {
            steps: self.steps@,
            cursor: self.cursor as nat,
            limit: self.limit as nat,
            polls_left: self.wait@,
            received: self.received,
            failed: self.failed,
        }
    }
}

impl BusDriver {
    /// A driver for `transaction` that gives every wait `poll_limit` polls.
    pub fn new(transaction: BusTransaction, poll_limit: u32) -> (driver: BusDriver)
        ensures
            driver@ == DriverState::start(transaction.steps_spec(), poll_limit as nat),
            driver@.wf(),
    {
        BusDriver {
            steps: transaction.steps(),
            cursor: 0,
            limit: poll_limit,
            wait: BoundedWait::new(poll_limit),
            received: None,
            failed: false,
        }
    }

    /// The step that is due, or `None` once the transaction has ended.
    pub fn request(&self) -> (step: Option<BusStep>)
        requires
            self@.wf(),
        ensures
            step == self@.request(),
    {
        if self.failed || self.cursor >= self.steps.len() {
            None
        } else {
            Some(self.steps[self.cursor])
        }
    }

    /// Takes the bus controller's answer to the step that was due.
    pub fn respond(&mut self, reply: BusReply)
        requires
            old(self)@.wf(),
        ensures
            final(self)@ == old(self)@.respond(reply),
            final(self)@.wf(),
    {
        if self.failed || self.cursor >= self.steps.len() {
            return ;
        }
        let step = self.steps[self.cursor];
        let status = match step {
            BusStep::Await(_) => {
                let up = match reply {
                    BusReply::Flag(up) => up,
                    _ => false,
                };
                self.wait.poll(up)
            },
            BusStep::Receive => {
                let arrived = match reply {
                    BusReply::Byte(_) => true,
                    _ => false,
                };
                self.wait.poll(arrived)
            },
            _ => WaitStatus::Ready,
        };
        match status {
            WaitStatus::Ready => {
                match (step, reply) {
                    (BusStep::Receive, BusReply::Byte(byte)) => {
                        self.received = Some(byte);
                    },
                    _ => {},
                }
                self.cursor = self.cursor + 1;
                self.wait = BoundedWait::new(self.limit);
            },
            WaitStatus::Pending => {},
            WaitStatus::Expired => {
                self.failed = true;
            },
        }
    }

    /// How the transaction ended: the received byte, if it had one to
    /// receive, or the error. `None` while steps are due.
    pub fn outcome(&self) -> (outcome: Option<Result<Option<u8>, BusError>>)
        requires
            self@.wf(),
        ensures
            outcome == self@.outcome(),
    {
        if self.failed {
            Some(Err(BusError::Timeout))
        } else if self.cursor >= self.steps.len() {
            Some(Ok(self.received))
        } else {
            None
        }
    }
}

/// Every reply brings a transaction nearer to its end, whatever the reply
/// is: a driver that starts on `n` steps with a limit of `l` polls takes at
/// most `n * max(l, 1)` replies before it has an outcome.
pub proof fn lemma_reply_makes_progress(state: DriverState, reply: BusReply)
    requires
        state.wf(),
    ensures
        state.respond(reply).wf(),
        state.respond(reply).steps == state.steps,
        state.respond(reply).limit == state.limit,
        !state.finished() ==> state.respond(reply).exchanges_left() < state.exchanges_left(),
        state.finished() ==> state.respond(reply) == state,
        state.exchanges_left() == 0 <==> state.outcome() is Some,
        state == DriverState::start(state.steps, state.limit) ==> state.exchanges_left()
            == state.steps.len() * if state.limit >= 1 {
            state.limit
        } else {
            1
        },
{
    let each: int = if state.limit >= 1 {
        state.limit as int
    } else {
        1
    };
    let rest: int = state.steps.len() - state.cursor - 1;
    if !state.finished() {
        assert(rest * each == (rest - 1) * each + each) by (nonlinear_arith);
        assert(rest * each >= 0) by (nonlinear_arith)
            requires
                rest >= 0,
                each >= 1,
        ;
        assert(rest >= 1 ==> (rest - 1) * each >= 0) by (nonlinear_arith)
            requires
                each >= 1,
        ;
    }
    if state == DriverState::start(state.steps, state.limit) && state.steps.len() > 0 {
        assert(state.steps.len() * each == rest * each + each) by (nonlinear_arith)
            requires
                rest == state.steps.len() - 1,
        ;
    }
}

/// A transaction is one piece: it opens with a start condition, addresses
/// the device before anything else is sent, and the last thing that it puts
/// on the bus is a stop condition. A write carries its value after the
/// register's number; a read ends by fetching one byte.
pub proof fn lemma_transaction_shape(transaction: BusTransaction)
    ensures
        transaction.steps_spec().first() == BusStep::Start,
        transaction.steps_spec()[2] == BusStep::Send(
            address_byte(
                match transaction {
                    BusTransaction::Write { device, .. } => device,
                    BusTransaction::Read { device, .. } => device,
                },
                false,
            ),
        ),
        transaction matches BusTransaction::Write { register, value, .. } ==> {
            &&& transaction.steps_spec().len() == 10
            &&& transaction.steps_spec()[5] == BusStep::Send(register)
            &&& transaction.steps_spec()[7] == BusStep::Send(value)
            &&& transaction.steps_spec().last() == BusStep::Stop
            &&& forall|i: int| 0 <= i < 10 ==> transaction.steps_spec()[i] != BusStep::Receive
        },
        transaction matches BusTransaction::Read { device, register } ==> {
            &&& transaction.steps_spec().len() == 16
            &&& transaction.steps_spec()[5] == BusStep::Send(register)
            &&& transaction.steps_spec()[7] == BusStep::Stop
            &&& transaction.steps_spec()[8] == BusStep::Start
            &&& transaction.steps_spec()[10] == BusStep::Send(address_byte(device, true))
            &&& transaction.steps_spec()[13] == BusStep::NackThenStop
            &&& transaction.steps_spec().last() == BusStep::Receive
        },
{
}

} // verus!
