//! A simulated sensor on the two-wire bus: a bus controller with its four
//! status flags in front of a file of 256 registers. It answers the
//! requests of a [`BusDriver`] as the hardware would, so that whole
//! transactions can be run, and reasoned about, without a wire.

use vstd::prelude::*;
use crate::bus::{
    address_byte, lemma_reply_makes_progress, read_steps, write_steps, BusDriver, BusError,
    BusFlag, BusReply, BusStep, BusTransaction,
};

verus! {

/// What the simulated device is doing on the bus.
#[derive(Clone, Copy, Debug, PartialEq, Eq, Structural)]
pub enum SensorRole {
    /// Not addressed.
    Idle,
    /// A start condition was seen; the next byte is an address.
    Addressing,
    /// Addressed for writing; the next byte is a register's number.
    Selecting,
    /// A register is selected; the next byte is stored in it.
    Storing,
    /// Addressed for reading; the selected register is sent.
    Fetching,
}

/// The state of the simulated sensor.
pub struct SensorState {
    /// The 7-bit address that the device answers to.
    pub address: u8,
    /// The register file.
    pub registers: Seq<u8>,
    /// The number of the selected register.
    pub pointer: u8,
    /// What the device is doing.
    pub role: SensorRole,
    /// The controller's flag for a start condition.
    pub start_sent: bool,
    /// The controller's flag for an acknowledged address.
    pub address_acked: bool,
    /// The controller's flag for a finished byte.
    pub transfer_finished: bool,
    /// The controller's flag for a received byte.
    pub receive_ready: bool,
    /// The received byte.
    pub latch: u8,
}

impl SensorState {
    /// An idle sensor at `address` with zero in every register.
    pub open spec fn idle(address: u8) -> SensorState {
        SensorState {
            address,
            registers: Seq::new(256, |i: int| 0u8),
            pointer: 0,
            role: SensorRole::Idle,
            start_sent: false,
            address_acked: false,
            transfer_finished: false,
            receive_ready: false,
            latch: 0,
        }
    }

    /// The register file is complete and the address has seven bits.
    pub open spec fn wf(self) -> bool {
        self.registers.len() == 256 && self.address < 128
    }

    /// The state of a status flag.
    pub open spec fn flag(self, flag: BusFlag) -> bool {
        match flag {
            BusFlag::StartSent => self.start_sent,
            BusFlag::AddressAcked => self.address_acked,
            BusFlag::TransferFinished => self.transfer_finished,
            BusFlag::ReceiveReady => self.receive_ready,
        }
    }

    /// The answer to a request.
    pub open spec fn reply(self, request: BusStep) -> BusReply {
        match request {
            BusStep::Await(flag) => BusReply::Flag(self.flag(flag)),
            BusStep::Receive => if self.receive_ready {
                BusReply::Byte(self.latch)
            } else {
                BusReply::Done
            },
            _ => BusReply::Done,
        }
    }

    /// The state after a byte was written to the data register.
    pub open spec fn after_send(self, byte: u8) -> SensorState {
        match self.role {
            SensorRole::Addressing => if byte / 2 == self.address {
                SensorState {
                    role: if byte % 2 == 0 {
                        SensorRole::Selecting
                    } else {
                        SensorRole::Fetching
                    },
                    start_sent: false,
                    address_acked: true,
                    ..self
                }
            } else {
                SensorState { role: SensorRole::Idle, start_sent: false, ..self }
            },
            SensorRole::Selecting => SensorState {
                role: SensorRole::Storing,
                pointer: byte,
                transfer_finished: true,
                ..self
            },
            SensorRole::Storing => SensorState {
                registers: self.registers.update(self.pointer as int, byte),
                transfer_finished: true,
                ..self
            },
            _ => self,
        }
    }

    /// The state after a request.
    pub open spec fn after(self, request: BusStep) -> SensorState {
        match request {
            BusStep::Start => SensorState {
                role: SensorRole::Addressing,
                start_sent: true,
                address_acked: false,
                transfer_finished: false,
                receive_ready: false,
                ..self
            },
            BusStep::Stop => SensorState {
                role: SensorRole::Idle,
                start_sent: false,
                address_acked: false,
                transfer_finished: false,
                ..self
            },
            BusStep::Send(byte) => self.after_send(byte),
            BusStep::ClearAddress => if self.role == SensorRole::Fetching && self.address_acked {
                SensorState {
                    address_acked: false,
                    receive_ready: true,
                    latch: self.registers[self.pointer as int],
                    ..self
                }
            } else {
                SensorState { address_acked: false, ..self }
            },
            BusStep::NackThenStop => self,
            BusStep::Await(_) => self,
            BusStep::Receive => if self.receive_ready {
                SensorState { role: SensorRole::Idle, receive_ready: false, ..self }
            } else {
                self
            },
        }
    }

    /// The state after a list of requests, one after the other.
    pub open spec fn settled(self, steps: Seq<BusStep>) -> SensorState
        decreases steps.len(),
    {
        if steps.len() == 0 {
            self
        } else {
            self.settled(steps.drop_last()).after(steps.last())
        }
    }

    /// Whether a transaction with `device` gets through: the device is this
    /// one, and its waits are allowed a poll at all.
    pub open spec fn answers(self, device: u8, poll_limit: u32) -> bool {
        poll_limit >= 1 && device % 128 == self.address
    }

    /// The number of steps of a transaction of `length` steps that are
    /// carried out. With no poll allowed the first wait expires, which
    /// follows the start condition; another device's address is sent and
    /// never acknowledged.
    pub open spec fn reach(self, device: u8, poll_limit: u32, length: nat) -> nat {
        if poll_limit == 0 {
            1
        } else if device % 128 != self.address {
            3
        } else {
            length
        }
    }

    /// The state after a register write was tried.
    pub open spec fn after_write(
        self,
        device: u8,
        register: u8,
        value: u8,
        poll_limit: u32,
    ) -> SensorState {
        self.settled(
            write_steps(device, register, value).take(self.reach(device, poll_limit, 10) as int),
        )
    }

    /// What a register write returns.
    pub open spec fn write_result(self, device: u8, poll_limit: u32) -> Result<(), BusError> {
        if self.answers(device, poll_limit) {
            Ok(())
        } else {
            Err(BusError::Timeout)
        }
    }

    /// The state after a register read was tried.
    pub open spec fn after_read(self, device: u8, register: u8, poll_limit: u32) -> SensorState {
        self.settled(read_steps(device, register).take(self.reach(device, poll_limit, 16) as int))
    }

    /// What a register read returns.
    pub open spec fn read_result(self, device: u8, register: u8, poll_limit: u32) -> Result<
        u8,
        BusError,
    > {
        if self.answers(device, poll_limit) {
            Ok(self.registers[register as int])
        } else {
            Err(BusError::Timeout)
        }
    }
}

/// A sensor that exists in memory only.
pub struct SimulatedSensor {
    address: u8,
    registers: Vec<u8>,
    pointer: u8,
    role: SensorRole,
    start_sent: bool,
    address_acked: bool,
    transfer_finished: bool,
    receive_ready: bool,
    latch: u8,
}

impl View for SimulatedSensor {
    type V = SensorState;

    closed spec fn view(&self) -> SensorState {
        SensorState {
            address: self.address,
            registers: self.registers@,
            pointer: self.pointer,
            role: self.role,
            start_sent: self.start_sent,
            address_acked: self.address_acked,
            transfer_finished: self.transfer_finished,
            receive_ready: self.receive_ready,
            latch: self.latch,
        }
    }
}

impl SimulatedSensor {
    /// An idle sensor that answers to the seven low bits of `address` and
    /// holds zero in every register.
    pub fn new(address: u8) -> (sensor: SimulatedSensor)
        ensures
            sensor@ == SensorState::idle(address % 128),
            sensor@.wf(),
    {
        let mut registers: Vec<u8> = Vec::new();
        let mut i: usize = 0;
        while i < 256
            invariant
                i <= 256,
                registers@.len() == i,
                forall|k: int| 0 <= k < i ==> registers@[k] == 0,
            decreases 256 - i,
        {
            registers.push(0);
            i += 1;
        }
        assert(registers@ =~= Seq::new(256, |i: int| 0u8));
        SimulatedSensor {
            address: address % 128,
            registers,
            pointer: 0,
            role: SensorRole::Idle,
            start_sent: false,
            address_acked: false,
            transfer_finished: false,
            receive_ready: false,
            latch: 0,
        }
    }

    /// What a register holds.
    pub fn register(&self, index: u8) -> (value: u8)
        requires
            self@.wf(),
        ensures
            value == self@.registers[index as int],
    {
        self.registers[index as usize]
    }

    /// Carries out one request of a driver and answers it.
    pub fn perform(&mut self, request: BusStep) -> (reply: BusReply)
        requires
            old(self)@.wf(),
        ensures
            reply == old(self)@.reply(request),
            final(self)@ == old(self)@.after(request),
            final(self)@.wf(),
    {
        match request {
            BusStep::Start => {
                self.role = SensorRole::Addressing;
                self.start_sent = true;
                self.address_acked = false;
                self.transfer_finished = false;
                self.receive_ready = false;
                BusReply::Done
            },
            BusStep::Stop => {
                self.role = SensorRole::Idle;
                self.start_sent = false;
                self.address_acked = false;
                self.transfer_finished = false;
                BusReply::Done
            },
            BusStep::Send(byte) => {
                match self.role {
                    SensorRole::Addressing => {
                        self.start_sent = false;
                        if byte / 2 == self.address {
                            self.address_acked = true;
                            self.role = if byte % 2 == 0 {
                                SensorRole::Selecting
                            } else {
                                SensorRole::Fetching
                            };
                        } else {
                            self.role = SensorRole::Idle;
                        }
                    },
                    SensorRole::Selecting => {
                        self.role = SensorRole::Storing;
                        self.pointer = byte;
                        self.transfer_finished = true;
                    },
                    SensorRole::Storing => {
                        let index = self.pointer as usize;
                        self.registers.set(index, byte);
                        self.transfer_finished = true;
                    },
                    _ => {},
                }
                BusReply::Done
            },
            BusStep::ClearAddress => {
                let fetching = match self.role {
                    SensorRole::Fetching => self.address_acked,
                    _ => false,
                };
                if fetching {
                    self.receive_ready = true;
                    self.latch = self.registers[self.pointer as usize];
                }
                self.address_acked = false;
                BusReply::Done
            },
            BusStep::NackThenStop => BusReply::Done,
            BusStep::Await(flag) => BusReply::Flag(
                match flag {
                    BusFlag::StartSent => self.start_sent,
                    BusFlag::AddressAcked => self.address_acked,
                    BusFlag::TransferFinished => self.transfer_finished,
                    BusFlag::ReceiveReady => self.receive_ready,
                },
            ),
            BusStep::Receive => {
                if self.receive_ready {
                    self.receive_ready = false;
                    self.role = SensorRole::Idle;
                    BusReply::Byte(self.latch)
                } else {
                    BusReply::Done
                }
            },
        }
    }

    /// Writes `value` to a register of the device at `device`, giving every
    /// wait `poll_limit` polls. The sensor stores the value if it is the
    /// device addressed; otherwise no flag comes up and the write times out.
    pub fn write(&mut self, device: u8, register: u8, value: u8, poll_limit: u32) -> (result:
        Result<(), BusError>)
        requires
            old(self)@.wf(),
        ensures
            result == old(self)@.write_result(device, poll_limit),
            final(self)@ == old(self)@.after_write(device, register, value, poll_limit),
            final(self)@.wf(),
            final(self)@.address == old(self)@.address,
            final(self)@.registers == if old(self)@.answers(device, poll_limit) {
                old(self)@.registers.update(register as int, value)
            } else {
                old(self)@.registers
            },
    {
        let ghost initial = self@;
        let ghost steps = write_steps(device, register, value);
        let mut driver = BusDriver::new(BusTransaction::Write { device, register, value }, poll_limit);
        proof {
            lemma_write_stages(initial, device, register, value);
        }
        loop
            invariant
                initial.wf(),
                self@.wf(),
                driver@.wf(),
                steps == write_steps(device, register, value),
                driver@.steps == steps,
                driver@.limit == poll_limit,
                driver@.cursor <= initial.reach(device, poll_limit, 10),
                self@ == initial.settled(steps.take(driver@.cursor as int)),
                driver@.cursor < initial.reach(device, poll_limit, 10) ==> !driver@.failed
                    && driver@.polls_left == poll_limit,
                driver@.failed ==> driver@.cursor == initial.reach(device, poll_limit, 10)
                    && !initial.answers(device, poll_limit),
            ensures
                driver@.wf(),
                driver@.finished(),
                driver@.steps == steps,
                driver@.cursor == initial.reach(device, poll_limit, 10),
                driver@.failed == !initial.answers(device, poll_limit),
                self@ == initial.settled(steps.take(driver@.cursor as int)),
            decreases driver@.exchanges_left(),
        {
            proof {
                lemma_write_stages(initial, device, register, value);
            }
            match driver.request() {
                None => {
                    break ;
                },
                Some(request) => {
                    proof {
                        lemma_reply_makes_progress(driver@, self@.reply(request));
                        lemma_settled_step(initial, steps, driver@.cursor as int);
                    }
                    let reply = self.perform(request);
                    driver.respond(reply);
                },
            }
        }
        proof {
            lemma_write_stages(initial, device, register, value);
        }
        match driver.outcome() {
            Some(Ok(_)) => Ok(()),
            _ => Err(BusError::Timeout),
        }
    }

    /// Reads a register of the device at `device`, giving every wait
    /// `poll_limit` polls. The sensor sends what the register holds if it is
    /// the device addressed; otherwise the read times out.
    pub fn read(&mut self, device: u8, register: u8, poll_limit: u32) -> (result: Result<
        u8,
        BusError,
    >)
        requires
            old(self)@.wf(),
        ensures
            result == old(self)@.read_result(device, register, poll_limit),
            final(self)@ == old(self)@.after_read(device, register, poll_limit),
            final(self)@.wf(),
            final(self)@.address == old(self)@.address,
            final(self)@.registers == old(self)@.registers,
    {
        let ghost initial = self@;
        let ghost steps = read_steps(device, register);
        let mut driver = BusDriver::new(BusTransaction::Read { device, register }, poll_limit);
        proof {
            lemma_read_stages(initial, device, register);
        }
        loop
            invariant
                initial.wf(),
                self@.wf(),
                driver@.wf(),
                steps == read_steps(device, register),
                driver@.steps == steps,
                driver@.limit == poll_limit,
                driver@.cursor <= initial.reach(device, poll_limit, 16),
                self@ == initial.settled(steps.take(driver@.cursor as int)),
                driver@.cursor < initial.reach(device, poll_limit, 16) ==> !driver@.failed
                    && driver@.polls_left == poll_limit,
                driver@.failed ==> driver@.cursor == initial.reach(device, poll_limit, 16)
                    && !initial.answers(device, poll_limit),
                driver@.cursor == 16 ==> driver@.received == Some(
                    initial.registers[register as int],
                ),
            ensures
                driver@.wf(),
                driver@.finished(),
                driver@.steps == steps,
                driver@.cursor == initial.reach(device, poll_limit, 16),
                driver@.failed == !initial.answers(device, poll_limit),
                self@ == initial.settled(steps.take(driver@.cursor as int)),
                driver@.cursor == 16 ==> driver@.received == Some(
                    initial.registers[register as int],
                ),
            decreases driver@.exchanges_left(),
        {
            proof {
                lemma_read_stages(initial, device, register);
            }
            match driver.request() {
                None => {
                    break ;
                },
                Some(request) => {
                    proof {
                        lemma_reply_makes_progress(driver@, self@.reply(request));
                        lemma_settled_step(initial, steps, driver@.cursor as int);
                    }
                    let reply = self.perform(request);
                    driver.respond(reply);
                },
            }
        }
        proof {
            lemma_read_stages(initial, device, register);
        }
        match driver.outcome() {
            Some(Ok(Some(value))) => Ok(value),
            _ => Err(BusError::Timeout),
        }
    }
}

/// Carrying out one more step is applying it to the state that the steps
/// before it left.
proof fn lemma_settled_step(initial: SensorState, steps: Seq<BusStep>, done: int)
    requires
        0 <= done < steps.len(),
    ensures
        initial.settled(steps.take(done + 1)) == initial.settled(steps.take(done)).after(
            steps[done],
        ),
{
    assert(steps.take(done + 1).drop_last() =~= steps.take(done));
}

/// The states that a register write goes through, step by step.
proof fn lemma_write_stages(initial: SensorState, device: u8, register: u8, value: u8)
    requires
        initial.wf(),
    ensures
        ({
            let steps = write_steps(device, register, value);
            let started = initial.after(BusStep::Start);
            let addressed = started.after(BusStep::Send(address_byte(device, false)));
            let cleared = addressed.after(BusStep::ClearAddress);
            let selected = cleared.after(BusStep::Send(register));
            let stored = selected.after(BusStep::Send(value));
            let stopped = stored.after(BusStep::Stop);
            &&& steps.len() == 10
            &&& initial.settled(steps.take(0)) == initial
            &&& initial.settled(steps.take(1)) == started
            &&& initial.settled(steps.take(2)) == started
            &&& initial.settled(steps.take(3)) == addressed
            &&& initial.settled(steps.take(4)) == addressed
            &&& initial.settled(steps.take(5)) == cleared
            &&& initial.settled(steps.take(6)) == selected
            &&& initial.settled(steps.take(7)) == selected
            &&& initial.settled(steps.take(8)) == stored
            &&& initial.settled(steps.take(9)) == stored
            &&& initial.settled(steps.take(10)) == stopped
            &&& started.start_sent
            &&& started.registers == initial.registers
            &&& addressed.address_acked == (device % 128 == initial.address)
            &&& addressed.registers == initial.registers
            &&& device % 128 == initial.address ==> {
                &&& selected.transfer_finished
                &&& stored.transfer_finished
                &&& stopped.registers == initial.registers.update(register as int, value)
            }
        }),
{
    let steps = write_steps(device, register, value);
    assert(steps.take(0) =~= Seq::<BusStep>::empty());
    lemma_settled_step(initial, steps, 0);
    lemma_settled_step(initial, steps, 1);
    lemma_settled_step(initial, steps, 2);
    lemma_settled_step(initial, steps, 3);
    lemma_settled_step(initial, steps, 4);
    lemma_settled_step(initial, steps, 5);
    lemma_settled_step(initial, steps, 6);
    lemma_settled_step(initial, steps, 7);
    lemma_settled_step(initial, steps, 8);
    lemma_settled_step(initial, steps, 9);
}

/// The states that a register read goes through, step by step.
proof fn lemma_read_stages(initial: SensorState, device: u8, register: u8)
    requires
        initial.wf(),
    ensures
        ({
            let steps = read_steps(device, register);
            let started = initial.after(BusStep::Start);
            let addressed = started.after(BusStep::Send(address_byte(device, false)));
            let cleared = addressed.after(BusStep::ClearAddress);
            let selected = cleared.after(BusStep::Send(register));
            let stopped = selected.after(BusStep::Stop);
            let restarted = stopped.after(BusStep::Start);
            let turned = restarted.after(BusStep::Send(address_byte(device, true)));
            let fetched = turned.after(BusStep::ClearAddress);
            let taken = fetched.after(BusStep::Receive);
            &&& steps.len() == 16
            &&& initial.settled(steps.take(0)) == initial
            &&& initial.settled(steps.take(1)) == started
            &&& initial.settled(steps.take(2)) == started
            &&& initial.settled(steps.take(3)) == addressed
            &&& initial.settled(steps.take(4)) == addressed
            &&& initial.settled(steps.take(5)) == cleared
            &&& initial.settled(steps.take(6)) == selected
            &&& initial.settled(steps.take(7)) == selected
            &&& initial.settled(steps.take(8)) == stopped
            &&& initial.settled(steps.take(9)) == restarted
            &&& initial.settled(steps.take(10)) == restarted
            &&& initial.settled(steps.take(11)) == turned
            &&& initial.settled(steps.take(12)) == turned
            &&& initial.settled(steps.take(13)) == fetched
            &&& initial.settled(steps.take(14)) == fetched
            &&& initial.settled(steps.take(15)) == fetched
            &&& initial.settled(steps.take(16)) == taken
            &&& started.start_sent
            &&& started.registers == initial.registers
            &&& addressed.address_acked == (device % 128 == initial.address)
            &&& addressed.registers == initial.registers
            &&& device % 128 == initial.address ==> {
                &&& selected.transfer_finished
                &&& restarted.start_sent
                &&& turned.address_acked
                &&& fetched.receive_ready
                &&& fetched.latch == initial.registers[register as int]
                &&& taken.registers == initial.registers
            }
        }),
{
    let steps = read_steps(device, register);
    assert(steps.take(0) =~= Seq::<BusStep>::empty());
    lemma_settled_step(initial, steps, 0);
    lemma_settled_step(initial, steps, 1);
    lemma_settled_step(initial, steps, 2);
    lemma_settled_step(initial, steps, 3);
    lemma_settled_step(initial, steps, 4);
    lemma_settled_step(initial, steps, 5);
    lemma_settled_step(initial, steps, 6);
    lemma_settled_step(initial, steps, 7);
    lemma_settled_step(initial, steps, 8);
    lemma_settled_step(initial, steps, 9);
    lemma_settled_step(initial, steps, 10);
    lemma_settled_step(initial, steps, 11);
    lemma_settled_step(initial, steps, 12);
    lemma_settled_step(initial, steps, 13);
    lemma_settled_step(initial, steps, 14);
    lemma_settled_step(initial, steps, 15);
}

/// A value written to a register of a sensor that answers is the value that
/// a read of that register returns afterwards, for every register and every
/// value. The write changes no other register, and the read changes none.
pub proof fn lemma_write_then_read(
    sensor: SensorState,
    device: u8,
    register: u8,
    value: u8,
    poll_limit: u32,
)
    requires
        sensor.wf(),
        sensor.answers(device, poll_limit),
    ensures
        sensor.write_result(device, poll_limit) == Ok::<(), BusError>(()),
        ({
            let written = sensor.after_write(device, register, value, poll_limit);
            &&& written.wf()
            &&& written.answers(device, poll_limit)
            &&& written.read_result(device, register, poll_limit) == Ok::<u8, BusError>(value)
            &&& written.registers == sensor.registers.update(register as int, value)
            &&& forall|other: u8|
                other != register ==> #[trigger] written.read_result(device, other, poll_limit)
                    == sensor.read_result(device, other, poll_limit)
            &&& written.after_read(device, register, poll_limit).registers == written.registers
        }),
{
    lemma_write_stages(sensor, device, register, value);
    let written = sensor.after_write(device, register, value, poll_limit);
    lemma_read_stages(written, device, register);
}

/// A transaction with a device that does not answer, or whose waits are
/// allowed no poll, times out and leaves every register as it was.
pub proof fn lemma_unanswered_times_out(
    sensor: SensorState,
    device: u8,
    register: u8,
    value: u8,
    poll_limit: u32,
)
    requires
        sensor.wf(),
        !sensor.answers(device, poll_limit),
    ensures
        sensor.write_result(device, poll_limit) == Err::<(), BusError>(BusError::Timeout),
        sensor.read_result(device, register, poll_limit) == Err::<u8, BusError>(
            BusError::Timeout,
        ),
        sensor.after_write(device, register, value, poll_limit).registers == sensor.registers,
        sensor.after_read(device, register, poll_limit).registers == sensor.registers,
{
    lemma_write_stages(sensor, device, register, value);
    lemma_read_stages(sensor, device, register);
}

/// No transaction changes the address that the sensor answers to or the
/// size of its register file, and a read changes no register.
pub proof fn lemma_transactions_keep_shape(
    sensor: SensorState,
    device: u8,
    register: u8,
    value: u8,
    poll_limit: u32,
)
    requires
        sensor.wf(),
    ensures
        sensor.after_write(device, register, value, poll_limit).wf(),
        sensor.after_write(device, register, value, poll_limit).address == sensor.address,
        sensor.after_read(device, register, poll_limit).wf(),
        sensor.after_read(device, register, poll_limit).address == sensor.address,
        sensor.after_read(device, register, poll_limit).registers == sensor.registers,
{
    lemma_write_stages(sensor, device, register, value);
    lemma_read_stages(sensor, device, register);
}

} // verus!
