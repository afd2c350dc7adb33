use pixel_pipeline::bus::{
    first_byte, BusDriver, BusError, BusFlag, BusReply, BusStep, BusTransaction,
};
use pixel_pipeline::simulated::SimulatedSensor;

fn answer_all(driver: &mut BusDriver, byte: u8) -> Vec<BusStep> {
    let mut asked = Vec::new();
    while let Some(step) = driver.request() {
        asked.push(step);
        let reply = match step {
            BusStep::Await(_) => BusReply::Flag(true),
            BusStep::Receive => BusReply::Byte(byte),
            _ => BusReply::Done,
        };
        driver.respond(reply);
    }
    asked
}

#[test]
fn first_byte_holds_address_and_direction() {
    assert_eq!(first_byte(0x21, false), 0x42);
    assert_eq!(first_byte(0x21, true), 0x43);
    assert_eq!(first_byte(0x7F, true), 0xFF);
    assert_eq!(first_byte(0x00, false), 0x00);
    assert_eq!(first_byte(0xA1, false), 0x42);
}

#[test]
fn write_transaction_steps() {
    let steps = BusTransaction::Write { device: 0x21, register: 0x12, value: 0x80 }.steps();
    assert_eq!(
        steps,
        vec![
            BusStep::Start,
            BusStep::Await(BusFlag::StartSent),
            BusStep::Send(0x42),
            BusStep::Await(BusFlag::AddressAcked),
            BusStep::ClearAddress,
            BusStep::Send(0x12),
            BusStep::Await(BusFlag::TransferFinished),
            BusStep::Send(0x80),
            BusStep::Await(BusFlag::TransferFinished),
            BusStep::Stop,
        ]
    );
}

#[test]
fn read_transaction_steps() {
    let steps = BusTransaction::Read { device: 0x21, register: 0x0A }.steps();
    assert_eq!(
        steps,
        vec![
            BusStep::Start,
            BusStep::Await(BusFlag::StartSent),
            BusStep::Send(0x42),
            BusStep::Await(BusFlag::AddressAcked),
            BusStep::ClearAddress,
            BusStep::Send(0x0A),
            BusStep::Await(BusFlag::TransferFinished),
            BusStep::Stop,
            BusStep::Start,
            BusStep::Await(BusFlag::StartSent),
            BusStep::Send(0x43),
            BusStep::Await(BusFlag::AddressAcked),
            BusStep::ClearAddress,
            BusStep::NackThenStop,
            BusStep::Await(BusFlag::ReceiveReady),
            BusStep::Receive,
        ]
    );
}

#[test]
fn driver_walks_a_write_in_order() {
    let transaction = BusTransaction::Write { device: 0x21, register: 0x11, value: 0x01 };
    let mut driver = BusDriver::new(transaction, 10);
    assert_eq!(driver.outcome(), None);
    let asked = answer_all(&mut driver, 0);
    assert_eq!(asked, transaction.steps());
    assert_eq!(driver.outcome(), Some(Ok(None)));
    assert_eq!(driver.request(), None);
}

#[test]
fn driver_returns_the_received_byte() {
    let transaction = BusTransaction::Read { device: 0x21, register: 0x11 };
    let mut driver = BusDriver::new(transaction, 10);
    let asked = answer_all(&mut driver, 0x5A);
    assert_eq!(asked, transaction.steps());
    assert_eq!(driver.outcome(), Some(Ok(Some(0x5A))));
}

#[test]
fn driver_repeats_a_wait_until_the_flag_is_up() {
    let mut driver = BusDriver::new(BusTransaction::Read { device: 0x21, register: 0 }, 4);
    driver.respond(BusReply::Done);
    for _ in 0..3 {
        assert_eq!(driver.request(), Some(BusStep::Await(BusFlag::StartSent)));
        driver.respond(BusReply::Flag(false));
    }
    assert_eq!(driver.request(), Some(BusStep::Await(BusFlag::StartSent)));
    driver.respond(BusReply::Flag(true));
    assert_eq!(driver.request(), Some(BusStep::Send(0x42)));
    assert_eq!(driver.outcome(), None);
}

#[test]
fn driver_times_out_at_the_poll_limit() {
    let mut driver = BusDriver::new(BusTransaction::Read { device: 0x21, register: 0 }, 4);
    driver.respond(BusReply::Done);
    for _ in 0..3 {
        driver.respond(BusReply::Flag(false));
        assert_eq!(driver.outcome(), None);
    }
    driver.respond(BusReply::Flag(false));
    assert_eq!(driver.outcome(), Some(Err(BusError::Timeout)));
    assert_eq!(driver.request(), None);
    driver.respond(BusReply::Flag(true));
    assert_eq!(driver.outcome(), Some(Err(BusError::Timeout)));
}

#[test]
fn every_wait_gets_the_whole_limit() {
    let transaction = BusTransaction::Write { device: 0x21, register: 1, value: 2 };
    let mut driver = BusDriver::new(transaction, 3);
    let mut replies = 0u32;
    while let Some(step) = driver.request() {
        replies += 1;
        match step {
            BusStep::Await(_) => {
                driver.respond(BusReply::Flag(false));
                driver.respond(BusReply::Flag(false));
                driver.respond(BusReply::Flag(true));
                replies += 2;
            }
            _ => driver.respond(BusReply::Done),
        }
    }
    assert_eq!(driver.outcome(), Some(Ok(None)));
    assert_eq!(replies, 6 + 4 * 3);
}

#[test]
fn driver_never_takes_more_replies_than_steps_times_limit() {
    for limit in 0..5u32 {
        let transaction = BusTransaction::Read { device: 0x21, register: 9 };
        let steps = transaction.steps().len() as u32;
        let mut driver = BusDriver::new(transaction, limit);
        let mut replies = 0u32;
        while driver.request().is_some() {
            driver.respond(BusReply::Flag(false));
            replies += 1;
            assert!(replies <= steps * limit.max(1));
        }
        assert_eq!(driver.outcome(), Some(Err(BusError::Timeout)));
    }
}

#[test]
fn a_wait_without_polls_expires_at_once() {
    let mut driver = BusDriver::new(BusTransaction::Read { device: 0x21, register: 0 }, 0);
    driver.respond(BusReply::Done);
    assert_eq!(driver.request(), Some(BusStep::Await(BusFlag::StartSent)));
    driver.respond(BusReply::Flag(true));
    assert_eq!(driver.outcome(), Some(Err(BusError::Timeout)));
}

#[test]
fn a_reply_that_is_no_byte_does_not_satisfy_a_receive() {
    let transaction = BusTransaction::Read { device: 0x21, register: 0 };
    let mut driver = BusDriver::new(transaction, 2);
    for _ in 0..15 {
        driver.respond(BusReply::Flag(true));
    }
    assert_eq!(driver.request(), Some(BusStep::Receive));
    driver.respond(BusReply::Done);
    assert_eq!(driver.request(), Some(BusStep::Receive));
    driver.respond(BusReply::Flag(true));
    assert_eq!(driver.outcome(), Some(Err(BusError::Timeout)));
}

#[test]
fn write_then_read_returns_the_written_value() {
    let mut sensor = SimulatedSensor::new(0x21);
    for register in 0..=255u8 {
        for value in [0x00u8, 0x01, 0x14, 0x7F, 0x80, 0xA5, 0xFF] {
            assert_eq!(sensor.write(0x21, register, value, 8), Ok(()));
            assert_eq!(sensor.read(0x21, register, 8), Ok(value));
            assert_eq!(sensor.register(register), value);
        }
    }
}

#[test]
fn write_then_read_for_every_value_of_one_register() {
    let mut sensor = SimulatedSensor::new(0x21);
    for value in 0..=255u8 {
        assert_eq!(sensor.write(0x21, 0x12, value, 1), Ok(()));
        assert_eq!(sensor.read(0x21, 0x12, 1), Ok(value));
    }
}

#[test]
fn a_write_changes_one_register_only() {
    let mut sensor = SimulatedSensor::new(0x21);
    assert_eq!(sensor.write(0x21, 0x10, 0xAA, 4), Ok(()));
    assert_eq!(sensor.write(0x21, 0x11, 0xBB, 4), Ok(()));
    assert_eq!(sensor.read(0x21, 0x10, 4), Ok(0xAA));
    assert_eq!(sensor.read(0x21, 0x11, 4), Ok(0xBB));
    assert_eq!(sensor.read(0x21, 0x12, 4), Ok(0x00));
    for register in 0..=255u8 {
        let expected = match register {
            0x10 => 0xAA,
            0x11 => 0xBB,
            _ => 0,
        };
        assert_eq!(sensor.register(register), expected);
    }
}

#[test]
fn another_device_does_not_answer() {
    let mut sensor = SimulatedSensor::new(0x21);
    assert_eq!(sensor.write(0x22, 0x10, 0xAA, 100), Err(BusError::Timeout));
    assert_eq!(sensor.read(0x22, 0x10, 100), Err(BusError::Timeout));
    assert_eq!(sensor.register(0x10), 0);
    assert_eq!(sensor.write(0x21, 0x10, 0xAA, 100), Ok(()));
    assert_eq!(sensor.read(0x21, 0x10, 100), Ok(0xAA));
}

#[test]
fn no_polls_means_timeout() {
    let mut sensor = SimulatedSensor::new(0x21);
    assert_eq!(sensor.write(0x21, 0x10, 0xAA, 0), Err(BusError::Timeout));
    assert_eq!(sensor.read(0x21, 0x10, 0), Err(BusError::Timeout));
    assert_eq!(sensor.register(0x10), 0);
}

#[test]
fn simulated_sensor_answers_requests_like_a_bus_controller() {
    let mut sensor = SimulatedSensor::new(0x21);
    assert_eq!(sensor.perform(BusStep::Await(BusFlag::StartSent)), BusReply::Flag(false));
    assert_eq!(sensor.perform(BusStep::Start), BusReply::Done);
    assert_eq!(sensor.perform(BusStep::Await(BusFlag::StartSent)), BusReply::Flag(true));
    assert_eq!(sensor.perform(BusStep::Send(0x42)), BusReply::Done);
    assert_eq!(sensor.perform(BusStep::Await(BusFlag::StartSent)), BusReply::Flag(false));
    assert_eq!(sensor.perform(BusStep::Await(BusFlag::AddressAcked)), BusReply::Flag(true));
    assert_eq!(sensor.perform(BusStep::ClearAddress), BusReply::Done);
    assert_eq!(sensor.perform(BusStep::Await(BusFlag::AddressAcked)), BusReply::Flag(false));
    assert_eq!(sensor.perform(BusStep::Receive), BusReply::Done);
    assert_eq!(sensor.perform(BusStep::Send(0x33)), BusReply::Done);
    assert_eq!(sensor.perform(BusStep::Await(BusFlag::TransferFinished)), BusReply::Flag(true));
    assert_eq!(sensor.perform(BusStep::Send(0x77)), BusReply::Done);
    assert_eq!(sensor.perform(BusStep::Stop), BusReply::Done);
    assert_eq!(sensor.perform(BusStep::Await(BusFlag::TransferFinished)), BusReply::Flag(false));
    assert_eq!(sensor.register(0x33), 0x77);
}

#[test]
fn simulated_sensor_uses_seven_address_bits() {
    let mut sensor = SimulatedSensor::new(0xA1);
    assert_eq!(sensor.write(0x21, 1, 2, 4), Ok(()));
    assert_eq!(sensor.read(0xA1, 1, 4), Ok(2));
}

#[test]
fn a_new_simulated_sensor_is_idle_and_blank() {
    let mut sensor = SimulatedSensor::new(0x21);
    for register in 0..=255u8 {
        assert_eq!(sensor.register(register), 0);
    }
    for flag in [
        BusFlag::StartSent,
        BusFlag::AddressAcked,
        BusFlag::TransferFinished,
        BusFlag::ReceiveReady,
    ] {
        assert_eq!(sensor.perform(BusStep::Await(flag)), BusReply::Flag(false));
    }
    assert_eq!(sensor.perform(BusStep::Send(0x42)), BusReply::Done);
    assert_eq!(sensor.perform(BusStep::Await(BusFlag::AddressAcked)), BusReply::Flag(false));
}
