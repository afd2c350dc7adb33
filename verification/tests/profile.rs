use pixel_pipeline::bus::BusError;
use pixel_pipeline::camera::{Camera, OV7670, SENSOR_ADDRESS};
use pixel_pipeline::profile::{apply, check_readback, profile, ConfigError, ProfileStep};
use pixel_pipeline::simulated::SimulatedSensor;

const SETTINGS: [(u8, u8); 12] = [
    (0x12, 0x14),
    (0x11, 0x01),
    (0x0C, 0x04),
    (0x3E, 0x19),
    (0x70, 0x3A),
    (0x71, 0x35),
    (0x72, 0x11),
    (0x73, 0x01),
    (0xA2, 0x02),
    (0x40, 0xD0),
    (0x13, 0x03),
    (0x00, 0xA0),
];

fn expected_profile(verify: bool) -> Vec<ProfileStep> {
    let mut steps = vec![
        ProfileStep::Write { register: 0x12, value: 0x80 },
        ProfileStep::Settle(120),
    ];
    for (register, value) in SETTINGS {
        steps.push(ProfileStep::Write { register, value });
        if verify {
            steps.push(ProfileStep::Verify { register, expected: value });
        }
    }
    steps.push(ProfileStep::Settle(120));
    steps
}

#[test]
fn profile_lists_reset_pause_mode_registers_pause() {
    let steps = profile(false);
    assert_eq!(steps, expected_profile(false));
    assert_eq!(steps.len(), 15);
}

#[test]
fn profile_with_readback_verifies_every_mode_register() {
    let steps = profile(true);
    assert_eq!(steps, expected_profile(true));
    assert_eq!(steps.len(), 27);
}

#[test]
fn register_values_combine_the_documented_bits() {
    assert_eq!(SETTINGS[0].1, 0x04 | 0x10);
    assert_eq!(SETTINGS[3].1, 0x08 | 0x10 | 0x01);
    assert_eq!(SETTINGS[6].1, 0x01 | 0x10);
    assert_eq!(SETTINGS[9].1, 0xC0 | 0x10);
    assert_eq!(SETTINGS[10].1, 0x02 | 0x01);
}

#[test]
fn reset_and_its_pause_come_before_any_mode_register() {
    for verify in [false, true] {
        let steps = profile(verify);
        assert_eq!(steps[0], ProfileStep::Write { register: 0x12, value: 0x80 });
        assert_eq!(steps[1], ProfileStep::Settle(120));
        for step in &steps[2..] {
            assert_ne!(*step, ProfileStep::Write { register: 0x12, value: 0x80 });
        }
        let pauses = steps.iter().filter(|step| matches!(step, ProfileStep::Settle(_))).count();
        assert_eq!(pauses, 2);
        assert_eq!(steps.last(), Some(&ProfileStep::Settle(120)));
    }
}

#[test]
fn camera_calibrates_with_the_profile() {
    assert_eq!(OV7670::new(1000, false).calibrate(), expected_profile(false));
    assert_eq!(OV7670::new(1000, true).calibrate(), expected_profile(true));
    assert_eq!(SENSOR_ADDRESS, 0x21);
}

#[test]
fn readback_that_agrees_is_accepted() {
    assert_eq!(check_readback(0x12, 0x14, 0x14), Ok(()));
    assert_eq!(check_readback(0x00, 0x00, 0x00), Ok(()));
}

#[test]
fn readback_that_differs_is_a_configuration_error() {
    assert_eq!(
        check_readback(0x12, 0x14, 0x04),
        Err(ConfigError::Unverified { register: 0x12, expected: 0x14, actual: 0x04 })
    );
}

#[test]
fn profile_configures_a_simulated_sensor() {
    for verify in [false, true] {
        let mut sensor = SimulatedSensor::new(SENSOR_ADDRESS);
        assert_eq!(sensor.write(SENSOR_ADDRESS, 0x55, 0x66, 4), Ok(()));
        assert_eq!(apply(&mut sensor, &profile(verify), SENSOR_ADDRESS, 4), Ok(()));
        for (register, value) in SETTINGS {
            assert_eq!(sensor.register(register), value);
        }
        assert_eq!(sensor.register(0x55), 0x66);
        assert_eq!(sensor.register(0x56), 0x00);
    }
}

#[test]
fn profile_on_a_silent_bus_times_out_at_the_first_write() {
    let mut sensor = SimulatedSensor::new(0x30);
    let result = apply(&mut sensor, &profile(true), SENSOR_ADDRESS, 4);
    assert_eq!(result, Err(ConfigError::Bus(BusError::Timeout)));
    for register in 0..=255u8 {
        assert_eq!(sensor.register(register), 0);
    }
}

#[test]
fn apply_reports_a_register_that_does_not_hold_its_value() {
    let mut sensor = SimulatedSensor::new(0x21);
    let steps = [
        ProfileStep::Write { register: 0x11, value: 0x01 },
        ProfileStep::Verify { register: 0x11, expected: 0x01 },
        ProfileStep::Settle(5),
        ProfileStep::Verify { register: 0x12, expected: 0x14 },
        ProfileStep::Write { register: 0x13, value: 0x03 },
    ];
    assert_eq!(
        apply(&mut sensor, &steps, 0x21, 4),
        Err(ConfigError::Unverified { register: 0x12, expected: 0x14, actual: 0x00 })
    );
    assert_eq!(sensor.register(0x11), 0x01);
    assert_eq!(sensor.register(0x13), 0x00);
}

#[test]
fn apply_of_no_steps_does_nothing() {
    let mut sensor = SimulatedSensor::new(0x21);
    assert_eq!(apply(&mut sensor, &[], 0x21, 0), Ok(()));
    assert_eq!(apply(&mut sensor, &[ProfileStep::Settle(1)], 0x21, 0), Ok(()));
}
