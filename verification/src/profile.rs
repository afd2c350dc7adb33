//! The register profile that puts the sensor into its capture mode: a
//! global reset, a pause for the sensor to come back, the mode, scaling and
//! format registers, and a last pause before the first frame is taken.

use vstd::prelude::*;
use crate::bus::BusError;
use crate::simulated::{
    lemma_transactions_keep_shape, lemma_unanswered_times_out, lemma_write_then_read, SensorState,
    SimulatedSensor,
};

verus! {

/// One step of a register profile.
#[derive(Clone, Copy, Debug, PartialEq, Eq, Structural)]
pub enum ProfileStep {
    /// Write `value` to a register.
    Write { register: u8, value: u8 },
    /// Read a register back and compare it with what was written.
    Verify { register: u8, expected: u8 },
    /// Leave the sensor alone for this many milliseconds.
    Settle(u32),
}

/// Why the sensor is not known to be configured.
#[derive(Clone, Copy, Debug, PartialEq, Eq, Structural)]
pub enum ConfigError {
    /// A transaction on the register bus failed.
    Bus(BusError),
    /// A register does not hold what was written to it.
    Unverified { register: u8, expected: u8, actual: u8 },
}

/// Automatic gain ceiling.
pub const GAIN: u8 = 0x00;

/// Common control 3: scaling.
pub const COM3: u8 = 0x0C;

/// Internal clock.
pub const CLKRC: u8 = 0x11;

/// Common control 7: reset and output format.
pub const COM7: u8 = 0x12;

/// Common control 8: automatic exposure and white balance.
pub const COM8: u8 = 0x13;

/// Common control 14: pixel clock scaling.
pub const COM14: u8 = 0x3E;

/// Common control 15: output range and RGB layout.
pub const COM15: u8 = 0x40;

/// Horizontal scale factor.
pub const SCALING_XSC: u8 = 0x70;

/// Vertical scale factor.
pub const SCALING_YSC: u8 = 0x71;

/// Downsampling control.
pub const SCALING_DCWCTR: u8 = 0x72;

/// Pixel clock divider of the scaler.
pub const SCALING_PCLK_DIV: u8 = 0x73;

/// Pixel clock delay of the scaler.
pub const SCALING_PCLK_DELAY: u8 = 0xA2;

/// `COM7`: put every register back to its default.
pub const COM7_RESET: u8 = 0x80;

/// `COM7`: RGB output (0x04) at quarter VGA (0x10).
pub const COM7_RGB_QVGA: u8 = 0x14;

/// `CLKRC`: input clock divided by two.
pub const CLKRC_HALF: u8 = 0x01;

/// `COM3`: downsampling enabled.
pub const COM3_DOWNSAMPLE: u8 = 0x04;

/// `COM14`: manual scaling (0x08), scaled pixel clock (0x10), divided by
/// two (0x01).
pub const COM14_SCALED: u8 = 0x19;

/// `SCALING_XSC`: the default horizontal factor.
pub const XSC_DEFAULT: u8 = 0x3A;

/// `SCALING_YSC`: the default vertical factor.
pub const YSC_DEFAULT: u8 = 0x35;

/// `SCALING_DCWCTR`: both directions downsampled by two (0x01, 0x10).
pub const DCWCTR_HALF: u8 = 0x11;

/// `SCALING_PCLK_DIV`: divided by two.
pub const PCLK_DIV_HALF: u8 = 0x01;

/// `SCALING_PCLK_DELAY`: the default delay.
pub const PCLK_DELAY_DEFAULT: u8 = 0x02;

/// `COM15`: full output range (0xC0), 5/6/5 layout (0x10).
pub const COM15_RGB565: u8 = 0xD0;

/// `COM8`: automatic white balance (0x02) and exposure (0x01).
pub const COM8_AUTO: u8 = 0x03;

/// `GAIN`: the gain ceiling.
pub const GAIN_CEILING: u8 = 0xA0;

/// How long the sensor needs after a reset, and after its mode is set.
pub const SETTLE_MS: u32 = 120;

/// The registers that make up the capture mode, each with its value, in
/// the order in which they are written.
pub open spec fn mode_settings() -> Seq<(u8, u8)> {
    seq![
        (COM7, COM7_RGB_QVGA),
        (CLKRC, CLKRC_HALF),
        (COM3, COM3_DOWNSAMPLE),
        (COM14, COM14_SCALED),
        (SCALING_XSC, XSC_DEFAULT),
        (SCALING_YSC, YSC_DEFAULT),
        (SCALING_DCWCTR, DCWCTR_HALF),
        (SCALING_PCLK_DIV, PCLK_DIV_HALF),
        (SCALING_PCLK_DELAY, PCLK_DELAY_DEFAULT),
        (COM15, COM15_RGB565),
        (COM8, COM8_AUTO),
        (GAIN, GAIN_CEILING),
    ]
}

/// The steps that set one register: the write, and the read-back where
/// that is asked for.
pub open spec fn setting_steps(setting: (u8, u8), verify: bool) -> Seq<ProfileStep> {
    if verify {
        seq![
            ProfileStep::Write { register: setting.0, value: setting.1 },
            ProfileStep::Verify { register: setting.0, expected: setting.1 },
        ]
    } else {
        seq![ProfileStep::Write { register: setting.0, value: setting.1 }]
    }
}

/// The steps that set a list of registers, one after the other.
pub open spec fn settings_steps(settings: Seq<(u8, u8)>, verify: bool) -> Seq<ProfileStep>
    decreases settings.len(),
{
    if settings.len() == 0 {
        Seq::empty()
    } else {
        settings_steps(settings.drop_last(), verify) + setting_steps(settings.last(), verify)
    }
}

/// The reset and the pause that every profile begins with.
pub open spec fn reset_steps() -> Seq<ProfileStep> {
    seq![
        ProfileStep::Write { register: COM7, value: COM7_RESET },
        ProfileStep::Settle(SETTLE_MS),
    ]
}

/// The whole profile.
pub open spec fn profile_steps(verify: bool) -> Seq<ProfileStep> {
    reset_steps() + settings_steps(mode_settings(), verify) + seq![ProfileStep::Settle(SETTLE_MS)]
}

/// What a read-back comes to.
pub open spec fn readback(register: u8, expected: u8, actual: u8) -> Result<(), ConfigError> {
    if actual == expected {
        Ok(())
    } else {
        Err(ConfigError::Unverified { register, expected, actual })
    }
}

/// Compares what a register holds with what was written to it.
pub fn check_readback(register: u8, expected: u8, actual: u8) -> (result: Result<(), ConfigError>)
    ensures
        result == readback(register, expected, actual),
{
    if actual == expected {
        Ok(())
    } else {
        Err(ConfigError::Unverified { register, expected, actual })
    }
}

fn push_setting(
    steps: &mut Vec<ProfileStep>,
    register: u8,
    value: u8,
    verify: bool,
    Ghost(done): Ghost<Seq<(u8, u8)>>,
)
    requires
        old(steps)@ == reset_steps() + settings_steps(done, verify),
    ensures
        final(steps)@ == reset_steps() + settings_steps(done.push((register, value)), verify),
{
    steps.push(ProfileStep::Write { register, value });
    if verify {
        steps.push(ProfileStep::Verify { register, expected: value });
    }
    proof {
        let more = done.push((register, value));
        assert(more.drop_last() =~= done);
        assert(steps@ =~= reset_steps() + settings_steps(more, verify));
    }
}

/// Lists the steps of the profile, with a read-back after every mode
/// register if `verify` is set.
pub fn profile(verify: bool) -> (steps: Vec<ProfileStep>)
    ensures
        steps@ == profile_steps(verify),
{
    let mut steps: Vec<ProfileStep> = Vec::new();
    steps.push(ProfileStep::Write { register: COM7, value: COM7_RESET });
    steps.push(ProfileStep::Settle(SETTLE_MS));
    let ghost mut done: Seq<(u8, u8)> = Seq::empty();
    assert(steps@ =~= reset_steps() + settings_steps(done, verify));
    push_setting(&mut steps, COM7, COM7_RGB_QVGA, verify, Ghost(done));
    proof {
        done = done.push((COM7, COM7_RGB_QVGA));
    }
    push_setting(&mut steps, CLKRC, CLKRC_HALF, verify, Ghost(done));
    proof {
        done = done.push((CLKRC, CLKRC_HALF));
    }
    push_setting(&mut steps, COM3, COM3_DOWNSAMPLE, verify, Ghost(done));
    proof {
        done = done.push((COM3, COM3_DOWNSAMPLE));
    }
    push_setting(&mut steps, COM14, COM14_SCALED, verify, Ghost(done));
    proof {
        done = done.push((COM14, COM14_SCALED));
    }
    push_setting(&mut steps, SCALING_XSC, XSC_DEFAULT, verify, Ghost(done));
    proof {
        done = done.push((SCALING_XSC, XSC_DEFAULT));
    }
    push_setting(&mut steps, SCALING_YSC, YSC_DEFAULT, verify, Ghost(done));
    proof {
        done = done.push((SCALING_YSC, YSC_DEFAULT));
    }
    push_setting(&mut steps, SCALING_DCWCTR, DCWCTR_HALF, verify, Ghost(done));
    proof {
        done = done.push((SCALING_DCWCTR, DCWCTR_HALF));
    }
    push_setting(&mut steps, SCALING_PCLK_DIV, PCLK_DIV_HALF, verify, Ghost(done));
    proof {
        done = done.push((SCALING_PCLK_DIV, PCLK_DIV_HALF));
    }
    push_setting(&mut steps, SCALING_PCLK_DELAY, PCLK_DELAY_DEFAULT, verify, Ghost(done));
    proof {
        done = done.push((SCALING_PCLK_DELAY, PCLK_DELAY_DEFAULT));
    }
    push_setting(&mut steps, COM15, COM15_RGB565, verify, Ghost(done));
    proof {
        done = done.push((COM15, COM15_RGB565));
    }
    push_setting(&mut steps, COM8, COM8_AUTO, verify, Ghost(done));
    proof {
        done = done.push((COM8, COM8_AUTO));
    }
    push_setting(&mut steps, GAIN, GAIN_CEILING, verify, Ghost(done));
    proof {
        done = done.push((GAIN, GAIN_CEILING));
        assert(done =~= mode_settings());
    }
    steps.push(ProfileStep::Settle(SETTLE_MS));
    steps
}

/// The steps for one register more follow the steps for the registers
/// before it.
proof fn lemma_settings_layout(settings: Seq<(u8, u8)>, verify: bool)
    ensures
        settings_steps(settings, verify).len() == settings.len() * if verify {
            2int
        } else {
            1int
        },
        forall|k: int|
            #![trigger settings[k]]
            0 <= k < settings.len() ==> if verify {
                &&& settings_steps(settings, verify)[2 * k] == (ProfileStep::Write {
                    register: settings[k].0,
                    value: settings[k].1,
                })
                &&& settings_steps(settings, verify)[2 * k + 1] == (ProfileStep::Verify {
                    register: settings[k].0,
                    expected: settings[k].1,
                })
            } else {
                settings_steps(settings, verify)[k] == (ProfileStep::Write {
                    register: settings[k].0,
                    value: settings[k].1,
                })
            },
    decreases settings.len(),
{
    if settings.len() > 0 {
        lemma_settings_layout(settings.drop_last(), verify);
        let shorter = settings.drop_last();
        assert forall|k: int| 0 <= k < settings.len() implies if verify {
            &&& settings_steps(settings, verify)[2 * k] == (ProfileStep::Write {
                register: #[trigger] settings[k].0,
                value: settings[k].1,
            })
            &&& settings_steps(settings, verify)[2 * k + 1] == (ProfileStep::Verify {
                register: settings[k].0,
                expected: settings[k].1,
            })
        } else {
            settings_steps(settings, verify)[k] == (ProfileStep::Write {
                register: settings[k].0,
                value: settings[k].1,
            })
        } by {
            if k < shorter.len() {
                assert(shorter[k] == settings[k]);
            }
        }
    }
}

/// The profile begins with the global reset and its pause, and the reset is
/// written once: every mode register is written after the sensor has come
/// back, in the listed order, each followed by its read-back where that is
/// asked for, and the profile ends with the second pause.
pub proof fn lemma_reset_comes_first(verify: bool)
    ensures
        profile_steps(verify).len() == if verify {
            27int
        } else {
            15int
        },
        profile_steps(verify)[0] == (ProfileStep::Write { register: COM7, value: COM7_RESET }),
        profile_steps(verify)[1] == ProfileStep::Settle(SETTLE_MS),
        profile_steps(verify).last() == ProfileStep::Settle(SETTLE_MS),
        forall|i: int|
            2 <= i < profile_steps(verify).len() ==> #[trigger] profile_steps(verify)[i] != (
            ProfileStep::Write { register: COM7, value: COM7_RESET }),
        forall|i: int|
            2 <= i < profile_steps(verify).len() - 1 ==> !(#[trigger] profile_steps(verify)[i]
                is Settle),
        forall|k: int|
            #![trigger mode_settings()[k]]
            0 <= k < 12 ==> profile_steps(verify)[2 + k * if verify {
                2int
            } else {
                1int
            }] == (ProfileStep::Write {
                register: mode_settings()[k].0,
                value: mode_settings()[k].1,
            }),
        forall|k: int|
            #![trigger mode_settings()[k]]
            0 <= k < 12 && verify ==> profile_steps(verify)[3 + 2 * k] == (ProfileStep::Verify {
                register: mode_settings()[k].0,
                expected: mode_settings()[k].1,
            }),
{
    let settings = mode_settings();
    let middle = settings_steps(settings, verify);
    let all = profile_steps(verify);
    lemma_settings_layout(settings, verify);
    assert(settings.len() == 12);
    assert forall|i: int| 2 <= i < all.len() - 1 implies !(#[trigger] all[i] is Settle) && all[i]
        != (ProfileStep::Write { register: COM7, value: COM7_RESET }) by {
        let j = i - 2;
        assert(all[i] == middle[j]);
        if verify {
            let k = j / 2;
            assert(0 <= k < 12);
            let setting = settings[k];
            assert(j == 2 * k || j == 2 * k + 1);
        } else {
            let setting = settings[j];
        }
    }
    assert forall|k: int| 0 <= k < 12 implies all[2 + k * if verify {
        2int
    } else {
        1int
    }] == (ProfileStep::Write {
        register: (#[trigger] mode_settings()[k]).0,
        value: mode_settings()[k].1,
    }) by {
        let setting = settings[k];
        if verify {
            assert(all[2 + 2 * k] == middle[2 * k]);
        } else {
            assert(all[2 + k] == middle[k]);
        }
    }
    assert forall|k: int| 0 <= k < 12 && verify implies all[3 + 2 * k] == (ProfileStep::Verify {
        register: (#[trigger] mode_settings()[k]).0,
        expected: mode_settings()[k].1,
    }) by {
        let setting = settings[k];
        assert(all[3 + 2 * k] == middle[2 * k + 1]);
    }
}

/// What one step of a profile does to a simulated sensor, and whether it
/// succeeds.
pub open spec fn step_applied(
    sensor: SensorState,
    step: ProfileStep,
    device: u8,
    poll_limit: u32,
) -> (SensorState, Result<(), ConfigError>) {
    match step {
        ProfileStep::Write { register, value } => (
            sensor.after_write(device, register, value, poll_limit),
            match sensor.write_result(device, poll_limit) {
                Ok(_) => Ok(()),
                Err(error) => Err(ConfigError::Bus(error)),
            },
        ),
        ProfileStep::Verify { register, expected } => (
            sensor.after_read(device, register, poll_limit),
            match sensor.read_result(device, register, poll_limit) {
                Ok(actual) => readback(register, expected, actual),
                Err(error) => Err(ConfigError::Bus(error)),
            },
        ),
        ProfileStep::Settle(_) => (sensor, Ok(())),
    }
}

/// What a list of steps does to a simulated sensor: the steps are carried
/// out in order up to the first that fails, and its error is the result.
pub open spec fn applied(
    sensor: SensorState,
    steps: Seq<ProfileStep>,
    device: u8,
    poll_limit: u32,
) -> (SensorState, Result<(), ConfigError>)
    decreases steps.len(),
{
    if steps.len() == 0 {
        (sensor, Ok(()))
    } else {
        let earlier = applied(sensor, steps.drop_last(), device, poll_limit);
        if earlier.1 is Err {
            earlier
        } else {
            step_applied(earlier.0, steps.last(), device, poll_limit)
        }
    }
}

/// Steps after one that failed change nothing.
proof fn lemma_applied_stops(
    sensor: SensorState,
    steps: Seq<ProfileStep>,
    done: int,
    device: u8,
    poll_limit: u32,
)
    requires
        0 <= done <= steps.len(),
        applied(sensor, steps.take(done), device, poll_limit).1 is Err,
    ensures
        applied(sensor, steps, device, poll_limit) == applied(
            sensor,
            steps.take(done),
            device,
            poll_limit,
        ),
    decreases steps.len() - done,
{
    if done == steps.len() {
        assert(steps.take(done) =~= steps);
    } else {
        assert(steps.take(done + 1).drop_last() =~= steps.take(done));
        lemma_applied_stops(sensor, steps, done + 1, device, poll_limit);
    }
}

/// Carries a list of profile steps out on a simulated sensor at `device`,
/// giving every wait on the bus `poll_limit` polls. Pauses take no time
/// here. The first step that fails ends the run.
pub fn apply(sensor: &mut SimulatedSensor, steps: &[ProfileStep], device: u8, poll_limit: u32) -> (result:
    Result<(), ConfigError>)
    requires
        old(sensor)@.wf(),
    ensures
        final(sensor)@.wf(),
        (final(sensor)@, result) == applied(old(sensor)@, steps@, device, poll_limit),
{
    let ghost initial = sensor@;
    let mut i: usize = 0;
    while i < steps.len()
        invariant
            i <= steps.len(),
            sensor@.wf(),
            initial == old(sensor)@,
            applied(initial, steps@.take(i as int), device, poll_limit) == (
                sensor@,
                Ok::<(), ConfigError>(()),
            ),
        decreases steps.len() - i,
    {
        proof {
            assert(steps@.take(i + 1).drop_last() =~= steps@.take(i as int));
        }
        let done: Result<(), ConfigError> = match steps[i] {
            ProfileStep::Write { register, value } => {
                match sensor.write(device, register, value, poll_limit) {
                    Ok(_) => Ok(()),
                    Err(error) => Err(ConfigError::Bus(error)),
                }
            },
            ProfileStep::Verify { register, expected } => {
                match sensor.read(device, register, poll_limit) {
                    Ok(actual) => check_readback(register, expected, actual),
                    Err(error) => Err(ConfigError::Bus(error)),
                }
            },
            ProfileStep::Settle(_) => Ok(()),
        };
        i += 1;
        match done {
            Ok(_) => {},
            Err(error) => {
                proof {
                    lemma_applied_stops(initial, steps@, i as int, device, poll_limit);
                }
                return Err(error);
            },
        }
    }
    assert(steps@.take(i as int) =~= steps@);
    Ok(())
}

/// The register file after a list of settings was written to it, one after
/// the other.
pub open spec fn written(registers: Seq<u8>, settings: Seq<(u8, u8)>) -> Seq<u8>
    decreases settings.len(),
{
    if settings.len() == 0 {
        registers
    } else {
        written(registers, settings.drop_last()).update(
            settings.last().0 as int,
            settings.last().1,
        )
    }
}

/// Applying two lists one after the other is applying their concatenation.
proof fn lemma_applied_concat(
    sensor: SensorState,
    first: Seq<ProfileStep>,
    second: Seq<ProfileStep>,
    device: u8,
    poll_limit: u32,
)
    ensures
        applied(sensor, first + second, device, poll_limit) == if applied(
            sensor,
            first,
            device,
            poll_limit,
        ).1 is Err {
            applied(sensor, first, device, poll_limit)
        } else {
            applied(applied(sensor, first, device, poll_limit).0, second, device, poll_limit)
        },
    decreases second.len(),
{
    if second.len() == 0 {
        assert(first + second =~= first);
    } else {
        assert((first + second).drop_last() =~= first + second.drop_last());
        lemma_applied_concat(sensor, first, second.drop_last(), device, poll_limit);
    }
}

proof fn lemma_applied_one(sensor: SensorState, step: ProfileStep, device: u8, poll_limit: u32)
    ensures
        applied(sensor, seq![step], device, poll_limit) == step_applied(
            sensor,
            step,
            device,
            poll_limit,
        ),
{
    reveal_with_fuel(applied, 2);
    assert(seq![step].drop_last() =~= Seq::<ProfileStep>::empty());
}

/// On a sensor that answers, every setting is stored and every read-back
/// agrees.
proof fn lemma_settings_applied(
    sensor: SensorState,
    settings: Seq<(u8, u8)>,
    verify: bool,
    device: u8,
    poll_limit: u32,
)
    requires
        sensor.wf(),
        sensor.answers(device, poll_limit),
    ensures
        ({
            let (after, result) = applied(
                sensor,
                settings_steps(settings, verify),
                device,
                poll_limit,
            );
            &&& result is Ok
            &&& after.wf()
            &&& after.address == sensor.address
            &&& after.registers == written(sensor.registers, settings)
        }),
    decreases settings.len(),
{
    if settings.len() > 0 {
        let shorter = settings.drop_last();
        let (register, value) = settings.last();
        lemma_settings_applied(sensor, shorter, verify, device, poll_limit);
        let earlier = settings_steps(shorter, verify);
        let middle = applied(sensor, earlier, device, poll_limit).0;
        lemma_applied_concat(
            sensor,
            earlier,
            setting_steps(settings.last(), verify),
            device,
            poll_limit,
        );
        let write = ProfileStep::Write { register, value };
        let check = ProfileStep::Verify { register, expected: value };
        lemma_write_then_read(middle, device, register, value, poll_limit);
        lemma_transactions_keep_shape(
            middle,
            device,
            register,
            value,
            poll_limit,
        );
        let stored = middle.after_write(device, register, value, poll_limit);
        lemma_transactions_keep_shape(
            stored,
            device,
            register,
            value,
            poll_limit,
        );
        lemma_applied_one(middle, write, device, poll_limit);
        if verify {
            assert(setting_steps(settings.last(), verify) =~= seq![write] + seq![check]);
            lemma_applied_concat(middle, seq![write], seq![check], device, poll_limit);
            lemma_applied_one(stored, check, device, poll_limit);
        } else {
            assert(setting_steps(settings.last(), verify) =~= seq![write]);
        }
    }
}

/// Where no register is set twice, each holds its setting afterwards and
/// the others hold what they held.
proof fn lemma_written_holds(registers: Seq<u8>, settings: Seq<(u8, u8)>)
    requires
        registers.len() == 256,
        forall|i: int, j: int|
            0 <= i < j < settings.len() ==> (#[trigger] settings[i]).0 != (#[trigger] settings[j]).0,
    ensures
        written(registers, settings).len() == 256,
        forall|k: int|
            0 <= k < settings.len() ==> written(registers, settings)[(#[trigger] settings[k]).0 as int]
                == settings[k].1,
        forall|register: u8|
            (forall|k: int| 0 <= k < settings.len() ==> (#[trigger] settings[k]).0 != register)
                ==> #[trigger] written(registers, settings)[register as int]
                == registers[register as int],
    decreases settings.len(),
{
    if settings.len() > 0 {
        let shorter = settings.drop_last();
        assert forall|i: int, j: int| 0 <= i < j < shorter.len() implies (#[trigger] shorter[i]).0
            != (#[trigger] shorter[j]).0 by {
            assert(shorter[i] == settings[i]);
            assert(shorter[j] == settings[j]);
        }
        lemma_written_holds(registers, shorter);
        let last = settings.len() - 1;
        assert forall|k: int| 0 <= k < settings.len() implies written(registers, settings)[(
        #[trigger] settings[k]).0 as int] == settings[k].1 by {
            if k < last {
                assert(shorter[k] == settings[k]);
                assert(settings[k].0 != settings[last].0);
            }
        }
        assert forall|register: u8|
            (forall|k: int|
                0 <= k < settings.len() ==> (#[trigger] settings[k]).0
                    != register) implies #[trigger] written(registers, settings)[register as int]
            == registers[register as int] by {
            assert(settings[last].0 != register);
            assert forall|k: int| 0 <= k < shorter.len() implies (#[trigger] shorter[k]).0
                != register by {
                assert(shorter[k] == settings[k]);
            }
        }
    }
}

/// On a sensor that answers, the profile runs to its end: afterwards every
/// mode register holds its setting, read-backs or none, and a register that
/// the profile does not name holds what it held. On a sensor that does not
/// answer, the first write times out and nothing is changed.
pub proof fn lemma_profile_configures(
    sensor: SensorState,
    device: u8,
    poll_limit: u32,
    verify: bool,
)
    requires
        sensor.wf(),
    ensures
        ({
            let (after, result) = applied(sensor, profile_steps(verify), device, poll_limit);
            if sensor.answers(device, poll_limit) {
                &&& result is Ok
                &&& after.wf()
                &&& forall|k: int|
                    0 <= k < 12 ==> after.registers[(#[trigger] mode_settings()[k]).0 as int]
                        == mode_settings()[k].1
                &&& forall|register: u8|
                    (forall|k: int| 0 <= k < 12 ==> (#[trigger] mode_settings()[k]).0 != register)
                        ==> #[trigger] after.registers[register as int]
                        == sensor.registers[register as int]
            } else {
                &&& result == Err::<(), ConfigError>(ConfigError::Bus(BusError::Timeout))
                &&& after.registers == sensor.registers
            }
        }),
{
    let reset = ProfileStep::Write { register: COM7, value: COM7_RESET };
    let pause = ProfileStep::Settle(SETTLE_MS);
    let settings = mode_settings();
    let middle = settings_steps(settings, verify);
    lemma_transactions_keep_shape(sensor, device, COM7, COM7_RESET, poll_limit);
    lemma_applied_one(sensor, reset, device, poll_limit);
    let cleared = sensor.after_write(device, COM7, COM7_RESET, poll_limit);
    if sensor.answers(device, poll_limit) {
        lemma_write_then_read(sensor, device, COM7, COM7_RESET, poll_limit);
        assert(reset_steps() =~= seq![reset] + seq![pause]);
        lemma_applied_concat(sensor, seq![reset], seq![pause], device, poll_limit);
        lemma_applied_one(cleared, pause, device, poll_limit);
        lemma_settings_applied(cleared, settings, verify, device, poll_limit);
        lemma_applied_concat(sensor, reset_steps(), middle, device, poll_limit);
        lemma_applied_concat(sensor, reset_steps() + middle, seq![pause], device, poll_limit);
        let configured = applied(sensor, reset_steps() + middle, device, poll_limit).0;
        lemma_applied_one(configured, pause, device, poll_limit);
        assert(settings[0].0 == COM7);
        lemma_written_holds(cleared.registers, settings);
        assert forall|register: u8|
            (forall|k: int|
                0 <= k < 12 ==> (#[trigger] mode_settings()[k]).0
                    != register) implies #[trigger] configured.registers[register as int]
            == sensor.registers[register as int] by {
            assert(settings[0].0 != register);
        }
    } else {
        lemma_unanswered_times_out(sensor, device, COM7, COM7_RESET, poll_limit);
        assert(profile_steps(verify).take(1) =~= seq![reset]);
        lemma_applied_stops(sensor, profile_steps(verify), 1, device, poll_limit);
    }
}

} // verus!
