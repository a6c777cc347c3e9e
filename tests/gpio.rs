use embedded_hal_mock::gpio::{DigitalIOMock, PinError};

#[test]
fn test_gpio_mock_digitaloutput() {
    // Prepare digital pin with expected data
    let mut dummy_reset = DigitalIOMock::new("spi-rst", [false, true].to_vec());

    assert_eq!(dummy_reset.set_low(), Ok(()));
    // reports an error if called in incorrect order
    assert_eq!(dummy_reset.set_high(), Ok(()));
}

#[test]
fn test_gpio_mock_digitalinput() {
    let mut dummy_gpio = DigitalIOMock::new("irq", [false, false, false, true, true].to_vec());
    let mut loopcnt = 0;
    while dummy_gpio.is_low() {
        loopcnt += 1;
    }
    assert!(loopcnt == 3);
    assert!(dummy_gpio.is_high());
}

#[test]
fn test_gpio_monitor_digitaloutput() {
    let mut dummy_gpio = DigitalIOMock::monitor("reset");
    assert_eq!(dummy_gpio.set_low(), Ok(()));
    assert_eq!(dummy_gpio.set_high(), Ok(()));
    println!("Captured data {}", dummy_gpio.print());
    assert_eq!(dummy_gpio.print(), "new(\"reset\",[false,true,].to_vec());");
}

#[test]
fn matching_writes_consume_whole_script() {
    let script = vec![true, false, false, true, true, false];
    let mut pin = DigitalIOMock::new("bus", script.clone());
    for &v in script.iter() {
        let r = if v { pin.set_high() } else { pin.set_low() };
        assert_eq!(r, Ok(()));
    }
    assert_eq!(pin.cursor(), script.len());
    assert!(pin.is_exhausted());
    assert_eq!(pin.recorded(), &script);
}

#[test]
fn low_where_high_expected_is_mismatch_at_first_position() {
    let mut pin = DigitalIOMock::new("x", vec![true]);
    assert_eq!(pin.set_low(), Err(PinError::Mismatch { expected: true, index: 1 }));
}

#[test]
fn mismatch_reports_its_position() {
    let mut pin = DigitalIOMock::new("x", vec![false, true, false]);
    assert_eq!(pin.set_low(), Ok(()));
    assert_eq!(pin.set_low(), Err(PinError::Mismatch { expected: true, index: 2 }));
    assert_eq!(pin.cursor(), 2);
    assert_eq!(pin.set_high(), Err(PinError::Mismatch { expected: false, index: 3 }));
}

#[test]
fn write_past_script_is_exhausted() {
    let mut pin = DigitalIOMock::new("x", vec![true]);
    assert_eq!(pin.set_high(), Ok(()));
    assert_eq!(pin.set_high(), Err(PinError::Exhausted { consumed: 1 }));
    assert_eq!(pin.set_low(), Err(PinError::Exhausted { consumed: 2 }));
    assert_eq!(pin.cursor(), 3);
}

#[test]
fn write_on_empty_script_is_exhausted() {
    let mut pin = DigitalIOMock::new("x", Vec::new());
    assert!(pin.is_exhausted());
    assert_eq!(pin.set_low(), Err(PinError::Exhausted { consumed: 0 }));
}

#[test]
fn read_past_script_returns_last_value() {
    let mut pin = DigitalIOMock::new("x", vec![true]);
    assert!(pin.is_high());
    assert!(pin.is_exhausted());
    assert!(pin.is_high());
    assert!(!pin.is_low());
    assert_eq!(pin.cursor(), 3);
}

#[test]
fn read_on_empty_script_returns_low() {
    let mut pin = DigitalIOMock::new("x", Vec::new());
    assert!(!pin.is_high());
    assert!(pin.is_low());
    assert_eq!(pin.cursor(), 2);
}

#[test]
fn is_low_negates_and_consumes_one_value() {
    let mut pin = DigitalIOMock::new("x", vec![true, false, true]);
    assert!(!pin.is_low());
    assert_eq!(pin.cursor(), 1);
    assert!(pin.is_low());
    assert_eq!(pin.cursor(), 2);
    assert!(pin.is_high());
    assert_eq!(pin.cursor(), 3);
}

#[test]
fn reads_and_writes_share_one_cursor() {
    let mut pin = DigitalIOMock::new("x", vec![true, true, false]);
    assert_eq!(pin.set_high(), Ok(()));
    assert!(pin.is_high());
    assert_eq!(pin.set_low(), Ok(()));
    assert_eq!(pin.set_low(), Err(PinError::Exhausted { consumed: 3 }));
}

#[test]
fn monitor_records_every_write_in_order() {
    let mut pin = DigitalIOMock::monitor("led");
    let levels = [true, true, false, true, false, false];
    for &v in levels.iter() {
        let r = if v { pin.set_high() } else { pin.set_low() };
        assert_eq!(r, Ok(()));
    }
    assert_eq!(pin.recorded(), &levels.to_vec());
    assert_eq!(pin.print(), "new(\"led\",[true,true,false,true,false,false,].to_vec());");
}

#[test]
fn monitor_without_writes_renders_empty_script() {
    let pin = DigitalIOMock::monitor("idle");
    assert_eq!(pin.print(), "new(\"idle\",[].to_vec());");
}

#[test]
fn enforcing_pin_renders_its_script() {
    let pin = DigitalIOMock::new("spi-rst", vec![false, true]);
    assert_eq!(pin.print(), "new(\"spi-rst\",[false,true,].to_vec());");
}

#[test]
fn monitor_reads_consume_recorded_levels() {
    let mut pin = DigitalIOMock::monitor("loop");
    assert_eq!(pin.set_high(), Ok(()));
    assert!(pin.is_high());
    assert!(pin.is_high());
    assert_eq!(pin.cursor(), 2);
}

#[test]
fn exhausted_write_names_the_offending_operation() {
    let mut pin = DigitalIOMock::new("x", vec![false]);
    assert!(pin.is_low());
    assert!(pin.is_low());
    assert_eq!(pin.cursor(), 2);
    assert_eq!(pin.set_low(), Err(PinError::Exhausted { consumed: 2 }));
    assert_eq!(pin.cursor(), 3);
}
