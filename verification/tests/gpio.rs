use handheld_frontend::input::gpio::{Gpio, GpioError, GpioValue, Level, MockGpio};

#[test]
fn test_mock_gpio() {
    let mut gpio_active_high = MockGpio::new(true, false);
    assert_eq!(gpio_active_high.read().unwrap(), GpioValue::Enabled);

    let mut gpio_active_low = MockGpio::new(true, true);
    assert_eq!(gpio_active_low.read().unwrap(), GpioValue::Disabled);

    let mut gpio_active_high_low = MockGpio::new(false, false);
    assert_eq!(gpio_active_high_low.read().unwrap(), GpioValue::Disabled);

    let mut gpio_active_low_high = MockGpio::new(false, true);
    assert_eq!(gpio_active_low_high.read().unwrap(), GpioValue::Enabled);
}

#[test]
fn mock_gpio_follows_its_level() {
    let mut gpio = MockGpio::new(false, true);
    assert_eq!(gpio.read().unwrap(), GpioValue::Enabled);
    gpio.set_level(true);
    assert_eq!(gpio.read().unwrap(), GpioValue::Disabled);
    assert_eq!(gpio.read().unwrap(), GpioValue::Disabled);
    gpio.set_level(false);
    assert_eq!(gpio.read().unwrap(), GpioValue::Enabled);
}

#[test]
fn level_mapping_is_total_and_flips_with_polarity() {
    for level in [Level::Low, Level::High] {
        for active_low in [false, true] {
            let value = GpioValue::from_level(level, active_low);
            let flipped = GpioValue::from_level(level, !active_low);
            assert_ne!(value, flipped);
            assert_eq!(flipped, value.invert());
            assert_eq!(value.invert().invert(), value);
            assert_ne!(value.is_enabled(), flipped.is_enabled());
        }
    }
}

#[test]
fn level_mapping_values() {
    assert_eq!(GpioValue::from_level(Level::Low, false), GpioValue::Disabled);
    assert_eq!(GpioValue::from_level(Level::High, true), GpioValue::Disabled);
    assert_eq!(GpioValue::from_level(Level::High, false), GpioValue::Enabled);
    assert_eq!(GpioValue::from_level(Level::Low, true), GpioValue::Enabled);
}

#[test]
fn line_value_is_binary() {
    assert_eq!(GpioValue::from_line_value(0), Ok(GpioValue::Disabled));
    assert_eq!(GpioValue::from_line_value(1), Ok(GpioValue::Enabled));
    assert_eq!(GpioValue::from_line_value(2), Err(GpioError::UnexpectedValue(2)));
    assert_eq!(GpioValue::from_line_value(255), Err(GpioError::UnexpectedValue(255)));
}

#[test]
fn enabled_means_engaged() {
    assert!(GpioValue::Enabled.is_enabled());
    assert!(!GpioValue::Disabled.is_enabled());
    assert_eq!(GpioValue::Enabled.invert(), GpioValue::Disabled);
    assert_eq!(GpioValue::Disabled.invert(), GpioValue::Enabled);
}
