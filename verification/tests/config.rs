use rustic_pixel_display::config::{
    HardwareConfig, HardwareMapping, LedSequence, MultiplexMapperType, PanelType, ParseError, PiChip,
    RowAddressSetterType,
};
use rustic_pixel_display::driver::cpp_driver::{CombinedConfig, ConversionError};
use rustic_pixel_display::forms::HardwareConfigForm;
use heck::ToUpperCamelCase;
use rustic_pixel_display::text::{eq_ignore_ascii_case, same_text};

fn config() -> HardwareConfig {
    HardwareConfig {
        hardware_mapping: HardwareMapping::Regular,
        rows: 64,
        cols: 128,
        refresh_rate: 120,
        pi_chip: None,
        pwm_bits: 4,
        pwm_lsb_nanoseconds: 130,
        slowdown: Some(2),
        interlaced: false,
        dither_bits: 0,
        chain_length: 2,
        parallel: 1,
        panel_type: None,
        multiplexing: None,
        row_setter: RowAddressSetterType::Direct,
        led_sequence: LedSequence::Bgr,
    }
}

const MULTIPLEXINGS: [MultiplexMapperType; 18] = [
    MultiplexMapperType::Stripe,
    MultiplexMapperType::Checkered,
    MultiplexMapperType::Spiral,
    MultiplexMapperType::ZStripe08,
    MultiplexMapperType::ZStripe44,
    MultiplexMapperType::ZStripe80,
    MultiplexMapperType::Coreman,
    MultiplexMapperType::Kaler2Scan,
    MultiplexMapperType::P10Z,
    MultiplexMapperType::QiangLiQ8,
    MultiplexMapperType::InversedZStripe,
    MultiplexMapperType::P10Outdoor1R1G1B1,
    MultiplexMapperType::P10Outdoor1R1G1B2,
    MultiplexMapperType::P10Outdoor1R1G1B3,
    MultiplexMapperType::P10Coreman,
    MultiplexMapperType::P8Outdoor1R1G1B,
    MultiplexMapperType::FlippedStripe,
    MultiplexMapperType::P10Outdoor32x16HalfScan,
];

#[test]
fn the_names_of_the_wirings() {
    assert_eq!(HardwareMapping::AdafruitHat.as_ref(), "AdafruitHat");
    assert_eq!(HardwareMapping::AdafruitHatPwm.as_ref(), "AdafruitHatPwm");
    assert_eq!(HardwareMapping::Regular.as_ref(), "Regular");
    assert_eq!(HardwareMapping::RegularPi1.as_ref(), "RegularPi1");
    assert_eq!(HardwareMapping::Classic.as_ref(), "Classic");
    assert_eq!(HardwareMapping::ClassicPi1.as_ref(), "ClassicPi1");
}

#[test]
fn the_names_of_chips_panels_and_sequences_are_upper_case() {
    assert_eq!(PiChip::BCM2708.as_ref(), "BCM2708");
    assert_eq!(PiChip::BCM2709.as_ref(), "BCM2709");
    assert_eq!(PiChip::BCM2711.as_ref(), "BCM2711");
    assert_eq!(PanelType::FM6126.as_ref(), "FM6126");
    assert_eq!(PanelType::FM6127.as_ref(), "FM6127");
    assert_eq!(LedSequence::Rgb.as_ref(), "RGB");
    assert_eq!(LedSequence::Rbg.as_ref(), "RBG");
    assert_eq!(LedSequence::Grb.as_ref(), "GRB");
    assert_eq!(LedSequence::Gbr.as_ref(), "GBR");
    assert_eq!(LedSequence::Brg.as_ref(), "BRG");
    assert_eq!(LedSequence::Bgr.as_ref(), "BGR");
}

#[test]
fn the_names_of_the_multiplexings() {
    let names: Vec<&str> = MULTIPLEXINGS.iter().map(|kind| kind.as_ref()).collect();
    assert_eq!(
        names,
        vec![
            "Stripe",
            "Checkered",
            "Spiral",
            "ZStripe08",
            "ZStripe44",
            "ZStripe80",
            "Coreman",
            "Kaler2Scan",
            "P10z",
            "QiangLiQ8",
            "InversedZStripe",
            "P10Outdoor1R1g1b1",
            "P10Outdoor1R1g1b2",
            "P10Outdoor1R1g1b3",
            "P10Coreman",
            "P8Outdoor1R1g1b",
            "FlippedStripe",
            "P10Outdoor32x16HalfScan",
        ]
    );
}

#[test]
fn the_names_of_the_row_setters() {
    assert_eq!(RowAddressSetterType::Direct.as_ref(), "Direct");
    assert_eq!(RowAddressSetterType::ShiftRegister.as_ref(), "ShiftRegister");
    assert_eq!(RowAddressSetterType::DirectABCDLine.as_ref(), "DirectAbcdLine");
    assert_eq!(RowAddressSetterType::ABCShiftRegister.as_ref(), "AbcShiftRegister");
    assert_eq!(RowAddressSetterType::SM5266.as_ref(), "Sm5266");
}

#[test]
fn names_are_read_without_regard_to_case() {
    assert_eq!(HardwareMapping::from_str("adafruithatpwm"), Ok(HardwareMapping::AdafruitHatPwm));
    assert_eq!(HardwareMapping::from_str("REGULAR"), Ok(HardwareMapping::Regular));
    assert_eq!(PiChip::from_str("bcm2711"), Ok(PiChip::BCM2711));
    assert_eq!(PanelType::from_str("fm6127"), Ok(PanelType::FM6127));
    assert_eq!(MultiplexMapperType::from_str("P10Z"), Ok(MultiplexMapperType::P10Z));
    assert_eq!(
        MultiplexMapperType::from_str("P10Outdoor1R1G1B2"),
        Ok(MultiplexMapperType::P10Outdoor1R1G1B2)
    );
    assert_eq!(RowAddressSetterType::from_str("directabcdline"), Ok(RowAddressSetterType::DirectABCDLine));
    assert_eq!(RowAddressSetterType::from_str("sm5266"), Ok(RowAddressSetterType::SM5266));
    assert_eq!(LedSequence::from_str("bgr"), Ok(LedSequence::Bgr));
}

#[test]
fn every_name_is_read_back_as_its_variant() {
    for kind in MULTIPLEXINGS {
        assert_eq!(MultiplexMapperType::from_str(kind.as_ref()), Ok(kind));
        assert_eq!(MultiplexMapperType::from_str(&kind.as_ref().to_lowercase()), Ok(kind));
        assert_eq!(MultiplexMapperType::from_str(&kind.as_ref().to_uppercase()), Ok(kind));
    }
}

#[test]
fn what_is_no_name_is_not_read() {
    assert_eq!(HardwareMapping::from_str(""), Err(ParseError::VariantNotFound));
    assert_eq!(HardwareMapping::from_str("Regular "), Err(ParseError::VariantNotFound));
    assert_eq!(HardwareMapping::from_str("Regula"), Err(ParseError::VariantNotFound));
    assert_eq!(HardwareMapping::from_str("adafruit-hat"), Err(ParseError::VariantNotFound));
    assert_eq!(PiChip::from_str("BCM2710"), Err(ParseError::VariantNotFound));
    assert_eq!(PanelType::from_str("FM6126A"), Err(ParseError::VariantNotFound));
    assert_eq!(MultiplexMapperType::from_str("None"), Err(ParseError::VariantNotFound));
    assert_eq!(RowAddressSetterType::from_str("direct_abcd_line"), Err(ParseError::VariantNotFound));
    assert_eq!(LedSequence::from_str("RGBA"), Err(ParseError::VariantNotFound));
    // Only the case of ASCII letters is disregarded.
    assert_eq!(LedSequence::from_str("RG\u{212A}"), Err(ParseError::VariantNotFound));
}

#[test]
fn texts_are_compared_with_and_without_case() {
    assert!(eq_ignore_ascii_case("", ""));
    assert!(eq_ignore_ascii_case("aZ09-", "Az09-"));
    assert!(!eq_ignore_ascii_case("a", "b"));
    assert!(!eq_ignore_ascii_case("ab", "a"));
    assert!(!eq_ignore_ascii_case("@", "`"));
    assert!(!eq_ignore_ascii_case("[", "{"));
    assert!(!eq_ignore_ascii_case("\u{e9}", "\u{c9}"));
    assert!(eq_ignore_ascii_case("\u{e9}X", "\u{e9}x"));
    assert!(same_text("abc", "abc"));
    assert!(!same_text("abc", "Abc"));
    assert!(!same_text("abc", "ab"));
}

#[test]
fn the_options_of_the_cpp_driver() {
    let combined = CombinedConfig::try_from(config()).unwrap();
    let matrix = combined.matrix_options;
    assert_eq!(matrix.hardware_mapping, "regular");
    assert_eq!(matrix.rows, 64);
    assert_eq!(matrix.cols, 128);
    assert_eq!(matrix.chain_length, 2);
    assert_eq!(matrix.parallel, 1);
    assert_eq!(matrix.pwm_bits, 4);
    assert_eq!(matrix.pwm_lsb_nanoseconds, 130);
    assert_eq!(matrix.brightness, 100);
    assert_eq!(matrix.scan_mode, 0);
    assert_eq!(matrix.led_rgb_sequence, "BGR");
    assert_eq!(matrix.pixel_mapper_config, "");
    assert!(!matrix.hardware_pulsing);
    assert!(!matrix.refresh_rate);
    assert!(!matrix.inverse_colors);
    assert_eq!(matrix.multiplexing, 0);
    assert_eq!(matrix.row_addr_type, 0);
    assert_eq!(matrix.limit_refresh, 120);
    assert_eq!(matrix.pwm_dither_bits, 0);
    assert_eq!(matrix.panel_type, "");
    assert_eq!(combined.runtime_options.gpio_slowdown, Some(2));
}

#[test]
fn the_cpp_driver_names_wirings_and_panels_in_its_own_way() {
    let wirings = [
        (HardwareMapping::AdafruitHat, "adafruit-hat"),
        (HardwareMapping::AdafruitHatPwm, "adafruit-hat-pwm"),
        (HardwareMapping::Regular, "regular"),
        (HardwareMapping::RegularPi1, "regular"),
        (HardwareMapping::Classic, "regular"),
        (HardwareMapping::ClassicPi1, "regular"),
    ];
    for (hardware_mapping, name) in wirings {
        let combined = CombinedConfig::try_from(HardwareConfig { hardware_mapping, ..config() }).unwrap();
        assert_eq!(combined.matrix_options.hardware_mapping, name);
    }
    let panels = [(Some(PanelType::FM6126), "FM6126A"), (Some(PanelType::FM6127), "FM6127"), (None, "")];
    for (panel_type, name) in panels {
        let combined = CombinedConfig::try_from(HardwareConfig { panel_type, ..config() }).unwrap();
        assert_eq!(combined.matrix_options.panel_type, name);
    }
    let interlaced = CombinedConfig::try_from(HardwareConfig { interlaced: true, slowdown: None, ..config() }).unwrap();
    assert_eq!(interlaced.matrix_options.scan_mode, 1);
    assert_eq!(interlaced.runtime_options.gpio_slowdown, None);
}

#[test]
fn the_cpp_driver_numbers_multiplexings_and_row_setters() {
    let codes: [Option<u32>; 18] = [
        Some(1),
        Some(2),
        Some(3),
        Some(4),
        Some(5),
        None,
        Some(6),
        Some(7),
        Some(9),
        Some(10),
        Some(11),
        Some(12),
        Some(13),
        Some(14),
        Some(15),
        Some(16),
        None,
        None,
    ];
    for (kind, code) in MULTIPLEXINGS.iter().zip(codes) {
        let converted = CombinedConfig::try_from(HardwareConfig { multiplexing: Some(*kind), ..config() });
        match code {
            Some(code) => assert_eq!(converted.unwrap().matrix_options.multiplexing, code),
            None => assert_eq!(converted.unwrap_err(), ConversionError::Multiplexing(*kind)),
        }
    }
    let setters = [
        (RowAddressSetterType::Direct, Some(0)),
        (RowAddressSetterType::ShiftRegister, Some(1)),
        (RowAddressSetterType::DirectABCDLine, Some(2)),
        (RowAddressSetterType::ABCShiftRegister, Some(4)),
        (RowAddressSetterType::SM5266, None),
    ];
    for (row_setter, code) in setters {
        let converted = CombinedConfig::try_from(HardwareConfig { row_setter, ..config() });
        match code {
            Some(code) => assert_eq!(converted.unwrap().matrix_options.row_addr_type, code),
            None => assert_eq!(converted.unwrap_err(), ConversionError::RowSetter(row_setter)),
        }
    }
}

#[test]
fn the_cpp_driver_takes_at_most_eleven_pwm_bits() {
    assert_eq!(CombinedConfig::try_from(HardwareConfig { pwm_bits: 11, ..config() }).unwrap().matrix_options.pwm_bits, 11);
    assert_eq!(CombinedConfig::try_from(HardwareConfig { pwm_bits: 0, ..config() }).unwrap().matrix_options.pwm_bits, 0);
    assert_eq!(
        CombinedConfig::try_from(HardwareConfig { pwm_bits: 12, ..config() }).unwrap_err(),
        ConversionError::PwmBits
    );
    assert_eq!(
        CombinedConfig::try_from(HardwareConfig { pwm_bits: 256, ..config() }).unwrap_err(),
        ConversionError::PwmBits
    );
}

#[test]
fn of_several_faults_the_first_is_reported() {
    let faulty = HardwareConfig {
        pwm_bits: 12,
        multiplexing: Some(MultiplexMapperType::ZStripe80),
        row_setter: RowAddressSetterType::SM5266,
        ..config()
    };
    assert_eq!(CombinedConfig::try_from(faulty).unwrap_err(), ConversionError::PwmBits);
    assert_eq!(
        CombinedConfig::try_from(HardwareConfig { pwm_bits: 4, ..faulty }).unwrap_err(),
        ConversionError::Multiplexing(MultiplexMapperType::ZStripe80)
    );
    assert_eq!(
        CombinedConfig::try_from(HardwareConfig { pwm_bits: 4, multiplexing: None, ..faulty }).unwrap_err(),
        ConversionError::RowSetter(RowAddressSetterType::SM5266)
    );
    if usize::BITS > 32 {
        let large = HardwareConfig { rows: u32::MAX as usize + 1, ..faulty };
        assert_eq!(CombinedConfig::try_from(large).unwrap_err(), ConversionError::OutOfRange);
        let edge = HardwareConfig { rows: u32::MAX as usize, ..config() };
        assert_eq!(CombinedConfig::try_from(edge).unwrap().matrix_options.rows, u32::MAX);
        let rate = HardwareConfig { refresh_rate: usize::MAX, ..config() };
        assert_eq!(CombinedConfig::try_from(rate).unwrap_err(), ConversionError::OutOfRange);
    }
}

#[test]
fn a_form_shows_a_configuration() {
    let form = HardwareConfigForm::try_from(&config()).unwrap();
    assert_eq!(form.hardware_mapping, "Regular");
    assert_eq!(form.rows, 64);
    assert_eq!(form.cols, 128);
    assert_eq!(form.refresh_rate, 120);
    assert_eq!(form.pi_chip, "Automatic");
    assert_eq!(form.pwm_bits, 4);
    assert_eq!(form.pwm_lsb_nanoseconds, 130);
    assert_eq!(form.slowdown, 2);
    assert_eq!(form.interlaced, "False");
    assert_eq!(form.dither_bits, 0);
    assert_eq!(form.chain_length, 2);
    assert_eq!(form.parallel, 1);
    assert_eq!(form.panel_type, "None");
    assert_eq!(form.multiplexing, "None");
    assert_eq!(form.row_setter, "Direct");
    assert_eq!(form.led_sequence, "BGR");

    let other = HardwareConfig {
        pi_chip: Some(PiChip::BCM2709),
        slowdown: None,
        interlaced: true,
        panel_type: Some(PanelType::FM6126),
        multiplexing: Some(MultiplexMapperType::P10Z),
        row_setter: RowAddressSetterType::ABCShiftRegister,
        ..config()
    };
    let form = HardwareConfigForm::try_from(&other).unwrap();
    assert_eq!(form.pi_chip, "BCM2709");
    assert_eq!(form.slowdown, 0);
    assert_eq!(form.interlaced, "True");
    assert_eq!(form.panel_type, "FM6126");
    assert_eq!(form.multiplexing, "P10z");
    assert_eq!(form.row_setter, "AbcShiftRegister");
}

#[test]
fn a_configuration_is_read_from_a_form() {
    let form = HardwareConfigForm {
        hardware_mapping: "adafruithat",
        rows: 32,
        cols: 64,
        refresh_rate: 60,
        pi_chip: "bcm2711",
        pwm_bits: 11,
        pwm_lsb_nanoseconds: 200,
        slowdown: 0,
        interlaced: "True",
        dither_bits: 1,
        chain_length: 3,
        parallel: 2,
        panel_type: "FM6127",
        multiplexing: "checkered",
        row_setter: "shiftregister",
        led_sequence: "grb",
    };
    let expected = HardwareConfig {
        hardware_mapping: HardwareMapping::AdafruitHat,
        rows: 32,
        cols: 64,
        refresh_rate: 60,
        pi_chip: Some(PiChip::BCM2711),
        pwm_bits: 11,
        pwm_lsb_nanoseconds: 200,
        slowdown: Some(0),
        interlaced: true,
        dither_bits: 1,
        chain_length: 3,
        parallel: 2,
        panel_type: Some(PanelType::FM6127),
        multiplexing: Some(MultiplexMapperType::Checkered),
        row_setter: RowAddressSetterType::ShiftRegister,
        led_sequence: LedSequence::Grb,
    };
    assert_eq!(HardwareConfig::try_from(&form), Ok(expected));

    let open = HardwareConfigForm { pi_chip: "Automatic", panel_type: "None", multiplexing: "None", interlaced: "true", ..form };
    let expected = HardwareConfig { pi_chip: None, panel_type: None, multiplexing: None, interlaced: false, ..expected };
    assert_eq!(HardwareConfig::try_from(&open), Ok(expected));
}

#[test]
fn a_form_with_a_wrong_name_is_refused() {
    let form = HardwareConfigForm::try_from(&config()).unwrap();
    assert_eq!(HardwareConfig::try_from(&form), Ok(HardwareConfig { ..config() }));
    let wrong = [
        HardwareConfigForm { hardware_mapping: "Irregular", ..form },
        HardwareConfigForm { pi_chip: "automatic", ..form },
        HardwareConfigForm { panel_type: "none", ..form },
        HardwareConfigForm { multiplexing: "", ..form },
        HardwareConfigForm { row_setter: "Indirect", ..form },
        HardwareConfigForm { led_sequence: "RGBW", ..form },
    ];
    for form in wrong {
        assert_eq!(HardwareConfig::try_from(&form), Err(ParseError::VariantNotFound));
    }
}

#[test]
fn a_configuration_goes_through_a_form_unchanged_but_for_an_open_slowdown() {
    for kind in MULTIPLEXINGS {
        let original = HardwareConfig {
            multiplexing: Some(kind),
            pi_chip: Some(PiChip::BCM2708),
            panel_type: Some(PanelType::FM6126),
            row_setter: RowAddressSetterType::DirectABCDLine,
            ..config()
        };
        let form = HardwareConfigForm::try_from(&original).unwrap();
        assert_eq!(HardwareConfig::try_from(&form), Ok(original));
    }
    let open = HardwareConfig { slowdown: None, ..config() };
    let form = HardwareConfigForm::try_from(&open).unwrap();
    assert_eq!(HardwareConfig::try_from(&form), Ok(HardwareConfig { slowdown: Some(0), ..config() }));
}

#[test]
fn names_in_pascal_case_are_the_variants_in_upper_camel_case() {
    let wirings = [
        (HardwareMapping::AdafruitHat, "AdafruitHat"),
        (HardwareMapping::AdafruitHatPwm, "AdafruitHatPwm"),
        (HardwareMapping::Regular, "Regular"),
        (HardwareMapping::RegularPi1, "RegularPi1"),
        (HardwareMapping::Classic, "Classic"),
        (HardwareMapping::ClassicPi1, "ClassicPi1"),
    ];
    for (variant, written) in wirings {
        assert_eq!(variant.as_ref(), written.to_upper_camel_case());
    }
    let written = [
        "Stripe",
        "Checkered",
        "Spiral",
        "ZStripe08",
        "ZStripe44",
        "ZStripe80",
        "Coreman",
        "Kaler2Scan",
        "P10Z",
        "QiangLiQ8",
        "InversedZStripe",
        "P10Outdoor1R1G1B1",
        "P10Outdoor1R1G1B2",
        "P10Outdoor1R1G1B3",
        "P10Coreman",
        "P8Outdoor1R1G1B",
        "FlippedStripe",
        "P10Outdoor32x16HalfScan",
    ];
    for (variant, written) in MULTIPLEXINGS.iter().zip(written) {
        assert_eq!(variant.as_ref(), written.to_upper_camel_case());
    }
    let setters = [
        (RowAddressSetterType::Direct, "Direct"),
        (RowAddressSetterType::ShiftRegister, "ShiftRegister"),
        (RowAddressSetterType::DirectABCDLine, "DirectABCDLine"),
        (RowAddressSetterType::ABCShiftRegister, "ABCShiftRegister"),
        (RowAddressSetterType::SM5266, "SM5266"),
    ];
    for (variant, written) in setters {
        assert_eq!(variant.as_ref(), written.to_upper_camel_case());
    }
}
