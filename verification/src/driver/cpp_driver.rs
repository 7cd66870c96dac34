//! The options of the driver that is bound to the C++ library, as plain
//! values.

use crate::config::{
    HardwareConfig, HardwareMapping, LedSequence, MultiplexMapperType, PanelType,
    RowAddressSetterType,
};
use vstd::prelude::*;

verus! {

/// The options of the matrix.
#[derive(Clone, Copy, Debug)]
pub struct MatrixOptions {
    pub hardware_mapping: &'static str,
    pub rows: u32,
    pub cols: u32,
    pub chain_length: u32,
    pub parallel: u32,
    pub pwm_bits: u8,
    pub pwm_lsb_nanoseconds: u32,
    pub brightness: u8,
    pub scan_mode: u32,
    pub led_rgb_sequence: &'static str,
    pub pixel_mapper_config: &'static str,
    pub hardware_pulsing: bool,
    pub refresh_rate: bool,
    pub inverse_colors: bool,
    pub multiplexing: u32,
    pub row_addr_type: u32,
    pub limit_refresh: u32,
    pub pwm_dither_bits: u32,
    pub panel_type: &'static str,
}

/// The options of the process that drives the matrix.
#[derive(Clone, Copy, Debug)]
pub struct RuntimeOptions {
    /// How much to slow down the writes to the pins, where the configuration
    /// says so.
    pub gpio_slowdown: Option<u32>,
}

/// Everything the driver is constructed from.
#[derive(Clone, Copy, Debug)]
pub struct CombinedConfig {
    pub matrix_options: MatrixOptions,
    pub runtime_options: RuntimeOptions,
}

/// Why a configuration cannot be used with this driver.
#[derive(Clone, Copy, Debug, PartialEq, Eq, Structural)]
pub enum ConversionError {
    /// A number is larger than the driver's option can hold.
    OutOfRange,
    /// More than eleven PWM bits.
    PwmBits,
    /// A multiplexing that the driver does not implement.
    Multiplexing(MultiplexMapperType),
    /// A way to address rows that the driver does not implement.
    RowSetter(RowAddressSetterType),
}

/// The driver's name for a wiring.
pub open spec fn mapping_name(mapping: HardwareMapping) -> Seq<char> {
    match mapping {
        HardwareMapping::AdafruitHat => "adafruit-hat"@,
        HardwareMapping::AdafruitHatPwm => "adafruit-hat-pwm"@,
        _ => "regular"@,
    }
}

/// The driver's name for a panel type; the empty name where there is none.
pub open spec fn panel_name(panel_type: Option<PanelType>) -> Seq<char> {
    match panel_type {
        Some(PanelType::FM6126) => "FM6126A"@,
        Some(PanelType::FM6127) => "FM6127"@,
        None => ""@,
    }
}

/// The driver's number for a multiplexing, if it implements it.
pub open spec fn multiplexing_code(multiplexing: Option<MultiplexMapperType>) -> Option<u32> {
    match multiplexing {
        None => Some(0u32),
        Some(MultiplexMapperType::Stripe) => Some(1u32),
        Some(MultiplexMapperType::Checkered) => Some(2u32),
        Some(MultiplexMapperType::Spiral) => Some(3u32),
        Some(MultiplexMapperType::ZStripe08) => Some(4u32),
        Some(MultiplexMapperType::ZStripe44) => Some(5u32),
        Some(MultiplexMapperType::ZStripe80) => None,
        Some(MultiplexMapperType::Coreman) => Some(6u32),
        Some(MultiplexMapperType::Kaler2Scan) => Some(7u32),
        Some(MultiplexMapperType::P10Z) => Some(9u32),
        Some(MultiplexMapperType::QiangLiQ8) => Some(10u32),
        Some(MultiplexMapperType::InversedZStripe) => Some(11u32),
        Some(MultiplexMapperType::P10Outdoor1R1G1B1) => Some(12u32),
        Some(MultiplexMapperType::P10Outdoor1R1G1B2) => Some(13u32),
        Some(MultiplexMapperType::P10Outdoor1R1G1B3) => Some(14u32),
        Some(MultiplexMapperType::P10Coreman) => Some(15u32),
        Some(MultiplexMapperType::P8Outdoor1R1G1B) => Some(16u32),
        Some(MultiplexMapperType::FlippedStripe) => None,
        Some(MultiplexMapperType::P10Outdoor32x16HalfScan) => None,
    }
}

/// The driver's number for a way to address rows, if it implements it.
pub open spec fn row_setter_code(row_setter: RowAddressSetterType) -> Option<u32> {
    match row_setter {
        RowAddressSetterType::Direct => Some(0u32),
        RowAddressSetterType::ShiftRegister => Some(1u32),
        RowAddressSetterType::DirectABCDLine => Some(2u32),
        RowAddressSetterType::ABCShiftRegister => Some(4u32),
        RowAddressSetterType::SM5266 => None,
    }
}

/// What is wrong with the configuration for this driver, if anything is; of
/// several faults, the first in the order of the variants of the error.
pub open spec fn conversion_fault(value: HardwareConfig) -> Option<ConversionError> {
    if value.rows > u32::MAX || value.cols > u32::MAX || value.chain_length > u32::MAX
        || value.parallel > u32::MAX || value.refresh_rate > u32::MAX || value.dither_bits
        > u32::MAX {
        Some(ConversionError::OutOfRange)
    } else if value.pwm_bits > 11 {
        Some(ConversionError::PwmBits)
    } else if multiplexing_code(value.multiplexing) is None {
        Some(ConversionError::Multiplexing(value.multiplexing->0))
    } else if row_setter_code(value.row_setter) is None {
        Some(ConversionError::RowSetter(value.row_setter))
    } else {
        None
    }
}

impl CombinedConfig {
    /// Whether these are the options for the configuration `value`.
    pub open spec fn is_for(self, value: HardwareConfig) -> bool {
        let matrix = self.matrix_options;
        &&& matrix.hardware_mapping@ == mapping_name(value.hardware_mapping)
        &&& matrix.rows == value.rows
        &&& matrix.cols == value.cols
        &&& matrix.chain_length == value.chain_length
        &&& matrix.parallel == value.parallel
        &&& matrix.pwm_bits == value.pwm_bits
        &&& matrix.pwm_lsb_nanoseconds == value.pwm_lsb_nanoseconds
        &&& matrix.brightness == 100
        &&& matrix.scan_mode == if value.interlaced {
            1u32
        } else {
            0u32
        }
        &&& matrix.led_rgb_sequence@ == value.led_sequence.name()
        &&& matrix.pixel_mapper_config@ == ""@
        &&& !matrix.hardware_pulsing
        &&& !matrix.refresh_rate
        &&& !matrix.inverse_colors
        &&& Some(matrix.multiplexing) == multiplexing_code(value.multiplexing)
        &&& Some(matrix.row_addr_type) == row_setter_code(value.row_setter)
        &&& matrix.limit_refresh == value.refresh_rate
        &&& matrix.pwm_dither_bits == value.dither_bits
        &&& matrix.panel_type@ == panel_name(value.panel_type)
        &&& self.runtime_options.gpio_slowdown == value.slowdown
    }

    /// The options for the configuration `value`, or what is wrong with it.
    pub fn try_from(value: HardwareConfig) -> (converted: Result<CombinedConfig, ConversionError>)
        ensures
            match converted {
                Ok(config) => conversion_fault(value) is None && config.is_for(value),
                Err(error) => conversion_fault(value) == Some(error),
            },
    {
        let limit = u32::MAX as usize;
        if value.rows > limit || value.cols > limit || value.chain_length > limit || value.parallel
            > limit || value.refresh_rate > limit || value.dither_bits > limit {
            return Err(ConversionError::OutOfRange);
        }
        if value.pwm_bits > 11 {
            return Err(ConversionError::PwmBits);
        }
        let multiplexing: u32 = match value.multiplexing {
            None => 0,
            Some(kind) => match kind {
                MultiplexMapperType::Stripe => 1,
                MultiplexMapperType::Checkered => 2,
                MultiplexMapperType::Spiral => 3,
                MultiplexMapperType::ZStripe08 => 4,
                MultiplexMapperType::ZStripe44 => 5,
                MultiplexMapperType::Coreman => 6,
                MultiplexMapperType::Kaler2Scan => 7,
                MultiplexMapperType::P10Z => 9,
                MultiplexMapperType::QiangLiQ8 => 10,
                MultiplexMapperType::InversedZStripe => 11,
                MultiplexMapperType::P10Outdoor1R1G1B1 => 12,
                MultiplexMapperType::P10Outdoor1R1G1B2 => 13,
                MultiplexMapperType::P10Outdoor1R1G1B3 => 14,
                MultiplexMapperType::P10Coreman => 15,
                MultiplexMapperType::P8Outdoor1R1G1B => 16,
                MultiplexMapperType::ZStripe80
                | MultiplexMapperType::FlippedStripe
                | MultiplexMapperType::P10Outdoor32x16HalfScan => {
                    return Err(ConversionError::Multiplexing(kind));
                },
            },
        };
        let row_addr_type: u32 = match value.row_setter {
            RowAddressSetterType::Direct => 0,
            RowAddressSetterType::ShiftRegister => 1,
            RowAddressSetterType::DirectABCDLine => 2,
            RowAddressSetterType::ABCShiftRegister => 4,
            RowAddressSetterType::SM5266 => {
                return Err(ConversionError::RowSetter(value.row_setter));
            },
        };
        let matrix_options = MatrixOptions {
            hardware_mapping: match value.hardware_mapping {
                HardwareMapping::AdafruitHat => "adafruit-hat",
                HardwareMapping::AdafruitHatPwm => "adafruit-hat-pwm",
                HardwareMapping::Regular => "regular",
                HardwareMapping::RegularPi1 => "regular",
                HardwareMapping::Classic => "regular",
                HardwareMapping::ClassicPi1 => "regular",
            },
            rows: value.rows as u32,
            cols: value.cols as u32,
            chain_length: value.chain_length as u32,
            parallel: value.parallel as u32,
            pwm_bits: value.pwm_bits as u8,
            pwm_lsb_nanoseconds: value.pwm_lsb_nanoseconds,
            brightness: 100,
            scan_mode: if value.interlaced {
                1
            } else {
                0
            },
            led_rgb_sequence: value.led_sequence.as_ref(),
            pixel_mapper_config: "",
            hardware_pulsing: false,
            refresh_rate: false,
            inverse_colors: false,
            multiplexing,
            row_addr_type,
            limit_refresh: value.refresh_rate as u32,
            pwm_dither_bits: value.dither_bits as u32,
            panel_type: match value.panel_type {
                Some(PanelType::FM6126) => "FM6126A",
                Some(PanelType::FM6127) => "FM6127",
                None => "",
            },
        };
        Ok(
            CombinedConfig {
                matrix_options,
                runtime_options: RuntimeOptions { gpio_slowdown: value.slowdown },
            },
        )
    }
}

} // verus!
