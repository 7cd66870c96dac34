//! The hardware configuration as the fields of a form: names as text, and a
//! word in place of a value that is left open.

use crate::config::{
    HardwareConfig, HardwareMapping, LedSequence, MultiplexMapperType, PanelType, ParseError,
    PiChip, RowAddressSetterType,
};
use crate::text::{same_ignoring_ascii_case, same_text};
use vstd::prelude::*;

verus! {

/// The fields of the form.
#[derive(Clone, Copy, Debug)]
pub struct HardwareConfigForm<'a> {
    pub hardware_mapping: &'a str,
    pub rows: usize,
    pub cols: usize,
    pub refresh_rate: usize,
    /// The name of a chip, or `Automatic`.
    pub pi_chip: &'a str,
    pub pwm_bits: usize,
    pub pwm_lsb_nanoseconds: u32,
    /// Zero where the configuration leaves the slowdown open.
    pub slowdown: u32,
    /// `True` or `False`.
    pub interlaced: &'a str,
    pub dither_bits: usize,
    pub chain_length: usize,
    pub parallel: usize,
    /// The name of a panel type, or `None`.
    pub panel_type: &'a str,
    /// The name of a multiplexing, or `None`.
    pub multiplexing: &'a str,
    pub row_setter: &'a str,
    pub led_sequence: &'a str,
}

impl<'a> HardwareConfigForm<'a> {
    /// Whether the form shows the configuration `config`.
    pub open spec fn shows(self, config: HardwareConfig) -> bool {
        &&& self.hardware_mapping@ == config.hardware_mapping.name()
        &&& self.rows == config.rows
        &&& self.cols == config.cols
        &&& self.refresh_rate == config.refresh_rate
        &&& self.pi_chip@ == match config.pi_chip {
            Some(pi_chip) => pi_chip.name(),
            None => "Automatic"@,
        }
        &&& self.pwm_bits == config.pwm_bits
        &&& self.pwm_lsb_nanoseconds == config.pwm_lsb_nanoseconds
        &&& self.slowdown == match config.slowdown {
            Some(slowdown) => slowdown,
            None => 0,
        }
        &&& self.interlaced@ == if config.interlaced {
            "True"@
        } else {
            "False"@
        }
        &&& self.dither_bits == config.dither_bits
        &&& self.chain_length == config.chain_length
        &&& self.parallel == config.parallel
        &&& self.panel_type@ == match config.panel_type {
            Some(panel_type) => panel_type.name(),
            None => "None"@,
        }
        &&& self.multiplexing@ == match config.multiplexing {
            Some(multiplexing) => multiplexing.name(),
            None => "None"@,
        }
        &&& self.row_setter@ == config.row_setter.name()
        &&& self.led_sequence@ == config.led_sequence.name()
    }

    /// The form that shows `config`.
    pub fn try_from(config: &HardwareConfig) -> (form: Result<HardwareConfigForm<'static>, ParseError>)
        ensures
            form matches Ok(shown) && shown.shows(*config),
    {
        Ok(
            HardwareConfigForm {
                hardware_mapping: config.hardware_mapping.as_ref(),
                rows: config.rows,
                cols: config.cols,
                refresh_rate: config.refresh_rate,
                pi_chip: match &config.pi_chip {
                    Some(pi_chip) => pi_chip.as_ref(),
                    None => "Automatic",
                },
                pwm_bits: config.pwm_bits,
                pwm_lsb_nanoseconds: config.pwm_lsb_nanoseconds,
                slowdown: match config.slowdown {
                    Some(slowdown) => slowdown,
                    None => 0,
                },
                interlaced: if config.interlaced {
                    "True"
                } else {
                    "False"
                },
                dither_bits: config.dither_bits,
                chain_length: config.chain_length,
                parallel: config.parallel,
                panel_type: match &config.panel_type {
                    Some(panel_type) => panel_type.as_ref(),
                    None => "None",
                },
                multiplexing: match &config.multiplexing {
                    Some(multiplexing) => multiplexing.as_ref(),
                    None => "None",
                },
                row_setter: config.row_setter.as_ref(),
                led_sequence: config.led_sequence.as_ref(),
            },
        )
    }
}

/// Whether `text` names `variant`: it is the word for "left open" and there
/// is no variant, or it is, but for the case of ASCII letters, the name of the
/// variant.
pub open spec fn names_optional(
    text: Seq<char>,
    open_word: Seq<char>,
    variant: Option<Seq<char>>,
) -> bool {
    match variant {
        None => text == open_word,
        Some(name) => text != open_word && same_ignoring_ascii_case(text, name),
    }
}

impl HardwareConfig {
    /// Whether this is a configuration that `form` describes.
    pub open spec fn is_described_by(self, form: HardwareConfigForm) -> bool {
        &&& same_ignoring_ascii_case(form.hardware_mapping@, self.hardware_mapping.name())
        &&& self.rows == form.rows
        &&& self.cols == form.cols
        &&& self.refresh_rate == form.refresh_rate
        &&& names_optional(
            form.pi_chip@,
            "Automatic"@,
            match self.pi_chip {
                Some(pi_chip) => Some(pi_chip.name()),
                None => None,
            },
        )
        &&& self.pwm_bits == form.pwm_bits
        &&& self.pwm_lsb_nanoseconds == form.pwm_lsb_nanoseconds
        &&& self.slowdown == Some(form.slowdown)
        &&& self.interlaced == (form.interlaced@ == "True"@)
        &&& self.dither_bits == form.dither_bits
        &&& self.chain_length == form.chain_length
        &&& self.parallel == form.parallel
        &&& names_optional(
            form.panel_type@,
            "None"@,
            match self.panel_type {
                Some(panel_type) => Some(panel_type.name()),
                None => None,
            },
        )
        &&& names_optional(
            form.multiplexing@,
            "None"@,
            match self.multiplexing {
                Some(multiplexing) => Some(multiplexing.name()),
                None => None,
            },
        )
        &&& same_ignoring_ascii_case(form.row_setter@, self.row_setter.name())
        &&& same_ignoring_ascii_case(form.led_sequence@, self.led_sequence.name())
    }

    /// The configuration that `form` describes, if every name in it is one.
    pub fn try_from(form: &HardwareConfigForm) -> (config: Result<HardwareConfig, ParseError>)
        ensures
            match config {
                Ok(described) => described.is_described_by(*form),
                Err(_) => forall|any: HardwareConfig| !any.is_described_by(*form),
            },
    {
        let hardware_mapping = match HardwareMapping::from_str(form.hardware_mapping) {
            Ok(hardware_mapping) => hardware_mapping,
            Err(error) => {
                return Err(error);
            },
        };
        let pi_chip = if same_text(form.pi_chip, "Automatic") {
            None
        } else {
            match PiChip::from_str(form.pi_chip) {
                Ok(pi_chip) => Some(pi_chip),
                Err(error) => {
                    return Err(error);
                },
            }
        };
        let panel_type = if same_text(form.panel_type, "None") {
            None
        } else {
            match PanelType::from_str(form.panel_type) {
                Ok(panel_type) => Some(panel_type),
                Err(error) => {
                    return Err(error);
                },
            }
        };
        let multiplexing = if same_text(form.multiplexing, "None") {
            None
        } else {
            match MultiplexMapperType::from_str(form.multiplexing) {
                Ok(multiplexing) => Some(multiplexing),
                Err(error) => {
                    return Err(error);
                },
            }
        };
        let row_setter = match RowAddressSetterType::from_str(form.row_setter) {
            Ok(row_setter) => row_setter,
            Err(error) => {
                return Err(error);
            },
        };
        let led_sequence = match LedSequence::from_str(form.led_sequence) {
            Ok(led_sequence) => led_sequence,
            Err(error) => {
                return Err(error);
            },
        };
        Ok(
            HardwareConfig {
                hardware_mapping,
                rows: form.rows,
                cols: form.cols,
                refresh_rate: form.refresh_rate,
                pi_chip,
                pwm_bits: form.pwm_bits,
                pwm_lsb_nanoseconds: form.pwm_lsb_nanoseconds,
                slowdown: Some(form.slowdown),
                interlaced: same_text(form.interlaced, "True"),
                dither_bits: form.dither_bits,
                chain_length: form.chain_length,
                parallel: form.parallel,
                panel_type,
                multiplexing,
                row_setter,
                led_sequence,
            },
        )
    }
}

} // verus!
