//! The hardware configuration of the display, and the messages that ask for
//! a new configuration and report the one in use.

use crate::text::{
    eq_ignore_ascii_case, lemma_same_ignoring_ascii_case_at, same_ignoring_ascii_case,
};
use vstd::prelude::*;

verus! {

/// Why a text is not the name of a variant.
#[derive(Clone, Copy, Debug, PartialEq, Eq, Structural)]
pub enum ParseError {
    /// No variant has the name.
    VariantNotFound,
}

/// How the panel is wired to the board.
#[derive(Clone, Copy, Debug, PartialEq, Eq, Structural)]
pub enum HardwareMapping {
    AdafruitHat,
    AdafruitHatPwm,
    Regular,
    RegularPi1,
    Classic,
    ClassicPi1,
}

impl HardwareMapping {
    /// The name of the variant, as it is written in configurations.
    pub open spec fn name(self) -> Seq<char> {
        match self {
            HardwareMapping::AdafruitHat => "AdafruitHat"@,
            HardwareMapping::AdafruitHatPwm => "AdafruitHatPwm"@,
            HardwareMapping::Regular => "Regular"@,
            HardwareMapping::RegularPi1 => "RegularPi1"@,
            HardwareMapping::Classic => "Classic"@,
            HardwareMapping::ClassicPi1 => "ClassicPi1"@,
        }
    }

    /// No two variants have names that are the same but for the case of ASCII
    /// letters, so a text names at most one variant.
    pub proof fn lemma_names_differ(a: HardwareMapping, b: HardwareMapping)
        requires
            a != b,
        ensures
            !same_ignoring_ascii_case(a.name(), b.name()),
    {
        reveal_strlit("AdafruitHat");
        reveal_strlit("AdafruitHatPwm");
        reveal_strlit("Regular");
        reveal_strlit("RegularPi1");
        reveal_strlit("Classic");
        reveal_strlit("ClassicPi1");
        if same_ignoring_ascii_case(a.name(), b.name()) {
            lemma_same_ignoring_ascii_case_at(a.name(), b.name(), 0);
        }
    }

    /// The name of the variant, as it is written in configurations.
    pub fn as_ref(&self) -> (name: &'static str)
        ensures
            name@ == self.name(),
    {
        match self {
            HardwareMapping::AdafruitHat => "AdafruitHat",
            HardwareMapping::AdafruitHatPwm => "AdafruitHatPwm",
            HardwareMapping::Regular => "Regular",
            HardwareMapping::RegularPi1 => "RegularPi1",
            HardwareMapping::Classic => "Classic",
            HardwareMapping::ClassicPi1 => "ClassicPi1",
        }
    }

    /// The variant whose name is `text` but for the case of ASCII letters.
    pub fn from_str(text: &str) -> (parsed: Result<HardwareMapping, ParseError>)
        ensures
            match parsed {
                Ok(variant) => same_ignoring_ascii_case(text@, variant.name()),
                Err(_) => forall|variant: HardwareMapping|
                    !same_ignoring_ascii_case(text@, #[trigger] variant.name()),
            },
    {
        if eq_ignore_ascii_case(text, "AdafruitHat") {
            Ok(HardwareMapping::AdafruitHat)
        } else if eq_ignore_ascii_case(text, "AdafruitHatPwm") {
            Ok(HardwareMapping::AdafruitHatPwm)
        } else if eq_ignore_ascii_case(text, "Regular") {
            Ok(HardwareMapping::Regular)
        } else if eq_ignore_ascii_case(text, "RegularPi1") {
            Ok(HardwareMapping::RegularPi1)
        } else if eq_ignore_ascii_case(text, "Classic") {
            Ok(HardwareMapping::Classic)
        } else if eq_ignore_ascii_case(text, "ClassicPi1") {
            Ok(HardwareMapping::ClassicPi1)
        } else {
            proof {
                assert forall|variant: HardwareMapping|
                    !same_ignoring_ascii_case(text@, #[trigger] variant.name()) by {
                    match variant {
                        HardwareMapping::AdafruitHat => {},
                        HardwareMapping::AdafruitHatPwm => {},
                        HardwareMapping::Regular => {},
                        HardwareMapping::RegularPi1 => {},
                        HardwareMapping::Classic => {},
                        HardwareMapping::ClassicPi1 => {},
                    }
                }
            }
            Err(ParseError::VariantNotFound)
        }
    }
}

/// The chip of the board.
#[derive(Clone, Copy, Debug, PartialEq, Eq, Structural)]
pub enum PiChip {
    BCM2708,
    BCM2709,
    BCM2711,
}

impl PiChip {
    /// The name of the variant, as it is written in configurations.
    pub open spec fn name(self) -> Seq<char> {
        match self {
            PiChip::BCM2708 => "BCM2708"@,
            PiChip::BCM2709 => "BCM2709"@,
            PiChip::BCM2711 => "BCM2711"@,
        }
    }

    /// No two variants have names that are the same but for the case of ASCII
    /// letters, so a text names at most one variant.
    pub proof fn lemma_names_differ(a: PiChip, b: PiChip)
        requires
            a != b,
        ensures
            !same_ignoring_ascii_case(a.name(), b.name()),
    {
        reveal_strlit("BCM2708");
        reveal_strlit("BCM2709");
        reveal_strlit("BCM2711");
        if same_ignoring_ascii_case(a.name(), b.name()) {
            lemma_same_ignoring_ascii_case_at(a.name(), b.name(), 6);
        }
    }

    /// The name of the variant, as it is written in configurations.
    pub fn as_ref(&self) -> (name: &'static str)
        ensures
            name@ == self.name(),
    {
        match self {
            PiChip::BCM2708 => "BCM2708",
            PiChip::BCM2709 => "BCM2709",
            PiChip::BCM2711 => "BCM2711",
        }
    }

    /// The variant whose name is `text` but for the case of ASCII letters.
    pub fn from_str(text: &str) -> (parsed: Result<PiChip, ParseError>)
        ensures
            match parsed {
                Ok(variant) => same_ignoring_ascii_case(text@, variant.name()),
                Err(_) => forall|variant: PiChip|
                    !same_ignoring_ascii_case(text@, #[trigger] variant.name()),
            },
    {
        if eq_ignore_ascii_case(text, "BCM2708") {
            Ok(PiChip::BCM2708)
        } else if eq_ignore_ascii_case(text, "BCM2709") {
            Ok(PiChip::BCM2709)
        } else if eq_ignore_ascii_case(text, "BCM2711") {
            Ok(PiChip::BCM2711)
        } else {
            proof {
                assert forall|variant: PiChip|
                    !same_ignoring_ascii_case(text@, #[trigger] variant.name()) by {
                    match variant {
                        PiChip::BCM2708 => {},
                        PiChip::BCM2709 => {},
                        PiChip::BCM2711 => {},
                    }
                }
            }
            Err(ParseError::VariantNotFound)
        }
    }
}

/// Panels that need an initialisation sequence of their own.
#[derive(Clone, Copy, Debug, PartialEq, Eq, Structural)]
pub enum PanelType {
    FM6126,
    FM6127,
}

impl PanelType {
    /// The name of the variant, as it is written in configurations.
    pub open spec fn name(self) -> Seq<char> {
        match self {
            PanelType::FM6126 => "FM6126"@,
            PanelType::FM6127 => "FM6127"@,
        }
    }

    /// No two variants have names that are the same but for the case of ASCII
    /// letters, so a text names at most one variant.
    pub proof fn lemma_names_differ(a: PanelType, b: PanelType)
        requires
            a != b,
        ensures
            !same_ignoring_ascii_case(a.name(), b.name()),
    {
        reveal_strlit("FM6126");
        reveal_strlit("FM6127");
        if same_ignoring_ascii_case(a.name(), b.name()) {
            lemma_same_ignoring_ascii_case_at(a.name(), b.name(), 5);
        }
    }

    /// The name of the variant, as it is written in configurations.
    pub fn as_ref(&self) -> (name: &'static str)
        ensures
            name@ == self.name(),
    {
        match self {
            PanelType::FM6126 => "FM6126",
            PanelType::FM6127 => "FM6127",
        }
    }

    /// The variant whose name is `text` but for the case of ASCII letters.
    pub fn from_str(text: &str) -> (parsed: Result<PanelType, ParseError>)
        ensures
            match parsed {
                Ok(variant) => same_ignoring_ascii_case(text@, variant.name()),
                Err(_) => forall|variant: PanelType|
                    !same_ignoring_ascii_case(text@, #[trigger] variant.name()),
            },
    {
        if eq_ignore_ascii_case(text, "FM6126") {
            Ok(PanelType::FM6126)
        } else if eq_ignore_ascii_case(text, "FM6127") {
            Ok(PanelType::FM6127)
        } else {
            proof {
                assert forall|variant: PanelType|
                    !same_ignoring_ascii_case(text@, #[trigger] variant.name()) by {
                    match variant {
                        PanelType::FM6126 => {},
                        PanelType::FM6127 => {},
                    }
                }
            }
            Err(ParseError::VariantNotFound)
        }
    }
}

/// How the rows of a panel are multiplexed.
#[derive(Clone, Copy, Debug, PartialEq, Eq, Structural)]
pub enum MultiplexMapperType {
    Stripe,
    Checkered,
    Spiral,
    ZStripe08,
    ZStripe44,
    ZStripe80,
    Coreman,
    Kaler2Scan,
    P10Z,
    QiangLiQ8,
    InversedZStripe,
    P10Outdoor1R1G1B1,
    P10Outdoor1R1G1B2,
    P10Outdoor1R1G1B3,
    P10Coreman,
    P8Outdoor1R1G1B,
    FlippedStripe,
    P10Outdoor32x16HalfScan,
}

impl MultiplexMapperType {
    /// The name of the variant, as it is written in configurations.
    pub open spec fn name(self) -> Seq<char> {
        match self {
            MultiplexMapperType::Stripe => "Stripe"@,
            MultiplexMapperType::Checkered => "Checkered"@,
            MultiplexMapperType::Spiral => "Spiral"@,
            MultiplexMapperType::ZStripe08 => "ZStripe08"@,
            MultiplexMapperType::ZStripe44 => "ZStripe44"@,
            MultiplexMapperType::ZStripe80 => "ZStripe80"@,
            MultiplexMapperType::Coreman => "Coreman"@,
            MultiplexMapperType::Kaler2Scan => "Kaler2Scan"@,
            MultiplexMapperType::P10Z => "P10z"@,
            MultiplexMapperType::QiangLiQ8 => "QiangLiQ8"@,
            MultiplexMapperType::InversedZStripe => "InversedZStripe"@,
            MultiplexMapperType::P10Outdoor1R1G1B1 => "P10Outdoor1R1g1b1"@,
            MultiplexMapperType::P10Outdoor1R1G1B2 => "P10Outdoor1R1g1b2"@,
            MultiplexMapperType::P10Outdoor1R1G1B3 => "P10Outdoor1R1g1b3"@,
            MultiplexMapperType::P10Coreman => "P10Coreman"@,
            MultiplexMapperType::P8Outdoor1R1G1B => "P8Outdoor1R1g1b"@,
            MultiplexMapperType::FlippedStripe => "FlippedStripe"@,
            MultiplexMapperType::P10Outdoor32x16HalfScan => "P10Outdoor32x16HalfScan"@,
        }
    }

    /// No two variants have names that are the same but for the case of ASCII
    /// letters, so a text names at most one variant.
    pub proof fn lemma_names_differ(a: MultiplexMapperType, b: MultiplexMapperType)
        requires
            a != b,
        ensures
            !same_ignoring_ascii_case(a.name(), b.name()),
    {
        reveal_strlit("Stripe");
        reveal_strlit("Checkered");
        reveal_strlit("Spiral");
        reveal_strlit("ZStripe08");
        reveal_strlit("ZStripe44");
        reveal_strlit("ZStripe80");
        reveal_strlit("Coreman");
        reveal_strlit("Kaler2Scan");
        reveal_strlit("P10z");
        reveal_strlit("QiangLiQ8");
        reveal_strlit("InversedZStripe");
        reveal_strlit("P10Outdoor1R1g1b1");
        reveal_strlit("P10Outdoor1R1g1b2");
        reveal_strlit("P10Outdoor1R1g1b3");
        reveal_strlit("P10Coreman");
        reveal_strlit("P8Outdoor1R1g1b");
        reveal_strlit("FlippedStripe");
        reveal_strlit("P10Outdoor32x16HalfScan");
        if same_ignoring_ascii_case(a.name(), b.name()) {
            lemma_same_ignoring_ascii_case_at(a.name(), b.name(), 1);
            lemma_same_ignoring_ascii_case_at(a.name(), b.name(), 7);
            lemma_same_ignoring_ascii_case_at(a.name(), b.name(), 16);
        }
    }

    /// The name of the variant, as it is written in configurations.
    pub fn as_ref(&self) -> (name: &'static str)
        ensures
            name@ == self.name(),
    {
        match self {
            MultiplexMapperType::Stripe => "Stripe",
            MultiplexMapperType::Checkered => "Checkered",
            MultiplexMapperType::Spiral => "Spiral",
            MultiplexMapperType::ZStripe08 => "ZStripe08",
            MultiplexMapperType::ZStripe44 => "ZStripe44",
            MultiplexMapperType::ZStripe80 => "ZStripe80",
            MultiplexMapperType::Coreman => "Coreman",
            MultiplexMapperType::Kaler2Scan => "Kaler2Scan",
            MultiplexMapperType::P10Z => "P10z",
            MultiplexMapperType::QiangLiQ8 => "QiangLiQ8",
            MultiplexMapperType::InversedZStripe => "InversedZStripe",
            MultiplexMapperType::P10Outdoor1R1G1B1 => "P10Outdoor1R1g1b1",
            MultiplexMapperType::P10Outdoor1R1G1B2 => "P10Outdoor1R1g1b2",
            MultiplexMapperType::P10Outdoor1R1G1B3 => "P10Outdoor1R1g1b3",
            MultiplexMapperType::P10Coreman => "P10Coreman",
            MultiplexMapperType::P8Outdoor1R1G1B => "P8Outdoor1R1g1b",
            MultiplexMapperType::FlippedStripe => "FlippedStripe",
            MultiplexMapperType::P10Outdoor32x16HalfScan => "P10Outdoor32x16HalfScan",
        }
    }

    /// The variant whose name is `text` but for the case of ASCII letters.
    pub fn from_str(text: &str) -> (parsed: Result<MultiplexMapperType, ParseError>)
        ensures
            match parsed {
                Ok(variant) => same_ignoring_ascii_case(text@, variant.name()),
                Err(_) => forall|variant: MultiplexMapperType|
                    !same_ignoring_ascii_case(text@, #[trigger] variant.name()),
            },
    {
        if eq_ignore_ascii_case(text, "Stripe") {
            Ok(MultiplexMapperType::Stripe)
        } else if eq_ignore_ascii_case(text, "Checkered") {
            Ok(MultiplexMapperType::Checkered)
        } else if eq_ignore_ascii_case(text, "Spiral") {
            Ok(MultiplexMapperType::Spiral)
        } else if eq_ignore_ascii_case(text, "ZStripe08") {
            Ok(MultiplexMapperType::ZStripe08)
        } else if eq_ignore_ascii_case(text, "ZStripe44") {
            Ok(MultiplexMapperType::ZStripe44)
        } else if eq_ignore_ascii_case(text, "ZStripe80") {
            Ok(MultiplexMapperType::ZStripe80)
        } else if eq_ignore_ascii_case(text, "Coreman") {
            Ok(MultiplexMapperType::Coreman)
        } else if eq_ignore_ascii_case(text, "Kaler2Scan") {
            Ok(MultiplexMapperType::Kaler2Scan)
        } else if eq_ignore_ascii_case(text, "P10z") {
            Ok(MultiplexMapperType::P10Z)
        } else if eq_ignore_ascii_case(text, "QiangLiQ8") {
            Ok(MultiplexMapperType::QiangLiQ8)
        } else if eq_ignore_ascii_case(text, "InversedZStripe") {
            Ok(MultiplexMapperType::InversedZStripe)
        } else if eq_ignore_ascii_case(text, "P10Outdoor1R1g1b1") {
            Ok(MultiplexMapperType::P10Outdoor1R1G1B1)
        } else if eq_ignore_ascii_case(text, "P10Outdoor1R1g1b2") {
            Ok(MultiplexMapperType::P10Outdoor1R1G1B2)
        } else if eq_ignore_ascii_case(text, "P10Outdoor1R1g1b3") {
            Ok(MultiplexMapperType::P10Outdoor1R1G1B3)
        } else if eq_ignore_ascii_case(text, "P10Coreman") {
            Ok(MultiplexMapperType::P10Coreman)
        } else if eq_ignore_ascii_case(text, "P8Outdoor1R1g1b") {
            Ok(MultiplexMapperType::P8Outdoor1R1G1B)
        } else if eq_ignore_ascii_case(text, "FlippedStripe") {
            Ok(MultiplexMapperType::FlippedStripe)
        } else if eq_ignore_ascii_case(text, "P10Outdoor32x16HalfScan") {
            Ok(MultiplexMapperType::P10Outdoor32x16HalfScan)
        } else {
            proof {
                assert forall|variant: MultiplexMapperType|
                    !same_ignoring_ascii_case(text@, #[trigger] variant.name()) by {
                    match variant {
                        MultiplexMapperType::Stripe => {},
                        MultiplexMapperType::Checkered => {},
                        MultiplexMapperType::Spiral => {},
                        MultiplexMapperType::ZStripe08 => {},
                        MultiplexMapperType::ZStripe44 => {},
                        MultiplexMapperType::ZStripe80 => {},
                        MultiplexMapperType::Coreman => {},
                        MultiplexMapperType::Kaler2Scan => {},
                        MultiplexMapperType::P10Z => {},
                        MultiplexMapperType::QiangLiQ8 => {},
                        MultiplexMapperType::InversedZStripe => {},
                        MultiplexMapperType::P10Outdoor1R1G1B1 => {},
                        MultiplexMapperType::P10Outdoor1R1G1B2 => {},
                        MultiplexMapperType::P10Outdoor1R1G1B3 => {},
                        MultiplexMapperType::P10Coreman => {},
                        MultiplexMapperType::P8Outdoor1R1G1B => {},
                        MultiplexMapperType::FlippedStripe => {},
                        MultiplexMapperType::P10Outdoor32x16HalfScan => {},
                    }
                }
            }
            Err(ParseError::VariantNotFound)
        }
    }
}

/// How the address of a row is put on the wires.
#[derive(Clone, Copy, Debug, PartialEq, Eq, Structural)]
pub enum RowAddressSetterType {
    Direct,
    ShiftRegister,
    DirectABCDLine,
    ABCShiftRegister,
    SM5266,
}

impl RowAddressSetterType {
    /// The name of the variant, as it is written in configurations.
    pub open spec fn name(self) -> Seq<char> {
        match self {
            RowAddressSetterType::Direct => "Direct"@,
            RowAddressSetterType::ShiftRegister => "ShiftRegister"@,
            RowAddressSetterType::DirectABCDLine => "DirectAbcdLine"@,
            RowAddressSetterType::ABCShiftRegister => "AbcShiftRegister"@,
            RowAddressSetterType::SM5266 => "Sm5266"@,
        }
    }

    /// No two variants have names that are the same but for the case of ASCII
    /// letters, so a text names at most one variant.
    pub proof fn lemma_names_differ(a: RowAddressSetterType, b: RowAddressSetterType)
        requires
            a != b,
        ensures
            !same_ignoring_ascii_case(a.name(), b.name()),
    {
        reveal_strlit("Direct");
        reveal_strlit("ShiftRegister");
        reveal_strlit("DirectAbcdLine");
        reveal_strlit("AbcShiftRegister");
        reveal_strlit("Sm5266");
        if same_ignoring_ascii_case(a.name(), b.name()) {
            lemma_same_ignoring_ascii_case_at(a.name(), b.name(), 0);
        }
    }

    /// The name of the variant, as it is written in configurations.
    pub fn as_ref(&self) -> (name: &'static str)
        ensures
            name@ == self.name(),
    {
        match self {
            RowAddressSetterType::Direct => "Direct",
            RowAddressSetterType::ShiftRegister => "ShiftRegister",
            RowAddressSetterType::DirectABCDLine => "DirectAbcdLine",
            RowAddressSetterType::ABCShiftRegister => "AbcShiftRegister",
            RowAddressSetterType::SM5266 => "Sm5266",
        }
    }

    /// The variant whose name is `text` but for the case of ASCII letters.
    pub fn from_str(text: &str) -> (parsed: Result<RowAddressSetterType, ParseError>)
        ensures
            match parsed {
                Ok(variant) => same_ignoring_ascii_case(text@, variant.name()),
                Err(_) => forall|variant: RowAddressSetterType|
                    !same_ignoring_ascii_case(text@, #[trigger] variant.name()),
            },
    {
        if eq_ignore_ascii_case(text, "Direct") {
            Ok(RowAddressSetterType::Direct)
        } else if eq_ignore_ascii_case(text, "ShiftRegister") {
            Ok(RowAddressSetterType::ShiftRegister)
        } else if eq_ignore_ascii_case(text, "DirectAbcdLine") {
            Ok(RowAddressSetterType::DirectABCDLine)
        } else if eq_ignore_ascii_case(text, "AbcShiftRegister") {
            Ok(RowAddressSetterType::ABCShiftRegister)
        } else if eq_ignore_ascii_case(text, "Sm5266") {
            Ok(RowAddressSetterType::SM5266)
        } else {
            proof {
                assert forall|variant: RowAddressSetterType|
                    !same_ignoring_ascii_case(text@, #[trigger] variant.name()) by {
                    match variant {
                        RowAddressSetterType::Direct => {},
                        RowAddressSetterType::ShiftRegister => {},
                        RowAddressSetterType::DirectABCDLine => {},
                        RowAddressSetterType::ABCShiftRegister => {},
                        RowAddressSetterType::SM5266 => {},
                    }
                }
            }
            Err(ParseError::VariantNotFound)
        }
    }
}

/// The order of the colour channels on the wires.
#[derive(Clone, Copy, Debug, PartialEq, Eq, Structural)]
pub enum LedSequence {
    Rgb,
    Rbg,
    Grb,
    Gbr,
    Brg,
    Bgr,
}

impl LedSequence {
    /// The name of the variant, as it is written in configurations.
    pub open spec fn name(self) -> Seq<char> {
        match self {
            LedSequence::Rgb => "RGB"@,
            LedSequence::Rbg => "RBG"@,
            LedSequence::Grb => "GRB"@,
            LedSequence::Gbr => "GBR"@,
            LedSequence::Brg => "BRG"@,
            LedSequence::Bgr => "BGR"@,
        }
    }

    /// No two variants have names that are the same but for the case of ASCII
    /// letters, so a text names at most one variant.
    pub proof fn lemma_names_differ(a: LedSequence, b: LedSequence)
        requires
            a != b,
        ensures
            !same_ignoring_ascii_case(a.name(), b.name()),
    {
        reveal_strlit("RGB");
        reveal_strlit("RBG");
        reveal_strlit("GRB");
        reveal_strlit("GBR");
        reveal_strlit("BRG");
        reveal_strlit("BGR");
        if same_ignoring_ascii_case(a.name(), b.name()) {
            lemma_same_ignoring_ascii_case_at(a.name(), b.name(), 0);
            lemma_same_ignoring_ascii_case_at(a.name(), b.name(), 1);
        }
    }

    /// The name of the variant, as it is written in configurations.
    pub fn as_ref(&self) -> (name: &'static str)
        ensures
            name@ == self.name(),
    {
        match self {
            LedSequence::Rgb => "RGB",
            LedSequence::Rbg => "RBG",
            LedSequence::Grb => "GRB",
            LedSequence::Gbr => "GBR",
            LedSequence::Brg => "BRG",
            LedSequence::Bgr => "BGR",
        }
    }

    /// The variant whose name is `text` but for the case of ASCII letters.
    pub fn from_str(text: &str) -> (parsed: Result<LedSequence, ParseError>)
        ensures
            match parsed {
                Ok(variant) => same_ignoring_ascii_case(text@, variant.name()),
                Err(_) => forall|variant: LedSequence|
                    !same_ignoring_ascii_case(text@, #[trigger] variant.name()),
            },
    {
        if eq_ignore_ascii_case(text, "RGB") {
            Ok(LedSequence::Rgb)
        } else if eq_ignore_ascii_case(text, "RBG") {
            Ok(LedSequence::Rbg)
        } else if eq_ignore_ascii_case(text, "GRB") {
            Ok(LedSequence::Grb)
        } else if eq_ignore_ascii_case(text, "GBR") {
            Ok(LedSequence::Gbr)
        } else if eq_ignore_ascii_case(text, "BRG") {
            Ok(LedSequence::Brg)
        } else if eq_ignore_ascii_case(text, "BGR") {
            Ok(LedSequence::Bgr)
        } else {
            proof {
                assert forall|variant: LedSequence|
                    !same_ignoring_ascii_case(text@, #[trigger] variant.name()) by {
                    match variant {
                        LedSequence::Rgb => {},
                        LedSequence::Rbg => {},
                        LedSequence::Grb => {},
                        LedSequence::Gbr => {},
                        LedSequence::Brg => {},
                        LedSequence::Bgr => {},
                    }
                }
            }
            Err(ParseError::VariantNotFound)
        }
    }
}

/// The physical parameters of the display.
#[derive(Clone, Copy, Debug, PartialEq, Eq)]
pub struct HardwareConfig {
    pub hardware_mapping: HardwareMapping,
    pub rows: usize,
    pub cols: usize,
    pub refresh_rate: usize,
    pub pi_chip: Option<PiChip>,
    pub pwm_bits: usize,
    pub pwm_lsb_nanoseconds: u32,
    pub slowdown: Option<u32>,
    pub interlaced: bool,
    pub dither_bits: usize,
    pub chain_length: usize,
    pub parallel: usize,
    pub panel_type: Option<PanelType>,
    pub multiplexing: Option<MultiplexMapperType>,
    pub row_setter: RowAddressSetterType,
    pub led_sequence: LedSequence,
}

/// What the driver side is asked to do.
#[derive(Clone, Copy, Debug)]
pub enum RxEvent {
    /// Use this configuration from now on.
    UpdateMatrixConfig(HardwareConfig),
}

/// What the driver side reports.
#[derive(Clone, Copy, Debug)]
pub enum TxEvent {
    /// This configuration is in use now.
    UpdateMatrixConfig(HardwareConfig),
}

/// Where the position of a person is asked for.
#[derive(Clone, Debug)]
pub struct TransitConfig {
    pub home_assistant_url: String,
    pub home_assistant_bearer_token: String,
    pub person_entity_id: String,
}

} // verus!
