//! The settings of a RAW conversion recipe, as the camera codes them.

use vstd::prelude::*;
use vstd::string::StringExecFns;

use crate::text::{decimal, push_decimal};

verus! {

/// Film simulation modes.
#[derive(Debug, Clone, Copy, PartialEq, Eq, Structural)]
pub enum FilmSimulation {
    Provia,
    Velvia,
    Astia,
    ProNegHi,
    ProNegStd,
    Monochrome,
    MonochromeY,
    MonochromeR,
    MonochromeG,
    Sepia,
    ClassicChrome,
    Acros,
    AcrosY,
    AcrosR,
    AcrosG,
    Eterna,
    ClassicNeg,
    BleachBypass,
    NostalgicNeg,
    RealaAce,
}

impl FilmSimulation {
    /// The code that the camera uses for this value.
    pub open spec fn spec_code(self) -> i32 {
        match self {
            FilmSimulation::Provia => 1,
            FilmSimulation::Velvia => 2,
            FilmSimulation::Astia => 3,
            FilmSimulation::ProNegHi => 4,
            FilmSimulation::ProNegStd => 5,
            FilmSimulation::Monochrome => 6,
            FilmSimulation::MonochromeY => 7,
            FilmSimulation::MonochromeR => 8,
            FilmSimulation::MonochromeG => 9,
            FilmSimulation::Sepia => 10,
            FilmSimulation::ClassicChrome => 11,
            FilmSimulation::Acros => 12,
            FilmSimulation::AcrosY => 13,
            FilmSimulation::AcrosR => 14,
            FilmSimulation::AcrosG => 15,
            FilmSimulation::Eterna => 16,
            FilmSimulation::ClassicNeg => 17,
            FilmSimulation::BleachBypass => 18,
            FilmSimulation::NostalgicNeg => 19,
            FilmSimulation::RealaAce => 20,
        }
    }

    /// The text shown for this value.
    pub open spec fn spec_display(self) -> Seq<char> {
        match self {
            FilmSimulation::Provia => "Provia"@,
            FilmSimulation::Velvia => "Velvia"@,
            FilmSimulation::Astia => "Astia"@,
            FilmSimulation::ProNegHi => "Pro Neg Hi"@,
            FilmSimulation::ProNegStd => "Pro Neg Std"@,
            FilmSimulation::Monochrome => "Monochrome"@,
            FilmSimulation::MonochromeY => "Monochrome+Y"@,
            FilmSimulation::MonochromeR => "Monochrome+R"@,
            FilmSimulation::MonochromeG => "Monochrome+G"@,
            FilmSimulation::Sepia => "Sepia"@,
            FilmSimulation::ClassicChrome => "Classic Chrome"@,
            FilmSimulation::Acros => "Acros"@,
            FilmSimulation::AcrosY => "Acros+Y"@,
            FilmSimulation::AcrosR => "Acros+R"@,
            FilmSimulation::AcrosG => "Acros+G"@,
            FilmSimulation::Eterna => "Eterna"@,
            FilmSimulation::ClassicNeg => "Classic Neg"@,
            FilmSimulation::BleachBypass => "Bleach Bypass"@,
            FilmSimulation::NostalgicNeg => "Nostalgic Neg"@,
            FilmSimulation::RealaAce => "Reala Ace"@,
        }
    }

    /// Distinct values have distinct codes, so decoding a value's code gives
    /// the value back.
    pub proof fn lemma_code_injective(a: Self, b: Self)
        ensures
            a.spec_code() == b.spec_code() ==> a == b,
    {
    }

    /// The code that the camera uses for this value.
    pub fn code(&self) -> (c: i32)
        ensures
            c == self.spec_code(),
    {
        match self {
            FilmSimulation::Provia => 1,
            FilmSimulation::Velvia => 2,
            FilmSimulation::Astia => 3,
            FilmSimulation::ProNegHi => 4,
            FilmSimulation::ProNegStd => 5,
            FilmSimulation::Monochrome => 6,
            FilmSimulation::MonochromeY => 7,
            FilmSimulation::MonochromeR => 8,
            FilmSimulation::MonochromeG => 9,
            FilmSimulation::Sepia => 10,
            FilmSimulation::ClassicChrome => 11,
            FilmSimulation::Acros => 12,
            FilmSimulation::AcrosY => 13,
            FilmSimulation::AcrosR => 14,
            FilmSimulation::AcrosG => 15,
            FilmSimulation::Eterna => 16,
            FilmSimulation::ClassicNeg => 17,
            FilmSimulation::BleachBypass => 18,
            FilmSimulation::NostalgicNeg => 19,
            FilmSimulation::RealaAce => 20,
        }
    }

    /// The value with camera code `code`, if there is one.
    pub fn from_code(code: i32) -> (res: Option<Self>)
        ensures
            match res {
                Some(v) => v.spec_code() == code,
                None => forall|v: Self| v.spec_code() != code,
            },
    {
        match code {
            1 => Some(FilmSimulation::Provia),
            2 => Some(FilmSimulation::Velvia),
            3 => Some(FilmSimulation::Astia),
            4 => Some(FilmSimulation::ProNegHi),
            5 => Some(FilmSimulation::ProNegStd),
            6 => Some(FilmSimulation::Monochrome),
            7 => Some(FilmSimulation::MonochromeY),
            8 => Some(FilmSimulation::MonochromeR),
            9 => Some(FilmSimulation::MonochromeG),
            10 => Some(FilmSimulation::Sepia),
            11 => Some(FilmSimulation::ClassicChrome),
            12 => Some(FilmSimulation::Acros),
            13 => Some(FilmSimulation::AcrosY),
            14 => Some(FilmSimulation::AcrosR),
            15 => Some(FilmSimulation::AcrosG),
            16 => Some(FilmSimulation::Eterna),
            17 => Some(FilmSimulation::ClassicNeg),
            18 => Some(FilmSimulation::BleachBypass),
            19 => Some(FilmSimulation::NostalgicNeg),
            20 => Some(FilmSimulation::RealaAce),
            _ => None,
        }
    }

    /// The text shown for this value.
    pub fn display(&self) -> (s: String)
        ensures
            s@ == self.spec_display(),
    {
        match self {
            FilmSimulation::Provia => "Provia".to_owned(),
            FilmSimulation::Velvia => "Velvia".to_owned(),
            FilmSimulation::Astia => "Astia".to_owned(),
            FilmSimulation::ProNegHi => "Pro Neg Hi".to_owned(),
            FilmSimulation::ProNegStd => "Pro Neg Std".to_owned(),
            FilmSimulation::Monochrome => "Monochrome".to_owned(),
            FilmSimulation::MonochromeY => "Monochrome+Y".to_owned(),
            FilmSimulation::MonochromeR => "Monochrome+R".to_owned(),
            FilmSimulation::MonochromeG => "Monochrome+G".to_owned(),
            FilmSimulation::Sepia => "Sepia".to_owned(),
            FilmSimulation::ClassicChrome => "Classic Chrome".to_owned(),
            FilmSimulation::Acros => "Acros".to_owned(),
            FilmSimulation::AcrosY => "Acros+Y".to_owned(),
            FilmSimulation::AcrosR => "Acros+R".to_owned(),
            FilmSimulation::AcrosG => "Acros+G".to_owned(),
            FilmSimulation::Eterna => "Eterna".to_owned(),
            FilmSimulation::ClassicNeg => "Classic Neg".to_owned(),
            FilmSimulation::BleachBypass => "Bleach Bypass".to_owned(),
            FilmSimulation::NostalgicNeg => "Nostalgic Neg".to_owned(),
            FilmSimulation::RealaAce => "Reala Ace".to_owned(),
        }
    }
}

/// Grain effect levels.
#[derive(Debug, Clone, Copy, PartialEq, Eq, Structural)]
pub enum GrainEffect {
    Off,
    WeakSmall,
    StrongSmall,
    WeakLarge,
    StrongLarge,
}

impl GrainEffect {
    /// The code that the camera uses for this value.
    pub open spec fn spec_code(self) -> i32 {
        match self {
            GrainEffect::Off => 1,
            GrainEffect::WeakSmall => 2,
            GrainEffect::StrongSmall => 3,
            GrainEffect::WeakLarge => 4,
            GrainEffect::StrongLarge => 5,
        }
    }

    /// The text shown for this value.
    pub open spec fn spec_display(self) -> Seq<char> {
        match self {
            GrainEffect::Off => "Off"@,
            GrainEffect::WeakSmall => "Weak, Small"@,
            GrainEffect::StrongSmall => "Strong, Small"@,
            GrainEffect::WeakLarge => "Weak, Large"@,
            GrainEffect::StrongLarge => "Strong, Large"@,
        }
    }

    /// Distinct values have distinct codes, so decoding a value's code gives
    /// the value back.
    pub proof fn lemma_code_injective(a: Self, b: Self)
        ensures
            a.spec_code() == b.spec_code() ==> a == b,
    {
    }

    /// The code that the camera uses for this value.
    pub fn code(&self) -> (c: i32)
        ensures
            c == self.spec_code(),
    {
        match self {
            GrainEffect::Off => 1,
            GrainEffect::WeakSmall => 2,
            GrainEffect::StrongSmall => 3,
            GrainEffect::WeakLarge => 4,
            GrainEffect::StrongLarge => 5,
        }
    }

    /// The value with camera code `code`, if there is one.
    pub fn from_code(code: i32) -> (res: Option<Self>)
        ensures
            match res {
                Some(v) => v.spec_code() == code,
                None => forall|v: Self| v.spec_code() != code,
            },
    {
        match code {
            1 => Some(GrainEffect::Off),
            2 => Some(GrainEffect::WeakSmall),
            3 => Some(GrainEffect::StrongSmall),
            4 => Some(GrainEffect::WeakLarge),
            5 => Some(GrainEffect::StrongLarge),
            _ => None,
        }
    }

    /// The text shown for this value.
    pub fn display(&self) -> (s: String)
        ensures
            s@ == self.spec_display(),
    {
        match self {
            GrainEffect::Off => "Off".to_owned(),
            GrainEffect::WeakSmall => "Weak, Small".to_owned(),
            GrainEffect::StrongSmall => "Strong, Small".to_owned(),
            GrainEffect::WeakLarge => "Weak, Large".to_owned(),
            GrainEffect::StrongLarge => "Strong, Large".to_owned(),
        }
    }
}

/// Color Chrome Effect levels.
#[derive(Debug, Clone, Copy, PartialEq, Eq, Structural)]
pub enum ColorChromeEffect {
    Off,
    Weak,
    Strong,
}

impl ColorChromeEffect {
    /// The code that the camera uses for this value.
    pub open spec fn spec_code(self) -> i32 {
        match self {
            ColorChromeEffect::Off => 1,
            ColorChromeEffect::Weak => 2,
            ColorChromeEffect::Strong => 3,
        }
    }

    /// The text shown for this value.
    pub open spec fn spec_display(self) -> Seq<char> {
        match self {
            ColorChromeEffect::Off => "Off"@,
            ColorChromeEffect::Weak => "Weak"@,
            ColorChromeEffect::Strong => "Strong"@,
        }
    }

    /// Distinct values have distinct codes, so decoding a value's code gives
    /// the value back.
    pub proof fn lemma_code_injective(a: Self, b: Self)
        ensures
            a.spec_code() == b.spec_code() ==> a == b,
    {
    }

    /// The code that the camera uses for this value.
    pub fn code(&self) -> (c: i32)
        ensures
            c == self.spec_code(),
    {
        match self {
            ColorChromeEffect::Off => 1,
            ColorChromeEffect::Weak => 2,
            ColorChromeEffect::Strong => 3,
        }
    }

    /// The value with camera code `code`, if there is one.
    pub fn from_code(code: i32) -> (res: Option<Self>)
        ensures
            match res {
                Some(v) => v.spec_code() == code,
                None => forall|v: Self| v.spec_code() != code,
            },
    {
        match code {
            1 => Some(ColorChromeEffect::Off),
            2 => Some(ColorChromeEffect::Weak),
            3 => Some(ColorChromeEffect::Strong),
            _ => None,
        }
    }

    /// The text shown for this value.
    pub fn display(&self) -> (s: String)
        ensures
            s@ == self.spec_display(),
    {
        match self {
            ColorChromeEffect::Off => "Off".to_owned(),
            ColorChromeEffect::Weak => "Weak".to_owned(),
            ColorChromeEffect::Strong => "Strong".to_owned(),
        }
    }
}

/// D-Range Priority modes.
#[derive(Debug, Clone, Copy, PartialEq, Eq, Structural)]
pub enum DynamicRangePriority {
    Off,
    Auto,
    Weak,
    Strong,
}

impl DynamicRangePriority {
    /// The code that the camera uses for this value.
    pub open spec fn spec_code(self) -> i32 {
        match self {
            DynamicRangePriority::Off => 0,
            DynamicRangePriority::Auto => 1,
            DynamicRangePriority::Weak => 2,
            DynamicRangePriority::Strong => 3,
        }
    }

    /// The text shown for this value.
    pub open spec fn spec_display(self) -> Seq<char> {
        match self {
            DynamicRangePriority::Off => "Off"@,
            DynamicRangePriority::Auto => "Auto"@,
            DynamicRangePriority::Weak => "Weak"@,
            DynamicRangePriority::Strong => "Strong"@,
        }
    }

    /// Distinct values have distinct codes, so decoding a value's code gives
    /// the value back.
    pub proof fn lemma_code_injective(a: Self, b: Self)
        ensures
            a.spec_code() == b.spec_code() ==> a == b,
    {
    }

    /// The code that the camera uses for this value.
    pub fn code(&self) -> (c: i32)
        ensures
            c == self.spec_code(),
    {
        match self {
            DynamicRangePriority::Off => 0,
            DynamicRangePriority::Auto => 1,
            DynamicRangePriority::Weak => 2,
            DynamicRangePriority::Strong => 3,
        }
    }

    /// The value with camera code `code`, if there is one.
    pub fn from_code(code: i32) -> (res: Option<Self>)
        ensures
            match res {
                Some(v) => v.spec_code() == code,
                None => forall|v: Self| v.spec_code() != code,
            },
    {
        match code {
            0 => Some(DynamicRangePriority::Off),
            1 => Some(DynamicRangePriority::Auto),
            2 => Some(DynamicRangePriority::Weak),
            3 => Some(DynamicRangePriority::Strong),
            _ => None,
        }
    }

    /// The text shown for this value.
    pub fn display(&self) -> (s: String)
        ensures
            s@ == self.spec_display(),
    {
        match self {
            DynamicRangePriority::Off => "Off".to_owned(),
            DynamicRangePriority::Auto => "Auto".to_owned(),
            DynamicRangePriority::Weak => "Weak".to_owned(),
            DynamicRangePriority::Strong => "Strong".to_owned(),
        }
    }
}

/// Dynamic range modes.
#[derive(Debug, Clone, Copy, PartialEq, Eq, PartialOrd, Ord, Structural)]
pub enum DynamicRange {
    DR100,
    DR200,
    DR400,
}

impl DynamicRange {
    /// The text shown for this value.
    pub open spec fn spec_display(self) -> Seq<char> {
        match self {
            DynamicRange::DR100 => "DR100"@,
            DynamicRange::DR200 => "DR200"@,
            DynamicRange::DR400 => "DR400"@,
        }
    }

    /// The text shown for this value.
    pub fn display(&self) -> (s: String)
        ensures
            s@ == self.spec_display(),
    {
        match self {
            DynamicRange::DR100 => "DR100".to_owned(),
            DynamicRange::DR200 => "DR200".to_owned(),
            DynamicRange::DR400 => "DR400".to_owned(),
        }
    }
}

/// White balance modes.
#[derive(Debug, Clone, Copy, PartialEq, Eq, Structural)]
pub enum WhiteBalance {
    Auto,
    Daylight,
    Incandescent,
    Underwater,
    Fluorescent1,
    Fluorescent2,
    Fluorescent3,
    Shade,
    /// A color temperature in kelvin.
    Temperature(u32),
}

impl WhiteBalance {
    /// The text shown for this value; a temperature shows as its kelvin value
    /// followed by `K`.
    pub open spec fn spec_display(self) -> Seq<char> {
        match self {
            WhiteBalance::Auto => "Auto"@,
            WhiteBalance::Daylight => "Daylight"@,
            WhiteBalance::Incandescent => "Incandescent"@,
            WhiteBalance::Underwater => "Underwater"@,
            WhiteBalance::Fluorescent1 => "Fluorescent 1"@,
            WhiteBalance::Fluorescent2 => "Fluorescent 2"@,
            WhiteBalance::Fluorescent3 => "Fluorescent 3"@,
            WhiteBalance::Shade => "Shade"@,
            WhiteBalance::Temperature(k) => decimal(k as nat) + "K"@,
        }
    }

    /// The text shown for this value.
    pub fn display(&self) -> (s: String)
        ensures
            s@ == self.spec_display(),
    {
        match self {
            WhiteBalance::Auto => "Auto".to_owned(),
            WhiteBalance::Daylight => "Daylight".to_owned(),
            WhiteBalance::Incandescent => "Incandescent".to_owned(),
            WhiteBalance::Underwater => "Underwater".to_owned(),
            WhiteBalance::Fluorescent1 => "Fluorescent 1".to_owned(),
            WhiteBalance::Fluorescent2 => "Fluorescent 2".to_owned(),
            WhiteBalance::Fluorescent3 => "Fluorescent 3".to_owned(),
            WhiteBalance::Shade => "Shade".to_owned(),
            WhiteBalance::Temperature(k) => {
                let mut s = String::new();
                push_decimal(&mut s, *k as u64);
                s.append("K");
                s
            },
        }
    }
}

/// RAW -> JPEG conversion recipe, with every setting as the camera codes it.
///
/// Exposure is in thousandths of a stop; highlight, shadow, color and
/// sharpness are in tenths.
#[derive(Debug, Clone, PartialEq, Eq)]
pub struct Recipe {
    pub name: String,
    pub film: FilmSimulation,
    pub grain: GrainEffect,
    pub color_chrome: ColorChromeEffect,
    pub color_chrome_blue: ColorChromeEffect,
    pub white_balance: WhiteBalance,
    pub white_balance_red: i32,
    pub white_balance_blue: i32,
    pub dynamic_range: DynamicRange,
    pub dynamic_range_priority: DynamicRangePriority,
    /// Exposure compensation, in thousandths of a stop.
    pub exposure: i32,
    /// Highlight tone, in tenths.
    pub highlight: i32,
    /// Shadow tone, in tenths.
    pub shadow: i32,
    /// Color, in tenths.
    pub color: i32,
    /// Sharpness, in tenths.
    pub sharpness: i32,
    pub clarity: i32,
    pub high_iso_nr: i32,
}


/// The camera's code of each film simulation is its number in the camera's
/// table, Provia 1 through Reala Ace 20, and each shows under its name.
pub proof fn lemma_film_simulation_table()
    ensures
        FilmSimulation::Provia.spec_code() == 1,
        FilmSimulation::Velvia.spec_code() == 2,
        FilmSimulation::Astia.spec_code() == 3,
        FilmSimulation::ProNegHi.spec_code() == 4,
        FilmSimulation::ProNegStd.spec_code() == 5,
        FilmSimulation::Monochrome.spec_code() == 6,
        FilmSimulation::MonochromeY.spec_code() == 7,
        FilmSimulation::MonochromeR.spec_code() == 8,
        FilmSimulation::MonochromeG.spec_code() == 9,
        FilmSimulation::Sepia.spec_code() == 10,
        FilmSimulation::ClassicChrome.spec_code() == 11,
        FilmSimulation::Acros.spec_code() == 12,
        FilmSimulation::AcrosY.spec_code() == 13,
        FilmSimulation::AcrosR.spec_code() == 14,
        FilmSimulation::AcrosG.spec_code() == 15,
        FilmSimulation::Eterna.spec_code() == 16,
        FilmSimulation::ClassicNeg.spec_code() == 17,
        FilmSimulation::BleachBypass.spec_code() == 18,
        FilmSimulation::NostalgicNeg.spec_code() == 19,
        FilmSimulation::RealaAce.spec_code() == 20,
        FilmSimulation::Provia.spec_display() == "Provia"@,
        FilmSimulation::Velvia.spec_display() == "Velvia"@,
        FilmSimulation::Astia.spec_display() == "Astia"@,
        FilmSimulation::ProNegHi.spec_display() == "Pro Neg Hi"@,
        FilmSimulation::ProNegStd.spec_display() == "Pro Neg Std"@,
        FilmSimulation::Monochrome.spec_display() == "Monochrome"@,
        FilmSimulation::MonochromeY.spec_display() == "Monochrome+Y"@,
        FilmSimulation::MonochromeR.spec_display() == "Monochrome+R"@,
        FilmSimulation::MonochromeG.spec_display() == "Monochrome+G"@,
        FilmSimulation::Sepia.spec_display() == "Sepia"@,
        FilmSimulation::ClassicChrome.spec_display() == "Classic Chrome"@,
        FilmSimulation::Acros.spec_display() == "Acros"@,
        FilmSimulation::AcrosY.spec_display() == "Acros+Y"@,
        FilmSimulation::AcrosR.spec_display() == "Acros+R"@,
        FilmSimulation::AcrosG.spec_display() == "Acros+G"@,
        FilmSimulation::Eterna.spec_display() == "Eterna"@,
        FilmSimulation::ClassicNeg.spec_display() == "Classic Neg"@,
        FilmSimulation::BleachBypass.spec_display() == "Bleach Bypass"@,
        FilmSimulation::NostalgicNeg.spec_display() == "Nostalgic Neg"@,
        FilmSimulation::RealaAce.spec_display() == "Reala Ace"@,
{
}

/// The camera's code of each grain effect, Off 1 through Strong, Large 5,
/// and the name each shows under.
pub proof fn lemma_grain_effect_table()
    ensures
        GrainEffect::Off.spec_code() == 1,
        GrainEffect::WeakSmall.spec_code() == 2,
        GrainEffect::StrongSmall.spec_code() == 3,
        GrainEffect::WeakLarge.spec_code() == 4,
        GrainEffect::StrongLarge.spec_code() == 5,
        GrainEffect::Off.spec_display() == "Off"@,
        GrainEffect::WeakSmall.spec_display() == "Weak, Small"@,
        GrainEffect::StrongSmall.spec_display() == "Strong, Small"@,
        GrainEffect::WeakLarge.spec_display() == "Weak, Large"@,
        GrainEffect::StrongLarge.spec_display() == "Strong, Large"@,
{
}

/// The camera's code of each color chrome level, Off 1, Weak 2, Strong 3,
/// and the name each shows under.
pub proof fn lemma_color_chrome_table()
    ensures
        ColorChromeEffect::Off.spec_code() == 1,
        ColorChromeEffect::Weak.spec_code() == 2,
        ColorChromeEffect::Strong.spec_code() == 3,
        ColorChromeEffect::Off.spec_display() == "Off"@,
        ColorChromeEffect::Weak.spec_display() == "Weak"@,
        ColorChromeEffect::Strong.spec_display() == "Strong"@,
{
}

/// The camera's code of each dynamic range priority, Off 0 through Strong 3,
/// and the name each shows under.
pub proof fn lemma_dynamic_range_priority_table()
    ensures
        DynamicRangePriority::Off.spec_code() == 0,
        DynamicRangePriority::Auto.spec_code() == 1,
        DynamicRangePriority::Weak.spec_code() == 2,
        DynamicRangePriority::Strong.spec_code() == 3,
        DynamicRangePriority::Off.spec_display() == "Off"@,
        DynamicRangePriority::Auto.spec_display() == "Auto"@,
        DynamicRangePriority::Weak.spec_display() == "Weak"@,
        DynamicRangePriority::Strong.spec_display() == "Strong"@,
{
}

/// The name each dynamic range and white balance shows under; a color
/// temperature shows as its kelvin value followed by `K`.
pub proof fn lemma_display_names(k: u32)
    ensures
        DynamicRange::DR100.spec_display() == "DR100"@,
        DynamicRange::DR200.spec_display() == "DR200"@,
        DynamicRange::DR400.spec_display() == "DR400"@,
        WhiteBalance::Auto.spec_display() == "Auto"@,
        WhiteBalance::Daylight.spec_display() == "Daylight"@,
        WhiteBalance::Incandescent.spec_display() == "Incandescent"@,
        WhiteBalance::Underwater.spec_display() == "Underwater"@,
        WhiteBalance::Fluorescent1.spec_display() == "Fluorescent 1"@,
        WhiteBalance::Fluorescent2.spec_display() == "Fluorescent 2"@,
        WhiteBalance::Fluorescent3.spec_display() == "Fluorescent 3"@,
        WhiteBalance::Shade.spec_display() == "Shade"@,
        WhiteBalance::Temperature(k).spec_display() == decimal(k as nat) + seq!['K'],
{
    reveal_strlit("K");
}

} // verus!
