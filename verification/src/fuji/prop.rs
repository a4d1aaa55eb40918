//! Fujifilm vendor PTP codes: device properties, object formats and
//! operations.

use vstd::prelude::*;

verus! {

/// Format code used when uploading RAF files for conversion.
pub const FORMAT_FUJI_UPLOAD: u16 = 0xF802;

/// Fuji vendor operation: send the ObjectInfo of an upload.
pub const FUJI_OC_SEND_OBJECT_INFO: u16 = 0x900C;

/// Fuji vendor operation: send the object of an upload.
pub const FUJI_OC_SEND_OBJECT: u16 = 0x900D;

/// RAW conversion profile.
pub const RAW_CONVERSION_PROFILE: u16 = 0xD185;

/// Write to trigger RAW conversion. Value = quality: 0 = preview (half-res), 1 = full-res.
pub const START_RAW_CONVERSION: u16 = 0xD183;

/// Preset slot selector (write slot number to select, then read D18D–D1A5).
pub const PRESET_SLOT: u16 = 0xD18C;

/// Preset name (PTP string).
pub const PRESET_NAME: u16 = 0xD18D;

/// Preset dynamic range.
pub const PRESET_DYNAMIC_RANGE: u16 = 0xD190;

/// Preset film simulation.
pub const PRESET_FILM_SIMULATION: u16 = 0xD192;

/// Preset grain effect.
pub const PRESET_GRAIN_EFFECT: u16 = 0xD195;

/// Preset color chrome.
pub const PRESET_COLOR_CHROME: u16 = 0xD196;

/// Preset color chrome blue.
pub const PRESET_COLOR_CHROME_BLUE: u16 = 0xD197;

/// Preset white balance.
pub const PRESET_WHITE_BALANCE: u16 = 0xD199;

/// Preset white balance red shift.
pub const PRESET_WB_SHIFT_R: u16 = 0xD19A;

/// Preset white balance blue shift.
pub const PRESET_WB_SHIFT_B: u16 = 0xD19B;

/// Preset white balance color temperature.
pub const PRESET_WB_COLOR_TEMP: u16 = 0xD19C;

/// Preset highlight tone.
pub const PRESET_HIGHLIGHT_TONE: u16 = 0xD19D;

/// Preset shadow tone.
pub const PRESET_SHADOW_TONE: u16 = 0xD19E;

/// Preset color shift.
pub const PRESET_COLOR: u16 = 0xD19F;

/// Preset sharpness shift.
pub const PRESET_SHARPNESS: u16 = 0xD1A0;

/// Preset high ISO noise reduction.
pub const PRESET_HIGH_ISO_NR: u16 = 0xD1A1;

/// Preset clarity.
pub const PRESET_CLARITY: u16 = 0xD1A2;

} // verus!
