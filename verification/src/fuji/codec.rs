//! The camera's codes for recipe settings, and the parameter table of a
//! RAW conversion profile.

use vstd::prelude::*;

use crate::error::Error;
use crate::ptp::dataset::{le_u16, le_u32, lemma_u32_roundtrip, u32_le_bytes};
use super::recipe::{DynamicRange, Recipe, WhiteBalance};

verus! {

/// Parameter indices within the binary conversion profile.
pub const PARAM_EXPOSURE_BIAS: usize = 4;
pub const PARAM_DYNAMIC_RANGE: usize = 6;
pub const PARAM_DYNAMIC_RANGE_PRIORITY: usize = 7;
pub const PARAM_FILM_SIMULATION: usize = 8;
pub const PARAM_GRAIN_EFFECT: usize = 9;
pub const PARAM_COLOR_CHROME: usize = 10;
pub const PARAM_WB_SHOOT_COND: usize = 11;
pub const PARAM_WHITE_BALANCE: usize = 12;
pub const PARAM_WB_SHIFT_R: usize = 13;
pub const PARAM_WB_SHIFT_B: usize = 14;
pub const PARAM_WB_COLOR_TEMP: usize = 15;
pub const PARAM_HIGHLIGHT_TONE: usize = 16;
pub const PARAM_SHADOW_TONE: usize = 17;
pub const PARAM_COLOR: usize = 18;
pub const PARAM_SHARPNESS: usize = 19;
pub const PARAM_NOISE_REDUCTION: usize = 20;
pub const PARAM_COLOR_CHROME_BLUE: usize = 25;
pub const PARAM_CLARITY: usize = 27;

/// Noise reduction: the camera's code (a `u16` bit pattern) for each setting
/// from -4 to +4; any other code reads as 0.
pub open spec fn spec_nr_decode(raw: i32) -> i32 {
    match raw {
        0x8000 => -4i32,
        0x7000 => -3i32,
        0x4000 => -2i32,
        0x3000 => -1i32,
        0x2000 => 0i32,
        0x1000 => 1,
        0x0000 => 2,
        0x6000 => 3,
        0x5000 => 4,
        _ => 0,
    }
}

/// Noise reduction: the code for a setting from -4 to +4; any other setting
/// is coded as 0 is.
pub open spec fn spec_nr_encode(ui: i32) -> i32 {
    match ui {
        -4 => 0x8000,
        -3 => 0x7000,
        -2 => 0x4000,
        -1 => 0x3000,
        1 => 0x1000,
        2 => 0x0000,
        3 => 0x6000,
        4 => 0x5000,
        _ => 0x2000,
    }
}

/// Noise reduction: camera code to setting.
pub fn nr_decode(raw: i32) -> (ui: i32)
    ensures
        ui == spec_nr_decode(raw),
{
    match raw {
        0x8000 => -4,
        0x7000 => -3,
        0x4000 => -2,
        0x3000 => -1,
        0x2000 => 0,
        0x1000 => 1,
        0x0000 => 2,
        0x6000 => 3,
        0x5000 => 4,
        _ => 0,
    }
}

/// Noise reduction: setting to camera code.
pub fn nr_encode(ui: i32) -> (raw: i32)
    ensures
        raw == spec_nr_encode(ui),
{
    match ui {
        -4 => 0x8000,
        -3 => 0x7000,
        -2 => 0x4000,
        -1 => 0x3000,
        1 => 0x1000,
        2 => 0x0000,
        3 => 0x6000,
        4 => 0x5000,
        _ => 0x2000,
    }
}

/// White balance: the camera's mode code, and the color temperature to write
/// with it (only for a temperature).
pub open spec fn spec_wb_encode(wb: WhiteBalance) -> (i32, Option<i32>) {
    match wb {
        WhiteBalance::Auto => (0x0002, None),
        WhiteBalance::Daylight => (0x0004, None),
        WhiteBalance::Incandescent => (0x0006, None),
        WhiteBalance::Underwater => (0x0008, None),
        WhiteBalance::Fluorescent1 => (0x8001, None),
        WhiteBalance::Fluorescent2 => (0x8002, None),
        WhiteBalance::Fluorescent3 => (0x8003, None),
        WhiteBalance::Shade => (0x8006, None),
        WhiteBalance::Temperature(k) => (0x8007, Some(k as i32)),
    }
}

/// White balance from the camera's mode code and color temperature; mode 0
/// reads as auto.
pub open spec fn spec_wb_decode(mode: i32, temp: i32) -> Result<WhiteBalance, Error> {
    match mode {
        0 | 0x0002 => Ok(WhiteBalance::Auto),
        0x0004 => Ok(WhiteBalance::Daylight),
        0x0006 => Ok(WhiteBalance::Incandescent),
        0x0008 => Ok(WhiteBalance::Underwater),
        0x8001 => Ok(WhiteBalance::Fluorescent1),
        0x8002 => Ok(WhiteBalance::Fluorescent2),
        0x8003 => Ok(WhiteBalance::Fluorescent3),
        0x8006 => Ok(WhiteBalance::Shade),
        0x8007 => Ok(WhiteBalance::Temperature(temp as u32)),
        _ => Err(Error::UnknownWhiteBalance(mode)),
    }
}

/// White balance to the camera's mode code and color temperature.
pub fn wb_encode(wb: &WhiteBalance) -> (res: (i32, Option<i32>))
    ensures
        res == spec_wb_encode(*wb),
{
    match wb {
        WhiteBalance::Auto => (0x0002, None),
        WhiteBalance::Daylight => (0x0004, None),
        WhiteBalance::Incandescent => (0x0006, None),
        WhiteBalance::Underwater => (0x0008, None),
        WhiteBalance::Fluorescent1 => (0x8001, None),
        WhiteBalance::Fluorescent2 => (0x8002, None),
        WhiteBalance::Fluorescent3 => (0x8003, None),
        WhiteBalance::Shade => (0x8006, None),
        WhiteBalance::Temperature(k) => (0x8007, Some(*k as i32)),
    }
}

/// White balance from the camera's mode code and color temperature.
pub fn wb_decode(mode: i32, temp: i32) -> (res: Result<WhiteBalance, Error>)
    ensures
        res == spec_wb_decode(mode, temp),
{
    match mode {
        0 | 0x0002 => Ok(WhiteBalance::Auto),
        0x0004 => Ok(WhiteBalance::Daylight),
        0x0006 => Ok(WhiteBalance::Incandescent),
        0x0008 => Ok(WhiteBalance::Underwater),
        0x8001 => Ok(WhiteBalance::Fluorescent1),
        0x8002 => Ok(WhiteBalance::Fluorescent2),
        0x8003 => Ok(WhiteBalance::Fluorescent3),
        0x8006 => Ok(WhiteBalance::Shade),
        0x8007 => Ok(WhiteBalance::Temperature(temp as u32)),
        _ => Err(Error::UnknownWhiteBalance(mode)),
    }
}

/// Dynamic range: the camera's code is the percentage.
pub open spec fn spec_dr_encode(dr: DynamicRange) -> i32 {
    match dr {
        DynamicRange::DR100 => 100,
        DynamicRange::DR200 => 200,
        DynamicRange::DR400 => 400,
    }
}

/// Dynamic range from the camera's code; an unknown code reads as DR100.
pub open spec fn spec_dr_decode(raw: i32) -> DynamicRange {
    match raw {
        200 => DynamicRange::DR200,
        400 => DynamicRange::DR400,
        _ => DynamicRange::DR100,
    }
}

/// Dynamic range to the camera's code.
pub fn dr_encode(dr: &DynamicRange) -> (raw: i32)
    ensures
        raw == spec_dr_encode(*dr),
{
    match dr {
        DynamicRange::DR100 => 100,
        DynamicRange::DR200 => 200,
        DynamicRange::DR400 => 400,
    }
}

/// Dynamic range from the camera's code.
pub fn dr_decode(raw: i32) -> (dr: DynamicRange)
    ensures
        dr == spec_dr_decode(raw),
{
    match raw {
        200 => DynamicRange::DR200,
        400 => DynamicRange::DR400,
        _ => DynamicRange::DR100,
    }
}

/// Decoding a noise-reduction code undoes encoding for the settings -4 to +4;
/// any other setting comes back as 0.
pub proof fn lemma_nr_roundtrip(ui: i32)
    ensures
        spec_nr_decode(spec_nr_encode(ui)) == (if -4 <= ui <= 4 {
            ui
        } else {
            0
        }),
{
}

/// Encoding a decoded noise-reduction code gives the code back exactly when
/// it is one of the nine codes; any other code comes back as the code of 0.
pub proof fn lemma_nr_code_roundtrip(raw: i32)
    ensures
        spec_nr_encode(spec_nr_decode(raw)) == (if raw == 0x8000 || raw == 0x7000 || raw
            == 0x4000 || raw == 0x3000 || raw == 0x2000 || raw == 0x1000 || raw == 0 || raw
            == 0x6000 || raw == 0x5000 {
            raw
        } else {
            0x2000
        }),
{
}

/// Decoding what `wb_encode` gives (with the temperature it gives, or any
/// temperature when it gives none) returns the same white balance.
pub proof fn lemma_wb_roundtrip(wb: WhiteBalance, other_temp: i32)
    ensures
        spec_wb_decode(
            spec_wb_encode(wb).0,
            match spec_wb_encode(wb).1 {
                Some(t) => t,
                None => other_temp,
            },
        ) == Ok::<WhiteBalance, Error>(wb),
{
    if let WhiteBalance::Temperature(k) = wb {
        assert((k as i32) as u32 == k) by (bit_vector);
    }
}

/// Decoding an encoded dynamic range returns it.
pub proof fn lemma_dr_roundtrip(dr: DynamicRange)
    ensures
        spec_dr_decode(spec_dr_encode(dr)) == dr,
{
}

/// The number of parameters in a conversion profile: the `u16` at its start.
pub open spec fn param_count(b: Seq<u8>) -> int {
    le_u16(b, 0) as int
}

/// The parameters fill the end of the profile, four bytes each; this is
/// where parameter `index` starts.
pub open spec fn param_offset(b: Seq<u8>, index: int) -> int {
    b.len() - 4 * param_count(b) + 4 * index
}

/// The profile holds its parameter count, the parameter table fits in it,
/// and `index` is one of its parameters.
pub open spec fn has_param(b: Seq<u8>, index: int) -> bool {
    &&& b.len() >= 2
    &&& 4 * param_count(b) <= b.len()
    &&& 0 <= index < param_count(b)
}

/// The `i32` stored little-endian at `b[i]` .. `b[i + 3]`.
pub open spec fn le_i32(b: Seq<u8>, i: int) -> i32 {
    le_u32(b, i) as i32
}

/// The four little-endian bytes of `v`.
pub open spec fn i32_le_bytes(v: i32) -> Seq<u8> {
    u32_le_bytes(v as u32)
}

/// Parameter `index` of a profile.
pub open spec fn spec_get_param(b: Seq<u8>, index: int) -> i32 {
    le_i32(b, param_offset(b, index))
}

/// A profile with parameter `index` replaced by `value`.
pub open spec fn spec_set_param(b: Seq<u8>, index: int, value: i32) -> Seq<u8> {
    let off = param_offset(b, index);
    b.take(off) + i32_le_bytes(value) + b.skip(off + 4)
}

/// Read parameter `index` of a conversion profile.
pub fn get_param(data: &[u8], index: usize) -> (v: i32)
    requires
        has_param(data@, index as int),
    ensures
        v == spec_get_param(data@, index as int),
{
    let num_params = data[0] as usize + 256 * (data[1] as usize);
    let off = data.len() - num_params * 4 + index * 4;
    let u = data[off] as u32 + 256 * (data[off + 1] as u32) + 65536 * (data[off + 2] as u32)
        + 16777216 * (data[off + 3] as u32);
    u as i32
}

/// Replace parameter `index` of a conversion profile with `value`.
pub fn set_param(data: &mut [u8], index: usize, value: i32)
    requires
        has_param(old(data)@, index as int),
    ensures
        final(data)@ == spec_set_param(old(data)@, index as int, value),
{
    let num_params = data[0] as usize + 256 * (data[1] as usize);
    let off = data.len() - num_params * 4 + index * 4;
    let u = value as u32;
    data[off] = (u % 256) as u8;
    data[off + 1] = ((u / 256) % 256) as u8;
    data[off + 2] = ((u / 65536) % 256) as u8;
    data[off + 3] = (u / 16777216) as u8;
}

/// Setting a parameter keeps the profile's length and parameter count, and
/// reading that parameter back gives the value set, when the parameter lies
/// after the two-byte count.
pub proof fn lemma_get_set_same(b: Seq<u8>, index: int, value: i32)
    requires
        has_param(b, index),
        param_offset(b, index) >= 2,
    ensures
        spec_set_param(b, index, value).len() == b.len(),
        param_count(spec_set_param(b, index, value)) == param_count(b),
        spec_get_param(spec_set_param(b, index, value), index) == value,
{
    let s = spec_set_param(b, index, value);
    let off = param_offset(b, index);
    assert(s[0] == b[0] && s[1] == b[1]);
    assert(s.subrange(off, off + 4) == i32_le_bytes(value));
    lemma_u32_roundtrip(s, off, value as u32);
    assert((value as u32) as i32 == value) by (bit_vector);
}

/// Setting one parameter leaves every other parameter as it was, when the
/// parameter set lies after the two-byte count.
pub proof fn lemma_get_set_other(b: Seq<u8>, index: int, other: int, value: i32)
    requires
        has_param(b, index),
        has_param(b, other),
        index != other,
        param_offset(b, index) >= 2,
    ensures
        spec_get_param(spec_set_param(b, index, value), other) == spec_get_param(b, other),
{
    let s = spec_set_param(b, index, value);
    let off = param_offset(b, other);
    assert(s[0] == b[0] && s[1] == b[1]);
    assert(s.subrange(off, off + 4) == b.subrange(off, off + 4));
    assert(s[off] == b[off] && s[off + 1] == b[off + 1] && s[off + 2] == b[off + 2] && s[off
        + 3] == b[off + 3]) by {
        assert(s[off] == s.subrange(off, off + 4)[0]);
        assert(s[off + 1] == s.subrange(off, off + 4)[1]);
        assert(s[off + 2] == s.subrange(off, off + 4)[2]);
        assert(s[off + 3] == s.subrange(off, off + 4)[3]);
    }
}

/// Setting a parameter other than the first keeps the profile's length and
/// parameter count.
pub proof fn lemma_set_keeps_table(b: Seq<u8>, index: int, value: i32)
    requires
        has_param(b, index),
        index >= 1,
    ensures
        spec_set_param(b, index, value).len() == b.len(),
        param_count(spec_set_param(b, index, value)) == param_count(b),
{
    let s = spec_set_param(b, index, value);
    assert(s[0] == b[0] && s[1] == b[1]);
}

/// A profile with each `(index, value)` of `writes` set in turn.
#[verifier::opaque]
pub open spec fn spec_set_params(b: Seq<u8>, writes: Seq<(int, i32)>) -> Seq<u8>
    decreases writes.len(),
{
    if writes.len() == 0 {
        b
    } else {
        spec_set_param(spec_set_params(b, writes.drop_last()), writes.last().0, writes.last().1)
    }
}

/// The profile has a parameter count, its table fits, and it holds every
/// parameter that a recipe sets (indices up to 27).
pub open spec fn fits_recipe(b: Seq<u8>) -> bool {
    &&& b.len() >= 2
    &&& 4 * param_count(b) <= b.len()
    &&& param_count(b) > PARAM_CLARITY
}

/// The parameters that a recipe sets in a conversion profile, in the order
/// they are written: film, grain, color chrome, color chrome blue, white
/// balance shooting condition (2, so that the recipe's white balance
/// applies), white balance mode, the color temperature (only for a
/// temperature), the red and blue shifts, dynamic range, its priority,
/// exposure, highlight, shadow, color, sharpness, noise reduction and
/// clarity (in tenths).
pub open spec fn recipe_params(r: Recipe) -> Seq<(int, i32)> {
    let wb = spec_wb_encode(r.white_balance);
    let head = Seq::<(int, i32)>::empty().push(
        (PARAM_FILM_SIMULATION as int, r.film.spec_code()),
    ).push((PARAM_GRAIN_EFFECT as int, r.grain.spec_code())).push(
        (PARAM_COLOR_CHROME as int, r.color_chrome.spec_code()),
    ).push((PARAM_COLOR_CHROME_BLUE as int, r.color_chrome_blue.spec_code())).push(
        (PARAM_WB_SHOOT_COND as int, 2i32),
    ).push((PARAM_WHITE_BALANCE as int, wb.0));
    let with_temp = match wb.1 {
        Some(t) => head.push((PARAM_WB_COLOR_TEMP as int, t)),
        None => head,
    };
    with_temp.push((PARAM_WB_SHIFT_R as int, r.white_balance_red)).push(
        (PARAM_WB_SHIFT_B as int, r.white_balance_blue),
    ).push((PARAM_DYNAMIC_RANGE as int, spec_dr_encode(r.dynamic_range))).push(
        (PARAM_DYNAMIC_RANGE_PRIORITY as int, r.dynamic_range_priority.spec_code()),
    ).push((PARAM_EXPOSURE_BIAS as int, r.exposure)).push(
        (PARAM_HIGHLIGHT_TONE as int, r.highlight),
    ).push((PARAM_SHADOW_TONE as int, r.shadow)).push((PARAM_COLOR as int, r.color)).push(
        (PARAM_SHARPNESS as int, r.sharpness),
    ).push((PARAM_NOISE_REDUCTION as int, spec_nr_encode(r.high_iso_nr))).push(
        (PARAM_CLARITY as int, (r.clarity * 10) as i32),
    )
}

/// Set one recipe parameter, keeping track of the parameters set so far.
fn set_recipe_param(
    data: &mut [u8],
    index: usize,
    value: i32,
    Ghost(orig): Ghost<Seq<u8>>,
    Ghost(done): Ghost<Seq<(int, i32)>>,
)
    requires
        fits_recipe(orig),
        old(data)@ == spec_set_params(orig, done),
        old(data)@.len() == orig.len(),
        param_count(old(data)@) == param_count(orig),
        1 <= index <= PARAM_CLARITY,
    ensures
        final(data)@ == spec_set_params(orig, done.push((index as int, value))),
        final(data)@.len() == orig.len(),
        param_count(final(data)@) == param_count(orig),
{
    proof {
        lemma_set_keeps_table(old(data)@, index as int, value);
        assert(done.push((index as int, value)).drop_last() == done);
        reveal(spec_set_params);
    }
    set_param(data, index, value);
}

/// Write a recipe's settings into a conversion profile.
pub fn encode_recipe(recipe: &Recipe, data: &mut [u8])
    requires
        fits_recipe(old(data)@),
        i32::MIN <= recipe.clarity * 10 <= i32::MAX,
    ensures
        final(data)@ == spec_set_params(old(data)@, recipe_params(*recipe)),
{
    let ghost orig = data@;
    let ghost mut done = Seq::<(int, i32)>::empty();
    assert(data@ == spec_set_params(orig, done)) by {
        reveal(spec_set_params);
    }
    set_recipe_param(data, PARAM_FILM_SIMULATION, recipe.film.code(), Ghost(orig), Ghost(done));
    proof { done = done.push((PARAM_FILM_SIMULATION as int, recipe.film.spec_code())); }
    set_recipe_param(data, PARAM_GRAIN_EFFECT, recipe.grain.code(), Ghost(orig), Ghost(done));
    proof { done = done.push((PARAM_GRAIN_EFFECT as int, recipe.grain.spec_code())); }
    set_recipe_param(
        data,
        PARAM_COLOR_CHROME,
        recipe.color_chrome.code(),
        Ghost(orig),
        Ghost(done),
    );
    proof { done = done.push((PARAM_COLOR_CHROME as int, recipe.color_chrome.spec_code())); }
    set_recipe_param(
        data,
        PARAM_COLOR_CHROME_BLUE,
        recipe.color_chrome_blue.code(),
        Ghost(orig),
        Ghost(done),
    );
    proof {
        done = done.push((PARAM_COLOR_CHROME_BLUE as int, recipe.color_chrome_blue.spec_code()));
    }
    set_recipe_param(data, PARAM_WB_SHOOT_COND, 2, Ghost(orig), Ghost(done));  // Override WB
    proof { done = done.push((PARAM_WB_SHOOT_COND as int, 2i32)); }
    let (wb_mode, wb_temp) = wb_encode(&recipe.white_balance);
    set_recipe_param(data, PARAM_WHITE_BALANCE, wb_mode, Ghost(orig), Ghost(done));
    proof { done = done.push((PARAM_WHITE_BALANCE as int, wb_mode)); }
    if let Some(t) = wb_temp {
        set_recipe_param(data, PARAM_WB_COLOR_TEMP, t, Ghost(orig), Ghost(done));
        proof { done = done.push((PARAM_WB_COLOR_TEMP as int, t)); }
    }
    set_recipe_param(
        data,
        PARAM_WB_SHIFT_R,
        recipe.white_balance_red,
        Ghost(orig),
        Ghost(done),
    );
    proof { done = done.push((PARAM_WB_SHIFT_R as int, recipe.white_balance_red)); }
    set_recipe_param(
        data,
        PARAM_WB_SHIFT_B,
        recipe.white_balance_blue,
        Ghost(orig),
        Ghost(done),
    );
    proof { done = done.push((PARAM_WB_SHIFT_B as int, recipe.white_balance_blue)); }
    set_recipe_param(
        data,
        PARAM_DYNAMIC_RANGE,
        dr_encode(&recipe.dynamic_range),
        Ghost(orig),
        Ghost(done),
    );
    proof {
        done = done.push((PARAM_DYNAMIC_RANGE as int, spec_dr_encode(recipe.dynamic_range)));
    }
    set_recipe_param(
        data,
        PARAM_DYNAMIC_RANGE_PRIORITY,
        recipe.dynamic_range_priority.code(),
        Ghost(orig),
        Ghost(done),
    );
    proof {
        done = done.push(
            (PARAM_DYNAMIC_RANGE_PRIORITY as int, recipe.dynamic_range_priority.spec_code()),
        );
    }
    set_recipe_param(data, PARAM_EXPOSURE_BIAS, recipe.exposure, Ghost(orig), Ghost(done));
    proof { done = done.push((PARAM_EXPOSURE_BIAS as int, recipe.exposure)); }
    set_recipe_param(data, PARAM_HIGHLIGHT_TONE, recipe.highlight, Ghost(orig), Ghost(done));
    proof { done = done.push((PARAM_HIGHLIGHT_TONE as int, recipe.highlight)); }
    set_recipe_param(data, PARAM_SHADOW_TONE, recipe.shadow, Ghost(orig), Ghost(done));
    proof { done = done.push((PARAM_SHADOW_TONE as int, recipe.shadow)); }
    set_recipe_param(data, PARAM_COLOR, recipe.color, Ghost(orig), Ghost(done));
    proof { done = done.push((PARAM_COLOR as int, recipe.color)); }
    set_recipe_param(data, PARAM_SHARPNESS, recipe.sharpness, Ghost(orig), Ghost(done));
    proof { done = done.push((PARAM_SHARPNESS as int, recipe.sharpness)); }
    set_recipe_param(
        data,
        PARAM_NOISE_REDUCTION,
        nr_encode(recipe.high_iso_nr),
        Ghost(orig),
        Ghost(done),
    );
    proof { done = done.push((PARAM_NOISE_REDUCTION as int, spec_nr_encode(recipe.high_iso_nr))); }
    set_recipe_param(data, PARAM_CLARITY, recipe.clarity * 10, Ghost(orig), Ghost(done));
    proof {
        done = done.push((PARAM_CLARITY as int, (recipe.clarity * 10) as i32));
        assert(done == recipe_params(*recipe));
    }
}

/// The value of the last write to parameter `index` in `writes`, or `dflt`
/// when none writes it.
pub open spec fn last_write(writes: Seq<(int, i32)>, index: int, dflt: i32) -> i32
    decreases writes.len(),
{
    if writes.len() == 0 {
        dflt
    } else if writes.last().0 == index {
        writes.last().1
    } else {
        last_write(writes.drop_last(), index, dflt)
    }
}

/// After a sequence of parameter writes, each parameter holds the value last
/// written to it, or its old value when none was, when every parameter
/// written lies after the two-byte count.
pub proof fn lemma_set_params_get(b: Seq<u8>, writes: Seq<(int, i32)>, index: int)
    requires
        b.len() >= 2,
        4 * param_count(b) <= b.len(),
        0 <= index < param_count(b),
        forall|k: int|
            0 <= k < writes.len() ==> 0 <= #[trigger] writes[k].0 < param_count(b) && param_offset(
                b,
                writes[k].0,
            ) >= 2,
    ensures
        spec_set_params(b, writes).len() == b.len(),
        param_count(spec_set_params(b, writes)) == param_count(b),
        spec_get_param(spec_set_params(b, writes), index) == last_write(
            writes,
            index,
            spec_get_param(b, index),
        ),
    decreases writes.len(),
{
    reveal(spec_set_params);
    if writes.len() > 0 {
        let init = writes.drop_last();
        let (i, v) = writes.last();
        assert forall|k: int| 0 <= k < init.len() implies 0 <= #[trigger] init[k].0 < param_count(
            b,
        ) by {
            assert(init[k] == writes[k]);
        }
        lemma_set_params_get(b, init, index);
        let prev = spec_set_params(b, init);
        assert(0 <= i < param_count(b)) by {
            assert(writes[writes.len() - 1] == writes.last());
        }
        lemma_get_set_same(prev, i, v);
        if i != index {
            lemma_get_set_other(prev, i, index, v);
        }
    }
}

/// The parameter that a rendered profile holds at `index`: the recipe's
/// value for each parameter a recipe sets, the profile's own value for every
/// other (the color temperature included, unless the white balance is a
/// temperature).
pub open spec fn rendered_param(b: Seq<u8>, r: Recipe, index: int) -> i32 {
    last_write(recipe_params(r), index, spec_get_param(b, index))
}

/// Each parameter of a profile that a recipe was written into reads back as
/// the recipe set it, and every other parameter keeps its value.
pub proof fn lemma_encode_recipe_reads(b: Seq<u8>, r: Recipe, index: int)
    requires
        fits_recipe(b),
        0 <= index < param_count(b),
    ensures
        spec_get_param(spec_set_params(b, recipe_params(r)), index) == rendered_param(b, r, index),
        rendered_param(b, r, PARAM_FILM_SIMULATION as int) == r.film.spec_code(),
        rendered_param(b, r, PARAM_GRAIN_EFFECT as int) == r.grain.spec_code(),
        rendered_param(b, r, PARAM_COLOR_CHROME as int) == r.color_chrome.spec_code(),
        rendered_param(b, r, PARAM_COLOR_CHROME_BLUE as int) == r.color_chrome_blue.spec_code(),
        rendered_param(b, r, PARAM_WB_SHOOT_COND as int) == 2,
        rendered_param(b, r, PARAM_WHITE_BALANCE as int) == spec_wb_encode(r.white_balance).0,
        rendered_param(b, r, PARAM_WB_COLOR_TEMP as int) == match spec_wb_encode(
            r.white_balance,
        ).1 {
            Some(t) => t,
            None => spec_get_param(b, PARAM_WB_COLOR_TEMP as int),
        },
        rendered_param(b, r, PARAM_WB_SHIFT_R as int) == r.white_balance_red,
        rendered_param(b, r, PARAM_WB_SHIFT_B as int) == r.white_balance_blue,
        rendered_param(b, r, PARAM_DYNAMIC_RANGE as int) == spec_dr_encode(r.dynamic_range),
        rendered_param(b, r, PARAM_DYNAMIC_RANGE_PRIORITY as int)
            == r.dynamic_range_priority.spec_code(),
        rendered_param(b, r, PARAM_EXPOSURE_BIAS as int) == r.exposure,
        rendered_param(b, r, PARAM_HIGHLIGHT_TONE as int) == r.highlight,
        rendered_param(b, r, PARAM_SHADOW_TONE as int) == r.shadow,
        rendered_param(b, r, PARAM_COLOR as int) == r.color,
        rendered_param(b, r, PARAM_SHARPNESS as int) == r.sharpness,
        rendered_param(b, r, PARAM_NOISE_REDUCTION as int) == spec_nr_encode(r.high_iso_nr),
        rendered_param(b, r, PARAM_CLARITY as int) == (r.clarity * 10) as i32,
        index < 4 || index == 5 || (21 <= index <= 24) || index == 26 || index > 27 ==> rendered_param(
            b,
            r,
            index,
        ) == spec_get_param(b, index),
{
    let w = recipe_params(r);
    assert forall|k: int| 0 <= k < w.len() implies 0 <= #[trigger] w[k].0 < param_count(b)
        && param_offset(b, w[k].0) >= 2 by {
        assert(4 <= w[k].0);
    }
    lemma_set_params_get(b, w, index);
    let wb = spec_wb_encode(r.white_balance);
    let e = Seq::<(int, i32)>::empty();
    let h1 = e.push((PARAM_FILM_SIMULATION as int, r.film.spec_code()));
    let h2 = h1.push((PARAM_GRAIN_EFFECT as int, r.grain.spec_code()));
    let h3 = h2.push((PARAM_COLOR_CHROME as int, r.color_chrome.spec_code()));
    let h4 = h3.push((PARAM_COLOR_CHROME_BLUE as int, r.color_chrome_blue.spec_code()));
    let h5 = h4.push((PARAM_WB_SHOOT_COND as int, 2i32));
    let h6 = h5.push((PARAM_WHITE_BALANCE as int, wb.0));
    lemma_last_write_push(e, (PARAM_FILM_SIMULATION as int, r.film.spec_code()));
    lemma_last_write_push(h1, (PARAM_GRAIN_EFFECT as int, r.grain.spec_code()));
    lemma_last_write_push(h2, (PARAM_COLOR_CHROME as int, r.color_chrome.spec_code()));
    lemma_last_write_push(h3, (PARAM_COLOR_CHROME_BLUE as int, r.color_chrome_blue.spec_code()));
    lemma_last_write_push(h4, (PARAM_WB_SHOOT_COND as int, 2i32));
    lemma_last_write_push(h5, (PARAM_WHITE_BALANCE as int, wb.0));
    let t = match wb.1 {
        Some(t) => h6.push((PARAM_WB_COLOR_TEMP as int, t)),
        None => h6,
    };
    if let Some(temp) = wb.1 {
        lemma_last_write_push(h6, (PARAM_WB_COLOR_TEMP as int, temp));
    }
    let t1 = t.push((PARAM_WB_SHIFT_R as int, r.white_balance_red));
    let t2 = t1.push((PARAM_WB_SHIFT_B as int, r.white_balance_blue));
    let t3 = t2.push((PARAM_DYNAMIC_RANGE as int, spec_dr_encode(r.dynamic_range)));
    let t4 = t3.push((PARAM_DYNAMIC_RANGE_PRIORITY as int, r.dynamic_range_priority.spec_code()));
    let t5 = t4.push((PARAM_EXPOSURE_BIAS as int, r.exposure));
    let t6 = t5.push((PARAM_HIGHLIGHT_TONE as int, r.highlight));
    let t7 = t6.push((PARAM_SHADOW_TONE as int, r.shadow));
    let t8 = t7.push((PARAM_COLOR as int, r.color));
    let t9 = t8.push((PARAM_SHARPNESS as int, r.sharpness));
    let t10 = t9.push((PARAM_NOISE_REDUCTION as int, spec_nr_encode(r.high_iso_nr)));
    lemma_last_write_push(t, (PARAM_WB_SHIFT_R as int, r.white_balance_red));
    lemma_last_write_push(t1, (PARAM_WB_SHIFT_B as int, r.white_balance_blue));
    lemma_last_write_push(t2, (PARAM_DYNAMIC_RANGE as int, spec_dr_encode(r.dynamic_range)));
    lemma_last_write_push(
        t3,
        (PARAM_DYNAMIC_RANGE_PRIORITY as int, r.dynamic_range_priority.spec_code()),
    );
    lemma_last_write_push(t4, (PARAM_EXPOSURE_BIAS as int, r.exposure));
    lemma_last_write_push(t5, (PARAM_HIGHLIGHT_TONE as int, r.highlight));
    lemma_last_write_push(t6, (PARAM_SHADOW_TONE as int, r.shadow));
    lemma_last_write_push(t7, (PARAM_COLOR as int, r.color));
    lemma_last_write_push(t8, (PARAM_SHARPNESS as int, r.sharpness));
    lemma_last_write_push(t9, (PARAM_NOISE_REDUCTION as int, spec_nr_encode(r.high_iso_nr)));
    lemma_last_write_push(t10, (PARAM_CLARITY as int, (r.clarity * 10) as i32));
    assert(w == t10.push((PARAM_CLARITY as int, (r.clarity * 10) as i32)));
}

/// Writing one more parameter: its index now holds its value, every other
/// index what it held before.
proof fn lemma_last_write_push(w: Seq<(int, i32)>, x: (int, i32))
    ensures
        forall|index: int, dflt: i32|
            #[trigger] last_write(w.push(x), index, dflt) == if x.0 == index {
                x.1
            } else {
                last_write(w, index, dflt)
            },
{
    assert(w.push(x).drop_last() == w);
}


/// The noise reduction table is the camera's: codes 0x8000, 0x7000, 0x4000,
/// 0x3000, 0x2000, 0x1000, 0x0000, 0x6000, 0x5000 stand for -4 through +4;
/// any other code reads as 0, and any other setting is written as 0x2000,
/// the code of 0.
pub proof fn lemma_nr_table(raw: i32, ui: i32)
    ensures
        spec_nr_decode(0x8000) == -4,
        spec_nr_decode(0x7000) == -3,
        spec_nr_decode(0x4000) == -2,
        spec_nr_decode(0x3000) == -1,
        spec_nr_decode(0x2000) == 0,
        spec_nr_decode(0x1000) == 1,
        spec_nr_decode(0x0000) == 2,
        spec_nr_decode(0x6000) == 3,
        spec_nr_decode(0x5000) == 4,
        raw != 0x8000 && raw != 0x7000 && raw != 0x4000 && raw != 0x3000 && raw != 0x2000 && raw
            != 0x1000 && raw != 0x0000 && raw != 0x6000 && raw != 0x5000 ==> spec_nr_decode(raw)
            == 0,
        spec_nr_encode(-4i32) == 0x8000,
        spec_nr_encode(-3i32) == 0x7000,
        spec_nr_encode(-2i32) == 0x4000,
        spec_nr_encode(-1i32) == 0x3000,
        spec_nr_encode(0) == 0x2000,
        spec_nr_encode(1) == 0x1000,
        spec_nr_encode(2) == 0x0000,
        spec_nr_encode(3) == 0x6000,
        spec_nr_encode(4) == 0x5000,
        !(-4 <= ui <= 4) ==> spec_nr_encode(ui) == 0x2000,
{
}

/// White balance codes are the camera's: Auto 0x0002, Daylight 0x0004,
/// Incandescent 0x0006, Underwater 0x0008, Fluorescent 1 to 3 0x8001 to
/// 0x8003, Shade 0x8006, and a color temperature 0x8007 with the temperature
/// written beside it.  Reading, mode 0 is Auto too, and any other mode is
/// refused with its code.
pub proof fn lemma_wb_table(k: u32, mode: i32, temp: i32)
    ensures
        spec_wb_encode(WhiteBalance::Auto) == (0x0002i32, None::<i32>),
        spec_wb_encode(WhiteBalance::Daylight) == (0x0004i32, None::<i32>),
        spec_wb_encode(WhiteBalance::Incandescent) == (0x0006i32, None::<i32>),
        spec_wb_encode(WhiteBalance::Underwater) == (0x0008i32, None::<i32>),
        spec_wb_encode(WhiteBalance::Fluorescent1) == (0x8001i32, None::<i32>),
        spec_wb_encode(WhiteBalance::Fluorescent2) == (0x8002i32, None::<i32>),
        spec_wb_encode(WhiteBalance::Fluorescent3) == (0x8003i32, None::<i32>),
        spec_wb_encode(WhiteBalance::Shade) == (0x8006i32, None::<i32>),
        spec_wb_encode(WhiteBalance::Temperature(k)) == (0x8007i32, Some(k as i32)),
        spec_wb_decode(0, temp) == Ok::<WhiteBalance, Error>(WhiteBalance::Auto),
        spec_wb_decode(0x0002, temp) == Ok::<WhiteBalance, Error>(WhiteBalance::Auto),
        spec_wb_decode(0x0004, temp) == Ok::<WhiteBalance, Error>(WhiteBalance::Daylight),
        spec_wb_decode(0x0006, temp) == Ok::<WhiteBalance, Error>(WhiteBalance::Incandescent),
        spec_wb_decode(0x0008, temp) == Ok::<WhiteBalance, Error>(WhiteBalance::Underwater),
        spec_wb_decode(0x8001, temp) == Ok::<WhiteBalance, Error>(WhiteBalance::Fluorescent1),
        spec_wb_decode(0x8002, temp) == Ok::<WhiteBalance, Error>(WhiteBalance::Fluorescent2),
        spec_wb_decode(0x8003, temp) == Ok::<WhiteBalance, Error>(WhiteBalance::Fluorescent3),
        spec_wb_decode(0x8006, temp) == Ok::<WhiteBalance, Error>(WhiteBalance::Shade),
        spec_wb_decode(0x8007, temp) == Ok::<WhiteBalance, Error>(
            WhiteBalance::Temperature(temp as u32),
        ),
        mode != 0 && mode != 0x0002 && mode != 0x0004 && mode != 0x0006 && mode != 0x0008 && mode
            != 0x8001 && mode != 0x8002 && mode != 0x8003 && mode != 0x8006 && mode != 0x8007
            ==> spec_wb_decode(mode, temp) == Err::<WhiteBalance, Error>(
            Error::UnknownWhiteBalance(mode),
        ),
{
}

/// Dynamic range codes are the percentages: DR100 100, DR200 200, DR400
/// 400; any other code reads as DR100.
pub proof fn lemma_dr_table(raw: i32)
    ensures
        spec_dr_encode(DynamicRange::DR100) == 100,
        spec_dr_encode(DynamicRange::DR200) == 200,
        spec_dr_encode(DynamicRange::DR400) == 400,
        spec_dr_decode(200) == DynamicRange::DR200,
        spec_dr_decode(400) == DynamicRange::DR400,
        raw != 200 && raw != 400 ==> spec_dr_decode(raw) == DynamicRange::DR100,
{
}

} // verus!
