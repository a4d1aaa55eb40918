//! The camera's custom preset slots: the property writes that store a recipe
//! in a slot, and the recipe that a slot's properties describe.

use vstd::prelude::*;

use crate::error::Error;
use super::codec::{
    dr_decode, dr_encode, nr_decode, nr_encode, spec_dr_decode, spec_dr_encode, spec_nr_decode,
    spec_nr_encode, spec_wb_decode, spec_wb_encode, wb_decode, wb_encode,
};
use super::prop::{
    PRESET_CLARITY, PRESET_COLOR, PRESET_COLOR_CHROME, PRESET_COLOR_CHROME_BLUE,
    PRESET_DYNAMIC_RANGE, PRESET_FILM_SIMULATION, PRESET_GRAIN_EFFECT, PRESET_HIGHLIGHT_TONE,
    PRESET_HIGH_ISO_NR, PRESET_SHADOW_TONE, PRESET_SHARPNESS, PRESET_WB_COLOR_TEMP,
    PRESET_WB_SHIFT_B, PRESET_WB_SHIFT_R, PRESET_WHITE_BALANCE,
};
use super::recipe::{
    ColorChromeEffect, DynamicRangePriority, FilmSimulation, GrainEffect, Recipe, WhiteBalance,
};

verus! {

/// The `i16` values of a preset slot's properties, as the camera reports
/// them.
#[derive(Debug, Clone, Copy, PartialEq, Eq)]
pub struct PresetValues {
    pub white_balance: i16,
    pub wb_color_temp: i16,
    pub film_simulation: i16,
    pub grain_effect: i16,
    pub color_chrome: i16,
    pub color_chrome_blue: i16,
    pub wb_shift_r: i16,
    pub wb_shift_b: i16,
    pub dynamic_range: i16,
    pub highlight_tone: i16,
    pub shadow_tone: i16,
    pub color: i16,
    pub sharpness: i16,
    pub high_iso_nr: i16,
    pub clarity: i16,
}

/// `a / 10`, rounded toward zero.
pub open spec fn tenth_toward_zero(a: int) -> int {
    if a >= 0 {
        a / 10
    } else {
        -((-a) / 10)
    }
}

/// The white balance mode: the property's 16 bits, read as unsigned.
pub open spec fn preset_wb_mode(v: PresetValues) -> i32 {
    (v.white_balance as i32) & 0xFFFF
}

/// The first property of a slot that does not decode, in the order they are
/// decoded: film simulation, grain effect, color chrome, color chrome blue,
/// white balance.
pub open spec fn preset_error(v: PresetValues) -> Option<Error> {
    if forall|f: FilmSimulation| f.spec_code() != v.film_simulation as i32 {
        Some(Error::UnknownFilmSimulation(v.film_simulation as i32))
    } else if forall|g: GrainEffect| g.spec_code() != v.grain_effect as i32 {
        Some(Error::UnknownGrainEffect(v.grain_effect as i32))
    } else if forall|c: ColorChromeEffect| c.spec_code() != v.color_chrome as i32 {
        Some(Error::UnknownColorChromeEffect(v.color_chrome as i32))
    } else if forall|c: ColorChromeEffect| c.spec_code() != v.color_chrome_blue as i32 {
        Some(Error::UnknownColorChromeEffect(v.color_chrome_blue as i32))
    } else if spec_wb_decode(preset_wb_mode(v), v.wb_color_temp as i32) is Err {
        Some(Error::UnknownWhiteBalance(preset_wb_mode(v)))
    } else {
        None
    }
}

/// `r` is the recipe that a slot named `name` with these properties holds:
/// each setting decoded from its property (the white balance mode and the
/// noise reduction code from the property's 16 bits read as unsigned),
/// tenths kept as they are, clarity
/// in whole steps (tenths divided by ten, toward zero), no exposure
/// compensation and no dynamic range priority (a slot stores neither).
pub open spec fn preset_recipe(r: Recipe, name: Seq<char>, v: PresetValues) -> bool {
    &&& r.name@ == name
    &&& r.film.spec_code() == v.film_simulation as i32
    &&& r.grain.spec_code() == v.grain_effect as i32
    &&& r.color_chrome.spec_code() == v.color_chrome as i32
    &&& r.color_chrome_blue.spec_code() == v.color_chrome_blue as i32
    &&& spec_wb_decode(preset_wb_mode(v), v.wb_color_temp as i32) == Ok::<_, Error>(
        r.white_balance,
    )
    &&& r.white_balance_red == v.wb_shift_r as i32
    &&& r.white_balance_blue == v.wb_shift_b as i32
    &&& r.dynamic_range == spec_dr_decode(v.dynamic_range as i32)
    &&& r.dynamic_range_priority == DynamicRangePriority::Off
    &&& r.exposure == 0
    &&& r.highlight == v.highlight_tone as i32
    &&& r.shadow == v.shadow_tone as i32
    &&& r.color == v.color as i32
    &&& r.sharpness == v.sharpness as i32
    &&& r.high_iso_nr == spec_nr_decode((v.high_iso_nr as i32) & 0xFFFF)
    &&& r.clarity == tenth_toward_zero(v.clarity as int)
}

/// The recipe held by a preset slot named `name` whose properties have the
/// values `v`.
pub fn decode_preset(name: String, v: &PresetValues) -> (res: Result<Recipe, Error>)
    ensures
        match preset_error(*v) {
            Some(e) => res == Err::<Recipe, Error>(e),
            None => res matches Ok(r) && preset_recipe(r, name@, *v),
        },
{
    let wb_mode = (v.white_balance as i32) & 0xFFFF;
    let film = match FilmSimulation::from_code(v.film_simulation as i32) {
        Some(f) => f,
        None => return Err(Error::UnknownFilmSimulation(v.film_simulation as i32)),
    };
    let grain = match GrainEffect::from_code(v.grain_effect as i32) {
        Some(g) => g,
        None => return Err(Error::UnknownGrainEffect(v.grain_effect as i32)),
    };
    let color_chrome = match ColorChromeEffect::from_code(v.color_chrome as i32) {
        Some(c) => c,
        None => return Err(Error::UnknownColorChromeEffect(v.color_chrome as i32)),
    };
    let color_chrome_blue = match ColorChromeEffect::from_code(v.color_chrome_blue as i32) {
        Some(c) => c,
        None => return Err(Error::UnknownColorChromeEffect(v.color_chrome_blue as i32)),
    };
    let white_balance = wb_decode(wb_mode, v.wb_color_temp as i32)?;
    let c = v.clarity as i32;
    let clarity = if c >= 0 {
        c / 10
    } else {
        -((-c) / 10)
    };
    Ok(
        Recipe {
            name,
            film,
            grain,
            color_chrome,
            color_chrome_blue,
            white_balance,
            white_balance_red: v.wb_shift_r as i32,
            white_balance_blue: v.wb_shift_b as i32,
            dynamic_range: dr_decode(v.dynamic_range as i32),
            dynamic_range_priority: DynamicRangePriority::Off,
            exposure: 0,
            highlight: v.highlight_tone as i32,
            shadow: v.shadow_tone as i32,
            color: v.color as i32,
            sharpness: v.sharpness as i32,
            high_iso_nr: nr_decode((v.high_iso_nr as i32) & 0xFFFF),
            clarity,
        },
    )
}

/// The number of `i16` properties read from a preset slot.
pub const PRESET_READ_COUNT: usize = 15;

/// The `i16` properties of a preset slot in the order they are read.
pub open spec fn preset_read_order() -> Seq<u16> {
    seq![
        PRESET_WHITE_BALANCE,
        PRESET_WB_COLOR_TEMP,
        PRESET_FILM_SIMULATION,
        PRESET_GRAIN_EFFECT,
        PRESET_COLOR_CHROME,
        PRESET_COLOR_CHROME_BLUE,
        PRESET_WB_SHIFT_R,
        PRESET_WB_SHIFT_B,
        PRESET_DYNAMIC_RANGE,
        PRESET_HIGHLIGHT_TONE,
        PRESET_SHADOW_TONE,
        PRESET_COLOR,
        PRESET_SHARPNESS,
        PRESET_HIGH_ISO_NR,
        PRESET_CLARITY,
    ]
}

/// The slot values that the reads `read` gave, in the order of
/// `preset_read_order`.
pub open spec fn read_values(read: Seq<i16>) -> PresetValues {
    PresetValues {
        white_balance: read[0],
        wb_color_temp: read[1],
        film_simulation: read[2],
        grain_effect: read[3],
        color_chrome: read[4],
        color_chrome_blue: read[5],
        wb_shift_r: read[6],
        wb_shift_b: read[7],
        dynamic_range: read[8],
        highlight_tone: read[9],
        shadow_tone: read[10],
        color: read[11],
        sharpness: read[12],
        high_iso_nr: read[13],
        clarity: read[14],
    }
}

/// The first setting that does not decode among those that the reads so far
/// allow to decode: each of film simulation, grain effect, color chrome and
/// color chrome blue as soon as it is read, and white balance right after
/// color chrome blue.
pub open spec fn early_error(read: Seq<i16>) -> Option<Error> {
    if read.len() >= 3 && forall|f: FilmSimulation| f.spec_code() != read[2] as i32 {
        Some(Error::UnknownFilmSimulation(read[2] as i32))
    } else if read.len() >= 4 && forall|g: GrainEffect| g.spec_code() != read[3] as i32 {
        Some(Error::UnknownGrainEffect(read[3] as i32))
    } else if read.len() >= 5 && forall|c: ColorChromeEffect| c.spec_code() != read[4] as i32 {
        Some(Error::UnknownColorChromeEffect(read[4] as i32))
    } else if read.len() >= 6 && forall|c: ColorChromeEffect| c.spec_code() != read[5] as i32 {
        Some(Error::UnknownColorChromeEffect(read[5] as i32))
    } else if read.len() >= 6 && spec_wb_decode(
        (read[0] as i32) & 0xFFFF,
        read[1] as i32,
    ) is Err {
        Some(Error::UnknownWhiteBalance((read[0] as i32) & 0xFFFF))
    } else {
        None
    }
}

/// What reading a preset slot does next.
#[derive(Debug, PartialEq, Eq)]
pub enum PresetStep {
    /// Read the `i16` property with this code.
    Read(u16),
    /// Stop, with the slot's recipe or the error that ends the reading.
    Done(Result<Recipe, Error>),
}

/// Once all properties are read, no early error is left for the last
/// checks: the error of a slot is its early error.
proof fn lemma_early_error_complete(read: Seq<i16>)
    requires
        read.len() >= PRESET_READ_COUNT,
    ensures
        early_error(read) == preset_error(read_values(read)),
{
}

/// The next step in reading a preset slot named `name`, after the reads
/// `read` (the values of the first properties of `preset_read_order`): stop
/// at the first setting that does not decode, else read the next property,
/// else decode the slot.
pub fn preset_step(name: &str, read: &Vec<i16>) -> (res: PresetStep)
    ensures
        match early_error(read@) {
            Some(e) => res == PresetStep::Done(Err(e)),
            None => if read@.len() < PRESET_READ_COUNT {
                res == PresetStep::Read(preset_read_order()[read@.len() as int])
            } else {
                res matches PresetStep::Done(Ok(r)) && preset_recipe(r, name@, read_values(read@))
            },
        },
{
    let n = read.len();
    if n >= 3 && FilmSimulation::from_code(read[2] as i32).is_none() {
        return PresetStep::Done(Err(Error::UnknownFilmSimulation(read[2] as i32)));
    }
    if n >= 4 && GrainEffect::from_code(read[3] as i32).is_none() {
        return PresetStep::Done(Err(Error::UnknownGrainEffect(read[3] as i32)));
    }
    if n >= 5 && ColorChromeEffect::from_code(read[4] as i32).is_none() {
        return PresetStep::Done(Err(Error::UnknownColorChromeEffect(read[4] as i32)));
    }
    if n >= 6 && ColorChromeEffect::from_code(read[5] as i32).is_none() {
        return PresetStep::Done(Err(Error::UnknownColorChromeEffect(read[5] as i32)));
    }
    if n >= 6 {
        let mode = (read[0] as i32) & 0xFFFF;
        if wb_decode(mode, read[1] as i32).is_err() {
            return PresetStep::Done(Err(Error::UnknownWhiteBalance(mode)));
        }
    }
    if n < PRESET_READ_COUNT {
        let order: [u16; 15] = [
            PRESET_WHITE_BALANCE,
            PRESET_WB_COLOR_TEMP,
            PRESET_FILM_SIMULATION,
            PRESET_GRAIN_EFFECT,
            PRESET_COLOR_CHROME,
            PRESET_COLOR_CHROME_BLUE,
            PRESET_WB_SHIFT_R,
            PRESET_WB_SHIFT_B,
            PRESET_DYNAMIC_RANGE,
            PRESET_HIGHLIGHT_TONE,
            PRESET_SHADOW_TONE,
            PRESET_COLOR,
            PRESET_SHARPNESS,
            PRESET_HIGH_ISO_NR,
            PRESET_CLARITY,
        ];
        assert(order@ == preset_read_order());
        return PresetStep::Read(order[n]);
    }
    let values = PresetValues {
        white_balance: read[0],
        wb_color_temp: read[1],
        film_simulation: read[2],
        grain_effect: read[3],
        color_chrome: read[4],
        color_chrome_blue: read[5],
        wb_shift_r: read[6],
        wb_shift_b: read[7],
        dynamic_range: read[8],
        highlight_tone: read[9],
        shadow_tone: read[10],
        color: read[11],
        sharpness: read[12],
        high_iso_nr: read[13],
        clarity: read[14],
    };
    proof {
        lemma_early_error_complete(read@);
    }
    PresetStep::Done(decode_preset(name.to_owned(), &values))
}

/// The property writes that store a recipe in the selected slot (after the
/// slot number and the name), in order: each setting's camera code or value
/// cut to its low 16 bits, the color temperature only for a temperature, and
/// clarity in tenths.
pub open spec fn spec_preset_writes(r: Recipe) -> Seq<(u16, i16)> {
    let wb = spec_wb_encode(r.white_balance);
    let head = Seq::<(u16, i16)>::empty().push(
        (PRESET_FILM_SIMULATION, r.film.spec_code() as i16),
    ).push((PRESET_GRAIN_EFFECT, r.grain.spec_code() as i16)).push(
        (PRESET_COLOR_CHROME, r.color_chrome.spec_code() as i16),
    ).push((PRESET_COLOR_CHROME_BLUE, r.color_chrome_blue.spec_code() as i16)).push(
        (PRESET_WHITE_BALANCE, wb.0 as i16),
    );
    let with_temp = match wb.1 {
        Some(t) => head.push((PRESET_WB_COLOR_TEMP, t as i16)),
        None => head,
    };
    with_temp.push((PRESET_WB_SHIFT_R, r.white_balance_red as i16)).push(
        (PRESET_WB_SHIFT_B, r.white_balance_blue as i16),
    ).push((PRESET_DYNAMIC_RANGE, spec_dr_encode(r.dynamic_range) as i16)).push(
        (PRESET_HIGHLIGHT_TONE, r.highlight as i16),
    ).push((PRESET_SHADOW_TONE, r.shadow as i16)).push((PRESET_COLOR, r.color as i16)).push(
        (PRESET_SHARPNESS, r.sharpness as i16),
    ).push((PRESET_HIGH_ISO_NR, spec_nr_encode(r.high_iso_nr) as i16)).push(
        (PRESET_CLARITY, (r.clarity * 10) as i16),
    )
}

/// The property writes that store `recipe` in the selected preset slot.
pub fn preset_writes(recipe: &Recipe) -> (w: Vec<(u16, i16)>)
    requires
        i32::MIN <= recipe.clarity * 10 <= i32::MAX,
    ensures
        w@ == spec_preset_writes(*recipe),
{
    let mut w: Vec<(u16, i16)> = Vec::new();
    w.push((PRESET_FILM_SIMULATION, recipe.film.code() as i16));
    w.push((PRESET_GRAIN_EFFECT, recipe.grain.code() as i16));
    w.push((PRESET_COLOR_CHROME, recipe.color_chrome.code() as i16));
    w.push((PRESET_COLOR_CHROME_BLUE, recipe.color_chrome_blue.code() as i16));
    let (wb_mode, wb_temp) = wb_encode(&recipe.white_balance);
    w.push((PRESET_WHITE_BALANCE, wb_mode as i16));
    if let Some(t) = wb_temp {
        w.push((PRESET_WB_COLOR_TEMP, t as i16));
    }
    w.push((PRESET_WB_SHIFT_R, recipe.white_balance_red as i16));
    w.push((PRESET_WB_SHIFT_B, recipe.white_balance_blue as i16));
    w.push((PRESET_DYNAMIC_RANGE, dr_encode(&recipe.dynamic_range) as i16));
    w.push((PRESET_HIGHLIGHT_TONE, recipe.highlight as i16));
    w.push((PRESET_SHADOW_TONE, recipe.shadow as i16));
    w.push((PRESET_COLOR, recipe.color as i16));
    w.push((PRESET_SHARPNESS, recipe.sharpness as i16));
    w.push((PRESET_HIGH_ISO_NR, nr_encode(recipe.high_iso_nr) as i16));
    w.push((PRESET_CLARITY, (recipe.clarity * 10) as i16));
    w
}

/// The camera's preset properties after `writes`, in order, starting from
/// `store`.
pub open spec fn apply_writes(store: Map<u16, i16>, writes: Seq<(u16, i16)>) -> Map<u16, i16>
    decreases writes.len(),
{
    if writes.len() == 0 {
        store
    } else {
        apply_writes(store, writes.drop_last()).insert(writes.last().0, writes.last().1)
    }
}

/// The values that reading a slot's properties from `store` gives.
pub open spec fn slot_values(store: Map<u16, i16>) -> PresetValues {
    PresetValues {
        white_balance: store[PRESET_WHITE_BALANCE],
        wb_color_temp: store[PRESET_WB_COLOR_TEMP],
        film_simulation: store[PRESET_FILM_SIMULATION],
        grain_effect: store[PRESET_GRAIN_EFFECT],
        color_chrome: store[PRESET_COLOR_CHROME],
        color_chrome_blue: store[PRESET_COLOR_CHROME_BLUE],
        wb_shift_r: store[PRESET_WB_SHIFT_R],
        wb_shift_b: store[PRESET_WB_SHIFT_B],
        dynamic_range: store[PRESET_DYNAMIC_RANGE],
        highlight_tone: store[PRESET_HIGHLIGHT_TONE],
        shadow_tone: store[PRESET_SHADOW_TONE],
        color: store[PRESET_COLOR],
        sharpness: store[PRESET_SHARPNESS],
        high_iso_nr: store[PRESET_HIGH_ISO_NR],
        clarity: store[PRESET_CLARITY],
    }
}

/// Reading the properties of `preset_read_order` one by one from a camera
/// whose properties are `store` gives the values of the slot in `store`: the
/// values that `lemma_preset_roundtrip` reads back.
pub proof fn lemma_read_order_values(store: Map<u16, i16>)
    ensures
        read_values(preset_read_order().map_values(|c: u16| store[c])) == slot_values(store),
        preset_read_order().len() == PRESET_READ_COUNT,
{
}

proof fn lemma_apply_writes_push(store: Map<u16, i16>, w: Seq<(u16, i16)>, x: (u16, i16))
    ensures
        apply_writes(store, w.push(x)) == apply_writes(store, w).insert(x.0, x.1),
{
    assert(w.push(x).drop_last() == w);
}

/// The recipe that reading back a slot written from `r` gives: `r` but for
/// what a slot does not store (exposure compensation reads as 0, dynamic
/// range priority as off, and a noise reduction outside -4 to +4 as 0).
pub open spec fn preset_read_back(r: Recipe) -> Recipe {
    Recipe {
        name: r.name,
        film: r.film,
        grain: r.grain,
        color_chrome: r.color_chrome,
        color_chrome_blue: r.color_chrome_blue,
        white_balance: r.white_balance,
        white_balance_red: r.white_balance_red,
        white_balance_blue: r.white_balance_blue,
        dynamic_range: r.dynamic_range,
        dynamic_range_priority: DynamicRangePriority::Off,
        exposure: 0,
        highlight: r.highlight,
        shadow: r.shadow,
        color: r.color,
        sharpness: r.sharpness,
        high_iso_nr: if -4 <= r.high_iso_nr <= 4 {
            r.high_iso_nr
        } else {
            0
        },
        clarity: r.clarity,
    }
}

/// The camera's properties after a recipe was written into a slot whose
/// properties were `store`.
pub open spec fn written_slot(store: Map<u16, i16>, r: Recipe) -> Map<u16, i16> {
    apply_writes(store, spec_preset_writes(r))
}

/// The values that reading the properties of `preset_read_order` one by one
/// from `store` gives.
pub open spec fn slot_reads(store: Map<u16, i16>) -> Seq<i16> {
    preset_read_order().map_values(|c: u16| store[c])
}

/// Reading back a slot that a recipe was written into succeeds: every read
/// step finds nothing that fails to decode, and the slot's values describe
/// the recipe as `preset_read_back` gives it.  This holds for settings whose
/// values fit in 16 signed bits, and a color temperature of at most 32767 K.
pub proof fn lemma_preset_reads_back(r: Recipe, store: Map<u16, i16>)
    requires
        i16::MIN <= r.white_balance_red <= i16::MAX,
        i16::MIN <= r.white_balance_blue <= i16::MAX,
        i16::MIN <= r.highlight <= i16::MAX,
        i16::MIN <= r.shadow <= i16::MAX,
        i16::MIN <= r.color <= i16::MAX,
        i16::MIN <= r.sharpness <= i16::MAX,
        i16::MIN <= r.clarity * 10 <= i16::MAX,
        r.white_balance matches WhiteBalance::Temperature(k) ==> k <= 0x7FFF,
    ensures
        preset_error(slot_values(written_slot(store, r))) is None,
        preset_recipe(preset_read_back(r), r.name@, slot_values(written_slot(store, r))),
        read_values(slot_reads(written_slot(store, r))) == slot_values(written_slot(store, r)),
        slot_reads(written_slot(store, r)).len() == PRESET_READ_COUNT,
        forall|k: int|
            0 <= k <= PRESET_READ_COUNT ==> early_error(
                #[trigger] slot_reads(written_slot(store, r)).take(k),
            ) is None,
{
    let wb = spec_wb_encode(r.white_balance);
    let e = Seq::<(u16, i16)>::empty();
    let h1 = e.push((PRESET_FILM_SIMULATION, r.film.spec_code() as i16));
    let h2 = h1.push((PRESET_GRAIN_EFFECT, r.grain.spec_code() as i16));
    let h3 = h2.push((PRESET_COLOR_CHROME, r.color_chrome.spec_code() as i16));
    let h4 = h3.push((PRESET_COLOR_CHROME_BLUE, r.color_chrome_blue.spec_code() as i16));
    let h5 = h4.push((PRESET_WHITE_BALANCE, wb.0 as i16));
    lemma_apply_writes_push(store, e, (PRESET_FILM_SIMULATION, r.film.spec_code() as i16));
    lemma_apply_writes_push(store, h1, (PRESET_GRAIN_EFFECT, r.grain.spec_code() as i16));
    lemma_apply_writes_push(store, h2, (PRESET_COLOR_CHROME, r.color_chrome.spec_code() as i16));
    lemma_apply_writes_push(
        store,
        h3,
        (PRESET_COLOR_CHROME_BLUE, r.color_chrome_blue.spec_code() as i16),
    );
    lemma_apply_writes_push(store, h4, (PRESET_WHITE_BALANCE, wb.0 as i16));
    let t = match wb.1 {
        Some(t) => h5.push((PRESET_WB_COLOR_TEMP, t as i16)),
        None => h5,
    };
    if let Some(temp) = wb.1 {
        lemma_apply_writes_push(store, h5, (PRESET_WB_COLOR_TEMP, temp as i16));
    }
    let t1 = t.push((PRESET_WB_SHIFT_R, r.white_balance_red as i16));
    let t2 = t1.push((PRESET_WB_SHIFT_B, r.white_balance_blue as i16));
    let t3 = t2.push((PRESET_DYNAMIC_RANGE, spec_dr_encode(r.dynamic_range) as i16));
    let t4 = t3.push((PRESET_HIGHLIGHT_TONE, r.highlight as i16));
    let t5 = t4.push((PRESET_SHADOW_TONE, r.shadow as i16));
    let t6 = t5.push((PRESET_COLOR, r.color as i16));
    let t7 = t6.push((PRESET_SHARPNESS, r.sharpness as i16));
    let t8 = t7.push((PRESET_HIGH_ISO_NR, spec_nr_encode(r.high_iso_nr) as i16));
    lemma_apply_writes_push(store, t, (PRESET_WB_SHIFT_R, r.white_balance_red as i16));
    lemma_apply_writes_push(store, t1, (PRESET_WB_SHIFT_B, r.white_balance_blue as i16));
    lemma_apply_writes_push(
        store,
        t2,
        (PRESET_DYNAMIC_RANGE, spec_dr_encode(r.dynamic_range) as i16),
    );
    lemma_apply_writes_push(store, t3, (PRESET_HIGHLIGHT_TONE, r.highlight as i16));
    lemma_apply_writes_push(store, t4, (PRESET_SHADOW_TONE, r.shadow as i16));
    lemma_apply_writes_push(store, t5, (PRESET_COLOR, r.color as i16));
    lemma_apply_writes_push(store, t6, (PRESET_SHARPNESS, r.sharpness as i16));
    lemma_apply_writes_push(
        store,
        t7,
        (PRESET_HIGH_ISO_NR, spec_nr_encode(r.high_iso_nr) as i16),
    );
    lemma_apply_writes_push(store, t8, (PRESET_CLARITY, (r.clarity * 10) as i16));
    let v = slot_values(apply_writes(store, spec_preset_writes(r)));
    let mode = wb.0;
    assert(0 <= mode <= 0xFFFF ==> ((mode as i16) as i32) & 0xFFFF == mode) by (bit_vector);
    if let WhiteBalance::Temperature(k) = r.white_balance {
        assert(k <= 0x7FFF ==> (((k as i32) as i16) as i32) as u32 == k) by (bit_vector);
    }
    assert(v.white_balance == mode as i16);
    assert(preset_wb_mode(v) == mode);
    assert(r.film.spec_code() == v.film_simulation as i32);
    assert(r.grain.spec_code() == v.grain_effect as i32);
    assert(r.color_chrome.spec_code() == v.color_chrome as i32);
    assert(r.color_chrome_blue.spec_code() == v.color_chrome_blue as i32);
    assert(spec_wb_decode(mode, v.wb_color_temp as i32) == Ok::<_, Error>(r.white_balance));
    assert((r.clarity * 10) as i16 as int == r.clarity * 10);
    assert(tenth_toward_zero(r.clarity * 10) == r.clarity);
    let nr = spec_nr_encode(r.high_iso_nr);
    assert(v.high_iso_nr == nr as i16);
    assert(0 <= nr <= 0xFFFF);
    assert(0 <= nr <= 0xFFFF ==> ((nr as i16) as i32) & 0xFFFF == nr) by (bit_vector);
    assert((v.high_iso_nr as i32) & 0xFFFF == nr);
    let reads = slot_reads(written_slot(store, r));
    assert(read_values(reads) == v);
    assert forall|k: int| 0 <= k <= PRESET_READ_COUNT implies early_error(
        #[trigger] reads.take(k),
    ) is None by {
        let t = reads.take(k);
        assert(k >= 3 ==> t[2] == v.film_simulation);
        assert(k >= 4 ==> t[3] == v.grain_effect);
        assert(k >= 5 ==> t[4] == v.color_chrome);
        assert(k >= 6 ==> t[5] == v.color_chrome_blue && t[0] == v.white_balance && t[1]
            == v.wb_color_temp);
    }
}

/// Reading back a slot that a recipe was written into gives the recipe back,
/// but for what a slot does not store: exposure compensation reads as 0,
/// dynamic range priority as off, and a noise reduction outside -4 to +4
/// reads as 0.  This holds for settings whose values fit in 16 signed bits,
/// and a color temperature of at most 32767 K.
pub proof fn lemma_preset_roundtrip(r: Recipe, store: Map<u16, i16>, back: Recipe)
    requires
        i16::MIN <= r.white_balance_red <= i16::MAX,
        i16::MIN <= r.white_balance_blue <= i16::MAX,
        i16::MIN <= r.highlight <= i16::MAX,
        i16::MIN <= r.shadow <= i16::MAX,
        i16::MIN <= r.color <= i16::MAX,
        i16::MIN <= r.sharpness <= i16::MAX,
        i16::MIN <= r.clarity * 10 <= i16::MAX,
        r.white_balance matches WhiteBalance::Temperature(k) ==> k <= 0x7FFF,
        preset_recipe(back, r.name@, slot_values(written_slot(store, r))),
    ensures
        preset_error(slot_values(written_slot(store, r))) is None,
        back.name@ == r.name@,
        back.film == r.film,
        back.grain == r.grain,
        back.color_chrome == r.color_chrome,
        back.color_chrome_blue == r.color_chrome_blue,
        back.white_balance == r.white_balance,
        back.white_balance_red == r.white_balance_red,
        back.white_balance_blue == r.white_balance_blue,
        back.dynamic_range == r.dynamic_range,
        back.dynamic_range_priority == DynamicRangePriority::Off,
        back.exposure == 0,
        back.highlight == r.highlight,
        back.shadow == r.shadow,
        back.color == r.color,
        back.sharpness == r.sharpness,
        back.high_iso_nr == (if -4 <= r.high_iso_nr <= 4 {
            r.high_iso_nr
        } else {
            0
        }),
        back.clarity == r.clarity,
{
    lemma_preset_reads_back(r, store);
    let v = slot_values(written_slot(store, r));
    FilmSimulation::lemma_code_injective(back.film, r.film);
    GrainEffect::lemma_code_injective(back.grain, r.grain);
    ColorChromeEffect::lemma_code_injective(back.color_chrome, r.color_chrome);
    ColorChromeEffect::lemma_code_injective(back.color_chrome_blue, r.color_chrome_blue);
}

} // verus!
