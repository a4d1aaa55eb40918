use fujinx::fuji::preset::{decode_preset, preset_step, preset_writes, PresetStep, PresetValues};
use fujinx::fuji::prop::{
    PRESET_CLARITY, PRESET_COLOR, PRESET_COLOR_CHROME, PRESET_COLOR_CHROME_BLUE,
    PRESET_DYNAMIC_RANGE, PRESET_FILM_SIMULATION, PRESET_GRAIN_EFFECT, PRESET_HIGHLIGHT_TONE,
    PRESET_HIGH_ISO_NR, PRESET_SHADOW_TONE, PRESET_SHARPNESS, PRESET_WB_COLOR_TEMP,
    PRESET_WB_SHIFT_B, PRESET_WB_SHIFT_R, PRESET_WHITE_BALANCE,
};
use fujinx::fuji::{
    ColorChromeEffect, DynamicRange, DynamicRangePriority, FilmSimulation, GrainEffect, Recipe,
    WhiteBalance,
};
use fujinx::Error;
use std::collections::HashMap;

fn recipe() -> Recipe {
    Recipe {
        name: "Kodachrome".to_string(),
        film: FilmSimulation::ClassicChrome,
        grain: GrainEffect::StrongSmall,
        color_chrome: ColorChromeEffect::Strong,
        color_chrome_blue: ColorChromeEffect::Off,
        white_balance: WhiteBalance::Fluorescent1,
        white_balance_red: 3,
        white_balance_blue: -5,
        dynamic_range: DynamicRange::DR200,
        dynamic_range_priority: DynamicRangePriority::Weak,
        exposure: 667,
        highlight: -15,
        shadow: 10,
        color: 30,
        sharpness: -10,
        clarity: 3,
        high_iso_nr: -2,
    }
}

fn read_back(writes: &[(u16, i16)]) -> PresetValues {
    let mut store: HashMap<u16, i16> = HashMap::new();
    store.insert(PRESET_WB_COLOR_TEMP, 1234);
    for &(code, value) in writes {
        store.insert(code, value);
    }
    PresetValues {
        white_balance: store[&PRESET_WHITE_BALANCE],
        wb_color_temp: store[&PRESET_WB_COLOR_TEMP],
        film_simulation: store[&PRESET_FILM_SIMULATION],
        grain_effect: store[&PRESET_GRAIN_EFFECT],
        color_chrome: store[&PRESET_COLOR_CHROME],
        color_chrome_blue: store[&PRESET_COLOR_CHROME_BLUE],
        wb_shift_r: store[&PRESET_WB_SHIFT_R],
        wb_shift_b: store[&PRESET_WB_SHIFT_B],
        dynamic_range: store[&PRESET_DYNAMIC_RANGE],
        highlight_tone: store[&PRESET_HIGHLIGHT_TONE],
        shadow_tone: store[&PRESET_SHADOW_TONE],
        color: store[&PRESET_COLOR],
        sharpness: store[&PRESET_SHARPNESS],
        high_iso_nr: store[&PRESET_HIGH_ISO_NR],
        clarity: store[&PRESET_CLARITY],
    }
}

#[test]
fn preset_writes_in_order() {
    let w = preset_writes(&recipe());
    assert_eq!(w.len(), 14);
    assert_eq!(w[0], (PRESET_FILM_SIMULATION, 11));
    assert_eq!(w[4], (PRESET_WHITE_BALANCE, 0x8001u16 as i16));
    assert_eq!(w[5], (PRESET_WB_SHIFT_R, 3));
    assert_eq!(w[13], (PRESET_CLARITY, 30));

    let mut t = recipe();
    t.white_balance = WhiteBalance::Temperature(5200);
    let w = preset_writes(&t);
    assert_eq!(w.len(), 15);
    assert_eq!(w[5], (PRESET_WB_COLOR_TEMP, 5200));
}

#[test]
fn preset_roundtrip() {
    let r = recipe();
    let back = decode_preset(r.name.clone(), &read_back(&preset_writes(&r))).unwrap();
    let mut expected = r.clone();
    expected.exposure = 0;
    expected.dynamic_range_priority = DynamicRangePriority::Off;
    assert_eq!(back, expected);

    let mut t = recipe();
    t.white_balance = WhiteBalance::Temperature(5200);
    t.high_iso_nr = -4; // code 0x8000, read back as the i16 -32768
    let back = decode_preset(t.name.clone(), &read_back(&preset_writes(&t))).unwrap();
    assert_eq!(back.white_balance, WhiteBalance::Temperature(5200));
    assert_eq!(back.high_iso_nr, -4);
    for nr in -4..=4 {
        t.high_iso_nr = nr;
        let back = decode_preset(t.name.clone(), &read_back(&preset_writes(&t))).unwrap();
        assert_eq!(back.high_iso_nr, nr);
    }
}

#[test]
fn preset_decode_errors() {
    let good = read_back(&preset_writes(&recipe()));
    let mut v = good;
    v.film_simulation = 42;
    v.grain_effect = 9;
    assert_eq!(decode_preset("x".to_string(), &v), Err(Error::UnknownFilmSimulation(42)));
    let mut v = good;
    v.grain_effect = 9;
    assert_eq!(decode_preset("x".to_string(), &v), Err(Error::UnknownGrainEffect(9)));
    let mut v = good;
    v.color_chrome_blue = 0;
    assert_eq!(decode_preset("x".to_string(), &v), Err(Error::UnknownColorChromeEffect(0)));
    let mut v = good;
    v.white_balance = -1;
    assert_eq!(decode_preset("x".to_string(), &v), Err(Error::UnknownWhiteBalance(0xFFFF)));
    let mut v = good;
    v.clarity = -25;
    assert_eq!(decode_preset("x".to_string(), &v).unwrap().clarity, -2);
}

/// Run the reading steps of a slot against a store of property values,
/// and return the codes read with the outcome.
fn read_slot(store: &HashMap<u16, i16>) -> (Vec<u16>, Result<Recipe, Error>) {
    let mut codes = Vec::new();
    let mut read = Vec::new();
    loop {
        match preset_step("Slot", &read) {
            PresetStep::Read(code) => {
                codes.push(code);
                read.push(store[&code]);
            }
            PresetStep::Done(res) => return (codes, res),
        }
    }
}

fn slot_store(writes: &[(u16, i16)]) -> HashMap<u16, i16> {
    let mut store: HashMap<u16, i16> = HashMap::new();
    store.insert(PRESET_WB_COLOR_TEMP, 1234);
    for &(code, value) in writes {
        store.insert(code, value);
    }
    store
}

#[test]
fn preset_steps_read_every_property_in_order() {
    let store = slot_store(&preset_writes(&recipe()));
    let (codes, res) = read_slot(&store);
    assert_eq!(
        codes,
        vec![
            PRESET_WHITE_BALANCE,
            PRESET_WB_COLOR_TEMP,
            PRESET_FILM_SIMULATION,
            PRESET_GRAIN_EFFECT,
            PRESET_COLOR_CHROME,
            PRESET_COLOR_CHROME_BLUE,
            PRESET_WB_SHIFT_R,
            PRESET_WB_SHIFT_B,
            PRESET_DYNAMIC_RANGE,
            PRESET_HIGHLIGHT_TONE,
            PRESET_SHADOW_TONE,
            PRESET_COLOR,
            PRESET_SHARPNESS,
            PRESET_HIGH_ISO_NR,
            PRESET_CLARITY,
        ]
    );
    let back = res.unwrap();
    assert_eq!(back.name, "Slot");
    assert_eq!(back.film, FilmSimulation::ClassicChrome);
    assert_eq!(back.white_balance, WhiteBalance::Fluorescent1);
    assert_eq!(back.clarity, 3);
    assert_eq!(back.exposure, 0);
}

#[test]
fn preset_steps_stop_at_the_first_unknown_setting() {
    let mut store = slot_store(&preset_writes(&recipe()));
    store.insert(PRESET_FILM_SIMULATION, 99);
    store.insert(PRESET_GRAIN_EFFECT, 99);
    let (codes, res) = read_slot(&store);
    assert_eq!(codes.len(), 3);
    assert_eq!(res, Err(Error::UnknownFilmSimulation(99)));

    let mut store = slot_store(&preset_writes(&recipe()));
    store.insert(PRESET_WHITE_BALANCE, 0x7777);
    let (codes, res) = read_slot(&store);
    assert_eq!(codes.len(), 6);
    assert_eq!(res, Err(Error::UnknownWhiteBalance(0x7777)));

    let mut store = slot_store(&preset_writes(&recipe()));
    store.insert(PRESET_COLOR_CHROME_BLUE, -1);
    let (codes, res) = read_slot(&store);
    assert_eq!(codes.len(), 6);
    assert_eq!(res, Err(Error::UnknownColorChromeEffect(-1)));
}
