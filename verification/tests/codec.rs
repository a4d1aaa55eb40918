use fujinx::fuji::codec::{
    dr_decode, dr_encode, encode_recipe, get_param, nr_decode, nr_encode, set_param, wb_decode,
    wb_encode, PARAM_CLARITY, PARAM_COLOR_CHROME_BLUE, PARAM_EXPOSURE_BIAS, PARAM_FILM_SIMULATION,
    PARAM_NOISE_REDUCTION, PARAM_WB_COLOR_TEMP, PARAM_WB_SHOOT_COND, PARAM_WHITE_BALANCE,
};
use fujinx::fuji::{
    ColorChromeEffect, DynamicRange, DynamicRangePriority, FilmSimulation, GrainEffect, Recipe,
    WhiteBalance,
};
use fujinx::{Error, Profile};

#[test]
fn noise_reduction_codes() {
    assert_eq!(nr_encode(-4), 0x8000);
    assert_eq!(nr_encode(2), 0x0000);
    assert_eq!(nr_encode(9), 0x2000);
    assert_eq!(nr_decode(0x5000), 4);
    assert_eq!(nr_decode(0x1234), 0);
    for ui in -4..=4 {
        assert_eq!(nr_decode(nr_encode(ui)), ui);
    }
}

#[test]
fn white_balance_codes() {
    assert_eq!(wb_encode(&WhiteBalance::Shade), (0x8006, None));
    assert_eq!(wb_encode(&WhiteBalance::Temperature(5500)), (0x8007, Some(5500)));
    assert_eq!(wb_decode(0, 7), Ok(WhiteBalance::Auto));
    assert_eq!(wb_decode(0x8007, 6300), Ok(WhiteBalance::Temperature(6300)));
    assert_eq!(wb_decode(0x1234, 0), Err(Error::UnknownWhiteBalance(0x1234)));
    for wb in [
        WhiteBalance::Auto,
        WhiteBalance::Daylight,
        WhiteBalance::Incandescent,
        WhiteBalance::Underwater,
        WhiteBalance::Fluorescent1,
        WhiteBalance::Fluorescent2,
        WhiteBalance::Fluorescent3,
        WhiteBalance::Shade,
        WhiteBalance::Temperature(10_000),
    ] {
        let (mode, temp) = wb_encode(&wb);
        assert_eq!(wb_decode(mode, temp.unwrap_or(0)), Ok(wb));
    }
}

#[test]
fn dynamic_range_codes() {
    assert_eq!(dr_encode(&DynamicRange::DR400), 400);
    assert_eq!(dr_decode(200), DynamicRange::DR200);
    assert_eq!(dr_decode(300), DynamicRange::DR100);
    for dr in [DynamicRange::DR100, DynamicRange::DR200, DynamicRange::DR400] {
        assert_eq!(dr_decode(dr_encode(&dr)), dr);
    }
}

/// A profile with a four-byte prefix and `n` zero parameters.
fn profile_bytes(n: u16) -> Vec<u8> {
    let mut data = vec![0u8; 4 + 4 * n as usize];
    data[0] = (n % 256) as u8;
    data[1] = (n / 256) as u8;
    data
}

#[test]
fn get_and_set_params() {
    let mut data = profile_bytes(3);
    set_param(&mut data, 1, -2);
    assert_eq!(&data[8..12], &[0xFE, 0xFF, 0xFF, 0xFF]);
    assert_eq!(get_param(&data, 1), -2);
    assert_eq!(get_param(&data, 0), 0);
    assert_eq!(get_param(&data, 2), 0);
    set_param(&mut data, 2, 0x0102_0304);
    assert_eq!(get_param(&data, 2), 0x0102_0304);
    assert_eq!(get_param(&data, 1), -2);
}

fn sample_recipe() -> Recipe {
    Recipe {
        name: "Pacific Blues".to_string(),
        film: FilmSimulation::ClassicChrome,
        grain: GrainEffect::WeakSmall,
        color_chrome: ColorChromeEffect::Strong,
        color_chrome_blue: ColorChromeEffect::Weak,
        white_balance: WhiteBalance::Temperature(5500),
        white_balance_red: 2,
        white_balance_blue: -4,
        dynamic_range: DynamicRange::DR400,
        dynamic_range_priority: DynamicRangePriority::Off,
        exposure: 333,
        highlight: -10,
        shadow: 5,
        color: 20,
        sharpness: -20,
        clarity: -2,
        high_iso_nr: -4,
    }
}

#[test]
fn encode_recipe_sets_parameters() {
    let mut data = profile_bytes(30);
    let r = sample_recipe();
    encode_recipe(&r, &mut data);
    assert_eq!(get_param(&data, PARAM_FILM_SIMULATION), 11);
    assert_eq!(get_param(&data, PARAM_COLOR_CHROME_BLUE), 2);
    assert_eq!(get_param(&data, PARAM_WB_SHOOT_COND), 2);
    assert_eq!(get_param(&data, PARAM_WHITE_BALANCE), 0x8007);
    assert_eq!(get_param(&data, PARAM_WB_COLOR_TEMP), 5500);
    assert_eq!(get_param(&data, PARAM_EXPOSURE_BIAS), 333);
    assert_eq!(get_param(&data, PARAM_NOISE_REDUCTION), 0x8000);
    assert_eq!(get_param(&data, PARAM_CLARITY), -20);
    assert_eq!(get_param(&data, 0), 0);
    assert_eq!(get_param(&data, 29), 0);

    let profile = Profile::new(profile_bytes(30));
    assert!(profile.fits_recipe());
    assert_eq!(profile.with_recipe(&r), data);
    assert!(!Profile::new(profile_bytes(27)).fits_recipe());
    assert!(!Profile::new(vec![40, 0, 0]).fits_recipe());
}

#[test]
fn white_balance_temperature_kept_when_not_a_temperature() {
    let mut data = profile_bytes(30);
    set_param(&mut data, PARAM_WB_COLOR_TEMP, 6000);
    let mut r = sample_recipe();
    r.white_balance = WhiteBalance::Daylight;
    encode_recipe(&r, &mut data);
    assert_eq!(get_param(&data, PARAM_WHITE_BALANCE), 4);
    assert_eq!(get_param(&data, PARAM_WB_COLOR_TEMP), 6000);
}

#[test]
fn enum_codes_and_names() {
    assert_eq!(FilmSimulation::from_code(20), Some(FilmSimulation::RealaAce));
    assert_eq!(FilmSimulation::from_code(0), None);
    assert_eq!(FilmSimulation::NostalgicNeg.code(), 19);
    assert_eq!(GrainEffect::from_code(5), Some(GrainEffect::StrongLarge));
    assert_eq!(ColorChromeEffect::from_code(4), None);
    assert_eq!(DynamicRangePriority::from_code(0), Some(DynamicRangePriority::Off));
    assert_eq!(FilmSimulation::MonochromeY.display(), "Monochrome+Y");
    assert_eq!(GrainEffect::WeakLarge.display(), "Weak, Large");
    assert_eq!(DynamicRange::DR200.display(), "DR200");
    assert_eq!(WhiteBalance::Fluorescent2.display(), "Fluorescent 2");
    assert_eq!(WhiteBalance::Temperature(5500).display(), "5500K");
    assert_eq!(DynamicRangePriority::Strong.display(), "Strong");
}
