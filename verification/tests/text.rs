use fujinx::fuji::camera::{conversion_poll, ConversionPoll, CONVERSION_POLLS};
use fujinx::config::{list_recipes, list_recipes_per_source, repo_path, yaml_names, RecipeSource};
use fujinx::fuji::camera::{is_supported_model, upload_object_info};
use fujinx::text::{capitalize, error_sentence, exposure_text, fmt_i32, format_thirds, label, push_decimal, wb_shift_text};
use fujinx::Error;

#[test]
fn numbers() {
    let mut s = String::new();
    push_decimal(&mut s, 0);
    push_decimal(&mut s, 1907);
    assert_eq!(s, "01907");
    assert_eq!(fmt_i32(0), "0");
    assert_eq!(fmt_i32(3), "+3");
    assert_eq!(fmt_i32(-12), "-12");
    assert_eq!(fmt_i32(i32::MIN), "-2147483648");
}

#[test]
fn thirds() {
    assert_eq!(format_thirds(0), "0");
    assert_eq!(format_thirds(1), "+1/3");
    assert_eq!(format_thirds(-2), "-2/3");
    assert_eq!(format_thirds(3), "+1");
    assert_eq!(format_thirds(-6), "-2");
    assert_eq!(format_thirds(5), "+1 2/3");
    assert_eq!(format_thirds(-4), "-1 1/3");
    assert_eq!(format_thirds(i32::MIN), "-715827882 2/3");
}

#[test]
fn labels_and_sentences() {
    assert_eq!(label("Film:"), "         Film:");
    assert_eq!(label("White Balance:"), "White Balance:");
    assert_eq!(label("A much longer label"), "A much longer label");
    assert_eq!(capitalize("no cameras found"), "No cameras found");
    assert_eq!(capitalize(""), "");
    assert_eq!(capitalize("éclair"), "Éclair");
    assert_eq!(error_sentence("recipe not found: x"), "Recipe not found: x.");
    assert_eq!(error_sentence("done."), "Done.");
    assert_eq!(error_sentence(""), ".");
}

#[test]
fn repo_paths() {
    assert_eq!(
        repo_path("git@github.com:calder/fujixweekly.git"),
        Ok("github.com/calder/fujixweekly".to_string())
    );
    assert_eq!(
        repo_path("https://github.com/calder/fujixweekly.git"),
        Ok("github.com/calder/fujixweekly".to_string())
    );
    assert_eq!(repo_path("http://example.com/r.git.git//"), Ok("example.com/r".to_string()));
    assert_eq!(repo_path("git@host"), Ok("host".to_string()));
    assert_eq!(repo_path("ftp://x/y.git"), Err(Error::BadRepoUrl("ftp://x/y".to_string())));
}

#[test]
fn recipes_per_source() {
    let local = vec!["a".to_string(), "b".to_string()];
    let repos = vec![
        ("github.com/x/y".to_string(), vec!["c".to_string()]),
        ("github.com/z/w".to_string(), vec![]),
    ];
    let sources = list_recipes_per_source(local.clone(), repos);
    assert_eq!(sources.len(), 3);
    assert_eq!(sources[0], (RecipeSource::Local("local".to_string()), local));
    assert_eq!(
        sources[1],
        (RecipeSource::Remote("github.com/x/y".to_string()), vec!["c".to_string()])
    );
    assert_eq!(sources[2], (RecipeSource::Remote("github.com/z/w".to_string()), vec![]));
    let only_repos = list_recipes_per_source(vec![], vec![("r".to_string(), vec![])]);
    assert_eq!(only_repos, vec![(RecipeSource::Remote("r".to_string()), vec![])]);
}

#[test]
fn camera_decisions() {
    assert!(is_supported_model("X-M5"));
    assert!(!is_supported_model("X-T5"));
    let info = upload_object_info(5_000_000_000);
    assert_eq!(info.format_code, 0xF802);
    assert_eq!(info.compressed_size, (5_000_000_000u64 % (1u64 << 32)) as u32);
    assert_eq!(info.filename, "FUP_FILE.dat");
}

#[test]
fn recipes_grouped_by_name() {
    let local = vec!["b".to_string(), "a".to_string()];
    let repos = vec![
        ("r1".to_string(), vec!["a".to_string(), "c".to_string()]),
        ("r2".to_string(), vec!["a".to_string(), "B".to_string()]),
    ];
    let grouped = list_recipes(&local, &repos);
    let local_src = || RecipeSource::Local("local".to_string());
    let remote = |s: &str| RecipeSource::Remote(s.to_string());
    assert_eq!(
        grouped,
        vec![
            ("B".to_string(), vec![remote("r2")]),
            ("a".to_string(), vec![local_src(), remote("r1"), remote("r2")]),
            ("b".to_string(), vec![local_src()]),
            ("c".to_string(), vec![remote("r1")]),
        ]
    );
    assert!(list_recipes(&vec![], &vec![]).is_empty());
}

#[test]
fn yaml_names_are_sorted_stems() {
    let files: Vec<String> = ["zeta.yaml", "notes.txt", "alpha.yaml", ".yaml", "b.c.yaml", "Alpha.yaml", "yaml", "x.YAML", "..yaml"]
        .iter()
        .map(|s| s.to_string())
        .collect();
    assert_eq!(
        yaml_names(&files),
        vec![".", "Alpha", "alpha", "b.c", "zeta"]
    );
    assert!(yaml_names(&Vec::new()).is_empty());
}

#[test]
fn white_balance_shift_and_exposure_text() {
    assert_eq!(wb_shift_text(0, 0), "");
    assert_eq!(wb_shift_text(3, -5), " (R+3, B-5)");
    assert_eq!(wb_shift_text(0, 2), " (R+0, B+2)");
    assert_eq!(wb_shift_text(i32::MIN, 0), format!(" (R{:+}, B+0)", i32::MIN));
    assert_eq!(exposure_text(0), "0");
    assert_eq!(exposure_text(4), "+4/3");
    assert_eq!(exposure_text(-1), "-1/3");
}

#[test]
fn conversion_polling() {
    assert_eq!(conversion_poll(1, &vec![7, 8]), Ok(ConversionPoll::Fetch(7)));
    assert_eq!(conversion_poll(1, &vec![]), Ok(ConversionPoll::Wait));
    assert_eq!(conversion_poll(29, &vec![]), Ok(ConversionPoll::Wait));
    assert_eq!(conversion_poll(CONVERSION_POLLS, &vec![]), Err(Error::ConversionTimedOut));
    assert_eq!(conversion_poll(CONVERSION_POLLS, &vec![3]), Ok(ConversionPoll::Fetch(3)));
}
