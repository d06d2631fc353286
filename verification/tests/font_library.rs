use chronon::font_library::{
    candidate_step, CandidateStep, check_inside_library, css_format, display_name, display_name_from_stem, identifier_part,
    import_plan, imported_font, library_path, next_font_id, prepare_import, prune_missing_fonts,
    retain_flagged, supported_extension, supported_extension_of, take_font, FontLibraryError,
    ImportedFont,
};

fn font(id: &str, path: &str) -> ImportedFont {
    ImportedFont {
        id: id.to_string(),
        name: format!("Name {id}"),
        family: format!("ChrononImported-{id}"),
        path: path.to_string(),
        format: "truetype".to_string(),
    }
}

fn ids(fonts: &[ImportedFont]) -> Vec<String> {
    fonts.iter().map(|f| f.id.clone()).collect()
}

#[test]
fn identifier_part_lowercases_and_replaces() {
    assert_eq!(identifier_part("My Font!"), "my-font");
    assert_eq!(identifier_part("ABC123"), "abc123");
    assert_eq!(identifier_part("Open Sans Bold"), "open-sans-bold");
}

#[test]
fn identifier_part_trims_dashes_at_both_ends() {
    assert_eq!(identifier_part("  --Roboto--  "), "roboto");
    assert_eq!(identifier_part("a..b"), "a--b");
}

#[test]
fn identifier_part_falls_back_to_font() {
    assert_eq!(identifier_part(""), "font");
    assert_eq!(identifier_part("---"), "font");
    assert_eq!(identifier_part("日本語"), "font");
}

#[test]
fn identifier_part_leaves_non_ascii_letters_out() {
    assert_eq!(identifier_part("Ünïcode"), "n-code");
}

#[test]
fn identifier_part_is_idempotent_on_examples() {
    for value in ["My Font!", "---", "  x  y  ", "Ünïcode", "ABC123"] {
        let once = identifier_part(value);
        assert_eq!(identifier_part(&once), once);
    }
}

#[test]
fn supported_extension_accepts_the_four_formats() {
    assert_eq!(supported_extension("/fonts/Roboto.TTF"), Some("ttf".to_string()));
    assert_eq!(supported_extension("/fonts/Roboto.otf"), Some("otf".to_string()));
    assert_eq!(supported_extension("/fonts/a.Woff"), Some("woff".to_string()));
    assert_eq!(supported_extension("/fonts/a.woff2"), Some("woff2".to_string()));
}

#[test]
fn supported_extension_refuses_others() {
    assert_eq!(supported_extension("/fonts/readme.txt"), None);
    assert_eq!(supported_extension("/fonts/noextension"), None);
    assert_eq!(supported_extension("/fonts/.ttf"), None);
    assert_eq!(supported_extension("/fonts/font.ttf.zip"), None);
}

#[test]
fn supported_extension_of_lowercases() {
    assert_eq!(supported_extension_of("WOFF2"), Some("woff2".to_string()));
    assert_eq!(supported_extension_of("eot"), None);
    assert_eq!(supported_extension_of(""), None);
}

#[test]
fn css_format_maps_extensions() {
    assert_eq!(css_format("ttf"), "truetype");
    assert_eq!(css_format("otf"), "opentype");
    assert_eq!(css_format("woff"), "woff");
    assert_eq!(css_format("woff2"), "woff2");
    assert_eq!(css_format("eot"), "truetype");
    assert_eq!(css_format("TTF"), "truetype");
}

#[test]
fn display_name_uses_the_stem() {
    assert_eq!(display_name("/fonts/My Font.ttf"), "My Font");
    assert_eq!(display_name("Roboto-Bold.woff2"), "Roboto-Bold");
}

#[test]
fn display_name_falls_back_for_blank_stems() {
    assert_eq!(display_name("/fonts/   .ttf"), "Imported Font");
    assert_eq!(display_name("/"), "Imported Font");
    assert_eq!(display_name_from_stem(None), "Imported Font");
    assert_eq!(display_name_from_stem(Some("\t\u{3000}".to_string())), "Imported Font");
    assert_eq!(display_name_from_stem(Some(" a ".to_string())), " a ");
}

fn joined(directory: &str, file: &str) -> String {
    std::path::Path::new(directory).join(file).to_string_lossy().into_owned()
}

#[test]
fn library_path_appends_the_library_file() {
    let path = library_path("/data/chronon/fonts");
    assert_eq!(path, joined("/data/chronon/fonts", "font-library.json"));
    assert!(path.starts_with("/data/chronon/fonts"));
    assert_ne!(path, "/data/chronon/fontsfont-library.json");
}

#[test]
fn next_font_id_without_counter() {
    let (id, destination) = next_font_id("/data/fonts", "My Font", "ttf", 1700000000123, 0);
    assert_eq!(id, "my-font-1700000000123");
    assert_eq!(destination, joined("/data/fonts", "my-font-1700000000123.ttf"));
}

#[test]
fn next_font_id_with_counter() {
    let (id, destination) = next_font_id("/data/fonts", "My Font", "woff2", 5, 12);
    assert_eq!(id, "my-font-5-12");
    assert_eq!(destination, joined("/data/fonts", "my-font-5-12.woff2"));
}

#[test]
fn next_font_id_candidates_are_distinct() {
    let mut seen = Vec::new();
    for counter in 0..50u32 {
        let (id, _) = next_font_id("/d", "x", "ttf", 10, counter);
        assert!(!seen.contains(&id));
        seen.push(id);
    }
}

#[test]
fn imported_font_builds_family_and_format() {
    let f = imported_font(
        "my-font-1".to_string(),
        "My Font".to_string(),
        "/d/my-font-1.otf".to_string(),
        "otf",
    );
    assert_eq!(f.id, "my-font-1");
    assert_eq!(f.name, "My Font");
    assert_eq!(f.family, "ChrononImported-my-font-1");
    assert_eq!(f.path, "/d/my-font-1.otf");
    assert_eq!(f.format, "opentype");
}

#[test]
fn retain_flagged_keeps_order() {
    let fonts = vec![font("a", "/d/a"), font("b", "/d/b"), font("c", "/d/c")];
    let (kept, changed) = retain_flagged(fonts, &vec![true, false, true]);
    assert_eq!(ids(&kept), vec!["a", "c"]);
    assert!(changed);
}

#[test]
fn retain_flagged_unchanged_when_all_kept() {
    let fonts = vec![font("a", "/d/a"), font("b", "/d/b")];
    let (kept, changed) = retain_flagged(fonts, &vec![true, true]);
    assert_eq!(ids(&kept), vec!["a", "b"]);
    assert!(!changed);
}

#[test]
fn prune_missing_fonts_drops_outside_and_missing() {
    let fonts = vec![
        font("inside", "/data/fonts/inside.ttf"),
        font("outside", "/elsewhere/outside.ttf"),
        font("gone", "/data/fonts/gone.ttf"),
        font("prefix", "/data/fonts-old/prefix.ttf"),
    ];
    let (kept, changed) = prune_missing_fonts("/data/fonts", fonts, &vec![true, true, false, true]);
    assert_eq!(ids(&kept), vec!["inside"]);
    assert!(changed);
}

#[test]
fn prune_missing_fonts_keeps_everything_present() {
    let fonts = vec![font("a", "/data/fonts/a.ttf")];
    let (kept, changed) = prune_missing_fonts("/data/fonts", fonts, &vec![true]);
    assert_eq!(ids(&kept), vec!["a"]);
    assert!(!changed);
}

#[test]
fn check_inside_library_by_components() {
    assert_eq!(check_inside_library("/data/fonts", "/data/fonts/a.ttf"), Ok(()));
    assert_eq!(check_inside_library("/data/fonts", "/data/fonts"), Ok(()));
    assert_eq!(
        check_inside_library("/data/fonts", "/data/fontsx/a.ttf"),
        Err(FontLibraryError::OutsideLibrary)
    );
}

#[test]
fn take_font_removes_first_match() {
    let mut library = vec![font("a", "/d/a"), font("b", "/d/b1"), font("b", "/d/b2")];
    let taken = take_font(&mut library, "b").unwrap();
    assert_eq!(taken.path, "/d/b1");
    assert_eq!(ids(&library), vec!["a", "b"]);
    assert_eq!(library[1].path, "/d/b2");
}

#[test]
fn take_font_reports_missing_id() {
    let mut library = vec![font("a", "/d/a")];
    let result = take_font(&mut library, "z");
    assert_eq!(result.unwrap_err(), FontLibraryError::FontNotFound);
    assert_eq!(ids(&library), vec!["a"]);
}

#[test]
fn error_messages() {
    assert_eq!(
        FontLibraryError::UnsupportedExtension.message(),
        "Only .ttf, .otf, .woff, and .woff2 files are supported."
    );
    assert_eq!(
        FontLibraryError::MissingFile.message(),
        "The selected font file could not be found."
    );
    assert_eq!(FontLibraryError::FontNotFound.message(), "Imported font not found.");
    assert_eq!(
        FontLibraryError::OutsideLibrary.message(),
        "The requested font is outside the application font library."
    );
}

#[test]
fn import_plan_checks_extension_then_file() {
    assert_eq!(
        import_plan(Some("TTF".to_string()), Some("Lato".to_string()), true),
        Ok(("ttf".to_string(), "Lato".to_string()))
    );
    assert_eq!(
        import_plan(Some("txt".to_string()), Some("Lato".to_string()), false),
        Err(FontLibraryError::UnsupportedExtension)
    );
    assert_eq!(
        import_plan(None, Some("Lato".to_string()), true),
        Err(FontLibraryError::UnsupportedExtension)
    );
    assert_eq!(
        import_plan(Some("otf".to_string()), None, false),
        Err(FontLibraryError::MissingFile)
    );
}

#[test]
fn prepare_import_reads_the_path() {
    assert_eq!(
        prepare_import("/home/u/Lato Bold.OTF", true),
        Ok(("otf".to_string(), "Lato Bold".to_string()))
    );
    assert_eq!(
        prepare_import("/home/u/Lato.txt", true),
        Err(FontLibraryError::UnsupportedExtension)
    );
    assert_eq!(
        prepare_import("/home/u/Lato.ttf", false),
        Err(FontLibraryError::MissingFile)
    );
}

#[test]
fn library_path_keeps_the_directory() {
    assert_eq!(library_path("/data/fonts/"), joined("/data/fonts/", "font-library.json"));
    assert_eq!(library_path("fonts"), joined("fonts", "font-library.json"));
    assert!(library_path("fonts").starts_with("fonts"));
}

#[test]
fn prune_keeps_fonts_deeper_in_the_directory() {
    let fonts = vec![font("deep", "/data/fonts/sub/deep.ttf"), font("above", "/data/x.ttf")];
    let (kept, changed) = prune_missing_fonts("/data/fonts", fonts, &vec![true, true]);
    assert_eq!(ids(&kept), vec!["deep"]);
    assert!(changed);
}

#[test]
fn supported_extension_with_drive_and_double_extension() {
    assert_eq!(supported_extension("C:/Fonts/Roboto.TTF"), Some("ttf".to_string()));
    assert_eq!(supported_extension("a.tar.WOFF2"), Some("woff2".to_string()));
    assert_eq!(supported_extension("font.eot"), None);
    assert_eq!(supported_extension(".ttf"), None);
    assert_eq!(supported_extension("ttf"), None);
}

#[test]
fn display_name_examples() {
    assert_eq!(display_name("C:/Fonts/Roboto-Bold.ttf"), "Roboto-Bold");
    assert_eq!(display_name("/f/My Font .otf"), "My Font ");
    assert_eq!(display_name("/f/   .ttf"), "Imported Font");
    assert_eq!(display_name("/"), "Imported Font");
}

#[test]
fn candidate_search_steps() {
    assert_eq!(candidate_step(0, false), CandidateStep::Use);
    assert_eq!(candidate_step(0, true), CandidateStep::TryNext(1));
    assert_eq!(candidate_step(41, true), CandidateStep::TryNext(42));
    assert_eq!(candidate_step(u32::MAX, true), CandidateStep::Exhausted);
    assert_eq!(candidate_step(u32::MAX, false), CandidateStep::Use);
}

#[test]
fn pruning_twice_changes_nothing() {
    let fonts = vec![
        font("a", "/data/fonts/a.ttf"),
        font("b", "/other/b.ttf"),
        font("c", "/data/fonts/c.ttf"),
        font("d", "/data/fonts/d.ttf"),
    ];
    let (once, changed) = prune_missing_fonts("/data/fonts", fonts, &vec![true, true, false, true]);
    assert!(changed);
    let on_disk = vec![true; once.len()];
    let (twice, changed_again) = prune_missing_fonts("/data/fonts", once.clone(), &on_disk);
    assert!(!changed_again);
    assert_eq!(ids(&twice), ids(&once));
    assert_eq!(ids(&twice), vec!["a", "d"]);
}
