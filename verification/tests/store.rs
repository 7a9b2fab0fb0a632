use silverdeck::json::JsonValue;
use silverdeck::store::{
    appstream_url, cache_dir, install_args, installed_apps, last_error_line, last_percent,
    latest_percent, meta_from_json, parse_installed, InstallEvent, InstallWatch, StoreCatalog,
    StoreCategory,
};
use silverdeck::system::FakeRunner;

#[test]
fn parses_progress_percentages() {
    assert_eq!(latest_percent("Installing… 12%"), Some(12));
    assert_eq!(
        latest_percent("app 1/3  10.2 MB / 80 MB  13%\rapp 1/3  40 MB / 80 MB  50%"),
        Some(50)
    );
    assert_eq!(latest_percent("no numbers here"), None);
    assert_eq!(latest_percent("weird 400%"), None);
}

#[test]
fn last_percent_skips_out_of_range_captures() {
    let caps = vec![Some("40".to_string()), Some("300".to_string()), None];
    assert_eq!(last_percent(&caps), Some(40));
    assert_eq!(last_percent(&vec![]), None);
}

#[test]
fn installed_apps_parses_list() {
    let mut runner = FakeRunner::new().expect(
        &["flatpak", "list"],
        Ok("org.supertuxproject.SuperTux\ncom.heroicgameslauncher.hgl\n".into()),
    );
    let installed = installed_apps(&mut runner).unwrap();
    assert!(installed.iter().any(|a| a == "org.supertuxproject.SuperTux"));
    assert_eq!(installed.len(), 2);
}

#[test]
fn installed_list_is_trimmed_and_distinct() {
    assert_eq!(parse_installed(" a \nb\na\n"), vec!["a".to_string(), "b".to_string()]);
}

#[test]
fn error_line_extraction() {
    assert_eq!(
        last_error_line("progress\nerror: No remote refs found\n"),
        Some("error: No remote refs found".into())
    );
    assert_eq!(last_error_line("all fine"), None);
    assert_eq!(last_error_line("  ERROR: loud \nok\n"), Some("ERROR: loud".into()));
}

#[test]
fn catalog_lists_all_apps_in_order() {
    let catalog = StoreCatalog {
        categories: vec![
            StoreCategory { name: "Games".into(), apps: vec!["org.supertuxproject.SuperTux".into()] },
            StoreCategory { name: "Emulators".into(), apps: vec!["org.DolphinEmu.dolphin-emu".into()] },
        ],
    };
    assert_eq!(catalog.categories.len(), 2);
    assert_eq!(catalog.all_apps(), ["org.supertuxproject.SuperTux", "org.DolphinEmu.dolphin-emu"]);
}

#[test]
fn metadata_defaults() {
    let doc = JsonValue::Object(vec![
        ("icon".to_string(), JsonValue::Text("https://x/icon.png".into())),
        ("summary".to_string(), JsonValue::Text("Fun".into())),
    ]);
    let (meta, icon) = meta_from_json("org.a.B", &doc);
    assert_eq!(meta.name, "org.a.B");
    assert_eq!(meta.summary, "Fun");
    assert_eq!(icon, Some("https://x/icon.png".to_string()));
    assert_eq!(appstream_url("org.a.B"), "https://flathub.org/api/v2/appstream/org.a.B");
    assert_eq!(cache_dir(None, Some("/home/u")), "/home/u/.cache/silverdeck");
    assert_eq!(cache_dir(Some("/c"), Some("/home/u")), "/c/silverdeck");
    assert_eq!(cache_dir(None, None), "/tmp/silverdeck");
    assert_eq!(install_args("x.Y"), ["install", "--system", "--noninteractive", "-y", "flathub", "x.Y"]);
}

#[test]
fn install_watch_reports_rising_progress_and_final_message() {
    let mut watch = InstallWatch::new();
    assert!(watch.can_take("10%\n"));
    assert_eq!(watch.take_chunk("10%\n"), Some(10));
    assert_eq!(watch.take_chunk("5%\n"), None);
    assert_eq!(watch.take_chunk("still 10%\n"), None);
    assert_eq!(watch.take_chunk("error: disk full\n"), None);
    assert_eq!(watch.last_progress(), 10);
    assert_eq!(
        watch.finish("org.a.B", false),
        InstallEvent::Done { success: false, message: "error: disk full".into() }
    );
    assert_eq!(
        watch.finish("org.a.B", true),
        InstallEvent::Done { success: true, message: "org.a.B installed".into() }
    );
    let quiet = InstallWatch::new();
    assert_eq!(
        quiet.finish("x", false),
        InstallEvent::Done { success: false, message: "x: install failed".into() }
    );
}

#[test]
fn install_watch_keeps_the_last_four_kib() {
    let mut watch = InstallWatch::new();
    let chunk = "a".repeat(5000);
    assert_eq!(watch.take_chunk(&chunk), None);
    assert_eq!(watch.tail().len(), 5000);
    assert_eq!(watch.take_chunk(&chunk), None);
    assert_eq!(watch.tail().len(), 4096);
    let wide = InstallWatch::new();
    // Keeping the last 4096 bytes would split the two-byte character.
    let odd = format!("{}é{}", "a".repeat(5000), "a".repeat(4095));
    assert!(!wide.can_take(&odd));
    let fine = format!("{}é{}", "a".repeat(5000), "a".repeat(4094));
    assert!(wide.can_take(&fine));
}
