use std::path::Path;

use silverdeck::desktop::{parse_exec, parse_game_entry, scan_entries, DesktopEntry, DesktopSource};
use silverdeck::games::{LaunchSpec, SourceKind};
use silverdeck::heroic::{heroic_files, root_games, scan_gog, scan_legendary, scan_sideload, HeroicSource};
use silverdeck::json::JsonValue;
use silverdeck::paths::{env_paths, home_dir, join, pick_present};
use silverdeck::steam::{artwork_for, steam_games, SteamApp, SteamSource};

#[test]
fn exec_parsing_handles_quotes_and_field_codes() {
    assert_eq!(
        parse_exec(r#""/opt/My Game/run" --fullscreen %f"#),
        vec!["/opt/My Game/run".to_owned(), "--fullscreen".to_owned()]
    );
    assert_eq!(parse_exec("game %%stuff"), vec!["game", "%stuff"]);
}

#[test]
fn exec_parsing_keeps_empty_quoted_arguments_and_escapes() {
    assert_eq!(parse_exec(r#"run "" "a \"b\"""#), vec!["run", "", "a \"b\""]);
    assert_eq!(parse_exec("  spaced\tout  "), vec!["spaced", "out"]);
    assert!(parse_exec("%U").is_empty());
}

fn files(list: &[(&str, &str)]) -> Vec<(String, String)> {
    list.iter().map(|(p, t)| (p.to_string(), t.to_string())).collect()
}

#[test]
fn finds_native_game_and_skips_non_games() {
    let found = scan_entries(&files(&[
        (
            "/apps/supertux2.desktop",
            "[Desktop Entry]\nType=Application\nName=SuperTux 2\nExec=supertux2 %U\nCategories=Game;ArcadeGame;\n",
        ),
        (
            "/apps/editor.desktop",
            "[Desktop Entry]\nType=Application\nName=Editor\nExec=editor\nCategories=Utility;\n",
        ),
        (
            "/apps/hidden-game.desktop",
            "[Desktop Entry]\nType=Application\nName=Hidden\nExec=hidden\nCategories=Game;\nNoDisplay=true\n",
        ),
    ]));
    let games: Vec<_> = found.into_iter().map(|(g, _)| g).collect();
    assert_eq!(games.len(), 1);
    assert_eq!(games[0].title, "SuperTux 2");
    assert_eq!(games[0].source, SourceKind::Desktop);
    assert_eq!(games[0].launch, LaunchSpec::Command(vec!["supertux2".into()]));
}

#[test]
fn flatpak_export_becomes_flatpak_game() {
    let path = "/tmp/x/flatpak/exports/share/applications/org.supertuxproject.SuperTux.desktop";
    let (game, icons) = parse_game_entry(
        path,
        "[Desktop Entry]\nType=Application\nName=SuperTux\nExec=/usr/bin/flatpak run --branch=stable org.supertuxproject.SuperTux\nCategories=Game;\n",
    )
    .unwrap();
    assert_eq!(game.source, SourceKind::Flatpak);
    assert_eq!(game.id, "flatpak:org.supertuxproject.SuperTux");
    assert_eq!(game.launch, LaunchSpec::FlatpakRef("org.supertuxproject.SuperTux".into()));
    assert_eq!(icons.len(), 5);
    assert_eq!(
        icons[0],
        "/tmp/x/flatpak/exports/share/icons/hicolor/512x512/apps/org.supertuxproject.SuperTux.png"
    );
    assert_eq!(
        icons[4],
        "/tmp/x/flatpak/exports/share/icons/hicolor/scalable/apps/org.supertuxproject.SuperTux.svg"
    );
}

#[test]
fn steam_shortcuts_are_skipped() {
    let found = scan_entries(&files(&[(
        "/apps/Portal 2.desktop",
        "[Desktop Entry]\nType=Application\nName=Portal 2\nExec=steam steam://rungameid/620\nCategories=Game;\n",
    )]));
    assert!(found.is_empty());
}

#[test]
fn only_desktop_files_and_main_group_are_read() {
    let text = "[Desktop Entry]\nType=Application\nName=Game\nName[de]=Spiel\nExec=game\nCategories=Game\nIcon=/icons/game.png\n[Desktop Action x]\nName=Other\n";
    assert!(scan_entries(&files(&[("/apps/game.txt", text)])).is_empty());
    let found = scan_entries(&files(&[("/apps/game.desktop", text)]));
    assert_eq!(found.len(), 1);
    assert_eq!(found[0].0.id, "desktop:game");
    assert_eq!(found[0].0.title, "Game");
    assert_eq!(found[0].1, vec!["/icons/game.png".to_string()]);
    let entry = DesktopEntry::parse(text).unwrap();
    assert_eq!(entry.get("Name"), Some("Game".to_string()));
    assert_eq!(entry.entry_type, Some("Application".to_string()));
    assert!(DesktopEntry::parse("Name=x\n").is_none());
    assert!(!entry.bool_true("Hidden"));
}

#[test]
fn artwork_is_the_first_present_candidate() {
    let c = vec!["a".to_string(), "b".to_string(), "c".to_string()];
    assert_eq!(pick_present(&c, &vec![false, true, true]), Some("b".to_string()));
    assert_eq!(pick_present(&c, &vec![false, false, false]), None);
}

#[test]
fn paths_join_and_env_split() {
    assert_eq!(join("/home/deck", ".config/heroic"), "/home/deck/.config/heroic");
    assert_eq!(join("/", "x"), "/x");
    assert_eq!(join("/a", "/abs"), "/abs");
    assert_eq!(env_paths(Some("/a::/b")), Some(vec!["/a".to_string(), "".to_string(), "/b".to_string()]));
    assert_eq!(env_paths(None), None);
    assert_eq!(home_dir(None), "/home/deck");
    let d = DesktopSource::from_env(None, Some("/home/u"));
    assert_eq!(d.dirs()[1], "/home/u/.local/share/applications");
    assert_eq!(d.dirs().len(), 4);
    let d = DesktopSource::from_env(Some("/x:/y"), Some("/home/u"));
    assert_eq!(d.dirs(), &vec!["/x".to_string(), "/y".to_string()]);
}

fn obj(members: Vec<(&str, JsonValue)>) -> JsonValue {
    JsonValue::Object(members.into_iter().map(|(k, v)| (k.to_string(), v)).collect())
}

fn text(s: &str) -> JsonValue {
    JsonValue::Text(s.to_string())
}

#[test]
fn scans_all_three_runners() {
    let legendary = obj(vec![(
        "Fortnite",
        obj(vec![("install_path", text("/games/fortnite")), ("title", text("Fortnite"))]),
    )]);
    let gog = obj(vec![(
        "installed",
        JsonValue::Array(vec![obj(vec![
            ("appName", text("1207658924")),
            ("install_path", text("/games/witcher")),
        ])]),
    )]);
    let library = obj(vec![(
        "games",
        JsonValue::Array(vec![obj(vec![("app_name", text("1207658924")), ("title", text("The Witcher"))])]),
    )]);
    let sideload = obj(vec![(
        "games",
        JsonValue::Array(vec![obj(vec![("app_name", text("abc")), ("title", text("Local Build"))])]),
    )]);
    let games = root_games(Some(&legendary), Some(&gog), Some(&library), Some(&sideload));
    let mut ids: Vec<_> = games.iter().map(|g| g.id.as_str()).collect();
    ids.sort();
    assert_eq!(ids, ["heroic:gog:1207658924", "heroic:legendary:Fortnite", "heroic:sideload:abc"]);
    let witcher = games.iter().find(|g| g.id.contains("gog")).unwrap();
    assert_eq!(witcher.title, "The Witcher");
}

#[test]
fn gog_title_falls_back_to_app_name_without_library_cache() {
    let gog = obj(vec![("installed", JsonValue::Array(vec![obj(vec![("appName", text("42"))])]))]);
    let games = scan_gog(Some(&gog), None);
    assert_eq!(games.len(), 1);
    assert_eq!(games[0].title, "42");
}

#[test]
fn later_library_entries_win_and_unusable_entries_are_skipped() {
    let gog = obj(vec![(
        "installed",
        JsonValue::Array(vec![obj(vec![("appName", text("7"))]), obj(vec![("other", text("x"))])]),
    )]);
    let library = obj(vec![(
        "games",
        JsonValue::Array(vec![
            obj(vec![("app_name", text("7")), ("title", text("Old"))]),
            obj(vec![("app_name", text("7")), ("title", text("New"))]),
        ]),
    )]);
    let games = scan_gog(Some(&gog), Some(&library));
    assert_eq!(games.len(), 1);
    assert_eq!(games[0].title, "New");
    assert_eq!(games[0].launch, LaunchSpec::Heroic { runner: "gog".into(), id: "7".into() });
    let legendary = obj(vec![("NoTitle", obj(vec![]))]);
    assert_eq!(scan_legendary(Some(&legendary))[0].title, "NoTitle");
    assert!(scan_legendary(Some(&JsonValue::Array(vec![]))).is_empty());
    let side = obj(vec![("games", JsonValue::Array(vec![obj(vec![("app_name", text("s"))])]))]);
    assert_eq!(scan_sideload(Some(&side))[0].title, "s");
}

#[test]
fn missing_root_yields_empty() {
    let source = HeroicSource::at(vec!["/nonexistent".into()]);
    let mut games = Vec::new();
    for root in source.roots() {
        // Nothing under a missing root can be read.
        let root_exists = Path::new(root).is_dir();
        assert!(!root_exists);
        games.extend(root_games(None, None, None, None));
    }
    assert!(games.is_empty());
}

#[test]
fn heroic_files_live_under_the_root() {
    let (a, b, c, d) = heroic_files("/r");
    assert_eq!(a, "/r/legendaryConfig/legendary/installed.json");
    assert_eq!(b, "/r/gog_store/installed.json");
    assert_eq!(c, "/r/store_cache/gog_library.json");
    assert_eq!(d, "/r/sideload_apps/library.json");
    let s = HeroicSource::from_env(None, Some("/h"));
    assert_eq!(s.roots()[0], "/h/.config/heroic");
}

#[test]
fn missing_root_is_an_error_not_a_panic() {
    let source = SteamSource::at("/nonexistent/steam");
    let result = match steamlocate::SteamDir::from_dir(Path::new(source.root().unwrap())) {
        Ok(dir) => Ok(steam_games(&dir.path().to_string_lossy(), &Vec::new())),
        Err(_) => Err(source.missing_message()),
    };
    assert!(result.is_err());
    assert_eq!(result.unwrap_err(), "not a Steam dir: /nonexistent/steam");
}

#[test]
fn scans_games_and_filters_runtimes() {
    let apps = vec![
        SteamApp { app_id: 620, name: Some("Portal 2".into()) },
        SteamApp { app_id: 228980, name: Some("Steamworks Common Redistributables".into()) },
        SteamApp { app_id: 1493710, name: Some("Proton Experimental".into()) },
        SteamApp { app_id: 7, name: None },
    ];
    let games = steam_games("/steam", &apps);
    let titles: Vec<_> = games.iter().map(|(g, _)| g.title.as_str()).collect();
    assert_eq!(titles, ["Steam Big Picture", "Portal 2"]);
    let (portal, art) = &games[1];
    assert_eq!(portal.launch, LaunchSpec::SteamAppId(620));
    assert_eq!(portal.id, "steam:620");
    assert_eq!(art[0], "/steam/appcache/librarycache/620/library_600x900.jpg");
    assert_eq!(artwork_for("/steam", 620)[3], "/steam/appcache/librarycache/620_header.jpg");
}

#[test]
fn plain_exec_lines_split_on_blanks() {
    assert_eq!(parse_exec("  game --fullscreen \t -w 3 "), vec!["game", "--fullscreen", "-w", "3"]);
    assert!(parse_exec(" \t ").is_empty());
}

#[test]
fn backslashes_outside_quotes_are_ordinary() {
    assert_eq!(parse_exec(r"run C:\games\x.exe  -v"), vec!["run", r"C:\games\x.exe", "-v"]);
}
