use silverdeck::games::{Game, LaunchSpec};
use silverdeck::input::NavEvent;
use silverdeck::install_ui::{signal_label, Effect, Installer, Screen};
use silverdeck::installer::{Disk, InstallEvent as EngineEvent, Stage};
use silverdeck::launch::SessionEvent;
use silverdeck::library::{fake_games, visible_rows, LibraryAction, LibraryState};
use silverdeck::osk::{keyboard_rows, Key, OskOutcome, OskState};
use silverdeck::settings::{snapshot_from, Row, SettingsAction, SettingsState};
use silverdeck::shell::{Modal, ModalOutcome, PendingAction, Shell, ShellEffect, Tab};
use silverdeck::store::{InstallEvent, StoreCatalog, StoreCategory};
use silverdeck::store_view::{apps_from_catalog, placeholder, visible_range, StoreAction, StoreState};
use silverdeck::system::WifiNetwork;

#[test]
fn osk_types_and_commits() {
    let mut osk = OskState::new();
    assert_eq!(osk.handle_nav(NavEvent::Down), OskOutcome::Open); // row 1: q
    assert_eq!(osk.handle_nav(NavEvent::Confirm), OskOutcome::Open);
    assert_eq!(osk.value, "q");
    // Shift lives on the last row.
    for _ in 0..3 {
        osk.handle_nav(NavEvent::Down);
    }
    assert_eq!(osk.cursor(), (4, 0));
    osk.handle_nav(NavEvent::Confirm);
    assert!(osk.shifted());
    osk.handle_nav(NavEvent::Up);
    osk.handle_nav(NavEvent::Confirm); // 'z' shifted
    assert_eq!(osk.value, "qZ");
    for _ in 0..9 {
        osk.handle_nav(NavEvent::Right);
    }
    osk.handle_nav(NavEvent::Down); // column clamps to the 5-key row
    assert_eq!(osk.cursor(), (4, 4));
    osk.handle_nav(NavEvent::Left); // done
    assert_eq!(osk.handle_nav(NavEvent::Confirm), OskOutcome::Commit("qZ".into()));
}

#[test]
fn osk_back_deletes_then_cancels() {
    let mut osk = OskState::new();
    assert!(osk.handle_key("a", Some("ab")));
    assert!(!osk.handle_key("x", Some("\u{7}")));
    assert!(osk.handle_key("backspace", None));
    assert_eq!(osk.value, "a");
    assert_eq!(osk.handle_nav(NavEvent::Back), OskOutcome::Open);
    assert_eq!(osk.handle_nav(NavEvent::Back), OskOutcome::Cancel);
    assert_eq!(osk.handle_nav(NavEvent::Menu), OskOutcome::Cancel);
    assert_eq!(osk.shown(true), "…");
    osk.value = "abc".into();
    assert_eq!(osk.shown(true), "•••");
    assert_eq!(osk.shown(false), "abc");
}

#[test]
fn osk_layout() {
    let rows = keyboard_rows();
    assert_eq!(rows.len(), 5);
    assert_eq!(rows[1][0], Key::Glyph('q'));
    assert_eq!(rows[4].len(), 5);
    assert_eq!(Key::Glyph('q').label(true), "Q");
    assert_eq!(Key::Backspace.label(false), "⌫");
}

#[test]
fn library_selection_and_launch() {
    let mut lib = LibraryState::default();
    lib.finish_rescan(fake_games());
    assert_eq!(lib.games.len(), 10);
    assert!(matches!(lib.handle_nav(NavEvent::Down), LibraryAction::Nothing));
    assert_eq!(lib.selected, 4);
    lib.handle_nav(NavEvent::Down);
    lib.handle_nav(NavEvent::Down);
    assert_eq!(lib.selected, 9);
    lib.handle_nav(NavEvent::Right);
    assert_eq!(lib.selected, 9);
    match lib.handle_nav(NavEvent::Menu) {
        LibraryAction::Rescan(m) => assert_eq!(m, "gamescope wrapping on"),
        _ => panic!("expected a rescan"),
    }
    assert!(lib.scanning);
    match lib.handle_nav(NavEvent::Menu) {
        LibraryAction::Toast(m) => assert_eq!(m, "gamescope wrapping off"),
        _ => panic!("expected a toast while scanning"),
    }
    lib.handle_nav(NavEvent::Menu);
    lib.finish_rescan(fake_games());
    match lib.handle_nav(NavEvent::Confirm) {
        LibraryAction::Launch(spec, opts) => {
            assert_eq!(spec, LaunchSpec::Command(vec!["sleep".into(), "2".into()]));
            assert_eq!(opts.gamescope.unwrap().width, 1920);
        }
        _ => panic!("expected a launch"),
    }
    assert_eq!(lib.session, Some("Demo Game 9".to_string()));
    assert!(matches!(lib.handle_nav(NavEvent::Confirm), LibraryAction::Nothing));
    assert_eq!(lib.on_session_event(SessionEvent::Exited { success: false }), Some("Demo Game 9 exited with an error".into()));
    assert!(lib.session.is_none());
    lib.finish_rescan(vec![Game::steam(1, "x")]);
    assert_eq!(lib.selected, 0);
    assert_eq!(visible_rows(9, 10), (0, 3));
    assert_eq!(visible_rows(20, 40), (4, 7));
    assert_eq!(visible_rows(39, 40), (7, 10));
}

fn net(ssid: &str, secured: bool, connected: bool) -> WifiNetwork {
    WifiNetwork { ssid: ssid.into(), signal: 50, secured, connected }
}

#[test]
fn settings_rows_and_actions() {
    let mut s = SettingsState::default();
    s.networks = vec![net("A", true, false), net("B", false, true)];
    s.volume = 97;
    assert_eq!(
        s.rows(),
        vec![Row::WifiToggle, Row::Wifi(0), Row::Wifi(1), Row::Volume, Row::Update, Row::Reboot, Row::Poweroff]
    );
    s.selected = 3;
    assert!(matches!(s.handle_nav(NavEvent::Right), SettingsAction::SetVolume(100)));
    assert!(matches!(s.handle_nav(NavEvent::Left), SettingsAction::SetVolume(95)));
    assert_eq!(s.describe(Row::Volume).1, "█████████░ 95%");
    s.selected = 1;
    assert!(matches!(s.handle_nav(NavEvent::Confirm), SettingsAction::AskPassword(x) if x == "A"));
    s.selected = 2;
    assert!(matches!(s.handle_nav(NavEvent::Confirm), SettingsAction::Toast(m) if m == "already connected to B"));
    assert_eq!(s.describe(Row::Wifi(1)), ("  B".to_string(), "signal 50% · connected".to_string()));
    s.selected = 100;
    assert_eq!(s.current_row(), Row::Poweroff);
    assert!(matches!(s.handle_nav(NavEvent::Confirm), SettingsAction::Confirm(t, PendingAction::Poweroff) if t == "Power off the console?"));
    for i in 0..600 {
        s.push_update_line(format!("line {i}"));
    }
    assert_eq!(s.update_log.len(), 500);
    assert_eq!(s.update_log[0], "line 100");
}

#[test]
fn modal_confirm_needs_yes() {
    let mut m = Modal::confirm("Install X?".into(), PendingAction::Install("x".into()));
    assert!(matches!(m.handle_nav(NavEvent::Confirm), ModalOutcome::Close));
    let mut m = Modal::confirm("Install X?".into(), PendingAction::Install("x".into()));
    assert!(matches!(m.handle_nav(NavEvent::Left), ModalOutcome::Nothing));
    assert!(matches!(m.handle_nav(NavEvent::Confirm), ModalOutcome::Install(id) if id == "x"));
    let mut log = Modal::UpdateLog;
    assert!(matches!(log.handle_nav(NavEvent::Confirm), ModalOutcome::Nothing));
    assert!(matches!(log.handle_nav(NavEvent::Back), ModalOutcome::Close));
}

#[test]
fn tabs_cycle_both_ways() {
    assert_eq!(Tab::Library.cycle(1), Tab::Store);
    assert_eq!(Tab::Library.cycle(-1), Tab::Settings);
    assert_eq!(Tab::Settings.cycle(1), Tab::Library);
    assert_eq!(Tab::Store.cycle(3), Tab::Store);
}

#[test]
fn shell_routes_events() {
    let mut shell = Shell::new();
    assert!(matches!(shell.handle_nav(NavEvent::TabPrev), ShellEffect::RefreshSettings));
    assert_eq!(shell.tab, Tab::Settings);
    shell.settings.refreshing = false;
    shell.settings.selected = 2; // the Update row when no networks are listed
    assert!(matches!(shell.handle_nav(NavEvent::Confirm), ShellEffect::StartUpdate));
    assert!(matches!(shell.modal, Some(Modal::UpdateLog)));
    assert!(matches!(shell.handle_nav(NavEvent::Back), ShellEffect::StopUpdate));
    assert!(shell.modal.is_none());
    shell.tab = Tab::Store;
    shell.store.apps = apps_from_catalog(&StoreCatalog {
        categories: vec![StoreCategory { name: "Games".into(), apps: vec!["org.a.Game".into()] }],
    });
    shell.handle_nav(NavEvent::Confirm);
    assert!(matches!(&shell.modal, Some(Modal::Confirm { title, .. }) if title == "Install Game?"));
    shell.handle_nav(NavEvent::Right);
    assert!(matches!(shell.handle_nav(NavEvent::Confirm), ShellEffect::Install(id) if id == "org.a.Game"));
    assert_eq!(shell.store.status_text("org.a.Game"), "installing 0%");
    shell.library.session = Some("Game".into());
    assert!(matches!(shell.handle_nav(NavEvent::TabNext), ShellEffect::Nothing));
    assert_eq!(shell.tab, Tab::Store);
}

#[test]
fn store_rows_and_install_flow() {
    let catalog = StoreCatalog {
        categories: vec![
            StoreCategory { name: "Games".into(), apps: vec!["org.supertuxproject.SuperTux".into(), "noDots".into()] },
            StoreCategory { name: "Emulators".into(), apps: vec!["org.DolphinEmu.dolphin-emu".into()] },
        ],
    };
    let apps = apps_from_catalog(&catalog);
    assert_eq!(apps.len(), 3);
    assert_eq!(apps[0].name, "SuperTux");
    assert_eq!(apps[1].name, "noDots");
    assert_eq!(apps[2].category, "Emulators");
    assert_eq!(placeholder("a.b.c"), "c");
    let mut store = StoreState::default();
    store.apps = apps;
    store.handle_nav(NavEvent::Down);
    store.handle_nav(NavEvent::Down);
    store.handle_nav(NavEvent::Down);
    assert_eq!(store.selected, 2);
    store.set_progress("org.DolphinEmu.dolphin-emu", 0);
    assert!(matches!(store.handle_nav(NavEvent::Confirm), StoreAction::Nothing));
    assert_eq!(store.on_install_event("org.DolphinEmu.dolphin-emu", InstallEvent::Progress(40)), None);
    assert_eq!(store.status_text("org.DolphinEmu.dolphin-emu"), "installing 40%");
    let done = store.on_install_event(
        "org.DolphinEmu.dolphin-emu",
        InstallEvent::Done { success: true, message: "ok".into() },
    );
    assert_eq!(done, Some(("ok".to_string(), false, true)));
    assert_eq!(store.status_text("org.DolphinEmu.dolphin-emu"), "installed ✓");
    assert!(matches!(store.handle_nav(NavEvent::Confirm), StoreAction::Toast(m) if m == "dolphin-emu is already installed"));
    assert!(matches!(store.handle_nav(NavEvent::Menu), StoreAction::Confirm(t, PendingAction::Uninstall(_)) if t == "Uninstall dolphin-emu?"));
    store.mark_removed("org.DolphinEmu.dolphin-emu");
    assert_eq!(store.status_text("org.DolphinEmu.dolphin-emu"), "A to install");
    assert_eq!(visible_range(2, 3), (0, 3));
    assert_eq!(visible_range(10, 20), (6, 14));
}

#[test]
fn installer_flow() {
    let mut ins = Installer::new();
    assert!(matches!(ins.handle_nav(NavEvent::Confirm), Effect::CheckOnline));
    assert!(matches!(ins.after_probe(true), Effect::LoadDisks));
    assert_eq!(ins.screen, Screen::Disks);
    ins.finish_load(Ok(vec![Disk { path: "/dev/sda".into(), size: "2T".into(), model: "".into() }]));
    ins.handle_nav(NavEvent::Confirm);
    assert_eq!(ins.screen, Screen::Confirm);
    assert!(matches!(ins.handle_nav(NavEvent::Confirm), Effect::Nothing));
    assert_eq!(ins.screen, Screen::Disks);
    ins.handle_nav(NavEvent::Confirm);
    ins.handle_nav(NavEvent::Right);
    assert!(matches!(ins.handle_nav(NavEvent::Confirm), Effect::Install(p) if p == "/dev/sda"));
    assert_eq!(ins.screen, Screen::Progress);
    assert!(matches!(ins.handle_nav(NavEvent::Back), Effect::Nothing));
    ins.on_install_event(EngineEvent::Stage(Stage::Pacstrap));
    ins.on_install_event(EngineEvent::Line("   ".into()));
    ins.on_install_event(EngineEvent::Line("  installing mesa  ".into()));
    assert_eq!(ins.last_line, "installing mesa");
    ins.on_install_event(EngineEvent::Finished(Err("boom".into())));
    assert_eq!(ins.screen, Screen::Failed);
    assert_eq!(ins.failed_tail, vec!["installing mesa".to_string()]);
    ins.handle_nav(NavEvent::Down);
    ins.handle_nav(NavEvent::Confirm);
    assert!(ins.details);
    ins.handle_nav(NavEvent::Down);
    assert!(matches!(ins.handle_nav(NavEvent::Confirm), Effect::PowerOff));
}

#[test]
fn installer_network_screen() {
    let mut ins = Installer::new();
    assert!(matches!(ins.after_probe(false), Effect::ScanNetworks));
    ins.finish_scan(vec![net("Home", true, false), net("Cafe", false, false)]);
    ins.handle_nav(NavEvent::Down);
    ins.handle_nav(NavEvent::Confirm);
    assert!(ins.osk.is_some());
    ins.handle_key("h", Some("pw"));
    // Done is on the last row, fourth key.
    for _ in 0..4 {
        ins.handle_nav(NavEvent::Down);
    }
    for _ in 0..3 {
        ins.handle_nav(NavEvent::Right);
    }
    assert!(matches!(ins.handle_nav(NavEvent::Confirm), Effect::Connect(s, Some(p)) if s == "Home" && p == "pw"));
    assert!(ins.osk.is_none());
    assert!(matches!(ins.finish_connect(Ok("Home".into())), Effect::CheckOnline));
    assert_eq!(ins.toast, Some(("Connected to Home".to_string(), false)));
    assert_eq!(signal_label(&WifiNetwork { ssid: "x".into(), signal: 34, secured: true, connected: false }), "good · secured");
}

#[test]
fn snapshot_uses_defaults_for_unreadable_state() {
    let net = WifiNetwork { ssid: "Home".into(), signal: 70, secured: true, connected: false };
    let on = snapshot_from(Ok(true), Some(Ok(vec![net.clone()])), Ok("wifi: Home".into()), Ok((35, true)));
    assert!(on.wifi_enabled);
    assert_eq!(on.networks, vec![net.clone()]);
    assert_eq!(on.net_status, "wifi: Home");
    assert_eq!((on.volume, on.muted), (35, true));

    let broken = snapshot_from(Err("no nmcli".into()), None, Err("no nmcli".into()), Err("no wpctl".into()));
    assert!(!broken.wifi_enabled);
    assert!(broken.networks.is_empty());
    assert_eq!(broken.net_status, "");
    assert_eq!((broken.volume, broken.muted), (0, false));

    let scan_failed = snapshot_from(Ok(true), Some(Err("busy".into())), Ok(String::new()), Ok((100, false)));
    assert!(scan_failed.wifi_enabled);
    assert!(scan_failed.networks.is_empty());

    let radio_off = snapshot_from(Ok(false), Some(Ok(vec![net])), Ok(String::new()), Ok((10, false)));
    assert!(radio_off.networks.is_empty());
}

#[test]
fn shell_takes_background_results() {
    let mut shell = Shell::new();
    let catalog = StoreCatalog {
        categories: vec![StoreCategory { name: "Games".into(), apps: vec!["org.example.Game".into()] }],
    };
    shell.on_catalog(Ok((catalog, vec!["org.example.Game".into()])));
    assert_eq!(shell.store.apps.len(), 1);
    assert_eq!(shell.store.installed, vec!["org.example.Game".to_string()]);

    // A removal marks the app uninstalled, says so and scans the library.
    assert!(matches!(shell.on_uninstalled(Ok("org.example.Game".into())), ShellEffect::Rescan));
    assert!(shell.store.installed.is_empty());
    assert_eq!(shell.toast, Some(("org.example.Game removed".to_string(), false)));
    // A scan is under way, so a second one is not asked for.
    assert!(matches!(
        shell.on_install_event("org.example.Game", InstallEvent::Done { success: true, message: "installed".into() }),
        ShellEffect::Nothing
    ));
    assert_eq!(shell.store.installed, vec!["org.example.Game".to_string()]);
    assert_eq!(shell.toast, Some(("installed".to_string(), false)));

    shell.library.finish_rescan(Vec::new());
    assert!(matches!(
        shell.on_install_event("org.example.Game", InstallEvent::Progress(40)),
        ShellEffect::Nothing
    ));
    assert!(matches!(
        shell.on_install_event("org.example.Game", InstallEvent::Done { success: false, message: "no space".into() }),
        ShellEffect::Nothing
    ));
    assert_eq!(shell.toast, Some(("no space".to_string(), true)));
    assert!(shell.store.installing.iter().all(|(id, _)| id != "org.example.Game"));

    assert!(matches!(shell.on_uninstalled(Err("busy".into())), ShellEffect::Nothing));
    assert_eq!(shell.toast, Some(("busy".to_string(), true)));

    shell.on_catalog(Err("offline".into()));
    assert_eq!(shell.store.load_error, Some("offline".to_string()));
}

#[test]
fn shell_reports_network_results_and_refreshes() {
    let mut shell = Shell::new();
    assert!(matches!(shell.on_connected("Home", Ok(())), ShellEffect::RefreshSettings));
    assert_eq!(shell.toast, Some(("connected to Home".to_string(), false)));
    // A refresh is already running: no second one.
    assert!(matches!(shell.on_wifi_switched(Err("rfkill".into())), ShellEffect::Nothing));
    assert_eq!(shell.toast, Some(("rfkill".to_string(), true)));
    assert!(matches!(shell.on_connected("Home", Err("wrong password".into())), ShellEffect::Nothing));
    assert_eq!(shell.toast, Some(("wrong password".to_string(), true)));
}

#[test]
fn shell_session_errors_name_the_game() {
    let mut shell = Shell::new();
    shell.library.session = Some("Portal".into());
    shell.on_session_event(SessionEvent::Exited { success: false });
    assert_eq!(shell.library.session, None);
    assert_eq!(shell.toast, Some(("Portal exited with an error".to_string(), true)));
}

#[test]
fn installer_tail_keeps_the_last_200_lines() {
    let mut ins = Installer::new();
    for i in 0..205 {
        ins.on_install_event(EngineEvent::Line(format!("  line {i}  ")));
    }
    assert_eq!(ins.tail.len(), 200);
    assert_eq!(ins.tail[0], "line 5");
    assert_eq!(ins.last_line, "line 204");
    ins.on_install_event(EngineEvent::Finished(Err("disk vanished".into())));
    assert_eq!(ins.tail.len(), 200);
    assert_eq!(ins.failed_tail.len(), 200);
    assert_eq!(ins.screen, Screen::Failed);
}
