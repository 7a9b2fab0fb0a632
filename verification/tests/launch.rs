use silverdeck::games::LaunchSpec;
use silverdeck::launch::{
    build_command, count_foreign_windows, is_foreign_window, needs_window_tracking, session_success,
    Gamescope, LaunchOptions, WindowNode,
};

#[test]
fn steam_launch_is_a_url_invocation() {
    let argv = build_command(&LaunchSpec::SteamAppId(620), &LaunchOptions::default(), false);
    assert_eq!(argv, ["steam", "steam://rungameid/620"]);
}

#[test]
fn gamescope_wraps_direct_commands() {
    let opts = LaunchOptions {
        gamescope: Some(Gamescope { width: 1920, height: 1080, fps_limit: Some(60) }),
    };
    let argv = build_command(&LaunchSpec::FlatpakRef("org.example.Game".into()), &opts, false);
    assert_eq!(
        argv,
        [
            "gamescope",
            "-W",
            "1920",
            "-H",
            "1080",
            "-r",
            "60",
            "--fullscreen",
            "--",
            "flatpak",
            "run",
            "org.example.Game"
        ]
    );
}

#[test]
fn gamescope_never_wraps_steam_urls() {
    let opts = LaunchOptions {
        gamescope: Some(Gamescope { width: 1280, height: 800, fps_limit: None }),
    };
    let argv = build_command(&LaunchSpec::SteamAppId(620), &opts, false);
    assert_eq!(argv[0], "steam");
}

#[test]
fn heroic_uses_flatpak_when_not_native() {
    let argv = build_command(
        &LaunchSpec::Heroic { runner: "legendary".into(), id: "Fortnite".into() },
        &LaunchOptions::default(),
        false,
    );
    assert_eq!(argv[0], "flatpak");
    assert!(argv.last().unwrap().starts_with("heroic://launch/legendary/"));
    let native = build_command(
        &LaunchSpec::Heroic { runner: "gog".into(), id: "42".into() },
        &LaunchOptions::default(),
        true,
    );
    assert_eq!(native[0], "heroic");
}

#[test]
fn session_success_rules() {
    let steam = LaunchSpec::SteamAppId(1);
    let cmd = LaunchSpec::Command(vec!["x".into()]);
    assert!(needs_window_tracking(&steam));
    assert!(!needs_window_tracking(&cmd));
    assert!(session_success(&steam, false, true));
    assert!(!session_success(&steam, false, false));
    assert!(!session_success(&cmd, false, true));
    assert!(session_success(&cmd, true, false));
}

fn leaf(pid: bool, app_id: Option<&str>, class: bool) -> WindowNode {
    WindowNode {
        has_pid: pid,
        app_id: app_id.map(|s| s.to_string()),
        has_class: class,
        nodes: Vec::new(),
        floating_nodes: Vec::new(),
    }
}

#[test]
fn foreign_windows_are_counted_across_the_tree() {
    assert!(is_foreign_window(true, Some("steam"), false));
    assert!(!is_foreign_window(true, Some("silverdeck-ui"), false));
    assert!(is_foreign_window(true, None, true));
    assert!(!is_foreign_window(false, Some("x"), true));
    let tree = WindowNode {
        has_pid: false,
        app_id: None,
        has_class: false,
        nodes: vec![
            leaf(true, Some("silverdeck-ui"), false),
            WindowNode {
                has_pid: false,
                app_id: None,
                has_class: false,
                nodes: vec![leaf(true, Some("game"), false)],
                floating_nodes: vec![leaf(true, None, true)],
            },
        ],
        floating_nodes: vec![leaf(false, Some("ghost"), false)],
    };
    assert_eq!(count_foreign_windows(&tree), 2);
}
