use silverdeck::system::{
    parse_wifi_list, parse_wpctl_volume, split_terse, volume_arg, Audio, FakeRunner, Network, UpdateState,
    Updates,
};

#[test]
fn parses_and_ranks_wifi_list() {
    let out = "yes:87:WPA2:HomeNet\nno:92:WPA2:HomeNet\nno:55:--:CoffeeShop\nno:70:WPA1 WPA2:Neighbor\nno:40::\n";
    let networks = parse_wifi_list(out);
    assert_eq!(networks.len(), 3);
    // Connected network first even though another AP is stronger.
    assert_eq!(networks[0].ssid, "HomeNet");
    assert!(networks[0].connected);
    assert_eq!(networks[0].signal, 92);
    assert_eq!(networks[1].ssid, "Neighbor");
    assert!(networks[1].secured);
    assert!(!networks[2].secured);
}

#[test]
fn terse_split_honors_escaped_colons() {
    let fields = split_terse(r"no:50:WPA2:my\:net", 4);
    assert_eq!(fields[3], "my:net");
}

#[test]
fn parses_wpctl_volume() {
    assert_eq!(volume_of(parse_wpctl_volume("Volume: 0.55\n")), Some((55, false)));
    assert_eq!(volume_of(parse_wpctl_volume("Volume: 1.00 [MUTED]\n")), Some((100, true)));
    assert_eq!(volume_of(parse_wpctl_volume("nonsense")), None);
}

/// The host's conversion of a volume reading: the number as `f32`, times
/// 100, rounded and clamped.
fn volume_of(reading: Option<(String, bool)>) -> Option<(u8, bool)> {
    let (number, muted) = reading?;
    let value: f32 = number.parse().ok()?;
    Some(((value * 100.0).round().clamp(0.0, 100.0) as u8, muted))
}

#[test]
fn volume_reading_keeps_the_number_as_written() {
    assert_eq!(parse_wpctl_volume("  Volume: 1e-2\n"), Some(("1e-2".to_string(), false)));
    assert_eq!(parse_wpctl_volume("Volume: inf [MUTED]"), Some(("inf".to_string(), true)));
    assert_eq!(parse_wpctl_volume("Volume:"), None);
}

#[test]
fn wifi_connect_passes_password() {
    let mut runner =
        FakeRunner::new().expect(&["nmcli", "device", "wifi", "connect"], Ok(String::new()));
    Network(&mut runner).connect("HomeNet", Some("hunter2")).unwrap();
    let calls = &runner.calls;
    assert_eq!(
        calls[0],
        ["nmcli", "device", "wifi", "connect", "HomeNet", "password", "hunter2"]
    );
}

#[test]
fn update_state_disambiguates_failed() {
    let mut runner = FakeRunner::new()
        .expect(&["systemctl", "is-active"], Err("inactive".to_string()))
        .expect(&["systemctl", "is-failed"], Ok("failed\n".into()));
    assert_eq!(Updates(&mut runner).state(), UpdateState::Failed);
}

#[test]
fn update_state_running_and_idle() {
    let mut runner = FakeRunner::new().expect(&["systemctl", "is-active"], Ok("activating\n".into()));
    assert_eq!(Updates(&mut runner).state(), UpdateState::Running);
    let mut runner = FakeRunner::new()
        .expect(&["systemctl", "is-active"], Err("inactive".to_string()))
        .expect(&["systemctl", "is-failed"], Err("inactive".to_string()));
    assert_eq!(Updates(&mut runner).state(), UpdateState::Idle);
}

#[test]
fn fake_runner_rejects_unexpected_commands() {
    let mut runner = FakeRunner::new();
    let result = Network(&mut runner).wifi_enabled();
    assert_eq!(result, Err(r#"unexpected command: ["nmcli", "radio", "wifi"]"#.to_string()));
    assert_eq!(runner.calls.len(), 1);
}

#[test]
fn wifi_radio_and_status_read_nmcli() {
    let mut runner = FakeRunner::new()
        .expect(&["nmcli", "radio", "wifi"], Ok("enabled\n".into()))
        .expect(
            &["nmcli", "-t", "-f", "TYPE,STATE,CONNECTION", "device"],
            Ok("ethernet:unavailable:\nwifi:connected:MyNet\n".into()),
        );
    let mut net = Network(&mut runner);
    assert_eq!(net.wifi_enabled(), Ok(true));
    assert_eq!(net.status(), Ok("wifi: MyNet (connected)".to_string()));
}

#[test]
fn volume_is_set_as_a_fraction() {
    assert_eq!(volume_arg(55), "0.55");
    assert_eq!(volume_arg(100), "1.00");
    assert_eq!(volume_arg(250), "1.00");
    assert_eq!(volume_arg(7), "0.07");
    let mut runner = FakeRunner::new().expect(&["wpctl", "set-volume"], Ok(String::new()));
    Audio(&mut runner).set_volume(30).unwrap();
    assert_eq!(runner.calls[0], ["wpctl", "set-volume", "@DEFAULT_AUDIO_SINK@", "0.30"]);
}

#[test]
fn volume_reads_muted_sink() {
    let mut runner = FakeRunner::new()
        .expect(&["wpctl", "get-volume"], Ok("Volume: 0.40 [MUTED]\n".into()));
    assert_eq!(Audio(&mut runner).volume(), Ok(("0.40".to_string(), true)));
}
