use silverdeck::installer::{
    classify_engine_line, fake_script, install_outcome, line_event, parse_disk_list, Disk,
    EngineLine, InstallEvent, Stage,
};

#[test]
fn parses_disk_list_lines() {
    let disks = parse_disk_list("/dev/vda|12G|\n/dev/nvme0n1|931.5G|Samsung SSD 980\n\n");
    assert_eq!(disks.len(), 2);
    assert_eq!(disks[0].path, "/dev/vda");
    assert_eq!(disks[0].model, "");
    assert_eq!(disks[1].title(), "931.5 GB — Samsung SSD 980");
}

#[test]
fn friendly_sizes() {
    let disk = |size: &str| Disk { path: String::new(), size: size.into(), model: String::new() };
    assert_eq!(disk("931.5G").friendly_size(), "931.5 GB");
    assert_eq!(disk("2T").friendly_size(), "2 TB");
    assert_eq!(disk("").friendly_size(), "");
}

#[test]
fn stage_markers_map() {
    assert_eq!(Stage::from_marker("pacstrap"), Some(Stage::Pacstrap));
    assert_eq!(Stage::from_marker("bogus"), None);
}

#[test]
fn engine_lines_are_classified() {
    assert_eq!(
        classify_engine_line("SILVERBLUE-INSTALL-STEP name= bootloader "),
        EngineLine::Stage(Stage::Bootloader)
    );
    assert_eq!(classify_engine_line("SILVERBLUE-INSTALL-STEP name=bogus"), EngineLine::Marker);
    assert_eq!(classify_engine_line("SILVERBLUE-INSTALL-OK"), EngineLine::Done);
    assert_eq!(classify_engine_line("SILVERBLUE-INSTALL-PROGRESS 5"), EngineLine::Marker);
    assert_eq!(classify_engine_line("==> pacstrap"), EngineLine::Output);
    assert!(matches!(line_event("hello".into()), Some(InstallEvent::Line(l)) if l == "hello"));
    assert!(line_event("SILVERBLUE-INSTALL-OK".into()).is_none());
}

#[test]
fn outcome_needs_the_ok_marker() {
    assert_eq!(install_outcome(Ok((true, true))), Ok(()));
    let stopped = Err("The install script stopped before finishing. No changes may be complete.".to_string());
    assert_eq!(install_outcome(Ok((true, false))), stopped);
    assert_eq!(install_outcome(Ok((false, true))), stopped);
    assert_eq!(install_outcome(Ok((false, false))), stopped);
    assert_eq!(install_outcome(Err("boom".into())), Err("boom".to_string()));
}

#[test]
fn fake_run_script_shape() {
    let ok = fake_script(false);
    assert_eq!(ok.len(), 7 + 40 + 3);
    assert!(matches!(&ok[7], (200, InstallEvent::Line(l)) if l == "(  1/40) installing package-1..."));
    assert!(matches!(&ok[46], (200, InstallEvent::Line(l)) if l == "( 40/40) installing package-40..."));
    assert!(matches!(ok.last(), Some((900, InstallEvent::Finished(Ok(()))))));
    let failing = fake_script(true);
    assert_eq!(failing.len(), 7 + 24 + 2);
    assert!(matches!(failing.last(), Some((0, InstallEvent::Finished(Err(_))))));
}
