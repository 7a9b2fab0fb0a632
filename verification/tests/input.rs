use silverdeck::input::{hold, pad_event, repeat_tick, NavEvent, PadButton, PadEvent};

#[test]
fn hold_emits_once_until_direction_changes() {
    let mut held = None;
    assert_eq!(hold(&mut held, NavEvent::Down, 1_000), Some(NavEvent::Down));
    assert_eq!(held, Some((NavEvent::Down, 1_400, false)));
    assert_eq!(hold(&mut held, NavEvent::Down, 1_100), None);
    assert_eq!(held, Some((NavEvent::Down, 1_400, false)));
    assert_eq!(hold(&mut held, NavEvent::Up, 1_200), Some(NavEvent::Up));
    assert_eq!(held, Some((NavEvent::Up, 1_600, false)));
}

#[test]
fn buttons_map_to_navigation() {
    let mut held = None;
    assert_eq!(pad_event(&mut held, PadEvent::Pressed(PadButton::South), 0), Some(NavEvent::Confirm));
    assert_eq!(pad_event(&mut held, PadEvent::Pressed(PadButton::East), 0), Some(NavEvent::Back));
    assert_eq!(pad_event(&mut held, PadEvent::Pressed(PadButton::RightTrigger), 0), Some(NavEvent::TabNext));
    assert_eq!(pad_event(&mut held, PadEvent::Pressed(PadButton::LeftTrigger), 0), Some(NavEvent::TabPrev));
    assert_eq!(pad_event(&mut held, PadEvent::Pressed(PadButton::Start), 0), Some(NavEvent::Menu));
    assert_eq!(pad_event(&mut held, PadEvent::Pressed(PadButton::Other), 0), None);
    assert!(held.is_none());
}

#[test]
fn dpad_release_and_centered_stick_end_the_hold() {
    let mut held = None;
    assert_eq!(pad_event(&mut held, PadEvent::Pressed(PadButton::DPadLeft), 0), Some(NavEvent::Left));
    assert!(held.is_some());
    assert_eq!(pad_event(&mut held, PadEvent::Released(PadButton::DPadLeft), 0), None);
    assert!(held.is_none());
    assert_eq!(pad_event(&mut held, PadEvent::Stick(Some(NavEvent::Right)), 0), Some(NavEvent::Right));
    // Stick jitter in the same direction keeps the hold without re-emitting.
    assert_eq!(pad_event(&mut held, PadEvent::Stick(Some(NavEvent::Right)), 0), None);
    assert_eq!(pad_event(&mut held, PadEvent::Stick(None), 0), None);
    assert!(held.is_none());
}

#[test]
fn repeat_fires_only_when_due() {
    let mut held = None;
    assert_eq!(repeat_tick(&mut held, 5_000), None);
    hold(&mut held, NavEvent::Down, 1_000);
    assert_eq!(repeat_tick(&mut held, 1_399), None);
    assert_eq!(repeat_tick(&mut held, 1_400), Some(NavEvent::Down));
    assert_eq!(held, Some((NavEvent::Down, 1_520, true)));
    assert_eq!(repeat_tick(&mut held, 1_519), None);
    assert_eq!(repeat_tick(&mut held, 1_521), Some(NavEvent::Down));
    assert_eq!(held, Some((NavEvent::Down, 1_641, true)));
    assert_eq!(pad_event(&mut held, PadEvent::Disconnected, 0), None);
    assert!(held.is_none());
}
