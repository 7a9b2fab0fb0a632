//! Gamepad input: buttons, d-pad and left-stick motion become high-level
//! navigation events, so keyboard and controller share one navigation path.
//!
//! The caller polls the gamepad backend and the clock; the functions here
//! decide which navigation events a pad event or the passage of time emits,
//! and keep the held-direction state used for auto-repeat.
use vstd::prelude::*;

verus! {

#[derive(Debug, Clone, Copy, PartialEq, Eq, Structural)]
pub enum NavEvent {
    Up,
    Down,
    Left,
    Right,
    /// A / Enter — activate the focused element.
    Confirm,
    /// B / Escape — dismiss, go back.
    Back,
    /// RB — next tab.
    TabNext,
    /// LB — previous tab.
    TabPrev,
    /// Start — contextual menu.
    Menu,
}

/// Delay before a held direction starts repeating, in milliseconds.
pub const REPEAT_DELAY_MS: u64 = 400;

/// Interval between repeats of a held direction, in milliseconds.
pub const REPEAT_INTERVAL_MS: u64 = 120;

/// Pause between two polls of the gamepad backend, in milliseconds.
pub const POLL_INTERVAL_MS: u64 = 4;

/// `ms` milliseconds after `now` on the host's millisecond clock (the
/// clock's last reading when that cannot be represented).
pub open spec fn after(now: u64, ms: u64) -> u64 {
    if now + ms <= u64::MAX {
        (now + ms) as u64
    } else {
        u64::MAX
    }
}

fn after_exec(now: u64, ms: u64) -> (r: u64)
    ensures
        r == after(now, ms),
{
    if now <= u64::MAX - ms {
        now + ms
    } else {
        u64::MAX
    }
}

/// A held direction: the direction, when it next fires (milliseconds on
/// the host's clock), and whether it is already repeating.
pub type Held = Option<(NavEvent, u64, bool)>;

/// Whether the held state is this direction.
pub open spec fn holds(h: Held, dir: NavEvent) -> bool {
    h matches Some((d, _, _)) && d == dir
}

/// Register a fresh direction hold at `now_ms` and emit the initial event:
/// the first repeat is due [`REPEAT_DELAY_MS`] later. Re-registering the
/// same direction (stick jitter) keeps the existing repeat schedule.
pub fn hold(held: &mut Held, dir: NavEvent, now_ms: u64) -> (r: Option<NavEvent>)
    ensures
        holds(*old(held), dir) ==> r is None && *final(held) == *old(held),
        !holds(*old(held), dir) ==> r == Some(dir) && *final(held) == Some(
            (dir, after(now_ms, REPEAT_DELAY_MS), false),
        ),
{
    match held {
        Some((current, _, _)) => {
            if *current == dir {
                return None;
            }
        },
        None => {},
    }
    *held = Some((dir, after_exec(now_ms, REPEAT_DELAY_MS), false));
    Some(dir)
}

/// The gamepad buttons navigation reads.
#[derive(Debug, Clone, Copy, PartialEq, Eq, Structural)]
pub enum PadButton {
    South,
    East,
    RightTrigger,
    LeftTrigger,
    Start,
    DPadUp,
    DPadDown,
    DPadLeft,
    DPadRight,
    Other,
}

/// A gamepad event. `Stick` carries the direction the left stick points
/// after the change (None inside the deadzone).
#[derive(Debug, Clone, Copy, PartialEq, Eq, Structural)]
pub enum PadEvent {
    Pressed(PadButton),
    Released(PadButton),
    Stick(Option<NavEvent>),
    Connected,
    Disconnected,
    Other,
}

/// The d-pad button's direction.
pub open spec fn dpad_dir(b: PadButton) -> Option<NavEvent> {
    match b {
        PadButton::DPadUp => Some(NavEvent::Up),
        PadButton::DPadDown => Some(NavEvent::Down),
        PadButton::DPadLeft => Some(NavEvent::Left),
        PadButton::DPadRight => Some(NavEvent::Right),
        _ => None,
    }
}

/// The event a non-directional button press emits.
pub open spec fn button_nav(b: PadButton) -> Option<NavEvent> {
    match b {
        PadButton::South => Some(NavEvent::Confirm),
        PadButton::East => Some(NavEvent::Back),
        PadButton::RightTrigger => Some(NavEvent::TabNext),
        PadButton::LeftTrigger => Some(NavEvent::TabPrev),
        PadButton::Start => Some(NavEvent::Menu),
        _ => None,
    }
}

/// What one gamepad event does at `now_ms`: `post` and `r` are the held
/// direction and the emitted event after `event` on `held` (see
/// [`pad_event`]).
pub open spec fn pad_step(held: Held, event: PadEvent, now_ms: u64, post: Held, r: Option<NavEvent>) -> bool {
    match event {
        PadEvent::Pressed(b) => match dpad_dir(b) {
            Some(dir) => (holds(held, dir) ==> r is None && post == held) && (
            !holds(held, dir) ==> r == Some(dir) && post == Some(
                (dir, after(now_ms, REPEAT_DELAY_MS), false),
            )),
            None => r == button_nav(b) && post == held,
        },
        PadEvent::Released(b) => r is None && if dpad_dir(b) is Some {
            post is None
        } else {
            post == held
        },
        PadEvent::Stick(Some(dir)) => (holds(held, dir) ==> r is None && post
            == held) && (!holds(held, dir) ==> r == Some(dir) && post == Some(
            (dir, after(now_ms, REPEAT_DELAY_MS), false),
        )),
        PadEvent::Stick(None) => r is None && post is None,
        PadEvent::Disconnected => r is None && post is None,
        _ => r is None && post == held,
    }
}

/// What one gamepad event emits, and how it changes the held direction:
/// buttons map to their events; a d-pad press or a stick direction starts a
/// hold (see [`hold`]); releasing the d-pad, centering the stick or losing
/// the pad ends it.
pub fn pad_event(held: &mut Held, event: PadEvent, now_ms: u64) -> (r: Option<NavEvent>)
    ensures
        pad_step(*old(held), event, now_ms, *final(held), r),
{
    match event {
        PadEvent::Pressed(b) => match b {
            PadButton::South => Some(NavEvent::Confirm),
            PadButton::East => Some(NavEvent::Back),
            PadButton::RightTrigger => Some(NavEvent::TabNext),
            PadButton::LeftTrigger => Some(NavEvent::TabPrev),
            PadButton::Start => Some(NavEvent::Menu),
            PadButton::DPadUp => hold(held, NavEvent::Up, now_ms),
            PadButton::DPadDown => hold(held, NavEvent::Down, now_ms),
            PadButton::DPadLeft => hold(held, NavEvent::Left, now_ms),
            PadButton::DPadRight => hold(held, NavEvent::Right, now_ms),
            PadButton::Other => None,
        },
        PadEvent::Released(b) => {
            match b {
                PadButton::DPadUp | PadButton::DPadDown | PadButton::DPadLeft
                | PadButton::DPadRight => {
                    *held = None;
                },
                _ => {},
            }
            None
        },
        PadEvent::Stick(Some(dir)) => hold(held, dir, now_ms),
        PadEvent::Stick(None) => {
            *held = None;
            None
        },
        PadEvent::Disconnected => {
            *held = None;
            None
        },
        _ => None,
    }
}

/// Auto-repeat at `now_ms`: when a direction is held and its deadline has
/// come, emit it again; the next repeat is due [`REPEAT_INTERVAL_MS`]
/// later.
pub fn repeat_tick(held: &mut Held, now_ms: u64) -> (r: Option<NavEvent>)
    ensures
        match *old(held) {
            Some((dir, deadline, _)) => if now_ms >= deadline {
                r == Some(dir) && *final(held) == Some((dir, after(now_ms, REPEAT_INTERVAL_MS), true))
            } else {
                r is None && *final(held) == *old(held)
            },
            None => r is None && *final(held) is None,
        },
{
    match held {
        Some((dir, deadline, _)) => {
            if now_ms >= *deadline {
                let d = *dir;
                *held = Some((d, after_exec(now_ms, REPEAT_INTERVAL_MS), true));
                Some(d)
            } else {
                None
            }
        },
        None => None,
    }
}


/// The d-pad moves the way it points: pressing up emits `Up` and holds
/// `Up` with the first repeat due [`REPEAT_DELAY_MS`] later, and likewise
/// down, left and right; pressing a direction already held emits nothing
/// and keeps the schedule.
pub proof fn dpad_law(held: Held, now_ms: u64, post: Held, r: Option<NavEvent>)
    ensures
        pad_step(held, PadEvent::Pressed(PadButton::DPadUp), now_ms, post, r) ==> if held matches Some((NavEvent::Up, _, _)) {
            r is None && post == held
        } else {
            r == Some(NavEvent::Up) && post == Some((NavEvent::Up, after(now_ms, 400), false))
        },
        pad_step(held, PadEvent::Pressed(PadButton::DPadDown), now_ms, post, r) ==> if held matches Some((NavEvent::Down, _, _)) {
            r is None && post == held
        } else {
            r == Some(NavEvent::Down) && post == Some((NavEvent::Down, after(now_ms, 400), false))
        },
        pad_step(held, PadEvent::Pressed(PadButton::DPadLeft), now_ms, post, r) ==> if held matches Some((NavEvent::Left, _, _)) {
            r is None && post == held
        } else {
            r == Some(NavEvent::Left) && post == Some((NavEvent::Left, after(now_ms, 400), false))
        },
        pad_step(held, PadEvent::Pressed(PadButton::DPadRight), now_ms, post, r) ==> if held matches Some((NavEvent::Right, _, _)) {
            r is None && post == held
        } else {
            r == Some(NavEvent::Right) && post == Some((NavEvent::Right, after(now_ms, 400), false))
        },
        pad_step(held, PadEvent::Released(PadButton::DPadUp), now_ms, post, r) ==> r is None && post is None,
        pad_step(held, PadEvent::Released(PadButton::DPadDown), now_ms, post, r) ==> r is None && post is None,
        pad_step(held, PadEvent::Released(PadButton::DPadLeft), now_ms, post, r) ==> r is None && post is None,
        pad_step(held, PadEvent::Released(PadButton::DPadRight), now_ms, post, r) ==> r is None && post is None,
{
}

/// The buttons: A confirms, B goes back, RB and LB switch tabs, Start opens
/// the menu; none of them touches the held direction.
pub proof fn button_law(held: Held, now_ms: u64, post: Held, r: Option<NavEvent>)
    ensures
        pad_step(held, PadEvent::Pressed(PadButton::South), now_ms, post, r) ==> r == Some(NavEvent::Confirm) && post == held,
        pad_step(held, PadEvent::Pressed(PadButton::East), now_ms, post, r) ==> r == Some(NavEvent::Back) && post == held,
        pad_step(held, PadEvent::Pressed(PadButton::RightTrigger), now_ms, post, r) ==> r == Some(NavEvent::TabNext) && post == held,
        pad_step(held, PadEvent::Pressed(PadButton::LeftTrigger), now_ms, post, r) ==> r == Some(NavEvent::TabPrev) && post == held,
        pad_step(held, PadEvent::Pressed(PadButton::Start), now_ms, post, r) ==> r == Some(NavEvent::Menu) && post == held,
        pad_step(held, PadEvent::Pressed(PadButton::Other), now_ms, post, r) ==> r is None && post == held,
{
}

} // verus!
