//! The GUI installer's screens and their linear flow: Welcome → (Network
//! if offline) → Disks → Confirm → Progress → Done | Failed.
//!
//! Each screen's navigation is decided here; the installer runs the
//! probes, scans and the install itself in the background and reports back.
use vstd::prelude::*;

use crate::input::NavEvent;
use crate::installer::{Disk, InstallEvent, Stage};
use crate::osk::{OskOutcome, OskState};
use crate::system::{strings, wifi_views, WifiNetwork};
use crate::text::{chars_of, concat, decimal, decimal_string, owned, trim, trim_chars, string_of};

verus! {

broadcast use vstd::string::group_string_axioms;

#[derive(Debug, Clone, Copy, PartialEq, Eq, Structural)]
pub enum Screen {
    Welcome,
    Network,
    Disks,
    Confirm,
    Progress,
    Done,
    Failed,
}

/// Output lines the Failed screen can show.
pub const TAIL_LINES: usize = 200;

/// Work the installer asks its host to do.
pub enum Effect {
    Nothing,
    /// Probe connectivity, then continue to the drives or the network screen.
    CheckOnline,
    PowerOff,
    Reboot,
    /// List the drives again.
    LoadDisks,
    /// Scan for Wi-Fi networks.
    ScanNetworks,
    /// Join a network (with a password for secured ones).
    Connect(String, Option<String>),
    /// Run the install onto this drive.
    Install(String),
}

/// A copy of a drive entry.
pub fn copy_disk(d: &Disk) -> (r: Disk)
    ensures
        r.record() == d.record(),
{
    Disk { path: d.path.clone(), size: d.size.clone(), model: d.model.clone() }
}

/// The installer's state: the current screen and each screen's own.
pub struct Installer {
    pub screen: Screen,
    /// Focused Welcome button: 0 Install, 1 Power off.
    pub welcome_selected: usize,
    pub networks: Vec<WifiNetwork>,
    /// 0 = "Check again", 1.. = networks.
    pub network_selected: usize,
    pub scanning: bool,
    pub connecting: bool,
    /// Open password entry: (ssid, keyboard).
    pub osk: Option<(String, OskState)>,
    pub disks: Vec<Disk>,
    pub disk_selected: usize,
    pub loading: bool,
    pub disk_error: Option<String>,
    pub confirm_disk: Option<Disk>,
    /// True when the erase button is focused (never the default).
    pub erase: bool,
    pub stage: Option<Stage>,
    pub last_line: String,
    pub tail: Vec<String>,
    pub running: bool,
    pub failed_reason: String,
    pub failed_tail: Vec<String>,
    /// Focused Failed button: 0 Try again, 1 Show/Hide details, 2 Power off.
    pub failed_selected: usize,
    pub details: bool,
    /// Transient status line: (message, is_error).
    pub toast: Option<(String, bool)>,
}

/// `s` with the password entry `osk`.
pub open spec fn with_osk(s: Installer, osk: Option<(String, OskState)>) -> Installer {
    Installer {
        screen: s.screen,
        welcome_selected: s.welcome_selected,
        networks: s.networks,
        network_selected: s.network_selected,
        scanning: s.scanning,
        connecting: s.connecting,
        osk: osk,
        disks: s.disks,
        disk_selected: s.disk_selected,
        loading: s.loading,
        disk_error: s.disk_error,
        confirm_disk: s.confirm_disk,
        erase: s.erase,
        stage: s.stage,
        last_line: s.last_line,
        tail: s.tail,
        running: s.running,
        failed_reason: s.failed_reason,
        failed_tail: s.failed_tail,
        failed_selected: s.failed_selected,
        details: s.details,
        toast: s.toast,
    }
}

/// The install progress state (stage, last line, tail, running, and the
/// Failed screen's reason, tail and buttons) is the same in `pre` and
/// `post`.
pub open spec fn progress_same(pre: Installer, post: Installer) -> bool {
    &&& post.stage == pre.stage
    &&& post.last_line == pre.last_line
    &&& post.tail == pre.tail
    &&& post.running == pre.running
    &&& post.failed_reason == pre.failed_reason
    &&& post.failed_tail == pre.failed_tail
    &&& post.failed_selected == pre.failed_selected
    &&& post.details == pre.details
}

/// What the earlier screens chose (the Welcome button, the networks, the
/// drives and the confirmed drive) and the status line are the same in
/// `pre` and `post`.
pub open spec fn setup_same(pre: Installer, post: Installer) -> bool {
    &&& post.welcome_selected == pre.welcome_selected
    &&& post.networks == pre.networks
    &&& post.network_selected == pre.network_selected
    &&& post.scanning == pre.scanning
    &&& post.connecting == pre.connecting
    &&& post.osk == pre.osk
    &&& post.disks == pre.disks
    &&& post.disk_selected == pre.disk_selected
    &&& post.loading == pre.loading
    &&& post.disk_error == pre.disk_error
    &&& post.confirm_disk == pre.confirm_disk
    &&& post.erase == pre.erase
    &&& post.toast == pre.toast
}

/// `x - 1`, stopping at 0.
pub open spec fn dec(x: nat) -> nat {
    if x > 0 {
        (x - 1) as nat
    } else {
        0
    }
}

/// `x + 1`, stopping at `max`.
pub open spec fn inc_to(x: nat, max: nat) -> nat {
    if x + 1 < max {
        x + 1
    } else {
        max
    }
}

/// A password keyboard, when open, has its cursor on a key.
pub open spec fn osk_wf(o: Option<(String, OskState)>) -> bool {
    match o {
        Some((_, k)) => k.wf(),
        None => true,
    }
}

/// The message shown while the engine cannot run as root.
pub open spec fn not_root_reason() -> Seq<char> {
    "The installer needs to run as the system administrator. This is a bug in the live session."@
}

impl Installer {
    /// The first screen, nothing loaded.
    pub fn new() -> (r: Self)
        ensures
            r.screen == Screen::Welcome,
            r.welcome_selected == 0,
            r.osk is None,
            !r.running,
            !r.loading,
            !r.scanning,
            !r.connecting,
    {
        Installer {
            screen: Screen::Welcome,
            welcome_selected: 0,
            networks: Vec::new(),
            network_selected: 0,
            scanning: false,
            connecting: false,
            osk: None,
            disks: Vec::new(),
            disk_selected: 0,
            loading: false,
            disk_error: None,
            confirm_disk: None,
            erase: false,
            stage: None,
            last_line: String::new(),
            tail: Vec::new(),
            running: false,
            failed_reason: String::new(),
            failed_tail: Vec::new(),
            failed_selected: 0,
            details: false,
            toast: None,
        }
    }

    /// Show a status message.
    pub fn set_toast(&mut self, message: String, is_error: bool)
        ensures
            final(self).toast matches Some((m, e)) && m@ == message@ && e == is_error,
            final(self).screen == old(self).screen,
    {
        self.toast = Some((message, is_error));
    }

    /// Route a navigation event to the current screen. An install in flight
    /// owns the screen.
    pub fn handle_nav(&mut self, event: NavEvent) -> (r: Effect)
        requires
            osk_wf(old(self).osk),
            old(self).welcome_selected < usize::MAX,
            old(self).network_selected < usize::MAX,
            old(self).networks@.len() < usize::MAX,
            old(self).disk_selected < usize::MAX,
            old(self).failed_selected < usize::MAX,
        ensures
            osk_wf(final(self).osk),
            match old(self).screen {
                Screen::Welcome => welcome_step(*old(self), *final(self), event, r),
                Screen::Network => network_step(*old(self), *final(self), event, r),
                Screen::Disks => disks_step(*old(self), *final(self), event, r),
                Screen::Confirm => confirm_step(*old(self), *final(self), event, r),
                Screen::Progress => r is Nothing && *final(self) == *old(self),
                Screen::Done => *final(self) == *old(self) && if event == NavEvent::Confirm {
                    r is Reboot
                } else {
                    r is Nothing
                },
                Screen::Failed => failed_step(*old(self), *final(self), event, r),
            },
    {
        match self.screen {
            Screen::Welcome => self.welcome_nav(event),
            Screen::Network => self.network_nav(event),
            Screen::Disks => self.disks_nav(event),
            Screen::Confirm => self.confirm_nav(event),
            Screen::Progress => Effect::Nothing,
            Screen::Done => {
                if event == NavEvent::Confirm {
                    Effect::Reboot
                } else {
                    Effect::Nothing
                }
            },
            Screen::Failed => self.failed_nav(event),
        }
    }

    /// Welcome: two buttons, Install (probe the network first) and Power off.
    pub fn welcome_nav(&mut self, event: NavEvent) -> (r: Effect)
        requires
            old(self).welcome_selected < usize::MAX,
        ensures
            welcome_step(*old(self), *final(self), event, r),
    {
        match event {
            NavEvent::Up | NavEvent::Left => {
                self.welcome_selected = if self.welcome_selected > 0 {
                    self.welcome_selected - 1
                } else {
                    0
                };
                Effect::Nothing
            },
            NavEvent::Down | NavEvent::Right => {
                self.welcome_selected = if self.welcome_selected + 1 < 1 {
                    self.welcome_selected + 1
                } else {
                    1
                };
                Effect::Nothing
            },
            NavEvent::Confirm => if self.welcome_selected == 0 {
                Effect::CheckOnline
            } else {
                Effect::PowerOff
            },
            _ => Effect::Nothing,
        }
    }

    /// Continue after the connectivity probe: to the drives when online,
    /// else to the network screen.
    pub fn after_probe(&mut self, online: bool) -> (r: Effect)
        ensures
            online ==> final(self).screen == Screen::Disks && (if old(self).loading {
                r is Nothing
            } else {
                r is LoadDisks && final(self).loading && final(self).disk_error is None
            }),
            !online ==> final(self).screen == Screen::Network && (if old(self).scanning {
                r is Nothing
            } else {
                r is ScanNetworks && final(self).scanning
            }),
            final(self).osk == old(self).osk,
    {
        if online {
            self.enter_disks()
        } else {
            self.screen = Screen::Network;
            self.begin_scan()
        }
    }

    // --- Disks ------------------------------------------------------------------------

    /// Show the drive picker and list the drives.
    pub fn enter_disks(&mut self) -> (r: Effect)
        ensures
            final(self).screen == Screen::Disks,
            if old(self).loading {
                r is Nothing && final(self).disk_error == old(self).disk_error
            } else {
                r is LoadDisks && final(self).loading && final(self).disk_error is None
            },
            final(self).osk == old(self).osk,
    {
        self.screen = Screen::Disks;
        self.begin_load()
    }

    /// List the drives unless a listing is under way.
    pub fn begin_load(&mut self) -> (r: Effect)
        ensures
            final(self).screen == old(self).screen,
            if old(self).loading {
                r is Nothing && final(self).disk_error == old(self).disk_error
            } else {
                r is LoadDisks && final(self).loading && final(self).disk_error is None
            },
            final(self).osk == old(self).osk,
    {
        if self.loading {
            return Effect::Nothing;
        }
        self.loading = true;
        self.disk_error = None;
        Effect::LoadDisks
    }

    /// Take a drive listing: the drives (cursor kept on the list), or the
    /// error.
    pub fn finish_load(&mut self, result: Result<Vec<Disk>, String>)
        ensures
            !final(self).loading,
            final(self).screen == old(self).screen,
            final(self).osk == old(self).osk,
            match result {
                Ok(d) => final(self).disks@ == d@ && final(self).disk_selected == if old(
                    self,
                ).disk_selected < d@.len() {
                    old(self).disk_selected as int
                } else if d@.len() == 0 {
                    0
                } else {
                    d@.len() - 1
                },
                Err(e) => final(self).disk_error matches Some(m) && m@ == e@,
            },
    {
        self.loading = false;
        match result {
            Ok(disks) => {
                let n = disks.len();
                let last = if n > 0 {
                    n - 1
                } else {
                    0
                };
                if self.disk_selected > last {
                    self.disk_selected = last;
                }
                self.disks = disks;
            },
            Err(e) => {
                self.disk_error = Some(e);
            },
        }
    }

    /// Drive picker: Up/Down move, Confirm asks to confirm the drive, Back
    /// returns to Welcome, Menu lists again.
    pub fn disks_nav(&mut self, event: NavEvent) -> (r: Effect)
        requires
            old(self).disk_selected < usize::MAX,
        ensures
            disks_step(*old(self), *final(self), event, r),
    {
        match event {
            NavEvent::Up => {
                self.disk_selected = if self.disk_selected > 0 {
                    self.disk_selected - 1
                } else {
                    0
                };
                Effect::Nothing
            },
            NavEvent::Down => {
                let n = self.disks.len();
                let max = if n > 0 {
                    n - 1
                } else {
                    0
                };
                self.disk_selected = if self.disk_selected + 1 < max {
                    self.disk_selected + 1
                } else {
                    max
                };
                Effect::Nothing
            },
            NavEvent::Confirm => {
                if self.disk_selected < self.disks.len() {
                    let d = copy_disk(&self.disks[self.disk_selected]);
                    self.confirm_disk = Some(d);
                    self.erase = false;
                    self.screen = Screen::Confirm;
                }
                Effect::Nothing
            },
            NavEvent::Back => {
                self.screen = Screen::Welcome;
                Effect::Nothing
            },
            NavEvent::Menu => self.begin_load(),
            _ => Effect::Nothing,
        }
    }

    // --- Confirm ------------------------------------------------------------------

    /// The one scary screen: arrows flip between "Go back" (the default)
    /// and "Erase and install"; Confirm on erase starts the install, on "Go
    /// back" (or Back) returns to the drives.
    pub fn confirm_nav(&mut self, event: NavEvent) -> (r: Effect)
        ensures
            confirm_step(*old(self), *final(self), event, r),
    {
        match event {
            NavEvent::Left | NavEvent::Right | NavEvent::Up | NavEvent::Down => {
                self.erase = !self.erase;
                Effect::Nothing
            },
            NavEvent::Confirm => {
                if self.erase {
                    self.start()
                } else {
                    self.screen = Screen::Disks;
                    Effect::Nothing
                }
            },
            NavEvent::Back => {
                self.screen = Screen::Disks;
                Effect::Nothing
            },
            _ => Effect::Nothing,
        }
    }

    /// Start installing onto the confirmed drive (unless an install is
    /// running): the progress screen starts fresh and the install is asked
    /// for.
    pub fn start(&mut self) -> (r: Effect)
        ensures
            start_effect(*old(self), *final(self), r),
            setup_same(*old(self), *final(self)),
    {
        let path = match &self.confirm_disk {
            Some(d) => d.path.clone(),
            None => return Effect::Nothing,
        };
        if self.running {
            return Effect::Nothing;
        }
        self.stage = None;
        self.last_line = String::new();
        self.tail = Vec::new();
        self.running = true;
        self.screen = Screen::Progress;
        Effect::Install(path)
    }

    /// The install cannot run: the engine needs root.
    pub fn fail_not_root(&mut self)
        ensures
            final(self).screen == Screen::Failed,
            final(self).failed_reason@ == not_root_reason(),
            final(self).failed_tail@.len() == 0,
            !final(self).running,
            final(self).osk == old(self).osk,
    {
        self.running = false;
        self.failed_reason = owned(
            "The installer needs to run as the system administrator. This is a bug in the live session.",
        );
        self.failed_tail = Vec::new();
        self.screen = Screen::Failed;
    }

    // --- Progress ---------------------------------------------------------------------

    /// An install event: a stage starts; an output line becomes the last
    /// line (trimmed, at most 96 characters) and joins the tail (the last
    /// 200 non-blank lines); the end goes to Done, or to Failed with the
    /// reason and the tail.
    pub fn on_install_event(&mut self, event: InstallEvent)
        ensures
            old(self).tail@.len() <= TAIL_LINES ==> final(self).tail@.len() <= TAIL_LINES,
            final(self).osk == old(self).osk,
            setup_same(*old(self), *final(self)),
            match event {
                InstallEvent::Stage(s) => final(self).stage == Some(s) && final(self).screen == old(
                    self,
                ).screen && final(self).tail == old(self).tail && final(self).running == old(self).running,
                InstallEvent::Line(line) => {
                    let t = trim(line@);
                    &&& final(self).screen == old(self).screen
                    &&& final(self).stage == old(self).stage
                    &&& final(self).running == old(self).running
                    &&& if t.len() == 0 {
                        final(self).tail == old(self).tail && final(self).last_line == old(self).last_line
                    } else {
                        &&& final(self).last_line@ == if t.len() > 96 {
                            t.take(96)
                        } else {
                            t
                        }
                        &&& strings(final(self).tail@) == crate::settings::keep_last(
                            strings(old(self).tail@).push(t),
                            200,
                        )
                    }
                },
                InstallEvent::Finished(Ok(())) => {
                    &&& !final(self).running
                    &&& final(self).screen == Screen::Done
                    &&& final(self).stage == old(self).stage
                    &&& final(self).tail == old(self).tail
                    &&& final(self).last_line == old(self).last_line
                    &&& final(self).failed_reason == old(self).failed_reason
                    &&& final(self).failed_tail == old(self).failed_tail
                },
                InstallEvent::Finished(Err(reason)) => {
                    &&& final(self).stage == old(self).stage
                    &&& final(self).tail == old(self).tail
                    &&& final(self).last_line == old(self).last_line
                    &&& !final(self).running
                    &&& final(self).screen == Screen::Failed
                    &&& final(self).failed_reason@ == reason@
                    &&& strings(final(self).failed_tail@) == strings(old(self).tail@)
                    &&& final(self).failed_selected == 0
                    &&& !final(self).details
                },
            },
    {
        match event {
            InstallEvent::Stage(s) => {
                self.stage = Some(s);
            },
            InstallEvent::Line(line) => {
                let v = chars_of(line.as_str());
                let t = trim_chars(&v);
                if t.len() > 0 {
                    let shown = if t.len() > 96 {
                        crate::text::slice_chars(&t, 0, 96)
                    } else {
                        crate::text::slice_chars(&t, 0, t.len())
                    };
                    assert(t@.subrange(0, t@.len() as int) == t@);
                    self.last_line = string_of(&shown);
                    push_tail(&mut self.tail, string_of(&t));
                }
            },
            InstallEvent::Finished(Ok(())) => {
                self.running = false;
                self.screen = Screen::Done;
            },
            InstallEvent::Finished(Err(reason)) => {
                self.running = false;
                self.failed_reason = reason;
                self.failed_tail = copy_lines(&self.tail);
                self.failed_selected = 0;
                self.details = false;
                self.screen = Screen::Failed;
            },
        }
    }

    // --- Failed ---------------------------------------------------------------------------

    /// Failed: three buttons, Try again (back to the drives), Show/Hide
    /// details, Power off.
    pub fn failed_nav(&mut self, event: NavEvent) -> (r: Effect)
        requires
            old(self).failed_selected < usize::MAX,
        ensures
            failed_step(*old(self), *final(self), event, r),
    {
        match event {
            NavEvent::Left | NavEvent::Up => {
                self.failed_selected = if self.failed_selected > 0 {
                    self.failed_selected - 1
                } else {
                    0
                };
                Effect::Nothing
            },
            NavEvent::Right | NavEvent::Down => {
                self.failed_selected = if self.failed_selected + 1 < 2 {
                    self.failed_selected + 1
                } else {
                    2
                };
                Effect::Nothing
            },
            NavEvent::Confirm => {
                if self.failed_selected == 0 {
                    self.enter_disks()
                } else if self.failed_selected == 1 {
                    self.details = !self.details;
                    Effect::Nothing
                } else {
                    Effect::PowerOff
                }
            },
            _ => Effect::Nothing,
        }
    }

    // --- Network ---------------------------------------------------------------------

    /// Scan for networks unless a scan is under way.
    pub fn begin_scan(&mut self) -> (r: Effect)
        ensures
            final(self).screen == old(self).screen,
            final(self).osk == old(self).osk,
            if old(self).scanning {
                r is Nothing
            } else {
                r is ScanNetworks && final(self).scanning
            },
    {
        if self.scanning {
            return Effect::Nothing;
        }
        self.scanning = true;
        Effect::ScanNetworks
    }

    /// Take a scan's networks; the cursor stays on a row.
    pub fn finish_scan(&mut self, networks: Vec<WifiNetwork>)
        ensures
            !final(self).scanning,
            wifi_views(final(self).networks@) == wifi_views(networks@),
            final(self).network_selected == if old(self).network_selected <= networks@.len() {
                old(self).network_selected as int
            } else {
                networks@.len() as int
            },
            final(self).osk == old(self).osk,
            final(self).screen == old(self).screen,
    {
        self.scanning = false;
        let n = networks.len();
        self.networks = networks;
        if self.network_selected > n {
            self.network_selected = n;
        }
    }

    /// Join a network unless a join is under way.
    pub fn connect(&mut self, ssid: String, password: Option<String>) -> (r: Effect)
        ensures
            final(self).screen == old(self).screen,
            final(self).osk == old(self).osk,
            if old(self).connecting {
                r is Nothing
            } else {
                &&& final(self).connecting
                &&& final(self).toast matches Some((m, e)) && m@ == "Connecting to "@ + ssid@ + "…"@
                    && !e
                &&& r matches Effect::Connect(s, p) && s@ == ssid@ && p == password
            },
    {
        if self.connecting {
            return Effect::Nothing;
        }
        self.connecting = true;
        let mut msg = concat("Connecting to ", ssid.as_str());
        msg.append("…");
        self.toast = Some((msg, false));
        Effect::Connect(ssid, password)
    }

    /// The result of joining a network: on success probe again, else say
    /// why.
    pub fn finish_connect(&mut self, result: Result<String, String>) -> (r: Effect)
        ensures
            !final(self).connecting,
            final(self).screen == old(self).screen,
            final(self).osk == old(self).osk,
            match result {
                Ok(ssid) => r is CheckOnline && (final(self).toast matches Some((m, e)) && m@
                    == "Connected to "@ + ssid@ && !e),
                Err(err) => r is Nothing && (final(self).toast matches Some((m, e)) && m@
                    == "Couldn't connect: "@ + err@ && e),
            },
    {
        self.connecting = false;
        match result {
            Ok(ssid) => {
                self.toast = Some((concat("Connected to ", ssid.as_str()), false));
                Effect::CheckOnline
            },
            Err(err) => {
                self.toast = Some((concat("Couldn't connect: ", err.as_str()), true));
                Effect::Nothing
            },
        }
    }

    /// Network screen: with the password keyboard open, events go to it (a
    /// commit joins the network); otherwise row 0 re-checks the connection,
    /// a secured network asks for its password, an open one is joined, Back
    /// returns to Welcome and Menu rescans.
    pub fn network_nav(&mut self, event: NavEvent) -> (r: Effect)
        requires
            osk_wf(old(self).osk),
            old(self).network_selected < usize::MAX,
            old(self).networks@.len() < usize::MAX,
        ensures
            osk_wf(final(self).osk),
            network_step(*old(self), *final(self), event, r),
    {
        let open = self.osk.take();
        match open {
            Some((ssid, mut osk)) => {
                match osk.handle_nav(event) {
                    OskOutcome::Open => {
                        self.osk = Some((ssid, osk));
                        Effect::Nothing
                    },
                    OskOutcome::Commit(password) => self.connect(ssid, Some(password)),
                    OskOutcome::Cancel => Effect::Nothing,
                }
            },
            None => {
                let n = self.networks.len();
                match event {
                    NavEvent::Up => {
                        self.network_selected = if self.network_selected > 0 {
                            self.network_selected - 1
                        } else {
                            0
                        };
                        Effect::Nothing
                    },
                    NavEvent::Down => {
                        self.network_selected = if self.network_selected + 1 < n {
                            self.network_selected + 1
                        } else {
                            n
                        };
                        Effect::Nothing
                    },
                    NavEvent::Confirm => {
                        if self.network_selected == 0 {
                            self.toast = Some((owned("Checking the connection…"), false));
                            Effect::CheckOnline
                        } else if self.network_selected - 1 < n {
                            let net = &self.networks[self.network_selected - 1];
                            let ssid = net.ssid.clone();
                            if net.secured {
                                self.osk = Some((ssid, OskState::new()));
                                Effect::Nothing
                            } else {
                                self.connect(ssid, None)
                            }
                        } else {
                            Effect::Nothing
                        }
                    },
                    NavEvent::Back => {
                        self.screen = Screen::Welcome;
                        Effect::Nothing
                    },
                    NavEvent::Menu => self.begin_scan(),
                    _ => Effect::Nothing,
                }
            },
        }
    }

    /// Physical-keyboard entry for the password keyboard on the network
    /// screen (see `OskState::key_step`); true when its buffer changed.
    /// Elsewhere, or with no password entry open, keys are ignored.
    pub fn handle_key(&mut self, key: &str, key_char: Option<&str>) -> (r: bool)
        requires
            osk_wf(old(self).osk),
        ensures
            osk_wf(final(self).osk),
            match old(self).osk {
                Some((ssid, k)) if old(self).screen == Screen::Network => {
                    &&& final(self).osk matches Some((s2, k2)) && s2 == ssid && k.key_step(
                        key@,
                        key_char,
                        k2,
                        r,
                    )
                    &&& *final(self) == with_osk(*old(self), final(self).osk)
                },
                _ => !r && *final(self) == *old(self),
            },
    {
        if self.screen != Screen::Network {
            return false;
        }
        match &mut self.osk {
            Some((_, osk)) => osk.handle_key(key, key_char),
            None => false,
        }
    }
}

/// What a navigation event does on the Welcome screen.
pub open spec fn welcome_step(pre: Installer, post: Installer, event: NavEvent, r: Effect) -> bool {
    &&& (post.screen == pre.screen)
    &&& (post.osk == pre.osk)
    &&& (match event { NavEvent::Up | NavEvent::Left => post.welcome_selected == dec( pre.welcome_selected as nat, ) && r is Nothing, NavEvent::Down | NavEvent::Right => post.welcome_selected == inc_to( pre.welcome_selected as nat, 1, ) && r is Nothing, NavEvent::Confirm => post.welcome_selected == pre.welcome_selected && if pre.welcome_selected == 0 { r is CheckOnline } else { r is PowerOff }, _ => post.welcome_selected == pre.welcome_selected && r is Nothing, })
}

/// What a navigation event does on the drive picker.
pub open spec fn disks_step(pre: Installer, post: Installer, event: NavEvent, r: Effect) -> bool {
    &&& (post.osk == pre.osk)
    &&& (match event { NavEvent::Up => r is Nothing && post.disk_selected == dec( pre.disk_selected as nat, ) && post.screen == pre.screen, NavEvent::Down => r is Nothing && post.disk_selected == inc_to( pre.disk_selected as nat, dec(pre.disks@.len()), ) && post.screen == pre.screen, NavEvent::Confirm => r is Nothing && if pre.disk_selected < pre.disks@.len() { &&& post.screen == Screen::Confirm &&& !post.erase &&& post.confirm_disk matches Some(d) && d.record() == pre.disks@[pre.disk_selected as int].record() } else { post.screen == pre.screen }, NavEvent::Back => r is Nothing && post.screen == Screen::Welcome, NavEvent::Menu => post.screen == pre.screen && if pre.loading { r is Nothing } else { r is LoadDisks && post.loading }, _ => r is Nothing && post.screen == pre.screen, })
}

/// What a navigation event does on the confirmation screen.
pub open spec fn confirm_step(pre: Installer, post: Installer, event: NavEvent, r: Effect) -> bool {
    &&& (post.osk == pre.osk)
    &&& (match event {
        NavEvent::Left | NavEvent::Right | NavEvent::Up | NavEvent::Down => r is Nothing && post.erase
            == !pre.erase && post.screen == pre.screen && progress_same(pre, post),
        NavEvent::Confirm => if pre.erase {
            start_effect(pre, post, r) && post.erase == pre.erase
        } else {
            r is Nothing && post.screen == Screen::Disks && progress_same(pre, post) && post.erase
                == pre.erase
        },
        NavEvent::Back => r is Nothing && post.screen == Screen::Disks && progress_same(pre, post)
            && post.erase == pre.erase,
        _ => r is Nothing && post.screen == pre.screen && progress_same(pre, post) && post.erase
            == pre.erase,
    })
    &&& post.confirm_disk == pre.confirm_disk
    &&& post.disks == pre.disks
}

/// What a navigation event does on the Failed screen.
pub open spec fn failed_step(pre: Installer, post: Installer, event: NavEvent, r: Effect) -> bool {
    &&& (post.osk == pre.osk)
    &&& (match event { NavEvent::Left | NavEvent::Up => r is Nothing && post.failed_selected == dec( pre.failed_selected as nat, ) && post.screen == pre.screen, NavEvent::Right | NavEvent::Down => r is Nothing && post.failed_selected == inc_to(pre.failed_selected as nat, 2) && post.screen == pre.screen, NavEvent::Confirm => if pre.failed_selected == 0 { post.screen == Screen::Disks && (if pre.loading { r is Nothing } else { r is LoadDisks }) } else if pre.failed_selected == 1 { r is Nothing && post.details == !pre.details && post.screen == pre.screen } else { r is PowerOff && post.screen == pre.screen }, _ => r is Nothing && post.screen == pre.screen, })
}

/// What a navigation event does on the network screen.
pub open spec fn network_step(pre: Installer, post: Installer, event: NavEvent, r: Effect) -> bool {
    &&& (post.screen == pre.screen || (pre.osk is None && event == NavEvent::Back))
    &&& (pre.osk is None ==> match event { NavEvent::Up => r is Nothing && post.network_selected == dec( pre.network_selected as nat, ), NavEvent::Down => r is Nothing && post.network_selected == inc_to( pre.network_selected as nat, pre.networks@.len(), ), NavEvent::Confirm => if pre.network_selected == 0 { r is CheckOnline } else if pre.network_selected - 1 < pre.networks@.len() { let net = pre.networks@[pre.network_selected - 1]; if net.secured { r is Nothing && (post.osk matches Some((s, k)) && s@ == net.ssid@ && k.value_spec() == Seq::<char>::empty()) } else if pre.connecting { r is Nothing } else { r matches Effect::Connect(s, p) && s@ == net.ssid@ && p is None && post.connecting } } else { r is Nothing }, NavEvent::Back => r is Nothing && post.screen == Screen::Welcome, NavEvent::Menu => if pre.scanning { r is Nothing } else { r is ScanNetworks }, _ => r is Nothing, })
}

/// What starting the install does: nothing without a confirmed drive or
/// while an install runs; otherwise a fresh progress screen and the install
/// of that drive's path.
pub open spec fn start_effect(pre: Installer, post: Installer, r: Effect) -> bool {
    match pre.confirm_disk {
        None => r is Nothing && post.screen == pre.screen && progress_same(pre, post),
        Some(d) => if pre.running {
            r is Nothing && post.screen == pre.screen && progress_same(pre, post)
        } else {
            &&& post.running
            &&& post.screen == Screen::Progress
            &&& post.stage is None
            &&& post.tail@.len() == 0
            &&& post.last_line@.len() == 0
            &&& r matches Effect::Install(p) && p@ == d.path@
        },
    }
}

/// Keep a line in the progress tail (the last 200 are kept).
fn push_tail(tail: &mut Vec<String>, line: String)
    ensures
        strings(final(tail)@) == crate::settings::keep_last(strings(old(tail)@).push(line@), 200),
        old(tail)@.len() <= TAIL_LINES ==> final(tail)@.len() <= TAIL_LINES,
{
    let ghost before = strings(tail@);
    tail.push(line);
    assert(strings(tail@) == before.push(line@));
    let n = tail.len();
    if n > TAIL_LINES {
        let excess = n - TAIL_LINES;
        let ghost sall = strings(tail@);
        let mut kept: Vec<String> = Vec::new();
        let mut i = excess;
        while i < n
            invariant
                excess <= i <= n == sall.len(),
                sall == strings(tail@),
                strings(kept@) == sall.subrange(excess as int, i as int),
            decreases n - i,
        {
            let s = tail[i].clone();
            let ghost pre = strings(kept@);
            kept.push(s);
            assert(strings(kept@) == pre.push(s@));
            assert(sall.subrange(excess as int, i + 1) == sall.subrange(excess as int, i as int).push(
                sall[i as int],
            ));
            i = i + 1;
        }
        assert(strings(kept@).len() == kept@.len());
        *tail = kept;
    }
}

/// A copy of a list of lines.
pub fn copy_lines(v: &Vec<String>) -> (r: Vec<String>)
    ensures
        strings(r@) == strings(v@),
{
    let mut out: Vec<String> = Vec::new();
    let mut i: usize = 0;
    while i < v.len()
        invariant
            i <= v@.len(),
            strings(out@) == strings(v@).take(i as int),
        decreases v@.len() - i,
    {
        let s = v[i].clone();
        let ghost pre = strings(out@);
        out.push(s);
        assert(strings(out@) == pre.push(s@));
        assert(strings(v@).take(i + 1) == strings(v@).take(i as int).push(v@[i as int]@));
        i = i + 1;
    }
    assert(strings(v@).take(i as int) == strings(v@));
    out
}

// --- Texts ----------------------------------------------------------------------------------

/// How strong a network's signal is, and whether it is secured.
pub open spec fn signal_label_spec(signal: u8, secured: bool) -> Seq<char> {
    let strength = if signal <= 33 {
        "weak"@
    } else if signal <= 66 {
        "good"@
    } else {
        "strong"@
    };
    if secured {
        strength + " · secured"@
    } else {
        strength
    }
}

/// The detail line of a network row.
pub fn signal_label(network: &WifiNetwork) -> (r: String)
    ensures
        r@ == signal_label_spec(network.signal, network.secured),
{
    let strength = if network.signal <= 33 {
        "weak"
    } else if network.signal <= 66 {
        "good"
    } else {
        "strong"
    };
    if network.secured {
        concat(strength, " · secured")
    } else {
        owned(strength)
    }
}

/// The hint the footer shows on a screen.
pub fn footer_hint(screen: Screen) -> (r: &'static str)
    ensures
        r@ == match screen {
            Screen::Welcome | Screen::Done => "A select"@,
            Screen::Progress => ""@,
            Screen::Network => "A select · B back · Start rescan"@,
            _ => "A select · B back"@,
        },
{
    match screen {
        Screen::Welcome | Screen::Done => "A select",
        Screen::Progress => "",
        Screen::Network => "A select · B back · Start rescan",
        _ => "A select · B back",
    }
}

/// The status under the drive list.
pub fn disks_status(loading: bool, error: &Option<String>, count: usize) -> (r: String)
    ensures
        r@ == if loading {
            "Looking for drives…"@
        } else {
            match error {
                Some(e) => "Couldn't look for drives: "@ + e@,
                None => if count == 0 {
                    "No drives found. Is one plugged in?"@
                } else {
                    ""@
                },
            }
        },
{
    if loading {
        owned("Looking for drives…")
    } else {
        match error {
            Some(e) => concat("Couldn't look for drives: ", e.as_str()),
            None => if count == 0 {
                owned("No drives found. Is one plugged in?")
            } else {
                owned("")
            },
        }
    }
}

/// The status under the network list.
pub fn networks_status(scanning: bool, count: usize) -> (r: &'static str)
    ensures
        r@ == if scanning {
            "Looking for Wi-Fi networks…"@
        } else if count == 0 {
            "No Wi-Fi networks found. A network cable works too."@
        } else {
            ""@
        },
{
    if scanning {
        "Looking for Wi-Fi networks…"
    } else if count == 0 {
        "No Wi-Fi networks found. A network cable works too."
    } else {
        ""
    }
}

/// The confirmation headline.
pub fn confirm_title(disk: &Option<Disk>) -> (r: String)
    ensures
        r@ == match disk {
            Some(d) => "Install to "@ + crate::installer::disk_title_spec(d.size@, d.model@) + "?"@,
            None => "Install?"@,
        },
{
    match disk {
        Some(d) => {
            let t = d.title();
            let mut s = concat("Install to ", t.as_str());
            s.append("?");
            s
        },
        None => owned("Install?"),
    }
}

/// The output shown under Show details: the last 14 lines, or a note that
/// there were none.
pub fn details_lines(tail: &Vec<String>) -> (r: Vec<String>)
    ensures
        strings(r@) == if tail@.len() == 0 {
            seq!["(no output captured)"@]
        } else {
            crate::shell::last_items(strings(tail@), 14)
        },
{
    if tail.len() == 0 {
        let r = vec![owned("(no output captured)")];
        assert(strings(r@) =~= seq!["(no output captured)"@]);
        return r;
    }
    let n = tail.len();
    let start = if n > 14 {
        n - 14
    } else {
        0
    };
    let ghost sl = strings(tail@);
    let mut out: Vec<String> = Vec::new();
    let mut i = start;
    while i < n
        invariant
            start <= i <= n == sl.len(),
            sl == strings(tail@),
            strings(out@) == sl.subrange(start as int, i as int),
        decreases n - i,
    {
        let s = tail[i].clone();
        let ghost pre = strings(out@);
        out.push(s);
        assert(strings(out@) == pre.push(s@));
        assert(sl.subrange(start as int, i + 1) == sl.subrange(start as int, i as int).push(sl[i as int]));
        i = i + 1;
    }
    assert(sl.subrange(0, n as int) == sl);
    out
}

/// What the fake power buttons say instead of acting.
pub fn fake_power_message(reboot: bool) -> (r: String)
    ensures
        r@ == "(fake install) would "@ + (if reboot {
            "restart"@
        } else {
            "power off"@
        }) + " now"@,
{
    let mut s = owned("(fake install) would ");
    s.append(if reboot {
        "restart"
    } else {
        "power off"
    });
    s.append(" now");
    s
}

/// The networks a fake run offers: a secured home network and an open one.
pub fn fake_networks() -> (r: Vec<WifiNetwork>)
    ensures
        wifi_views(r@) == seq![
            ("HomeNet"@, 87u8, true, false),
            ("CoffeeShop"@, 55u8, false, false),
        ],
{
    let r = vec![
        WifiNetwork { ssid: owned("HomeNet"), signal: 87, secured: true, connected: false },
        WifiNetwork { ssid: owned("CoffeeShop"), signal: 55, secured: false, connected: false },
    ];
    assert(wifi_views(r@) =~= seq![
        ("HomeNet"@, 87u8, true, false),
        ("CoffeeShop"@, 55u8, false, false),
    ]);
    r
}

} // verus!
