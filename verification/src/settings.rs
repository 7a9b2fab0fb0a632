//! The console's Settings tab: Wi-Fi, volume, atomic OS updates, power.
//!
//! The rows, what each navigation event does to them, and the text each
//! row shows. System commands run in the background; the state here says
//! which to run.
use vstd::prelude::*;

use crate::input::NavEvent;
use crate::shell::PendingAction;
use crate::system::{
    is_wifi_list_of, radio_argv, radio_enabled_spec, scan_argv, status_argv,
    status_from, strings, wifi_views, CommandRunner, Network, WifiNetwork,
    WifiView,
};
use crate::text::{concat, decimal, decimal_string, lines, owned, push_char};

verus! {

broadcast use vstd::string::group_string_axioms;

/// Lines of update output kept for the update view.
pub const UPDATE_LOG_LINES: usize = 500;

#[derive(Debug, Clone, Copy, PartialEq, Eq, Structural)]
pub enum Row {
    WifiToggle,
    Wifi(usize),
    Volume,
    Update,
    Reboot,
    Poweroff,
}

pub struct SettingsState {
    pub selected: usize,
    pub wifi_enabled: bool,
    pub networks: Vec<WifiNetwork>,
    pub volume: u8,
    pub muted: bool,
    pub net_status: String,
    pub update_log: Vec<String>,
    pub refreshing: bool,
}

impl Default for SettingsState {
    fn default() -> (r: Self)
        ensures
            r.selected == 0,
            !r.wifi_enabled,
            r.networks@.len() == 0,
            r.volume == 0,
            !r.muted,
            r.net_status@ == Seq::<char>::empty(),
            r.update_log@.len() == 0,
            !r.refreshing,
    {
        SettingsState {
            selected: 0,
            wifi_enabled: false,
            networks: Vec::new(),
            volume: 0,
            muted: false,
            net_status: String::new(),
            update_log: Vec::new(),
            refreshing: false,
        }
    }
}

/// The rows for `n` visible networks: the Wi-Fi switch, one row per
/// network, then volume, update, restart and power off.
pub open spec fn rows_spec(n: nat) -> Seq<Row> {
    seq![Row::WifiToggle] + Seq::new(n, |i: int| Row::Wifi(i as usize)) + seq![
        Row::Volume,
        Row::Update,
        Row::Reboot,
        Row::Poweroff,
    ]
}

/// `s` with a refresh under way.
pub open spec fn refreshing_of(s: SettingsState) -> SettingsState {
    SettingsState {
        selected: s.selected,
        wifi_enabled: s.wifi_enabled,
        networks: s.networks,
        volume: s.volume,
        muted: s.muted,
        net_status: s.net_status,
        update_log: s.update_log,
        refreshing: true,
    }
}

/// What a Settings event asks the shell to do.
pub enum SettingsAction {
    Nothing,
    SetVolume(u8),
    SetMuted(bool),
    SetWifi(bool),
    Toast(String),
    /// Ask for the password of this secured network.
    AskPassword(String),
    /// Join this open network.
    Connect(String),
    /// Start an OS update and show its log (the log was cleared).
    StartUpdate,
    /// Ask before doing something drastic.
    Confirm(String, PendingAction),
    Refresh,
}

/// The volume after a step of `delta` percent, within 0..=100.
pub open spec fn stepped_volume(volume: u8, delta: int) -> int {
    let v = volume + delta;
    if v < 0 {
        0
    } else if v > 100 {
        100
    } else {
        v
    }
}

/// The last `keep` items of `s` (all of it when shorter).
pub open spec fn keep_last<T>(s: Seq<T>, keep: nat) -> Seq<T> {
    if s.len() > keep {
        s.skip(s.len() - keep)
    } else {
        s
    }
}

impl SettingsState {
    /// The rows on screen.
    pub fn rows(&self) -> (r: Vec<Row>)
        requires
            self.networks@.len() + 5 <= usize::MAX,
        ensures
            r@ == rows_spec(self.networks@.len()),
    {
        let n = self.networks.len();
        let mut r: Vec<Row> = Vec::new();
        r.push(Row::WifiToggle);
        let mut i: usize = 0;
        while i < n
            invariant
                i <= n,
                r@ == seq![Row::WifiToggle] + Seq::new(i as nat, |k: int| Row::Wifi(k as usize)),
            decreases n - i,
        {
            r.push(Row::Wifi(i));
            assert(r@ == seq![Row::WifiToggle] + Seq::new((i + 1) as nat, |k: int| Row::Wifi(k as usize)));
            i = i + 1;
        }
        r.push(Row::Volume);
        r.push(Row::Update);
        r.push(Row::Reboot);
        r.push(Row::Poweroff);
        assert(r@ == rows_spec(n as nat));
        r
    }

    /// The row under the cursor (the last row when the cursor is past it).
    pub fn current_row(&self) -> (r: Row)
        requires
            self.networks@.len() + 5 <= usize::MAX,
        ensures
            r == rows_spec(self.networks@.len())[if self.selected < self.networks@.len() + 5 {
                self.selected as int
            } else {
                self.networks@.len() + 4int
            }],
    {
        let rows = self.rows();
        let last = rows.len() - 1;
        let i = if self.selected < last {
            self.selected
        } else {
            last
        };
        rows[i]
    }

    /// Start a refresh unless one is running; true when the caller should
    /// read the system state.
    pub fn begin_refresh(&mut self) -> (r: bool)
        ensures
            r == !old(self).refreshing,
            *final(self) == refreshing_of(*old(self)),
    {
        if self.refreshing {
            return false;
        }
        self.refreshing = true;
        true
    }

    /// Take a refreshed system state; the cursor stays on a row.
    pub fn finish_refresh(&mut self, snapshot: SettingsSnapshot)
        requires
            snapshot.networks@.len() + 5 <= usize::MAX,
        ensures
            !final(self).refreshing,
            final(self).wifi_enabled == snapshot.wifi_enabled,
            wifi_views(final(self).networks@) == wifi_views(snapshot.networks@),
            final(self).volume == snapshot.volume,
            final(self).muted == snapshot.muted,
            final(self).net_status@ == snapshot.net_status@,
            final(self).selected == if old(self).selected < snapshot.networks@.len() + 5 {
                old(self).selected as int
            } else {
                snapshot.networks@.len() + 4int
            },
            final(self).update_log@ == old(self).update_log@,
    {
        self.refreshing = false;
        self.wifi_enabled = snapshot.wifi_enabled;
        let n = snapshot.networks.len();
        self.networks = snapshot.networks;
        self.volume = snapshot.volume;
        self.muted = snapshot.muted;
        self.net_status = snapshot.net_status;
        let last = n + 4;
        if self.selected > last {
            self.selected = last;
        }
    }

    /// What a navigation event does on the Settings tab: `post` and `r` are
    /// the state and action after `event` on `self`. Up/Down move the
    /// cursor, Left/Right step the volume by 5 on the volume row, Confirm
    /// activates the row, Menu rescans; the networks, the status line and
    /// the refresh flag never change here.
    pub open spec fn nav_step(&self, event: NavEvent, post: SettingsState, r: SettingsAction) -> bool {
        let n = self.networks@.len();
        let last: int = n + 4int;
        let cur = rows_spec(n)[if self.selected < last {
            self.selected as int
        } else {
            last
        }];
        let still = post.volume == self.volume && switched(*self, post, self.wifi_enabled, self.muted, false);
        &&& post.networks == self.networks
        &&& post.net_status == self.net_status
        &&& post.refreshing == self.refreshing
        &&& match event {
            NavEvent::Up => r is Nothing && still && post.selected == if self.selected > 0 {
                self.selected - 1
            } else {
                0
            },
            NavEvent::Down => r is Nothing && still && post.selected == if self.selected + 1 < last {
                self.selected + 1
            } else {
                last
            },
            NavEvent::Left | NavEvent::Right => post.selected == self.selected && switched(
                *self,
                post,
                self.wifi_enabled,
                self.muted,
                false,
            ) && if cur == Row::Volume {
                let v = stepped_volume(
                    self.volume,
                    if event == NavEvent::Left {
                        -5
                    } else {
                        5
                    },
                );
                post.volume == v && (r matches SettingsAction::SetVolume(x) && x == v)
            } else {
                r is Nothing && post.volume == self.volume
            },
            NavEvent::Menu => r is Refresh && still && post.selected == self.selected,
            NavEvent::Confirm => post.selected == self.selected && post.volume == self.volume
                && activation(*self, post, cur, r),
            _ => r is Nothing && still && post.selected == self.selected,
        }
    }

    /// Handle a navigation event on the Settings tab (see `nav_step`).
    pub fn handle_nav(&mut self, event: NavEvent) -> (r: SettingsAction)
        requires
            old(self).networks@.len() + 5 <= usize::MAX,
            old(self).selected < usize::MAX,
        ensures
            old(self).nav_step(event, *final(self), r),
    {
        let rows = self.rows();
        let last = rows.len() - 1;
        let cur = rows[if self.selected < last {
            self.selected
        } else {
            last
        }];
        match event {
            NavEvent::Up => {
                self.selected = if self.selected > 0 {
                    self.selected - 1
                } else {
                    0
                };
                SettingsAction::Nothing
            },
            NavEvent::Down => {
                self.selected = if self.selected + 1 < last {
                    self.selected + 1
                } else {
                    last
                };
                SettingsAction::Nothing
            },
            NavEvent::Left | NavEvent::Right => {
                if cur == Row::Volume {
                    let v: i16 = self.volume as i16 + if event == NavEvent::Left {
                        -5
                    } else {
                        5
                    };
                    let v: u8 = if v < 0 {
                        0
                    } else if v > 100 {
                        100
                    } else {
                        v as u8
                    };
                    self.volume = v;
                    SettingsAction::SetVolume(v)
                } else {
                    SettingsAction::Nothing
                }
            },
            NavEvent::Confirm => self.activate(cur),
            NavEvent::Menu => SettingsAction::Refresh,
            _ => SettingsAction::Nothing,
        }
    }

    /// Activate a row: flip Wi-Fi, join or ask for a network's password (a
    /// network no longer listed does nothing),
    /// mute or unmute, start an update, or ask before restarting or powering
    /// off.
    pub fn activate(&mut self, row: Row) -> (r: SettingsAction)
        ensures
            activation(*old(self), *final(self), row, r),
            final(self).networks == old(self).networks,
            final(self).net_status == old(self).net_status,
            final(self).refreshing == old(self).refreshing,
            final(self).selected == old(self).selected,
            final(self).volume == old(self).volume,
    {
        match row {
            Row::WifiToggle => {
                let target = !self.wifi_enabled;
                self.wifi_enabled = target;
                SettingsAction::SetWifi(target)
            },
            Row::Wifi(index) => {
                if index >= self.networks.len() {
                    return SettingsAction::Nothing;
                }
                let network = &self.networks[index];
                if network.connected {
                    SettingsAction::Toast(concat("already connected to ", network.ssid.as_str()))
                } else if network.secured {
                    SettingsAction::AskPassword(network.ssid.clone())
                } else {
                    SettingsAction::Connect(network.ssid.clone())
                }
            },
            Row::Volume => {
                let muted = !self.muted;
                self.muted = muted;
                SettingsAction::SetMuted(muted)
            },
            Row::Update => {
                self.update_log = Vec::new();
                SettingsAction::StartUpdate
            },
            Row::Reboot => SettingsAction::Confirm(owned("Restart the console?"), PendingAction::Reboot),
            Row::Poweroff => SettingsAction::Confirm(
                owned("Power off the console?"),
                PendingAction::Poweroff,
            ),
        }
    }

    /// Keep a line of update output (only the last 500 are kept).
    pub fn push_update_line(&mut self, line: String)
        ensures
            strings(final(self).update_log@) == keep_last(
                strings(old(self).update_log@).push(line@),
                500,
            ),
    {
        let ghost before = strings(self.update_log@);
        self.update_log.push(line);
        assert(strings(self.update_log@) == before.push(line@));
        let n = self.update_log.len();
        if n > UPDATE_LOG_LINES {
            let excess = n - UPDATE_LOG_LINES;
            let ghost sall = strings(self.update_log@);
            let mut kept: Vec<String> = Vec::new();
            let mut i = excess;
            while i < n
                invariant
                    excess <= i <= n == sall.len(),
                    sall == strings(self.update_log@),
                    strings(kept@) == sall.subrange(excess as int, i as int),
                decreases n - i,
            {
                let s = self.update_log[i].clone();
                let ghost before = strings(kept@);
                kept.push(s);
                assert(strings(kept@) == before.push(s@));
                assert(sall.subrange(excess as int, i + 1) == sall.subrange(excess as int, i as int).push(
                    sall[i as int],
                ));
                i = i + 1;
            }
            self.update_log = kept;
        }
    }
}

/// The update log never holds more than 500 lines, and always the newest.
pub proof fn update_log_bound_law(log: Seq<Seq<char>>, line: Seq<char>)
    ensures
        keep_last(log.push(line), 500).len() <= 500,
        keep_last(log.push(line), 500).last() == line,
{
    let s = log.push(line);
    if s.len() > 500 {
        assert(s.skip(s.len() - 500).last() == s.last());
    }
}

/// How activating `row` changes the state and what it asks for.
pub open spec fn activation(pre: SettingsState, post: SettingsState, row: Row, r: SettingsAction) -> bool {
    match row {
        Row::WifiToggle => switched(pre, post, !pre.wifi_enabled, pre.muted, false) && (
        r matches SettingsAction::SetWifi(b) && b == !pre.wifi_enabled),
        Row::Wifi(i) => {
            let net = pre.networks@[i as int];
            &&& switched(pre, post, pre.wifi_enabled, pre.muted, false)
            &&& if i >= pre.networks@.len() {
                r is Nothing
            } else if net.connected {
                r matches SettingsAction::Toast(m) && m@ == "already connected to "@ + net.ssid@
            } else if net.secured {
                r matches SettingsAction::AskPassword(s) && s@ == net.ssid@
            } else {
                r matches SettingsAction::Connect(s) && s@ == net.ssid@
            }
        },
        Row::Volume => switched(pre, post, pre.wifi_enabled, !pre.muted, false) && (
        r matches SettingsAction::SetMuted(m) && m == !pre.muted),
        Row::Update => switched(pre, post, pre.wifi_enabled, pre.muted, true) && r is StartUpdate,
        Row::Reboot => switched(pre, post, pre.wifi_enabled, pre.muted, false) && (
        r matches SettingsAction::Confirm(t, a) && t@ == "Restart the console?"@ && a
            == PendingAction::Reboot),
        Row::Poweroff => switched(pre, post, pre.wifi_enabled, pre.muted, false) && (
        r matches SettingsAction::Confirm(t, a) && t@ == "Power off the console?"@ && a
            == PendingAction::Poweroff),
    }
}

/// `post` has the Wi-Fi switch `wifi`, the mute flag `muted` and, when
/// `cleared`, an empty update log (otherwise the log of `pre`).
pub open spec fn switched(pre: SettingsState, post: SettingsState, wifi: bool, muted: bool, cleared: bool) -> bool {
    &&& post.wifi_enabled == wifi
    &&& post.muted == muted
    &&& if cleared {
        post.update_log@.len() == 0
    } else {
        post.update_log == pre.update_log
    }
}

/// What a settings refresh read from the system.
pub struct SettingsSnapshot {
    pub wifi_enabled: bool,
    pub networks: Vec<WifiNetwork>,
    pub volume: u8,
    pub muted: bool,
    pub net_status: String,
}

/// The snapshot from what the system reads returned: the Wi-Fi switch
/// (off when unreadable), the scanned networks (`scan` is `None` when no
/// scan ran; none while Wi-Fi is off or when the scan failed), the network
/// status line (empty when unreadable) and the volume (0, unmuted, when
/// unreadable).
pub fn snapshot_from(
    wifi: Result<bool, String>,
    scan: Option<Result<Vec<WifiNetwork>, String>>,
    status: Result<String, String>,
    volume: Result<(u8, bool), String>,
) -> (r: SettingsSnapshot)
    ensures
        r.wifi_enabled == (wifi matches Ok(b) && b),
        r.networks@ == if r.wifi_enabled {
            match scan {
                Some(Ok(v)) => v@,
                _ => Seq::<WifiNetwork>::empty(),
            }
        } else {
            Seq::<WifiNetwork>::empty()
        },
        r.net_status@ == match status {
            Ok(t) => t@,
            Err(_) => Seq::<char>::empty(),
        },
        (r.volume, r.muted) == match volume {
            Ok(v) => v,
            Err(_) => (0u8, false),
        },
{
    let wifi_enabled = match wifi {
        Ok(b) => b,
        Err(_) => false,
    };
    let networks = if wifi_enabled {
        match scan {
            Some(Ok(v)) => v,
            _ => Vec::new(),
        }
    } else {
        Vec::new()
    };
    let net_status = match status {
        Ok(t) => t,
        Err(_) => String::new(),
    };
    let (volume, muted) = match volume {
        Ok(v) => v,
        Err(_) => (0, false),
    };
    SettingsSnapshot { wifi_enabled, networks, volume, muted, net_status }
}

/// `r` is the snapshot read from these answers: `w` to the radio query,
/// `sc` to the scan (asked only while the radio is on) and `st` to the
/// status query, with the volume reading `v` (see [`snapshot_from`]).
pub open spec fn snapshot_of(
    r: SettingsSnapshot,
    w: Result<Seq<char>, Seq<char>>,
    sc: Result<Seq<char>, Seq<char>>,
    st: Result<Seq<char>, Seq<char>>,
    v: Result<(u8, bool), String>,
) -> bool {
    let on = match w {
        Ok(out) => radio_enabled_spec(out),
        Err(_) => false,
    };
    &&& r.wifi_enabled == on
    &&& if on {
        match sc {
            Ok(out) => is_wifi_list_of(out, wifi_views(r.networks@)),
            Err(_) => r.networks@.len() == 0,
        }
    } else {
        r.networks@.len() == 0
    }
    &&& r.net_status@ == match st {
        Ok(out) => status_from(lines(out)),
        Err(_) => Seq::<char>::empty(),
    }
    &&& (r.volume, r.muted) == match v {
        Ok(x) => x,
        Err(_) => (0u8, false),
    }
}

/// Read the state the Settings tab shows (see [`snapshot_of`]): the radio,
/// a scan while the radio is on and the network status, each read with its
/// command on the runner given, with the volume reading `volume` (as a
/// percentage; reading it takes floating point, which the host does).
pub fn read_snapshot(network: &mut Network, volume: Result<(u8, bool), String>) -> (r: SettingsSnapshot)
    ensures
        exists|
            w: Result<Seq<char>, Seq<char>>,
            sc: Result<Seq<char>, Seq<char>>,
            st: Result<Seq<char>, Seq<char>>,
        |
            #[trigger] snapshot_of(r, w, sc, st, volume) && old(network).0.may_answer(
                seq![],
                radio_argv(),
                w,
            ) && (r.wifi_enabled ==> old(network).0.may_answer(seq![radio_argv()], scan_argv(), sc))
                && old(network).0.may_answer(
                if r.wifi_enabled {
                    seq![radio_argv(), scan_argv()]
                } else {
                    seq![radio_argv()]
                },
                status_argv(),
                st,
            ),
{
    let ghost q_radio = radio_argv();
    let ghost q_scan = scan_argv();
    let ghost q_status = status_argv();
    proof {
        assert(seq![q_radio] + seq![] =~= seq![q_radio]);
        assert(seq![q_radio] + (seq![q_scan] + seq![]) =~= seq![q_radio, q_scan]);
    }
    let wifi = network.wifi_enabled();
    let ghost w = choose|res: Result<Seq<char>, Seq<char>>|
        old(network).0.may_answer(seq![], q_radio, res) && match res {
            Ok(out) => wifi == Ok::<bool, String>(radio_enabled_spec(out)),
            Err(e) => wifi matches Err(m) && m@ == e,
        };
    let on = match &wifi {
        Ok(b) => *b,
        Err(_) => false,
    };
    let ghost mut sc: Result<Seq<char>, Seq<char>> = Err(Seq::empty());
    let scan = if on {
        let found = network.scan();
        proof {
            sc = choose|res: Result<Seq<char>, Seq<char>>|
                old(network).0.may_answer(seq![q_radio], q_scan, res) && match res {
                    Ok(out) => found matches Ok(v) && is_wifi_list_of(out, wifi_views(v@)),
                    Err(e) => found matches Err(m) && m@ == e,
                };
        }
        Some(found)
    } else {
        None
    };
    let ghost hist = if on {
        seq![q_radio, q_scan]
    } else {
        seq![q_radio]
    };
    let status = network.status();
    let ghost st = choose|res: Result<Seq<char>, Seq<char>>|
        old(network).0.may_answer(hist, q_status, res) && match res {
            Ok(out) => status matches Ok(t) && t@ == status_from(lines(out)),
            Err(e) => status matches Err(m) && m@ == e,
        };
    let ghost vol = volume;
    let r = snapshot_from(wifi, scan, status, volume);
    assert(snapshot_of(r, w, sc, st, vol));
    r
}

/// The label and value a row shows.
pub open spec fn describe_spec(s: SettingsState, row: Row) -> (Seq<char>, Seq<char>) {
    match row {
        Row::WifiToggle => ("Wi-Fi"@, if s.wifi_enabled {
            "on"@
        } else {
            "off"@
        }),
        Row::Wifi(i) => {
            let net = s.networks@[i as int];
            (
                "  "@ + net.ssid@,
                "signal "@ + decimal(net.signal as nat) + "%"@ + (if net.secured {
                    " · secured"@
                } else {
                    seq![]
                }) + (if net.connected {
                    " · connected"@
                } else {
                    seq![]
                }),
            )
        },
        Row::Volume => ("Volume"@, if s.muted {
            "muted"@
        } else {
            volume_bar(s.volume) + " "@ + decimal(s.volume as nat) + "%"@
        }),
        Row::Update => ("System update"@, "atomic, auto-rollback"@),
        Row::Reboot => ("Restart"@, seq![]),
        Row::Poweroff => ("Power off"@, seq![]),
    }
}

/// Ten cells, one full per 10% of volume.
pub open spec fn volume_bar(volume: u8) -> Seq<char> {
    Seq::new(10, |i: int| if i < volume / 10 {
        '█'
    } else {
        '░'
    })
}

impl SettingsState {
    /// The label and value a row shows (see [`describe_spec`]).
    pub fn describe(&self, row: Row) -> (r: (String, String))
        requires
            row matches Row::Wifi(i) ==> i < self.networks@.len(),
        ensures
            (r.0@, r.1@) == describe_spec(*self, row),
    {
        match row {
            Row::WifiToggle => (owned("Wi-Fi"), owned(if self.wifi_enabled {
                "on"
            } else {
                "off"
            })),
            Row::Wifi(index) => {
                let network = &self.networks[index];
                let label = concat("  ", network.ssid.as_str());
                let mut status = owned("signal ");
                let digits = decimal_string(network.signal as u64);
                status.append(digits.as_str());
                status.append("%");
                if network.secured {
                    status.append(" · secured");
                }
                if network.connected {
                    status.append(" · connected");
                }
                (label, status)
            },
            Row::Volume => {
                if self.muted {
                    return (owned("Volume"), owned("muted"));
                }
                let mut bar = String::new();
                let full = self.volume / 10;
                let mut i: u8 = 0;
                while i < 10
                    invariant
                        i <= 10,
                        full == self.volume / 10,
                        bar@ == Seq::new(i as nat, |k: int| if k < full {
                            '█'
                        } else {
                            '░'
                        }),
                    decreases 10 - i,
                {
                    push_char(&mut bar, if i < full {
                        '█'
                    } else {
                        '░'
                    });
                    assert(bar@ =~= Seq::new((i + 1) as nat, |k: int| if k < full {
                        '█'
                    } else {
                        '░'
                    }));
                    i = i + 1;
                }
                bar.append(" ");
                let digits = decimal_string(self.volume as u64);
                bar.append(digits.as_str());
                bar.append("%");
                (owned("Volume"), bar)
            },
            Row::Update => (owned("System update"), owned("atomic, auto-rollback")),
            Row::Reboot => (owned("Restart"), String::new()),
            Row::Poweroff => (owned("Power off"), String::new()),
        }
    }
}

/// The status message while joining a network.
pub fn connecting_message(ssid: &str) -> (r: String)
    ensures
        r@ == "connecting to "@ + ssid@ + "…"@,
{
    let mut s = concat("connecting to ", ssid);
    s.append("…");
    s
}

/// The status message once a network is joined.
pub fn connected_message(ssid: &str) -> (r: String)
    ensures
        r@ == "connected to "@ + ssid@,
{
    concat("connected to ", ssid)
}

} // verus!
