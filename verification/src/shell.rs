//! The console shell: tabs, the modal layer (confirmations, the Wi-Fi
//! password keyboard, the update log) and the status line.
use vstd::prelude::*;

use crate::games::LaunchSpec;
use crate::input::NavEvent;
use crate::launch::{LaunchOptions, SessionEvent};
use crate::library::{LibraryAction, LibraryState};
use crate::settings::{connected_message, connecting_message, refreshing_of, SettingsAction, SettingsState};
use crate::store::{InstallEvent, StoreCatalog};
use crate::store_view::{
    app_views, apps_from_catalog, catalog_rows, listed, progress_of, StoreAction, StoreState,
};
use crate::osk::{OskOutcome, OskState};
use crate::system::strings;
use crate::text::{concat, opt_str, owned};

verus! {

broadcast use vstd::string::group_string_axioms;

// --- Tabs ------------------------------------------------------------------------

#[derive(Debug, Clone, Copy, PartialEq, Eq, Structural)]
pub enum Tab {
    Library,
    Store,
    Settings,
}

/// Position of a tab in the tab bar.
pub open spec fn tab_index(t: Tab) -> int {
    match t {
        Tab::Library => 0,
        Tab::Store => 1,
        Tab::Settings => 2,
    }
}

pub open spec fn tab_title(t: Tab) -> Seq<char> {
    match t {
        Tab::Library => "Library"@,
        Tab::Store => "Store"@,
        Tab::Settings => "Settings"@,
    }
}

impl Tab {
    pub fn title(&self) -> (r: &'static str)
        ensures
            r@ == tab_title(*self),
    {
        match self {
            Tab::Library => "Library",
            Tab::Store => "Store",
            Tab::Settings => "Settings",
        }
    }

    /// The tab `direction` steps away, wrapping around the bar.
    pub fn cycle(&self, direction: isize) -> (r: Tab)
        ensures
            tab_index(r) == (tab_index(*self) + direction) % 3,
    {
        let index: i128 = match self {
            Tab::Library => 0,
            Tab::Store => 1,
            Tab::Settings => 2,
        };
        let m = (index + direction as i128) % 3;
        let next = if m < 0 {
            m + 3
        } else {
            m
        };
        assert(next == (tab_index(*self) + direction) % 3);
        if next == 0 {
            Tab::Library
        } else if next == 1 {
            Tab::Store
        } else {
            Tab::Settings
        }
    }
}

/// Cycling one way and back returns to the same tab; three steps in one
/// direction go all the way round.
pub proof fn tab_cycle_laws(t: Tab, d: int)
    ensures
        (((tab_index(t) + d) % 3) + (-d)) % 3 == tab_index(t),
        (tab_index(t) + 3) % 3 == tab_index(t),
{
    assert((((tab_index(t) + d) % 3) + (-d)) % 3 == tab_index(t)) by (nonlinear_arith)
        requires
            0 <= tab_index(t) < 3,
    ;
}

// --- Modals ---------------------------------------------------------------------------

#[derive(Debug, Clone, PartialEq, Eq)]
pub enum PendingAction {
    Install(String),
    Uninstall(String),
    Reboot,
    Poweroff,
}

pub enum Modal {
    Confirm { title: String, action: PendingAction, yes: bool },
    WifiPassword { ssid: String, osk: OskState },
    UpdateLog,
}

/// What a navigation event in a modal leads to.
pub enum ModalOutcome {
    Nothing,
    Close,
    Install(String),
    Uninstall(String),
    Reboot,
    Poweroff,
    ConnectWifi { ssid: String, password: String },
}

/// The keyboard outcome behind a password modal's outcome: nothing
/// happened, the password was committed, or the entry was cancelled.
pub open spec fn osk_outcome_of(r: ModalOutcome) -> OskOutcome {
    match r {
        ModalOutcome::Nothing => OskOutcome::Open,
        ModalOutcome::ConnectWifi { password, .. } => OskOutcome::Commit(password),
        _ => OskOutcome::Cancel,
    }
}

impl Modal {
    /// The keyboard of a password modal has its cursor on a key.
    pub open spec fn wf(&self) -> bool {
        match self {
            Modal::WifiPassword { osk, .. } => osk.wf(),
            _ => true,
        }
    }

    /// A yes/no question; "No" is focused.
    pub fn confirm(title: String, action: PendingAction) -> (r: Modal)
        ensures
            r == (Modal::Confirm { title, action, yes: false }),
    {
        Modal::Confirm { title, action, yes: false }
    }

    /// Password entry for a secured network.
    pub fn wifi_password(ssid: String) -> (r: Modal)
        ensures
            r.wf(),
            r matches Modal::WifiPassword { ssid: s, osk } && s == ssid && osk.value_spec()
                == Seq::<char>::empty() && osk.row_spec() == 0 && osk.col_spec() == 0
                && !osk.shift_spec(),
    {
        Modal::WifiPassword { ssid, osk: OskState::new() }
    }

    /// What a navigation event does to the modal: `post` and `r` are the
    /// modal and outcome after `event` on `self`. In a confirmation the
    /// arrows flip the focus and Confirm on "Yes" runs the action (Confirm
    /// on "No" or Back closes); the password modal forwards to its keyboard
    /// (a commit joins the network, a cancel closes); the update log closes
    /// on Back.
    pub open spec fn nav_step(&self, event: NavEvent, post: Modal, r: ModalOutcome) -> bool {
        match *self {
            Modal::Confirm { title, action, yes } => {
                let arrow = event == NavEvent::Left || event == NavEvent::Right || event
                    == NavEvent::Up || event == NavEvent::Down;
                &&& post == if arrow {
                    Modal::Confirm { title, action, yes: !yes }
                } else {
                    *self
                }
                &&& if arrow {
                    r is Nothing
                } else if event == NavEvent::Confirm && yes {
                    match action {
                        PendingAction::Install(id) => r matches ModalOutcome::Install(x) && x@ == id@,
                        PendingAction::Uninstall(id) => r matches ModalOutcome::Uninstall(x) && x@
                            == id@,
                        PendingAction::Reboot => r is Reboot,
                        PendingAction::Poweroff => r is Poweroff,
                    }
                } else if event == NavEvent::Confirm || event == NavEvent::Back {
                    r is Close
                } else {
                    r is Nothing
                }
            },
            Modal::WifiPassword { ssid, osk } => {
                &&& post matches Modal::WifiPassword { ssid: s2, osk: k2 } && s2 == ssid
                    && osk.nav_step(event, k2, osk_outcome_of(r))
                &&& match r {
                    ModalOutcome::Nothing | ModalOutcome::Close => true,
                    ModalOutcome::ConnectWifi { ssid: s, .. } => s@ == ssid@,
                    _ => false,
                }
            },
            Modal::UpdateLog => post == Modal::UpdateLog && if event == NavEvent::Back {
                r is Close
            } else {
                r is Nothing
            },
        }
    }

    /// What a physical key does to the modal: the password modal hands it
    /// to its keyboard; other modals ignore it.
    pub open spec fn key_step(&self, key: Seq<char>, key_char: Option<&str>, post: Modal, r: bool) -> bool {
        match *self {
            Modal::WifiPassword { ssid, osk } => post matches Modal::WifiPassword { ssid: s2, osk: k2 }
                && s2 == ssid && osk.key_step(key, key_char, k2, r),
            _ => !r && post == *self,
        }
    }

    /// Handle a navigation event (see `nav_step`).
    pub fn handle_nav(&mut self, event: NavEvent) -> (r: ModalOutcome)
        requires
            old(self).wf(),
        ensures
            final(self).wf(),
            old(self).nav_step(event, *final(self), r),
    {
        match self {
            Modal::Confirm { action, yes, .. } => {
                if event == NavEvent::Left || event == NavEvent::Right || event == NavEvent::Up
                    || event == NavEvent::Down {
                    *yes = !*yes;
                    ModalOutcome::Nothing
                } else if event == NavEvent::Confirm && *yes {
                    match action {
                        PendingAction::Install(id) => ModalOutcome::Install(id.clone()),
                        PendingAction::Uninstall(id) => ModalOutcome::Uninstall(id.clone()),
                        PendingAction::Reboot => ModalOutcome::Reboot,
                        PendingAction::Poweroff => ModalOutcome::Poweroff,
                    }
                } else if event == NavEvent::Confirm || event == NavEvent::Back {
                    ModalOutcome::Close
                } else {
                    ModalOutcome::Nothing
                }
            },
            Modal::WifiPassword { ssid, osk } => match osk.handle_nav(event) {
                OskOutcome::Open => ModalOutcome::Nothing,
                OskOutcome::Commit(password) => ModalOutcome::ConnectWifi {
                    ssid: ssid.clone(),
                    password,
                },
                OskOutcome::Cancel => ModalOutcome::Close,
            },
            Modal::UpdateLog => {
                if event == NavEvent::Back {
                    ModalOutcome::Close
                } else {
                    ModalOutcome::Nothing
                }
            },
        }
    }

    /// Physical-keyboard entry for the password modal (see `key_step`);
    /// true when its buffer changed.
    pub fn handle_key(&mut self, key: &str, key_char: Option<&str>) -> (r: bool)
        requires
            old(self).wf(),
        ensures
            final(self).wf(),
            old(self).key_step(key@, key_char, *final(self), r),
    {
        match self {
            Modal::WifiPassword { osk, .. } => osk.handle_key(key, key_char),
            _ => false,
        }
    }
}

/// The title of a password modal.
pub fn password_title(ssid: &str) -> (r: String)
    ensures
        r@ == "Password for "@ + ssid@,
{
    concat("Password for ", ssid)
}

/// The last `keep` items of `s` (all of it when shorter).
pub open spec fn last_items(s: Seq<Seq<char>>, keep: nat) -> Seq<Seq<char>> {
    if s.len() > keep {
        s.skip(s.len() - keep)
    } else {
        s
    }
}

/// The lines the update view shows: the last 18 lines of output, or a
/// waiting note before there is any.
pub fn update_view_lines(log: &Vec<String>) -> (r: Vec<String>)
    ensures
        strings(r@) == if log@.len() == 0 {
            seq!["waiting for update output…"@]
        } else {
            last_items(strings(log@), 18)
        },
{
    if log.len() == 0 {
        let r = vec![owned("waiting for update output…")];
        assert(strings(r@) =~= seq!["waiting for update output…"@]);
        return r;
    }
    let n = log.len();
    let start = if n > 18 {
        n - 18
    } else {
        0
    };
    let ghost sl = strings(log@);
    let mut out: Vec<String> = Vec::new();
    let mut i: usize = start;
    while i < n
        invariant
            start <= i <= n == sl.len(),
            sl == strings(log@),
            strings(out@) == sl.subrange(start as int, i as int),
        decreases n - i,
    {
        let s = log[i].clone();
        let ghost before = strings(out@);
        out.push(s);
        assert(strings(out@) == before.push(s@));
        assert(sl.subrange(start as int, i + 1) == sl.subrange(start as int, i as int).push(sl[i as int]));
        i = i + 1;
    }
    assert(sl.subrange(0, n as int) == sl);
    out
}

// --- Status line -------------------------------------------------------------------------

/// How a status line is colored.
#[derive(Debug, Clone, Copy, PartialEq, Eq, Structural)]
pub enum Tone {
    Good,
    Error,
    Dim,
}

/// The status line: a running game wins, then the last message (errors
/// in the error color), else nothing.
pub fn status_line(toast: &Option<(String, bool)>, session: &Option<String>) -> (r: (String, Tone))
    ensures
        match session {
            Some(title) => r.0@ == "Running: "@ + title@ && r.1 == Tone::Good,
            None => match toast {
                Some((msg, err)) => r.0@ == msg@ && r.1 == if *err {
                    Tone::Error
                } else {
                    Tone::Dim
                },
                None => r.0@ == Seq::<char>::empty() && r.1 == Tone::Dim,
            },
        },
{
    match session {
        Some(title) => (concat("Running: ", title.as_str()), Tone::Good),
        None => match toast {
            Some((msg, err)) => (msg.clone(), if *err {
                Tone::Error
            } else {
                Tone::Dim
            }),
            None => (String::new(), Tone::Dim),
        },
    }
}

// --- The shell ---------------------------------------------------------------------------

/// Background work the shell asks its host to do.
pub enum ShellEffect {
    Nothing,
    /// Run this game session.
    Launch(LaunchSpec, LaunchOptions),
    /// Read the system state for the Settings tab.
    RefreshSettings,
    /// Scan the game sources again.
    Rescan,
    SetVolume(u8),
    SetMuted(bool),
    SetWifi(bool),
    /// Join a network (with a password for secured ones).
    Connect(String, Option<String>),
    /// Start an OS update and stream its log.
    StartUpdate,
    /// Stop streaming the update log.
    StopUpdate,
    Install(String),
    Uninstall(String),
    /// Restart (true) or power off (false).
    Power(bool),
}

/// The console shell's state: the tab, each tab's state, the modal on top
/// and the status message.
pub struct Shell {
    pub tab: Tab,
    pub library: LibraryState,
    pub store: StoreState,
    pub settings: SettingsState,
    pub modal: Option<Modal>,
    /// Transient status line: (message, is_error).
    pub toast: Option<(String, bool)>,
}

/// The modal, if open, is well formed.
pub open spec fn modal_wf(m: Option<Modal>) -> bool {
    match m {
        Some(x) => x.wf(),
        None => true,
    }
}

/// `s` with the modal `m` on top.
pub open spec fn with_modal(s: Shell, m: Option<Modal>) -> Shell {
    Shell {
        tab: s.tab,
        library: s.library,
        store: s.store,
        settings: s.settings,
        modal: m,
        toast: s.toast,
    }
}

/// A settings refresh from `pre`: started (and asked for) unless one is
/// already under way.
pub open spec fn refresh_step(pre: SettingsState, post: SettingsState, r: ShellEffect) -> bool {
    if pre.refreshing {
        r is Nothing && post == pre
    } else {
        r is RefreshSettings && post == refreshing_of(pre)
    }
}

/// How the shell takes a Library action: a launch is handed on, a message
/// becomes the status line (and a rescan also asks for a scan).
pub open spec fn library_effect(
    a: LibraryAction,
    r: ShellEffect,
    toast: Option<(String, bool)>,
    post_toast: Option<(String, bool)>,
) -> bool {
    match a {
        LibraryAction::Launch(spec, opts) => r == ShellEffect::Launch(spec, opts) && post_toast == toast,
        LibraryAction::Toast(m) => r is Nothing && post_toast == Some((m, false)),
        LibraryAction::Rescan(m) => r is Rescan && post_toast == Some((m, false)),
        LibraryAction::Nothing => r is Nothing && post_toast == toast,
    }
}

/// How the shell takes a Store action: a message becomes the status line,
/// a question opens a confirmation with "No" focused.
pub open spec fn store_effect(
    a: StoreAction,
    r: ShellEffect,
    toast: Option<(String, bool)>,
    post_toast: Option<(String, bool)>,
    post_modal: Option<Modal>,
) -> bool {
    &&& r is Nothing
    &&& match a {
        StoreAction::Toast(m) => post_toast == Some((m, false)) && post_modal is None,
        StoreAction::Confirm(t, act) => post_toast == toast && post_modal == Some(
            Modal::Confirm { title: t, action: act, yes: false },
        ),
        StoreAction::Nothing => post_toast == toast && post_modal is None,
    }
}

/// How the shell takes a Settings action, given the tab's state `mid`
/// after the event: system changes are handed on, a secured network opens
/// the password modal, joining an open network says so on the status
/// line, an update opens its log, a question opens a confirmation, and a
/// rescan refreshes the tab.
pub open spec fn settings_effect(
    a: SettingsAction,
    mid: SettingsState,
    post: SettingsState,
    r: ShellEffect,
    toast: Option<(String, bool)>,
    post_toast: Option<(String, bool)>,
    post_modal: Option<Modal>,
) -> bool {
    match a {
        SettingsAction::Refresh => refresh_step(mid, post, r) && post_toast == toast && post_modal is None,
        _ => {
            &&& post == mid
            &&& match a {
                SettingsAction::Nothing => r is Nothing && post_toast == toast && post_modal is None,
                SettingsAction::SetVolume(v) => r == ShellEffect::SetVolume(v) && post_toast == toast
                    && post_modal is None,
                SettingsAction::SetMuted(m) => r == ShellEffect::SetMuted(m) && post_toast == toast
                    && post_modal is None,
                SettingsAction::SetWifi(b) => r == ShellEffect::SetWifi(b) && post_toast == toast
                    && post_modal is None,
                SettingsAction::Toast(m) => r is Nothing && post_toast == Some((m, false))
                    && post_modal is None,
                SettingsAction::AskPassword(ssid) => r is Nothing && post_toast == toast && (post_modal matches Some(
                    Modal::WifiPassword { ssid: s, osk },
                ) && s == ssid && osk.wf() && osk.value_spec() == Seq::<char>::empty()
                    && osk.row_spec() == 0 && osk.col_spec() == 0 && !osk.shift_spec()),
                SettingsAction::Connect(ssid) => (r matches ShellEffect::Connect(s, p) && s == ssid
                    && p is None) && (post_toast matches Some((m, e)) && m@ == "connecting to "@
                    + ssid@ + "…"@ && !e) && post_modal is None,
                SettingsAction::StartUpdate => r is StartUpdate && post_toast == toast && post_modal
                    == Some(Modal::UpdateLog),
                SettingsAction::Confirm(t, act) => r is Nothing && post_toast == toast && post_modal
                    == Some(Modal::Confirm { title: t, action: act, yes: false }),
                _ => false,
            }
        },
    }
}

/// What a modal's outcome does to the shell: closing (the update log also
/// stops streaming), installing (the store shows the install at 0%),
/// uninstalling, power actions (the modal stays until the machine goes
/// down) and joining a network (said on the status line).
pub open spec fn outcome_step(pre: Shell, o: ModalOutcome, post: Shell, r: ShellEffect) -> bool {
    match o {
        ModalOutcome::Nothing => r is Nothing && post == pre,
        ModalOutcome::Close => post == with_modal(pre, None) && if pre.modal matches Some(
            Modal::UpdateLog,
        ) {
            r is StopUpdate
        } else {
            r is Nothing
        },
        ModalOutcome::Install(id) => {
            &&& r == ShellEffect::Install(id)
            &&& pre.store.with_progress(post.store, id@, Some(0u8))
            &&& post.modal is None
            &&& post.tab == pre.tab && post.library == pre.library && post.settings == pre.settings
            &&& post.toast == pre.toast
        },
        ModalOutcome::Uninstall(id) => r == ShellEffect::Uninstall(id) && post == with_modal(pre, None),
        ModalOutcome::Reboot => r == ShellEffect::Power(true) && post == pre,
        ModalOutcome::Poweroff => r == ShellEffect::Power(false) && post == pre,
        ModalOutcome::ConnectWifi { ssid, password } => {
            &&& r == ShellEffect::Connect(ssid, Some(password))
            &&& post.toast matches Some((m, e)) && m@ == "connecting to "@ + ssid@ + "…"@ && !e
            &&& post.modal is None
            &&& post.tab == pre.tab && post.library == pre.library && post.store == pre.store
            &&& post.settings == pre.settings
        },
    }
}

impl Shell {
    /// The Library tab, nothing loaded, no modal.
    pub fn new() -> (r: Self)
        ensures
            r.tab == Tab::Library,
            r.modal is None,
            r.toast is None,
            r.library.games@.len() == 0 && r.library.selected == 0 && !r.library.scanning,
            r.library.session is None && !r.library.gamescope,
            r.store.apps@.len() == 0 && r.store.selected == 0 && r.store.installed@.len() == 0,
            r.store.installing@.len() == 0 && r.store.load_error is None,
            r.settings.selected == 0 && !r.settings.wifi_enabled && r.settings.networks@.len() == 0,
            r.settings.volume == 0 && !r.settings.muted && !r.settings.refreshing,
            r.settings.net_status@.len() == 0 && r.settings.update_log@.len() == 0,
    {
        Shell {
            tab: Tab::Library,
            library: LibraryState::default(),
            store: StoreState::default(),
            settings: SettingsState::default(),
            modal: None,
            toast: None,
        }
    }

    /// Close the modal; closing the update log stops streaming it.
    pub fn close_modal(&mut self) -> (r: ShellEffect)
        ensures
            *final(self) == with_modal(*old(self), None),
            if old(self).modal matches Some(Modal::UpdateLog) {
                r is StopUpdate
            } else {
                r is Nothing
            },
    {
        let was_log = match &self.modal {
            Some(Modal::UpdateLog) => true,
            _ => false,
        };
        self.modal = None;
        if was_log {
            ShellEffect::StopUpdate
        } else {
            ShellEffect::Nothing
        }
    }

    /// Refresh the Settings tab unless a refresh is under way.
    pub fn refresh_settings(&mut self) -> (r: ShellEffect)
        ensures
            refresh_step(old(self).settings, final(self).settings, r),
            final(self).tab == old(self).tab,
            final(self).library == old(self).library,
            final(self).store == old(self).store,
            final(self).modal == old(self).modal,
            final(self).toast == old(self).toast,
    {
        if self.settings.begin_refresh() {
            ShellEffect::RefreshSettings
        } else {
            ShellEffect::Nothing
        }
    }

    /// Switch `direction` tabs over; landing on Settings refreshes it.
    pub fn cycle_tab(&mut self, direction: isize) -> (r: ShellEffect)
        ensures
            tab_index(final(self).tab) == (tab_index(old(self).tab) + direction) % 3,
            final(self).library == old(self).library,
            final(self).store == old(self).store,
            final(self).modal == old(self).modal,
            final(self).toast == old(self).toast,
            if final(self).tab == Tab::Settings {
                refresh_step(old(self).settings, final(self).settings, r)
            } else {
                r is Nothing && final(self).settings == old(self).settings
            },
    {
        self.tab = self.tab.cycle(direction);
        if self.tab == Tab::Settings {
            self.refresh_settings()
        } else {
            ShellEffect::Nothing
        }
    }

    /// A navigation event on the Library tab, taken as `library_effect`
    /// says.
    fn library_nav(&mut self, event: NavEvent) -> (r: ShellEffect)
        requires
            event != NavEvent::TabNext && event != NavEvent::TabPrev,
            old(self).library.selected + 4 <= isize::MAX,
        ensures
            exists|a: LibraryAction|
                #[trigger] old(self).library.nav_step(event, final(self).library, a) && library_effect(
                    a,
                    r,
                    old(self).toast,
                    final(self).toast,
                ),
            final(self).tab == old(self).tab,
            final(self).store == old(self).store,
            final(self).settings == old(self).settings,
            final(self).modal == old(self).modal,
    {
        let a = self.library.handle_nav(event);
        let ghost ga = a;
        let r = match a {
            LibraryAction::Launch(spec, opts) => ShellEffect::Launch(spec, opts),
            LibraryAction::Toast(m) => {
                self.toast = Some((m, false));
                ShellEffect::Nothing
            },
            LibraryAction::Rescan(m) => {
                self.toast = Some((m, false));
                ShellEffect::Rescan
            },
            LibraryAction::Nothing => ShellEffect::Nothing,
        };
        assert(old(self).library.nav_step(event, self.library, ga));
        r
    }

    /// A navigation event on the Store tab, taken as `store_effect` says.
    fn store_nav(&mut self, event: NavEvent) -> (r: ShellEffect)
        requires
            old(self).modal is None,
        ensures
            exists|a: StoreAction|
                #[trigger] old(self).store.nav_step(event, final(self).store, a) && store_effect(
                    a,
                    r,
                    old(self).toast,
                    final(self).toast,
                    final(self).modal,
                ),
            final(self).tab == old(self).tab,
            final(self).library == old(self).library,
            final(self).settings == old(self).settings,
    {
        let a = self.store.handle_nav(event);
        let ghost ga = a;
        match a {
            StoreAction::Toast(m) => {
                self.toast = Some((m, false));
            },
            StoreAction::Confirm(title, action) => {
                self.modal = Some(Modal::confirm(title, action));
            },
            StoreAction::Nothing => {},
        }
        assert(old(self).store.nav_step(event, self.store, ga));
        ShellEffect::Nothing
    }

    /// A navigation event on the Settings tab, taken as `settings_effect`
    /// says.
    fn settings_nav(&mut self, event: NavEvent) -> (r: ShellEffect)
        requires
            old(self).modal is None,
            old(self).settings.networks@.len() + 5 <= usize::MAX,
            old(self).settings.selected < usize::MAX,
        ensures
            exists|a: SettingsAction, mid: SettingsState|
                #[trigger] old(self).settings.nav_step(event, mid, a) && settings_effect(
                    a,
                    mid,
                    final(self).settings,
                    r,
                    old(self).toast,
                    final(self).toast,
                    final(self).modal,
                ),
            final(self).tab == old(self).tab,
            final(self).library == old(self).library,
            final(self).store == old(self).store,
    {
        let a = self.settings.handle_nav(event);
        let ghost ga = a;
        let ghost mid = self.settings;
        let r = match a {
            SettingsAction::Nothing => ShellEffect::Nothing,
            SettingsAction::SetVolume(v) => ShellEffect::SetVolume(v),
            SettingsAction::SetMuted(m) => ShellEffect::SetMuted(m),
            SettingsAction::SetWifi(b) => ShellEffect::SetWifi(b),
            SettingsAction::Toast(m) => {
                self.toast = Some((m, false));
                ShellEffect::Nothing
            },
            SettingsAction::AskPassword(ssid) => {
                self.modal = Some(Modal::wifi_password(ssid));
                ShellEffect::Nothing
            },
            SettingsAction::Connect(ssid) => {
                self.toast = Some((connecting_message(ssid.as_str()), false));
                ShellEffect::Connect(ssid, None)
            },
            SettingsAction::StartUpdate => {
                self.modal = Some(Modal::UpdateLog);
                ShellEffect::StartUpdate
            },
            SettingsAction::Confirm(title, action) => {
                self.modal = Some(Modal::confirm(title, action));
                ShellEffect::Nothing
            },
            SettingsAction::Refresh => self.refresh_settings(),
        };
        assert(old(self).settings.nav_step(event, mid, ga));
        r
    }

    /// Route a navigation event: a running game swallows everything; an
    /// open modal takes every event (`Modal::nav_step`, then
    /// `outcome_step`); otherwise RB/LB switch tabs and the rest goes to the
    /// current tab.
    pub fn handle_nav(&mut self, event: NavEvent) -> (r: ShellEffect)
        requires
            modal_wf(old(self).modal),
            old(self).library.selected + 4 <= isize::MAX,
            old(self).settings.networks@.len() + 5 <= usize::MAX,
            old(self).settings.selected < usize::MAX,
        ensures
            modal_wf(final(self).modal),
            old(self).library.session is Some ==> r is Nothing && *final(self) == *old(self),
            old(self).library.session is None ==> match old(self).modal {
                Some(m0) => exists|m: Modal, o: ModalOutcome|
                    #[trigger] m0.nav_step(event, m, o) && outcome_step(
                        with_modal(*old(self), Some(m)),
                        o,
                        *final(self),
                        r,
                    ),
                None => if event == NavEvent::TabNext || event == NavEvent::TabPrev {
                    let d: int = if event == NavEvent::TabNext {
                        1
                    } else {
                        -1
                    };
                    &&& tab_index(final(self).tab) == (tab_index(old(self).tab) + d) % 3
                    &&& final(self).library == old(self).library
                    &&& final(self).store == old(self).store
                    &&& final(self).modal is None
                    &&& final(self).toast == old(self).toast
                    &&& if final(self).tab == Tab::Settings {
                        refresh_step(old(self).settings, final(self).settings, r)
                    } else {
                        r is Nothing && final(self).settings == old(self).settings
                    }
                } else {
                    &&& final(self).tab == old(self).tab
                    &&& match old(self).tab {
                        Tab::Library => {
                            &&& exists|a: LibraryAction|
                                #[trigger] old(self).library.nav_step(event, final(self).library, a)
                                    && library_effect(a, r, old(self).toast, final(self).toast)
                            &&& final(self).store == old(self).store
                            &&& final(self).settings == old(self).settings
                            &&& final(self).modal is None
                        },
                        Tab::Store => {
                            &&& exists|a: StoreAction|
                                #[trigger] old(self).store.nav_step(event, final(self).store, a)
                                    && store_effect(
                                    a,
                                    r,
                                    old(self).toast,
                                    final(self).toast,
                                    final(self).modal,
                                )
                            &&& final(self).library == old(self).library
                            &&& final(self).settings == old(self).settings
                        },
                        Tab::Settings => {
                            &&& exists|a: SettingsAction, mid: SettingsState|
                                #[trigger] old(self).settings.nav_step(event, mid, a)
                                    && settings_effect(
                                    a,
                                    mid,
                                    final(self).settings,
                                    r,
                                    old(self).toast,
                                    final(self).toast,
                                    final(self).modal,
                                )
                            &&& final(self).library == old(self).library
                            &&& final(self).store == old(self).store
                        },
                    }
                },
            },
    {
        if self.library.session.is_some() {
            return ShellEffect::Nothing;
        }
        let ghost pre = *self;
        let outcome = match &mut self.modal {
            Some(modal) => Some(modal.handle_nav(event)),
            None => None,
        };
        match outcome {
            Some(o) => {
                let ghost go = o;
                assert(pre.modal->0.nav_step(event, self.modal->0, go));
                assert(*self == with_modal(pre, self.modal));
                return self.on_modal_outcome(o);
            },
            None => {},
        }
        match event {
            NavEvent::TabNext => self.cycle_tab(1),
            NavEvent::TabPrev => self.cycle_tab(-1),
            _ => match self.tab {
                Tab::Library => self.library_nav(event),
                Tab::Store => self.store_nav(event),
                Tab::Settings => self.settings_nav(event),
            },
        }
    }

    /// Ask for a library scan unless one is under way.
    pub fn rescan(&mut self) -> (r: ShellEffect)
        ensures
            final(self).library.scanning,
            if old(self).library.scanning {
                r is Nothing
            } else {
                r is Rescan
            },
            final(self).library.games@ == old(self).library.games@,
            final(self).library.selected == old(self).library.selected,
            final(self).library.session == old(self).library.session,
            final(self).library.gamescope == old(self).library.gamescope,
            final(self).tab == old(self).tab,
            final(self).store == old(self).store,
            final(self).settings == old(self).settings,
            final(self).modal == old(self).modal,
            final(self).toast == old(self).toast,
    {
        if self.library.begin_rescan() {
            ShellEffect::Rescan
        } else {
            ShellEffect::Nothing
        }
    }

    /// A game session event: the session ends when the game exits, and a
    /// game that exits with an error says so.
    pub fn on_session_event(&mut self, event: SessionEvent)
        ensures
            final(self).library.games@ == old(self).library.games@,
            final(self).library.selected == old(self).library.selected,
            final(self).tab == old(self).tab,
            final(self).store == old(self).store,
            final(self).settings == old(self).settings,
            final(self).modal == old(self).modal,
            match event {
                SessionEvent::Started => final(self).library.session == old(self).library.session
                    && final(self).toast == old(self).toast,
                SessionEvent::Exited { success } => {
                    &&& final(self).library.session is None
                    &&& if success {
                        final(self).toast == old(self).toast
                    } else {
                        final(self).toast matches Some((m, e)) && e && m@ == match opt_str(
                            old(self).library.session,
                        ) {
                            Some(t) => t,
                            None => "game"@,
                        } + " exited with an error"@
                    }
                },
            },
    {
        match self.library.on_session_event(event) {
            Some(message) => {
                self.toast = Some((message, true));
            },
            None => {},
        }
    }

    /// The loaded catalog with the installed apps (the store lists the
    /// catalog's apps under placeholder names until their details arrive),
    /// or why it could not be loaded.
    pub fn on_catalog(&mut self, loaded: Result<(StoreCatalog, Vec<String>), String>)
        ensures
            match loaded {
                Ok((catalog, installed)) => {
                    &&& app_views(final(self).store.apps@) == catalog_rows(catalog.categories@)
                    &&& forall|i: int|
                        0 <= i < final(self).store.apps@.len()
                            ==> (#[trigger] final(self).store.apps@[i]).icon is None
                    &&& final(self).store.installed == installed
                    &&& final(self).store.load_error == old(self).store.load_error
                },
                Err(e) => final(self).store.load_error == Some(e) && final(self).store.apps
                    == old(self).store.apps && final(self).store.installed == old(self).store.installed,
            },
            final(self).store.installing == old(self).store.installing,
            final(self).store.selected == old(self).store.selected,
            final(self).tab == old(self).tab,
            final(self).library == old(self).library,
            final(self).settings == old(self).settings,
            final(self).modal == old(self).modal,
            final(self).toast == old(self).toast,
    {
        match loaded {
            Ok((catalog, installed)) => {
                self.store.apps = apps_from_catalog(&catalog);
                self.store.installed = installed;
            },
            Err(e) => {
                self.store.load_error = Some(e);
            },
        }
    }

    /// An event of an install under way: progress shows on the app's row;
    /// when it finishes its message shows (as an error unless it
    /// succeeded), and a successful install marks the app installed and
    /// scans the library again.
    pub fn on_install_event(&mut self, app_id: &str, event: InstallEvent) -> (r: ShellEffect)
        ensures
            final(self).store.apps == old(self).store.apps,
            final(self).store.selected == old(self).store.selected,
            final(self).tab == old(self).tab,
            final(self).settings == old(self).settings,
            final(self).modal == old(self).modal,
            final(self).library.games@ == old(self).library.games@,
            final(self).library.session == old(self).library.session,
            match event {
                InstallEvent::Progress(p) => {
                    &&& r is Nothing
                    &&& old(self).store.with_progress(final(self).store, app_id@, Some(p))
                    &&& final(self).toast == old(self).toast
                    &&& final(self).library == old(self).library
                },
                InstallEvent::Done { success, message } => {
                    &&& final(self).toast matches Some((m, e)) && m@ == message@ && e == !success
                    &&& progress_of(final(self).store.installing@, app_id@) is None
                    &&& forall|x: Seq<char>|
                        x != app_id@ ==> #[trigger] progress_of(final(self).store.installing@, x)
                            == progress_of(old(self).store.installing@, x)
                    &&& forall|x: Seq<char>|
                        #[trigger] listed(final(self).store.installed@, x) == ((success && x
                            == app_id@) || listed(old(self).store.installed@, x))
                    &&& if success {
                        &&& final(self).library.scanning
                        &&& if old(self).library.scanning {
                            r is Nothing
                        } else {
                            r is Rescan
                        }
                    } else {
                        r is Nothing && final(self).library == old(self).library
                    }
                },
            },
    {
        match self.store.on_install_event(app_id, event) {
            Some((message, is_error, rescan)) => {
                self.toast = Some((message, is_error));
                if rescan {
                    self.rescan()
                } else {
                    ShellEffect::Nothing
                }
            },
            None => ShellEffect::Nothing,
        }
    }

    /// A finished uninstall: on success the app is no longer installed,
    /// "<app id> removed" shows and the library is scanned again; a failure
    /// shows its message as an error.
    pub fn on_uninstalled(&mut self, result: Result<String, String>) -> (r: ShellEffect)
        ensures
            final(self).tab == old(self).tab,
            final(self).settings == old(self).settings,
            final(self).modal == old(self).modal,
            final(self).store.apps == old(self).store.apps,
            final(self).store.installing == old(self).store.installing,
            final(self).store.selected == old(self).store.selected,
            final(self).library.games@ == old(self).library.games@,
            final(self).library.session == old(self).library.session,
            match result {
                Ok(id) => {
                    &&& forall|x: Seq<char>|
                        #[trigger] listed(final(self).store.installed@, x) == (x != id@ && listed(
                            old(self).store.installed@,
                            x,
                        ))
                    &&& final(self).toast matches Some((m, e)) && m@ == id@ + " removed"@ && !e
                    &&& final(self).library.scanning
                    &&& if old(self).library.scanning {
                        r is Nothing
                    } else {
                        r is Rescan
                    }
                },
                Err(err) => r is Nothing && final(self).toast == Some((err, true))
                    && final(self).store == old(self).store && final(self).library == old(
                    self,
                ).library,
            },
    {
        match result {
            Ok(id) => {
                self.store.mark_removed(id.as_str());
                self.toast = Some((concat(id.as_str(), " removed"), false));
                self.rescan()
            },
            Err(err) => {
                self.toast = Some((err, true));
                ShellEffect::Nothing
            },
        }
    }

    /// The result of switching the Wi-Fi radio: a failure shows as an
    /// error; the Settings tab is refreshed either way.
    pub fn on_wifi_switched(&mut self, result: Result<(), String>) -> (r: ShellEffect)
        ensures
            match result {
                Ok(_) => final(self).toast == old(self).toast,
                Err(err) => final(self).toast == Some((err, true)),
            },
            refresh_step(old(self).settings, final(self).settings, r),
            final(self).tab == old(self).tab,
            final(self).library == old(self).library,
            final(self).store == old(self).store,
            final(self).modal == old(self).modal,
    {
        match result {
            Ok(_) => {},
            Err(err) => {
                self.toast = Some((err, true));
            },
        }
        self.refresh_settings()
    }

    /// The result of joining `ssid`: "connected to <ssid>", or the error;
    /// the Settings tab is refreshed either way.
    pub fn on_connected(&mut self, ssid: &str, result: Result<(), String>) -> (r: ShellEffect)
        ensures
            match result {
                Ok(_) => final(self).toast matches Some((m, e)) && m@ == "connected to "@ + ssid@ && !e,
                Err(err) => final(self).toast == Some((err, true)),
            },
            refresh_step(old(self).settings, final(self).settings, r),
            final(self).tab == old(self).tab,
            final(self).library == old(self).library,
            final(self).store == old(self).store,
            final(self).modal == old(self).modal,
    {
        match result {
            Ok(_) => {
                self.toast = Some((connected_message(ssid), false));
            },
            Err(err) => {
                self.toast = Some((err, true));
            },
        }
        self.refresh_settings()
    }

    /// A system command that failed in the foreground (a power action, the
    /// update log) shows its error.
    pub fn on_command_failed(&mut self, err: String)
        ensures
            final(self).toast == Some((err, true)),
            final(self).tab == old(self).tab,
            final(self).library == old(self).library,
            final(self).store == old(self).store,
            final(self).settings == old(self).settings,
            final(self).modal == old(self).modal,
    {
        self.toast = Some((err, true));
    }

    /// What a modal's outcome does (see `outcome_step`).
    pub fn on_modal_outcome(&mut self, outcome: ModalOutcome) -> (r: ShellEffect)
        requires
            modal_wf(old(self).modal),
        ensures
            modal_wf(final(self).modal),
            outcome_step(*old(self), outcome, *final(self), r),
    {
        match outcome {
            ModalOutcome::Nothing => ShellEffect::Nothing,
            ModalOutcome::Close => self.close_modal(),
            ModalOutcome::Install(id) => {
                self.modal = None;
                self.store.set_progress(id.as_str(), 0);
                ShellEffect::Install(id)
            },
            ModalOutcome::Uninstall(id) => {
                self.modal = None;
                ShellEffect::Uninstall(id)
            },
            ModalOutcome::Reboot => ShellEffect::Power(true),
            ModalOutcome::Poweroff => ShellEffect::Power(false),
            ModalOutcome::ConnectWifi { ssid, password } => {
                self.modal = None;
                self.toast = Some((connecting_message(ssid.as_str()), false));
                ShellEffect::Connect(ssid, Some(password))
            },
        }
    }
}

} // verus!
